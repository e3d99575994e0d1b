//! The operands are there: whenever the machine takes a frame that works
//! on values, the values lie on the stack. A state in which they do is
//! followed by such states alone.

use vstd::prelude::*;
use crate::environments::undefined_variable;
use crate::expressions::Expr;
use crate::machine::below_top;
use crate::machine::boundary_frames;
use crate::machine::clock_failed;
use crate::machine::entry_of;
use crate::machine::evaluate;
use crate::machine::execute;
use crate::machine::invoke;
use crate::machine::leave;
use crate::machine::not_callable;
use crate::machine::program_frames;
use crate::machine::raise;
use crate::machine::run;
use crate::machine::step;
use crate::machine::top;
use crate::machine::wrong_arity;
use crate::machine::Answer;
use crate::machine::Frame;
use crate::machine::State;
use crate::statements::Stmt;
use crate::tokens::Token;
use crate::values::binary_result;
use crate::values::unary_result;
use crate::values::Callee;
use crate::values::ValueView;

verus! {

/// The number of values that a frame takes off the stack.
pub open spec fn need<'a>(frame: Frame<'a>) -> int {
    match frame {
        Frame::Discard | Frame::Print | Frame::Define(_) | Frame::Branch(_, _) | Frame::Test(_, _)
        | Frame::Return | Frame::Unary(_) | Frame::Logical(_, _) | Frame::Assign(_) => 1,
        Frame::Binary(_) => 2,
        Frame::Invoke(_, count) => count + 1,
        _ => 0,
    }
}

/// By how much the stack has grown when a frame, and all that it
/// schedules, is done.
pub open spec fn gain<'a>(frame: Frame<'a>) -> int {
    match frame {
        Frame::Discard | Frame::Print | Frame::Define(_) | Frame::Branch(_, _) | Frame::Test(_, _)
        | Frame::Return | Frame::Binary(_) => -1,
        Frame::Eval(_) | Frame::Call(_, _) => 1,
        Frame::Arguments(list, next) => if next <= list@.len() {
            list@.len() - next
        } else {
            0
        },
        Frame::Invoke(_, count) => -count,
        _ => 0,
    }
}

/// The number of values that lie on the stack when the top frame is
/// taken: none when the last frame is done, and below every frame what
/// the frame gains less.
pub open spec fn height<'a>(frames: Seq<Frame<'a>>) -> int
    decreases frames.len(),
{
    if frames.len() == 0 {
        0
    } else {
        height(frames.drop_last()) - gain(frames.last())
    }
}

/// The height that the stack had when the innermost call began, below
/// which no frame of the call reaches; 0 outside any call.
pub open spec fn floor<'a>(frames: Seq<Frame<'a>>) -> int
    decreases frames.len(),
{
    if frames.len() == 0 {
        0
    } else {
        match frames.last() {
            Frame::Call(_, base) => base as int,
            _ => floor(frames.drop_last()),
        }
    }
}

/// Whether the top frame will find its operands above the floor, and,
/// where it is a boundary, the stack at the boundary's height.
pub open spec fn top_in_order<'a>(frames: Seq<Frame<'a>>) -> bool
    recommends
        frames.len() > 0,
{
    &&& height(frames) - need(frames.last()) >= floor(frames.drop_last())
    &&& frames.last() matches Frame::Call(_, base) ==> height(frames) == base
    &&& frames.last() is Program ==> height(frames) == 0
}

/// Whether every frame will find its operands.
pub open spec fn in_order<'a>(frames: Seq<Frame<'a>>) -> bool
    decreases frames.len(),
{
    frames.len() == 0 || (in_order(frames.drop_last()) && top_in_order(frames))
}

/// The operands are in place: the stack holds as many values as the
/// frames are to find, and every frame will find its operands.
pub open spec fn operands_in_place<'a>(state: State<'a>) -> bool {
    in_order(state.frames) && state.values.len() == height(state.frames)
}

/// What one more frame makes of the height, of the floor and of the order.
pub proof fn with_frame<'a>(frames: Seq<Frame<'a>>, frame: Frame<'a>)
    ensures
        height(frames.push(frame)) == height(frames) - gain(frame),
        floor(frames.push(frame)) == match frame {
            Frame::Call(_, base) => base as int,
            _ => floor(frames),
        },
        in_order(frames.push(frame)) == (in_order(frames) && height(frames) - gain(frame) - need(frame)
            >= floor(frames) && (frame matches Frame::Call(_, base) ==> height(frames) - gain(frame) == base)
            && (frame is Program ==> height(frames) - gain(frame) == 0)),
{
    assert(frames.push(frame).drop_last() =~= frames);
}

/// Frames in order lie above a floor that is no lower than the ground
/// and no higher than the stack.
pub proof fn floor_is_within<'a>(frames: Seq<Frame<'a>>)
    requires
        in_order(frames),
    ensures
        0 <= floor(frames) <= height(frames),
    decreases frames.len(),
{
    if frames.len() > 0 {
        floor_is_within(frames.drop_last());
    }
}

/// The frames up to the one that runs the program are in order, at
/// height 0.
pub proof fn program_frames_in_order<'a>(frames: Seq<Frame<'a>>)
    requires
        in_order(frames),
    ensures
        in_order(program_frames(frames)),
        height(program_frames(frames)) == 0,
    decreases frames.len(),
{
    if frames.len() > 0 && !(frames.last() is Program) {
        program_frames_in_order(frames.drop_last());
    }
}

/// The frames up to the nearest boundary are in order; the boundary of a
/// call stands at the floor.
pub proof fn boundary_frames_in_order<'a>(frames: Seq<Frame<'a>>)
    requires
        in_order(frames),
    ensures
        in_order(boundary_frames(frames)),
        boundary_frames(frames).len() == 0 ==> height(boundary_frames(frames)) == 0,
        boundary_frames(frames).len() > 0 && boundary_frames(frames).last() is Program ==> height(
            boundary_frames(frames),
        ) == 0,
        boundary_frames(frames).len() > 0 && boundary_frames(frames).last() is Call ==> {
            &&& boundary_frames(frames).last()->Call_1 == floor(frames)
            &&& boundary_frames(frames).last()->Call_1 == height(boundary_frames(frames))
            &&& in_order(boundary_frames(frames).drop_last())
            &&& height(boundary_frames(frames).drop_last()) == boundary_frames(frames).last()->Call_1 + 1
        },
    decreases frames.len(),
{
    if frames.len() > 0 && !(frames.last() is Program || frames.last() is Call) {
        boundary_frames_in_order(frames.drop_last());
    }
}

/// An error leaves the operands in place.
pub proof fn raise_keeps_operands<'a>(state: State<'a>, message: Seq<char>)
    requires
        in_order(state.frames),
    ensures
        operands_in_place(raise(state, message)),
{
    program_frames_in_order(state.frames);
}

/// A return leaves the operands in place, where the values do not reach
/// below the floor.
pub proof fn leave_keeps_operands<'a>(state: State<'a>, value: ValueView)
    requires
        in_order(state.frames),
        state.values.len() >= floor(state.frames),
    ensures
        operands_in_place(leave(state, value)),
{
    boundary_frames_in_order(state.frames);
    boundary_frames_end(state.frames);
}

/// A statement leaves the operands in place.
pub proof fn execute_keeps_operands<'a>(state: State<'a>, statement: &'a Stmt, base: int)
    requires
        in_order(state.frames),
        state.values.len() == height(state.frames),
        state.values.len() >= base,
        base >= floor(state.frames),
    ensures
        operands_in_place(execute(state, statement)),
{
    let frames = state.frames;
    floor_is_within(frames);
    match statement {
        Stmt::Expression(expression) => {
            with_frame(frames, Frame::Discard);
            with_frame(frames.push(Frame::Discard), Frame::Eval(expression));
        },
        Stmt::Print(expression) => {
            with_frame(frames, Frame::Print);
            with_frame(frames.push(Frame::Print), Frame::Eval(expression));
        },
        Stmt::Var(name, Some(initializer)) => {
            with_frame(frames, Frame::Define(name));
            with_frame(frames.push(Frame::Define(name)), Frame::Eval(initializer));
        },
        Stmt::Var(name, None) => {},
        Stmt::Block(list) => {
            with_frame(frames, Frame::Restore(entry_of(state)));
            with_frame(frames.push(Frame::Restore(entry_of(state))), Frame::Sequence(list, 0));
        },
        Stmt::If(condition, then_branch, else_branch) => {
            with_frame(frames, Frame::Branch(then_branch, else_branch));
            with_frame(frames.push(Frame::Branch(then_branch, else_branch)), Frame::Eval(condition));
        },
        Stmt::While(condition, body) => {
            with_frame(frames, Frame::Test(condition, body));
            with_frame(frames.push(Frame::Test(condition, body)), Frame::Eval(condition));
        },
        Stmt::Function(name, parameters, body) => {},
        Stmt::Return(_, Some(value)) => {
            with_frame(frames, Frame::Return);
            with_frame(frames.push(Frame::Return), Frame::Eval(value));
        },
        Stmt::Return(_, None) => {
            leave_keeps_operands(state, ValueView::Nil);
        },
    }
}

/// The evaluation of an expression leaves the operands in place.
pub proof fn evaluate_keeps_operands<'a>(
    before: State<'a>,
    state: State<'a>,
    expression: &'a Expr,
    answer: Answer,
)
    requires
        operands_in_place(before),
        in_order(state.frames),
        state.values.len() == height(state.frames) - 1,
        state.values.len() >= floor(state.frames),
    ensures
        operands_in_place(evaluate(before, state, expression, answer).state),
{
    let frames = state.frames;
    match expression {
        Expr::Grouping(inner) => {
            with_frame(frames, Frame::Eval(inner));
        },
        Expr::Variable(name) => {
            raise_keeps_operands(state, undefined_variable(name.line_number, name.name@));
        },
        Expr::Assign(name, value) => {
            with_frame(frames, Frame::Assign(name));
            with_frame(frames.push(Frame::Assign(name)), Frame::Eval(value));
        },
        Expr::Unary(operator, operand) => {
            with_frame(frames, Frame::Unary(operator));
            with_frame(frames.push(Frame::Unary(operator)), Frame::Eval(operand));
        },
        Expr::Binary(left, operator, right) => {
            with_frame(frames, Frame::Binary(operator));
            with_frame(frames.push(Frame::Binary(operator)), Frame::Eval(right));
            with_frame(frames.push(Frame::Binary(operator)).push(Frame::Eval(right)), Frame::Eval(left));
        },
        Expr::Logical(left, operator, right) => {
            with_frame(frames, Frame::Logical(operator, right));
            with_frame(frames.push(Frame::Logical(operator, right)), Frame::Eval(left));
        },
        Expr::Call(callee, paren, arguments) => {
            vstd::std_specs::vec::axiom_spec_len(arguments);
            let count = arguments.len();
            with_frame(frames, Frame::Invoke(paren, count));
            with_frame(frames.push(Frame::Invoke(paren, count)), Frame::Arguments(arguments, 0));
            with_frame(
                frames.push(Frame::Invoke(paren, count)).push(Frame::Arguments(arguments, 0)),
                Frame::Eval(callee),
            );
        },
        _ => {},
    }
}

/// A call leaves the operands in place.
pub proof fn invoke_keeps_operands<'a>(
    before: State<'a>,
    state: State<'a>,
    paren: &'a Token,
    count: usize,
    answer: Answer,
)
    requires
        operands_in_place(before),
        in_order(state.frames),
        state.values.len() == height(state.frames) + count,
        state.values.len() - count - 1 >= floor(state.frames),
        state.values.len() <= usize::MAX,
    ensures
        operands_in_place(invoke(before, state, paren, count, answer).state),
{
    raise_keeps_operands(state, not_callable(paren.line_number));
    raise_keeps_operands(state, clock_failed());
    raise_keeps_operands(state, wrong_arity(paren.line_number, 0, count as nat));
    if state.values.len() > count {
        let base = state.values.len() - count - 1;
        match state.values[base] {
            ValueView::Callable(Callee::Function(index)) => {
                if index < state.functions.len() {
                    let function = state.functions[index as int];
                    raise_keeps_operands(
                        state,
                        wrong_arity(paren.line_number, function.params@.len(), count as nat),
                    );
                    with_frame(state.frames, Frame::Call(entry_of(state), base as usize));
                    with_frame(
                        state.frames.push(Frame::Call(entry_of(state), base as usize)),
                        Frame::Sequence(function.body, 0),
                    );
                }
            },
            _ => {},
        }
    }
}

/// Every step leaves the operands in place: after it, as before it, the
/// stack holds the values that the frames are to find. No frame is ever
/// taken that lacks an operand.
pub proof fn step_keeps_operands<'a>(before: State<'a>, answer: Answer)
    requires
        operands_in_place(before),
        before.values.len() <= usize::MAX,
    ensures
        operands_in_place(step(before, answer).state),
        before.frames.len() > 0 ==> before.values.len() >= need(before.frames.last()),
{
    if before.frames.len() > 0 {
        let frames = before.frames.drop_last();
        let frame = before.frames.last();
        let state = State { frames, ..before };
        let value = top(state.values);
        let popped = State { values: below_top(state.values), ..state };
        assert(before.frames =~= frames.push(frame));
        with_frame(frames, frame);
        floor_is_within(frames);
        match frame {
            Frame::Program(next) => {
                if next < before.stmts@.len() {
                    with_frame(frames, Frame::Program((next + 1) as usize));
                    with_frame(
                        frames.push(Frame::Program((next + 1) as usize)),
                        Frame::Exec(&before.stmts@[next as int]),
                    );
                }
            },
            Frame::Exec(statement) => {
                execute_keeps_operands(state, statement, state.values.len() as int);
            },
            Frame::Sequence(list, next) => {
                if next < list@.len() {
                    with_frame(frames, Frame::Sequence(list, (next + 1) as usize));
                    with_frame(
                        frames.push(Frame::Sequence(list, (next + 1) as usize)),
                        Frame::Exec(&list@[next as int]),
                    );
                }
            },
            Frame::Branch(then_branch, else_branch) => {
                with_frame(frames, Frame::Exec(then_branch));
                match else_branch {
                    Some(otherwise) => {
                        with_frame(frames, Frame::Exec(otherwise));
                    },
                    None => {},
                }
            },
            Frame::Test(condition, body) => {
                with_frame(frames, Frame::Again(condition, body));
                with_frame(frames.push(Frame::Again(condition, body)), Frame::Exec(body));
            },
            Frame::Again(condition, body) => {
                with_frame(frames, Frame::Test(condition, body));
                with_frame(frames.push(Frame::Test(condition, body)), Frame::Eval(condition));
            },
            Frame::Return => {
                leave_keeps_operands(popped, value);
            },
            Frame::Eval(expression) => {
                evaluate_keeps_operands(before, state, expression, answer);
            },
            Frame::Unary(operator) => {
                match unary_result(operator.token_type, operator.line_number, value) {
                    Err(message) => {
                        raise_keeps_operands(state, message);
                    },
                    _ => {},
                }
            },
            Frame::Binary(operator) => {
                let right = top(state.values);
                let left = top(below_top(state.values));
                match binary_result(operator.token_type, operator.line_number, left, right) {
                    Err(message) => {
                        raise_keeps_operands(state, message);
                    },
                    _ => {},
                }
            },
            Frame::Logical(operator, right) => {
                with_frame(frames, Frame::Eval(right));
            },
            Frame::Assign(name) => {
                raise_keeps_operands(state, undefined_variable(name.line_number, name.name@));
            },
            Frame::Arguments(list, next) => {
                vstd::std_specs::vec::axiom_spec_len(list);
                if next < list@.len() {
                    with_frame(frames, Frame::Arguments(list, (next + 1) as usize));
                    with_frame(
                        frames.push(Frame::Arguments(list, (next + 1) as usize)),
                        Frame::Eval(&list@[next as int]),
                    );
                }
            },
            Frame::Invoke(paren, count) => {
                invoke_keeps_operands(before, state, paren, count, answer);
            },
            _ => {},
        }
    }
}

/// The operands stay in place over any number of steps.
pub proof fn run_keeps_operands<'a>(state: State<'a>, answer: Answer, budget: nat)
    requires
        operands_in_place(state),
        state.values.len() + budget <= usize::MAX,
    ensures
        operands_in_place(run(state, answer, budget).state),
        run(state, answer, budget).state.values.len() <= state.values.len() + budget,
    decreases budget,
{
    if budget > 0 {
        step_keeps_operands(state, answer);
        step_gives_one_value_at_most(state, answer);
        let first = step(state, answer);
        if first.request is Continue {
            run_keeps_operands(first.state, Answer::Nothing, (budget - 1) as nat);
        }
    }
}


/// A step puts one value on the stack at most.
pub proof fn step_gives_one_value_at_most<'a>(before: State<'a>, answer: Answer)
    ensures
        step(before, answer).state.values.len() <= before.values.len() + 1,
{
    if before.frames.len() > 0 {
        let state = State { frames: before.frames.drop_last(), ..before };
        boundary_frames_end(state.frames);
    }
}

/// The frames up to the nearest boundary are none, or end in a boundary.
pub proof fn boundary_frames_end<'a>(frames: Seq<Frame<'a>>)
    ensures
        boundary_frames(frames).len() == 0 || boundary_frames(frames).last() is Program || boundary_frames(
            frames,
        ).last() is Call,
    decreases frames.len(),
{
    if frames.len() > 0 && !(frames.last() is Program || frames.last() is Call) {
        boundary_frames_end(frames.drop_last());
    }
}

} // verus!
