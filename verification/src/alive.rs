//! The scopes stay alive: every scope that a running program refers to
//! stands in the table of scopes, although blocks and calls close their
//! scopes behind them. A state in which that holds is followed by such
//! states alone.

use vstd::prelude::*;
use crate::environments::resolve_finds_binding;
use crate::environments::undefined_variable;
use crate::environments::ScopeView;
use crate::expressions::Expr;
use crate::lox_func::LoxFunction;
use crate::machine::below_top;
use crate::machine::bind_parameters;
use crate::machine::boundary_frames;
use crate::machine::clock_failed;
use crate::machine::entry_of;
use crate::machine::execute;
use crate::machine::invoke;
use crate::machine::leave;
use crate::machine::not_callable;
use crate::machine::program_frames;
use crate::machine::raise;
use crate::machine::released;
use crate::machine::run;
use crate::machine::step;
use crate::machine::top;
use crate::machine::wrong_arity;
use crate::machine::Answer;
use crate::machine::Entry;
use crate::machine::Frame;
use crate::machine::State;
use crate::statements::Stmt;
use crate::tokens::Token;
use crate::values::binary_result;
use crate::values::unary_result;
use crate::values::Callee;
use crate::values::ValueView;

verus! {

/// What the frame of a block or a call holds of its entry.
pub open spec fn entry_in<'a>(frame: Frame<'a>) -> Option<Entry> {
    match frame {
        Frame::Restore(entry) => Some(entry),
        Frame::Call(entry, _) => Some(entry),
        _ => None,
    }
}

/// The number of scopes that the innermost block or call found at its
/// entry; 0 outside any.
pub open spec fn mark<'a>(frames: Seq<Frame<'a>>) -> int
    decreases frames.len(),
{
    if frames.len() == 0 {
        0
    } else {
        match entry_in(frames.last()) {
            Some(entry) => entry.scopes as int,
            None => mark(frames.drop_last()),
        }
    }
}

/// Whether what a block or a call found at its entry fits what lies
/// below it: it found no fewer scopes than the blocks and calls around
/// it, the scope that it goes back to among them, and the functions that
/// there were with their scopes of declaration among them.
pub open spec fn entry_fits<'a>(entry: Entry, below: int, functions: Seq<LoxFunction<'a>>) -> bool {
    &&& below <= entry.scopes
    &&& entry.back < entry.scopes
    &&& entry.functions <= functions.len()
    &&& forall|i: int| 0 <= i < entry.functions ==> (#[trigger] functions[i]).closure < entry.scopes
}

/// Whether the entries of all blocks and calls fit.
pub open spec fn frames_fit<'a>(frames: Seq<Frame<'a>>, functions: Seq<LoxFunction<'a>>) -> bool
    decreases frames.len(),
{
    frames.len() == 0 || (frames_fit(frames.drop_last(), functions) && match entry_in(frames.last()) {
        Some(entry) => entry_fits(entry, mark(frames.drop_last()), functions),
        None => true,
    })
}

/// The scopes of a state are alive, and make a tree. Every scope that
/// the state refers to stands in the table: the current one, those that
/// blocks and calls go back to, and those that functions have captured.
/// The global scope lies within none, and every other scope within an
/// older one. No block and no call will close a scope that is referred to.
pub open spec fn scopes_alive<'a>(state: State<'a>) -> bool {
    &&& 0 < state.scopes.len() <= usize::MAX
    &&& state.functions.len() <= usize::MAX
    &&& state.current < state.scopes.len()
    &&& state.scopes[0].enclosing is None
    &&& forall|j: int|
        0 < j < state.scopes.len() ==> (#[trigger] state.scopes[j]).enclosing is Some
            && state.scopes[j].enclosing->0 < j
    &&& forall|i: int| 0 <= i < state.functions.len() ==> (#[trigger] state.functions[i]).closure < state.scopes.len()
    &&& frames_fit(state.frames, state.functions)
    &&& mark(state.frames) <= state.scopes.len()
}

/// What one more frame makes of the mark and of the fit.
pub proof fn fit_with_frame<'a>(frames: Seq<Frame<'a>>, frame: Frame<'a>, functions: Seq<LoxFunction<'a>>)
    ensures
        mark(frames.push(frame)) == match entry_in(frame) {
            Some(entry) => entry.scopes as int,
            None => mark(frames),
        },
        frames_fit(frames.push(frame), functions) == (frames_fit(frames, functions) && match entry_in(frame) {
            Some(entry) => entry_fits(entry, mark(frames), functions),
            None => true,
        }),
{
    assert(frames.push(frame).drop_last() =~= frames);
}

/// One more function leaves the entries fitting.
pub proof fn fit_with_function<'a>(
    frames: Seq<Frame<'a>>,
    functions: Seq<LoxFunction<'a>>,
    function: LoxFunction<'a>,
)
    requires
        frames_fit(frames, functions),
    ensures
        frames_fit(frames, functions.push(function)),
    decreases frames.len(),
{
    if frames.len() > 0 {
        fit_with_function(frames.drop_last(), functions, function);
        match entry_in(frames.last()) {
            Some(entry) => {
                assert forall|i: int| 0 <= i < entry.functions implies (#[trigger] functions.push(function)[i]).closure
                    < entry.scopes by {
                    assert(functions.push(function)[i] == functions[i]);
                }
            },
            None => {},
        }
    }
}

/// The marks grow up the stack.
pub proof fn marks_grow<'a>(frames: Seq<Frame<'a>>, functions: Seq<LoxFunction<'a>>)
    requires
        frames_fit(frames, functions),
        frames.len() > 0,
    ensures
        0 <= mark(frames.drop_last()) <= mark(frames),
    decreases frames.len(),
{
    if frames.len() > 1 {
        marks_grow(frames.drop_last(), functions);
    }
}

/// The frames up to the one that runs the program fit, below the mark.
pub proof fn program_frames_fit<'a>(frames: Seq<Frame<'a>>, functions: Seq<LoxFunction<'a>>)
    requires
        frames_fit(frames, functions),
    ensures
        frames_fit(program_frames(frames), functions),
        0 <= mark(program_frames(frames)) <= mark(frames),
    decreases frames.len(),
{
    if frames.len() > 0 {
        marks_grow(frames, functions);
        if !(frames.last() is Program) {
            program_frames_fit(frames.drop_last(), functions);
        }
    }
}

/// The frames up to the nearest boundary fit, below the mark.
pub proof fn boundary_frames_fit<'a>(frames: Seq<Frame<'a>>, functions: Seq<LoxFunction<'a>>)
    requires
        frames_fit(frames, functions),
    ensures
        frames_fit(boundary_frames(frames), functions),
        0 <= mark(boundary_frames(frames)) <= mark(frames),
    decreases frames.len(),
{
    if frames.len() > 0 {
        marks_grow(frames, functions);
        if !(frames.last() is Program || frames.last() is Call) {
            boundary_frames_fit(frames.drop_last(), functions);
        }
    }
}

/// Binding parameters keeps the links of all scopes.
pub proof fn bind_parameters_keeps_links(
    scopes: Seq<ScopeView>,
    scope: int,
    parameters: Seq<Token>,
    arguments: Seq<ValueView>,
    count: int,
)
    ensures
        bind_parameters(scopes, scope, parameters, arguments, count).len() == scopes.len(),
        forall|j: int|
            0 <= j < scopes.len() ==> (#[trigger] bind_parameters(
                scopes,
                scope,
                parameters,
                arguments,
                count,
            )[j]).enclosing == scopes[j].enclosing,
    decreases count,
{
    if count > 0 {
        bind_parameters_keeps_links(scopes, scope, parameters, arguments, count - 1);
    }
}

/// The end of a block or a call keeps the scopes alive: what it closes,
/// nothing refers to.
pub proof fn release_keeps_scopes_alive<'a>(state: State<'a>, entry: Entry)
    requires
        scopes_alive(State { frames: state.frames.push(Frame::Restore(entry)), ..state }),
    ensures
        scopes_alive(released(state, entry)),
{
    fit_with_frame(state.frames, Frame::Restore(entry), state.functions);
    let after = released(state, entry);
    if state.functions.len() == entry.functions {
        assert forall|i: int| 0 <= i < after.functions.len() implies (#[trigger] after.functions[i]).closure
            < after.scopes.len() by {
            assert(state.functions[i].closure < entry.scopes);
        }
        assert forall|j: int| 0 < j < after.scopes.len() implies (#[trigger] after.scopes[j]).enclosing is Some
            && after.scopes[j].enclosing->0 < j by {
            assert(after.scopes[j] == state.scopes[j]);
        }
        assert(after.scopes[0] == state.scopes[0]);
    }
}

/// An error keeps the scopes alive.
pub proof fn raise_keeps_scopes_alive<'a>(state: State<'a>, message: Seq<char>)
    requires
        scopes_alive(state),
    ensures
        scopes_alive(raise(state, message)),
{
    program_frames_fit(state.frames, state.functions);
}

/// A return keeps the scopes alive.
pub proof fn leave_keeps_scopes_alive<'a>(state: State<'a>, value: ValueView)
    requires
        scopes_alive(state),
    ensures
        scopes_alive(leave(state, value)),
{
    boundary_frames_fit(state.frames, state.functions);
    let frames = boundary_frames(state.frames);
    if frames.len() > 0 && frames.last() is Call {
        let entry = frames.last()->Call_0;
        let below = State { frames: frames.drop_last(), ..state };
        fit_with_frame(frames.drop_last(), Frame::Restore(entry), state.functions);
        assert(mark(frames) == entry.scopes);
        release_keeps_scopes_alive(below, entry);
    }
}

/// A statement keeps the scopes alive.
pub proof fn execute_keeps_scopes_alive<'a>(state: State<'a>, statement: &'a Stmt)
    requires
        scopes_alive(state),
        state.scopes.len() < usize::MAX,
        state.functions.len() < usize::MAX,
    ensures
        scopes_alive(execute(state, statement)),
{
    let after = execute(state, statement);
    let frames = state.frames;
    let functions = state.functions;
    match statement {
        Stmt::Expression(expression) => {
            fit_with_frame(frames, Frame::Discard, functions);
            fit_with_frame(frames.push(Frame::Discard), Frame::Eval(expression), functions);
        },
        Stmt::Print(expression) => {
            fit_with_frame(frames, Frame::Print, functions);
            fit_with_frame(frames.push(Frame::Print), Frame::Eval(expression), functions);
        },
        Stmt::Var(name, Some(initializer)) => {
            fit_with_frame(frames, Frame::Define(name), functions);
            fit_with_frame(frames.push(Frame::Define(name)), Frame::Eval(initializer), functions);
        },
        Stmt::Var(name, None) => {},
        Stmt::Block(list) => {
            let entry = entry_of(state);
            fit_with_frame(frames, Frame::Restore(entry), functions);
            fit_with_frame(frames.push(Frame::Restore(entry)), Frame::Sequence(list, 0), functions);
            assert forall|j: int| 0 < j < after.scopes.len() implies (#[trigger] after.scopes[j]).enclosing is Some
                && after.scopes[j].enclosing->0 < j by {
                if j < state.scopes.len() {
                    assert(after.scopes[j] == state.scopes[j]);
                }
            }
            assert(after.scopes[0] == state.scopes[0]);
        },
        Stmt::If(condition, then_branch, else_branch) => {
            fit_with_frame(frames, Frame::Branch(then_branch, else_branch), functions);
            fit_with_frame(frames.push(Frame::Branch(then_branch, else_branch)), Frame::Eval(condition), functions);
        },
        Stmt::While(condition, body) => {
            fit_with_frame(frames, Frame::Test(condition, body), functions);
            fit_with_frame(frames.push(Frame::Test(condition, body)), Frame::Eval(condition), functions);
        },
        Stmt::Function(name, parameters, body) => {
            let function = LoxFunction { token: name, params: parameters, body, closure: state.current };
            fit_with_function(frames, functions, function);
            assert forall|i: int| 0 <= i < after.functions.len() implies (#[trigger] after.functions[i]).closure
                < after.scopes.len() by {
                if i < functions.len() {
                    assert(after.functions[i] == functions[i]);
                }
            }
        },
        Stmt::Return(_, Some(value)) => {
            fit_with_frame(frames, Frame::Return, functions);
            fit_with_frame(frames.push(Frame::Return), Frame::Eval(value), functions);
        },
        Stmt::Return(_, None) => {
            leave_keeps_scopes_alive(state, ValueView::Nil);
        },
    }
}

/// The evaluation of an expression keeps the scopes alive.
pub proof fn evaluate_keeps_scopes_alive<'a>(
    before: State<'a>,
    state: State<'a>,
    expression: &'a Expr,
    answer: Answer,
)
    requires
        scopes_alive(before),
        scopes_alive(state),
    ensures
        scopes_alive(crate::machine::evaluate(before, state, expression, answer).state),
{
    let frames = state.frames;
    let functions = state.functions;
    match expression {
        Expr::Grouping(inner) => {
            fit_with_frame(frames, Frame::Eval(inner), functions);
        },
        Expr::Variable(name) => {
            raise_keeps_scopes_alive(state, undefined_variable(name.line_number, name.name@));
        },
        Expr::Assign(name, value) => {
            fit_with_frame(frames, Frame::Assign(name), functions);
            fit_with_frame(frames.push(Frame::Assign(name)), Frame::Eval(value), functions);
        },
        Expr::Unary(operator, operand) => {
            fit_with_frame(frames, Frame::Unary(operator), functions);
            fit_with_frame(frames.push(Frame::Unary(operator)), Frame::Eval(operand), functions);
        },
        Expr::Binary(left, operator, right) => {
            fit_with_frame(frames, Frame::Binary(operator), functions);
            fit_with_frame(frames.push(Frame::Binary(operator)), Frame::Eval(right), functions);
            fit_with_frame(
                frames.push(Frame::Binary(operator)).push(Frame::Eval(right)),
                Frame::Eval(left),
                functions,
            );
        },
        Expr::Logical(left, operator, right) => {
            fit_with_frame(frames, Frame::Logical(operator, right), functions);
            fit_with_frame(frames.push(Frame::Logical(operator, right)), Frame::Eval(left), functions);
        },
        Expr::Call(callee, paren, arguments) => {
            let count = arguments.len();
            fit_with_frame(frames, Frame::Invoke(paren, count), functions);
            fit_with_frame(frames.push(Frame::Invoke(paren, count)), Frame::Arguments(arguments, 0), functions);
            fit_with_frame(
                frames.push(Frame::Invoke(paren, count)).push(Frame::Arguments(arguments, 0)),
                Frame::Eval(callee),
                functions,
            );
        },
        _ => {},
    }
}

/// A call keeps the scopes alive.
pub proof fn invoke_keeps_scopes_alive<'a>(
    before: State<'a>,
    state: State<'a>,
    paren: &'a Token,
    count: usize,
    answer: Answer,
)
    requires
        scopes_alive(before),
        scopes_alive(state),
        state.scopes.len() < usize::MAX,
    ensures
        scopes_alive(invoke(before, state, paren, count, answer).state),
{
    let after = invoke(before, state, paren, count, answer).state;
    raise_keeps_scopes_alive(state, not_callable(paren.line_number));
    raise_keeps_scopes_alive(state, clock_failed());
    raise_keeps_scopes_alive(state, wrong_arity(paren.line_number, 0, count as nat));
    if state.values.len() > count {
        let height = state.values.len() - count - 1;
        match state.values[height] {
            ValueView::Callable(Callee::Function(index)) => {
                if index < state.functions.len() {
                    let function = state.functions[index as int];
                    raise_keeps_scopes_alive(
                        state,
                        wrong_arity(paren.line_number, function.params@.len(), count as nat),
                    );
                    if function.params@.len() == count {
                        let opened = state.scopes.push(
                            ScopeView { enclosing: Some(function.closure), values: Map::empty() },
                        );
                        bind_parameters_keeps_links(
                            opened,
                            state.scopes.len() as int,
                            function.params@,
                            state.values.skip(height + 1),
                            count as int,
                        );
                        let entry = entry_of(state);
                        let boundary = Frame::Call(entry, height as usize);
                        fit_with_frame(state.frames, boundary, state.functions);
                        fit_with_frame(
                            state.frames.push(boundary),
                            Frame::Sequence(function.body, 0),
                            state.functions,
                        );
                        assert forall|j: int| 0 < j < after.scopes.len() implies (
                        #[trigger] after.scopes[j]).enclosing is Some && after.scopes[j].enclosing->0 < j by {
                            assert(after.scopes[j].enclosing == opened[j].enclosing);
                            if j < state.scopes.len() {
                                assert(opened[j] == state.scopes[j]);
                            }
                        }
                        assert(after.scopes[0].enclosing == opened[0].enclosing);
                        assert(opened[0] == state.scopes[0]);
                    }
                }
            },
            _ => {},
        }
    }
}

/// Closure lifetime: every step keeps the scopes alive and in a tree. A
/// scope that a function has captured stays in the table as long as the
/// program runs, and so does every scope that execution goes back to;
/// what a block or a call closes behind it, nothing refers to.
pub proof fn step_keeps_scopes_alive<'a>(before: State<'a>, answer: Answer)
    requires
        scopes_alive(before),
        before.scopes.len() < usize::MAX,
        before.functions.len() < usize::MAX,
    ensures
        scopes_alive(step(before, answer).state),
{
    if before.frames.len() > 0 {
        let frames = before.frames.drop_last();
        let frame = before.frames.last();
        let functions = before.functions;
        let state = State { frames, ..before };
        let value = top(state.values);
        let popped = State { values: below_top(state.values), ..state };
        assert(before.frames =~= frames.push(frame));
        fit_with_frame(frames, frame, functions);
        marks_grow(before.frames, functions);
        match frame {
            Frame::Program(next) => {
                if next < before.stmts@.len() {
                    fit_with_frame(frames, Frame::Program((next + 1) as usize), functions);
                    fit_with_frame(
                        frames.push(Frame::Program((next + 1) as usize)),
                        Frame::Exec(&before.stmts@[next as int]),
                        functions,
                    );
                }
            },
            Frame::Exec(statement) => {
                execute_keeps_scopes_alive(state, statement);
            },
            Frame::Sequence(list, next) => {
                if next < list@.len() {
                    fit_with_frame(frames, Frame::Sequence(list, (next + 1) as usize), functions);
                    fit_with_frame(
                        frames.push(Frame::Sequence(list, (next + 1) as usize)),
                        Frame::Exec(&list@[next as int]),
                        functions,
                    );
                }
            },
            Frame::Restore(entry) => {
                release_keeps_scopes_alive(state, entry);
            },
            Frame::Call(entry, _) => {
                fit_with_frame(frames, Frame::Restore(entry), functions);
                release_keeps_scopes_alive(state, entry);
            },
            Frame::Branch(then_branch, else_branch) => {
                fit_with_frame(frames, Frame::Exec(then_branch), functions);
                match else_branch {
                    Some(otherwise) => {
                        fit_with_frame(frames, Frame::Exec(otherwise), functions);
                    },
                    None => {},
                }
            },
            Frame::Test(condition, body) => {
                fit_with_frame(frames, Frame::Again(condition, body), functions);
                fit_with_frame(frames.push(Frame::Again(condition, body)), Frame::Exec(body), functions);
            },
            Frame::Again(condition, body) => {
                fit_with_frame(frames, Frame::Test(condition, body), functions);
                fit_with_frame(frames.push(Frame::Test(condition, body)), Frame::Eval(condition), functions);
            },
            Frame::Return => {
                leave_keeps_scopes_alive(popped, value);
            },
            Frame::Eval(expression) => {
                evaluate_keeps_scopes_alive(before, state, expression, answer);
            },
            Frame::Unary(operator) => {
                match unary_result(operator.token_type, operator.line_number, value) {
                    Err(message) => {
                        raise_keeps_scopes_alive(state, message);
                    },
                    _ => {},
                }
            },
            Frame::Binary(operator) => {
                let right = top(state.values);
                let left = top(below_top(state.values));
                match binary_result(operator.token_type, operator.line_number, left, right) {
                    Err(message) => {
                        raise_keeps_scopes_alive(state, message);
                    },
                    _ => {},
                }
            },
            Frame::Logical(operator, right) => {
                fit_with_frame(frames, Frame::Eval(right), functions);
            },
            Frame::Assign(name) => {
                raise_keeps_scopes_alive(state, undefined_variable(name.line_number, name.name@));
                resolve_finds_binding(state.scopes, state.current as int, name.name@);
            },
            Frame::Arguments(list, next) => {
                if next < list@.len() {
                    fit_with_frame(frames, Frame::Arguments(list, (next + 1) as usize), functions);
                    fit_with_frame(
                        frames.push(Frame::Arguments(list, (next + 1) as usize)),
                        Frame::Eval(&list@[next as int]),
                        functions,
                    );
                }
            },
            Frame::Invoke(paren, count) => {
                invoke_keeps_scopes_alive(before, state, paren, count, answer);
            },
            _ => {},
        }
    }
}

/// A step opens one scope at most, and declares one function at most.
pub proof fn step_opens_one_scope_at_most<'a>(before: State<'a>, answer: Answer)
    ensures
        step(before, answer).state.scopes.len() <= before.scopes.len() + 1,
        step(before, answer).state.functions.len() <= before.functions.len() + 1,
{
    if before.frames.len() > 0 {
        let state = State { frames: before.frames.drop_last(), ..before };
        match before.frames.last() {
            Frame::Invoke(paren, count) => {
                if state.values.len() > count {
                    let height = state.values.len() - count - 1;
                    match state.values[height] {
                        ValueView::Callable(Callee::Function(index)) => {
                            if index < state.functions.len() {
                                let function = state.functions[index as int];
                                bind_parameters_keeps_links(
                                    state.scopes.push(
                                        ScopeView { enclosing: Some(function.closure), values: Map::empty() },
                                    ),
                                    state.scopes.len() as int,
                                    function.params@,
                                    state.values.skip(height + 1),
                                    count as int,
                                );
                            }
                        },
                        _ => {},
                    }
                }
            },
            _ => {},
        }
    }
}

/// Closure lifetime, over any number of steps.
pub proof fn run_keeps_scopes_alive<'a>(state: State<'a>, answer: Answer, budget: nat)
    requires
        scopes_alive(state),
        state.scopes.len() + budget <= usize::MAX,
        state.functions.len() + budget <= usize::MAX,
    ensures
        scopes_alive(run(state, answer, budget).state),
        run(state, answer, budget).state.scopes.len() <= state.scopes.len() + budget,
        run(state, answer, budget).state.functions.len() <= state.functions.len() + budget,
    decreases budget,
{
    if budget > 0 {
        step_keeps_scopes_alive(state, answer);
        step_opens_one_scope_at_most(state, answer);
        let first = step(state, answer);
        if first.request is Continue {
            run_keeps_scopes_alive(first.state, Answer::Nothing, (budget - 1) as nat);
        }
    }
}

} // verus!
