//! The evaluator as an abstract machine: the state of a running program
//! and the function that takes one state to the next.
//!
//! The machine keeps what is still to be done on a stack of frames, and
//! the values computed and not yet used on a stack of values. A step
//! takes the top frame and does what it asks. What the machine cannot do
//! itself it requests of its host: printing, the decoding of a numeral
//! and floating-point arithmetic, and the reading of the clock. A request
//! that needs an answer leaves the state as it is, and the step that is
//! given the answer goes on from there.

use vstd::prelude::*;
use crate::environments::assigned;
use crate::environments::bound;
use crate::environments::cut;
use crate::environments::read;
use crate::environments::resolve;
use crate::environments::undefined_variable;
use crate::environments::ScopeView;
use crate::errors::ValueErrorView;
use crate::expressions::Expr;
use crate::lox_func::LoxFunction;
use crate::statements::Stmt;
use crate::text::decimal;
use crate::text::line_message;
use crate::tokens::Literal;
use crate::tokens::Token;
use crate::tokens::TokenType;
use crate::values::binary_result;
use crate::values::truthy;
use crate::values::unary_result;
use crate::values::ArithmeticOp;
use crate::values::Callee;
use crate::values::ComputedView;
use crate::values::Number;
use crate::values::ValueView;

verus! {

/// What a block or a call finds when it is entered: the scope that is
/// current, to which it goes back, and how many scopes and functions
/// there are, by which it tells at its end whether its own scopes can be
/// closed.
#[derive(Clone, Copy, Debug)]
pub struct Entry {
    /// The scope that was current.
    pub back: usize,
    /// The number of scopes.
    pub scopes: usize,
    /// The number of functions.
    pub functions: usize,
}

/// What is still to be done.
#[derive(Clone, Copy, Debug)]
pub enum Frame<'a> {
    /// Run the program from the statement at this index on.
    Program(usize),
    /// Execute the statement.
    Exec(&'a Stmt),
    /// Execute the statements of the list from this index on.
    Sequence(&'a Vec<Stmt>, usize),
    /// The end of a block: go back to the scope that was current at its
    /// entry.
    Restore(Entry),
    /// Drop the top value.
    Discard,
    /// Print the top value.
    Print,
    /// Bind the name to the top value in the current scope.
    Define(&'a Token),
    /// Execute the first statement if the top value is truthy, otherwise
    /// the second, where there is one.
    Branch(&'a Stmt, &'a Option<Box<Stmt>>),
    /// Execute the body and test again if the top value is truthy.
    Test(&'a Expr, &'a Stmt),
    /// Evaluate the condition of a loop, and test it.
    Again(&'a Expr, &'a Stmt),
    /// Return the top value from the function that is running.
    Return,
    /// The boundary of a call: what the call found at its entry, and the
    /// height that the value stack had without the callee and the
    /// arguments. Reached when the body has ended without returning: the
    /// call gives `nil`.
    Call(Entry, usize),
    /// Evaluate the expression.
    Eval(&'a Expr),
    /// Apply the unary operator to the top value.
    Unary(&'a Token),
    /// Apply the binary operator to the two top values.
    Binary(&'a Token),
    /// Decide, by the top value, whether the right operand is evaluated.
    Logical(&'a Token, &'a Expr),
    /// Assign the top value to the variable.
    Assign(&'a Token),
    /// Evaluate the arguments of the list from this index on.
    Arguments(&'a Vec<Expr>, usize),
    /// Call the value below this many arguments with them.
    Invoke(&'a Token, usize),
}

/// What the host hands to a step.
#[derive(Clone, Copy, Debug)]
pub enum Answer {
    /// Nothing: the step before asked for nothing.
    Nothing,
    /// The number that the step before asked for.
    Number(Number),
    /// The clock could not be read.
    ClockFailed,
}

/// What a step asks of the host.
pub ghost enum RequestView {
    /// Nothing: go on.
    Continue,
    /// Print this text and a line feed.
    PrintText(Seq<char>),
    /// Print this number and a line feed.
    PrintNumber(Number),
    /// Decode the numeral, and answer with its number.
    Decode(Seq<char>),
    /// Compute, and answer with the result.
    Arithmetic(ArithmeticOp, Number, Number),
    /// Read the clock, and answer with the seconds since the Unix epoch.
    Clock,
    /// The program has ended.
    Finished,
}

/// The state of a running program.
pub ghost struct State<'a> {
    /// The program.
    pub stmts: &'a Vec<Stmt>,
    /// The scopes; the global one is at index 0.
    pub scopes: Seq<ScopeView>,
    /// The index of the current scope.
    pub current: usize,
    /// The functions declared so far.
    pub functions: Seq<LoxFunction<'a>>,
    pub frames: Seq<Frame<'a>>,
    pub values: Seq<ValueView>,
    /// The runtime errors so far.
    pub errors: Seq<Seq<char>>,
}

/// A state and what was asked of the host on the way to it.
pub ghost struct Step<'a> {
    pub state: State<'a>,
    pub request: RequestView,
}

/// The index of the global scope.
pub const GLOBALS: usize = 0;

/// The top value; `nil` where there is none. (A running program never
/// lacks one where it takes one.)
pub open spec fn top(values: Seq<ValueView>) -> ValueView {
    if values.len() > 0 {
        values.last()
    } else {
        ValueView::Nil
    }
}

/// The values below the top one.
pub open spec fn below_top(values: Seq<ValueView>) -> Seq<ValueView> {
    if values.len() > 0 {
        values.drop_last()
    } else {
        values
    }
}

/// A step that asks nothing of the host.
pub open spec fn go<'a>(state: State<'a>) -> Step<'a> {
    Step { state, request: RequestView::Continue }
}

/// The frames up to the one that runs the program.
pub open spec fn program_frames<'a>(frames: Seq<Frame<'a>>) -> Seq<Frame<'a>>
    decreases frames.len(),
{
    if frames.len() == 0 {
        frames
    } else if frames.last() is Program {
        frames
    } else {
        program_frames(frames.drop_last())
    }
}

/// The frames up to the nearest boundary: that of the call that is
/// running, or the frame that runs the program.
pub open spec fn boundary_frames<'a>(frames: Seq<Frame<'a>>) -> Seq<Frame<'a>>
    decreases frames.len(),
{
    if frames.len() == 0 {
        frames
    } else if frames.last() is Program || frames.last() is Call {
        frames
    } else {
        boundary_frames(frames.drop_last())
    }
}

/// What a block or a call finds in a state at its entry.
pub open spec fn entry_of<'a>(state: State<'a>) -> Entry {
    Entry {
        back: state.current,
        scopes: state.scopes.len() as usize,
        functions: state.functions.len() as usize,
    }
}

/// The state behind a block or a call: the scope that was current at the
/// entry is current again. The scopes that were opened since are closed,
/// unless a function was declared since, which may have captured one of
/// them.
pub open spec fn released<'a>(state: State<'a>, entry: Entry) -> State<'a> {
    State {
        current: entry.back,
        scopes: if state.functions.len() == entry.functions {
            cut(state.scopes, entry.scopes as int)
        } else {
            state.scopes
        },
        ..state
    }
}

/// A runtime error: the statement of the program that is running is
/// given up, with all its frames and values, and the error is recorded.
pub open spec fn raise<'a>(state: State<'a>, message: Seq<char>) -> State<'a> {
    State {
        frames: program_frames(state.frames),
        values: Seq::empty(),
        current: GLOBALS,
        errors: state.errors.push(message),
        ..state
    }
}

/// A return: the call that is running is left, its frames and values
/// given up, and `value` is what it gives in the caller's scope. Outside
/// any call, the statement of the program that is running is given up.
pub open spec fn leave<'a>(state: State<'a>, value: ValueView) -> State<'a> {
    let frames = boundary_frames(state.frames);
    if frames.len() > 0 && frames.last() is Call {
        let height = frames.last()->Call_1;
        State {
            frames: frames.drop_last(),
            values: if height <= state.values.len() {
                state.values.take(height as int).push(value)
            } else {
                state.values.push(value)
            },
            ..released(state, frames.last()->Call_0)
        }
    } else {
        State { frames, values: Seq::empty(), current: GLOBALS, ..state }
    }
}

/// What ends the normal course of execution does: an error gives up the
/// statement of the program that is running, a return leaves the call
/// that is running.
pub open spec fn unwind<'a>(state: State<'a>, signal: ValueErrorView) -> State<'a> {
    match signal {
        ValueErrorView::Error(message) => raise(state, message),
        ValueErrorView::Return(value) => leave(state, value),
    }
}

/// The text of a value that is no number.
pub open spec fn display<'a>(value: ValueView, functions: Seq<LoxFunction<'a>>) -> Seq<char> {
    match value {
        ValueView::Nil => "nil"@,
        ValueView::Bool(b) => if b {
            "true"@
        } else {
            "false"@
        },
        ValueView::String(text) => text,
        ValueView::Number(_) => Seq::empty(),
        ValueView::Callable(Callee::Clock) => "<fn clock>"@,
        ValueView::Callable(Callee::Function(index)) => if index < functions.len() {
            "<fn "@ + functions[index as int].token.name@ + ">"@
        } else {
            "<fn>"@
        },
    }
}

/// The request that prints a value.
pub open spec fn printing<'a>(value: ValueView, functions: Seq<LoxFunction<'a>>) -> RequestView {
    match value {
        ValueView::Number(number) => RequestView::PrintNumber(number),
        _ => RequestView::PrintText(display(value, functions)),
    }
}

/// The state with a new, empty scope within `enclosing`, made current,
/// in which the statements of `list` are to run; behind them the block
/// is left as it was entered.
pub open spec fn enter<'a>(state: State<'a>, list: &'a Vec<Stmt>, enclosing: usize) -> State<'a> {
    State {
        scopes: state.scopes.push(ScopeView { enclosing: Some(enclosing), values: Map::empty() }),
        frames: state.frames.push(Frame::Restore(entry_of(state))).push(Frame::Sequence(list, 0)),
        current: state.scopes.len() as usize,
        ..state
    }
}

/// What a statement does, the state being that in which it is next.
pub open spec fn execute<'a>(state: State<'a>, statement: &'a Stmt) -> State<'a> {
    match statement {
        Stmt::Expression(expression) => State {
            frames: state.frames.push(Frame::Discard).push(Frame::Eval(expression)),
            ..state
        },
        Stmt::Print(expression) => State {
            frames: state.frames.push(Frame::Print).push(Frame::Eval(expression)),
            ..state
        },
        Stmt::Var(name, Some(initializer)) => State {
            frames: state.frames.push(Frame::Define(name)).push(Frame::Eval(initializer)),
            ..state
        },
        Stmt::Var(name, None) => State {
            scopes: bound(state.scopes, state.current as int, name.name@, ValueView::Nil),
            ..state
        },
        Stmt::Block(list) => enter(state, list, state.current),
        Stmt::If(condition, then_branch, else_branch) => State {
            frames: state.frames.push(Frame::Branch(then_branch, else_branch)).push(Frame::Eval(condition)),
            ..state
        },
        Stmt::While(condition, body) => State {
            frames: state.frames.push(Frame::Test(condition, body)).push(Frame::Eval(condition)),
            ..state
        },
        Stmt::Function(name, parameters, body) => State {
            functions: state.functions.push(
                LoxFunction { token: name, params: parameters, body, closure: state.current },
            ),
            scopes: bound(
                state.scopes,
                state.current as int,
                name.name@,
                ValueView::Callable(Callee::Function(state.functions.len() as usize)),
            ),
            ..state
        },
        Stmt::Return(_, Some(value)) => State {
            frames: state.frames.push(Frame::Return).push(Frame::Eval(value)),
            ..state
        },
        Stmt::Return(_, None) => leave(state, ValueView::Nil),
    }
}

/// The state with one more value.
pub open spec fn give<'a>(state: State<'a>, value: ValueView) -> State<'a> {
    State { values: state.values.push(value), ..state }
}

/// What the evaluation of an expression does. `before` is the state with
/// the frame of the expression on top, `state` the one without it.
pub open spec fn evaluate<'a>(before: State<'a>, state: State<'a>, expression: &'a Expr, answer: Answer) -> Step<
    'a,
> {
    match expression {
        Expr::Literal(Literal::Nil) => go(give(state, ValueView::Nil)),
        Expr::Literal(Literal::Bool(b)) => go(give(state, ValueView::Bool(*b))),
        Expr::Literal(Literal::String(text)) => go(give(state, ValueView::String(text@))),
        Expr::Literal(Literal::Number(numeral)) => match answer {
            Answer::Number(number) => go(give(state, ValueView::Number(number))),
            _ => Step { state: before, request: RequestView::Decode(numeral@) },
        },
        Expr::Grouping(inner) => go(State { frames: state.frames.push(Frame::Eval(inner)), ..state }),
        Expr::Variable(name) => match read(state.scopes, state.current as int, name.name@) {
            Some(value) => go(give(state, value)),
            None => go(raise(state, undefined_variable(name.line_number, name.name@))),
        },
        Expr::Assign(name, value) => go(
            State { frames: state.frames.push(Frame::Assign(name)).push(Frame::Eval(value)), ..state },
        ),
        Expr::Unary(operator, operand) => go(
            State { frames: state.frames.push(Frame::Unary(operator)).push(Frame::Eval(operand)), ..state },
        ),
        Expr::Binary(left, operator, right) => go(
            State {
                frames: state.frames.push(Frame::Binary(operator)).push(Frame::Eval(right)).push(
                    Frame::Eval(left),
                ),
                ..state
            },
        ),
        Expr::Logical(left, operator, right) => go(
            State { frames: state.frames.push(Frame::Logical(operator, right)).push(Frame::Eval(left)), ..state },
        ),
        Expr::Call(callee, paren, arguments) => go(
            State {
                frames: state.frames.push(Frame::Invoke(paren, arguments.len())).push(
                    Frame::Arguments(arguments, 0),
                ).push(Frame::Eval(callee)),
                ..state
            },
        ),
    }
}

/// What a binary operator does with the two top values, the right
/// operand on top.
pub open spec fn apply_binary<'a>(before: State<'a>, state: State<'a>, operator: &'a Token, answer: Answer) -> Step<
    'a,
> {
    let right = top(state.values);
    let left = top(below_top(state.values));
    let rest = State { values: below_top(below_top(state.values)), ..state };
    match binary_result(operator.token_type, operator.line_number, left, right) {
        Ok(ComputedView::Value(value)) => go(give(rest, value)),
        Ok(ComputedView::Arithmetic(operation, l, r)) => match answer {
            Answer::Number(number) => go(give(rest, ValueView::Number(number))),
            _ => Step { state: before, request: RequestView::Arithmetic(operation, l, r) },
        },
        Err(message) => go(raise(state, message)),
    }
}

/// Whether a logical operator is decided by its left operand alone: `or`
/// by a truthy one, `and` by a falsy one.
pub open spec fn short_circuits(operator: TokenType, left: ValueView) -> bool {
    (operator == TokenType::Or) == truthy(left)
}

/// The scopes after the first `count` parameters are bound to the
/// arguments in the scope `scope`.
pub open spec fn bind_parameters(
    scopes: Seq<ScopeView>,
    scope: int,
    parameters: Seq<Token>,
    arguments: Seq<ValueView>,
    count: int,
) -> Seq<ScopeView>
    decreases count,
{
    if count <= 0 {
        scopes
    } else {
        bound(
            bind_parameters(scopes, scope, parameters, arguments, count - 1),
            scope,
            parameters[count - 1].name@,
            arguments[count - 1],
        )
    }
}

/// The diagnostic for the call of a value that is no callable.
pub open spec fn not_callable(line: usize) -> Seq<char> {
    line_message(line, "Can only call functions and classes."@)
}

/// The diagnostic for a call with the wrong number of arguments.
pub open spec fn wrong_arity(line: usize, expected: nat, given: nat) -> Seq<char> {
    line_message(line, "Expected "@ + decimal(expected) + " arguments, but got "@ + decimal(given) + "."@)
}

/// The diagnostic for a clock that could not be read.
pub open spec fn clock_failed() -> Seq<char> {
    "System time before UNIX epoch!"@
}

/// What a call does: the callee stands below `count` arguments on the
/// value stack.
///
/// A value that is no callable, and a number of arguments other than the
/// callee's arity, are errors. The clock is asked of the host. A function
/// of the program runs its body in a new scope within the scope of its
/// declaration, with its parameters bound to the arguments.
pub open spec fn invoke<'a>(before: State<'a>, state: State<'a>, paren: &'a Token, count: usize, answer: Answer) -> Step<
    'a,
> {
    if state.values.len() <= count {
        go(raise(state, not_callable(paren.line_number)))
    } else {
        let height = state.values.len() - count - 1;
        let arguments = state.values.skip(height + 1);
        let rest = State { values: state.values.take(height), ..state };
        match state.values[height] {
            ValueView::Callable(Callee::Clock) => if count != 0 {
                go(raise(state, wrong_arity(paren.line_number, 0, count as nat)))
            } else {
                match answer {
                    Answer::Number(number) => go(give(rest, ValueView::Number(number))),
                    Answer::ClockFailed => go(raise(state, clock_failed())),
                    Answer::Nothing => Step { state: before, request: RequestView::Clock },
                }
            },
            ValueView::Callable(Callee::Function(index)) => if index >= state.functions.len() {
                go(raise(state, not_callable(paren.line_number)))
            } else {
                let function = state.functions[index as int];
                if function.params@.len() != count {
                    go(raise(state, wrong_arity(paren.line_number, function.params@.len(), count as nat)))
                } else {
                    let scope = state.scopes.len();
                    go(
                        State {
                            scopes: bind_parameters(
                                state.scopes.push(
                                    ScopeView { enclosing: Some(function.closure), values: Map::empty() },
                                ),
                                scope as int,
                                function.params@,
                                arguments,
                                count as int,
                            ),
                            frames: state.frames.push(Frame::Call(entry_of(state), height as usize)).push(
                                Frame::Sequence(function.body, 0),
                            ),
                            current: scope as usize,
                            ..rest
                        },
                    )
                }
            },
            _ => go(raise(state, not_callable(paren.line_number))),
        }
    }
}

/// One step of the machine.
pub open spec fn step<'a>(before: State<'a>, answer: Answer) -> Step<'a> {
    if before.frames.len() == 0 {
        Step { state: before, request: RequestView::Finished }
    } else {
        let state = State { frames: before.frames.drop_last(), ..before };
        let value = top(state.values);
        let popped = State { values: below_top(state.values), ..state };
        match before.frames.last() {
            Frame::Program(next) => if next < before.stmts@.len() {
                go(
                    State {
                        frames: state.frames.push(Frame::Program((next + 1) as usize)).push(
                            Frame::Exec(&before.stmts@[next as int]),
                        ),
                        ..state
                    },
                )
            } else {
                Step { state: before, request: RequestView::Finished }
            },
            Frame::Exec(statement) => go(execute(state, statement)),
            Frame::Sequence(list, next) => if next < list@.len() {
                go(
                    State {
                        frames: state.frames.push(Frame::Sequence(list, (next + 1) as usize)).push(
                            Frame::Exec(&list@[next as int]),
                        ),
                        ..state
                    },
                )
            } else {
                go(state)
            },
            Frame::Restore(entry) => go(released(state, entry)),
            Frame::Discard => go(popped),
            Frame::Print => Step { state: popped, request: printing(value, state.functions) },
            Frame::Define(name) => go(
                State { scopes: bound(state.scopes, state.current as int, name.name@, value), ..popped },
            ),
            Frame::Branch(then_branch, else_branch) => if truthy(value) {
                go(State { frames: state.frames.push(Frame::Exec(then_branch)), ..popped })
            } else {
                match else_branch {
                    Some(otherwise) => go(State { frames: state.frames.push(Frame::Exec(otherwise)), ..popped }),
                    None => go(popped),
                }
            },
            Frame::Test(condition, body) => if truthy(value) {
                go(
                    State {
                        frames: state.frames.push(Frame::Again(condition, body)).push(Frame::Exec(body)),
                        ..popped
                    },
                )
            } else {
                go(popped)
            },
            Frame::Again(condition, body) => go(
                State {
                    frames: state.frames.push(Frame::Test(condition, body)).push(Frame::Eval(condition)),
                    ..state
                },
            ),
            Frame::Return => go(leave(popped, value)),
            Frame::Call(entry, _) => go(give(released(state, entry), ValueView::Nil)),
            Frame::Eval(expression) => evaluate(before, state, expression, answer),
            Frame::Unary(operator) => match unary_result(operator.token_type, operator.line_number, value) {
                Ok(result) => go(give(popped, result)),
                Err(message) => go(raise(state, message)),
            },
            Frame::Binary(operator) => apply_binary(before, state, operator, answer),
            Frame::Logical(operator, right) => if short_circuits(operator.token_type, value) {
                go(state)
            } else {
                go(State { frames: state.frames.push(Frame::Eval(right)), ..popped })
            },
            Frame::Assign(name) => match resolve(state.scopes, state.current as int, name.name@) {
                Some(_) => go(
                    State { scopes: assigned(state.scopes, state.current as int, name.name@, value), ..state },
                ),
                None => go(raise(state, undefined_variable(name.line_number, name.name@))),
            },
            Frame::Arguments(list, next) => if next < list@.len() {
                go(
                    State {
                        frames: state.frames.push(Frame::Arguments(list, (next + 1) as usize)).push(
                            Frame::Eval(&list@[next as int]),
                        ),
                        ..state
                    },
                )
            } else {
                go(state)
            },
            Frame::Invoke(paren, count) => invoke(before, state, paren, count, answer),
        }
    }
}

/// Up to `budget` steps: the first is given `answer`, and the steps stop
/// at the first that asks something of the host.
pub open spec fn run<'a>(state: State<'a>, answer: Answer, budget: nat) -> Step<'a>
    decreases budget,
{
    if budget == 0 {
        go(state)
    } else {
        let first = step(state, answer);
        if first.request is Continue {
            run(first.state, Answer::Nothing, (budget - 1) as nat)
        } else {
            first
        }
    }
}


/// Pausing does not matter: a run of so many steps is a run of some of
/// them, one at least, and, where that asked nothing of the host, a run
/// of the rest.
pub proof fn run_can_pause<'a>(state: State<'a>, answer: Answer, first: nat, second: nat)
    requires
        first > 0,
    ensures
        run(state, answer, first + second) == if run(state, answer, first).request is Continue {
            run(run(state, answer, first).state, Answer::Nothing, second)
        } else {
            run(state, answer, first)
        },
    decreases first,
{
    let next = step(state, answer);
    if next.request is Continue {
        if first > 1 {
            run_can_pause(next.state, Answer::Nothing, (first - 1) as nat, second);
            assert((first - 1) as nat + second == (first + second - 1) as nat);
        } else {
            assert(run(next.state, Answer::Nothing, 0) == go(next.state));
        }
    }
}

/// Short circuit: the evaluation of `left or right` and `left and right`
/// starts with the left operand alone, under the frame of the operator.
pub proof fn logical_operator_starts_with_left_operand<'a>(
    state: State<'a>,
    expression: &'a Expr,
    answer: Answer,
)
    requires
        state.frames.len() > 0,
        state.frames.last() == Frame::Eval(expression),
        expression is Logical,
    ensures
        step(state, answer) == go(
            State {
                frames: state.frames.drop_last().push(
                    Frame::Logical(&expression->Logical_1, &*expression->Logical_2),
                ).push(Frame::Eval(&*expression->Logical_0)),
                ..state
            },
        ),
{
}

/// Short circuit: a left operand that decides the operator, a truthy one
/// for `or` and a falsy one for `and`, is what the operator gives, as it
/// is; the right operand is not evaluated. The step takes the frame of
/// the operator off and changes nothing else: no frame is scheduled, and
/// the value stays.
pub proof fn decided_operator_skips_right_operand<'a>(
    state: State<'a>,
    operator: &'a Token,
    right: &'a Expr,
    answer: Answer,
)
    requires
        state.frames.len() > 0,
        state.frames.last() == Frame::Logical(operator, right),
        (operator.token_type == TokenType::Or) == truthy(top(state.values)),
    ensures
        step(state, answer) == go(State { frames: state.frames.drop_last(), ..state }),
{
}

/// A left operand that does not decide the operator is dropped, and the
/// right operand is evaluated in its place.
pub proof fn undecided_operator_evaluates_right_operand<'a>(
    state: State<'a>,
    operator: &'a Token,
    right: &'a Expr,
    answer: Answer,
)
    requires
        state.frames.len() > 0,
        state.frames.last() == Frame::Logical(operator, right),
        (operator.token_type == TokenType::Or) != truthy(top(state.values)),
    ensures
        step(state, answer) == go(
            State {
                frames: state.frames.drop_last().push(Frame::Eval(right)),
                values: below_top(state.values),
                ..state
            },
        ),
{
}

/// Whether none of the parameters at the positions from `from` up to
/// `to` has the name `name`.
pub open spec fn no_parameter_named(parameters: Seq<Token>, from: int, to: int, name: Seq<char>) -> bool {
    forall|k: int| from <= k < to ==> (#[trigger] parameters[k]).name@ != name
}

/// Binding parameters changes one scope alone.
pub proof fn bind_parameters_is_local(
    scopes: Seq<ScopeView>,
    scope: int,
    parameters: Seq<Token>,
    arguments: Seq<ValueView>,
    count: int,
)
    requires
        0 <= scope < scopes.len(),
    ensures
        ({
            let after = bind_parameters(scopes, scope, parameters, arguments, count);
            &&& after.len() == scopes.len()
            &&& after[scope].enclosing == scopes[scope].enclosing
            &&& forall|j: int| 0 <= j < scopes.len() && j != scope ==> #[trigger] after[j] == scopes[j]
        }),
    decreases count,
{
    if count > 0 {
        bind_parameters_is_local(scopes, scope, parameters, arguments, count - 1);
    }
}

/// Binding parameters leaves every other name as it was.
pub proof fn bind_parameters_keeps_other_names(
    scopes: Seq<ScopeView>,
    scope: int,
    parameters: Seq<Token>,
    arguments: Seq<ValueView>,
    count: int,
    name: Seq<char>,
)
    requires
        0 <= scope < scopes.len(),
        no_parameter_named(parameters, 0, count, name),
    ensures
        bind_parameters(scopes, scope, parameters, arguments, count)[scope].values.contains_key(name)
            == scopes[scope].values.contains_key(name),
    decreases count,
{
    if count > 0 {
        bind_parameters_is_local(scopes, scope, parameters, arguments, count - 1);
        assert(no_parameter_named(parameters, 0, count - 1, name));
        bind_parameters_keeps_other_names(scopes, scope, parameters, arguments, count - 1, name);
        assert(parameters[count - 1].name@ != name);
    }
}

/// Binding parameters binds each name to the argument at the last
/// position at which the name stands.
pub proof fn bind_parameters_binds_by_position(
    scopes: Seq<ScopeView>,
    scope: int,
    parameters: Seq<Token>,
    arguments: Seq<ValueView>,
    count: int,
    position: int,
)
    requires
        0 <= scope < scopes.len(),
        0 <= position < count,
        no_parameter_named(parameters, position + 1, count, parameters[position].name@),
    ensures
        bind_parameters(scopes, scope, parameters, arguments, count)[scope].values.contains_key(
            parameters[position].name@,
        ),
        bind_parameters(scopes, scope, parameters, arguments, count)[scope].values[parameters[position].name@]
            == arguments[position],
    decreases count,
{
    bind_parameters_is_local(scopes, scope, parameters, arguments, count - 1);
    if position < count - 1 {
        assert(no_parameter_named(parameters, position + 1, count - 1, parameters[position].name@));
        bind_parameters_binds_by_position(scopes, scope, parameters, arguments, count - 1, position);
        assert(parameters[count - 1].name@ != parameters[position].name@);
    }
}

/// Closure capture: a function declaration captures the scope that is
/// current where it is executed, and binds its name there to the new
/// function.
pub proof fn declaration_captures_current_scope<'a>(state: State<'a>, statement: &'a Stmt)
    requires
        statement is Function,
        state.current < state.scopes.len(),
        state.functions.len() <= usize::MAX,
    ensures
        ({
            let after = execute(state, statement);
            &&& after.functions == state.functions.push(after.functions.last())
            &&& after.functions.last().closure == state.current
            &&& after.functions.last().body@ == statement->Function_2@
            &&& read(after.scopes, state.current as int, statement->Function_0.name@) == Some(
                ValueView::Callable(Callee::Function(state.functions.len() as usize)),
            )
        }),
{
    let after = execute(state, statement);
    assert(after.functions.last() == after.functions[state.functions.len() as int]);
}

/// Closure capture: a call of a function runs in a new scope within the
/// scope of the function's declaration, whichever scope the call is made
/// in. A name that is no parameter is read in the call as it is read from
/// the scope of the declaration in the scopes as they are at the time of
/// the call, with every change that was made to them after the
/// declaration.
pub proof fn call_runs_in_scope_of_declaration<'a>(
    before: State<'a>,
    state: State<'a>,
    paren: &'a Token,
    count: usize,
    answer: Answer,
    index: usize,
    name: Seq<char>,
)
    requires
        state.values.len() > count,
        state.scopes.len() <= usize::MAX,
        state.values[state.values.len() - count - 1] == ValueView::Callable(Callee::Function(index)),
        index < state.functions.len(),
        state.functions[index as int].params@.len() == count,
        state.functions[index as int].closure < state.scopes.len(),
        no_parameter_named(state.functions[index as int].params@, 0, count as int, name),
    ensures
        ({
            let after = invoke(before, state, paren, count, answer).state;
            let function = state.functions[index as int];
            &&& after.current == state.scopes.len()
            &&& after.scopes.len() == state.scopes.len() + 1
            &&& after.scopes[after.current as int].enclosing == Some(function.closure)
            &&& read(after.scopes, after.current as int, name) == read(
                state.scopes,
                function.closure as int,
                name,
            )
            &&& after.frames == state.frames.push(
                Frame::Call(entry_of(state), (state.values.len() - count - 1) as usize),
            ).push(Frame::Sequence(function.body, 0))
        }),
{
    let function = state.functions[index as int];
    let after = invoke(before, state, paren, count, answer).state;
    let scope = state.scopes.len() as int;
    let opened = state.scopes.push(ScopeView { enclosing: Some(function.closure), values: Map::empty() });
    let arguments = state.values.skip(state.values.len() - count);
    bind_parameters_is_local(opened, scope, function.params@, arguments, count as int);
    bind_parameters_keeps_other_names(opened, scope, function.params@, arguments, count as int, name);
    assert(after.scopes == bind_parameters(opened, scope, function.params@, arguments, count as int));
    assert(!opened[scope].values.contains_key(name));
    assert forall|j: int| 0 <= j <= function.closure implies after.scopes[j] == state.scopes[j] by {
        assert(after.scopes[j] == opened[j]);
    }
    crate::environments::resolve_looks_outward(after.scopes, state.scopes, function.closure as int, name);
}

/// A call binds the parameters to the arguments by position: in the call,
/// a parameter is read as the argument at its position (for a name that
/// stands more than once among the parameters, at the last of them).
pub proof fn call_binds_parameters<'a>(
    before: State<'a>,
    state: State<'a>,
    paren: &'a Token,
    count: usize,
    answer: Answer,
    index: usize,
    position: int,
)
    requires
        state.values.len() > count,
        state.scopes.len() <= usize::MAX,
        state.values[state.values.len() - count - 1] == ValueView::Callable(Callee::Function(index)),
        index < state.functions.len(),
        state.functions[index as int].params@.len() == count,
        0 <= position < count,
        no_parameter_named(
            state.functions[index as int].params@,
            position + 1,
            count as int,
            state.functions[index as int].params@[position].name@,
        ),
    ensures
        ({
            let after = invoke(before, state, paren, count, answer).state;
            let function = state.functions[index as int];
            read(after.scopes, after.current as int, function.params@[position].name@) == Some(
                state.values[state.values.len() - count + position],
            )
        }),
{
    let function = state.functions[index as int];
    let after = invoke(before, state, paren, count, answer).state;
    let scope = state.scopes.len() as int;
    let opened = state.scopes.push(ScopeView { enclosing: Some(function.closure), values: Map::empty() });
    let arguments = state.values.skip(state.values.len() - count);
    bind_parameters_is_local(opened, scope, function.params@, arguments, count as int);
    bind_parameters_binds_by_position(opened, scope, function.params@, arguments, count as int, position);
    assert(after.scopes == bind_parameters(opened, scope, function.params@, arguments, count as int));
    assert(after.current == scope);
    assert(arguments[position] == state.values[state.values.len() - count + position]);
}

} // verus!
