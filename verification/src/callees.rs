//! The functions are known: every function that a value of the program
//! calls stands in the table of functions. A state in which that holds
//! is followed by such states alone.

use vstd::prelude::*;
use crate::environments::assigned;
use crate::environments::bound;
use crate::environments::read;
use crate::environments::resolve;
use crate::environments::resolve_finds_binding;
use crate::environments::ScopeView;
use crate::expressions::Expr;
use crate::machine::below_top;
use crate::machine::bind_parameters;
use crate::machine::evaluate;
use crate::machine::execute;
use crate::machine::invoke;
use crate::machine::leave;
use crate::machine::run;
use crate::machine::step;
use crate::machine::top;
use crate::machine::Answer;
use crate::machine::Frame;
use crate::machine::State;
use crate::statements::Stmt;
use crate::tokens::Token;
use crate::values::binary_result;
use crate::values::unary_result;
use crate::values::Callee;
use crate::values::ComputedView;
use crate::values::ValueView;

verus! {

/// Whether what the value calls, where it is a function of the program,
/// is among the first `count` functions.
pub open spec fn known(value: ValueView, count: nat) -> bool {
    match value {
        ValueView::Callable(Callee::Function(index)) => index < count,
        _ => true,
    }
}

/// Whether every value of the list is known.
pub open spec fn values_known(values: Seq<ValueView>, count: nat) -> bool {
    forall|k: int| 0 <= k < values.len() ==> known(#[trigger] values[k], count)
}

/// Whether every value that a scope binds is known.
pub open spec fn scope_known(scope: ScopeView, count: nat) -> bool {
    forall|name: Seq<char>| scope.values.contains_key(name) ==> known(#[trigger] scope.values[name], count)
}

/// Whether every value that the scopes bind is known.
pub open spec fn scopes_known(scopes: Seq<ScopeView>, count: nat) -> bool {
    forall|j: int| 0 <= j < scopes.len() ==> scope_known(#[trigger] scopes[j], count)
}

/// Every function that a value on the stack or in a scope calls stands
/// in the table of functions.
pub open spec fn callees_known<'a>(state: State<'a>) -> bool {
    values_known(state.values, state.functions.len()) && scopes_known(state.scopes, state.functions.len())
}

/// Binding a known value keeps the scopes known.
pub proof fn bound_keeps_known(scopes: Seq<ScopeView>, scope: int, name: Seq<char>, value: ValueView, count: nat)
    requires
        scopes_known(scopes, count),
        known(value, count),
    ensures
        scopes_known(bound(scopes, scope, name, value), count),
{
    let after = bound(scopes, scope, name, value);
    assert forall|j: int| 0 <= j < after.len() implies scope_known(#[trigger] after[j], count) by {
        assert(scope_known(scopes[j], count));
    }
}

/// Assigning a known value keeps the scopes known.
pub proof fn assigned_keeps_known(scopes: Seq<ScopeView>, scope: int, name: Seq<char>, value: ValueView, count: nat)
    requires
        scopes_known(scopes, count),
        known(value, count),
    ensures
        scopes_known(assigned(scopes, scope, name, value), count),
{
    match resolve(scopes, scope, name) {
        Some(found) => {
            bound_keeps_known(scopes, found, name, value, count);
        },
        None => {},
    }
}

/// Binding parameters to known arguments keeps the scopes known.
pub proof fn bind_parameters_keeps_known(
    scopes: Seq<ScopeView>,
    scope: int,
    parameters: Seq<Token>,
    arguments: Seq<ValueView>,
    bindings: int,
    count: nat,
)
    requires
        scopes_known(scopes, count),
        values_known(arguments, count),
        bindings <= arguments.len(),
    ensures
        scopes_known(bind_parameters(scopes, scope, parameters, arguments, bindings), count),
    decreases bindings,
{
    if bindings > 0 {
        bind_parameters_keeps_known(scopes, scope, parameters, arguments, bindings - 1, count);
        assert(known(arguments[bindings - 1], count));
        bound_keeps_known(
            bind_parameters(scopes, scope, parameters, arguments, bindings - 1),
            scope,
            parameters[bindings - 1].name@,
            arguments[bindings - 1],
            count,
        );
    }
}

/// What is read from known scopes is known.
pub proof fn read_is_known(scopes: Seq<ScopeView>, scope: int, name: Seq<char>, count: nat)
    requires
        scopes_known(scopes, count),
    ensures
        match read(scopes, scope, name) {
            Some(value) => known(value, count),
            None => true,
        },
{
    resolve_finds_binding(scopes, scope, name);
    match resolve(scopes, scope, name) {
        Some(found) => {
            assert(scope_known(scopes[found], count));
        },
        None => {},
    }
}

/// One more function leaves known what was known.
pub proof fn known_with_more_functions<'a>(state: State<'a>, count: nat)
    requires
        callees_known(state),
        count >= state.functions.len(),
    ensures
        values_known(state.values, count),
        scopes_known(state.scopes, count),
{
    assert forall|j: int| 0 <= j < state.scopes.len() implies scope_known(#[trigger] state.scopes[j], count) by {
        assert(scope_known(state.scopes[j], state.functions.len()));
    }
}

/// Every step keeps the functions known: no value ever calls a function
/// that the table does not hold.
pub proof fn step_keeps_callees_known<'a>(before: State<'a>, answer: Answer)
    requires
        callees_known(before),
        before.functions.len() < usize::MAX,
    ensures
        callees_known(step(before, answer).state),
{
    let count = before.functions.len();
    if before.frames.len() > 0 {
        let state = State { frames: before.frames.drop_last(), ..before };
        let value = top(state.values);
        let popped = State { values: below_top(state.values), ..state };
        assert(known(value, count));
        assert(values_known(popped.values, count));
        assert(values_known(state.values.push(ValueView::Nil), count));
        match before.frames.last() {
            Frame::Exec(statement) => {
                match statement {
                    Stmt::Var(name, None) => {
                        bound_keeps_known(state.scopes, state.current as int, name.name@, ValueView::Nil, count);
                    },
                    Stmt::Function(name, parameters, body) => {
                        known_with_more_functions(state, count + 1);
                        bound_keeps_known(
                            state.scopes,
                            state.current as int,
                            name.name@,
                            ValueView::Callable(Callee::Function(count as usize)),
                            count + 1,
                        );
                    },
                    Stmt::Block(list) => {
                        let after = execute(state, statement);
                        assert forall|j: int| 0 <= j < after.scopes.len() implies scope_known(
                            #[trigger] after.scopes[j],
                            count,
                        ) by {
                            if j < state.scopes.len() {
                                assert(scope_known(state.scopes[j], count));
                            }
                        }
                    },
                    Stmt::Return(_, None) => {
                        leave_keeps_known(state, ValueView::Nil);
                    },
                    _ => {},
                }
            },
            Frame::Define(name) => {
                bound_keeps_known(state.scopes, state.current as int, name.name@, value, count);
            },
            Frame::Return => {
                leave_keeps_known(popped, value);
            },
            Frame::Eval(expression) => {
                match expression {
                    Expr::Variable(name) => {
                        read_is_known(state.scopes, state.current as int, name.name@, count);
                    },
                    _ => {},
                }
                let after = evaluate(before, state, expression, answer).state;
                assert(values_known(after.values, count));
            },
            Frame::Unary(operator) => {
                match unary_result(operator.token_type, operator.line_number, value) {
                    Ok(result) => {
                        assert(values_known(popped.values.push(result), count));
                    },
                    _ => {},
                }
            },
            Frame::Binary(operator) => {
                let right = top(state.values);
                let left = top(below_top(state.values));
                let rest = below_top(below_top(state.values));
                assert(values_known(rest, count));
                match binary_result(operator.token_type, operator.line_number, left, right) {
                    Ok(ComputedView::Value(result)) => {
                        assert(values_known(rest.push(result), count));
                    },
                    Ok(ComputedView::Arithmetic(_, _, _)) => {
                        match answer {
                            Answer::Number(number) => {
                                assert(values_known(rest.push(ValueView::Number(number)), count));
                            },
                            _ => {},
                        }
                    },
                    _ => {},
                }
            },
            Frame::Assign(name) => {
                assigned_keeps_known(state.scopes, state.current as int, name.name@, value, count);
            },
            Frame::Invoke(paren, arguments) => {
                invoke_keeps_known(before, state, paren, arguments, answer);
            },
            _ => {},
        }
    }
}

/// A return keeps the functions known.
pub proof fn leave_keeps_known<'a>(state: State<'a>, value: ValueView)
    requires
        callees_known(state),
        known(value, state.functions.len()),
    ensures
        callees_known(leave(state, value)),
{
    let after = leave(state, value);
    assert forall|k: int| 0 <= k < after.values.len() implies known(
        #[trigger] after.values[k],
        state.functions.len(),
    ) by {
        if k < after.values.len() - 1 {
            assert(after.values[k] == state.values[k]);
        }
    }
}

/// A call keeps the functions known.
pub proof fn invoke_keeps_known<'a>(
    before: State<'a>,
    state: State<'a>,
    paren: &'a Token,
    count: usize,
    answer: Answer,
)
    requires
        callees_known(before),
        callees_known(state),
    ensures
        callees_known(invoke(before, state, paren, count, answer).state),
{
    let functions = state.functions.len();
    let after = invoke(before, state, paren, count, answer).state;
    if state.values.len() > count {
        let base = state.values.len() - count - 1;
        let arguments = state.values.skip(base + 1);
        let rest = state.values.take(base);
        assert(values_known(rest, functions));
        assert(values_known(arguments, functions)) by {
            assert forall|k: int| 0 <= k < arguments.len() implies known(#[trigger] arguments[k], functions) by {
                assert(arguments[k] == state.values[base + 1 + k]);
            }
        }
        match state.values[base] {
            ValueView::Callable(Callee::Clock) => {
                match answer {
                    Answer::Number(number) => {
                        assert(values_known(rest.push(ValueView::Number(number)), functions));
                    },
                    _ => {},
                }
            },
            ValueView::Callable(Callee::Function(index)) => {
                if index < state.functions.len() {
                    let function = state.functions[index as int];
                    if function.params@.len() == count {
                        let opened = state.scopes.push(
                            ScopeView { enclosing: Some(function.closure), values: Map::empty() },
                        );
                        assert forall|j: int| 0 <= j < opened.len() implies scope_known(
                            #[trigger] opened[j],
                            functions,
                        ) by {
                            if j < state.scopes.len() {
                                assert(scope_known(state.scopes[j], functions));
                            }
                        }
                        bind_parameters_keeps_known(
                            opened,
                            state.scopes.len() as int,
                            function.params@,
                            arguments,
                            count as int,
                            functions,
                        );
                    }
                }
            },
            _ => {},
        }
    }
}

/// The functions stay known over any number of steps.
pub proof fn run_keeps_callees_known<'a>(state: State<'a>, answer: Answer, budget: nat)
    requires
        callees_known(state),
        state.functions.len() + budget <= usize::MAX,
    ensures
        callees_known(run(state, answer, budget).state),
        run(state, answer, budget).state.functions.len() <= state.functions.len() + budget,
    decreases budget,
{
    if budget > 0 {
        step_keeps_callees_known(state, answer);
        let first = step(state, answer);
        assert(first.state.functions.len() <= state.functions.len() + 1);
        if first.request is Continue {
            run_keeps_callees_known(first.state, Answer::Nothing, (budget - 1) as nat);
        }
    }
}

} // verus!
