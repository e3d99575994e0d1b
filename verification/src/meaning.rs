//! What expressions mean: the value of an expression that asks nothing of
//! the host, and what it makes of the scopes, stated by the structure of
//! the expression; and the proof that the machine computes just that.

use vstd::prelude::*;
use crate::environments::assigned;
use crate::environments::bound;
use crate::environments::cut;
use crate::environments::read;
use crate::environments::resolve;
use crate::environments::ScopeView;
use crate::expressions::Expr;
use crate::machine::below_top;
use crate::machine::go;
use crate::machine::run;
use crate::machine::run_can_pause;
use crate::machine::short_circuits;
use crate::machine::step;
use crate::machine::Answer;
use crate::machine::Frame;
use crate::machine::State;
use crate::statements::Stmt;
use crate::tokens::Literal;
use crate::values::binary_result;
use crate::values::truthy;
use crate::values::unary_result;
use crate::values::ComputedView;
use crate::values::ValueView;

verus! {

/// What an expression gives: its value, the scopes as it leaves them, and
/// the number of steps that the machine takes for it.
pub ghost struct Meaning {
    pub value: ValueView,
    pub scopes: Seq<ScopeView>,
    pub steps: nat,
}

/// What an expression means in the given scopes, `current` being the
/// current one, where it needs no host and fails nowhere: that is, where
/// it is made of literals other than numbers, variables, groupings,
/// assignments and operators, without arithmetic on numbers.
///
/// The operands of an operator are evaluated from left to right, each in
/// the scopes as the one before left them. A logical operator that its
/// left operand decides gives that operand, and its right operand counts
/// for nothing. An assignment gives the value assigned.
pub open spec fn meaning(expression: &Expr, scopes: Seq<ScopeView>, current: int) -> Option<Meaning>
    decreases expression,
{
    match expression {
        Expr::Literal(Literal::Nil) => Some(Meaning { value: ValueView::Nil, scopes, steps: 1 }),
        Expr::Literal(Literal::Bool(b)) => Some(Meaning { value: ValueView::Bool(*b), scopes, steps: 1 }),
        Expr::Literal(Literal::String(text)) => Some(
            Meaning { value: ValueView::String(text@), scopes, steps: 1 },
        ),
        Expr::Literal(Literal::Number(_)) => None,
        Expr::Grouping(inner) => match meaning(inner, scopes, current) {
            Some(m) => Some(Meaning { steps: m.steps + 1, ..m }),
            None => None,
        },
        Expr::Variable(name) => match read(scopes, current, name.name@) {
            Some(value) => Some(Meaning { value, scopes, steps: 1 }),
            None => None,
        },
        Expr::Assign(name, value) => match meaning(value, scopes, current) {
            Some(m) => if resolve(m.scopes, current, name.name@) is Some {
                Some(
                    Meaning {
                        value: m.value,
                        scopes: assigned(m.scopes, current, name.name@, m.value),
                        steps: m.steps + 2,
                    },
                )
            } else {
                None
            },
            None => None,
        },
        Expr::Unary(operator, operand) => match meaning(operand, scopes, current) {
            Some(m) => match unary_result(operator.token_type, operator.line_number, m.value) {
                Ok(result) => Some(Meaning { value: result, scopes: m.scopes, steps: m.steps + 2 }),
                Err(_) => None,
            },
            None => None,
        },
        Expr::Binary(left, operator, right) => match meaning(left, scopes, current) {
            Some(l) => match meaning(right, l.scopes, current) {
                Some(r) => match binary_result(operator.token_type, operator.line_number, l.value, r.value) {
                    Ok(ComputedView::Value(result)) => Some(
                        Meaning { value: result, scopes: r.scopes, steps: l.steps + r.steps + 2 },
                    ),
                    _ => None,
                },
                None => None,
            },
            None => None,
        },
        Expr::Logical(left, operator, right) => match meaning(left, scopes, current) {
            Some(l) => if short_circuits(operator.token_type, l.value) {
                Some(Meaning { steps: l.steps + 2, ..l })
            } else {
                match meaning(right, l.scopes, current) {
                    Some(r) => Some(Meaning { steps: l.steps + r.steps + 2, ..r }),
                    None => None,
                }
            },
            None => None,
        },
        Expr::Call(_, _, _) => None,
    }
}

/// The state with the top frame taken off, the value of the expression
/// put on the stack, and the scopes as the expression leaves them.
pub open spec fn evaluated<'a>(state: State<'a>, meaning: Meaning) -> State<'a> {
    State {
        frames: state.frames.drop_last(),
        values: state.values.push(meaning.value),
        scopes: meaning.scopes,
        ..state
    }
}

/// A run that goes on from where a run has paused.
pub proof fn run_goes_on<'a>(state: State<'a>, paused: State<'a>, first: nat, second: nat)
    requires
        first > 0,
        run(state, Answer::Nothing, first) == go(paused),
    ensures
        run(state, Answer::Nothing, first + second) == run(paused, Answer::Nothing, second),
{
    run_can_pause(state, Answer::Nothing, first, second);
}

/// The machine computes the meaning: the evaluation of an expression
/// that has a meaning takes the frame of the expression off, puts the
/// value on the stack, leaves the scopes as the meaning says, asks
/// nothing of the host, and changes nothing else, whatever frames and
/// values lie below.
pub proof fn evaluation_gives_the_meaning<'a>(state: State<'a>, expression: &'a Expr)
    requires
        state.frames.len() > 0,
        state.frames.last() == Frame::Eval(expression),
        meaning(expression, state.scopes, state.current as int) is Some,
    ensures
        meaning(expression, state.scopes, state.current as int)->0.steps > 0,
        run(state, Answer::Nothing, meaning(expression, state.scopes, state.current as int)->0.steps) == go(
            evaluated(state, meaning(expression, state.scopes, state.current as int)->0),
        ),
    decreases expression, 1nat,
{
    let first = step(state, Answer::Nothing);
    assert(run(first.state, Answer::Nothing, 0) == go(first.state));
    match expression {
        Expr::Grouping(inner) => {
            assert(first.state.frames.drop_last() =~= state.frames.drop_last());
            evaluation_gives_the_meaning(first.state, inner);
        },
        Expr::Assign(_, _) => {
            assignment_gives_the_meaning(state, expression);
        },
        Expr::Unary(_, _) => {
            unary_gives_the_meaning(state, expression);
        },
        Expr::Binary(_, _, _) => {
            binary_gives_the_meaning(state, expression);
        },
        Expr::Logical(_, _, _) => {
            logical_gives_the_meaning(state, expression);
        },
        _ => {},
    }
}

/// The machine computes the meaning of an assignment.
pub proof fn assignment_gives_the_meaning<'a>(state: State<'a>, expression: &'a Expr)
    requires
        state.frames.len() > 0,
        state.frames.last() == Frame::Eval(expression),
        expression is Assign,
        meaning(expression, state.scopes, state.current as int) is Some,
    ensures
        run(state, Answer::Nothing, meaning(expression, state.scopes, state.current as int)->0.steps) == go(
            evaluated(state, meaning(expression, state.scopes, state.current as int)->0),
        ),
    decreases expression, 0nat,
{
    let scopes = state.scopes;
    let current = state.current as int;
    let below = state.frames.drop_last();
    let whole = meaning(expression, scopes, current)->0;
    let first = step(state, Answer::Nothing);
    match expression {
        Expr::Assign(name, value) => {
            let waiting = below.push(Frame::Assign(name));
            assert(first.state.frames.drop_last() =~= waiting);
            evaluation_gives_the_meaning(first.state, value);
            let m = meaning(value, scopes, current)->0;
            let second = evaluated(first.state, m);
            run_goes_on(first.state, second, m.steps, 1);
            let last = step(second, Answer::Nothing);
            assert(second.frames.drop_last() =~= below);
            assert(run(last.state, Answer::Nothing, 0) == go(last.state));
            assert(run(second, Answer::Nothing, 1) == go(evaluated(state, whole)));
            assert(whole.steps == 1 + (m.steps + 1));
        },
        _ => {},
    }
}

/// The machine computes the meaning of a unary operation.
pub proof fn unary_gives_the_meaning<'a>(state: State<'a>, expression: &'a Expr)
    requires
        state.frames.len() > 0,
        state.frames.last() == Frame::Eval(expression),
        expression is Unary,
        meaning(expression, state.scopes, state.current as int) is Some,
    ensures
        run(state, Answer::Nothing, meaning(expression, state.scopes, state.current as int)->0.steps) == go(
            evaluated(state, meaning(expression, state.scopes, state.current as int)->0),
        ),
    decreases expression, 0nat,
{
    let scopes = state.scopes;
    let current = state.current as int;
    let below = state.frames.drop_last();
    let whole = meaning(expression, scopes, current)->0;
    let first = step(state, Answer::Nothing);
    match expression {
        Expr::Unary(operator, operand) => {
            let waiting = below.push(Frame::Unary(operator));
            assert(first.state.frames.drop_last() =~= waiting);
            evaluation_gives_the_meaning(first.state, operand);
            let m = meaning(operand, scopes, current)->0;
            let second = evaluated(first.state, m);
            run_goes_on(first.state, second, m.steps, 1);
            let last = step(second, Answer::Nothing);
            assert(second.frames.drop_last() =~= below);
            assert(below_top(second.values) =~= state.values);
            assert(run(last.state, Answer::Nothing, 0) == go(last.state));
            assert(run(second, Answer::Nothing, 1) == go(evaluated(state, whole)));
            assert(whole.steps == 1 + (m.steps + 1));
        },
        _ => {},
    }
}

/// The machine computes the meaning of a binary operation.
pub proof fn binary_gives_the_meaning<'a>(state: State<'a>, expression: &'a Expr)
    requires
        state.frames.len() > 0,
        state.frames.last() == Frame::Eval(expression),
        expression is Binary,
        meaning(expression, state.scopes, state.current as int) is Some,
    ensures
        run(state, Answer::Nothing, meaning(expression, state.scopes, state.current as int)->0.steps) == go(
            evaluated(state, meaning(expression, state.scopes, state.current as int)->0),
        ),
    decreases expression, 0nat,
{
    let scopes = state.scopes;
    let current = state.current as int;
    let below = state.frames.drop_last();
    let whole = meaning(expression, scopes, current)->0;
    let first = step(state, Answer::Nothing);
    match expression {
        Expr::Binary(left, operator, right) => {
            let waiting = below.push(Frame::Binary(operator));
            assert(first.state.frames.drop_last() =~= waiting.push(Frame::Eval(right)));
            evaluation_gives_the_meaning(first.state, left);
            let l = meaning(left, scopes, current)->0;
            let r = meaning(right, l.scopes, current)->0;
            let second = evaluated(first.state, l);
            run_goes_on(first.state, second, l.steps, r.steps + 1);
            assert(second.frames =~= waiting.push(Frame::Eval(right)));
            evaluation_gives_the_meaning(second, right);
            let third = evaluated(second, r);
            run_goes_on(second, third, r.steps, 1);
            assert(third.frames =~= waiting);
            assert(third.frames.drop_last() =~= below);
            assert(below_top(third.values) =~= state.values.push(l.value));
            assert(below_top(below_top(third.values)) =~= state.values);
            let last = step(third, Answer::Nothing);
            assert(run(last.state, Answer::Nothing, 0) == go(last.state));
            assert(run(third, Answer::Nothing, 1) == go(evaluated(state, whole)));
            assert(whole.steps == 1 + (l.steps + (r.steps + 1)));
        },
        _ => {},
    }
}

/// The machine computes the meaning of a logical operation.
pub proof fn logical_gives_the_meaning<'a>(state: State<'a>, expression: &'a Expr)
    requires
        state.frames.len() > 0,
        state.frames.last() == Frame::Eval(expression),
        expression is Logical,
        meaning(expression, state.scopes, state.current as int) is Some,
    ensures
        run(state, Answer::Nothing, meaning(expression, state.scopes, state.current as int)->0.steps) == go(
            evaluated(state, meaning(expression, state.scopes, state.current as int)->0),
        ),
    decreases expression, 0nat,
{
    let scopes = state.scopes;
    let current = state.current as int;
    let below = state.frames.drop_last();
    let whole = meaning(expression, scopes, current)->0;
    let first = step(state, Answer::Nothing);
    match expression {
        Expr::Logical(left, operator, right) => {
            let waiting = below.push(Frame::Logical(operator, right));
            assert(first.state.frames.drop_last() =~= waiting);
            evaluation_gives_the_meaning(first.state, left);
            let l = meaning(left, scopes, current)->0;
            let second = evaluated(first.state, l);
            assert(second.frames =~= waiting);
            assert(second.frames.drop_last() =~= below);
            assert(below_top(second.values) =~= state.values);
            let decided = step(second, Answer::Nothing);
            assert(run(decided.state, Answer::Nothing, 0) == go(decided.state));
            if short_circuits(operator.token_type, l.value) {
                run_goes_on(first.state, second, l.steps, 1);
                assert(run(second, Answer::Nothing, 1) == go(evaluated(state, whole)));
                assert(whole.steps == 1 + (l.steps + 1));
            } else {
                let r = meaning(right, l.scopes, current)->0;
                run_goes_on(first.state, second, l.steps, 1 + r.steps);
                assert(decided.state.frames.drop_last() =~= below);
                evaluation_gives_the_meaning(decided.state, right);
                assert(evaluated(decided.state, r) == evaluated(state, whole));
                run_goes_on(second, decided.state, 1, r.steps);
                assert(whole.steps == 1 + (l.steps + (1 + r.steps)));
            }
        },
        _ => {},
    }
}


/// What a statement does: the scopes as it leaves them, and the number
/// of steps that the machine takes for it.
pub ghost struct Effect {
    pub scopes: Seq<ScopeView>,
    pub steps: nat,
}

/// What a statement does in the given scopes, `current` being the
/// current one, where it is made of expressions that have a meaning, of
/// declarations of variables, of blocks and of `if`, and the table of
/// scopes has room.
///
/// A declaration binds its name in the current scope, to the value of
/// its initializer or to `nil`. A block runs its statements in order in
/// a new scope within the current one; behind it, that scope is closed,
/// and the current scope is the same as before it. An `if` runs one
/// branch, or none.
pub open spec fn effect(statement: &Stmt, scopes: Seq<ScopeView>, current: int) -> Option<Effect>
    decreases statement, 0nat,
{
    match statement {
        Stmt::Expression(expression) => match meaning(expression, scopes, current) {
            Some(m) => Some(Effect { scopes: m.scopes, steps: m.steps + 2 }),
            None => None,
        },
        Stmt::Var(name, Some(initializer)) => match meaning(initializer, scopes, current) {
            Some(m) => Some(Effect { scopes: bound(m.scopes, current, name.name@, m.value), steps: m.steps + 2 }),
            None => None,
        },
        Stmt::Var(name, None) => Some(
            Effect { scopes: bound(scopes, current, name.name@, ValueView::Nil), steps: 1 },
        ),
        Stmt::Block(list) => if 0 <= current <= usize::MAX && scopes.len() <= usize::MAX {
            match sequence_effect(
                list@,
                0,
                scopes.push(ScopeView { enclosing: Some(current as usize), values: Map::empty() }),
                scopes.len() as int,
            ) {
                Some(inner) => Some(Effect { scopes: cut(inner.scopes, scopes.len() as int), steps: inner.steps + 2 }),
                None => None,
            }
        } else {
            None
        },
        Stmt::If(condition, then_branch, else_branch) => match meaning(condition, scopes, current) {
            Some(m) => if truthy(m.value) {
                match effect(then_branch, m.scopes, current) {
                    Some(taken) => Some(Effect { scopes: taken.scopes, steps: m.steps + 2 + taken.steps }),
                    None => None,
                }
            } else {
                match else_branch {
                    Some(otherwise) => match effect(otherwise, m.scopes, current) {
                        Some(taken) => Some(Effect { scopes: taken.scopes, steps: m.steps + 2 + taken.steps }),
                        None => None,
                    },
                    None => Some(Effect { scopes: m.scopes, steps: m.steps + 2 }),
                }
            },
            None => None,
        },
        _ => None,
    }
}

/// What the statements of a list do, from the one at `next` on, each in
/// the scopes as the one before left them.
pub open spec fn sequence_effect(list: Seq<Stmt>, next: int, scopes: Seq<ScopeView>, current: int) -> Option<
    Effect,
>
    decreases list, list.len() - next,
{
    if 0 <= next < list.len() {
        match effect(&list[next], scopes, current) {
            Some(first) => match sequence_effect(list, next + 1, first.scopes, current) {
                Some(rest) => Some(Effect { scopes: rest.scopes, steps: first.steps + rest.steps + 1 }),
                None => None,
            },
            None => None,
        }
    } else {
        Some(Effect { scopes, steps: 1 })
    }
}

/// The state with the top frame taken off and the scopes as the
/// statement leaves them.
pub open spec fn executed<'a>(state: State<'a>, effect: Effect) -> State<'a> {
    State { frames: state.frames.drop_last(), scopes: effect.scopes, ..state }
}

/// The machine does what a statement does: the execution of a statement
/// that has an effect takes the frame of the statement off, leaves the
/// scopes as the effect says, with the same scope current as before, asks
/// nothing of the host, and changes nothing else, whatever frames and
/// values lie below. (The table of functions is no longer than a table
/// can be.)
pub proof fn execution_has_the_effect<'a>(state: State<'a>, statement: &'a Stmt)
    requires
        state.frames.len() > 0,
        state.frames.last() == Frame::Exec(statement),
        effect(statement, state.scopes, state.current as int) is Some,
        state.functions.len() <= usize::MAX,
    ensures
        effect(statement, state.scopes, state.current as int)->0.steps > 0,
        run(state, Answer::Nothing, effect(statement, state.scopes, state.current as int)->0.steps) == go(
            executed(state, effect(statement, state.scopes, state.current as int)->0),
        ),
    decreases statement, 1nat,
{
    let scopes = state.scopes;
    let current = state.current as int;
    let below = state.frames.drop_last();
    let whole = effect(statement, scopes, current)->0;
    let first = step(state, Answer::Nothing);
    assert(run(first.state, Answer::Nothing, 0) == go(first.state));
    match statement {
        Stmt::Expression(expression) => {
            let waiting = below.push(Frame::Discard);
            assert(first.state.frames.drop_last() =~= waiting);
            evaluation_gives_the_meaning(first.state, expression);
            let m = meaning(expression, scopes, current)->0;
            let second = evaluated(first.state, m);
            run_goes_on(first.state, second, m.steps, 1);
            let last = step(second, Answer::Nothing);
            assert(second.frames.drop_last() =~= below);
            assert(below_top(second.values) =~= state.values);
            assert(run(last.state, Answer::Nothing, 0) == go(last.state));
            assert(run(second, Answer::Nothing, 1) == go(executed(state, whole)));
            assert(whole.steps == 1 + (m.steps + 1));
        },
        Stmt::Var(name, Some(initializer)) => {
            let waiting = below.push(Frame::Define(name));
            assert(first.state.frames.drop_last() =~= waiting);
            evaluation_gives_the_meaning(first.state, initializer);
            let m = meaning(initializer, scopes, current)->0;
            let second = evaluated(first.state, m);
            run_goes_on(first.state, second, m.steps, 1);
            let last = step(second, Answer::Nothing);
            assert(second.frames.drop_last() =~= below);
            assert(below_top(second.values) =~= state.values);
            assert(run(last.state, Answer::Nothing, 0) == go(last.state));
            assert(run(second, Answer::Nothing, 1) == go(executed(state, whole)));
            assert(whole.steps == 1 + (m.steps + 1));
        },
        Stmt::Block(_) => {
            block_has_the_effect(state, statement);
        },
        Stmt::If(_, _, _) => {
            branch_has_the_effect(state, statement);
        },
        _ => {},
    }
}

/// The machine does what a block does.
pub proof fn block_has_the_effect<'a>(state: State<'a>, statement: &'a Stmt)
    requires
        state.frames.len() > 0,
        state.frames.last() == Frame::Exec(statement),
        statement is Block,
        effect(statement, state.scopes, state.current as int) is Some,
        state.functions.len() <= usize::MAX,
    ensures
        run(state, Answer::Nothing, effect(statement, state.scopes, state.current as int)->0.steps) == go(
            executed(state, effect(statement, state.scopes, state.current as int)->0),
        ),
    decreases statement, 0nat,
{
    let scopes = state.scopes;
    let current = state.current as int;
    let below = state.frames.drop_last();
    let whole = effect(statement, scopes, current)->0;
    let first = step(state, Answer::Nothing);
    assert(run(first.state, Answer::Nothing, 0) == go(first.state));
    match statement {
        Stmt::Block(list) => {
            let waiting = below.push(Frame::Restore(crate::machine::entry_of(state)));
            assert(first.state.frames.drop_last() =~= waiting);
            assert(first.state.frames.last() == Frame::Sequence(list, 0));
            sequence_has_the_effect(first.state, list, 0);
            let inner = sequence_effect(list@, 0, first.state.scopes, first.state.current as int)->0;
            let second = executed(first.state, inner);
            run_goes_on(first.state, second, inner.steps, 1);
            let last = step(second, Answer::Nothing);
            assert(second.frames.drop_last() =~= below);
            assert(run(last.state, Answer::Nothing, 0) == go(last.state));
            assert(run(second, Answer::Nothing, 1) == go(executed(state, whole)));
            assert(whole.steps == 1 + (inner.steps + 1));
        },
        _ => {},
    }
}

/// The machine does what the statements of a list do.
pub proof fn sequence_has_the_effect<'a>(state: State<'a>, list: &'a Vec<Stmt>, next: usize)
    requires
        state.frames.len() > 0,
        state.frames.last() == Frame::Sequence(list, next),
        sequence_effect(list@, next as int, state.scopes, state.current as int) is Some,
        state.functions.len() <= usize::MAX,
    ensures
        sequence_effect(list@, next as int, state.scopes, state.current as int)->0.steps > 0,
        run(
            state,
            Answer::Nothing,
            sequence_effect(list@, next as int, state.scopes, state.current as int)->0.steps,
        ) == go(executed(state, sequence_effect(list@, next as int, state.scopes, state.current as int)->0)),
    decreases list@, list@.len() - next,
{
    vstd::std_specs::vec::axiom_spec_len(list);
    let scopes = state.scopes;
    let current = state.current as int;
    let below = state.frames.drop_last();
    let whole = sequence_effect(list@, next as int, scopes, current)->0;
    let first = step(state, Answer::Nothing);
    assert(run(first.state, Answer::Nothing, 0) == go(first.state));
    if next < list@.len() {
        let statement = &list@[next as int];
        let follow = (next + 1) as usize;
        let waiting = below.push(Frame::Sequence(list, follow));
        assert(first.state.frames.drop_last() =~= waiting);
        execution_has_the_effect(first.state, statement);
        let one = effect(statement, scopes, current)->0;
        let second = executed(first.state, one);
        assert(second.frames =~= waiting);
        run_goes_on(first.state, second, one.steps, 0);
        sequence_has_the_effect(second, list, follow);
        let rest = sequence_effect(list@, follow as int, one.scopes, current)->0;
        run_goes_on(first.state, second, one.steps, rest.steps);
        assert(second.frames.drop_last() =~= below);
        assert(executed(second, rest) == executed(state, whole));
        assert(whole.steps == 1 + (one.steps + rest.steps));
    } else {
        assert(first.state == executed(state, whole));
    }
}

/// The machine does what an `if` does.
pub proof fn branch_has_the_effect<'a>(state: State<'a>, statement: &'a Stmt)
    requires
        state.frames.len() > 0,
        state.frames.last() == Frame::Exec(statement),
        statement is If,
        effect(statement, state.scopes, state.current as int) is Some,
        state.functions.len() <= usize::MAX,
    ensures
        run(state, Answer::Nothing, effect(statement, state.scopes, state.current as int)->0.steps) == go(
            executed(state, effect(statement, state.scopes, state.current as int)->0),
        ),
    decreases statement, 0nat,
{
    let scopes = state.scopes;
    let current = state.current as int;
    let below = state.frames.drop_last();
    let whole = effect(statement, scopes, current)->0;
    let first = step(state, Answer::Nothing);
    assert(run(first.state, Answer::Nothing, 0) == go(first.state));
    match statement {
        Stmt::If(condition, then_branch, else_branch) => {
            let waiting = below.push(Frame::Branch(then_branch, else_branch));
            assert(first.state.frames.drop_last() =~= waiting);
            evaluation_gives_the_meaning(first.state, condition);
            let m = meaning(condition, scopes, current)->0;
            let second = evaluated(first.state, m);
            assert(second.frames =~= waiting);
            assert(second.frames.drop_last() =~= below);
            assert(below_top(second.values) =~= state.values);
            let decided = step(second, Answer::Nothing);
            assert(run(decided.state, Answer::Nothing, 0) == go(decided.state));
            if truthy(m.value) {
                let taken = effect(then_branch, m.scopes, current)->0;
                run_goes_on(first.state, second, m.steps, 1 + taken.steps);
                assert(decided.state.frames.drop_last() =~= below);
                execution_has_the_effect(decided.state, then_branch);
                assert(executed(decided.state, taken) == executed(state, whole));
                run_goes_on(second, decided.state, 1, taken.steps);
                assert(whole.steps == 1 + (m.steps + (1 + taken.steps)));
            } else {
                match else_branch {
                    Some(otherwise) => {
                        let taken = effect(otherwise, m.scopes, current)->0;
                        run_goes_on(first.state, second, m.steps, 1 + taken.steps);
                        assert(decided.state.frames.drop_last() =~= below);
                        execution_has_the_effect(decided.state, otherwise);
                        assert(executed(decided.state, taken) == executed(state, whole));
                        run_goes_on(second, decided.state, 1, taken.steps);
                        assert(whole.steps == 1 + (m.steps + (1 + taken.steps)));
                    },
                    None => {
                        run_goes_on(first.state, second, m.steps, 1);
                        assert(run(second, Answer::Nothing, 1) == go(executed(state, whole)));
                        assert(whole.steps == 1 + (m.steps + 1));
                    },
                }
            }
        },
        _ => {},
    }
}

} // verus!
