//! Environments: the scopes of a running program, each a mapping from
//! names to values with a link to the scope that encloses it.
//!
//! The scopes live in one table and are known by their index in it, so
//! that a block, a call and every closure that captured a scope all see
//! the same bindings, and a change made through one of them is seen
//! through the others. The table grows and shrinks at its end: a scope
//! is opened behind all others, and closed with all that were opened
//! after it.

use vstd::prelude::*;
use vstd::string::*;
use crate::text::line_message;
use crate::text::line_prefix;
use crate::tokens::Token;
use crate::values::Value;
use crate::values::ValueView;

verus! {

/// A name and the value bound to it.
pub struct Binding {
    pub name: String,
    pub value: Value,
}

/// One scope: its bindings, the later ones hiding earlier ones of the same
/// name, and the index of the enclosing scope.
pub struct Scope {
    pub enclosing: Option<usize>,
    pub bindings: Vec<Binding>,
}

/// The mathematical value of a [`Scope`]: a mapping from names to values.
pub ghost struct ScopeView {
    pub enclosing: Option<usize>,
    pub values: Map<Seq<char>, ValueView>,
}

/// The mapping that a list of bindings stands for.
pub open spec fn bindings_map(bindings: Seq<Binding>) -> Map<Seq<char>, ValueView>
    decreases bindings.len(),
{
    if bindings.len() == 0 {
        Map::empty()
    } else {
        bindings_map(bindings.drop_last()).insert(bindings.last().name@, bindings.last().value@)
    }
}

impl View for Scope {
    type V = ScopeView;

    open spec fn view(&self) -> ScopeView {
        ScopeView { enclosing: self.enclosing, values: bindings_map(self.bindings@) }
    }
}

/// The table of scopes. The scope at index 0 is the global one.
pub struct Environment {
    pub scopes: Vec<Scope>,
}

impl View for Environment {
    type V = Seq<ScopeView>;

    open spec fn view(&self) -> Seq<ScopeView> {
        Seq::new(self.scopes@.len(), |i: int| self.scopes@[i]@)
    }
}

/// The scope in which `name` is found from `scope`: the nearest one, going
/// outward, that binds it.
pub open spec fn resolve(scopes: Seq<ScopeView>, scope: int, name: Seq<char>) -> Option<int>
    decreases scope,
{
    if 0 <= scope < scopes.len() {
        if scopes[scope].values.contains_key(name) {
            Some(scope)
        } else {
            match scopes[scope].enclosing {
                Some(outer) => if outer < scope {
                    resolve(scopes, outer as int, name)
                } else {
                    None
                },
                None => None,
            }
        }
    } else {
        None
    }
}

/// The value that `name` has when read from `scope`.
pub open spec fn read(scopes: Seq<ScopeView>, scope: int, name: Seq<char>) -> Option<ValueView> {
    match resolve(scopes, scope, name) {
        Some(found) => Some(scopes[found].values[name]),
        None => None,
    }
}

/// The scopes after `name` is bound to `value` in the scope `scope`.
pub open spec fn bound(scopes: Seq<ScopeView>, scope: int, name: Seq<char>, value: ValueView) -> Seq<ScopeView> {
    if 0 <= scope < scopes.len() {
        scopes.update(
            scope,
            ScopeView { enclosing: scopes[scope].enclosing, values: scopes[scope].values.insert(name, value) },
        )
    } else {
        scopes
    }
}

/// The scopes after `value` is assigned to `name` from `scope`: bound anew
/// in the scope where the name is found, and unchanged where it is found
/// nowhere.
pub open spec fn assigned(scopes: Seq<ScopeView>, scope: int, name: Seq<char>, value: ValueView) -> Seq<
    ScopeView,
> {
    match resolve(scopes, scope, name) {
        Some(found) => bound(scopes, found, name, value),
        None => scopes,
    }
}

/// The first `count` of the scopes; all of them where they are fewer.
pub open spec fn cut(scopes: Seq<ScopeView>, count: int) -> Seq<ScopeView> {
    if 0 <= count <= scopes.len() {
        scopes.take(count)
    } else {
        scopes
    }
}

/// The diagnostic for a name that is found nowhere.
pub open spec fn undefined_variable(line: usize, name: Seq<char>) -> Seq<char> {
    line_message(line, "Undefined variable '"@ + name + "'."@)
}

/// Reading from a scope looks at that scope and at older ones only: two
/// tables that agree up to a scope give the same from it.
pub proof fn resolve_looks_outward(first: Seq<ScopeView>, second: Seq<ScopeView>, scope: int, name: Seq<char>)
    requires
        0 <= scope < first.len(),
        scope < second.len(),
        forall|j: int| 0 <= j <= scope ==> first[j] == second[j],
    ensures
        resolve(first, scope, name) == resolve(second, scope, name),
        read(first, scope, name) == read(second, scope, name),
    decreases scope,
{
    if !first[scope].values.contains_key(name) {
        match first[scope].enclosing {
            Some(outer) => {
                if outer < scope {
                    resolve_looks_outward(first, second, outer as int, name);
                }
            },
            None => {},
        }
    }
}

/// Where a name is found, a scope of the table binds it.
pub proof fn resolve_finds_binding(scopes: Seq<ScopeView>, scope: int, name: Seq<char>)
    ensures
        match resolve(scopes, scope, name) {
            Some(found) => 0 <= found <= scope && found < scopes.len() && scopes[found].values.contains_key(name),
            None => true,
        },
    decreases scope,
{
    if 0 <= scope < scopes.len() && !scopes[scope].values.contains_key(name) {
        match scopes[scope].enclosing {
            Some(outer) => {
                if outer < scope {
                    resolve_finds_binding(scopes, outer as int, name);
                }
            },
            None => {},
        }
    }
}

/// Lexical scoping: a variable is read from the innermost scope that binds
/// it. A name bound in a scope is read from that scope as bound there,
/// whatever the enclosing scopes bind.
pub proof fn read_finds_innermost_binding(scopes: Seq<ScopeView>, scope: int, name: Seq<char>, value: ValueView)
    requires
        0 <= scope < scopes.len(),
    ensures
        resolve(bound(scopes, scope, name, value), scope, name) == Some(scope),
        read(bound(scopes, scope, name, value), scope, name) == Some(value),
{
}

/// Lexical scoping: a name that a scope does not bind is read from it as
/// from the scope that encloses it.
pub proof fn read_passes_to_enclosing_scope(scopes: Seq<ScopeView>, scope: int, outer: usize, name: Seq<char>)
    requires
        0 <= scope < scopes.len(),
        !scopes[scope].values.contains_key(name),
        scopes[scope].enclosing == Some(outer),
        outer < scope,
    ensures
        read(scopes, scope, name) == read(scopes, outer as int, name),
{
}

/// Lexical scoping: binding a name in a scope hides what enclosing scopes
/// bind from that scope alone. Every older scope reads every name as
/// before.
pub proof fn binding_is_local(
    scopes: Seq<ScopeView>,
    scope: int,
    name: Seq<char>,
    value: ValueView,
    from: int,
    other: Seq<char>,
)
    requires
        0 <= from < scope,
        scope < scopes.len(),
    ensures
        read(bound(scopes, scope, name, value), from, other) == read(scopes, from, other),
{
    resolve_looks_outward(bound(scopes, scope, name, value), scopes, from, other);
}

/// Lexical scoping: a write from a scope that does not bind the name
/// changes the nearest enclosing binding, and nothing else. The name is
/// then read as the value written, from the scope of the write and from
/// the scope that binds it; no scope gains or loses a name, and every
/// other binding keeps its value.
pub proof fn assignment_changes_nearest_binding(
    scopes: Seq<ScopeView>,
    scope: int,
    name: Seq<char>,
    value: ValueView,
)
    requires
        resolve(scopes, scope, name) is Some,
    ensures
        ({
            let found = resolve(scopes, scope, name)->0;
            let after = assigned(scopes, scope, name, value);
            &&& after.len() == scopes.len()
            &&& resolve(after, scope, name) == Some(found)
            &&& read(after, scope, name) == Some(value)
            &&& read(after, found, name) == Some(value)
            &&& forall|j: int|
                0 <= j < scopes.len() ==> (#[trigger] after[j]).enclosing == scopes[j].enclosing
                    && after[j].values.dom() == scopes[j].values.dom()
            &&& forall|j: int, other: Seq<char>|
                0 <= j < scopes.len() && (j != found || other != name) ==> (#[trigger] after[j].values[other])
                    == scopes[j].values[other]
        }),
{
    resolve_finds_binding(scopes, scope, name);
    let found = resolve(scopes, scope, name)->0;
    let after = assigned(scopes, scope, name, value);
    same_domains_resolve_alike(scopes, after, scope, name);
    same_domains_resolve_alike(scopes, after, found, name);
    assert forall|j: int| 0 <= j < scopes.len() implies (#[trigger] after[j]).enclosing == scopes[j].enclosing
        && after[j].values.dom() == scopes[j].values.dom() by {
        assert(after[j].values.dom() =~= scopes[j].values.dom());
    }
}

/// Two tables whose scopes have the same links and bind the same names
/// find every name in the same scope.
pub proof fn same_domains_resolve_alike(first: Seq<ScopeView>, second: Seq<ScopeView>, scope: int, name: Seq<char>)
    requires
        first.len() == second.len(),
        forall|j: int|
            0 <= j < first.len() ==> (#[trigger] first[j]).enclosing == second[j].enclosing
                && first[j].values.contains_key(name) == second[j].values.contains_key(name),
    ensures
        resolve(first, scope, name) == resolve(second, scope, name),
    decreases scope,
{
    if 0 <= scope < first.len() && !first[scope].values.contains_key(name) {
        match first[scope].enclosing {
            Some(outer) => {
                if outer < scope {
                    same_domains_resolve_alike(first, second, outer as int, name);
                }
            },
            None => {},
        }
    }
}

/// The binding that counts for a name is the last one of that name.
pub proof fn last_binding_counts(bindings: Seq<Binding>, name: Seq<char>, i: int)
    requires
        0 <= i < bindings.len(),
        bindings[i].name@ == name,
        forall|j: int| i < j < bindings.len() ==> (#[trigger] bindings[j]).name@ != name,
    ensures
        bindings_map(bindings).contains_key(name),
        bindings_map(bindings)[name] == bindings[i].value@,
    decreases bindings.len(),
{
    if i < bindings.len() - 1 {
        assert(bindings.last().name@ != name);
        assert(bindings.drop_last()[i] == bindings[i]);
        assert forall|j: int| i < j < bindings.drop_last().len() implies (#[trigger] bindings.drop_last()[j]).name@
            != name by {
            assert(bindings.drop_last()[j] == bindings[j]);
        }
        last_binding_counts(bindings.drop_last(), name, i);
    }
}

/// A name that no binding has is not in the mapping.
pub proof fn unbound_name_is_absent(bindings: Seq<Binding>, name: Seq<char>)
    requires
        forall|j: int| 0 <= j < bindings.len() ==> (#[trigger] bindings[j]).name@ != name,
    ensures
        !bindings_map(bindings).contains_key(name),
    decreases bindings.len(),
{
    if bindings.len() > 0 {
        assert(bindings.last().name@ != name);
        assert forall|j: int| 0 <= j < bindings.drop_last().len() implies (#[trigger] bindings.drop_last()[j]).name@
            != name by {
            assert(bindings.drop_last()[j] == bindings[j]);
        }
        unbound_name_is_absent(bindings.drop_last(), name);
    }
}

/// Replacing the value of the binding that counts for a name binds the
/// name anew.
pub proof fn replaced_binding(bindings: Seq<Binding>, changed: Seq<Binding>, name: Seq<char>, i: int)
    requires
        0 <= i < bindings.len(),
        bindings[i].name@ == name,
        forall|j: int| i < j < bindings.len() ==> (#[trigger] bindings[j]).name@ != name,
        changed.len() == bindings.len(),
        changed[i].name@ == name,
        forall|j: int| 0 <= j < bindings.len() && j != i ==> #[trigger] changed[j] == bindings[j],
    ensures
        bindings_map(changed) == bindings_map(bindings).insert(name, changed[i].value@),
    decreases bindings.len(),
{
    if i == bindings.len() - 1 {
        assert(changed.drop_last() =~= bindings.drop_last());
        assert(bindings_map(changed) =~= bindings_map(bindings).insert(name, changed[i].value@));
    } else {
        assert(changed.last() == bindings.last());
        assert(bindings.last().name@ != name);
        assert(bindings.drop_last()[i] == bindings[i]);
        assert(changed.drop_last()[i] == changed[i]);
        assert forall|j: int| i < j < bindings.drop_last().len() implies (#[trigger] bindings.drop_last()[j]).name@
            != name by {
            assert(bindings.drop_last()[j] == bindings[j]);
        }
        assert forall|j: int| 0 <= j < bindings.drop_last().len() && j != i implies #[trigger] changed.drop_last()[j]
            == bindings.drop_last()[j] by {
            assert(changed.drop_last()[j] == changed[j]);
            assert(bindings.drop_last()[j] == bindings[j]);
        }
        replaced_binding(bindings.drop_last(), changed.drop_last(), name, i);
        assert(bindings_map(changed) =~= bindings_map(bindings).insert(name, changed[i].value@));
    }
}

impl Scope {
    /// The index of the binding that counts for `name`.
    fn find(&self, name: &String) -> (found: Option<usize>)
        ensures
            match found {
                Some(i) => i < self.bindings@.len() && self.bindings@[i as int].name@ == name@
                    && self@.values.contains_key(name@) && self@.values[name@]
                    == self.bindings@[i as int].value@ && forall|j: int|
                    i < j < self.bindings@.len() ==> (#[trigger] self.bindings@[j]).name@ != name@,
                None => !self@.values.contains_key(name@),
            },
    {
        let mut i = self.bindings.len();
        while i > 0
            invariant
                i <= self.bindings@.len(),
                forall|j: int| i <= j < self.bindings@.len() ==> (#[trigger] self.bindings@[j]).name@ != name@,
            decreases i,
        {
            i = i - 1;
            if self.bindings[i].name == *name {
                proof {
                    last_binding_counts(self.bindings@, name@, i as int);
                }
                return Some(i);
            }
        }
        proof {
            unbound_name_is_absent(self.bindings@, name@);
        }
        None
    }
}

impl Environment {
    /// The table that holds the global scope alone, with no binding.
    pub fn new() -> (environment: Self)
        ensures
            environment@ == seq![ScopeView { enclosing: None, values: Map::empty() }],
    {
        let mut scopes: Vec<Scope> = Vec::new();
        scopes.push(Scope { enclosing: None, bindings: Vec::new() });
        let environment = Environment { scopes };
        assert(environment@ =~= seq![ScopeView { enclosing: None, values: Map::empty() }]);
        environment
    }

    /// Opens a scope within `enclosing`, and returns its index.
    pub fn child(&mut self, enclosing: usize) -> (scope: usize)
        ensures
            scope == old(self)@.len(),
            final(self)@ == old(self)@.push(ScopeView { enclosing: Some(enclosing), values: Map::empty() }),
    {
        let scope = self.scopes.len();
        self.scopes.push(Scope { enclosing: Some(enclosing), bindings: Vec::new() });
        assert(self@ =~= old(self)@.push(ScopeView { enclosing: Some(enclosing), values: Map::empty() }));
        scope
    }

    /// Closes all scopes but the first `count`.
    pub fn release(&mut self, count: usize)
        ensures
            final(self)@ == cut(old(self)@, count as int),
    {
        self.scopes.truncate(count);
        assert(self@ =~= cut(old(self)@, count as int));
    }

    /// Binds `name` to `value` in the scope `scope`, whether or not the
    /// scope binds the name already. An index at which no scope stands
    /// changes nothing.
    pub fn define(&mut self, scope: usize, name: String, value: Value)
        ensures
            final(self)@ == bound(old(self)@, scope as int, name@, value@),
    {
        let ghost name_view = name@;
        let ghost value_view = value@;
        if scope >= self.scopes.len() {
            return ;
        }
        self.scopes[scope].bindings.push(Binding { name, value });
        proof {
            let before = old(self).scopes@[scope as int].bindings@;
            let after = self.scopes@[scope as int].bindings@;
            assert(after.drop_last() =~= before);
            assert(self@ =~= bound(old(self)@, scope as int, name_view, value_view));
        }
    }

    /// The scope in which `name` is found from `scope`, and the index of
    /// the binding in it.
    fn locate(&self, scope: usize, name: &String) -> (found: Option<(usize, usize)>)
        ensures
            match found {
                Some((s, i)) => resolve(self@, scope as int, name@) == Some(s as int) && s < self.scopes@.len()
                    && i < self.scopes@[s as int].bindings@.len() && self.scopes@[s as int].bindings@[i as int].name@
                    == name@ && self@[s as int].values[name@] == self.scopes@[s as int].bindings@[i as int].value@
                    && forall|j: int|
                    i < j < self.scopes@[s as int].bindings@.len() ==> (
                    #[trigger] self.scopes@[s as int].bindings@[j]).name@ != name@,
                None => resolve(self@, scope as int, name@) is None,
            },
    {
        let mut at = scope;
        loop
            invariant
                resolve(self@, at as int, name@) == resolve(self@, scope as int, name@),
            decreases at,
        {
            if at >= self.scopes.len() {
                return None;
            }
            match self.scopes[at].find(name) {
                Some(i) => {
                    return Some((at, i));
                },
                None => {},
            }
            match self.scopes[at].enclosing {
                Some(outer) => {
                    if outer < at {
                        at = outer;
                    } else {
                        return None;
                    }
                },
                None => {
                    return None;
                },
            }
        }
    }

    /// Assigns `value` to the variable that `token` names, in the nearest
    /// scope from `scope` outward that binds the name. Fails, and changes
    /// nothing, where no scope does.
    pub fn assign(&mut self, scope: usize, token: &Token, value: Value) -> (result: Result<
        Value,
        String,
    >)
        ensures
            final(self)@ == assigned(old(self)@, scope as int, token.name@, value@),
            match resolve(old(self)@, scope as int, token.name@) {
                Some(_) => result matches Ok(v) && v@ == value@,
                None => result matches Err(message) && message@ == undefined_variable(
                    token.line_number,
                    token.name@,
                ),
            },
    {
        match self.locate(scope, &token.name) {
            Some((s, i)) => {
                let kept = value.clone();
                let ghost before = self.scopes@[s as int].bindings@;
                self.scopes[s].bindings[i].value = value;
                proof {
                    let after = self.scopes@[s as int].bindings@;
                    replaced_binding(before, after, token.name@, i as int);
                    assert(self@ =~= assigned(old(self)@, scope as int, token.name@, value@));
                }
                Ok(kept)
            },
            None => Err(undefined(token)),
        }
    }

    /// The value of the variable that `token` names, read from `scope`:
    /// that of the nearest scope outward that binds the name.
    pub fn get(&self, scope: usize, token: &Token) -> (result: Result<Value, String>)
        ensures
            match read(self@, scope as int, token.name@) {
                Some(value) => result matches Ok(v) && v@ == value,
                None => result matches Err(message) && message@ == undefined_variable(
                    token.line_number,
                    token.name@,
                ),
            },
    {
        match self.locate(scope, &token.name) {
            Some((s, i)) => Ok(self.scopes[s].bindings[i].value.clone()),
            None => Err(undefined(token)),
        }
    }
}

/// The diagnostic for the variable that `token` names.
fn undefined(token: &Token) -> (message: String)
    ensures
        message@ == undefined_variable(token.line_number, token.name@),
{
    let mut message = line_prefix(token.line_number);
    message.append("Undefined variable '");
    message.append(token.name.as_str());
    message.append("'.");
    assert(message@ =~= undefined_variable(token.line_number, token.name@));
    message
}

} // verus!
