use lox::environments::Environment;
use lox::tokens::Literal;
use lox::tokens::Token;
use lox::tokens::TokenType;
use lox::values::Value;

fn name(text: &str, line: usize) -> Token {
    Token::new(TokenType::Identifier, text.to_string(), Literal::Nil, line)
}

fn text(value: &str) -> Value {
    Value::String(value.to_string())
}

fn read(environment: &Environment, scope: usize, variable: &str) -> Option<String> {
    environment.get(scope, &name(variable, 1)).ok().and_then(|value| value.get_string())
}

#[test]
fn a_new_table_holds_the_empty_global_scope() {
    let environment = Environment::new();
    assert_eq!(environment.scopes.len(), 1);
    assert_eq!(environment.scopes[0].enclosing, None);
    assert_eq!(
        environment.get(0, &name("a", 3)).unwrap_err(),
        "[line 3] Undefined variable 'a'."
    );
}

#[test]
fn define_binds_and_overwrites() {
    let mut environment = Environment::new();
    environment.define(0, "a".to_string(), text("one"));
    assert_eq!(read(&environment, 0, "a"), Some("one".to_string()));
    environment.define(0, "a".to_string(), text("two"));
    assert_eq!(read(&environment, 0, "a"), Some("two".to_string()));
    environment.define(0, "b".to_string(), Value::Nil);
    assert!(matches!(environment.get(0, &name("b", 1)), Ok(Value::Nil)));
    assert_eq!(read(&environment, 0, "a"), Some("two".to_string()));
}

#[test]
fn define_outside_the_table_changes_nothing() {
    let mut environment = Environment::new();
    environment.define(5, "a".to_string(), text("one"));
    assert_eq!(environment.scopes.len(), 1);
    assert!(environment.get(0, &name("a", 1)).is_err());
    assert_eq!(
        environment.get(5, &name("a", 2)).unwrap_err(),
        "[line 2] Undefined variable 'a'."
    );
}

#[test]
fn a_read_finds_the_innermost_binding() {
    let mut environment = Environment::new();
    environment.define(0, "a".to_string(), text("global a"));
    environment.define(0, "b".to_string(), text("global b"));
    let outer = environment.child(0);
    environment.define(outer, "a".to_string(), text("outer a"));
    let inner = environment.child(outer);
    environment.define(inner, "a".to_string(), text("inner a"));
    assert_eq!(outer, 1);
    assert_eq!(inner, 2);
    assert_eq!(read(&environment, inner, "a"), Some("inner a".to_string()));
    assert_eq!(read(&environment, outer, "a"), Some("outer a".to_string()));
    assert_eq!(read(&environment, 0, "a"), Some("global a".to_string()));
    assert_eq!(read(&environment, inner, "b"), Some("global b".to_string()));
    assert_eq!(read(&environment, inner, "c"), None);
}

#[test]
fn an_assignment_changes_the_nearest_binding() {
    let mut environment = Environment::new();
    environment.define(0, "a".to_string(), text("global a"));
    environment.define(0, "b".to_string(), text("global b"));
    let outer = environment.child(0);
    environment.define(outer, "a".to_string(), text("outer a"));
    let inner = environment.child(outer);
    let sibling = environment.child(0);

    let result = environment.assign(inner, &name("a", 1), text("changed"));
    assert_eq!(result.unwrap().get_string(), Some("changed".to_string()));
    assert_eq!(read(&environment, inner, "a"), Some("changed".to_string()));
    assert_eq!(read(&environment, outer, "a"), Some("changed".to_string()));
    assert_eq!(read(&environment, 0, "a"), Some("global a".to_string()));
    assert_eq!(read(&environment, sibling, "a"), Some("global a".to_string()));

    environment.assign(inner, &name("b", 1), text("b too")).unwrap();
    assert_eq!(read(&environment, 0, "b"), Some("b too".to_string()));
    assert_eq!(read(&environment, sibling, "b"), Some("b too".to_string()));
    assert_eq!(environment.scopes[inner].bindings.len(), 0);
}

#[test]
fn an_assignment_to_an_unbound_name_fails() {
    let mut environment = Environment::new();
    let scope = environment.child(0);
    environment.define(scope, "local".to_string(), Value::Nil);
    assert_eq!(
        environment.assign(scope, &name("missing", 14), Value::Nil).unwrap_err(),
        "[line 14] Undefined variable 'missing'."
    );
    assert_eq!(
        environment.assign(0, &name("local", 2), Value::Nil).unwrap_err(),
        "[line 2] Undefined variable 'local'."
    );
    assert!(environment.get(0, &name("missing", 1)).is_err());
    assert_eq!(environment.scopes[0].bindings.len(), 0);
}

#[test]
fn assignment_after_redefinition_changes_the_binding_that_counts() {
    let mut environment = Environment::new();
    environment.define(0, "a".to_string(), text("first"));
    environment.define(0, "other".to_string(), text("other"));
    environment.define(0, "a".to_string(), text("second"));
    environment.assign(0, &name("a", 1), text("third")).unwrap();
    assert_eq!(read(&environment, 0, "a"), Some("third".to_string()));
    assert_eq!(read(&environment, 0, "other"), Some("other".to_string()));
}
