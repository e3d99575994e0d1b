use lox::tokens::TokenType;
use lox::values::binary_operation;
use lox::values::unary_operation;
use lox::values::ArithmeticOp;
use lox::values::Callee;
use lox::values::Computed;
use lox::values::Number;
use lox::values::Value;

fn number(value: f64) -> Number {
    Number { bits: value.to_bits() }
}

fn samples() -> Vec<f64> {
    vec![
        0.0,
        -0.0,
        1.0,
        -1.0,
        0.5,
        -0.5,
        3.0,
        1e300,
        -1e300,
        f64::MIN_POSITIVE,
        -f64::MIN_POSITIVE,
        5e-324,
        -5e-324,
        f64::MAX,
        f64::MIN,
        f64::INFINITY,
        f64::NEG_INFINITY,
        f64::NAN,
        -f64::NAN,
        f64::from_bits(0x7ff0_0000_0000_0001),
        f64::from_bits(0xfff8_0000_0000_0001),
        1234.5678,
        2.0,
    ]
}

#[test]
fn numbers_compare_as_floating_point_does() {
    for &a in &samples() {
        for &b in &samples() {
            assert_eq!(number(a).is_equal(number(b)), a == b, "{} == {}", a, b);
            assert_eq!(number(a).is_below(number(b)), a < b, "{} < {}", a, b);
        }
    }
}

#[test]
fn nan_is_recognised() {
    for &a in &samples() {
        assert_eq!(number(a).is_nan(), a.is_nan(), "{}", a);
    }
}

#[test]
fn negation_changes_the_sign_alone() {
    for &a in &samples() {
        assert_eq!(number(a).negate().bits, (-a).to_bits(), "{}", a);
    }
    assert_eq!(number(2.5).negate().bits, (-2.5f64).to_bits());
    assert_eq!(number(0.0).negate().bits, (-0.0f64).to_bits());
}

#[test]
fn only_nil_and_false_are_falsy() {
    assert_eq!(Value::Nil.is_truthy(), false);
    assert_eq!(Value::Bool(false).is_truthy(), false);
    assert_eq!(Value::Bool(true).is_truthy(), true);
    assert_eq!(Value::Number(number(0.0)).is_truthy(), true);
    assert_eq!(Value::Number(number(f64::NAN)).is_truthy(), true);
    assert_eq!(Value::String(String::new()).is_truthy(), true);
    assert_eq!(Value::String("a".to_string()).is_truthy(), true);
    assert_eq!(Value::Callable(Callee::Clock).is_truthy(), true);
    assert_eq!(Value::Callable(Callee::Function(0)).is_truthy(), true);
}

#[test]
fn equality_needs_the_same_variant_and_payload() {
    assert!(Value::Nil.is_equal(Value::Nil));
    assert!(Value::Bool(true).is_equal(Value::Bool(true)));
    assert!(!Value::Bool(true).is_equal(Value::Bool(false)));
    assert!(Value::Number(number(1.0)).is_equal(Value::Number(number(1.0))));
    assert!(Value::Number(number(0.0)).is_equal(Value::Number(number(-0.0))));
    assert!(!Value::Number(number(f64::NAN)).is_equal(Value::Number(number(f64::NAN))));
    assert!(!Value::Number(number(1.0)).is_equal(Value::Number(number(2.0))));
    assert!(Value::String("a".to_string()).is_equal(Value::String("a".to_string())));
    assert!(!Value::String("a".to_string()).is_equal(Value::String("b".to_string())));
    assert!(Value::Callable(Callee::Clock).is_equal(Value::Callable(Callee::Clock)));
    assert!(Value::Callable(Callee::Function(1)).is_equal(Value::Callable(Callee::Function(1))));
    assert!(!Value::Callable(Callee::Function(1)).is_equal(Value::Callable(Callee::Function(2))));
    assert!(!Value::Callable(Callee::Clock).is_equal(Value::Callable(Callee::Function(0))));
    assert!(!Value::Nil.is_equal(Value::Bool(false)));
    assert!(!Value::Number(number(0.0)).is_equal(Value::Bool(false)));
    assert!(!Value::String("1".to_string()).is_equal(Value::Number(number(1.0))));
    assert!(!Value::Nil.is_equal(Value::String(String::new())));
}

#[test]
fn getters_give_the_payload_of_their_variant() {
    assert_eq!(Value::String("abc".to_string()).get_string(), Some("abc".to_string()));
    assert_eq!(Value::Nil.get_string(), None);
    assert_eq!(Value::Number(number(1.0)).get_string(), None);
    assert_eq!(Value::Number(number(1.5)).get_number().map(|n| n.bits), Some(1.5f64.to_bits()));
    assert!(Value::String("1".to_string()).get_number().is_none());
    assert_eq!(Value::Callable(Callee::Function(3)).is_callable(), Some(Callee::Function(3)));
    assert_eq!(Value::Callable(Callee::Clock).is_callable(), Some(Callee::Clock));
    assert_eq!(Value::Bool(true).is_callable(), None);
    let copy = Value::String("abc".to_string()).clone();
    assert_eq!(copy.get_string(), Some("abc".to_string()));
}

fn text(value: &str) -> Value {
    Value::String(value.to_string())
}

fn num(value: f64) -> Value {
    Value::Number(number(value))
}

fn boolean(result: Result<Computed, String>) -> bool {
    match result {
        Ok(Computed::Value(Value::Bool(b))) => b,
        other => panic!("no boolean: {:?}", other),
    }
}

#[test]
fn arithmetic_on_numbers_is_handed_out() {
    for (kind, operation) in [
        (TokenType::Plus, ArithmeticOp::Add),
        (TokenType::Minus, ArithmeticOp::Subtract),
        (TokenType::Star, ArithmeticOp::Multiply),
        (TokenType::Slash, ArithmeticOp::Divide),
    ] {
        match binary_operation(kind, 1, num(6.0), num(3.0)) {
            Ok(Computed::Arithmetic(op, left, right)) => {
                assert_eq!(op, operation);
                assert_eq!(left.bits, 6.0f64.to_bits());
                assert_eq!(right.bits, 3.0f64.to_bits());
            }
            other => panic!("no arithmetic: {:?}", other),
        }
    }
}

#[test]
fn plus_joins_strings() {
    match binary_operation(TokenType::Plus, 1, text("foo"), text("bar")) {
        Ok(Computed::Value(Value::String(joined))) => assert_eq!(joined, "foobar"),
        other => panic!("no string: {:?}", other),
    }
    match binary_operation(TokenType::Plus, 1, text(""), text("")) {
        Ok(Computed::Value(Value::String(joined))) => assert_eq!(joined, ""),
        other => panic!("no string: {:?}", other),
    }
}

#[test]
fn operators_reject_operands_of_the_wrong_kind() {
    for kind in [TokenType::Minus, TokenType::Star, TokenType::Slash] {
        assert_eq!(
            binary_operation(kind, 3, num(1.0), text("a")).unwrap_err(),
            "[line 3] Operands must be numbers."
        );
        assert_eq!(
            binary_operation(kind, 3, text("a"), text("b")).unwrap_err(),
            "[line 3] Operands must be numbers."
        );
        assert_eq!(
            binary_operation(kind, 12, Value::Nil, num(1.0)).unwrap_err(),
            "[line 12] Operands must be numbers."
        );
    }
    for kind in [
        TokenType::Plus,
        TokenType::Greater,
        TokenType::GreaterEqual,
        TokenType::Less,
        TokenType::LessEqual,
    ] {
        assert_eq!(
            binary_operation(kind, 7, num(1.0), text("a")).unwrap_err(),
            "[line 7] Operands must be two numbers or two strings."
        );
        assert_eq!(
            binary_operation(kind, 7, Value::Bool(true), Value::Bool(false)).unwrap_err(),
            "[line 7] Operands must be two numbers or two strings."
        );
    }
    assert_eq!(
        binary_operation(TokenType::Comma, 2, num(1.0), num(2.0)).unwrap_err(),
        "[line 2] Invalid operation COMMA for binary expression."
    );
    assert_eq!(
        unary_operation(TokenType::Minus, 4, text("a")).unwrap_err(),
        "[line 4] Operand must be a number."
    );
    assert_eq!(
        unary_operation(TokenType::Plus, 1000, num(1.0)).unwrap_err(),
        "[line 1000] Invalid operation for unary expression."
    );
}

#[test]
fn comparisons_order_numbers_and_strings() {
    assert!(boolean(binary_operation(TokenType::Less, 1, num(1.0), num(2.0))));
    assert!(!boolean(binary_operation(TokenType::Less, 1, num(2.0), num(2.0))));
    assert!(boolean(binary_operation(TokenType::LessEqual, 1, num(2.0), num(2.0))));
    assert!(boolean(binary_operation(TokenType::Greater, 1, num(3.0), num(-2.0))));
    assert!(boolean(binary_operation(TokenType::GreaterEqual, 1, num(-0.0), num(0.0))));
    assert!(!boolean(binary_operation(TokenType::GreaterEqual, 1, num(f64::NAN), num(0.0))));
    assert!(!boolean(binary_operation(TokenType::LessEqual, 1, num(f64::NAN), num(f64::NAN))));
    for (a, b) in [("a", "b"), ("b", "a"), ("a", "a"), ("", "a"), ("ab", "a"), ("a", "ab"), ("Z", "a"), ("\u{e9}", "z")] {
        assert_eq!(boolean(binary_operation(TokenType::Less, 1, text(a), text(b))), a < b);
        assert_eq!(boolean(binary_operation(TokenType::LessEqual, 1, text(a), text(b))), a <= b);
        assert_eq!(boolean(binary_operation(TokenType::Greater, 1, text(a), text(b))), a > b);
        assert_eq!(boolean(binary_operation(TokenType::GreaterEqual, 1, text(a), text(b))), a >= b);
    }
}

#[test]
fn equality_operators_take_any_operands() {
    assert!(boolean(binary_operation(TokenType::EqualEqual, 1, Value::Nil, Value::Nil)));
    assert!(!boolean(binary_operation(TokenType::EqualEqual, 1, Value::Nil, num(0.0))));
    assert!(boolean(binary_operation(TokenType::BangEqual, 1, text("a"), num(0.0))));
    assert!(!boolean(binary_operation(TokenType::BangEqual, 1, text("a"), text("a"))));
    assert!(boolean(binary_operation(TokenType::BangEqual, 1, num(f64::NAN), num(f64::NAN))));
}

#[test]
fn unary_operators() {
    match unary_operation(TokenType::Minus, 1, num(2.0)) {
        Ok(Value::Number(n)) => assert_eq!(n.bits, (-2.0f64).to_bits()),
        other => panic!("no number: {:?}", other),
    }
    assert!(matches!(unary_operation(TokenType::Bang, 1, Value::Nil), Ok(Value::Bool(true))));
    assert!(matches!(unary_operation(TokenType::Bang, 1, num(0.0)), Ok(Value::Bool(false))));
    assert!(matches!(unary_operation(TokenType::Bang, 1, text("")), Ok(Value::Bool(false))));
    assert!(matches!(unary_operation(TokenType::Bang, 1, Value::Bool(false)), Ok(Value::Bool(true))));
}
