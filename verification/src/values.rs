//! Runtime values.

use vstd::prelude::*;
use vstd::string::*;
use crate::text::less_text;
use crate::text::line_message;
use crate::text::line_text;
use crate::text::text_less;
use crate::tokens::TokenType;

verus! {

/// A number: a 64-bit IEEE-754 binary floating-point value, held as its
/// bit pattern. The sign is the top bit; what is left is the magnitude,
/// which grows with the absolute value; the magnitudes above that of
/// infinity are the NaNs.
#[derive(Clone, Copy, Debug)]
pub struct Number {
    pub bits: u64,
}

/// The bit pattern of the sign.
pub const SIGN: u64 = 0x8000_0000_0000_0000;

/// The magnitude of infinity.
pub const INFINITY: u64 = 0x7ff0_0000_0000_0000;

impl Number {
    /// Whether the sign bit is set.
    pub open spec fn negative(self) -> bool {
        self.bits >= SIGN
    }

    /// The bits without the sign.
    pub open spec fn magnitude(self) -> int {
        if self.bits >= SIGN {
            self.bits - SIGN
        } else {
            self.bits as int
        }
    }

    /// Whether this is no number at all (a NaN).
    pub open spec fn nan(self) -> bool {
        self.magnitude() > INFINITY
    }

    /// Where a number that is no NaN stands in the order of the numbers:
    /// the two zeros stand together.
    pub open spec fn rank(self) -> int {
        if self.negative() {
            -self.magnitude()
        } else {
            self.magnitude()
        }
    }

    /// Equality of numbers: a NaN equals nothing, the two zeros are equal.
    pub open spec fn equals(self, other: Number) -> bool {
        !self.nan() && !other.nan() && self.rank() == other.rank()
    }

    /// The order of numbers: a NaN is below nothing and nothing is below it.
    pub open spec fn below(self, other: Number) -> bool {
        !self.nan() && !other.nan() && self.rank() < other.rank()
    }

    /// The number with the opposite sign.
    pub open spec fn negated(self) -> Number {
        Number {
            bits: if self.bits >= SIGN {
                (self.bits - SIGN) as u64
            } else {
                (self.bits + SIGN) as u64
            },
        }
    }

    /// Whether this is a NaN.
    pub fn is_nan(self) -> (b: bool)
        ensures
            b == self.nan(),
    {
        if self.bits >= SIGN {
            self.bits - SIGN > INFINITY
        } else {
            self.bits > INFINITY
        }
    }

    /// Whether the two numbers are equal.
    pub fn is_equal(self, other: Number) -> (b: bool)
        ensures
            b == self.equals(other),
    {
        if self.is_nan() || other.is_nan() {
            return false;
        }
        let zero = self.bits == 0 || self.bits == SIGN;
        let other_zero = other.bits == 0 || other.bits == SIGN;
        if zero || other_zero {
            zero && other_zero
        } else {
            self.bits == other.bits
        }
    }

    /// Whether this number is less than `other`.
    pub fn is_below(self, other: Number) -> (b: bool)
        ensures
            b == self.below(other),
    {
        if self.is_nan() || other.is_nan() {
            return false;
        }
        if self.bits >= SIGN {
            if other.bits >= SIGN {
                self.bits > other.bits
            } else {
                self.bits > SIGN || other.bits > 0
            }
        } else {
            other.bits < SIGN && self.bits < other.bits
        }
    }

    /// The number with the opposite sign.
    pub fn negate(self) -> (n: Number)
        ensures
            n == self.negated(),
    {
        if self.bits >= SIGN {
            Number { bits: self.bits - SIGN }
        } else {
            Number { bits: self.bits + SIGN }
        }
    }
}

/// What can be called: the built-in clock, or the function that stands at
/// an index of the interpreter's table of functions.
#[derive(Clone, Copy, Debug, PartialEq, Eq, Structural)]
pub enum Callee {
    Clock,
    Function(usize),
}

/// A runtime value.
#[derive(Debug)]
pub enum Value {
    Nil,
    Bool(bool),
    String(String),
    Number(Number),
    Callable(Callee),
}

/// The mathematical value of a [`Value`].
pub ghost enum ValueView {
    Nil,
    Bool(bool),
    String(Seq<char>),
    Number(Number),
    Callable(Callee),
}

impl View for Value {
    type V = ValueView;

    open spec fn view(&self) -> ValueView {
        match self {
            Value::Nil => ValueView::Nil,
            Value::Bool(b) => ValueView::Bool(*b),
            Value::String(s) => ValueView::String(s@),
            Value::Number(n) => ValueView::Number(*n),
            Value::Callable(c) => ValueView::Callable(*c),
        }
    }
}

impl Clone for Value {
    fn clone(&self) -> (copy: Self)
        ensures
            copy == *self,
    {
        match self {
            Value::Nil => Value::Nil,
            Value::Bool(b) => Value::Bool(*b),
            Value::String(s) => Value::String(s.clone()),
            Value::Number(n) => Value::Number(*n),
            Value::Callable(c) => Value::Callable(*c),
        }
    }
}

/// `nil` and `false` are falsy; every other value is truthy.
pub open spec fn truthy(value: ValueView) -> bool {
    match value {
        ValueView::Nil => false,
        ValueView::Bool(b) => b,
        _ => true,
    }
}

/// Two values are equal when they are of the same variant and hold equal
/// payloads.
pub open spec fn values_equal(left: ValueView, right: ValueView) -> bool {
    match (left, right) {
        (ValueView::Nil, ValueView::Nil) => true,
        (ValueView::Bool(l), ValueView::Bool(r)) => l == r,
        (ValueView::Number(l), ValueView::Number(r)) => l.equals(r),
        (ValueView::String(l), ValueView::String(r)) => l == r,
        (ValueView::Callable(l), ValueView::Callable(r)) => l == r,
        _ => false,
    }
}

impl Value {
    /// The text of a string value.
    pub fn get_string(&self) -> (text: Option<String>)
        ensures
            match self@ {
                ValueView::String(s) => text matches Some(t) && t@ == s,
                _ => text is None,
            },
    {
        match self {
            Value::String(s) => Some(s.clone()),
            _ => None,
        }
    }

    /// The number of a number value.
    pub fn get_number(&self) -> (number: Option<Number>)
        ensures
            match self@ {
                ValueView::Number(n) => number == Some(n),
                _ => number is None,
            },
    {
        match self {
            Value::Number(n) => Some(*n),
            _ => None,
        }
    }

    /// Whether the value counts as true in a condition.
    pub fn is_truthy(&self) -> (b: bool)
        ensures
            b == truthy(self@),
    {
        match self {
            Value::Nil => false,
            Value::Bool(b) => *b,
            _ => true,
        }
    }

    /// Whether the two values are equal.
    pub fn is_equal(&self, other: Self) -> (b: bool)
        ensures
            b == values_equal(self@, other@),
    {
        match (self, other) {
            (Value::Nil, Value::Nil) => true,
            (Value::Bool(l), Value::Bool(r)) => *l == r,
            (Value::Number(l), Value::Number(r)) => l.is_equal(r),
            (Value::String(l), Value::String(r)) => *l == r,
            (Value::Callable(l), Value::Callable(r)) => *l == r,
            _ => false,
        }
    }

    /// What a callable value calls.
    pub fn is_callable(&self) -> (callee: Option<Callee>)
        ensures
            match self@ {
                ValueView::Callable(c) => callee == Some(c),
                _ => callee is None,
            },
    {
        match self {
            Value::Callable(c) => Some(*c),
            _ => None,
        }
    }
}

/// The arithmetic that is left to the host's floating point.
#[derive(Clone, Copy, Debug, PartialEq, Eq, Structural)]
pub enum ArithmeticOp {
    Add,
    Subtract,
    Multiply,
    Divide,
}

/// What an operator gives: a value, or the arithmetic still to be done.
#[derive(Debug)]
pub enum Computed {
    Value(Value),
    Arithmetic(ArithmeticOp, Number, Number),
}

/// The mathematical value of a [`Computed`].
pub ghost enum ComputedView {
    Value(ValueView),
    Arithmetic(ArithmeticOp, Number, Number),
}

impl View for Computed {
    type V = ComputedView;

    open spec fn view(&self) -> ComputedView {
        match self {
            Computed::Value(v) => ComputedView::Value(v@),
            Computed::Arithmetic(op, l, r) => ComputedView::Arithmetic(*op, *l, *r),
        }
    }
}

/// The mathematical value of the outcome of an operator.
pub open spec fn computed_view(result: Result<Computed, String>) -> Result<ComputedView, Seq<char>> {
    match result {
        Ok(computed) => Ok(computed@),
        Err(message) => Err(message@),
    }
}

/// The mathematical value of the outcome of an operation that gives a value.
pub open spec fn value_result_view(result: Result<Value, String>) -> Result<ValueView, Seq<char>> {
    match result {
        Ok(value) => Ok(value@),
        Err(message) => Err(message@),
    }
}

/// The arithmetic operation of an operator token.
pub open spec fn arithmetic_of(kind: TokenType) -> Option<ArithmeticOp> {
    match kind {
        TokenType::Plus => Some(ArithmeticOp::Add),
        TokenType::Minus => Some(ArithmeticOp::Subtract),
        TokenType::Star => Some(ArithmeticOp::Multiply),
        TokenType::Slash => Some(ArithmeticOp::Divide),
        _ => None,
    }
}

/// The comparison `left kind right` on ranks that are ordered by `below`
/// and `same`.
pub open spec fn compare(kind: TokenType, below: bool, same: bool, above: bool) -> bool {
    match kind {
        TokenType::Greater => above,
        TokenType::GreaterEqual => above || same,
        TokenType::Less => below,
        _ => below || same,
    }
}

/// Whether the kind is that of a comparison operator.
pub open spec fn is_comparison(kind: TokenType) -> bool {
    kind == TokenType::Greater || kind == TokenType::GreaterEqual || kind == TokenType::Less || kind
        == TokenType::LessEqual
}

/// What a binary operator gives for two operands.
///
/// `-`, `*` and `/` take two numbers. `+` takes two numbers, or two
/// strings, which it joins. The comparisons take two numbers or two
/// strings. The equalities take anything. Arithmetic on two numbers is
/// not computed here: it is handed out with its operands.
pub open spec fn binary_result(kind: TokenType, line: usize, left: ValueView, right: ValueView) -> Result<
    ComputedView,
    Seq<char>,
> {
    if kind == TokenType::EqualEqual {
        Ok(ComputedView::Value(ValueView::Bool(values_equal(left, right))))
    } else if kind == TokenType::BangEqual {
        Ok(ComputedView::Value(ValueView::Bool(!values_equal(left, right))))
    } else if kind == TokenType::Minus || kind == TokenType::Star || kind == TokenType::Slash {
        match (left, right) {
            (ValueView::Number(l), ValueView::Number(r)) => Ok(
                ComputedView::Arithmetic(arithmetic_of(kind).unwrap(), l, r),
            ),
            _ => Err(line_message(line, "Operands must be numbers."@)),
        }
    } else if kind == TokenType::Plus {
        match (left, right) {
            (ValueView::Number(l), ValueView::Number(r)) => Ok(
                ComputedView::Arithmetic(ArithmeticOp::Add, l, r),
            ),
            (ValueView::String(l), ValueView::String(r)) => Ok(ComputedView::Value(ValueView::String(l + r))),
            _ => Err(line_message(line, "Operands must be two numbers or two strings."@)),
        }
    } else if is_comparison(kind) {
        match (left, right) {
            (ValueView::Number(l), ValueView::Number(r)) => Ok(
                ComputedView::Value(ValueView::Bool(compare(kind, l.below(r), l.equals(r), r.below(l)))),
            ),
            (ValueView::String(l), ValueView::String(r)) => Ok(
                ComputedView::Value(ValueView::Bool(compare(kind, text_less(l, r), l == r, text_less(r, l)))),
            ),
            _ => Err(line_message(line, "Operands must be two numbers or two strings."@)),
        }
    } else {
        Err(line_message(line, "Invalid operation "@ + kind.name() + " for binary expression."@))
    }
}

/// What a unary operator gives: `-` the number of opposite sign, `!` the
/// negated truthiness.
pub open spec fn unary_result(kind: TokenType, line: usize, operand: ValueView) -> Result<ValueView, Seq<char>> {
    if kind == TokenType::Minus {
        match operand {
            ValueView::Number(n) => Ok(ValueView::Number(n.negated())),
            _ => Err(line_message(line, "Operand must be a number."@)),
        }
    } else if kind == TokenType::Bang {
        Ok(ValueView::Bool(!truthy(operand)))
    } else {
        Err(line_message(line, "Invalid operation for unary expression."@))
    }
}

/// The comparison `left kind right`, given how the operands are ordered.
fn compare_ranks(kind: TokenType, below: bool, same: bool, above: bool) -> (b: bool)
    ensures
        b == compare(kind, below, same, above),
{
    match kind {
        TokenType::Greater => above,
        TokenType::GreaterEqual => above || same,
        TokenType::Less => below,
        _ => below || same,
    }
}

/// Applies the binary operator of kind `kind`, which stands on line `line`.
pub fn binary_operation(kind: TokenType, line: usize, left: Value, right: Value) -> (result: Result<
    Computed,
    String,
>)
    ensures
        computed_view(result) == binary_result(kind, line, left@, right@),
{
    match kind {
        TokenType::EqualEqual => Ok(Computed::Value(Value::Bool(left.is_equal(right)))),
        TokenType::BangEqual => Ok(Computed::Value(Value::Bool(!left.is_equal(right)))),
        TokenType::Minus | TokenType::Star | TokenType::Slash => {
            let operation = match kind {
                TokenType::Minus => ArithmeticOp::Subtract,
                TokenType::Star => ArithmeticOp::Multiply,
                _ => ArithmeticOp::Divide,
            };
            match (left, right) {
                (Value::Number(l), Value::Number(r)) => Ok(Computed::Arithmetic(operation, l, r)),
                _ => Err(line_text(line, "Operands must be numbers.")),
            }
        },
        TokenType::Plus => match (left, right) {
            (Value::Number(l), Value::Number(r)) => Ok(Computed::Arithmetic(ArithmeticOp::Add, l, r)),
            (Value::String(l), Value::String(r)) => Ok(Computed::Value(Value::String(l.concat(r.as_str())))),
            _ => Err(line_text(line, "Operands must be two numbers or two strings.")),
        },
        TokenType::Greater | TokenType::GreaterEqual | TokenType::Less | TokenType::LessEqual => match (
            left,
            right,
        ) {
            (Value::Number(l), Value::Number(r)) => Ok(
                Computed::Value(Value::Bool(compare_ranks(kind, l.is_below(r), l.is_equal(r), r.is_below(l)))),
            ),
            (Value::String(l), Value::String(r)) => Ok(
                Computed::Value(
                    Value::Bool(
                        compare_ranks(
                            kind,
                            less_text(l.as_str(), r.as_str()),
                            l == r,
                            less_text(r.as_str(), l.as_str()),
                        ),
                    ),
                ),
            ),
            _ => Err(line_text(line, "Operands must be two numbers or two strings.")),
        },
        _ => {
            let mut text = String::new();
            text.append("Invalid operation ");
            text.append(kind.display_name());
            text.append(" for binary expression.");
            assert(text@ =~= "Invalid operation "@ + kind.name() + " for binary expression."@);
            Err(line_text(line, text.as_str()))
        },
    }
}

/// Applies the unary operator of kind `kind`, which stands on line `line`.
pub fn unary_operation(kind: TokenType, line: usize, operand: Value) -> (result: Result<
    Value,
    String,
>)
    ensures
        value_result_view(result) == unary_result(kind, line, operand@),
{
    match kind {
        TokenType::Minus => match operand {
            Value::Number(n) => Ok(Value::Number(n.negate())),
            _ => Err(line_text(line, "Operand must be a number.")),
        },
        TokenType::Bang => Ok(Value::Bool(!operand.is_truthy())),
        _ => Err(line_text(line, "Invalid operation for unary expression.")),
    }
}

} // verus!
