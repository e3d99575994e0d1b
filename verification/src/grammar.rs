//! The grammar: what the parser makes of a token sequence, as mathematical
//! functions from a position in the sequence to a syntax tree, or an error,
//! and the position reached.
//!
//! Every function takes the state before and gives the state after. Where
//! one phrase follows another, the later one starts at `since` or `past`
//! the earlier state: a phrase never ends before its start, and the two
//! functions say so in a form from which it is plain that the definitions
//! terminate.

use vstd::prelude::*;
use crate::expressions::ExprView;
use crate::statements::StmtView;
use crate::text::decimal;
use crate::tokens::Literal;
use crate::tokens::Token;
use crate::tokens::TokenType;

verus! {

/// What the parser can find wrong with a token sequence.
#[derive(Clone, Copy, Debug, PartialEq, Eq, Structural)]
pub enum ParseErrorKind {
    ExpectFunctionName,
    ExpectParenAfterFunctionName,
    ExpectParameterName,
    TooManyParameters,
    ExpectParenAfterParameters,
    ExpectBraceBeforeFunctionBody,
    ExpectVariableName,
    ExpectSemicolonAfterVariable,
    ExpectParenAfterFor,
    ExpectSemicolonAfterLoopCondition,
    ExpectParenAfterForClauses,
    ExpectBraceBeforeForBody,
    ExpectParenAfterIf,
    ExpectParenAfterIfCondition,
    ExpectBraceBeforeIfBody,
    ExpectBraceBeforeElseBody,
    ExpectSemicolonAfterValue,
    ExpectSemicolonAfterReturn,
    ExpectParenAfterWhile,
    ExpectParenAfterCondition,
    ExpectBraceBeforeWhileBody,
    ExpectBraceAfterBlock,
    InvalidAssignmentTarget,
    TooManyArguments,
    ExpectParenAfterArguments,
    ExpectParenAfterExpression,
    UnexpectedRightParen,
    ExpectExpression,
}

/// A parse error and the line that it is reported on.
#[derive(Clone, Copy, Debug, PartialEq, Eq, Structural)]
pub struct ParseError {
    pub line_number: usize,
    pub kind: ParseErrorKind,
}

impl ParseErrorKind {
    /// The wording of each error.
    pub open spec fn wording(self) -> Seq<char> {
        match self {
            ParseErrorKind::ExpectFunctionName => "Expect function name."@,
            ParseErrorKind::ExpectParenAfterFunctionName => "Expect '(' after function name."@,
            ParseErrorKind::ExpectParameterName => "Expect parameter name."@,
            ParseErrorKind::TooManyParameters => "Can't have more than 255 parameters."@,
            ParseErrorKind::ExpectParenAfterParameters => "Expect ')' after parameters."@,
            ParseErrorKind::ExpectBraceBeforeFunctionBody => "Expect '{' before function body."@,
            ParseErrorKind::ExpectVariableName => "Expect variable name."@,
            ParseErrorKind::ExpectSemicolonAfterVariable => "Expect ';' after variable declaration."@,
            ParseErrorKind::ExpectParenAfterFor => "Expect '(' after 'for'."@,
            ParseErrorKind::ExpectSemicolonAfterLoopCondition => "Expect ';' after loop condition."@,
            ParseErrorKind::ExpectParenAfterForClauses => "Expect ')' after for clauses."@,
            ParseErrorKind::ExpectBraceBeforeForBody => "Expect { before for body"@,
            ParseErrorKind::ExpectParenAfterIf => "Expect '(' after 'if'."@,
            ParseErrorKind::ExpectParenAfterIfCondition => "Expect ')' after 'if' condition."@,
            ParseErrorKind::ExpectBraceBeforeIfBody => "Expect { before if body"@,
            ParseErrorKind::ExpectBraceBeforeElseBody => "Expect { before else body"@,
            ParseErrorKind::ExpectSemicolonAfterValue => "Expect ';' after value."@,
            ParseErrorKind::ExpectSemicolonAfterReturn => "Expect ';' after return value."@,
            ParseErrorKind::ExpectParenAfterWhile => "Expect '(' after 'while'."@,
            ParseErrorKind::ExpectParenAfterCondition => "Expect ')' after condition."@,
            ParseErrorKind::ExpectBraceBeforeWhileBody => "Expect { before while body"@,
            ParseErrorKind::ExpectBraceAfterBlock => "Expect '}' after block."@,
            ParseErrorKind::InvalidAssignmentTarget => "Invalid assignment target."@,
            ParseErrorKind::TooManyArguments => "Can't have more than 255 arguments."@,
            ParseErrorKind::ExpectParenAfterArguments => "Expect ')' after arguments."@,
            ParseErrorKind::ExpectParenAfterExpression => "Expect ')' after expression."@,
            ParseErrorKind::UnexpectedRightParen => "found not expected ')'"@,
            ParseErrorKind::ExpectExpression => "Expect expression."@,
        }
    }

    /// The wording of the error.
    pub fn text(&self) -> (s: &'static str)
        ensures
            s@ == self.wording(),
    {
        match self {
            ParseErrorKind::ExpectFunctionName => "Expect function name.",
            ParseErrorKind::ExpectParenAfterFunctionName => "Expect '(' after function name.",
            ParseErrorKind::ExpectParameterName => "Expect parameter name.",
            ParseErrorKind::TooManyParameters => "Can't have more than 255 parameters.",
            ParseErrorKind::ExpectParenAfterParameters => "Expect ')' after parameters.",
            ParseErrorKind::ExpectBraceBeforeFunctionBody => "Expect '{' before function body.",
            ParseErrorKind::ExpectVariableName => "Expect variable name.",
            ParseErrorKind::ExpectSemicolonAfterVariable => "Expect ';' after variable declaration.",
            ParseErrorKind::ExpectParenAfterFor => "Expect '(' after 'for'.",
            ParseErrorKind::ExpectSemicolonAfterLoopCondition => "Expect ';' after loop condition.",
            ParseErrorKind::ExpectParenAfterForClauses => "Expect ')' after for clauses.",
            ParseErrorKind::ExpectBraceBeforeForBody => "Expect { before for body",
            ParseErrorKind::ExpectParenAfterIf => "Expect '(' after 'if'.",
            ParseErrorKind::ExpectParenAfterIfCondition => "Expect ')' after 'if' condition.",
            ParseErrorKind::ExpectBraceBeforeIfBody => "Expect { before if body",
            ParseErrorKind::ExpectBraceBeforeElseBody => "Expect { before else body",
            ParseErrorKind::ExpectSemicolonAfterValue => "Expect ';' after value.",
            ParseErrorKind::ExpectSemicolonAfterReturn => "Expect ';' after return value.",
            ParseErrorKind::ExpectParenAfterWhile => "Expect '(' after 'while'.",
            ParseErrorKind::ExpectParenAfterCondition => "Expect ')' after condition.",
            ParseErrorKind::ExpectBraceBeforeWhileBody => "Expect { before while body",
            ParseErrorKind::ExpectBraceAfterBlock => "Expect '}' after block.",
            ParseErrorKind::InvalidAssignmentTarget => "Invalid assignment target.",
            ParseErrorKind::TooManyArguments => "Can't have more than 255 arguments.",
            ParseErrorKind::ExpectParenAfterArguments => "Expect ')' after arguments.",
            ParseErrorKind::ExpectParenAfterExpression => "Expect ')' after expression.",
            ParseErrorKind::UnexpectedRightParen => "found not expected ')'",
            ParseErrorKind::ExpectExpression => "Expect expression.",
        }
    }
}

impl ParseError {
    /// The diagnostic line: `[line L] ...`.
    pub open spec fn message_spec(self) -> Seq<char> {
        "[line "@ + decimal(self.line_number as nat) + "] "@ + self.kind.wording()
    }

    /// The diagnostic line of the error.
    pub fn message(&self) -> (text: String)
        ensures
            text@ == self.message_spec(),
    {
        let mut text = String::new();
        crate::text::push_text(&mut text, "[line ");
        crate::text::push_decimal(&mut text, self.line_number);
        crate::text::push_text(&mut text, "] ");
        crate::text::push_text(&mut text, self.kind.text());
        assert(text@ =~= self.message_spec());
        text
    }
}

/// The most arguments that a call, and parameters that a function, may have.
pub const MAX_ARITY: usize = 255;

/// The state of parsing: the position of the next token, and the errors
/// reported so far.
pub ghost struct Cursor {
    pub pos: int,
    pub errors: Seq<ParseError>,
}

/// What parsing a phrase gives: its value or the error that ended it, and
/// the state reached.
pub ghost struct Parsed<T> {
    pub result: Result<T, ParseError>,
    pub state: Cursor,
}

impl<T> Parsed<T> {
    /// This outcome, ending at or after `start`.
    pub open spec fn since(self, start: Cursor) -> Parsed<T> {
        if self.state.pos >= start.pos {
            self
        } else {
            Parsed { result: self.result, state: Cursor { pos: start.pos, errors: self.state.errors } }
        }
    }

    /// This outcome, ending after `start`.
    pub open spec fn past(self, start: Cursor) -> Parsed<T> {
        if self.state.pos > start.pos {
            self
        } else {
            Parsed { result: self.result, state: Cursor { pos: start.pos + 1, errors: self.state.errors } }
        }
    }
}

/// The outcome of a phrase that has the value `value`.
pub open spec fn done<T>(value: T, state: Cursor) -> Parsed<T> {
    Parsed { result: Ok(value), state }
}

/// The outcome of a phrase that `error` ended.
pub open spec fn fail<T>(error: ParseError, state: Cursor) -> Parsed<T> {
    Parsed { result: Err(error), state }
}

/// The kind of the token at `pos`; past the last token, the sentinel's.
pub open spec fn kind_at(tokens: Seq<Token>, pos: int) -> TokenType {
    if 0 <= pos < tokens.len() {
        tokens[pos].token_type
    } else {
        TokenType::Eof
    }
}

/// The line of the token at `pos`; 0 where there is none.
pub open spec fn line_at(tokens: Seq<Token>, pos: int) -> usize {
    if 0 <= pos < tokens.len() {
        tokens[pos].line_number
    } else {
        0
    }
}

/// The number of tokens from `pos` on.
pub open spec fn remaining(tokens: Seq<Token>, pos: int) -> nat {
    if pos < 0 {
        tokens.len()
    } else if pos < tokens.len() {
        (tokens.len() - pos) as nat
    } else {
        0
    }
}

/// The state after the token at the cursor; the sentinel is never passed.
pub open spec fn advance(tokens: Seq<Token>, state: Cursor) -> Cursor {
    if kind_at(tokens, state.pos) == TokenType::Eof {
        state
    } else {
        Cursor { pos: state.pos + 1, errors: state.errors }
    }
}

/// The state with one more error reported.
pub open spec fn report(state: Cursor, error: ParseError) -> Cursor {
    Cursor { pos: state.pos, errors: state.errors.push(error) }
}

/// Passes a token of kind `kind`, or fails with `error` on the line of the
/// token before.
pub open spec fn consume(tokens: Seq<Token>, state: Cursor, kind: TokenType, error: ParseErrorKind) -> Parsed<()> {
    if kind_at(tokens, state.pos) == kind {
        done((), advance(tokens, state))
    } else {
        fail(ParseError { line_number: line_at(tokens, state.pos - 1), kind: error }, state)
    }
}

/// Fails with `error` on the line of the token at the cursor.
pub open spec fn fail_here<T>(tokens: Seq<Token>, state: Cursor, error: ParseErrorKind) -> Parsed<T> {
    fail(ParseError { line_number: line_at(tokens, state.pos), kind: error }, state)
}

/// Whether a statement begins with a token of this kind.
pub open spec fn starts_statement(kind: TokenType) -> bool {
    kind == TokenType::Class || kind == TokenType::Fun || kind == TokenType::Var || kind == TokenType::For
        || kind == TokenType::If || kind == TokenType::While || kind == TokenType::Print || kind
        == TokenType::Return
}

/// Skips tokens up to a likely statement boundary: the end, a position
/// after a semicolon, or one before a token that starts a statement.
pub open spec fn skip_to_boundary(tokens: Seq<Token>, state: Cursor) -> Cursor
    decreases remaining(tokens, state.pos),
{
    if kind_at(tokens, state.pos) == TokenType::Eof {
        state
    } else if kind_at(tokens, state.pos - 1) == TokenType::Semicolon {
        state
    } else if starts_statement(kind_at(tokens, state.pos)) {
        state
    } else {
        skip_to_boundary(tokens, advance(tokens, state))
    }
}

/// Error recovery: passes the offending token, then skips to a boundary.
pub open spec fn synchronize(tokens: Seq<Token>, state: Cursor) -> Cursor {
    skip_to_boundary(tokens, advance(tokens, state))
}

/// The parameter names of a function, from the first one on: identifiers
/// separated by commas. A parameter beyond the limit is reported, and
/// parsing goes on.
#[verifier::opaque]
pub open spec fn parse_parameters(tokens: Seq<Token>, state: Cursor, names: Seq<Token>) -> Parsed<Seq<Token>>
    decreases remaining(tokens, state.pos),
{
    let checked = if names.len() >= MAX_ARITY {
        report(
            state,
            ParseError { line_number: line_at(tokens, state.pos), kind: ParseErrorKind::TooManyParameters },
        )
    } else {
        state
    };
    let name = consume(tokens, checked, TokenType::Identifier, ParseErrorKind::ExpectParameterName);
    match name.result {
        Err(error) => fail(error, name.state),
        Ok(_) => if kind_at(tokens, name.state.pos) == TokenType::Comma {
            parse_parameters(tokens, advance(tokens, name.state), names.push(tokens[state.pos]))
        } else {
            done(names.push(tokens[state.pos]), name.state)
        },
    }
}

/// The binary operators of each precedence level, from `or` (6) down to
/// the multiplicative operators (1).
pub open spec fn is_operator(level: nat, kind: TokenType) -> bool {
    if level == 6 {
        kind == TokenType::Or
    } else if level == 5 {
        kind == TokenType::And
    } else if level == 4 {
        kind == TokenType::BangEqual || kind == TokenType::EqualEqual
    } else if level == 3 {
        kind == TokenType::Greater || kind == TokenType::GreaterEqual || kind == TokenType::Less || kind
            == TokenType::LessEqual
    } else if level == 2 {
        kind == TokenType::Minus || kind == TokenType::Plus
    } else if level == 1 {
        kind == TokenType::Slash || kind == TokenType::Star
    } else {
        false
    }
}

/// The node for an operator of the given level: `and` and `or` make a
/// logical node, the others a binary node.
pub open spec fn combine(level: nat, left: ExprView, operator: Token, right: ExprView) -> ExprView {
    if level >= 5 {
        ExprView::Logical(Box::new(left), operator, Box::new(right))
    } else {
        ExprView::Binary(Box::new(left), operator, Box::new(right))
    }
}

/// The precedence level of `or`, the loosest binary operator.
pub const LOOSEST: u8 = 6;

/// expression → assignment
#[verifier::opaque]
pub open spec fn parse_expression(tokens: Seq<Token>, state: Cursor) -> Parsed<ExprView>
    decreases remaining(tokens, state.pos), 25nat,
{
    parse_assignment(tokens, state)
}

/// assignment → IDENT "=" assignment | logic_or
///
/// The target is parsed as an expression first; anything but a variable
/// before `=` is an invalid target, reported on the line of the `=`.
#[verifier::opaque]
pub open spec fn parse_assignment(tokens: Seq<Token>, state: Cursor) -> Parsed<ExprView>
    decreases remaining(tokens, state.pos), 24nat,
{
    let target = parse_level(tokens, state, LOOSEST as nat).since(state);
    match target.result {
        Err(error) => fail(error, target.state),
        Ok(expression) => if kind_at(tokens, target.state.pos) == TokenType::Equal {
            let value = parse_assignment(tokens, advance(tokens, target.state)).since(target.state);
            match value.result {
                Err(error) => fail(error, value.state),
                Ok(assigned) => match expression {
                    ExprView::Variable(name) => done(ExprView::Assign(name, Box::new(assigned)), value.state),
                    _ => fail(
                        ParseError {
                            line_number: line_at(tokens, target.state.pos),
                            kind: ParseErrorKind::InvalidAssignmentTarget,
                        },
                        value.state,
                    ),
                },
            }
        } else {
            done(expression, target.state)
        },
    }
}

/// One precedence level of binary operators, left-associative:
/// operand (operator operand)*, the operands of the next tighter level.
/// Level 0 is `unary`.
#[verifier::opaque]
pub open spec fn parse_level(tokens: Seq<Token>, state: Cursor, level: nat) -> Parsed<ExprView>
    decreases remaining(tokens, state.pos), 11 + 2 * level,
{
    if level == 0 {
        parse_unary(tokens, state)
    } else {
        let left = parse_level(tokens, state, (level - 1) as nat).since(state);
        match left.result {
            Err(error) => fail(error, left.state),
            Ok(operand) => parse_level_rest(tokens, left.state, level, operand),
        }
    }
}

/// What follows the operands parsed so far at one precedence level.
#[verifier::opaque]
pub open spec fn parse_level_rest(tokens: Seq<Token>, state: Cursor, level: nat, left: ExprView) -> Parsed<
    ExprView,
>
    decreases remaining(tokens, state.pos), 10 + 2 * level,
{
    if level > 0 && is_operator(level, kind_at(tokens, state.pos)) {
        let right = parse_level(tokens, advance(tokens, state), (level - 1) as nat).since(
            advance(tokens, state),
        );
        match right.result {
            Err(error) => fail(error, right.state),
            Ok(operand) => parse_level_rest(
                tokens,
                right.state,
                level,
                combine(level, left, tokens[state.pos], operand),
            ),
        }
    } else {
        done(left, state)
    }
}

/// unary → ("!" | "-") unary | call
#[verifier::opaque]
pub open spec fn parse_unary(tokens: Seq<Token>, state: Cursor) -> Parsed<ExprView>
    decreases remaining(tokens, state.pos), 9nat,
{
    if kind_at(tokens, state.pos) == TokenType::Bang || kind_at(tokens, state.pos) == TokenType::Minus {
        let operand = parse_unary(tokens, advance(tokens, state)).since(state);
        match operand.result {
            Err(error) => fail(error, operand.state),
            Ok(right) => done(ExprView::Unary(tokens[state.pos], Box::new(right)), operand.state),
        }
    } else {
        parse_call(tokens, state)
    }
}

/// call → primary ("(" arguments? ")")*
#[verifier::opaque]
pub open spec fn parse_call(tokens: Seq<Token>, state: Cursor) -> Parsed<ExprView>
    decreases remaining(tokens, state.pos), 8nat,
{
    let callee = parse_primary(tokens, state).since(state);
    match callee.result {
        Err(error) => fail(error, callee.state),
        Ok(expression) => parse_call_rest(tokens, callee.state, expression),
    }
}

/// The arguments of a call, from after the `(`: none before a `)`.
#[verifier::opaque]
pub open spec fn parse_argument_list(tokens: Seq<Token>, state: Cursor) -> Parsed<Seq<ExprView>>
    decreases remaining(tokens, state.pos), 28nat,
{
    if kind_at(tokens, state.pos) == TokenType::RightParen {
        done(Seq::empty(), state)
    } else {
        parse_arguments(tokens, state)
    }
}

/// One argument list, from after its `(`: the call of `callee` with the
/// arguments up to the closing `)`, which the node keeps.
#[verifier::opaque]
pub open spec fn parse_finish_call(tokens: Seq<Token>, state: Cursor, callee: ExprView) -> Parsed<ExprView>
    decreases remaining(tokens, state.pos), 29nat,
{
    let arguments = parse_argument_list(tokens, state).since(state);
    match arguments.result {
        Err(error) => fail(error, arguments.state),
        Ok(list) => {
            let close = consume(
                tokens,
                arguments.state,
                TokenType::RightParen,
                ParseErrorKind::ExpectParenAfterArguments,
            );
            match close.result {
                Err(error) => fail(error, close.state),
                Ok(_) => done(ExprView::Call(Box::new(callee), tokens[arguments.state.pos], list), close.state),
            }
        },
    }
}

/// The argument lists that follow a callee.
#[verifier::opaque]
pub open spec fn parse_call_rest(tokens: Seq<Token>, state: Cursor, callee: ExprView) -> Parsed<ExprView>
    decreases remaining(tokens, state.pos), 7nat,
{
    if kind_at(tokens, state.pos) == TokenType::LeftParen {
        let call = parse_finish_call(tokens, advance(tokens, state), callee).since(advance(tokens, state));
        match call.result {
            Err(error) => fail(error, call.state),
            Ok(expression) => parse_call_rest(tokens, call.state, expression),
        }
    } else {
        done(callee, state)
    }
}

/// arguments → expression ("," expression)*
#[verifier::opaque]
pub open spec fn parse_arguments(tokens: Seq<Token>, state: Cursor) -> Parsed<Seq<ExprView>>
    decreases remaining(tokens, state.pos), 27nat,
{
    let first = parse_expression(tokens, state).since(state);
    match first.result {
        Err(error) => fail(error, first.state),
        Ok(argument) => parse_arguments_rest(tokens, first.state, seq![argument]),
    }
}

/// The arguments after those parsed so far. An argument beyond the limit
/// is reported, on the line of its first token, and parsing goes on.
#[verifier::opaque]
pub open spec fn parse_arguments_rest(tokens: Seq<Token>, state: Cursor, list: Seq<ExprView>) -> Parsed<
    Seq<ExprView>,
>
    decreases remaining(tokens, state.pos), 26nat,
{
    if kind_at(tokens, state.pos) == TokenType::Comma {
        let after = advance(tokens, state);
        let checked = if list.len() >= MAX_ARITY {
            report(
                after,
                ParseError { line_number: line_at(tokens, after.pos), kind: ParseErrorKind::TooManyArguments },
            )
        } else {
            after
        };
        let next = parse_expression(tokens, checked).since(checked);
        match next.result {
            Err(error) => fail(error, next.state),
            Ok(argument) => parse_arguments_rest(tokens, next.state, list.push(argument)),
        }
    } else {
        done(list, state)
    }
}

/// primary → NUMBER | STRING | "true" | "false" | "nil" | IDENT | "(" expression ")"
///
/// A literal token gives its payload. A `)` where an expression should
/// start is passed and reported on its own line; any other token is left
/// in place.
#[verifier::opaque]
pub open spec fn parse_primary(tokens: Seq<Token>, state: Cursor) -> Parsed<ExprView>
    decreases remaining(tokens, state.pos), 6nat,
{
    let kind = kind_at(tokens, state.pos);
    let after = advance(tokens, state);
    if kind == TokenType::Nil {
        done(ExprView::Literal(Literal::Nil), after)
    } else if kind == TokenType::True {
        done(ExprView::Literal(Literal::Bool(true)), after)
    } else if kind == TokenType::False {
        done(ExprView::Literal(Literal::Bool(false)), after)
    } else if kind == TokenType::String || kind == TokenType::Number {
        done(ExprView::Literal(tokens[state.pos].value), after)
    } else if kind == TokenType::LeftParen {
        let inner = parse_expression(tokens, after).since(after);
        match inner.result {
            Err(error) => fail(error, inner.state),
            Ok(expression) => {
                let close = consume(
                    tokens,
                    inner.state,
                    TokenType::RightParen,
                    ParseErrorKind::ExpectParenAfterExpression,
                );
                match close.result {
                    Err(error) => fail(error, close.state),
                    Ok(_) => done(ExprView::Grouping(Box::new(expression)), close.state),
                }
            },
        }
    } else if kind == TokenType::RightParen {
        fail(
            ParseError { line_number: line_at(tokens, state.pos), kind: ParseErrorKind::UnexpectedRightParen },
            after,
        )
    } else if kind == TokenType::Identifier {
        done(ExprView::Variable(tokens[state.pos]), after)
    } else {
        fail_here(tokens, state, ParseErrorKind::ExpectExpression)
    }
}


/// The same outcome, its value made optional.
pub open spec fn optional<T>(parsed: Parsed<T>) -> Parsed<Option<T>> {
    Parsed {
        result: match parsed.result {
            Ok(value) => Ok(Some(value)),
            Err(error) => Err(error),
        },
        state: parsed.state,
    }
}

/// The loop that a `for` statement stands for: the body and the increment
/// in a block, where there is an increment; that in a `while`; and the
/// initializer and the `while` in a block, where there is an initializer.
pub open spec fn desugar_for(
    initializer: Option<StmtView>,
    condition: ExprView,
    increment: Option<ExprView>,
    body: StmtView,
) -> StmtView {
    let stepped = match increment {
        Some(step) => StmtView::Block(seq![body, StmtView::Expression(step)]),
        None => body,
    };
    let repeated = StmtView::While(condition, Box::new(stepped));
    match initializer {
        Some(first) => StmtView::Block(seq![first, repeated]),
        None => repeated,
    }
}

/// exprStmt → expression ";"
#[verifier::opaque]
pub open spec fn parse_expression_statement(tokens: Seq<Token>, state: Cursor) -> Parsed<StmtView>
    decreases remaining(tokens, state.pos), 28nat,
{
    let value = parse_expression(tokens, state).since(state);
    match value.result {
        Err(error) => fail(error, value.state),
        Ok(expression) => {
            let end = consume(tokens, value.state, TokenType::Semicolon, ParseErrorKind::ExpectSemicolonAfterValue);
            match end.result {
                Err(error) => fail(error, end.state),
                Ok(_) => done(StmtView::Expression(expression), end.state),
            }
        },
    }
}

/// printStmt → "print" expression ";", from after the keyword.
#[verifier::opaque]
pub open spec fn parse_print_statement(tokens: Seq<Token>, state: Cursor) -> Parsed<StmtView>
    decreases remaining(tokens, state.pos), 28nat,
{
    let value = parse_expression(tokens, state).since(state);
    match value.result {
        Err(error) => fail(error, value.state),
        Ok(expression) => {
            let end = consume(tokens, value.state, TokenType::Semicolon, ParseErrorKind::ExpectSemicolonAfterValue);
            match end.result {
                Err(error) => fail(error, end.state),
                Ok(_) => done(StmtView::Print(expression), end.state),
            }
        },
    }
}

/// returnStmt → "return" expression? ";", from after the keyword.
#[verifier::opaque]
pub open spec fn parse_return_statement(tokens: Seq<Token>, state: Cursor) -> Parsed<StmtView>
    decreases remaining(tokens, state.pos), 28nat,
{
    let value = if kind_at(tokens, state.pos) == TokenType::Semicolon {
        done(None, state)
    } else {
        optional(parse_expression(tokens, state).since(state))
    };
    match value.result {
        Err(error) => fail(error, value.state),
        Ok(returned) => {
            let end = consume(
                tokens,
                value.state,
                TokenType::Semicolon,
                ParseErrorKind::ExpectSemicolonAfterReturn,
            );
            match end.result {
                Err(error) => fail(error, end.state),
                Ok(_) => done(StmtView::Return(tokens[state.pos - 1], returned), end.state),
            }
        },
    }
}

/// varDecl → "var" IDENT ("=" expression)? ";", from after the keyword.
#[verifier::opaque]
pub open spec fn parse_var_declaration(tokens: Seq<Token>, state: Cursor) -> Parsed<StmtView>
    decreases remaining(tokens, state.pos), 28nat,
{
    let name = consume(tokens, state, TokenType::Identifier, ParseErrorKind::ExpectVariableName);
    match name.result {
        Err(error) => fail(error, name.state),
        Ok(_) => {
            let initializer = if kind_at(tokens, name.state.pos) == TokenType::Equal {
                optional(parse_expression(tokens, advance(tokens, name.state)).since(name.state))
            } else {
                done(None, name.state)
            };
            match initializer.result {
                Err(error) => fail(error, initializer.state),
                Ok(value) => {
                    let end = consume(
                        tokens,
                        initializer.state,
                        TokenType::Semicolon,
                        ParseErrorKind::ExpectSemicolonAfterVariable,
                    );
                    match end.result {
                        Err(error) => fail(error, end.state),
                        Ok(_) => done(StmtView::Var(tokens[state.pos], value), end.state),
                    }
                },
            }
        },
    }
}

/// The body of an `if`, `while` or `for`: a statement that starts with
/// `{`. Anything else fails with `error` on the line of the offending token.
#[verifier::opaque]
pub open spec fn parse_body(tokens: Seq<Token>, state: Cursor, error: ParseErrorKind) -> Parsed<StmtView>
    decreases remaining(tokens, state.pos), 30nat,
{
    if kind_at(tokens, state.pos) == TokenType::LeftBrace {
        parse_statement(tokens, state)
    } else {
        fail_here(tokens, state, error)
    }
}

/// whileStmt → "while" "(" expression ")" block, from after the keyword.
#[verifier::opaque]
pub open spec fn parse_while_statement(tokens: Seq<Token>, state: Cursor) -> Parsed<StmtView>
    decreases remaining(tokens, state.pos), 28nat,
{
    let open = consume(tokens, state, TokenType::LeftParen, ParseErrorKind::ExpectParenAfterWhile);
    match open.result {
        Err(error) => fail(error, open.state),
        Ok(_) => {
            let condition = parse_expression(tokens, open.state).since(open.state);
            match condition.result {
                Err(error) => fail(error, condition.state),
                Ok(test) => {
                    let close = consume(
                        tokens,
                        condition.state,
                        TokenType::RightParen,
                        ParseErrorKind::ExpectParenAfterCondition,
                    );
                    match close.result {
                        Err(error) => fail(error, close.state),
                        Ok(_) => {
                            let body = parse_body(
                                tokens,
                                close.state,
                                ParseErrorKind::ExpectBraceBeforeWhileBody,
                            ).since(close.state);
                            match body.result {
                                Err(error) => fail(error, body.state),
                                Ok(repeated) => done(StmtView::While(test, Box::new(repeated)), body.state),
                            }
                        },
                    }
                },
            }
        },
    }
}

/// The `else` branch of an `if`, where there is one.
#[verifier::opaque]
pub open spec fn parse_else(tokens: Seq<Token>, state: Cursor) -> Parsed<Option<Box<StmtView>>>
    decreases remaining(tokens, state.pos), 31nat,
{
    if kind_at(tokens, state.pos) == TokenType::Else {
        let branch = parse_body(
            tokens,
            advance(tokens, state),
            ParseErrorKind::ExpectBraceBeforeElseBody,
        ).since(state);
        match branch.result {
            Err(error) => fail(error, branch.state),
            Ok(statement) => done(Some(Box::new(statement)), branch.state),
        }
    } else {
        done(None, state)
    }
}

/// ifStmt → "if" "(" expression ")" block ("else" block)?, from after the
/// keyword.
#[verifier::opaque]
pub open spec fn parse_if_statement(tokens: Seq<Token>, state: Cursor) -> Parsed<StmtView>
    decreases remaining(tokens, state.pos), 28nat,
{
    let open = consume(tokens, state, TokenType::LeftParen, ParseErrorKind::ExpectParenAfterIf);
    match open.result {
        Err(error) => fail(error, open.state),
        Ok(_) => {
            let condition = parse_expression(tokens, open.state).since(open.state);
            match condition.result {
                Err(error) => fail(error, condition.state),
                Ok(test) => {
                    let close = consume(
                        tokens,
                        condition.state,
                        TokenType::RightParen,
                        ParseErrorKind::ExpectParenAfterIfCondition,
                    );
                    match close.result {
                        Err(error) => fail(error, close.state),
                        Ok(_) => {
                            let then_branch = parse_body(
                                tokens,
                                close.state,
                                ParseErrorKind::ExpectBraceBeforeIfBody,
                            ).since(close.state);
                            match then_branch.result {
                                Err(error) => fail(error, then_branch.state),
                                Ok(taken) => {
                                    let else_branch = parse_else(tokens, then_branch.state).since(
                                        then_branch.state,
                                    );
                                    match else_branch.result {
                                        Err(error) => fail(error, else_branch.state),
                                        Ok(otherwise) => done(
                                            StmtView::If(test, Box::new(taken), otherwise),
                                            else_branch.state,
                                        ),
                                    }
                                },
                            }
                        },
                    }
                },
            }
        },
    }
}

/// The first clause of a `for`: nothing, a variable declaration or an
/// expression statement.
#[verifier::opaque]
pub open spec fn parse_for_initializer(tokens: Seq<Token>, state: Cursor) -> Parsed<Option<StmtView>>
    decreases remaining(tokens, state.pos), 31nat,
{
    if kind_at(tokens, state.pos) == TokenType::Semicolon {
        done(None, advance(tokens, state))
    } else if kind_at(tokens, state.pos) == TokenType::Var {
        optional(parse_var_declaration(tokens, advance(tokens, state)).since(state))
    } else {
        optional(parse_expression_statement(tokens, state).since(state))
    }
}

/// An expression, unless the token at the cursor is of kind `end`.
#[verifier::opaque]
pub open spec fn parse_clause(tokens: Seq<Token>, state: Cursor, end: TokenType) -> Parsed<Option<ExprView>>
    decreases remaining(tokens, state.pos), 31nat,
{
    if kind_at(tokens, state.pos) == end {
        done(None, state)
    } else {
        optional(parse_expression(tokens, state).since(state))
    }
}

/// forStmt → "for" "(" (varDecl | exprStmt | ";") expression? ";"
/// expression? ")" block, from after the keyword. An omitted condition is
/// the literal `true`.
#[verifier::opaque]
pub open spec fn parse_for_statement(tokens: Seq<Token>, state: Cursor) -> Parsed<StmtView>
    decreases remaining(tokens, state.pos), 28nat,
{
    let open = consume(tokens, state, TokenType::LeftParen, ParseErrorKind::ExpectParenAfterFor);
    match open.result {
        Err(error) => fail(error, open.state),
        Ok(_) => {
            let initializer = parse_for_initializer(tokens, open.state).since(open.state);
            match initializer.result {
                Err(error) => fail(error, initializer.state),
                Ok(first) => {
                    let condition = parse_clause(tokens, initializer.state, TokenType::Semicolon).since(
                        initializer.state,
                    );
                    match condition.result {
                        Err(error) => fail(error, condition.state),
                        Ok(test) => {
                            let semicolon = consume(
                                tokens,
                                condition.state,
                                TokenType::Semicolon,
                                ParseErrorKind::ExpectSemicolonAfterLoopCondition,
                            );
                            match semicolon.result {
                                Err(error) => fail(error, semicolon.state),
                                Ok(_) => {
                                    let increment = parse_clause(
                                        tokens,
                                        semicolon.state,
                                        TokenType::RightParen,
                                    ).since(semicolon.state);
                                    match increment.result {
                                        Err(error) => fail(error, increment.state),
                                        Ok(step) => {
                                            let close = consume(
                                                tokens,
                                                increment.state,
                                                TokenType::RightParen,
                                                ParseErrorKind::ExpectParenAfterForClauses,
                                            );
                                            match close.result {
                                                Err(error) => fail(error, close.state),
                                                Ok(_) => {
                                                    let body = parse_body(
                                                        tokens,
                                                        close.state,
                                                        ParseErrorKind::ExpectBraceBeforeForBody,
                                                    ).since(close.state);
                                                    match body.result {
                                                        Err(error) => fail(error, body.state),
                                                        Ok(repeated) => done(
                                                            desugar_for(
                                                                first,
                                                                match test {
                                                                    Some(expression) => expression,
                                                                    None => ExprView::Literal(
                                                                        Literal::Bool(true),
                                                                    ),
                                                                },
                                                                step,
                                                                repeated,
                                                            ),
                                                            body.state,
                                                        ),
                                                    }
                                                },
                                            }
                                        },
                                    }
                                },
                            }
                        },
                    }
                },
            }
        },
    }
}

/// The parameter list of a function, from after the `(`.
#[verifier::opaque]
pub open spec fn parse_parameter_list(tokens: Seq<Token>, state: Cursor) -> Parsed<Seq<Token>> {
    if kind_at(tokens, state.pos) == TokenType::RightParen {
        done(Seq::empty(), state)
    } else {
        parse_parameters(tokens, state, Seq::empty())
    }
}

/// funDecl → "fun" IDENT "(" params? ")" block, from after the keyword.
#[verifier::opaque]
pub open spec fn parse_function(tokens: Seq<Token>, state: Cursor) -> Parsed<StmtView>
    decreases remaining(tokens, state.pos), 28nat,
{
    let name = consume(tokens, state, TokenType::Identifier, ParseErrorKind::ExpectFunctionName);
    match name.result {
        Err(error) => fail(error, name.state),
        Ok(_) => {
            let open = consume(
                tokens,
                name.state,
                TokenType::LeftParen,
                ParseErrorKind::ExpectParenAfterFunctionName,
            );
            match open.result {
                Err(error) => fail(error, open.state),
                Ok(_) => {
                    let parameters = parse_parameter_list(tokens, open.state).since(open.state);
                    match parameters.result {
                        Err(error) => fail(error, parameters.state),
                        Ok(names) => {
                            let close = consume(
                                tokens,
                                parameters.state,
                                TokenType::RightParen,
                                ParseErrorKind::ExpectParenAfterParameters,
                            );
                            match close.result {
                                Err(error) => fail(error, close.state),
                                Ok(_) => {
                                    let brace = consume(
                                        tokens,
                                        close.state,
                                        TokenType::LeftBrace,
                                        ParseErrorKind::ExpectBraceBeforeFunctionBody,
                                    );
                                    match brace.result {
                                        Err(error) => fail(error, brace.state),
                                        Ok(_) => {
                                            let body = parse_block(tokens, brace.state, Seq::empty()).since(
                                                brace.state,
                                            );
                                            match body.result {
                                                Err(error) => fail(error, body.state),
                                                Ok(statements) => done(
                                                    StmtView::Function(tokens[state.pos], names, statements),
                                                    body.state,
                                                ),
                                            }
                                        },
                                    }
                                },
                            }
                        },
                    }
                },
            }
        },
    }
}

/// block → "{" declaration* "}", from after the `{`, and after the
/// declarations in `list`. The first declaration that fails ends the block.
#[verifier::opaque]
pub open spec fn parse_block(tokens: Seq<Token>, state: Cursor, list: Seq<StmtView>) -> Parsed<Seq<StmtView>>
    decreases remaining(tokens, state.pos), 40nat,
{
    if kind_at(tokens, state.pos) == TokenType::RightBrace || kind_at(tokens, state.pos) == TokenType::Eof {
        let close = consume(tokens, state, TokenType::RightBrace, ParseErrorKind::ExpectBraceAfterBlock);
        match close.result {
            Err(error) => fail(error, close.state),
            Ok(_) => done(list, close.state),
        }
    } else {
        let declaration = parse_declaration(tokens, state).past(state);
        match declaration.result {
            Err(error) => fail(error, declaration.state),
            Ok(statement) => parse_block(tokens, declaration.state, list.push(statement)),
        }
    }
}

/// statement → exprStmt | forStmt | ifStmt | printStmt | returnStmt |
/// whileStmt | block
#[verifier::opaque]
pub open spec fn parse_statement(tokens: Seq<Token>, state: Cursor) -> Parsed<StmtView>
    decreases remaining(tokens, state.pos), 29nat,
{
    let kind = kind_at(tokens, state.pos);
    let after = advance(tokens, state);
    if kind == TokenType::For {
        parse_for_statement(tokens, after)
    } else if kind == TokenType::If {
        parse_if_statement(tokens, after)
    } else if kind == TokenType::Print {
        parse_print_statement(tokens, after)
    } else if kind == TokenType::Return {
        parse_return_statement(tokens, after)
    } else if kind == TokenType::While {
        parse_while_statement(tokens, after)
    } else if kind == TokenType::LeftBrace {
        let body = parse_block(tokens, after, Seq::empty()).since(after);
        match body.result {
            Err(error) => fail(error, body.state),
            Ok(statements) => done(StmtView::Block(statements), body.state),
        }
    } else {
        parse_expression_statement(tokens, state)
    }
}

/// declaration → funDecl | varDecl | statement
///
/// A declaration that fails is followed by error recovery: the state
/// after a failure is the synchronized one.
#[verifier::opaque]
pub open spec fn parse_declaration(tokens: Seq<Token>, state: Cursor) -> Parsed<StmtView>
    decreases remaining(tokens, state.pos), 32nat,
{
    let kind = kind_at(tokens, state.pos);
    let parsed = if kind == TokenType::Fun {
        parse_function(tokens, advance(tokens, state))
    } else if kind == TokenType::Var {
        parse_var_declaration(tokens, advance(tokens, state))
    } else {
        parse_statement(tokens, state)
    };
    match parsed.result {
        Err(error) => fail(error, synchronize(tokens, parsed.state)),
        Ok(statement) => parsed,
    }
}

/// What parsing a whole token sequence gives.
pub ghost struct Program {
    pub statements: Seq<StmtView>,
    pub errors: Seq<ParseError>,
    pub pos: int,
}

/// program → declaration* EOF, after the declarations in `list`. Every
/// declaration that fails adds its error to those reported, and parsing
/// goes on behind it.
#[verifier::opaque]
pub open spec fn parse_program(tokens: Seq<Token>, state: Cursor, list: Seq<StmtView>) -> Program
    decreases remaining(tokens, state.pos), 50nat,
{
    if kind_at(tokens, state.pos) == TokenType::Eof {
        Program { statements: list, errors: state.errors, pos: state.pos }
    } else {
        let declaration = parse_declaration(tokens, state).past(state);
        match declaration.result {
            Err(error) => parse_program(tokens, report(declaration.state, error), list),
            Ok(statement) => parse_program(tokens, declaration.state, list.push(statement)),
        }
    }
}

} // verus!
