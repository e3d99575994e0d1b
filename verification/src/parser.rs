//! The recursive-descent parser: tokens to statements.

use vstd::prelude::*;
use crate::expressions::expr_views;
use crate::expressions::Expr;
use crate::expressions::ExprView;
use crate::grammar::Cursor;
use crate::grammar::LOOSEST;
use crate::grammar::MAX_ARITY;
use crate::grammar::ParseError;
use crate::grammar::ParseErrorKind;
use crate::grammar::Parsed;
use crate::grammar::advance;
use crate::grammar::consume;
use crate::grammar::desugar_for;
use crate::grammar::is_operator;
use crate::grammar::kind_at;
use crate::grammar::line_at;
use crate::grammar::parse_arguments;
use crate::grammar::parse_argument_list;
use crate::grammar::parse_arguments_rest;
use crate::grammar::parse_assignment;
use crate::grammar::parse_block;
use crate::grammar::parse_body;
use crate::grammar::parse_call;
use crate::grammar::parse_call_rest;
use crate::grammar::parse_clause;
use crate::grammar::parse_declaration;
use crate::grammar::parse_else;
use crate::grammar::parse_expression;
use crate::grammar::parse_finish_call;
use crate::grammar::parse_expression_statement;
use crate::grammar::parse_for_initializer;
use crate::grammar::parse_for_statement;
use crate::grammar::parse_function;
use crate::grammar::parse_if_statement;
use crate::grammar::parse_level;
use crate::grammar::parse_level_rest;
use crate::grammar::parse_parameter_list;
use crate::grammar::parse_parameters;
use crate::grammar::parse_primary;
use crate::grammar::parse_print_statement;
use crate::grammar::parse_program;
use crate::grammar::parse_return_statement;
use crate::grammar::parse_statement;
use crate::grammar::parse_unary;
use crate::grammar::parse_var_declaration;
use crate::grammar::parse_while_statement;
use crate::grammar::remaining;
use crate::grammar::report;
use crate::grammar::skip_to_boundary;
use crate::grammar::starts_statement;
use crate::grammar::synchronize;
use crate::statements::stmt_views;
use crate::statements::Stmt;
use crate::statements::StmtView;
use crate::tokens::Literal;
use crate::tokens::Token;
use crate::tokens::TokenType;

verus! {

/// A parser over a token sequence, with what it has parsed and reported.
pub struct Parser<'a> {
    pub tokens: &'a Vec<Token>,
    pub stmts: Vec<Stmt>,
    pub errors: Vec<ParseError>,
    /// The index of the next token.
    pub current: usize,
}

/// The outcome of parsing an expression, as the grammar states it.
pub open spec fn expression_outcome(result: Result<Expr, ParseError>, state: Cursor) -> Parsed<ExprView> {
    Parsed {
        result: match result {
            Ok(expression) => Ok(expression@),
            Err(error) => Err(error),
        },
        state,
    }
}

/// The outcome of parsing a statement, as the grammar states it.
pub open spec fn statement_outcome(result: Result<Stmt, ParseError>, state: Cursor) -> Parsed<StmtView> {
    Parsed {
        result: match result {
            Ok(statement) => Ok(statement@),
            Err(error) => Err(error),
        },
        state,
    }
}

/// The outcome of parsing a list of expressions.
pub open spec fn expressions_outcome(result: Result<Vec<Expr>, ParseError>, state: Cursor) -> Parsed<
    Seq<ExprView>,
> {
    Parsed {
        result: match result {
            Ok(list) => Ok(expr_views(list@)),
            Err(error) => Err(error),
        },
        state,
    }
}

/// The outcome of parsing a list of statements.
pub open spec fn statements_outcome(result: Result<Vec<Stmt>, ParseError>, state: Cursor) -> Parsed<
    Seq<StmtView>,
> {
    Parsed {
        result: match result {
            Ok(list) => Ok(stmt_views(list@)),
            Err(error) => Err(error),
        },
        state,
    }
}

/// The outcome of parsing a list of names.
pub open spec fn names_outcome(result: Result<Vec<Token>, ParseError>, state: Cursor) -> Parsed<Seq<Token>> {
    Parsed {
        result: match result {
            Ok(list) => Ok(list@),
            Err(error) => Err(error),
        },
        state,
    }
}

/// The outcome of parsing an expression that may be absent.
pub open spec fn clause_outcome(result: Result<Option<Expr>, ParseError>, state: Cursor) -> Parsed<
    Option<ExprView>,
> {
    Parsed {
        result: match result {
            Ok(Some(expression)) => Ok(Some(expression@)),
            Ok(None) => Ok(None),
            Err(error) => Err(error),
        },
        state,
    }
}

/// The outcome of parsing a statement that may be absent.
pub open spec fn initializer_outcome(result: Result<Option<Stmt>, ParseError>, state: Cursor) -> Parsed<
    Option<StmtView>,
> {
    Parsed {
        result: match result {
            Ok(Some(statement)) => Ok(Some(statement@)),
            Ok(None) => Ok(None),
            Err(error) => Err(error),
        },
        state,
    }
}

/// The outcome of parsing an `else` branch.
pub open spec fn else_outcome(result: Result<Option<Box<Stmt>>, ParseError>, state: Cursor) -> Parsed<
    Option<Box<StmtView>>,
> {
    Parsed {
        result: match result {
            Ok(Some(statement)) => Ok(Some(Box::new(statement@))),
            Ok(None) => Ok(None),
            Err(error) => Err(error),
        },
        state,
    }
}

/// The outcome of passing one token.
pub open spec fn unit_outcome(result: Result<(), ParseError>, state: Cursor) -> Parsed<()> {
    Parsed { result, state }
}

/// A list of expressions grows by one at its end.
pub proof fn expr_views_push(list: Seq<Expr>, last: Expr)
    ensures
        expr_views(list.push(last)) == expr_views(list).push(last@),
{
    assert(expr_views(list.push(last)) =~= expr_views(list).push(last@));
}

/// A list of statements grows by one at its end.
pub proof fn stmt_views_push(list: Seq<Stmt>, last: Stmt)
    ensures
        stmt_views(list.push(last)) == stmt_views(list).push(last@),
{
    assert(stmt_views(list.push(last)) =~= stmt_views(list).push(last@));
}

/// Whether `kind` is a binary operator of the precedence level.
fn is_level_operator(level: u8, kind: TokenType) -> (b: bool)
    ensures
        b == is_operator(level as nat, kind),
{
    if level == 6 {
        kind == TokenType::Or
    } else if level == 5 {
        kind == TokenType::And
    } else if level == 4 {
        kind == TokenType::BangEqual || kind == TokenType::EqualEqual
    } else if level == 3 {
        kind == TokenType::Greater || kind == TokenType::GreaterEqual || kind == TokenType::Less || kind
            == TokenType::LessEqual
    } else if level == 2 {
        kind == TokenType::Minus || kind == TokenType::Plus
    } else if level == 1 {
        kind == TokenType::Slash || kind == TokenType::Star
    } else {
        false
    }
}

/// Whether a statement begins with a token of this kind.
fn begins_statement(kind: TokenType) -> (b: bool)
    ensures
        b == starts_statement(kind),
{
    kind == TokenType::Class || kind == TokenType::Fun || kind == TokenType::Var || kind == TokenType::For
        || kind == TokenType::If || kind == TokenType::While || kind == TokenType::Print || kind
        == TokenType::Return
}

impl<'a> Parser<'a> {
    /// The position of the next token.
    pub open spec fn position(&self) -> int {
        self.current as int
    }

    /// The state of parsing.
    pub open spec fn cursor(&self) -> Cursor {
        Cursor { pos: self.position(), errors: self.errors@ }
    }

    /// The position lies within the tokens, or just behind them.
    pub open spec fn well_formed(&self) -> bool {
        self.current <= self.tokens@.len()
    }

    /// This parser has gone on from `before`: over the same tokens, with
    /// the same statements, to the same position or a later one.
    pub open spec fn continues(&self, before: Self) -> bool {
        &&& self.tokens == before.tokens
        &&& self.stmts == before.stmts
        &&& self.well_formed()
        &&& self.current >= before.current
    }

    /// A parser at the start of `tokens`.
    pub fn new(tokens: &'a Vec<Token>) -> (parser: Self)
        ensures
            parser.tokens == tokens,
            parser.stmts@.len() == 0,
            parser.errors@.len() == 0,
            parser.position() == 0,
            parser.well_formed(),
    {
        Parser { tokens, current: 0, stmts: Vec::new(), errors: Vec::new() }
    }

    /// The kind of the next token.
    fn kind(&self) -> (kind: TokenType)
        requires
            self.well_formed(),
        ensures
            kind == kind_at(self.tokens@, self.position()),
    {
        if self.current < self.tokens.len() {
            self.tokens[self.current].token_type
        } else {
            TokenType::Eof
        }
    }

    /// The line of the token at `index`.
    fn line(&self, index: usize) -> (line: usize)
        ensures
            line == line_at(self.tokens@, index as int),
    {
        if index < self.tokens.len() {
            self.tokens[index].line_number
        } else {
            0
        }
    }

    /// The line of the token before the next one.
    fn previous_line(&self) -> (line: usize)
        ensures
            line == line_at(self.tokens@, self.position() - 1),
    {
        if self.current > 0 {
            self.line(self.current - 1)
        } else {
            0
        }
    }

    /// Whether the next token is the sentinel, or there is none.
    fn is_at_end(&self) -> (b: bool)
        requires
            self.well_formed(),
        ensures
            b == (kind_at(self.tokens@, self.position()) == TokenType::Eof),
    {
        self.kind() == TokenType::Eof
    }

    /// The next token.
    fn peek(&self) -> (token: &'a Token)
        requires
            self.well_formed(),
            kind_at(self.tokens@, self.position()) != TokenType::Eof,
        ensures
            *token == self.tokens@[self.position()],
    {
        &self.tokens[self.current]
    }

    /// The token that was passed last.
    fn previous(&self) -> (token: &'a Token)
        requires
            self.well_formed(),
            self.position() > 0,
        ensures
            *token == self.tokens@[self.position() - 1],
    {
        &self.tokens[self.current - 1]
    }

    /// Passes the next token, unless it is the sentinel.
    fn advance(&mut self)
        requires
            old(self).well_formed(),
        ensures
            final(self).continues(*old(self)),
            final(self).cursor() == advance(old(self).tokens@, old(self).cursor()),
    {
        if self.current < self.tokens.len() && !self.is_at_end() {
            self.current = self.current + 1;
        }
    }

    /// Whether the next token is of kind `kind`.
    fn check(&self, kind: TokenType) -> (b: bool)
        requires
            self.well_formed(),
        ensures
            b == (kind_at(self.tokens@, self.position()) == kind),
    {
        self.kind() == kind
    }

    /// Passes the next token if it is of kind `kind`.
    fn matches(&mut self, kind: TokenType) -> (b: bool)
        requires
            old(self).well_formed(),
        ensures
            final(self).continues(*old(self)),
            b == (kind_at(old(self).tokens@, old(self).position()) == kind),
            final(self).cursor() == if b {
                advance(old(self).tokens@, old(self).cursor())
            } else {
                old(self).cursor()
            },
    {
        if self.check(kind) {
            self.advance();
            true
        } else {
            false
        }
    }

    /// Passes a token of kind `kind`, or fails with `error` on the line of
    /// the token before.
    fn consume(&mut self, kind: TokenType, error: ParseErrorKind) -> (result: Result<(), ParseError>)
        requires
            old(self).well_formed(),
        ensures
            final(self).continues(*old(self)),
            unit_outcome(result, final(self).cursor()) == consume(
                old(self).tokens@,
                old(self).cursor(),
                kind,
                error,
            ),
    {
        if self.check(kind) {
            self.advance();
            Ok(())
        } else {
            Err(ParseError { line_number: self.previous_line(), kind: error })
        }
    }

    /// The error `error` on the line of the next token.
    fn error_here(&self, error: ParseErrorKind) -> (e: ParseError)
        ensures
            e == (ParseError { line_number: line_at(self.tokens@, self.position()), kind: error }),
    {
        ParseError { line_number: self.line(self.current), kind: error }
    }

    /// Adds an error to those reported.
    fn report(&mut self, error: ParseError)
        requires
            old(self).well_formed(),
        ensures
            final(self).continues(*old(self)),
            final(self).cursor() == report(old(self).cursor(), error),
    {
        self.errors.push(error);
    }

    /// Error recovery: passes the offending token, then skips to a likely
    /// statement boundary.
    fn synchronize(&mut self)
        requires
            old(self).well_formed(),
        ensures
            final(self).continues(*old(self)),
            final(self).cursor() == synchronize(old(self).tokens@, old(self).cursor()),
            kind_at(old(self).tokens@, old(self).position()) != TokenType::Eof ==> final(self).position()
                > old(self).position(),
    {
        let ghost origin = *self;
        self.advance();
        while !self.is_at_end()
            invariant
                origin == *old(self),
                self.continues(origin),
                origin.well_formed(),
                skip_to_boundary(self.tokens@, self.cursor()) == synchronize(origin.tokens@, origin.cursor()),
                kind_at(origin.tokens@, origin.position()) != TokenType::Eof ==> self.position()
                    > origin.position(),
            decreases remaining(self.tokens@, self.position()),
        {
            if self.current > 0 && self.tokens[self.current - 1].token_type == TokenType::Semicolon {
                return ;
            }
            if begins_statement(self.kind()) {
                return ;
            }
            self.advance();
        }
    }

    /// The parameter names of a function, from after the `(`.
    fn parameters(&mut self) -> (result: Result<Vec<Token>, ParseError>)
        requires
            old(self).well_formed(),
        ensures
            final(self).continues(*old(self)),
            names_outcome(result, final(self).cursor()) == parse_parameter_list(
                old(self).tokens@,
                old(self).cursor(),
            ),
    {
        proof {
            reveal(parse_parameters);
            reveal(parse_parameter_list);
        }
        let mut names: Vec<Token> = Vec::new();
        if self.check(TokenType::RightParen) {
            return Ok(names);
        }
        let ghost origin = *self;
        loop
            invariant
                origin == *old(self),
                self.continues(origin),
                kind_at(origin.tokens@, origin.position()) != TokenType::RightParen,
                parse_parameters(self.tokens@, self.cursor(), names@) == parse_parameters(
                    origin.tokens@,
                    origin.cursor(),
                    Seq::empty(),
                ),
            decreases remaining(self.tokens@, self.position()),
        {
            proof {
                reveal(parse_parameters);
                reveal(parse_parameter_list);
            }
            if names.len() >= MAX_ARITY {
                let error = self.error_here(ParseErrorKind::TooManyParameters);
                self.report(error);
            }
            match self.consume(TokenType::Identifier, ParseErrorKind::ExpectParameterName) {
                Err(error) => {
                    return Err(error);
                },
                Ok(_) => {},
            }
            names.push(self.previous().clone());
            if !self.matches(TokenType::Comma) {
                return Ok(names);
            }
        }
    }

    /// Parses one expression from the current position on.
    ///
    /// expression → assignment
    pub fn expression(&mut self) -> (result: Result<Expr, ParseError>)
        requires
            old(self).well_formed(),
        ensures
            final(self).continues(*old(self)),
            expression_outcome(result, final(self).cursor()) == parse_expression(
                old(self).tokens@,
                old(self).cursor(),
            ),
        decreases remaining(old(self).tokens@, old(self).position()), 25nat,
    {
        proof {
            reveal(parse_expression);
            reveal(parse_assignment);
        }
        self.assignment()
    }

    /// assignment → IDENT "=" assignment | logic_or
    fn assignment(&mut self) -> (result: Result<Expr, ParseError>)
        requires
            old(self).well_formed(),
        ensures
            final(self).continues(*old(self)),
            expression_outcome(result, final(self).cursor()) == parse_assignment(
                old(self).tokens@,
                old(self).cursor(),
            ),
        decreases remaining(old(self).tokens@, old(self).position()), 24nat,
    {
        proof {
            reveal(parse_assignment);
            reveal(parse_level);
        }
        let target = match self.level(LOOSEST) {
            Ok(expression) => expression,
            Err(error) => {
                return Err(error);
            },
        };
        if self.check(TokenType::Equal) {
            let line = self.line(self.current);
            self.advance();
            let value = match self.assignment() {
                Ok(expression) => expression,
                Err(error) => {
                    return Err(error);
                },
            };
            return match target {
                Expr::Variable(name) => Ok(Expr::Assign(name, Box::new(value))),
                _ => Err(ParseError { line_number: line, kind: ParseErrorKind::InvalidAssignmentTarget }),
            };
        }
        Ok(target)
    }

    /// One precedence level of binary operators; level 0 is `unary`.
    fn level(&mut self, level: u8) -> (result: Result<Expr, ParseError>)
        requires
            old(self).well_formed(),
        ensures
            final(self).continues(*old(self)),
            expression_outcome(result, final(self).cursor()) == parse_level(
                old(self).tokens@,
                old(self).cursor(),
                level as nat,
            ),
        decreases remaining(old(self).tokens@, old(self).position()), 11 + 2 * level,
    {
        proof {
            reveal(parse_level);
            reveal(parse_level_rest);
            reveal(parse_unary);
        }
        if level == 0 {
            return self.unary();
        }
        let mut left = match self.level(level - 1) {
            Ok(expression) => expression,
            Err(error) => {
                return Err(error);
            },
        };
        let ghost origin = *old(self);
        let ghost target = parse_level(origin.tokens@, origin.cursor(), level as nat);
        loop
            invariant
                level > 0,
                origin == *old(self),
                self.continues(origin),
                target == parse_level(origin.tokens@, origin.cursor(), level as nat),
                parse_level_rest(self.tokens@, self.cursor(), level as nat, left@) == target,
            decreases remaining(self.tokens@, self.position()),
        {
            proof {
                reveal(parse_level);
                reveal(parse_level_rest);
                reveal(parse_unary);
            }
            if !is_level_operator(level, self.kind()) {
                return Ok(left);
            }
            let operator = self.peek().clone();
            self.advance();
            let right = match self.level(level - 1) {
                Ok(expression) => expression,
                Err(error) => {
                    return Err(error);
                },
            };
            left = if level >= 5 {
                Expr::Logical(Box::new(left), operator, Box::new(right))
            } else {
                Expr::Binary(Box::new(left), operator, Box::new(right))
            };
        }
    }

    /// unary → ("!" | "-") unary | call
    fn unary(&mut self) -> (result: Result<Expr, ParseError>)
        requires
            old(self).well_formed(),
        ensures
            final(self).continues(*old(self)),
            expression_outcome(result, final(self).cursor()) == parse_unary(
                old(self).tokens@,
                old(self).cursor(),
            ),
        decreases remaining(old(self).tokens@, old(self).position()), 9nat,
    {
        proof {
            reveal(parse_unary);
            reveal(parse_call);
        }
        if self.check(TokenType::Bang) || self.check(TokenType::Minus) {
            let operator = self.peek().clone();
            self.advance();
            return match self.unary() {
                Ok(right) => Ok(Expr::Unary(operator, Box::new(right))),
                Err(error) => Err(error),
            };
        }
        self.call()
    }

    /// call → primary ("(" arguments? ")")*
    fn call(&mut self) -> (result: Result<Expr, ParseError>)
        requires
            old(self).well_formed(),
        ensures
            final(self).continues(*old(self)),
            expression_outcome(result, final(self).cursor()) == parse_call(
                old(self).tokens@,
                old(self).cursor(),
            ),
        decreases remaining(old(self).tokens@, old(self).position()), 8nat,
    {
        proof {
            reveal(parse_call);
            reveal(parse_call_rest);
            reveal(parse_primary);
            reveal(parse_finish_call);
        }
        let mut callee = match self.primary() {
            Ok(expression) => expression,
            Err(error) => {
                return Err(error);
            },
        };
        let ghost origin = *old(self);
        let ghost target = parse_call(origin.tokens@, origin.cursor());
        loop
            invariant
                origin == *old(self),
                self.continues(origin),
                target == parse_call(origin.tokens@, origin.cursor()),
                parse_call_rest(self.tokens@, self.cursor(), callee@) == target,
            decreases remaining(self.tokens@, self.position()),
        {
            proof {
                reveal(parse_call);
                reveal(parse_call_rest);
                reveal(parse_primary);
                reveal(parse_finish_call);
            }
            if !self.matches(TokenType::LeftParen) {
                return Ok(callee);
            }
            callee = match self.finish_call(callee) {
                Ok(expression) => expression,
                Err(error) => {
                    return Err(error);
                },
            };
        }
    }

    /// The arguments of a call, from after the `(`, where the list is not
    /// empty.
    fn arguments(&mut self) -> (result: Result<Vec<Expr>, ParseError>)
        requires
            old(self).well_formed(),
        ensures
            final(self).continues(*old(self)),
            expressions_outcome(result, final(self).cursor()) == parse_arguments(
                old(self).tokens@,
                old(self).cursor(),
            ),
        decreases remaining(old(self).tokens@, old(self).position()), 27nat,
    {
        proof {
            reveal(parse_arguments);
            reveal(parse_arguments_rest);
            reveal(parse_expression);
        }
        let mut list: Vec<Expr> = Vec::new();
        let first = match self.expression() {
            Ok(expression) => expression,
            Err(error) => {
                return Err(error);
            },
        };
        proof {
            expr_views_push(list@, first);
            assert(expr_views(list@.push(first)) =~= seq![first@]);
        }
        list.push(first);
        let ghost origin = *old(self);
        let ghost target = parse_arguments(origin.tokens@, origin.cursor());
        loop
            invariant
                origin == *old(self),
                self.continues(origin),
                target == parse_arguments(origin.tokens@, origin.cursor()),
                parse_arguments_rest(self.tokens@, self.cursor(), expr_views(list@)) == target,
            decreases remaining(self.tokens@, self.position()),
        {
            proof {
                reveal(parse_arguments);
                reveal(parse_arguments_rest);
                reveal(parse_expression);
            }
            if !self.matches(TokenType::Comma) {
                return Ok(list);
            }
            if list.len() >= MAX_ARITY {
                let error = self.error_here(ParseErrorKind::TooManyArguments);
                self.report(error);
            }
            let next = match self.expression() {
                Ok(expression) => expression,
                Err(error) => {
                    return Err(error);
                },
            };
            proof {
                expr_views_push(list@, next);
            }
            list.push(next);
        }
    }

    /// The arguments of a call, from after the `(`.
    fn argument_list(&mut self) -> (result: Result<Vec<Expr>, ParseError>)
        requires
            old(self).well_formed(),
        ensures
            final(self).continues(*old(self)),
            expressions_outcome(result, final(self).cursor()) == parse_argument_list(
                old(self).tokens@,
                old(self).cursor(),
            ),
        decreases remaining(old(self).tokens@, old(self).position()), 28nat,
    {
        proof {
            reveal(parse_argument_list);
            reveal(parse_arguments);
        }
        if self.check(TokenType::RightParen) {
            Ok(no_arguments())
        } else {
            self.arguments()
        }
    }

    /// One argument list, from after its `(`: the call of `callee`.
    fn finish_call(&mut self, callee: Expr) -> (result: Result<Expr, ParseError>)
        requires
            old(self).well_formed(),
        ensures
            final(self).continues(*old(self)),
            expression_outcome(result, final(self).cursor()) == parse_finish_call(
                old(self).tokens@,
                old(self).cursor(),
                callee@,
            ),
        decreases remaining(old(self).tokens@, old(self).position()), 29nat,
    {
        proof {
            reveal(parse_finish_call);
            reveal(parse_argument_list);
        }
        let arguments = match self.argument_list() {
            Ok(list) => list,
            Err(error) => {
                return Err(error);
            },
        };
        match self.consume(TokenType::RightParen, ParseErrorKind::ExpectParenAfterArguments) {
            Err(error) => {
                return Err(error);
            },
            Ok(_) => {},
        }
        let paren = self.previous().clone();
        Ok(Expr::Call(Box::new(callee), paren, arguments))
    }

    /// primary → NUMBER | STRING | "true" | "false" | "nil" | IDENT |
    /// "(" expression ")"
    fn primary(&mut self) -> (result: Result<Expr, ParseError>)
        requires
            old(self).well_formed(),
        ensures
            final(self).continues(*old(self)),
            expression_outcome(result, final(self).cursor()) == parse_primary(
                old(self).tokens@,
                old(self).cursor(),
            ),
        decreases remaining(old(self).tokens@, old(self).position()), 6nat,
    {
        proof {
            reveal(parse_primary);
            reveal(parse_expression);
        }
        let kind = self.kind();
        if kind == TokenType::Nil {
            self.advance();
            return Ok(Expr::Literal(Literal::Nil));
        }
        if kind == TokenType::True {
            self.advance();
            return Ok(Expr::Literal(Literal::Bool(true)));
        }
        if kind == TokenType::False {
            self.advance();
            return Ok(Expr::Literal(Literal::Bool(false)));
        }
        if kind == TokenType::String || kind == TokenType::Number {
            let value = self.peek().value.clone();
            self.advance();
            return Ok(Expr::Literal(value));
        }
        if kind == TokenType::LeftParen {
            self.advance();
            let inner = match self.expression() {
                Ok(expression) => expression,
                Err(error) => {
                    return Err(error);
                },
            };
            return match self.consume(TokenType::RightParen, ParseErrorKind::ExpectParenAfterExpression) {
                Err(error) => Err(error),
                Ok(_) => Ok(Expr::Grouping(Box::new(inner))),
            };
        }
        if kind == TokenType::RightParen {
            let error = self.error_here(ParseErrorKind::UnexpectedRightParen);
            self.advance();
            return Err(error);
        }
        if kind == TokenType::Identifier {
            let name = self.peek().clone();
            self.advance();
            return Ok(Expr::Variable(name));
        }
        Err(self.error_here(ParseErrorKind::ExpectExpression))
    }

    /// exprStmt → expression ";"
    fn expression_statement(&mut self) -> (result: Result<Stmt, ParseError>)
        requires
            old(self).well_formed(),
        ensures
            final(self).continues(*old(self)),
            statement_outcome(result, final(self).cursor()) == parse_expression_statement(
                old(self).tokens@,
                old(self).cursor(),
            ),
            result is Ok ==> final(self).position() > old(self).position(),
        decreases remaining(old(self).tokens@, old(self).position()), 28nat,
    {
        proof {
            reveal(parse_expression_statement);
            reveal(parse_expression);
        }
        let value = match self.expression() {
            Ok(value) => value,
            Err(error) => {
                return Err(error);
            },
        };
        match self.consume(TokenType::Semicolon, ParseErrorKind::ExpectSemicolonAfterValue) {
            Err(error) => {
                return Err(error);
            },
            Ok(_) => {},
        }
        Ok(Stmt::Expression(value))
    }

    /// printStmt → "print" expression ";", from after the keyword.
    fn print_statement(&mut self) -> (result: Result<Stmt, ParseError>)
        requires
            old(self).well_formed(),
        ensures
            final(self).continues(*old(self)),
            statement_outcome(result, final(self).cursor()) == parse_print_statement(
                old(self).tokens@,
                old(self).cursor(),
            ),
        decreases remaining(old(self).tokens@, old(self).position()), 28nat,
    {
        proof {
            reveal(parse_print_statement);
            reveal(parse_expression);
        }
        let value = match self.expression() {
            Ok(value) => value,
            Err(error) => {
                return Err(error);
            },
        };
        match self.consume(TokenType::Semicolon, ParseErrorKind::ExpectSemicolonAfterValue) {
            Err(error) => {
                return Err(error);
            },
            Ok(_) => {},
        }
        Ok(Stmt::Print(value))
    }

    /// returnStmt → "return" expression? ";", from after the keyword.
    fn return_statement(&mut self) -> (result: Result<Stmt, ParseError>)
        requires
            old(self).well_formed(),
            old(self).position() > 0,
        ensures
            final(self).continues(*old(self)),
            statement_outcome(result, final(self).cursor()) == parse_return_statement(
                old(self).tokens@,
                old(self).cursor(),
            ),
        decreases remaining(old(self).tokens@, old(self).position()), 28nat,
    {
        proof {
            reveal(parse_return_statement);
            reveal(parse_expression);
        }
        let keyword = self.previous().clone();
        let value = if self.check(TokenType::Semicolon) {
            None
        } else {
            match self.expression() {
                Ok(expression) => Some(expression),
                Err(error) => {
                    return Err(error);
                },
            }
        };
        match self.consume(TokenType::Semicolon, ParseErrorKind::ExpectSemicolonAfterReturn) {
            Err(error) => {
                return Err(error);
            },
            Ok(_) => {},
        }
        Ok(Stmt::Return(keyword, value))
    }

    /// varDecl → "var" IDENT ("=" expression)? ";", from after the
    /// keyword.
    fn var_declaration(&mut self) -> (result: Result<Stmt, ParseError>)
        requires
            old(self).well_formed(),
        ensures
            final(self).continues(*old(self)),
            statement_outcome(result, final(self).cursor()) == parse_var_declaration(
                old(self).tokens@,
                old(self).cursor(),
            ),
        decreases remaining(old(self).tokens@, old(self).position()), 28nat,
    {
        proof {
            reveal(parse_var_declaration);
            reveal(parse_expression);
        }
        match self.consume(TokenType::Identifier, ParseErrorKind::ExpectVariableName) {
            Err(error) => {
                return Err(error);
            },
            Ok(_) => {},
        }
        let name = self.previous().clone();
        let initializer = if self.matches(TokenType::Equal) {
            match self.expression() {
                Ok(expression) => Some(expression),
                Err(error) => {
                    return Err(error);
                },
            }
        } else {
            None
        };
        match self.consume(TokenType::Semicolon, ParseErrorKind::ExpectSemicolonAfterVariable) {
            Err(error) => {
                return Err(error);
            },
            Ok(_) => {},
        }
        Ok(Stmt::Var(name, initializer))
    }

    /// The brace-delimited body of an `if`, `while` or `for`.
    fn body(&mut self, error: ParseErrorKind) -> (result: Result<Stmt, ParseError>)
        requires
            old(self).well_formed(),
        ensures
            final(self).continues(*old(self)),
            statement_outcome(result, final(self).cursor()) == parse_body(
                old(self).tokens@,
                old(self).cursor(),
                error,
            ),
        decreases remaining(old(self).tokens@, old(self).position()), 30nat,
    {
        proof {
            reveal(parse_body);
            reveal(parse_statement);
        }
        if !self.check(TokenType::LeftBrace) {
            return Err(self.error_here(error));
        }
        self.statement()
    }

    /// whileStmt → "while" "(" expression ")" block, from after the
    /// keyword.
    fn while_statement(&mut self) -> (result: Result<Stmt, ParseError>)
        requires
            old(self).well_formed(),
        ensures
            final(self).continues(*old(self)),
            statement_outcome(result, final(self).cursor()) == parse_while_statement(
                old(self).tokens@,
                old(self).cursor(),
            ),
        decreases remaining(old(self).tokens@, old(self).position()), 28nat,
    {
        proof {
            reveal(parse_while_statement);
            reveal(parse_expression);
            reveal(parse_body);
        }
        match self.consume(TokenType::LeftParen, ParseErrorKind::ExpectParenAfterWhile) {
            Err(error) => {
                return Err(error);
            },
            Ok(_) => {},
        }
        let condition = match self.expression() {
            Ok(value) => value,
            Err(error) => {
                return Err(error);
            },
        };
        match self.consume(TokenType::RightParen, ParseErrorKind::ExpectParenAfterCondition) {
            Err(error) => {
                return Err(error);
            },
            Ok(_) => {},
        }
        let body = match self.body(ParseErrorKind::ExpectBraceBeforeWhileBody) {
            Ok(value) => value,
            Err(error) => {
                return Err(error);
            },
        };
        Ok(Stmt::While(condition, Box::new(body)))
    }

    /// The `else` branch of an `if`, where there is one.
    fn else_branch(&mut self) -> (result: Result<Option<Box<Stmt>>, ParseError>)
        requires
            old(self).well_formed(),
        ensures
            final(self).continues(*old(self)),
            else_outcome(result, final(self).cursor()) == parse_else(old(self).tokens@, old(self).cursor()),
        decreases remaining(old(self).tokens@, old(self).position()), 31nat,
    {
        proof {
            reveal(parse_else);
            reveal(parse_body);
        }
        if self.matches(TokenType::Else) {
            match self.body(ParseErrorKind::ExpectBraceBeforeElseBody) {
                Ok(statement) => Ok(Some(Box::new(statement))),
                Err(error) => Err(error),
            }
        } else {
            Ok(None)
        }
    }

    /// ifStmt → "if" "(" expression ")" block ("else" block)?, from after
    /// the keyword.
    fn if_statement(&mut self) -> (result: Result<Stmt, ParseError>)
        requires
            old(self).well_formed(),
        ensures
            final(self).continues(*old(self)),
            statement_outcome(result, final(self).cursor()) == parse_if_statement(
                old(self).tokens@,
                old(self).cursor(),
            ),
        decreases remaining(old(self).tokens@, old(self).position()), 28nat,
    {
        proof {
            reveal(parse_if_statement);
            reveal(parse_expression);
            reveal(parse_body);
            reveal(parse_else);
        }
        match self.consume(TokenType::LeftParen, ParseErrorKind::ExpectParenAfterIf) {
            Err(error) => {
                return Err(error);
            },
            Ok(_) => {},
        }
        let condition = match self.expression() {
            Ok(value) => value,
            Err(error) => {
                return Err(error);
            },
        };
        match self.consume(TokenType::RightParen, ParseErrorKind::ExpectParenAfterIfCondition) {
            Err(error) => {
                return Err(error);
            },
            Ok(_) => {},
        }
        let then_branch = match self.body(ParseErrorKind::ExpectBraceBeforeIfBody) {
            Ok(value) => value,
            Err(error) => {
                return Err(error);
            },
        };
        let else_branch = match self.else_branch() {
            Ok(value) => value,
            Err(error) => {
                return Err(error);
            },
        };
        Ok(Stmt::If(condition, Box::new(then_branch), else_branch))
    }

    /// The first clause of a `for`.
    fn for_initializer(&mut self) -> (result: Result<Option<Stmt>, ParseError>)
        requires
            old(self).well_formed(),
        ensures
            final(self).continues(*old(self)),
            initializer_outcome(result, final(self).cursor()) == parse_for_initializer(
                old(self).tokens@,
                old(self).cursor(),
            ),
        decreases remaining(old(self).tokens@, old(self).position()), 31nat,
    {
        proof {
            reveal(parse_for_initializer);
            reveal(parse_var_declaration);
            reveal(parse_expression_statement);
        }
        if self.matches(TokenType::Semicolon) {
            Ok(None)
        } else if self.matches(TokenType::Var) {
            match self.var_declaration() {
                Ok(statement) => Ok(Some(statement)),
                Err(error) => Err(error),
            }
        } else {
            match self.expression_statement() {
                Ok(statement) => Ok(Some(statement)),
                Err(error) => Err(error),
            }
        }
    }

    /// An expression, unless the next token is of kind `end`.
    fn clause(&mut self, end: TokenType) -> (result: Result<Option<Expr>, ParseError>)
        requires
            old(self).well_formed(),
        ensures
            final(self).continues(*old(self)),
            clause_outcome(result, final(self).cursor()) == parse_clause(
                old(self).tokens@,
                old(self).cursor(),
                end,
            ),
        decreases remaining(old(self).tokens@, old(self).position()), 31nat,
    {
        proof {
            reveal(parse_clause);
            reveal(parse_expression);
        }
        if self.check(end) {
            Ok(None)
        } else {
            match self.expression() {
                Ok(expression) => Ok(Some(expression)),
                Err(error) => Err(error),
            }
        }
    }

    /// forStmt → "for" "(" (varDecl | exprStmt | ";") expression? ";"
    /// expression? ")" block, from after the keyword.
    fn for_statement(&mut self) -> (result: Result<Stmt, ParseError>)
        requires
            old(self).well_formed(),
        ensures
            final(self).continues(*old(self)),
            statement_outcome(result, final(self).cursor()) == parse_for_statement(
                old(self).tokens@,
                old(self).cursor(),
            ),
        decreases remaining(old(self).tokens@, old(self).position()), 28nat,
    {
        proof {
            reveal(parse_for_statement);
            reveal(parse_for_initializer);
            reveal(parse_clause);
            reveal(parse_body);
        }
        match self.consume(TokenType::LeftParen, ParseErrorKind::ExpectParenAfterFor) {
            Err(error) => {
                return Err(error);
            },
            Ok(_) => {},
        }
        let initializer = match self.for_initializer() {
            Ok(value) => value,
            Err(error) => {
                return Err(error);
            },
        };
        let test = match self.clause(TokenType::Semicolon) {
            Ok(value) => value,
            Err(error) => {
                return Err(error);
            },
        };
        match self.consume(TokenType::Semicolon, ParseErrorKind::ExpectSemicolonAfterLoopCondition) {
            Err(error) => {
                return Err(error);
            },
            Ok(_) => {},
        }
        let increment = match self.clause(TokenType::RightParen) {
            Ok(value) => value,
            Err(error) => {
                return Err(error);
            },
        };
        match self.consume(TokenType::RightParen, ParseErrorKind::ExpectParenAfterForClauses) {
            Err(error) => {
                return Err(error);
            },
            Ok(_) => {},
        }
        let body = match self.body(ParseErrorKind::ExpectBraceBeforeForBody) {
            Ok(value) => value,
            Err(error) => {
                return Err(error);
            },
        };
        let condition = match test {
            Some(expression) => expression,
            None => Expr::Literal(Literal::Bool(true)),
        };
        Ok(loop_of(initializer, condition, increment, body))
    }

    /// funDecl → "fun" IDENT "(" params? ")" block, from after the
    /// keyword.
    fn function(&mut self) -> (result: Result<Stmt, ParseError>)
        requires
            old(self).well_formed(),
        ensures
            final(self).continues(*old(self)),
            statement_outcome(result, final(self).cursor()) == parse_function(
                old(self).tokens@,
                old(self).cursor(),
            ),
        decreases remaining(old(self).tokens@, old(self).position()), 28nat,
    {
        proof {
            reveal(parse_function);
            reveal(parse_block);
        }
        match self.consume(TokenType::Identifier, ParseErrorKind::ExpectFunctionName) {
            Err(error) => {
                return Err(error);
            },
            Ok(_) => {},
        }
        let name = self.previous().clone();
        match self.consume(TokenType::LeftParen, ParseErrorKind::ExpectParenAfterFunctionName) {
            Err(error) => {
                return Err(error);
            },
            Ok(_) => {},
        }
        let parameters = match self.parameters() {
            Ok(value) => value,
            Err(error) => {
                return Err(error);
            },
        };
        match self.consume(TokenType::RightParen, ParseErrorKind::ExpectParenAfterParameters) {
            Err(error) => {
                return Err(error);
            },
            Ok(_) => {},
        }
        match self.consume(TokenType::LeftBrace, ParseErrorKind::ExpectBraceBeforeFunctionBody) {
            Err(error) => {
                return Err(error);
            },
            Ok(_) => {},
        }
        let body = match self.block() {
            Ok(value) => value,
            Err(error) => {
                return Err(error);
            },
        };
        Ok(Stmt::Function(name, parameters, body))
    }

    /// The declarations of a block, from after its `{`.
    fn block(&mut self) -> (result: Result<Vec<Stmt>, ParseError>)
        requires
            old(self).well_formed(),
        ensures
            final(self).continues(*old(self)),
            statements_outcome(result, final(self).cursor()) == parse_block(
                old(self).tokens@,
                old(self).cursor(),
                Seq::empty(),
            ),
        decreases remaining(old(self).tokens@, old(self).position()), 40nat,
    {
        proof {
            reveal(parse_block);
            reveal(parse_declaration);
        }
        let mut list: Vec<Stmt> = Vec::new();
        let ghost origin = *old(self);
        let ghost target = parse_block(origin.tokens@, origin.cursor(), Seq::empty());
        assert(stmt_views(list@) =~= Seq::<StmtView>::empty());
        loop
            invariant
                origin == *old(self),
                self.continues(origin),
                target == parse_block(origin.tokens@, origin.cursor(), Seq::empty()),
                parse_block(self.tokens@, self.cursor(), stmt_views(list@)) == target,
            decreases remaining(self.tokens@, self.position()),
        {
            proof {
                reveal(parse_block);
                reveal(parse_declaration);
            }
            if self.check(TokenType::RightBrace) || self.is_at_end() {
                return match self.consume(TokenType::RightBrace, ParseErrorKind::ExpectBraceAfterBlock) {
                    Err(error) => Err(error),
                    Ok(_) => Ok(list),
                };
            }
            let statement = match self.declaration() {
                Ok(value) => value,
                Err(error) => {
                    return Err(error);
                },
            };
            proof {
                stmt_views_push(list@, statement);
            }
            list.push(statement);
        }
    }

    /// statement → exprStmt | forStmt | ifStmt | printStmt | returnStmt |
    /// whileStmt | block
    fn statement(&mut self) -> (result: Result<Stmt, ParseError>)
        requires
            old(self).well_formed(),
        ensures
            final(self).continues(*old(self)),
            statement_outcome(result, final(self).cursor()) == parse_statement(
                old(self).tokens@,
                old(self).cursor(),
            ),
            result is Ok ==> final(self).position() > old(self).position(),
        decreases remaining(old(self).tokens@, old(self).position()), 29nat,
    {
        proof {
            reveal(parse_statement);
            reveal(parse_for_statement);
            reveal(parse_if_statement);
            reveal(parse_print_statement);
            reveal(parse_return_statement);
            reveal(parse_while_statement);
            reveal(parse_block);
            reveal(parse_expression_statement);
        }
        if self.matches(TokenType::For) {
            return self.for_statement();
        }
        if self.matches(TokenType::If) {
            return self.if_statement();
        }
        if self.matches(TokenType::Print) {
            return self.print_statement();
        }
        if self.matches(TokenType::Return) {
            return self.return_statement();
        }
        if self.matches(TokenType::While) {
            return self.while_statement();
        }
        if self.matches(TokenType::LeftBrace) {
            return match self.block() {
                Ok(statements) => Ok(Stmt::Block(statements)),
                Err(error) => Err(error),
            };
        }
        self.expression_statement()
    }

    /// declaration → funDecl | varDecl | statement, with error recovery
    /// behind a failure.
    fn declaration(&mut self) -> (result: Result<Stmt, ParseError>)
        requires
            old(self).well_formed(),
        ensures
            final(self).continues(*old(self)),
            statement_outcome(result, final(self).cursor()) == parse_declaration(
                old(self).tokens@,
                old(self).cursor(),
            ),
            kind_at(old(self).tokens@, old(self).position()) != TokenType::Eof ==> final(self).position()
                > old(self).position(),
        decreases remaining(old(self).tokens@, old(self).position()), 32nat,
    {
        proof {
            reveal(parse_declaration);
            reveal(parse_function);
            reveal(parse_var_declaration);
            reveal(parse_statement);
        }
        let parsed = if self.matches(TokenType::Fun) {
            self.function()
        } else if self.matches(TokenType::Var) {
            self.var_declaration()
        } else {
            self.statement()
        };
        match parsed {
            Ok(statement) => Ok(statement),
            Err(error) => {
                self.synchronize();
                Err(error)
            },
        }
    }

    /// What `parse` makes of a parser: `after` holds the statements and
    /// the errors that the grammar gives for the tokens of `before`, from
    /// its position on, behind those that `before` held.
    pub open spec fn parsed(before: Self, after: Self) -> bool {
        let program = parse_program(before.tokens@, before.cursor(), stmt_views(before.stmts@));
        &&& after.well_formed()
        &&& after.tokens == before.tokens
        &&& stmt_views(after.stmts@) == program.statements
        &&& after.errors@ == program.errors
        &&& after.position() == program.pos
    }

    /// Parses the tokens from the current position to the end: every
    /// declaration that parses is added to `stmts`, and the error of every
    /// one that does not, to `errors`.
    pub fn parse(&mut self)
        requires
            old(self).well_formed(),
        ensures
            Self::parsed(*old(self), *final(self)),
            final(self).position() >= old(self).position(),
    {
        let ghost origin = *old(self);
        let ghost target = parse_program(origin.tokens@, origin.cursor(), stmt_views(origin.stmts@));
        loop
            invariant
                origin == *old(self),
                self.well_formed(),
                self.tokens == origin.tokens,
                self.current >= origin.current,
                target == parse_program(origin.tokens@, origin.cursor(), stmt_views(origin.stmts@)),
                parse_program(self.tokens@, self.cursor(), stmt_views(self.stmts@)) == target,
            decreases remaining(self.tokens@, self.position()),
        {
            proof {
                reveal(parse_program);
                reveal(parse_declaration);
            }
            if self.is_at_end() {
                return ;
            }
            match self.declaration() {
                Ok(statement) => {
                    proof {
                        stmt_views_push(self.stmts@, statement);
                    }
                    self.stmts.push(statement);
                },
                Err(error) => {
                    self.errors.push(error);
                },
            }
        }
    }
}

/// Parsing is a function of the tokens: two parsers that stand at the
/// same position of the same tokens, and hold the same statements and
/// errors, hold the same statements and the same errors after `parse`.
pub proof fn parsing_is_deterministic<'a, 'b>(
    first: Parser<'a>,
    first_parsed: Parser<'a>,
    second: Parser<'b>,
    second_parsed: Parser<'b>,
)
    requires
        Parser::parsed(first, first_parsed),
        Parser::parsed(second, second_parsed),
        first.tokens@ == second.tokens@,
        first.position() == second.position(),
        first.errors@ == second.errors@,
        stmt_views(first.stmts@) == stmt_views(second.stmts@),
    ensures
        stmt_views(first_parsed.stmts@) == stmt_views(second_parsed.stmts@),
        first_parsed.errors@ == second_parsed.errors@,
        first_parsed.position() == second_parsed.position(),
{
}

/// The empty argument list.
fn no_arguments() -> (list: Vec<Expr>)
    ensures
        expr_views(list@) == Seq::<ExprView>::empty(),
{
    let list: Vec<Expr> = Vec::new();
    assert(expr_views(list@) =~= Seq::<ExprView>::empty());
    list
}

/// The block of two statements.
fn pair(first: Stmt, second: Stmt) -> (block: Stmt)
    ensures
        block@ == StmtView::Block(seq![first@, second@]),
{
    let mut list: Vec<Stmt> = Vec::new();
    proof {
        stmt_views_push(list@, first);
        stmt_views_push(list@.push(first), second);
        assert(stmt_views(list@) =~= Seq::<StmtView>::empty());
        assert(stmt_views(list@.push(first).push(second)) =~= seq![first@, second@]);
    }
    list.push(first);
    list.push(second);
    Stmt::Block(list)
}

/// The loop that a `for` statement stands for.
fn loop_of(initializer: Option<Stmt>, condition: Expr, increment: Option<Expr>, body: Stmt) -> (statement: Stmt)
    ensures
        statement@ == desugar_for(
            match initializer {
                Some(first) => Some(first@),
                None => None,
            },
            condition@,
            match increment {
                Some(step) => Some(step@),
                None => None,
            },
            body@,
        ),
{
    let stepped = match increment {
        Some(step) => pair(body, Stmt::Expression(step)),
        None => body,
    };
    let repeated = Stmt::While(condition, Box::new(stepped));
    match initializer {
        Some(first) => pair(first, repeated),
        None => repeated,
    }
}

} // verus!
