//! Phrases move forward: no phrase of the grammar ends before the
//! position at which it starts, and a declaration passes at least one
//! token. The grammar states `since` and `past` where one phrase follows
//! another; by what is proved here, they leave every outcome as it is.

use vstd::prelude::*;
use crate::expressions::ExprView;
use crate::grammar::advance;
use crate::grammar::consume;
use crate::grammar::kind_at;
use crate::grammar::line_at;
use crate::grammar::parse_argument_list;
use crate::grammar::parse_arguments;
use crate::grammar::parse_arguments_rest;
use crate::grammar::parse_assignment;
use crate::grammar::parse_block;
use crate::grammar::parse_body;
use crate::grammar::parse_call;
use crate::grammar::parse_call_rest;
use crate::grammar::parse_clause;
use crate::grammar::parse_declaration;
use crate::grammar::parse_else;
use crate::grammar::parse_expression;
use crate::grammar::parse_expression_statement;
use crate::grammar::parse_finish_call;
use crate::grammar::parse_for_initializer;
use crate::grammar::parse_for_statement;
use crate::grammar::parse_function;
use crate::grammar::parse_if_statement;
use crate::grammar::parse_level;
use crate::grammar::parse_level_rest;
use crate::grammar::parse_parameter_list;
use crate::grammar::parse_parameters;
use crate::grammar::parse_primary;
use crate::grammar::parse_print_statement;
use crate::grammar::parse_program;
use crate::grammar::parse_return_statement;
use crate::grammar::parse_statement;
use crate::grammar::parse_unary;
use crate::grammar::parse_var_declaration;
use crate::grammar::parse_while_statement;
use crate::grammar::is_operator;
use crate::grammar::combine;
use crate::grammar::remaining;
use crate::grammar::report;
use crate::grammar::skip_to_boundary;
use crate::grammar::synchronize;
use crate::grammar::Cursor;
use crate::grammar::ParseError;
use crate::grammar::ParseErrorKind;
use crate::grammar::MAX_ARITY;
use crate::statements::StmtView;
use crate::tokens::Token;
use crate::tokens::TokenType;

verus! {

/// Skipping to a boundary goes forward.
pub proof fn skipping_moves_on(tokens: Seq<Token>, state: Cursor)
    ensures
        skip_to_boundary(tokens, state).pos >= state.pos,
    decreases remaining(tokens, state.pos),
{
    if kind_at(tokens, state.pos) != TokenType::Eof && kind_at(tokens, state.pos - 1) != TokenType::Semicolon
        && !crate::grammar::starts_statement(kind_at(tokens, state.pos)) {
        skipping_moves_on(tokens, advance(tokens, state));
    }
}

/// Error recovery goes forward, and passes a token where there is one.
pub proof fn recovery_moves_on(tokens: Seq<Token>, state: Cursor)
    ensures
        synchronize(tokens, state).pos >= state.pos,
        kind_at(tokens, state.pos) != TokenType::Eof ==> synchronize(tokens, state).pos > state.pos,
{
    skipping_moves_on(tokens, advance(tokens, state));
}

/// A list of parameters ends at or after its start.
pub proof fn parameters_move_on(tokens: Seq<Token>, state: Cursor, names: Seq<Token>)
    ensures
        parse_parameters(tokens, state, names).state.pos >= state.pos,
    decreases remaining(tokens, state.pos),
{
    reveal(parse_parameters);
    let checked = if names.len() >= MAX_ARITY {
        report(
            state,
            ParseError { line_number: line_at(tokens, state.pos), kind: ParseErrorKind::TooManyParameters },
        )
    } else {
        state
    };
    let name = consume(tokens, checked, TokenType::Identifier, ParseErrorKind::ExpectParameterName);
    if name.result is Ok && kind_at(tokens, name.state.pos) == TokenType::Comma {
        parameters_move_on(tokens, advance(tokens, name.state), names.push(tokens[state.pos]));
    }
}

/// A parameter list ends at or after its start.
pub proof fn parameter_list_moves_on(tokens: Seq<Token>, state: Cursor)
    ensures
        parse_parameter_list(tokens, state).state.pos >= state.pos,
{
    reveal(parse_parameter_list);
    reveal(parse_parameters);
    parameters_move_on(tokens, state, Seq::empty());
}

/// An expression ends at or after its start.
pub proof fn expression_moves_on(tokens: Seq<Token>, state: Cursor)
    ensures
        parse_expression(tokens, state).state.pos >= state.pos,
    decreases remaining(tokens, state.pos), 25nat,
{
    reveal(parse_expression);
    reveal(parse_assignment);
    assignment_moves_on(tokens, state);
}

/// An assignment ends at or after its start.
pub proof fn assignment_moves_on(tokens: Seq<Token>, state: Cursor)
    ensures
        parse_assignment(tokens, state).state.pos >= state.pos,
    decreases remaining(tokens, state.pos), 24nat,
{
    reveal(parse_assignment);
    reveal(parse_level);
    level_moves_on(tokens, state, 6);
    let target = parse_level(tokens, state, 6).since(state);
    if target.result is Ok && kind_at(tokens, target.state.pos) == TokenType::Equal {
        assignment_moves_on(tokens, advance(tokens, target.state));
    }
}

/// The operations of one precedence level end at or after their start.
pub proof fn level_moves_on(tokens: Seq<Token>, state: Cursor, level: nat)
    ensures
        parse_level(tokens, state, level).state.pos >= state.pos,
    decreases remaining(tokens, state.pos), 11 + 2 * level,
{
    reveal(parse_level);
    reveal(parse_unary);
    reveal(parse_level_rest);
    if level == 0 {
        unary_moves_on(tokens, state);
    } else {
        level_moves_on(tokens, state, (level - 1) as nat);
        let left = parse_level(tokens, state, (level - 1) as nat).since(state);
        match left.result {
            Ok(operand) => {
                level_rest_moves_on(tokens, left.state, level, operand);
            },
            Err(_) => {},
        }
    }
}

/// What follows an operand at one precedence level ends at or after its
/// start.
pub proof fn level_rest_moves_on(tokens: Seq<Token>, state: Cursor, level: nat, left: ExprView)
    ensures
        parse_level_rest(tokens, state, level, left).state.pos >= state.pos,
    decreases remaining(tokens, state.pos), 10 + 2 * level,
{
    reveal(parse_level_rest);
    reveal(parse_level);
    if level > 0 && is_operator(level, kind_at(tokens, state.pos)) {
        level_moves_on(tokens, advance(tokens, state), (level - 1) as nat);
        let right = parse_level(tokens, advance(tokens, state), (level - 1) as nat).since(
            advance(tokens, state),
        );
        match right.result {
            Ok(operand) => {
                level_rest_moves_on(
                    tokens,
                    right.state,
                    level,
                    combine(level, left, tokens[state.pos], operand),
                );
            },
            Err(_) => {},
        }
    }
}

/// A unary operation ends at or after its start.
pub proof fn unary_moves_on(tokens: Seq<Token>, state: Cursor)
    ensures
        parse_unary(tokens, state).state.pos >= state.pos,
    decreases remaining(tokens, state.pos), 9nat,
{
    reveal(parse_unary);
    reveal(parse_call);
    if kind_at(tokens, state.pos) == TokenType::Bang || kind_at(tokens, state.pos) == TokenType::Minus {
        unary_moves_on(tokens, advance(tokens, state));
    } else {
        call_moves_on(tokens, state);
    }
}

/// A call ends at or after its start.
pub proof fn call_moves_on(tokens: Seq<Token>, state: Cursor)
    ensures
        parse_call(tokens, state).state.pos >= state.pos,
    decreases remaining(tokens, state.pos), 8nat,
{
    reveal(parse_call);
    reveal(parse_primary);
    reveal(parse_call_rest);
    primary_moves_on(tokens, state);
    let callee = parse_primary(tokens, state).since(state);
    match callee.result {
        Ok(expression) => {
            call_rest_moves_on(tokens, callee.state, expression);
        },
        Err(_) => {},
    }
}

/// The argument lists behind a callee end at or after their start.
pub proof fn call_rest_moves_on(tokens: Seq<Token>, state: Cursor, callee: ExprView)
    ensures
        parse_call_rest(tokens, state, callee).state.pos >= state.pos,
    decreases remaining(tokens, state.pos), 7nat,
{
    reveal(parse_call_rest);
    reveal(parse_finish_call);
    if kind_at(tokens, state.pos) == TokenType::LeftParen {
        finish_call_moves_on(tokens, advance(tokens, state), callee);
        let call = parse_finish_call(tokens, advance(tokens, state), callee).since(advance(tokens, state));
        match call.result {
            Ok(expression) => {
                call_rest_moves_on(tokens, call.state, expression);
            },
            Err(_) => {},
        }
    }
}

/// One argument list ends at or after its start.
pub proof fn finish_call_moves_on(tokens: Seq<Token>, state: Cursor, callee: ExprView)
    ensures
        parse_finish_call(tokens, state, callee).state.pos >= state.pos,
    decreases remaining(tokens, state.pos), 29nat,
{
    reveal(parse_finish_call);
    reveal(parse_argument_list);
    argument_list_moves_on(tokens, state);
}

/// The arguments of a call end at or after their start.
pub proof fn argument_list_moves_on(tokens: Seq<Token>, state: Cursor)
    ensures
        parse_argument_list(tokens, state).state.pos >= state.pos,
    decreases remaining(tokens, state.pos), 28nat,
{
    reveal(parse_argument_list);
    reveal(parse_arguments);
    if kind_at(tokens, state.pos) != TokenType::RightParen {
        arguments_move_on(tokens, state);
    }
}

/// A list of arguments ends at or after its start.
pub proof fn arguments_move_on(tokens: Seq<Token>, state: Cursor)
    ensures
        parse_arguments(tokens, state).state.pos >= state.pos,
    decreases remaining(tokens, state.pos), 27nat,
{
    reveal(parse_arguments);
    reveal(parse_expression);
    reveal(parse_arguments_rest);
    expression_moves_on(tokens, state);
    let first = parse_expression(tokens, state).since(state);
    match first.result {
        Ok(argument) => {
            arguments_rest_moves_on(tokens, first.state, seq![argument]);
        },
        Err(_) => {},
    }
}

/// The arguments behind the first ones end at or after their start.
pub proof fn arguments_rest_moves_on(tokens: Seq<Token>, state: Cursor, list: Seq<ExprView>)
    ensures
        parse_arguments_rest(tokens, state, list).state.pos >= state.pos,
    decreases remaining(tokens, state.pos), 26nat,
{
    reveal(parse_arguments_rest);
    reveal(parse_expression);
    if kind_at(tokens, state.pos) == TokenType::Comma {
        let after = advance(tokens, state);
        let checked = if list.len() >= MAX_ARITY {
            report(
                after,
                ParseError { line_number: line_at(tokens, after.pos), kind: ParseErrorKind::TooManyArguments },
            )
        } else {
            after
        };
        expression_moves_on(tokens, checked);
        let next = parse_expression(tokens, checked).since(checked);
        match next.result {
            Ok(argument) => {
                arguments_rest_moves_on(tokens, next.state, list.push(argument));
            },
            Err(_) => {},
        }
    }
}

/// A primary expression ends at or after its start.
pub proof fn primary_moves_on(tokens: Seq<Token>, state: Cursor)
    ensures
        parse_primary(tokens, state).state.pos >= state.pos,
    decreases remaining(tokens, state.pos), 6nat,
{
    reveal(parse_primary);
    reveal(parse_expression);
    if kind_at(tokens, state.pos) == TokenType::LeftParen {
        expression_moves_on(tokens, advance(tokens, state));
    }
}

/// An expression statement ends at or after its start, and after it
/// where it parses.
pub proof fn expression_statement_moves_on(tokens: Seq<Token>, state: Cursor)
    ensures
        parse_expression_statement(tokens, state).state.pos >= state.pos,
        parse_expression_statement(tokens, state).result is Ok ==> parse_expression_statement(
            tokens,
            state,
        ).state.pos > state.pos,
    decreases remaining(tokens, state.pos), 28nat,
{
    reveal(parse_expression_statement);
    reveal(parse_expression);
    expression_moves_on(tokens, state);
}

/// A print statement ends at or after its start.
pub proof fn print_statement_moves_on(tokens: Seq<Token>, state: Cursor)
    ensures
        parse_print_statement(tokens, state).state.pos >= state.pos,
    decreases remaining(tokens, state.pos), 28nat,
{
    reveal(parse_print_statement);
    reveal(parse_expression);
    expression_moves_on(tokens, state);
}

/// A return statement ends at or after its start.
pub proof fn return_statement_moves_on(tokens: Seq<Token>, state: Cursor)
    ensures
        parse_return_statement(tokens, state).state.pos >= state.pos,
    decreases remaining(tokens, state.pos), 28nat,
{
    reveal(parse_return_statement);
    reveal(parse_expression);
    if kind_at(tokens, state.pos) != TokenType::Semicolon {
        expression_moves_on(tokens, state);
    }
}

/// A variable declaration ends at or after its start.
pub proof fn var_declaration_moves_on(tokens: Seq<Token>, state: Cursor)
    ensures
        parse_var_declaration(tokens, state).state.pos >= state.pos,
    decreases remaining(tokens, state.pos), 28nat,
{
    reveal(parse_var_declaration);
    reveal(parse_expression);
    let name = consume(tokens, state, TokenType::Identifier, ParseErrorKind::ExpectVariableName);
    if name.result is Ok && kind_at(tokens, name.state.pos) == TokenType::Equal {
        expression_moves_on(tokens, advance(tokens, name.state));
    }
}

/// The body of a statement ends at or after its start.
pub proof fn body_moves_on(tokens: Seq<Token>, state: Cursor, error: ParseErrorKind)
    ensures
        parse_body(tokens, state, error).state.pos >= state.pos,
    decreases remaining(tokens, state.pos), 30nat,
{
    reveal(parse_body);
    reveal(parse_statement);
    if kind_at(tokens, state.pos) == TokenType::LeftBrace {
        statement_moves_on(tokens, state);
    }
}

/// A `while` statement ends at or after its start.
pub proof fn while_statement_moves_on(tokens: Seq<Token>, state: Cursor)
    ensures
        parse_while_statement(tokens, state).state.pos >= state.pos,
    decreases remaining(tokens, state.pos), 28nat,
{
    reveal(parse_while_statement);
    reveal(parse_expression);
    reveal(parse_body);
    let open = consume(tokens, state, TokenType::LeftParen, ParseErrorKind::ExpectParenAfterWhile);
    if open.result is Ok {
        expression_moves_on(tokens, open.state);
        let condition = parse_expression(tokens, open.state).since(open.state);
        if condition.result is Ok {
            let close = consume(
                tokens,
                condition.state,
                TokenType::RightParen,
                ParseErrorKind::ExpectParenAfterCondition,
            );
            if close.result is Ok {
                body_moves_on(tokens, close.state, ParseErrorKind::ExpectBraceBeforeWhileBody);
            }
        }
    }
}

/// An `else` branch ends at or after its start.
pub proof fn else_moves_on(tokens: Seq<Token>, state: Cursor)
    ensures
        parse_else(tokens, state).state.pos >= state.pos,
    decreases remaining(tokens, state.pos), 31nat,
{
    reveal(parse_else);
    reveal(parse_body);
    if kind_at(tokens, state.pos) == TokenType::Else {
        body_moves_on(tokens, advance(tokens, state), ParseErrorKind::ExpectBraceBeforeElseBody);
    }
}

/// An `if` statement ends at or after its start.
pub proof fn if_statement_moves_on(tokens: Seq<Token>, state: Cursor)
    ensures
        parse_if_statement(tokens, state).state.pos >= state.pos,
    decreases remaining(tokens, state.pos), 28nat,
{
    reveal(parse_if_statement);
    reveal(parse_expression);
    reveal(parse_body);
    reveal(parse_else);
    let open = consume(tokens, state, TokenType::LeftParen, ParseErrorKind::ExpectParenAfterIf);
    if open.result is Ok {
        expression_moves_on(tokens, open.state);
        let condition = parse_expression(tokens, open.state).since(open.state);
        if condition.result is Ok {
            let close = consume(
                tokens,
                condition.state,
                TokenType::RightParen,
                ParseErrorKind::ExpectParenAfterIfCondition,
            );
            if close.result is Ok {
                body_moves_on(tokens, close.state, ParseErrorKind::ExpectBraceBeforeIfBody);
                let then_branch = parse_body(
                    tokens,
                    close.state,
                    ParseErrorKind::ExpectBraceBeforeIfBody,
                ).since(close.state);
                if then_branch.result is Ok {
                    else_moves_on(tokens, then_branch.state);
                }
            }
        }
    }
}

/// The first clause of a `for` ends at or after its start.
pub proof fn for_initializer_moves_on(tokens: Seq<Token>, state: Cursor)
    ensures
        parse_for_initializer(tokens, state).state.pos >= state.pos,
    decreases remaining(tokens, state.pos), 31nat,
{
    reveal(parse_for_initializer);
    reveal(parse_var_declaration);
    reveal(parse_expression_statement);
    if kind_at(tokens, state.pos) == TokenType::Semicolon {
    } else if kind_at(tokens, state.pos) == TokenType::Var {
        var_declaration_moves_on(tokens, advance(tokens, state));
    } else {
        expression_statement_moves_on(tokens, state);
    }
}

/// A clause of a `for` ends at or after its start.
pub proof fn clause_moves_on(tokens: Seq<Token>, state: Cursor, end: TokenType)
    ensures
        parse_clause(tokens, state, end).state.pos >= state.pos,
    decreases remaining(tokens, state.pos), 31nat,
{
    reveal(parse_clause);
    reveal(parse_expression);
    if kind_at(tokens, state.pos) != end {
        expression_moves_on(tokens, state);
    }
}

/// A `for` statement ends at or after its start.
pub proof fn for_statement_moves_on(tokens: Seq<Token>, state: Cursor)
    ensures
        parse_for_statement(tokens, state).state.pos >= state.pos,
    decreases remaining(tokens, state.pos), 28nat,
{
    reveal(parse_for_statement);
    reveal(parse_for_initializer);
    reveal(parse_clause);
    reveal(parse_body);
    let open = consume(tokens, state, TokenType::LeftParen, ParseErrorKind::ExpectParenAfterFor);
    if open.result is Ok {
        for_initializer_moves_on(tokens, open.state);
        let initializer = parse_for_initializer(tokens, open.state).since(open.state);
        if initializer.result is Ok {
            clause_moves_on(tokens, initializer.state, TokenType::Semicolon);
            let condition = parse_clause(tokens, initializer.state, TokenType::Semicolon).since(
                initializer.state,
            );
            if condition.result is Ok {
                let semicolon = consume(
                    tokens,
                    condition.state,
                    TokenType::Semicolon,
                    ParseErrorKind::ExpectSemicolonAfterLoopCondition,
                );
                if semicolon.result is Ok {
                    clause_moves_on(tokens, semicolon.state, TokenType::RightParen);
                    let increment = parse_clause(tokens, semicolon.state, TokenType::RightParen).since(
                        semicolon.state,
                    );
                    if increment.result is Ok {
                        let close = consume(
                            tokens,
                            increment.state,
                            TokenType::RightParen,
                            ParseErrorKind::ExpectParenAfterForClauses,
                        );
                        if close.result is Ok {
                            body_moves_on(tokens, close.state, ParseErrorKind::ExpectBraceBeforeForBody);
                        }
                    }
                }
            }
        }
    }
}

/// A function declaration ends at or after its start.
pub proof fn function_moves_on(tokens: Seq<Token>, state: Cursor)
    ensures
        parse_function(tokens, state).state.pos >= state.pos,
    decreases remaining(tokens, state.pos), 28nat,
{
    reveal(parse_function);
    reveal(parse_parameter_list);
    reveal(parse_block);
    let name = consume(tokens, state, TokenType::Identifier, ParseErrorKind::ExpectFunctionName);
    if name.result is Ok {
        let open = consume(
            tokens,
            name.state,
            TokenType::LeftParen,
            ParseErrorKind::ExpectParenAfterFunctionName,
        );
        if open.result is Ok {
            parameter_list_moves_on(tokens, open.state);
            let parameters = parse_parameter_list(tokens, open.state).since(open.state);
            if parameters.result is Ok {
                let close = consume(
                    tokens,
                    parameters.state,
                    TokenType::RightParen,
                    ParseErrorKind::ExpectParenAfterParameters,
                );
                if close.result is Ok {
                    let brace = consume(
                        tokens,
                        close.state,
                        TokenType::LeftBrace,
                        ParseErrorKind::ExpectBraceBeforeFunctionBody,
                    );
                    if brace.result is Ok {
                        block_moves_on(tokens, brace.state, Seq::empty());
                    }
                }
            }
        }
    }
}

/// A block ends at or after its start.
pub proof fn block_moves_on(tokens: Seq<Token>, state: Cursor, list: Seq<StmtView>)
    ensures
        parse_block(tokens, state, list).state.pos >= state.pos,
    decreases remaining(tokens, state.pos), 40nat,
{
    reveal(parse_block);
    reveal(parse_declaration);
    if !(kind_at(tokens, state.pos) == TokenType::RightBrace || kind_at(tokens, state.pos) == TokenType::Eof) {
        declaration_moves_on(tokens, state);
        let declaration = parse_declaration(tokens, state).past(state);
        match declaration.result {
            Ok(statement) => {
                block_moves_on(tokens, declaration.state, list.push(statement));
            },
            Err(_) => {},
        }
    }
}

/// A statement ends at or after its start, and after it where it parses.
pub proof fn statement_moves_on(tokens: Seq<Token>, state: Cursor)
    ensures
        parse_statement(tokens, state).state.pos >= state.pos,
        parse_statement(tokens, state).result is Ok ==> parse_statement(tokens, state).state.pos > state.pos,
    decreases remaining(tokens, state.pos), 29nat,
{
    reveal(parse_statement);
    reveal(parse_for_statement);
    reveal(parse_if_statement);
    reveal(parse_print_statement);
    reveal(parse_return_statement);
    reveal(parse_while_statement);
    reveal(parse_block);
    reveal(parse_expression_statement);
    let kind = kind_at(tokens, state.pos);
    let after = advance(tokens, state);
    if kind == TokenType::For {
        for_statement_moves_on(tokens, after);
    } else if kind == TokenType::If {
        if_statement_moves_on(tokens, after);
    } else if kind == TokenType::Print {
        print_statement_moves_on(tokens, after);
    } else if kind == TokenType::Return {
        return_statement_moves_on(tokens, after);
    } else if kind == TokenType::While {
        while_statement_moves_on(tokens, after);
    } else if kind == TokenType::LeftBrace {
        block_moves_on(tokens, after, Seq::empty());
    } else {
        expression_statement_moves_on(tokens, state);
    }
}

/// A declaration ends at or after its start, and passes a token where
/// there is one, whether it parses or fails.
pub proof fn declaration_moves_on(tokens: Seq<Token>, state: Cursor)
    ensures
        parse_declaration(tokens, state).state.pos >= state.pos,
        kind_at(tokens, state.pos) != TokenType::Eof ==> parse_declaration(tokens, state).state.pos
            > state.pos,
    decreases remaining(tokens, state.pos), 32nat,
{
    reveal(parse_declaration);
    reveal(parse_function);
    reveal(parse_var_declaration);
    reveal(parse_statement);
    let kind = kind_at(tokens, state.pos);
    let parsed = if kind == TokenType::Fun {
        function_moves_on(tokens, advance(tokens, state));
        parse_function(tokens, advance(tokens, state))
    } else if kind == TokenType::Var {
        var_declaration_moves_on(tokens, advance(tokens, state));
        parse_var_declaration(tokens, advance(tokens, state))
    } else {
        statement_moves_on(tokens, state);
        parse_statement(tokens, state)
    };
    recovery_moves_on(tokens, parsed.state);
}

/// Every phrase that follows another starts where the grammar says
/// without `since` or `past`: the two leave the outcome of a declaration
/// at a token, and of every other phrase, as it is.
pub proof fn phrases_follow_without_adjustment(tokens: Seq<Token>, state: Cursor)
    ensures
        parse_expression(tokens, state).since(state) == parse_expression(tokens, state),
        parse_statement(tokens, state).since(state) == parse_statement(tokens, state),
        parse_declaration(tokens, state).since(state) == parse_declaration(tokens, state),
        kind_at(tokens, state.pos) != TokenType::Eof ==> parse_declaration(tokens, state).past(state)
            == parse_declaration(tokens, state),
{
    expression_moves_on(tokens, state);
    statement_moves_on(tokens, state);
    declaration_moves_on(tokens, state);
}

/// The parser never leaves the position before its start: a program ends
/// at or after the position at which it starts.
pub proof fn program_moves_on(tokens: Seq<Token>, state: Cursor, list: Seq<StmtView>)
    ensures
        parse_program(tokens, state, list).pos >= state.pos,
    decreases remaining(tokens, state.pos),
{
    reveal(parse_program);
    reveal(parse_declaration);
    if kind_at(tokens, state.pos) != TokenType::Eof {
        declaration_moves_on(tokens, state);
        let declaration = parse_declaration(tokens, state).past(state);
        match declaration.result {
            Err(error) => {
                program_moves_on(tokens, report(declaration.state, error), list);
            },
            Ok(statement) => {
                program_moves_on(tokens, declaration.state, list.push(statement));
            },
        }
    }
}

} // verus!
