use lox::grammar::ParseError;
use lox::grammar::ParseErrorKind;
use lox::parser::Parser;
use lox::scanner::parse_tokens;
use lox::statements::Stmt;

/// The statements of `source` as texts, and the messages of its parse errors.
fn parse(source: &str) -> (Vec<String>, Vec<String>) {
    let (tokens, errors, code) = parse_tokens(&source.to_string());
    assert!(errors.is_empty());
    assert_eq!(code, 0);
    let mut parser = Parser::new(&tokens);
    parser.parse();
    assert_eq!(parser.current, tokens.len() - 1);
    (
        parser.stmts.iter().map(|statement| statement.to_string()).collect(),
        parser.errors.iter().map(|error| error.message()).collect(),
    )
}

fn parsed(source: &str) -> Vec<String> {
    let (statements, errors) = parse(source);
    assert_eq!(errors, Vec::<String>::new());
    statements
}

fn errors(source: &str) -> Vec<String> {
    parse(source).1
}

#[test]
fn an_empty_program_has_no_statement() {
    assert_eq!(parsed(""), Vec::<String>::new());
    assert_eq!(parsed("// nothing\n"), Vec::<String>::new());
}

#[test]
fn literals() {
    assert_eq!(
        parsed("nil; true; false; 1; 2.50; \"text\"; name;"),
        vec![
            "(expr nil)",
            "(expr true)",
            "(expr false)",
            "(expr 1.0)",
            "(expr 2.5)",
            "(expr text)",
            "(expr name)"
        ]
    );
}

#[test]
fn binary_operators_bind_by_precedence() {
    assert_eq!(parsed("1 + 2 * 3;"), vec!["(expr (+ 1.0 (* 2.0 3.0)))"]);
    assert_eq!(parsed("1 * 2 + 3;"), vec!["(expr (+ (* 1.0 2.0) 3.0))"]);
    assert_eq!(parsed("1 < 2 == 3 > 4;"), vec!["(expr (== (< 1.0 2.0) (> 3.0 4.0)))"]);
    assert_eq!(parsed("1 + 2 < 3 - 4;"), vec!["(expr (< (+ 1.0 2.0) (- 3.0 4.0)))"]);
    assert_eq!(parsed("a or b and c;"), vec!["(expr (or a (and b c)))"]);
    assert_eq!(parsed("a and b or c;"), vec!["(expr (or (and a b) c))"]);
    assert_eq!(parsed("a == b and c != d;"), vec!["(expr (and (== a b) (!= c d)))"]);
    assert_eq!(parsed("-a * b;"), vec!["(expr (* (- a) b))"]);
    assert_eq!(parsed("!a == b;"), vec!["(expr (== (! a) b))"]);
}

#[test]
fn binary_operators_associate_to_the_left() {
    assert_eq!(parsed("1 - 2 - 3;"), vec!["(expr (- (- 1.0 2.0) 3.0))"]);
    assert_eq!(parsed("8 / 4 / 2 * 3;"), vec!["(expr (* (/ (/ 8.0 4.0) 2.0) 3.0))"]);
    assert_eq!(parsed("a or b or c;"), vec!["(expr (or (or a b) c))"]);
    assert_eq!(parsed("a and b and c;"), vec!["(expr (and (and a b) c))"]);
    assert_eq!(parsed("1 < 2 <= 3 > 4 >= 5;"), vec!["(expr (>= (> (<= (< 1.0 2.0) 3.0) 4.0) 5.0))"]);
    assert_eq!(parsed("a == b != c;"), vec!["(expr (!= (== a b) c))"]);
}

#[test]
fn unary_operators_nest() {
    assert_eq!(parsed("!!a;"), vec!["(expr (! (! a)))"]);
    assert_eq!(parsed("--1;"), vec!["(expr (- (- 1.0)))"]);
    assert_eq!(parsed("-f(1);"), vec!["(expr (- (call f 1.0)))"]);
}

#[test]
fn grouping() {
    assert_eq!(parsed("(1 + 2) * 3;"), vec!["(expr (* (group (+ 1.0 2.0)) 3.0))"]);
    assert_eq!(parsed("((a));"), vec!["(expr (group (group a)))"]);
}

#[test]
fn assignment_associates_to_the_right() {
    assert_eq!(parsed("a = 1;"), vec!["(expr (= a 1.0))"]);
    assert_eq!(parsed("a = b = c;"), vec!["(expr (= a (= b c)))"]);
    assert_eq!(parsed("a = b or c;"), vec!["(expr (= a (or b c)))"]);
}

#[test]
fn calls() {
    assert_eq!(parsed("f();"), vec!["(expr (call f))"]);
    assert_eq!(parsed("f(1, a + b, g(2));"), vec!["(expr (call f 1.0 (+ a b) (call g 2.0)))"]);
    assert_eq!(parsed("f(1)(2)();"), vec!["(expr (call (call (call f 1.0) 2.0)))"]);
    assert_eq!(parsed("(f)(a = 1);"), vec!["(expr (call (group f) (= a 1.0)))"]);
}

#[test]
fn statements() {
    assert_eq!(parsed("print 1 + 2;"), vec!["(print (+ 1.0 2.0))"]);
    assert_eq!(parsed("var a;"), vec!["(var a)"]);
    assert_eq!(parsed("var a = 1;"), vec!["(var a 1.0)"]);
    assert_eq!(parsed("{}"), vec!["(block)"]);
    assert_eq!(parsed("{ var a = 1; print a; }"), vec!["(block (var a 1.0) (print a))"]);
    assert_eq!(parsed("{ { } }"), vec!["(block (block))"]);
    assert_eq!(parsed("if (a) { print 1; }"), vec!["(if a (block (print 1.0)))"]);
    assert_eq!(
        parsed("if (a) { print 1; } else { print 2; }"),
        vec!["(if a (block (print 1.0)) (block (print 2.0)))"]
    );
    assert_eq!(parsed("while (a < 3) { a = a + 1; }"), vec!["(while (< a 3.0) (block (expr (= a (+ a 1.0)))))"]);
    assert_eq!(parsed("return;"), vec!["(return)"]);
    assert_eq!(parsed("return a;"), vec!["(return a)"]);
    assert_eq!(parsed("fun f() {}"), vec!["(fun f ())"]);
    assert_eq!(parsed("fun f(a) { return a; }"), vec!["(fun f (a) (return a))"]);
    assert_eq!(
        parsed("fun add(a, b, c) { print a; return b + c; }"),
        vec!["(fun add (a b c) (print a) (return (+ b c)))"]
    );
}

#[test]
fn a_for_loop_stands_for_a_while_loop() {
    assert_eq!(
        parsed("for (var i = 0; i < 3; i = i + 1) { print i; }"),
        vec!["(block (var i 0.0) (while (< i 3.0) (block (block (print i)) (expr (= i (+ i 1.0))))))"]
    );
    assert_eq!(parsed("for (;;) {}"), vec!["(while true (block))"]);
    assert_eq!(parsed("for (; a;) {}"), vec!["(while a (block))"]);
    assert_eq!(parsed("for (i = 0;;) {}"), vec!["(block (expr (= i 0.0)) (while true (block)))"]);
    assert_eq!(parsed("for (;; i = 1) {}"), vec!["(while true (block (block) (expr (= i 1.0))))"]);
}

#[test]
fn statements_keep_their_tokens() {
    let (tokens, _, _) = parse_tokens(&"var a = 1;\nfun f(x) {\n return\n x; }".to_string());
    let mut parser = Parser::new(&tokens);
    parser.parse();
    assert!(parser.errors.is_empty());
    match &parser.stmts[0] {
        Stmt::Var(name, Some(_)) => {
            assert_eq!(name.name, "a");
            assert_eq!(name.line_number, 1);
        }
        other => panic!("no declaration: {:?}", other),
    }
    match &parser.stmts[1] {
        Stmt::Function(name, parameters, body) => {
            assert_eq!(name.name, "f");
            assert_eq!(parameters.len(), 1);
            assert_eq!(parameters[0].name, "x");
            match &body[0] {
                Stmt::Return(keyword, Some(_)) => {
                    assert_eq!(keyword.name, "return");
                    assert_eq!(keyword.line_number, 3);
                }
                other => panic!("no return: {:?}", other),
            }
        }
        other => panic!("no function: {:?}", other),
    }
}

#[test]
fn every_error_has_an_input() {
    let cases = [
        ("fun (a) {}", "[line 1] Expect function name."),
        ("fun f a) {}", "[line 1] Expect '(' after function name."),
        ("fun f(1) {}", "[line 1] Expect parameter name."),
        ("fun f(a, ) {}", "[line 1] Expect parameter name."),
        ("fun f(a b) {}", "[line 1] Expect ')' after parameters."),
        ("fun f(a)\nprint a;", "[line 1] Expect '{' before function body."),
        ("var 1 = 2;", "[line 1] Expect variable name."),
        ("var a = 1\n", "[line 1] Expect ';' after variable declaration."),
        ("for var i = 0;;) {}", "[line 1] Expect '(' after 'for'."),
        ("for (;true) {}", "[line 1] Expect ';' after loop condition."),
        ("for (;;i = 1 {}", "[line 1] Expect ')' after for clauses."),
        ("for (;;)\n print 1;", "[line 2] Expect { before for body"),
        ("if true) {}", "[line 1] Expect '(' after 'if'."),
        ("if (true {}", "[line 1] Expect ')' after 'if' condition."),
        ("if (true)\n\nprint 1;", "[line 3] Expect { before if body"),
        ("if (true) {}\nelse\nprint 1;", "[line 3] Expect { before else body"),
        ("print 1", "[line 1] Expect ';' after value."),
        ("1 + 2", "[line 1] Expect ';' after value."),
        ("return 1", "[line 1] Expect ';' after return value."),
        ("while true {}", "[line 1] Expect '(' after 'while'."),
        ("while (true {}", "[line 1] Expect ')' after condition."),
        ("while (true) print 1;", "[line 1] Expect { before while body"),
        ("{ print 1;", "[line 1] Expect '}' after block."),
        ("1 = 2;", "[line 1] Invalid assignment target."),
        ("a + b = 2;", "[line 1] Invalid assignment target."),
        ("(a) = 2;", "[line 1] Invalid assignment target."),
        ("f(1;", "[line 1] Expect ')' after arguments."),
        ("(1;", "[line 1] Expect ')' after expression."),
        (");", "[line 1] found not expected ')'"),
        (";", "[line 1] Expect expression."),
        ("1 +\n\n;", "[line 3] Expect expression."),
        ("print\n*;", "[line 2] Expect expression."),
    ];
    for (source, message) in cases {
        let found = errors(source);
        assert!(!found.is_empty(), "{:?}", source);
        assert_eq!(found[0], message, "{:?}", source);
    }
}

#[test]
fn messages_of_errors() {
    let error = ParseError { line_number: 12, kind: ParseErrorKind::TooManyParameters };
    assert_eq!(error.message(), "[line 12] Can't have more than 255 parameters.");
    let error = ParseError { line_number: 0, kind: ParseErrorKind::TooManyArguments };
    assert_eq!(error.message(), "[line 0] Can't have more than 255 arguments.");
    let error = ParseError { line_number: 1000000, kind: ParseErrorKind::ExpectBraceAfterBlock };
    assert_eq!(error.message(), "[line 1000000] Expect '}' after block.");
    assert_eq!(ParseErrorKind::ExpectExpression.text(), "Expect expression.");
}

#[test]
fn recovery_goes_on_behind_a_semicolon_or_before_a_statement() {
    let (statements, messages) = parse("var = 1; print 2;\nprint ; print 4;\nvar a = (1 2 print 5;");
    assert_eq!(
        messages,
        vec![
            "[line 1] Expect variable name.",
            "[line 2] Expect expression.",
            "[line 3] Expect ')' after expression."
        ]
    );
    assert_eq!(statements, vec!["(print 2.0)", "(print 4.0)", "(print 5.0)"]);
}

#[test]
fn recovery_passes_the_token_at_which_it_starts() {
    let (statements, messages) = parse("var a = (1 print 5; print 6;");
    assert_eq!(messages, vec!["[line 1] Expect ')' after expression."]);
    assert_eq!(statements, vec!["(print 6.0)"]);
}

#[test]
fn an_error_in_a_block_ends_the_block() {
    let (statements, messages) = parse("{ print 1; print ; print 2; }\nprint 3;");
    assert_eq!(messages, vec!["[line 1] Expect expression.", "[line 1] Expect expression."]);
    assert_eq!(statements, vec!["(print 3.0)"]);
}

#[test]
fn missing_paren_after_if_is_reported_with_what_follows() {
    let source = "if true == !nil {\n        print \"Not none\";\n    }";
    let (statements, messages) = parse(source);
    assert_eq!(messages, vec!["[line 1] Expect '(' after 'if'.", "[line 3] Expect expression."]);
    assert_eq!(statements, vec!["(print Not none)"]);
}

fn call_with_arguments(count: usize) -> String {
    let arguments: Vec<String> = (0..count).map(|index| format!("a{}", index)).collect();
    format!("f({});", arguments.join(", "))
}

#[test]
fn a_call_may_have_255_arguments() {
    let (statements, messages) = parse(&call_with_arguments(255));
    assert_eq!(messages, Vec::<String>::new());
    assert_eq!(statements.len(), 1);
    assert!(statements[0].ends_with(" a253 a254))"));
}

#[test]
fn an_argument_too_many_is_reported_and_parsing_goes_on() {
    let source = format!("{}\nprint 1;", call_with_arguments(256));
    let (statements, messages) = parse(&source);
    assert_eq!(messages, vec!["[line 1] Can't have more than 255 arguments."]);
    assert_eq!(statements.len(), 2);
    assert!(statements[0].ends_with(" a254 a255))"));
    assert_eq!(statements[1], "(print 1.0)");
    let (_, messages) = parse(&call_with_arguments(258));
    assert_eq!(messages.len(), 3);
}

#[test]
fn a_parameter_too_many_is_reported_and_parsing_goes_on() {
    let parameters: Vec<String> = (0..256).map(|index| format!("p{}", index)).collect();
    let source = format!("fun f({}) {{ }}\nprint 1;", parameters.join(", "));
    let (statements, messages) = parse(&source);
    assert_eq!(messages, vec!["[line 1] Can't have more than 255 parameters."]);
    assert_eq!(statements.len(), 2);
    let parameters: Vec<String> = (0..255).map(|index| format!("p{}", index)).collect();
    let source = format!("fun f({}) {{ }}", parameters.join(", "));
    assert_eq!(errors(&source), Vec::<String>::new());
}

#[test]
fn parsing_twice_gives_the_same() {
    for source in ["var a = 1; print a + 2;", "if true { print 1; } print ; var b", "fun f(a) { return a; } f(1)(2);"] {
        let (tokens, _, _) = parse_tokens(&source.to_string());
        let mut first = Parser::new(&tokens);
        first.parse();
        let mut second = Parser::new(&tokens);
        second.parse();
        let texts = |parser: &Parser| -> Vec<String> { parser.stmts.iter().map(|s| s.to_string()).collect() };
        assert_eq!(texts(&first), texts(&second));
        assert_eq!(first.errors, second.errors);
        assert_eq!(first.current, second.current);
        first.parse();
        assert_eq!(texts(&first), texts(&second));
        assert_eq!(first.errors, second.errors);
    }
}

#[test]
fn tokens_without_a_sentinel_end_where_they_end() {
    let (mut tokens, _, _) = parse_tokens(&"print 1; print".to_string());
    tokens.pop();
    let mut parser = Parser::new(&tokens);
    parser.parse();
    assert_eq!(parser.stmts.len(), 1);
    assert_eq!(parser.errors.len(), 1);
    assert_eq!(parser.errors[0].message(), "[line 0] Expect expression.");
    assert_eq!(parser.current, tokens.len());
    let none = Vec::new();
    let mut parser = Parser::new(&none);
    parser.parse();
    assert!(parser.stmts.is_empty());
    assert!(parser.errors.is_empty());
}

#[test]
fn a_new_parser_stands_at_the_start() {
    let (tokens, _, _) = parse_tokens(&"print 1;".to_string());
    let parser = Parser::new(&tokens);
    assert_eq!(parser.current, 0);
    assert!(parser.stmts.is_empty());
    assert!(parser.errors.is_empty());
    assert_eq!(parser.tokens.len(), 4);
}

#[test]
fn an_expression_parses_on_its_own() {
    let (tokens, _, _) = parse_tokens(&"(1 + 2) * -3 extra".to_string());
    let mut parser = Parser::new(&tokens);
    let expression = parser.expression().unwrap();
    assert_eq!(expression.to_string(), "(* (group (+ 1.0 2.0)) (- 3.0))");
    assert_eq!(parser.current, 8);
    assert!(parser.stmts.is_empty());
    assert!(parser.errors.is_empty());
    let (tokens, _, _) = parse_tokens(&"1 +".to_string());
    let mut parser = Parser::new(&tokens);
    let error = parser.expression().unwrap_err();
    assert_eq!(error.message(), "[line 0] Expect expression.");
    assert!(parser.errors.is_empty());
}
