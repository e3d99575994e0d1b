use lox::interpreter::Interpreter;
use lox::interpreter::Request;
use lox::machine::Answer;
use lox::parser::Parser;
use lox::scanner::parse_tokens;
use lox::values::ArithmeticOp;
use lox::values::Number;

/// What running a program gave: the lines printed, the diagnostics, and
/// the exit code.
struct Output {
    stdout: String,
    stderr: String,
    code: i32,
}

impl Output {
    fn success(&self) -> bool {
        self.code == 0
    }
}

fn number(value: f64) -> Answer {
    Answer::Number(Number { bits: value.to_bits() })
}

/// Scans, parses and runs `source`, doing for the interpreter what it asks.
fn interpret(source: &str) -> Output {
    let mut stdout = String::new();
    let mut stderr = String::new();
    let (tokens, lexical, code) = parse_tokens(&source.to_string());
    if code != 0 {
        for error in &lexical {
            stderr.push_str(&error.message());
            stderr.push('\n');
        }
        return Output { stdout, stderr, code };
    }
    let mut parser = Parser::new(&tokens);
    parser.parse();
    if !parser.errors.is_empty() {
        for error in &parser.errors {
            stderr.push_str(&error.message());
            stderr.push('\n');
        }
        return Output { stdout, stderr, code: 65 };
    }
    let mut interpreter = Interpreter::new(&parser.stmts);
    let mut answer = Answer::Nothing;
    let mut rounds = 0;
    loop {
        rounds += 1;
        assert!(rounds < 1_000_000, "the program does not end");
        let request = interpreter.interpret(answer, 1000);
        answer = Answer::Nothing;
        match request {
            Request::Continue => {}
            Request::PrintText(text) => {
                stdout.push_str(&text);
                stdout.push('\n');
            }
            Request::PrintNumber(value) => {
                stdout.push_str(&format!("{}\n", f64::from_bits(value.bits)));
            }
            Request::Decode(numeral) => {
                answer = number(numeral.parse().unwrap());
            }
            Request::Arithmetic(operation, left, right) => {
                let l = f64::from_bits(left.bits);
                let r = f64::from_bits(right.bits);
                answer = number(match operation {
                    ArithmeticOp::Add => l + r,
                    ArithmeticOp::Subtract => l - r,
                    ArithmeticOp::Multiply => l * r,
                    ArithmeticOp::Divide => l / r,
                });
            }
            Request::Clock => {
                answer = number(1_700_000_000.5);
            }
            Request::Finished => break,
        }
    }
    for error in &interpreter.errors {
        stderr.push_str(error);
        stderr.push('\n');
    }
    let code = if interpreter.errors.is_empty() { 0 } else { 70 };
    Output { stdout, stderr, code }
}

#[test]
fn test_if_condition_error_without_paren() {
    let content = r#"
    if true == !nil {
        print "Not none";
    }
    "#;
    let output = interpret(content.trim());

    let expected = r#"
[line 1] Expect '(' after 'if'.
[line 3] Expect expression.
    "#;

    assert_ne!(output.success(), true);
    assert_eq!(output.stderr.trim(), expected.trim());
}

#[test]
fn test_if_condition_error_without_brace() {
    let content = r#"
    if (true == !nil) 
        print "Not none";
    "#;
    let output = interpret(content.trim());

    let expected = r#"
[line 2] Expect { before if body
    "#;

    assert_ne!(output.success(), true);
    assert_eq!(output.stderr.trim(), expected.trim());
}

#[test]
fn test_if_condition_success() {
    let content = r#"
    if (true == !nil) {
        print "Not none";
    }
    "#;
    let output = interpret(content.trim());

    let expected = r#"
Not none
    "#;

    assert_eq!(output.success(), true);
    assert_eq!(output.stdout.trim(), expected.trim());
}

#[test]
fn test_logical_operators_success() {
    let content = r#"
    print "hi" or 2;
    print nil or "yes";
    print 1 and 0;
    print 1 and 1;
    "#;
    let output = interpret(content.trim());
    let expected = r#"
hi
yes
0
1
    "#;

    assert_eq!(output.success(), true);
    assert_eq!(output.stdout.trim(), expected.trim());
}

#[test]
fn test_while_loop_success() {
    let content = r#"
    var condition = 0;
    while (condition <= 5) {
        print condition;
        condition = condition + 1;
    }
    "#;
    let output = interpret(content.trim());
    let expected = r#"
0
1
2
3
4
5
    "#;

    assert_eq!(output.success(), true);
    assert_eq!(output.stdout.trim(), expected.trim());
}

#[test]
fn test_for_loop_success() {
    let content = r#"
    for (var i = 0; i < 3; i = i + 1) {
        print i;
    }
    "#;
    let output = interpret(content.trim());
    let expected = r#"
0
1
2
    "#;

    assert_eq!(output.success(), true);
    assert_eq!(output.stdout.trim(), expected.trim());
}

#[test]
fn test_for_loop_error() {
    let content = r#"
    for (var i = 0; i < 3; i = i + 1) {
        print i;
    }
    print i;
    "#;
    let output = interpret(content.trim());
    let expected = r#"
[line 4] Undefined variable 'i'.
    "#;

    assert_ne!(output.success(), true);
    assert_eq!(output.stderr.trim(), expected.trim());
    assert_eq!(output.stdout, "0\n1\n2\n");
    assert_eq!(output.code, 70);
}

#[test]
fn test_func_without_brace_error() {
    let content = r#"
        fun add a, b) {
            print a + b;
        }
        "#;

    let output = interpret(content);
    assert_eq!(output.success(), false);
    assert_eq!(output.stdout.is_empty(), true);
    assert_eq!(output.stderr.is_empty(), false);
}

#[test]
fn test_func_without_parent_error() {
    let content = r#"
        fun add(a, b) 
            print a + b;
        "#;

    let output = interpret(content);
    assert_eq!(output.success(), false);
    assert_eq!(output.stdout.is_empty(), true);
    assert_eq!(output.stderr.is_empty(), false);
}

#[test]
fn test_func_return_none_successful() {
    let content = r#"
        fun add(a, b) {
            print a + b;
        }
        var res = add(1, 2);
        print res;
        "#;

    let output = interpret(content.trim());

    assert_eq!(output.success(), true);
    assert_eq!(output.stdout.trim().contains("3"), true);
    assert_eq!(output.stdout.trim().contains("nil"), true);
    assert_eq!(output.stderr.is_empty(), true);
}

#[test]
fn test_func_return_result_successful() {
    let content = r#"
        fun add(a, b) {
            return a + b;
        }
        var res = add(1, 2);
        print res;
        "#;

    let output = interpret(content.trim());

    assert_eq!(output.success(), true);
    assert_eq!(output.stdout.trim().contains("3"), true);
    assert_eq!(output.stdout.trim().contains("nil"), false);
    assert_eq!(output.stderr.is_empty(), true);
}

#[test]
fn test_print_func() {
    let content = r#"
        var n = "Hello, tests!";
        print n;
        "#;
    let output = interpret(content);

    let expected_stdout = "Hello, tests!\n";

    assert_eq!(output.success(), true);
    assert_eq!(output.stdout, expected_stdout);
    assert_eq!(output.stderr.is_empty(), true);
}

#[test]
fn test_global_scopes() {
    let content = r#"
        var a = "global a";
        var b = "global b";
        var c = "global c";
            {
                var a = "outer a";
                var b = "outer b";
                    {
                        var a = "inner a";
                        print a;
                        print b;
                        print c;
                    }
                print a;
                print b;
                print c;
            }
        print a;
        print b;
        print c;
    "#;
    let output = interpret(content.trim());
    let expected_stdout = r#"
inner a
outer b
global c
outer a
outer b
global c
global a
global b
global c
    "#;

    assert_eq!(output.success(), true);
    assert_eq!(output.stdout.trim(), expected_stdout.trim());
    assert_eq!(output.stderr.is_empty(), true);
}

#[test]
fn test_error_after_local_scope() {
    let content = r#"
    {
        var calculated = (1234 * (1456/ 44 + (1987 - 264)) / 34);
        var is_true = true == !nil;
        print calculated;
        print is_true;
        print (true == !"") == (!false);
    }
    print calculated;
    print is_true;
    "#;

    let output = interpret(content.trim());
    let expected = r#"
[line 8] Undefined variable 'calculated'.
[line 9] Undefined variable 'is_true'.
    "#;

    assert_eq!(output.code, 70);
    assert_eq!(output.stderr.trim(), expected.trim());
}

#[test]
fn function_returns_the_sum() {
    let output = interpret("fun add(a,b) { return a + b; }\nvar res = add(1, 2);\nprint res;\n");
    assert_eq!(output.stdout, "3\n");
    assert_eq!(output.code, 0);
}

#[test]
fn recursive_fibonacci() {
    let output = interpret(
        "fun fib(n) { if (n < 2) { return n; } return fib(n-1) + fib(n-2); }\nprint fib(10);\n",
    );
    assert_eq!(output.stdout, "55\n");
    assert_eq!(output.stderr, "");
    assert_eq!(output.code, 0);
}

fn stdout(source: &str) -> String {
    let output = interpret(source);
    assert_eq!(output.stderr, "");
    assert_eq!(output.code, 0);
    output.stdout
}

fn stderr(source: &str) -> String {
    let output = interpret(source);
    assert_eq!(output.code, 70);
    output.stderr
}

#[test]
fn values_print_as_their_texts() {
    assert_eq!(stdout("print nil; print true; print false; print \"a b\"; print \"\";"), "nil\ntrue\nfalse\na b\n\n");
    assert_eq!(stdout("print 3; print 3.0; print 0.5; print 2.50; print -1; print 100;"), "3\n3\n0.5\n2.5\n-1\n100\n");
    assert_eq!(stdout("fun add(a, b) {} print add; print clock;"), "<fn add>\n<fn clock>\n");
}

#[test]
fn arithmetic_follows_floating_point() {
    assert_eq!(stdout("print 1 + 2 * 3 - 4 / 8;"), "6.5\n");
    assert_eq!(stdout("print (1 + 2) * 3;"), "9\n");
    assert_eq!(stdout("print 0.1 + 0.2;"), "0.30000000000000004\n");
    assert_eq!(stdout("print 1 / 0; print -1 / 0; print 0 / 0 == 0 / 0;"), "inf\n-inf\nfalse\n");
    assert_eq!(stdout("print 7 / 2; print -7 / 2; print --7;"), "3.5\n-3.5\n7\n");
    assert_eq!(stdout("print 1234 * (1456/ 44 + (1987 - 264)) / 34;"), format!("{}\n", 1234.0 * (1456.0 / 44.0 + (1987.0 - 264.0)) / 34.0));
}

#[test]
fn strings_join_and_compare() {
    assert_eq!(stdout("print \"foo\" + \"bar\"; print \"a\" < \"b\"; print \"b\" <= \"a\"; print \"a\" == \"a\";"), "foobar\ntrue\nfalse\ntrue\n");
}

#[test]
fn equality_and_truthiness() {
    assert_eq!(stdout("print nil == nil; print nil == false; print 1 == 1; print 1 != 2; print \"1\" == 1;"), "true\nfalse\ntrue\ntrue\nfalse\n");
    assert_eq!(stdout("print !nil; print !false; print !0; print !\"\"; print !clock; print !!nil;"), "true\ntrue\nfalse\nfalse\nfalse\nfalse\n");
    assert_eq!(stdout("print (true == !\"\") == (!false);"), "false\n");
    assert_eq!(stdout("if (0) { print \"zero is truthy\"; } if (\"\") { print \"so is the empty string\"; }"), "zero is truthy\nso is the empty string\n");
    assert_eq!(stdout("fun f() {} fun g() {} print f == f; print f == g; var h = f; print h == f; print clock == clock;"), "true\nfalse\ntrue\ntrue\n");
}

#[test]
fn logical_operators_give_an_operand_as_it_is() {
    assert_eq!(stdout("print \"hi\" or 2; print nil or \"yes\"; print 1 and 0; print 1 and 1;"), "hi\nyes\n0\n1\n");
    assert_eq!(stdout("print nil and 1; print false or nil; print false and 1 or 2; print 1 or 2 and 3;"), "nil\nnil\n2\n1\n");
}

#[test]
fn logical_operators_skip_the_operand_that_cannot_matter() {
    let source = r#"
        var calls = 0;
        fun touch(value) { calls = calls + 1; return value; }
        print true or touch(1);
        print calls;
        print false and touch(2);
        print calls;
        print false or touch(3);
        print calls;
        print true and touch(4);
        print calls;
        print touch(nil) or touch(false) or touch(5) or touch(6);
        print calls;
    "#;
    assert_eq!(stdout(source), "true\n0\nfalse\n0\n3\n1\n4\n2\n5\n5\n");
}

#[test]
fn variables_and_assignment() {
    assert_eq!(stdout("var a; print a; a = 1; print a; var b = a = 2; print a + b; var a = \"again\"; print a;"), "nil\n1\n4\nagain\n");
    assert_eq!(stdout("var a = 1; { a = 2; var a = 3; a = 4; print a; } print a;"), "4\n2\n");
}

#[test]
fn if_and_else() {
    assert_eq!(stdout("if (1 < 2) { print \"then\"; } else { print \"else\"; }"), "then\n");
    assert_eq!(stdout("if (1 > 2) { print \"then\"; } else { print \"else\"; }"), "else\n");
    assert_eq!(stdout("if (nil) { print \"then\"; } print \"after\";"), "after\n");
}

#[test]
fn loops() {
    assert_eq!(stdout("var i = 0; while (i < 3) { print i; i = i + 1; } print i;"), "0\n1\n2\n3\n");
    assert_eq!(stdout("while (false) { print 1; } print 2;"), "2\n");
    assert_eq!(stdout("var n = 0; for (var i = 0; i < 1000; i = i + 1) { n = n + i; } print n;"), "499500\n");
    assert_eq!(stdout("var i = 5; for (; i > 3;) { i = i - 1; var i = 100; } print i;"), "3\n");
    assert_eq!(stdout("for (var i = 0; i < 2; i = i + 1) { for (var j = 0; j < 2; j = j + 1) { print i * 10 + j; } }"), "0\n1\n10\n11\n");
}

#[test]
fn functions_return_values() {
    assert_eq!(stdout("fun f() { return 1; print 2; } print f();"), "1\n");
    assert_eq!(stdout("fun f() { return; } print f();"), "nil\n");
    assert_eq!(stdout("fun f() { } print f();"), "nil\n");
    assert_eq!(stdout("fun f(n) { while (true) { if (n > 3) { return n; } n = n + 1; } } print f(0) + f(10);"), "14\n");
    assert_eq!(stdout("fun f(a, b) { return a + b; } print f(f(1, 2), f(3, 4)) * 2;"), "20\n");
    assert_eq!(stdout("fun f(a) { { { return a; } } } var x = 1; { var y = 2; print f(y) + x; print y; }"), "3\n2\n");
}

#[test]
fn arguments_are_evaluated_from_left_to_right() {
    let source = r#"
        fun show(value) { print value; return value; }
        fun three(a, b, c) { return a + b + c; }
        print three(show("a"), show("b"), show("c"));
        print show(1) - show(2) * show(3);
    "#;
    assert_eq!(stdout(source), "a\nb\nc\nabc\n1\n2\n3\n-5\n");
}

#[test]
fn recursion() {
    assert_eq!(stdout("fun fact(n) { if (n <= 1) { return 1; } return n * fact(n - 1); } print fact(10);"), "3628800\n");
    assert_eq!(stdout("fun even(n) { if (n == 0) { return true; } return odd(n - 1); } fun odd(n) { if (n == 0) { return false; } return even(n - 1); } print even(10); print odd(7); print even(3);"), "true\ntrue\nfalse\n");
    assert_eq!(stdout("fun down(n) { if (n > 0) { down(n - 1); } print n; } down(3000); print \"done\";").lines().count(), 3002);
}

#[test]
fn closures_see_the_scope_of_their_declaration() {
    let source = r#"
        fun counter() {
            var count = 0;
            fun next() { count = count + 1; return count; }
            return next;
        }
        var first = counter();
        var second = counter();
        print first();
        print first();
        print second();
        print first();
    "#;
    assert_eq!(stdout(source), "1\n2\n1\n3\n");
    let source = r#"
        var a = "global";
        {
            fun show() { print a; }
            show();
            var a = "block";
            show();
            a = "changed";
            show();
        }
    "#;
    assert_eq!(stdout(source), "global\nblock\nchanged\n");
    let source = r#"
        var x = "outside";
        fun outer() {
            var x = "captured";
            fun inner() { return x; }
            x = "changed after the declaration";
            return inner;
        }
        var f = outer();
        { var x = "at the call"; print f(); }
    "#;
    assert_eq!(stdout(source), "changed after the declaration\n");
    let source = r#"
        fun make(n) { fun add(m) { return n + m; } return add; }
        var add2 = make(2);
        var add5 = make(5);
        print add2(1) + add5(1);
        print make(10)(20);
    "#;
    assert_eq!(stdout(source), "9\n30\n");
}

#[test]
fn a_call_runs_in_its_own_scope() {
    let source = r#"
        var a = "global";
        fun f(a) { a = "parameter"; var b = "local"; return a; }
        print f(1);
        print a;
        print b;
    "#;
    let output = interpret(source.trim());
    assert_eq!(output.stdout, "parameter\nglobal\n");
    assert_eq!(output.stderr, "[line 5] Undefined variable 'b'.\n");
    assert_eq!(output.code, 70);
}

#[test]
fn every_runtime_error_has_an_input() {
    assert_eq!(stderr("print a;"), "[line 1] Undefined variable 'a'.\n");
    assert_eq!(stderr("\n\na = 1;"), "[line 3] Undefined variable 'a'.\n");
    assert_eq!(stderr("print 1 - \"a\";"), "[line 1] Operands must be numbers.\n");
    assert_eq!(stderr("print nil * 2;"), "[line 1] Operands must be numbers.\n");
    assert_eq!(stderr("print true / false;"), "[line 1] Operands must be numbers.\n");
    assert_eq!(stderr("print 1 + \"a\";"), "[line 1] Operands must be two numbers or two strings.\n");
    assert_eq!(stderr("print \"a\" < 1;"), "[line 1] Operands must be two numbers or two strings.\n");
    assert_eq!(stderr("print nil >= nil;"), "[line 1] Operands must be two numbers or two strings.\n");
    assert_eq!(stderr("print -\"a\";"), "[line 1] Operand must be a number.\n");
    assert_eq!(stderr("print -nil;"), "[line 1] Operand must be a number.\n");
    assert_eq!(stderr("\"text\"();"), "[line 1] Can only call functions and classes.\n");
    assert_eq!(stderr("var a = 1;\na(\n2\n);"), "[line 4] Can only call functions and classes.\n");
    assert_eq!(stderr("nil();"), "[line 1] Can only call functions and classes.\n");
    assert_eq!(stderr("fun f(a, b) {} f(1);"), "[line 1] Expected 2 arguments, but got 1.\n");
    assert_eq!(stderr("fun f() {} f(1, 2, 3);"), "[line 1] Expected 0 arguments, but got 3.\n");
    assert_eq!(stderr("clock(1);"), "[line 1] Expected 0 arguments, but got 1.\n");
}

#[test]
fn an_error_gives_up_the_statement_and_execution_goes_on() {
    let source = "print 1;\nprint 2 + nil;\nprint 3;\n{ print 4; print missing; print 5; }\nprint 6;";
    let output = interpret(source);
    assert_eq!(output.stdout, "1\n3\n4\n6\n");
    assert_eq!(output.stderr, "[line 2] Operands must be two numbers or two strings.\n[line 4] Undefined variable 'missing'.\n");
    assert_eq!(output.code, 70);
}

#[test]
fn an_error_in_a_function_passes_the_call() {
    let source = "var a = \"kept\";\nfun f() { var a = 1; print a + nil; print \"not reached\"; }\n{ var b = f(); print \"nor this\"; }\nprint a;";
    let output = interpret(source);
    assert_eq!(output.stdout, "kept\n");
    assert_eq!(output.stderr, "[line 2] Operands must be two numbers or two strings.\n");
}

#[test]
fn the_operands_are_evaluated_before_the_operator_fails() {
    let source = "fun show(v) { print v; return v; }\nprint show(1) + show(\"a\");";
    let output = interpret(source);
    assert_eq!(output.stdout, "1\na\n");
    assert_eq!(output.stderr, "[line 2] Operands must be two numbers or two strings.\n");
    let source = "fun show(v) { print v; return v; }\nshow(\"callee\")(show(\"argument\"));";
    let output = interpret(source);
    assert_eq!(output.stdout, "callee\nargument\n");
    assert_eq!(output.stderr, "[line 2] Can only call functions and classes.\n");
}

#[test]
fn a_return_outside_a_function_gives_up_the_statement() {
    assert_eq!(stdout("print 1; return 2; print 3;"), "1\n3\n");
    assert_eq!(stdout("{ print 1; return; print 2; } print 3;"), "1\n3\n");
}

#[test]
fn the_clock_is_read_by_the_host() {
    assert_eq!(stdout("print clock();"), "1700000000.5\n");
    assert_eq!(stdout("var start = clock(); print clock() - start;"), "0\n");
}

#[test]
fn lexical_and_parse_errors_end_before_execution() {
    let output = interpret("print 1;\nprint @;");
    assert_eq!(output.stdout, "");
    assert_eq!(output.stderr, "[line 2] Error: Unexpected character: @\n");
    assert_eq!(output.code, 65);
    let output = interpret("print 1;\nprint ;");
    assert_eq!(output.stdout, "");
    assert_eq!(output.stderr, "[line 2] Expect expression.\n");
    assert_eq!(output.code, 65);
}
