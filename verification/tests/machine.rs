use lox::callable::Callable;
use lox::errors::ExitCode;
use lox::errors::ValueError;
use lox::expressions::Expr;
use lox::interpreter::Interpreter;
use lox::interpreter::Request;
use lox::lox_func::LoxFunction;
use lox::machine::Answer;
use lox::machine::Frame;
use lox::native_funcs::clock_func::ClockFunction;
use lox::parser::Parser;
use lox::scanner::parse_tokens;
use lox::statements::Stmt;
use lox::tokens::Literal;
use lox::tokens::Token;
use lox::tokens::TokenType;
use lox::values::ArithmeticOp;
use lox::values::Callee;
use lox::values::Number;
use lox::values::Value;

fn program(source: &str) -> Vec<Stmt> {
    let (tokens, errors, _) = parse_tokens(&source.to_string());
    assert!(errors.is_empty());
    let mut parser = Parser::new(&tokens);
    parser.parse();
    assert!(parser.errors.is_empty());
    parser.stmts
}

fn number(value: f64) -> Answer {
    Answer::Number(Number { bits: value.to_bits() })
}

/// Steps until the interpreter asks something of the host.
fn until_request(interpreter: &mut Interpreter, answer: Answer) -> Request {
    let mut answer = answer;
    for _ in 0..10_000 {
        match interpreter.step(answer) {
            Request::Continue => answer = Answer::Nothing,
            request => return request,
        }
    }
    panic!("no request");
}

#[test]
fn exit_codes() {
    assert_eq!(ExitCode::ExitError.code(), 65);
    assert_eq!(ExitCode::RuntimeError.code(), 70);
}

#[test]
fn the_clock_names_itself() {
    assert_eq!(ClockFunction.to_string(), "clock");
    assert_eq!(Callable::to_string(&ClockFunction), "clock");
    assert_eq!(ClockFunction.arity(), 0);
}

#[test]
fn a_function_names_itself() {
    let statements = program("fun add(a, b) { return a + b; }");
    match &statements[0] {
        Stmt::Function(name, parameters, body) => {
            let function = LoxFunction::new(name, parameters, body, 3);
            assert_eq!(function.to_string(), "add");
            assert_eq!(function.arity(), 2);
            assert_eq!(function.closure, 3);
            assert_eq!(function.body.len(), 1);
            assert_eq!(function.token.name, "add");
            assert_eq!(function.params[1].name, "b");
        }
        other => panic!("no function: {:?}", other),
    }
}

#[test]
fn a_new_interpreter_binds_the_clock_and_holds_the_program() {
    let statements = program("print 1;");
    let interpreter = Interpreter::new(&statements);
    assert_eq!(interpreter.current, 0);
    assert_eq!(interpreter.environment.scopes.len(), 1);
    assert_eq!(interpreter.environment.scopes[0].bindings.len(), 1);
    assert_eq!(interpreter.environment.scopes[0].bindings[0].name, "clock");
    assert!(matches!(interpreter.environment.scopes[0].bindings[0].value, Value::Callable(Callee::Clock)));
    assert!(interpreter.functions.is_empty());
    assert!(interpreter.values.is_empty());
    assert!(interpreter.errors.is_empty());
    assert_eq!(interpreter.frames.len(), 1);
    assert!(matches!(interpreter.frames[0], Frame::Program(0)));
}

#[test]
fn an_empty_program_is_finished_at_once() {
    let statements = program("");
    let mut interpreter = Interpreter::new(&statements);
    assert!(matches!(interpreter.step(Answer::Nothing), Request::Finished));
    assert!(matches!(interpreter.step(Answer::Nothing), Request::Finished));
    assert!(matches!(interpreter.interpret(Answer::Nothing, 10), Request::Finished));
    assert_eq!(interpreter.frames.len(), 1);
}

#[test]
fn steps_of_a_print_statement() {
    let statements = program("print \"a\";");
    let mut interpreter = Interpreter::new(&statements);
    assert!(matches!(interpreter.step(Answer::Nothing), Request::Continue));
    assert_eq!(interpreter.frames.len(), 2);
    assert!(matches!(interpreter.frames[0], Frame::Program(1)));
    assert!(matches!(interpreter.frames[1], Frame::Exec(_)));
    assert!(matches!(interpreter.step(Answer::Nothing), Request::Continue));
    assert_eq!(interpreter.frames.len(), 3);
    assert!(matches!(interpreter.frames[1], Frame::Print));
    assert!(matches!(interpreter.frames[2], Frame::Eval(_)));
    assert!(matches!(interpreter.step(Answer::Nothing), Request::Continue));
    assert_eq!(interpreter.values.len(), 1);
    match interpreter.step(Answer::Nothing) {
        Request::PrintText(text) => assert_eq!(text, "a"),
        other => panic!("no print: {:?}", other),
    }
    assert!(interpreter.values.is_empty());
    assert_eq!(interpreter.frames.len(), 1);
    assert!(matches!(interpreter.step(Answer::Nothing), Request::Finished));
}

#[test]
fn a_budget_bounds_the_steps() {
    let statements = program("print \"a\";");
    let mut interpreter = Interpreter::new(&statements);
    assert!(matches!(interpreter.interpret(Answer::Nothing, 0), Request::Continue));
    assert_eq!(interpreter.frames.len(), 1);
    assert!(matches!(interpreter.interpret(Answer::Nothing, 3), Request::Continue));
    assert_eq!(interpreter.values.len(), 1);
    assert!(matches!(interpreter.interpret(Answer::Nothing, 3), Request::PrintText(_)));
    assert!(matches!(interpreter.interpret(Answer::Nothing, 3), Request::Finished));
    let statements = program("while (true) {}");
    let mut interpreter = Interpreter::new(&statements);
    for _ in 0..10 {
        assert!(matches!(interpreter.interpret(Answer::Nothing, 1000), Request::Continue));
    }
}

#[test]
fn a_numeral_is_decoded_by_the_host() {
    let statements = program("print 2.50;");
    let mut interpreter = Interpreter::new(&statements);
    match until_request(&mut interpreter, Answer::Nothing) {
        Request::Decode(numeral) => assert_eq!(numeral, "2.5"),
        other => panic!("no numeral: {:?}", other),
    }
    let frames = interpreter.frames.len();
    match interpreter.step(Answer::Nothing) {
        Request::Decode(numeral) => assert_eq!(numeral, "2.5"),
        other => panic!("the request is not repeated: {:?}", other),
    }
    assert_eq!(interpreter.frames.len(), frames);
    assert!(matches!(until_request(&mut interpreter, Answer::ClockFailed), Request::Decode(_)));
    match until_request(&mut interpreter, number(2.5)) {
        Request::PrintNumber(value) => assert_eq!(value.bits, 2.5f64.to_bits()),
        other => panic!("no print: {:?}", other),
    }
}

#[test]
fn arithmetic_is_done_by_the_host() {
    let statements = program("print 6 / 3;");
    let mut interpreter = Interpreter::new(&statements);
    assert!(matches!(until_request(&mut interpreter, Answer::Nothing), Request::Decode(_)));
    assert!(matches!(until_request(&mut interpreter, number(6.0)), Request::Decode(_)));
    match until_request(&mut interpreter, number(3.0)) {
        Request::Arithmetic(operation, left, right) => {
            assert_eq!(operation, ArithmeticOp::Divide);
            assert_eq!(left.bits, 6.0f64.to_bits());
            assert_eq!(right.bits, 3.0f64.to_bits());
        }
        other => panic!("no arithmetic: {:?}", other),
    }
    assert_eq!(interpreter.values.len(), 2);
    assert!(matches!(interpreter.step(Answer::Nothing), Request::Arithmetic(_, _, _)));
    assert_eq!(interpreter.values.len(), 2);
    match until_request(&mut interpreter, number(42.0)) {
        Request::PrintNumber(value) => assert_eq!(value.bits, 42.0f64.to_bits()),
        other => panic!("no print: {:?}", other),
    }
    assert!(interpreter.values.is_empty());
}

#[test]
fn the_clock_may_fail() {
    let statements = program("print clock();\nprint \"next\";");
    let mut interpreter = Interpreter::new(&statements);
    assert!(matches!(until_request(&mut interpreter, Answer::Nothing), Request::Clock));
    assert!(matches!(interpreter.step(Answer::Nothing), Request::Clock));
    match until_request(&mut interpreter, Answer::ClockFailed) {
        Request::PrintText(text) => assert_eq!(text, "next"),
        other => panic!("no print: {:?}", other),
    }
    assert_eq!(interpreter.errors, vec!["System time before UNIX epoch!".to_string()]);
    assert!(matches!(until_request(&mut interpreter, Answer::Nothing), Request::Finished));
}

#[test]
fn an_answer_that_nothing_asked_for_is_ignored() {
    let statements = program("print \"a\";");
    let mut interpreter = Interpreter::new(&statements);
    match until_request(&mut interpreter, number(1.0)) {
        Request::PrintText(text) => assert_eq!(text, "a"),
        other => panic!("no print: {:?}", other),
    }
    assert!(matches!(until_request(&mut interpreter, Answer::ClockFailed), Request::Finished));
    assert!(interpreter.errors.is_empty());
}

#[test]
fn a_block_runs_in_a_scope_of_its_own() {
    let statements = program("{ var a = \"in\"; }");
    let block = match &statements[0] {
        Stmt::Block(list) => list,
        other => panic!("no block: {:?}", other),
    };
    let empty = Vec::new();
    let mut interpreter = Interpreter::new(&empty);
    interpreter.execute_block(block, 0);
    assert_eq!(interpreter.current, 1);
    assert_eq!(interpreter.environment.scopes.len(), 2);
    assert_eq!(interpreter.environment.scopes[1].enclosing, Some(0));
    assert_eq!(interpreter.frames.len(), 3);
    match interpreter.frames[1] {
        Frame::Restore(entry) => {
            assert_eq!(entry.back, 0);
            assert_eq!(entry.scopes, 1);
            assert_eq!(entry.functions, 0);
        }
        other => panic!("no end of a block: {:?}", other),
    }
    assert!(matches!(interpreter.frames[2], Frame::Sequence(_, 0)));
    for _ in 0..4 {
        assert!(matches!(interpreter.step(Answer::Nothing), Request::Continue));
    }
    assert_eq!(interpreter.current, 1);
    assert_eq!(interpreter.environment.scopes[1].bindings.len(), 1);
    assert_eq!(interpreter.environment.scopes[1].bindings[0].name, "a");
    assert!(matches!(until_request(&mut interpreter, Answer::Nothing), Request::Finished));
    assert_eq!(interpreter.current, 0);
    assert_eq!(interpreter.environment.scopes.len(), 1);
    assert_eq!(interpreter.environment.scopes[0].bindings.len(), 1);
}

/// Runs the program to its end, doing what it asks; gives what it printed.
fn run_to_end(interpreter: &mut Interpreter) -> Vec<String> {
    let mut printed = Vec::new();
    let mut answer = Answer::Nothing;
    for _ in 0..1_000_000 {
        let request = interpreter.interpret(answer, 100);
        answer = Answer::Nothing;
        match request {
            Request::Continue => {}
            Request::PrintText(text) => printed.push(text),
            Request::PrintNumber(value) => printed.push(format!("{}", f64::from_bits(value.bits))),
            Request::Decode(numeral) => answer = number(numeral.parse().unwrap()),
            Request::Arithmetic(operation, left, right) => {
                let l = f64::from_bits(left.bits);
                let r = f64::from_bits(right.bits);
                answer = number(match operation {
                    ArithmeticOp::Add => l + r,
                    ArithmeticOp::Subtract => l - r,
                    ArithmeticOp::Multiply => l * r,
                    ArithmeticOp::Divide => l / r,
                });
            }
            Request::Clock => answer = number(0.0),
            Request::Finished => return printed,
        }
    }
    panic!("the program does not end");
}

#[test]
fn blocks_and_calls_close_their_scopes() {
    let statements = program(
        "fun twice(n) { { var m = n; return m + m; } }
         var total = 0;
         for (var i = 0; i < 50; i = i + 1) { { total = total + twice(i); } }
         print total;",
    );
    let mut interpreter = Interpreter::new(&statements);
    assert_eq!(run_to_end(&mut interpreter), vec!["2450".to_string()]);
    assert_eq!(interpreter.environment.scopes.len(), 1);
    assert_eq!(interpreter.functions.len(), 1);
    assert_eq!(interpreter.current, 0);
    assert!(interpreter.values.is_empty());
    assert_eq!(interpreter.frames.len(), 1);
}

#[test]
fn a_captured_scope_stays_open() {
    let statements = program(
        "fun counter() { var count = 0; fun next() { count = count + 1; return count; } return next; }
         var first = counter();
         var second = counter();
         { var unused = 1; }
         print first() + first() + second();",
    );
    let mut interpreter = Interpreter::new(&statements);
    assert_eq!(run_to_end(&mut interpreter), vec!["4".to_string()]);
    assert_eq!(interpreter.functions.len(), 3);
    assert_eq!(interpreter.environment.scopes.len(), 3);
    assert_eq!(interpreter.functions[1].closure, 1);
    assert_eq!(interpreter.functions[2].closure, 2);
    assert_eq!(interpreter.environment.scopes[1].enclosing, Some(0));
    assert_eq!(interpreter.environment.scopes[2].enclosing, Some(0));
}

#[test]
fn an_error_unwinds_to_the_program() {
    let statements = program("{ { print 1; } }\nprint 2;");
    let mut interpreter = Interpreter::new(&statements);
    for _ in 0..6 {
        assert!(matches!(interpreter.step(Answer::Nothing), Request::Continue));
    }
    assert!(interpreter.frames.len() > 3);
    assert_eq!(interpreter.current, 2);
    interpreter.values.push(Value::Nil);
    interpreter.unwind(ValueError::Error("stop".to_string()));
    assert_eq!(interpreter.frames.len(), 1);
    assert!(matches!(interpreter.frames[0], Frame::Program(1)));
    assert!(interpreter.values.is_empty());
    assert_eq!(interpreter.current, 0);
    assert_eq!(interpreter.errors, vec!["stop".to_string()]);
    assert!(matches!(until_request(&mut interpreter, Answer::Nothing), Request::Decode(_)));
}

#[test]
fn a_return_unwinds_to_the_call() {
    let statements = program("fun f() { { { print 1; } } }\nprint f();");
    let mut interpreter = Interpreter::new(&statements);
    let request = until_request(&mut interpreter, Answer::Nothing);
    assert!(matches!(request, Request::Decode(_)));
    assert_eq!(interpreter.current, 3);
    let depth = interpreter.frames.len();
    interpreter.unwind(ValueError::Return(Value::String("early".to_string())));
    assert!(interpreter.frames.len() < depth);
    assert!(matches!(interpreter.frames.last(), Some(Frame::Print)));
    assert_eq!(interpreter.current, 0);
    assert_eq!(interpreter.values.len(), 1);
    match until_request(&mut interpreter, Answer::Nothing) {
        Request::PrintText(text) => assert_eq!(text, "early"),
        other => panic!("no print: {:?}", other),
    }
    assert!(interpreter.errors.is_empty());
}

#[test]
fn evaluating_a_literal_gives_its_value() {
    let empty = Vec::new();
    let mut interpreter = Interpreter::new(&empty);
    let text = Expr::Literal(Literal::String("abc".to_string()));
    assert!(matches!(interpreter.evaluate(&text, Answer::Nothing), Request::Continue));
    assert_eq!(interpreter.values.len(), 1);
    assert_eq!(interpreter.values[0].get_string(), Some("abc".to_string()));
    let truth = Expr::Literal(Literal::Bool(true));
    interpreter.evaluate(&truth, Answer::Nothing);
    assert!(matches!(interpreter.values[1], Value::Bool(true)));
    let nothing = Expr::Literal(Literal::Nil);
    interpreter.evaluate(&nothing, Answer::Nothing);
    assert!(matches!(interpreter.values[2], Value::Nil));
    let numeral = Expr::Literal(Literal::Number("1.5".to_string()));
    assert!(matches!(interpreter.evaluate(&numeral, Answer::Nothing), Request::Decode(_)));
    assert_eq!(interpreter.values.len(), 3);
    assert!(matches!(interpreter.frames.last(), Some(Frame::Eval(_))));
    interpreter.frames.pop();
    assert!(matches!(interpreter.evaluate(&numeral, number(1.5)), Request::Continue));
    assert_eq!(interpreter.values[3].get_number().map(|n| n.bits), Some(1.5f64.to_bits()));
}

#[test]
fn evaluating_a_variable_reads_it() {
    let empty = Vec::new();
    let mut interpreter = Interpreter::new(&empty);
    interpreter.environment.define(0, "a".to_string(), Value::Bool(true));
    let known = Expr::Variable(Token::new(TokenType::Identifier, "a".to_string(), Literal::Nil, 1));
    interpreter.evaluate(&known, Answer::Nothing);
    assert!(matches!(interpreter.values[0], Value::Bool(true)));
    let unknown = Expr::Variable(Token::new(TokenType::Identifier, "b".to_string(), Literal::Nil, 9));
    interpreter.evaluate(&unknown, Answer::Nothing);
    assert!(interpreter.values.is_empty());
    assert_eq!(interpreter.errors, vec!["[line 9] Undefined variable 'b'.".to_string()]);
}

#[test]
fn expressions_have_a_text() {
    let statements = program("f(a, 1)(\"s\") or !b == -(c = nil);");
    match &statements[0] {
        Stmt::Expression(expression) => {
            assert_eq!(expression.to_string(), "(or (call (call f a 1.0) s) (== (! b) (- (group (= c nil)))))");
        }
        other => panic!("no expression: {:?}", other),
    }
}
