//! The evaluator: the abstract machine, run step by step.

use vstd::prelude::*;
use vstd::string::*;
use crate::callable::Callable;
use crate::callees::callees_known;
use crate::environments::Environment;
use crate::environments::ScopeView;
use crate::errors::ValueError;
use crate::expressions::Expr;
use crate::lox_func::LoxFunction;
use crate::machine::apply_binary;
use crate::machine::bind_parameters;
use crate::machine::boundary_frames;
use crate::machine::display;
use crate::machine::enter;
use crate::machine::entry_of;
use crate::machine::released;
use crate::machine::Entry;
use crate::machine::evaluate;
use crate::machine::execute;
use crate::machine::give;
use crate::machine::invoke;
use crate::machine::leave;
use crate::machine::not_callable;
use crate::machine::printing;
use crate::machine::program_frames;
use crate::machine::raise;
use crate::machine::run;
use crate::operands::height;
use crate::operands::in_order;
use crate::operands::operands_in_place;
use crate::restoring::scopes_restored;
use crate::alive::scopes_alive;
use crate::machine::step;
use crate::machine::top;
use crate::machine::unwind;
use crate::machine::go;
use crate::machine::below_top;
use crate::machine::wrong_arity;
use crate::machine::Answer;
use crate::machine::Frame;
use crate::machine::RequestView;
use crate::machine::State;
use crate::machine::Step;
use crate::machine::GLOBALS;
use crate::native_funcs::clock_func::ClockFunction;
use crate::statements::Stmt;
use crate::text::line_prefix;
use crate::text::line_text;
use crate::text::push_decimal;
use crate::tokens::Literal;
use crate::tokens::Token;
use crate::tokens::TokenType;
use crate::values::binary_operation;
use crate::values::unary_operation;
use crate::values::ArithmeticOp;
use crate::values::Callee;
use crate::values::Computed;
use crate::values::Number;
use crate::values::Value;
use crate::values::ValueView;

verus! {

/// What the interpreter asks of its host.
#[derive(Debug)]
pub enum Request {
    /// Nothing; the budget of steps is spent. Call again.
    Continue,
    /// Print this text and a line feed.
    PrintText(String),
    /// Print this number, an integer without a fraction, and a line feed.
    PrintNumber(Number),
    /// Decode the numeral, and answer with its number.
    Decode(String),
    /// Compute, and answer with the result.
    Arithmetic(ArithmeticOp, Number, Number),
    /// Read the clock, and answer with the seconds since the Unix epoch.
    Clock,
    /// The program has ended.
    Finished,
}

impl View for Request {
    type V = RequestView;

    open spec fn view(&self) -> RequestView {
        match self {
            Request::Continue => RequestView::Continue,
            Request::PrintText(text) => RequestView::PrintText(text@),
            Request::PrintNumber(number) => RequestView::PrintNumber(*number),
            Request::Decode(numeral) => RequestView::Decode(numeral@),
            Request::Arithmetic(operation, left, right) => RequestView::Arithmetic(*operation, *left, *right),
            Request::Clock => RequestView::Clock,
            Request::Finished => RequestView::Finished,
        }
    }
}

/// The interpreter of one program.
pub struct Interpreter<'a> {
    /// The program.
    pub stmts: &'a Vec<Stmt>,
    /// The scopes; the global one is at index 0.
    pub environment: Environment,
    /// The index of the current scope.
    pub current: usize,
    /// The functions declared so far.
    pub functions: Vec<LoxFunction<'a>>,
    /// What is still to be done.
    pub frames: Vec<Frame<'a>>,
    /// The values computed and not yet used.
    pub values: Vec<Value>,
    /// The runtime errors so far.
    pub errors: Vec<String>,
}

/// The mathematical values of a list of values.
pub open spec fn value_views(values: Seq<Value>) -> Seq<ValueView> {
    Seq::new(values.len(), |i: int| values[i]@)
}

/// The mathematical values of a list of texts.
pub open spec fn text_views(texts: Seq<String>) -> Seq<Seq<char>> {
    Seq::new(texts.len(), |i: int| texts[i]@)
}

impl<'a> View for Interpreter<'a> {
    type V = State<'a>;

    open spec fn view(&self) -> State<'a> {
        State {
            stmts: self.stmts,
            scopes: self.environment@,
            current: self.current,
            functions: self.functions@,
            frames: self.frames@,
            values: value_views(self.values@),
            errors: text_views(self.errors@),
        }
    }
}

/// The state in which a program starts: the global scope, which binds
/// `clock`, and the whole program still to run.
pub open spec fn initial<'a>(stmts: &'a Vec<Stmt>) -> State<'a> {
    State {
        stmts,
        scopes: seq![
            ScopeView {
                enclosing: None,
                values: Map::empty().insert("clock"@, ValueView::Callable(Callee::Clock)),
            },
        ],
        current: GLOBALS,
        functions: Seq::empty(),
        frames: seq![Frame::Program(0)],
        values: Seq::empty(),
        errors: Seq::empty(),
    }
}

/// A program starts with its scopes alive: the global scope alone.
pub proof fn initial_scopes_are_alive<'a>(stmts: &'a Vec<Stmt>)
    ensures
        scopes_alive(initial(stmts)),
{
    let state = initial(stmts);
    assert(state.frames.drop_last() =~= Seq::<Frame<'a>>::empty());
    assert(crate::alive::frames_fit(state.frames.drop_last(), state.functions));
    assert(crate::alive::mark(state.frames.drop_last()) == 0);
}

/// A program starts with its operands in place: no value, and no frame
/// that takes one.
pub proof fn initial_operands_are_in_place<'a>(stmts: &'a Vec<Stmt>)
    ensures
        operands_in_place(initial(stmts)),
{
    let frames = initial(stmts).frames;
    assert(frames.drop_last() =~= Seq::<Frame<'a>>::empty());
    assert(in_order(frames.drop_last()));
    assert(height(frames.drop_last()) == 0);
}

/// A program starts with its functions known: it holds none but the
/// clock.
pub proof fn initial_callees_are_known<'a>(stmts: &'a Vec<Stmt>)
    ensures
        callees_known(initial(stmts)),
{
    let scopes = initial(stmts).scopes;
    assert forall|j: int| 0 <= j < scopes.len() implies crate::callees::scope_known(#[trigger] scopes[j], 0) by {}
}

/// A program starts in the global scope, with nothing above the frame
/// that runs it.
pub proof fn initial_scopes_are_restored<'a>(stmts: &'a Vec<Stmt>)
    ensures
        scopes_restored(initial(stmts)),
{
    let frames = initial(stmts).frames;
    assert(frames.drop_last() =~= Seq::<Frame<'a>>::empty());
    assert(crate::restoring::scope_behind(frames.drop_last(), GLOBALS) == GLOBALS);
}

/// The diagnostic for a call of what is no callable.
fn not_callable_message(line: usize) -> (message: String)
    ensures
        message@ == not_callable(line),
{
    line_text(line, "Can only call functions and classes.")
}

/// The diagnostic for a call with the wrong number of arguments.
fn wrong_arity_message(line: usize, expected: usize, given: usize) -> (message: String)
    ensures
        message@ == wrong_arity(line, expected as nat, given as nat),
{
    let mut message = line_prefix(line);
    message.append("Expected ");
    push_decimal(&mut message, expected);
    message.append(" arguments, but got ");
    push_decimal(&mut message, given);
    message.append(".");
    assert(message@ =~= wrong_arity(line, expected as nat, given as nat));
    message
}

impl<'a> Interpreter<'a> {
    /// An interpreter that is about to run `stmts`.
    pub fn new(stmts: &'a Vec<Stmt>) -> (interpreter: Self)
        ensures
            interpreter@ == initial(stmts),
    {
        let mut environment = Environment::new();
        environment.define(GLOBALS, ClockFunction.to_string(), Value::Callable(Callee::Clock));
        let mut frames: Vec<Frame<'a>> = Vec::new();
        frames.push(Frame::Program(0));
        let interpreter = Interpreter {
            stmts,
            environment,
            current: GLOBALS,
            functions: Vec::new(),
            frames,
            values: Vec::new(),
            errors: Vec::new(),
        };
        proof {
            assert(interpreter@.scopes =~= initial(stmts).scopes);
            assert(interpreter@.frames =~= initial(stmts).frames);
            assert(interpreter@.values =~= initial(stmts).values);
            assert(interpreter@.errors =~= initial(stmts).errors);
            assert(interpreter@.functions =~= initial(stmts).functions);
        }
        interpreter
    }

    /// Takes the top value; `nil` where there is none.
    fn take(&mut self) -> (value: Value)
        ensures
            value@ == top(old(self)@.values),
            final(self)@ == (State { values: below_top(old(self)@.values), ..old(self)@ }),
    {
        match self.values.pop() {
            Some(value) => {
                assert(value_views(self.values@) =~= below_top(old(self)@.values));
                value
            },
            None => Value::Nil,
        }
    }

    /// A copy of the value that lies `depth` below the top; `nil` where
    /// there is none.
    fn peek(&self, depth: usize) -> (value: Value)
        requires
            depth <= 1,
        ensures
            value@ == if depth == 0 {
                top(self@.values)
            } else {
                top(below_top(self@.values))
            },
    {
        let length = self.values.len();
        if depth < length {
            self.values[length - 1 - depth].clone()
        } else {
            Value::Nil
        }
    }

    /// Puts a value on top.
    fn push(&mut self, value: Value)
        ensures
            final(self)@ == give(old(self)@, value@),
    {
        self.values.push(value);
        assert(value_views(self.values@) =~= old(self)@.values.push(value@));
    }

    /// Puts a frame on top.
    fn schedule(&mut self, frame: Frame<'a>)
        ensures
            final(self)@ == (State { frames: old(self)@.frames.push(frame), ..old(self)@ }),
    {
        self.frames.push(frame);
    }

    /// What a block or a call finds at its entry.
    fn entry(&self) -> (entry: Entry)
        ensures
            entry == entry_of(self@),
    {
        Entry { back: self.current, scopes: self.environment.scopes.len(), functions: self.functions.len() }
    }

    /// Leaves a block or a call: goes back to the scope that was current
    /// at its entry, and closes the scopes opened since, unless a function
    /// was declared since.
    fn release(&mut self, entry: Entry)
        ensures
            final(self)@ == released(old(self)@, entry),
    {
        if self.functions.len() == entry.functions {
            self.environment.release(entry.scopes);
        }
        self.current = entry.back;
    }

    /// Takes the frames off the top down to the one that runs the program.
    fn unwind_to_program(&mut self)
        ensures
            final(self)@ == (State { frames: program_frames(old(self)@.frames), ..old(self)@ }),
    {
        loop
            invariant
                program_frames(self.frames@) == program_frames(old(self).frames@),
                self@ == (State { frames: self.frames@, ..old(self)@ }),
            ensures
                self.frames@ == program_frames(old(self).frames@),
            decreases self.frames@.len(),
        {
            let length = self.frames.len();
            if length == 0 {
                break ;
            }
            match self.frames[length - 1] {
                Frame::Program(_) => {
                    break ;
                },
                _ => {},
            }
            let ghost before = self.frames@;
            self.frames.pop();
            assert(self.frames@ =~= before.drop_last());
        }
    }

    /// Takes the frames off the top down to the nearest boundary.
    fn unwind_to_boundary(&mut self)
        ensures
            final(self)@ == (State { frames: boundary_frames(old(self)@.frames), ..old(self)@ }),
    {
        loop
            invariant
                boundary_frames(self.frames@) == boundary_frames(old(self).frames@),
                self@ == (State { frames: self.frames@, ..old(self)@ }),
            ensures
                self.frames@ == boundary_frames(old(self).frames@),
            decreases self.frames@.len(),
        {
            let length = self.frames.len();
            if length == 0 {
                break ;
            }
            match self.frames[length - 1] {
                Frame::Program(_) => {
                    break ;
                },
                Frame::Call(_, _) => {
                    break ;
                },
                _ => {},
            }
            let ghost before = self.frames@;
            self.frames.pop();
            assert(self.frames@ =~= before.drop_last());
        }
    }

    /// Gives up the statement of the program that is running, and records
    /// the error.
    fn raise(&mut self, message: String)
        ensures
            final(self)@ == raise(old(self)@, message@),
    {
        self.unwind_to_program();
        self.values.clear();
        self.current = GLOBALS;
        self.errors.push(message);
        proof {
            assert(value_views(self.values@) =~= Seq::<ValueView>::empty());
            assert(text_views(self.errors@) =~= old(self)@.errors.push(message@));
        }
    }

    /// Leaves the call that is running, which gives `value`.
    fn leave(&mut self, value: Value)
        ensures
            final(self)@ == leave(old(self)@, value@),
    {
        self.unwind_to_boundary();
        let length = self.frames.len();
        if length > 0 {
            match self.frames[length - 1] {
                Frame::Call(entry, height) => {
                    let ghost before = self.frames@;
                    let ghost values = self.values@;
                    self.frames.pop();
                    self.release(entry);
                    self.values.truncate(height);
                    self.values.push(value);
                    proof {
                        assert(self.frames@ =~= before.drop_last());
                        if height <= values.len() {
                            assert(value_views(self.values@) =~= value_views(values).take(height as int).push(
                                value@,
                            ));
                        } else {
                            assert(value_views(self.values@) =~= value_views(values).push(value@));
                        }
                    }
                    return ;
                },
                _ => {},
            }
        }
        self.values.clear();
        self.current = GLOBALS;
        assert(value_views(self.values@) =~= Seq::<ValueView>::empty());
    }

    /// Ends the normal course of execution: with an error, the statement
    /// of the program that is running is given up; with a return, the
    /// call that is running is left.
    pub fn unwind(&mut self, signal: ValueError)
        ensures
            final(self)@ == unwind(old(self)@, signal@),
    {
        match signal {
            ValueError::Error(message) => self.raise(message),
            ValueError::Return(value) => self.leave(value),
        }
    }

    /// Opens a scope within `enclosing` and makes it current; schedules
    /// the statements of `stmts` to run in it, and behind them the return
    /// to the scope that was current.
    pub fn execute_block(&mut self, stmts: &'a Vec<Stmt>, enclosing: usize)
        ensures
            final(self)@ == enter(old(self)@, stmts, enclosing),
    {
        let entry = self.entry();
        let scope = self.environment.child(enclosing);
        self.frames.push(Frame::Restore(entry));
        self.frames.push(Frame::Sequence(stmts, 0));
        self.current = scope;
    }

    /// Declares a function: it captures the current scope, in which its
    /// name is then bound to it.
    fn visit_function_stmt(&mut self, token: &'a Token, params: &'a Vec<Token>, body: &'a Vec<Stmt>)
        ensures
            final(self)@ == execute(
                old(self)@,
                &Stmt::Function(*token, *params, *body),
            ),
    {
        let index = self.functions.len();
        self.functions.push(LoxFunction::new(token, params, body, self.current));
        self.environment.define(self.current, token.name.clone(), Value::Callable(Callee::Function(index)));
    }

    /// Does what the statement asks, or schedules it.
    fn execute(&mut self, statement: &'a Stmt)
        ensures
            final(self)@ == execute(old(self)@, statement),
    {
        match statement {
            Stmt::Expression(expression) => {
                self.schedule(Frame::Discard);
                self.schedule(Frame::Eval(expression));
            },
            Stmt::Print(expression) => {
                self.schedule(Frame::Print);
                self.schedule(Frame::Eval(expression));
            },
            Stmt::Var(name, initializer) => match initializer {
                Some(value) => {
                    self.schedule(Frame::Define(name));
                    self.schedule(Frame::Eval(value));
                },
                None => {
                    self.environment.define(self.current, name.name.clone(), Value::Nil);
                },
            },
            Stmt::Block(list) => {
                self.execute_block(list, self.current);
            },
            Stmt::If(condition, then_branch, else_branch) => {
                self.schedule(Frame::Branch(then_branch, else_branch));
                self.schedule(Frame::Eval(condition));
            },
            Stmt::While(condition, body) => {
                self.schedule(Frame::Test(condition, body));
                self.schedule(Frame::Eval(condition));
            },
            Stmt::Function(name, parameters, body) => {
                self.visit_function_stmt(name, parameters, body);
            },
            Stmt::Return(_, value) => match value {
                Some(expression) => {
                    self.schedule(Frame::Return);
                    self.schedule(Frame::Eval(expression));
                },
                None => {
                    self.leave(Value::Nil);
                },
            },
        }
    }

    /// Reads a variable.
    fn visit_variable_expr(&mut self, name: &'a Token)
        ensures
            go(final(self)@) == evaluate(old(self)@, old(self)@, &Expr::Variable(*name), Answer::Nothing),
    {
        match self.environment.get(self.current, name) {
            Ok(value) => self.push(value),
            Err(message) => self.unwind(ValueError::Error(message)),
        }
    }

    /// Evaluates the expression, or schedules its parts. The frame of the
    /// expression has been taken off; where the host is asked for the
    /// number of a numeral, it is put back.
    pub fn evaluate(&mut self, expression: &'a Expr, answer: Answer) -> (request: Request)
        ensures
            (Step { state: final(self)@, request: request@ }) == evaluate(
                State { frames: old(self)@.frames.push(Frame::Eval(expression)), ..old(self)@ },
                old(self)@,
                expression,
                answer,
            ),
    {
        match expression {
            Expr::Literal(literal) => match literal {
                Literal::Nil => self.push(Value::Nil),
                Literal::Bool(b) => self.push(Value::Bool(*b)),
                Literal::String(text) => self.push(Value::String(text.clone())),
                Literal::Number(numeral) => match answer {
                    Answer::Number(number) => self.push(Value::Number(number)),
                    _ => {
                        self.schedule(Frame::Eval(expression));
                        return Request::Decode(numeral.clone());
                    },
                },
            },
            Expr::Grouping(inner) => {
                self.schedule(Frame::Eval(inner));
            },
            Expr::Variable(name) => {
                self.visit_variable_expr(name);
            },
            Expr::Assign(name, value) => {
                self.schedule(Frame::Assign(name));
                self.schedule(Frame::Eval(value));
            },
            Expr::Unary(operator, operand) => {
                self.schedule(Frame::Unary(operator));
                self.schedule(Frame::Eval(operand));
            },
            Expr::Binary(left, operator, right) => {
                self.schedule(Frame::Binary(operator));
                self.schedule(Frame::Eval(right));
                self.schedule(Frame::Eval(left));
            },
            Expr::Logical(left, operator, right) => {
                self.schedule(Frame::Logical(operator, right));
                self.schedule(Frame::Eval(left));
            },
            Expr::Call(callee, paren, arguments) => {
                self.schedule(Frame::Invoke(paren, arguments.len()));
                self.schedule(Frame::Arguments(arguments, 0));
                self.schedule(Frame::Eval(callee));
            },
        }
        Request::Continue
    }

    /// Applies a unary operator to the top value.
    fn visit_unary_expr(&mut self, operator: &'a Token)
        ensures
            final(self)@ == match crate::values::unary_result(
                operator.token_type,
                operator.line_number,
                top(old(self)@.values),
            ) {
                Ok(result) => give(State { values: below_top(old(self)@.values), ..old(self)@ }, result),
                Err(message) => raise(old(self)@, message),
            },
    {
        let operand = self.peek(0);
        match unary_operation(operator.token_type, operator.line_number, operand) {
            Ok(result) => {
                self.take();
                self.push(result);
            },
            Err(message) => self.raise(message),
        }
    }

    /// Applies a binary operator to the two top values. The frame of the
    /// operator has been taken off; where the host is asked for
    /// arithmetic, it is put back.
    fn visit_binary_expr(&mut self, operator: &'a Token, answer: Answer) -> (request: Request)
        ensures
            (Step { state: final(self)@, request: request@ }) == apply_binary(
                State { frames: old(self)@.frames.push(Frame::Binary(operator)), ..old(self)@ },
                old(self)@,
                operator,
                answer,
            ),
    {
        let right = self.peek(0);
        let left = self.peek(1);
        match binary_operation(operator.token_type, operator.line_number, left, right) {
            Ok(Computed::Value(value)) => {
                self.take();
                self.take();
                self.push(value);
            },
            Ok(Computed::Arithmetic(operation, l, r)) => match answer {
                Answer::Number(number) => {
                    self.take();
                    self.take();
                    self.push(Value::Number(number));
                },
                _ => {
                    self.schedule(Frame::Binary(operator));
                    return Request::Arithmetic(operation, l, r);
                },
            },
            Err(message) => self.raise(message),
        }
        Request::Continue
    }

    /// Decides a logical operator by the top value, its left operand.
    fn visit_logical_expr(&mut self, operator: &'a Token, right: &'a Expr)
        ensures
            final(self)@ == if crate::machine::short_circuits(operator.token_type, top(old(self)@.values)) {
                old(self)@
            } else {
                State {
                    frames: old(self)@.frames.push(Frame::Eval(right)),
                    values: below_top(old(self)@.values),
                    ..old(self)@
                }
            },
    {
        let left = self.peek(0);
        let is_or = operator.token_type == TokenType::Or;
        if is_or == left.is_truthy() {
            return ;
        }
        self.take();
        self.schedule(Frame::Eval(right));
    }

    /// Assigns the top value, which stays.
    fn visit_assign_expr(&mut self, name: &'a Token)
        ensures
            final(self)@ == match crate::environments::resolve(
                old(self)@.scopes,
                old(self)@.current as int,
                name.name@,
            ) {
                Some(_) => State {
                    scopes: crate::environments::assigned(
                        old(self)@.scopes,
                        old(self)@.current as int,
                        name.name@,
                        top(old(self)@.values),
                    ),
                    ..old(self)@
                },
                None => raise(old(self)@, crate::environments::undefined_variable(name.line_number, name.name@)),
            },
    {
        let value = self.peek(0);
        match self.environment.assign(self.current, name, value) {
            Ok(_) => {},
            Err(message) => self.raise(message),
        }
    }

    /// Binds the parameters of a function to the arguments, which are the
    /// top values, in the scope `scope`.
    fn bind(&mut self, scope: usize, parameters: &'a Vec<Token>, height: usize)
        requires
            old(self).values@.len() == height + 1 + parameters@.len(),
        ensures
            final(self)@ == (State {
                scopes: bind_parameters(
                    old(self)@.scopes,
                    scope as int,
                    parameters@,
                    old(self)@.values.skip(height + 1),
                    parameters@.len() as int,
                ),
                ..old(self)@
            }),
    {
        let mut i: usize = 0;
        while i < parameters.len()
            invariant
                i <= parameters@.len(),
                self.values@.len() == height + 1 + parameters@.len(),
                self@ == (State {
                    scopes: bind_parameters(
                        old(self)@.scopes,
                        scope as int,
                        parameters@,
                        old(self)@.values.skip(height + 1),
                        i as int,
                    ),
                    ..old(self)@
                }),
            decreases parameters@.len() - i,
        {
            let length = self.values.len();
            let value = self.values[length - (parameters.len() - i)].clone();
            assert(value@ == old(self)@.values.skip(height + 1)[i as int]);
            self.environment.define(scope, parameters[i].name.clone(), value);
            i = i + 1;
        }
    }

    /// Calls the value that lies below `count` arguments. The frame of
    /// the call has been taken off; where the host is asked for the
    /// clock, it is put back.
    fn visit_call_expr(&mut self, paren: &'a Token, count: usize, answer: Answer) -> (request: Request)
        ensures
            (Step { state: final(self)@, request: request@ }) == invoke(
                State { frames: old(self)@.frames.push(Frame::Invoke(paren, count)), ..old(self)@ },
                old(self)@,
                paren,
                count,
                answer,
            ),
    {
        let length = self.values.len();
        if length <= count {
            self.raise(not_callable_message(paren.line_number));
            return Request::Continue;
        }
        let height = length - count - 1;
        match self.values[height].is_callable() {
            Some(Callee::Clock) => {
                if count != ClockFunction.arity() {
                    self.raise(wrong_arity_message(paren.line_number, 0, count));
                    return Request::Continue;
                }
                match answer {
                    Answer::Number(number) => {
                        let ghost values = self.values@;
                        self.values.truncate(height);
                        assert(value_views(self.values@) =~= value_views(values).take(height as int));
                        self.push(Value::Number(number));
                    },
                    Answer::ClockFailed => {
                        self.raise(String::from_str("System time before UNIX epoch!"));
                    },
                    Answer::Nothing => {
                        self.schedule(Frame::Invoke(paren, count));
                        return Request::Clock;
                    },
                }
            },
            Some(Callee::Function(index)) => {
                if index >= self.functions.len() {
                    self.raise(not_callable_message(paren.line_number));
                    return Request::Continue;
                }
                let function = self.functions[index];
                if function.arity() != count {
                    self.raise(wrong_arity_message(paren.line_number, function.arity(), count));
                    return Request::Continue;
                }
                let entry = self.entry();
                let scope = self.environment.child(function.closure);
                self.bind(scope, function.params, height);
                let ghost values = self.values@;
                self.values.truncate(height);
                assert(value_views(self.values@) =~= value_views(values).take(height as int));
                self.frames.push(Frame::Call(entry, height));
                self.frames.push(Frame::Sequence(function.body, 0));
                self.current = scope;
            },
            None => {
                self.raise(not_callable_message(paren.line_number));
            },
        }
        Request::Continue
    }

    /// The request that prints `value`.
    fn visit_print_stmt(&self, value: Value) -> (request: Request)
        ensures
            request@ == printing(value@, self@.functions),
    {
        match value {
            Value::Nil => Request::PrintText(String::from_str("nil")),
            Value::Bool(b) => if b {
                Request::PrintText(String::from_str("true"))
            } else {
                Request::PrintText(String::from_str("false"))
            },
            Value::String(text) => Request::PrintText(text),
            Value::Number(number) => Request::PrintNumber(number),
            Value::Callable(Callee::Clock) => Request::PrintText(String::from_str("<fn clock>")),
            Value::Callable(Callee::Function(index)) => if index < self.functions.len() {
                let mut text = String::from_str("<fn ");
                text.append(self.functions[index].to_string());
                text.append(">");
                assert(text@ =~= display(value@, self@.functions));
                Request::PrintText(text)
            } else {
                Request::PrintText(String::from_str("<fn>"))
            },
        }
    }

    /// One step of the machine: takes the top frame and does what it
    /// asks. `answer` is the host's answer to the request of the step
    /// before, where that asked for one.
    pub fn step(&mut self, answer: Answer) -> (request: Request)
        ensures
            (Step { state: final(self)@, request: request@ }) == step(old(self)@, answer),
    {
        let frame = match self.frames.pop() {
            Some(frame) => frame,
            None => {
                return Request::Finished;
            },
        };
        assert(self.frames@ =~= old(self).frames@.drop_last());
        assert(old(self).frames@ =~= self.frames@.push(frame));
        match frame {
            Frame::Program(next) => {
                let stmts: &'a Vec<Stmt> = self.stmts;
                if next < stmts.len() {
                    self.schedule(Frame::Program(next + 1));
                    self.schedule(Frame::Exec(&stmts[next]));
                } else {
                    self.schedule(frame);
                    return Request::Finished;
                }
            },
            Frame::Exec(statement) => self.execute(statement),
            Frame::Sequence(list, next) => {
                if next < list.len() {
                    self.schedule(Frame::Sequence(list, next + 1));
                    self.schedule(Frame::Exec(&list[next]));
                }
            },
            Frame::Restore(entry) => {
                self.release(entry);
            },
            Frame::Discard => {
                self.take();
            },
            Frame::Print => {
                let value = self.take();
                return self.visit_print_stmt(value);
            },
            Frame::Define(name) => {
                let value = self.take();
                self.environment.define(self.current, name.name.clone(), value);
            },
            Frame::Branch(then_branch, else_branch) => {
                let value = self.take();
                if value.is_truthy() {
                    self.schedule(Frame::Exec(then_branch));
                } else {
                    match else_branch {
                        Some(otherwise) => self.schedule(Frame::Exec(otherwise)),
                        None => {},
                    }
                }
            },
            Frame::Test(condition, body) => {
                let value = self.take();
                if value.is_truthy() {
                    self.schedule(Frame::Again(condition, body));
                    self.schedule(Frame::Exec(body));
                }
            },
            Frame::Again(condition, body) => {
                self.schedule(Frame::Test(condition, body));
                self.schedule(Frame::Eval(condition));
            },
            Frame::Return => {
                let value = self.take();
                self.unwind(ValueError::Return(value));
            },
            Frame::Call(entry, _) => {
                self.release(entry);
                self.push(Value::Nil);
            },
            Frame::Eval(expression) => {
                return self.evaluate(expression, answer);
            },
            Frame::Unary(operator) => self.visit_unary_expr(operator),
            Frame::Binary(operator) => {
                return self.visit_binary_expr(operator, answer);
            },
            Frame::Logical(operator, right) => self.visit_logical_expr(operator, right),
            Frame::Assign(name) => self.visit_assign_expr(name),
            Frame::Arguments(list, next) => {
                if next < list.len() {
                    self.schedule(Frame::Arguments(list, next + 1));
                    self.schedule(Frame::Eval(&list[next]));
                }
            },
            Frame::Invoke(paren, count) => {
                return self.visit_call_expr(paren, count, answer);
            },
        }
        Request::Continue
    }

    /// Runs the program for up to `budget` steps. `answer` is the host's
    /// answer to the request that the call before returned, where that
    /// asked for one. Returns at the first step that asks something of
    /// the host, with its request; `Continue` when the budget is spent.
    pub fn interpret(&mut self, answer: Answer, budget: usize) -> (request: Request)
        ensures
            (Step { state: final(self)@, request: request@ }) == run(old(self)@, answer, budget as nat),
    {
        let mut left = budget;
        let mut next = answer;
        while left > 0
            invariant
                run(self@, next, left as nat) == run(old(self)@, answer, budget as nat),
            decreases left,
        {
            let request = self.step(next);
            match request {
                Request::Continue => {},
                _ => {
                    return request;
                },
            }
            next = Answer::Nothing;
            left = left - 1;
        }
        Request::Continue
    }
}

} // verus!
