use vstd::prelude::*;
use vstd::string::*;
use crate::callable::Callable;
use crate::statements::Stmt;
use crate::tokens::Token;

verus! {

/// A function that the program declared: its name, parameters and body,
/// and the scope in which it was declared, which its calls run within.
#[derive(Clone, Copy, Debug)]
pub struct LoxFunction<'a> {
    pub token: &'a Token,
    pub params: &'a Vec<Token>,
    pub body: &'a Vec<Stmt>,
    pub closure: usize,
}

impl<'a> LoxFunction<'a> {
    /// The function of the given name, parameters and body, declared in
    /// the scope `closure`.
    pub fn new(token: &'a Token, params: &'a Vec<Token>, body: &'a Vec<Stmt>, closure: usize) -> (function: Self)
        ensures
            function.token == token,
            function.params == params,
            function.body == body,
            function.closure == closure,
    {
        LoxFunction { token, params, body, closure }
    }
}

impl<'a> Callable for LoxFunction<'a> {
    open spec fn name(&self) -> Seq<char> {
        self.token.name@
    }

    open spec fn parameters(&self) -> nat {
        self.params@.len()
    }

    fn to_string(&self) -> (name: &str) {
        self.token.name.as_str()
    }

    fn arity(&self) -> (count: usize) {
        self.params.len()
    }
}

} // verus!
