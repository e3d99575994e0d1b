//! A tree-walking interpreter for a small dynamically typed language with
//! variables, nested scopes, short-circuit logic, loops, first-class
//! functions and closures.
//!
//! Source text goes through three stages:
//!
//! * [`scanner`] turns the text into [`tokens`];
//! * [`parser`] turns the tokens into [`statements`] and [`expressions`],
//!   as the [`grammar`] states;
//! * [`interpreter`] runs the statements, as the abstract [`machine`]
//!   states, on [`values`] held in [`environments`].
//!
//! Every stage is verified against a mathematical statement of what it
//! computes. Beside those stand the laws that the statements obey:
//! [`lexemes`] (the lexemes of scanned tokens scan as the same tokens),
//! [`progress`] (no phrase ends before its start), the laws of scoping in
//! [`environments`], those of short circuit and closure capture in
//! [`machine`], and the invariants of a running program in [`alive`]
//! (its scopes stay alive), [`operands`] (no frame lacks an operand),
//! [`callees`] (every function called is known) and [`restoring`] (a
//! block and a call go back to the scope they were entered from).
//!
//! [`meaning`] states what expressions and statements mean by their
//! structure, for those that need no host, and proves that the machine
//! computes just that.
//!
//! Numbers are 64-bit floating-point values, which the library holds as
//! bit patterns: it compares and negates them itself, and asks its host
//! for their arithmetic, for the decoding of numerals and for printing.

pub mod alive;
pub mod callable;
pub mod callees;
pub mod environments;
pub mod errors;
pub mod expressions;
pub mod grammar;
pub mod interpreter;
pub mod lexemes;
pub mod lox_func;
pub mod machine;
pub mod native_funcs;
pub mod operands;
pub mod parser;
pub mod progress;
pub mod scanner;
pub mod statements;
pub mod text;
pub mod tokens;
pub mod values;
pub mod restoring;
pub mod meaning;
