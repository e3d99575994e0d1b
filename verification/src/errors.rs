use vstd::prelude::*;
use crate::values::Value;
use crate::values::ValueView;

verus! {

/// Process exit codes that a driver reports.
#[derive(Clone, Copy, Debug, PartialEq, Eq, Structural)]
pub enum ExitCode {
    /// A lexical or parse error occurred.
    ExitError,
    /// A runtime error occurred during evaluation.
    RuntimeError,
}

impl ExitCode {
    /// The numeric code of each variant.
    pub open spec fn code_spec(self) -> int {
        match self {
            ExitCode::ExitError => 65,
            ExitCode::RuntimeError => 70,
        }
    }

    /// The numeric code.
    pub fn code(self) -> (c: i32)
        ensures
            c == self.code_spec(),
    {
        match self {
            ExitCode::ExitError => 65,
            ExitCode::RuntimeError => 70,
        }
    }
}


/// What ends the normal course of execution: a runtime error, or the
/// return from a function, which is no error.
#[derive(Debug)]
pub enum ValueError {
    /// A runtime error, with its diagnostic.
    Error(String),
    /// A `return`, with the value returned.
    Return(Value),
}

/// The mathematical value of a [`ValueError`].
pub ghost enum ValueErrorView {
    Error(Seq<char>),
    Return(ValueView),
}

impl View for ValueError {
    type V = ValueErrorView;

    open spec fn view(&self) -> ValueErrorView {
        match self {
            ValueError::Error(message) => ValueErrorView::Error(message@),
            ValueError::Return(value) => ValueErrorView::Return(value@),
        }
    }
}

} // verus!
