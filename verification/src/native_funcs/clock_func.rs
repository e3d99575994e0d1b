use vstd::prelude::*;
use vstd::string::*;
use crate::callable::Callable;

verus! {

/// The built-in `clock`: no parameter; the seconds since the Unix epoch,
/// which the host reads.
#[derive(Clone, Copy, Debug)]
pub struct ClockFunction;

impl Callable for ClockFunction {
    open spec fn name(&self) -> Seq<char> {
        "clock"@
    }

    open spec fn parameters(&self) -> nat {
        0
    }

    fn to_string(&self) -> (name: &str) {
        "clock"
    }

    fn arity(&self) -> (count: usize) {
        0
    }
}

impl ClockFunction {
    /// The name under which the clock is bound: `clock`.
    pub fn to_string(&self) -> (name: String)
        ensures
            name@ == "clock"@,
    {
        String::from_str("clock")
    }
}

} // verus!
