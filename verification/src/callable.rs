use vstd::prelude::*;

verus! {

/// What every callable states of itself: a name and the number of its
/// parameters.
pub trait Callable {
    /// The name under which the callable is displayed.
    spec fn name(&self) -> Seq<char>;

    /// The number of arguments that a call must give.
    spec fn parameters(&self) -> nat;

    /// The name of the callable.
    fn to_string(&self) -> (name: &str)
        ensures
            name@ == self.name(),
    ;

    /// The number of arguments that a call must give.
    fn arity(&self) -> (count: usize)
        ensures
            count == self.parameters(),
    ;
}

} // verus!
