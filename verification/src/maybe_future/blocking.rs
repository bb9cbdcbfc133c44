//! Actions that block.

use vstd::prelude::*;

use super::MaybeFuture;

verus! {

/// Wrapper that invokes a function directly when called synchronously.
#[verifier::reject_recursive_types(F)]
pub struct Blocking<F> {
    f: F,
}

impl<F> View for Blocking<F> {
    type V = F;

    closed spec fn view(&self) -> F {
        self.f
    }
}

impl<F> Blocking<F> {
    /// The action that a function is.
    pub fn new(f: F) -> (r: Blocking<F>)
        ensures
            r@ == f,
    {
        Blocking { f }
    }

    /// The function, to run it elsewhere.
    pub fn into_inner(self) -> (r: F)
        ensures
            r == self@,
    {
        self.f
    }
}

impl<R, F: FnOnce() -> R> MaybeFuture for Blocking<F> {
    type Output = R;

    open spec fn can_wait(&self) -> bool {
        call_requires(self@, ())
    }

    open spec fn gives(&self, output: R) -> bool {
        call_ensures(self@, (), output)
    }

    fn wait(self) -> (r: R) {
        (self.f)()
    }
}

} // verus!
