//! Futures as they are.

use vstd::prelude::*;

verus! {

/// A future that is nothing but itself.
pub struct ActualFuture<F>(F);

impl<F> View for ActualFuture<F> {
    type V = F;

    closed spec fn view(&self) -> F {
        self.0
    }
}

impl<F> ActualFuture<F> {
    /// Wrap a future.
    pub fn new(fut: F) -> (r: ActualFuture<F>)
        ensures
            r@ == fut,
    {
        ActualFuture(fut)
    }

    /// The future.
    pub fn into_future(self) -> (r: F)
        ensures
            r == self@,
    {
        self.0
    }
}

} // verus!
