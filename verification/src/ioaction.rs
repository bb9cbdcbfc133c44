//! IO that may be performed synchronously or asynchronously.

use vstd::prelude::*;

use crate::maybe_future::blocking::Blocking;

verus! {

/// IO that may be performed synchronously or asynchronously.
pub trait IoAction: Sized {
    /// What the action gives.
    type Output;

    /// Whether the action can be run.
    spec fn can_run(&self) -> bool;

    /// Whether the action can give this.
    spec fn can_give(&self, output: Self::Output) -> bool;

    /// Block waiting for the action to complete
    fn wait(self) -> (r: Self::Output)
        requires
            self.can_run(),
        ensures
            self.can_give(r),
    ;
}

impl<R, F: FnOnce() -> R> IoAction for Blocking<F> {
    type Output = R;

    open spec fn can_run(&self) -> bool {
        call_requires(self@, ())
    }

    open spec fn can_give(&self, output: R) -> bool {
        call_ensures(self@, (), output)
    }

    fn wait(self) -> (r: R) {
        (self.into_inner())()
    }
}

} // verus!
