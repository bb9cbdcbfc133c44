//! IO that may be performed synchronously or asynchronously.

use vstd::prelude::*;

use crate::endpoint::Poll;

pub mod blocking;
pub mod future;

verus! {

/// What can be handed to another thread, where there are threads.
pub trait NonWasmSend {

}

impl<T> NonWasmSend for T {

}

/// IO that may be performed synchronously or asynchronously.
pub trait MaybeFuture: Sized + NonWasmSend {
    /// What the action gives.
    type Output;

    /// Whether the action can be run.
    spec fn can_wait(&self) -> bool;

    /// Whether the action can give this.
    spec fn gives(&self, output: Self::Output) -> bool;

    /// Block waiting for the action to complete
    fn wait(self) -> (r: Self::Output)
        requires
            self.can_wait(),
        ensures
            self.gives(r),
    ;

    /// Apply a function to the output.
    fn map<T: FnOnce(Self::Output) -> R, R>(self, f: T) -> (r: Mapped<Self, T>)
        ensures
            r.wrapped() == self,
            r.func() == f,
    {
        Mapped::new(self, f)
    }
}

/// Something that is there already.
pub struct Ready<T>(pub T);

impl<T> MaybeFuture for Ready<T> {
    type Output = T;

    open spec fn can_wait(&self) -> bool {
        true
    }

    open spec fn gives(&self, output: T) -> bool {
        output == self.0
    }

    fn wait(self) -> (r: T) {
        self.0
    }
}

/// An action to whose output a function is applied.
#[verifier::reject_recursive_types(F)]
#[verifier::reject_recursive_types(T)]
pub struct Mapped<F, T> {
    wrapped: F,
    func: T,
}

impl<F, T> Mapped<F, T> {
    /// The action.
    pub closed spec fn wrapped(&self) -> F {
        self.wrapped
    }

    /// The function.
    pub closed spec fn func(&self) -> T {
        self.func
    }

    /// Apply a function to the output of an action.
    pub fn new(wrapped: F, func: T) -> (r: Mapped<F, T>)
        ensures
            r.wrapped() == wrapped,
            r.func() == func,
    {
        Mapped { wrapped, func }
    }
}

impl<F: MaybeFuture, R, T: FnOnce(F::Output) -> R> MaybeFuture for Mapped<F, T> {
    type Output = R;

    open spec fn can_wait(&self) -> bool {
        &&& self.wrapped().can_wait()
        &&& forall|x: F::Output|
            self.wrapped().gives(x) ==> #[trigger] call_requires(self.func(), (x,))
    }

    open spec fn gives(&self, output: R) -> bool {
        exists|x: F::Output|
            self.wrapped().gives(x) && #[trigger] call_ensures(self.func(), (x,), output)
    }

    fn wait(self) -> (r: R) {
        let Mapped { wrapped, func } = self;
        assert(self.wrapped() == wrapped && self.func() == func);
        let output = wrapped.wait();
        let r = func(output);
        assert(wrapped.gives(output) && call_ensures(func, (output,), r));
        r
    }
}

/// A future to whose output a function is applied, once.
#[verifier::reject_recursive_types(T)]
pub struct MapFut<T> {
    func: Option<T>,
}

impl<T> MapFut<T> {
    /// The function, until it was applied.
    pub closed spec fn func(&self) -> Option<T> {
        self.func
    }

    /// Apply a function to what a future will give.
    pub fn new(func: T) -> (r: MapFut<T>)
        ensures
            r.func() == Some(func),
    {
        MapFut { func: Some(func) }
    }

    /// Go on, by what polling the future gave. It may not be polled after it was ready.
    pub fn poll<O, R>(&mut self, polled: Poll<O>) -> (r: Poll<R>) where T: FnOnce(O) -> R
        requires
            old(self).func() is Some,
            polled matches Poll::Ready(x) ==> call_requires(old(self).func()->0, (x,)),
        ensures
            match polled {
                Poll::Ready(x) => r matches Poll::Ready(y) && call_ensures(
                    old(self).func()->0,
                    (x,),
                    y,
                ) && final(self).func() is None,
                Poll::Pending => r is Pending && final(self).func() == old(self).func(),
            },
    {
        match polled {
            Poll::Ready(x) => {
                let mut func: Option<T> = None;
                std::mem::swap(&mut func, &mut self.func);
                match func {
                    Some(func) => Poll::Ready(func(x)),
                    None => vstd::pervasive::unreached(),
                }
            },
            Poll::Pending => Poll::Pending,
        }
    }
}

} // verus!
