//! Types that construct coroutines.
use vstd::prelude::*;

use crate::coro::{Coro, ReadyCoro};
use crate::future::Resumable;
use crate::handle::Handle;

verus! {

/// A type that can construct a [Coro].
///
/// If you need to make use of data held within `self` in order to produce the coroutine's body
/// then you should look at implementing [IntoCoro] instead.
pub trait AsCoro {
    /// The type that will be sent at each yield point
    type Snd;
    /// The type expected to be received at each yield point
    type Rcv;
    /// The output of running the coroutine to completion
    type Out;
    /// The body of the coroutine
    type Fut: Resumable<Self::Snd, Self::Rcv, Self::Out>;

    /// Return the body that [AsCoro::as_coro] runs to completion, in its initial state.
    fn as_coro_fn(handle: Handle<Self::Snd, Self::Rcv>) -> (fut: Self::Fut)
        ensures
            fut.inv(),
            !fut.awaiting(),
    ;

    /// Initialize a new [Coro] using this type as a constructor.
    fn as_coro() -> (c: ReadyCoro<Self::Rcv, Self::Out, Self::Fut, Self::Snd>)
        ensures
            exists|h: Handle<Self::Snd, Self::Rcv>| call_ensures(Self::as_coro_fn, (h,), c.body()),
            c.reply() is None,
            !c.is_finished(),
            c.body().inv(),
            !c.body().awaiting(),
    {
        Coro::start(Self::as_coro_fn(Handle::new()))
    }
}

/// A type that can be converted into a [Coro] from a value.
///
/// If you don't need to make use of data held within `self` in order to produce the coroutine's
/// body then you should look at implementing [AsCoro] instead.
pub trait IntoCoro: Sized {
    /// The type that will be sent at each yield point
    type Snd;
    /// The type expected to be received at each yield point
    type Rcv;
    /// The output of running the coroutine to completion
    type Out;
    /// The body of the coroutine
    type Fut: Resumable<Self::Snd, Self::Rcv, Self::Out>;

    /// Provide the body that [IntoCoro::into_coro] runs to completion, in its initial state.
    fn into_coro_fn(self, handle: Handle<Self::Snd, Self::Rcv>) -> (fut: Self::Fut)
        ensures
            fut.inv(),
            !fut.awaiting(),
    ;

    /// Initialize a new [Coro] from a value.
    fn into_coro(self) -> (c: ReadyCoro<Self::Rcv, Self::Out, Self::Fut, Self::Snd>)
        ensures
            exists|h: Handle<Self::Snd, Self::Rcv>|
                call_ensures(Self::into_coro_fn, (self, h), c.body()),
            c.reply() is None,
            !c.is_finished(),
            c.body().inv(),
            !c.body().awaiting(),
    {
        Coro::start(self.into_coro_fn(Handle::new()))
    }
}

} // verus!
