//! The handle through which a coroutine body yields to its driver.
use core::marker::PhantomData;
use vstd::prelude::*;

use crate::traits::AsCoro;
use crate::future::{Poll, Resumable, SharedState};

verus! {

/// A yield handle to facilitate communication between a [crate::Coro] and the logic driving it.
///
/// The only way to obtain a [Handle] is by constructing a [crate::Coro] (via the
/// [AsCoro::as_coro_fn] or [crate::IntoCoro::into_coro_fn] methods or calling
/// [crate::Coro::from] on an appropriate function).
#[derive(Debug)]
pub struct Handle<S, R = ()> {
    _snd: PhantomData<S>,
    _rcv: PhantomData<R>,
}

/// A handle for a coroutine that neither emits nor receives anything useful.
pub type HandOwl = Handle<(), ()>;

impl<S, R> Clone for Handle<S, R> {
    fn clone(&self) -> (h: Self)
        ensures
            h == *self,
    {
        *self
    }
}

impl<S, R> Copy for Handle<S, R> {

}

impl<S, R> Handle<S, R> {
    pub(crate) fn new() -> (h: Self) {
        Handle { _snd: PhantomData, _rcv: PhantomData }
    }

    /// Yield `snd` back to the code that owns the running coroutine, requesting it to map it
    /// into an `R`.
    ///
    /// The result is the yield point itself: polling it the first time hands `snd` to the driver
    /// and suspends; polling it again returns the driver's response.
    pub fn yield_value(&self, snd: S) -> (y: Yield<S, R>)
        ensures
            y == Yield::<S, R>::fresh(snd),
            !y.is_polled(),
            y.value() == Some(snd),
            y.inv(),
            !y.awaiting(),
    {
        Yield { polled: false, s: Some(snd), _r: PhantomData }
    }

    /// Defer yielding to another coroutine until it completes: the result is the body that
    /// `coro_fn` builds from this handle. Polled in place of the caller, with the caller's
    /// channel, its yields reach the same driver; [Handle::and_then] continues with its result
    /// (see [crate::laws::law_and_then_runs_in_sequence]).
    pub fn yield_from<T, G, F>(&self, coro_fn: G) -> (fut: F) where
        G: FnOnce(Handle<S, R>) -> F,
        F: Resumable<S, R, T>,

        requires
            call_requires(coro_fn, (*self,)),
        ensures
            call_ensures(coro_fn, (*self,), fut),
    {
        coro_fn(*self)
    }

    /// Defer yielding to another coroutine type until it completes: the result is the body that
    /// `C::as_coro_fn` builds from this handle.
    pub fn yield_from_type<C, T>(&self) -> (fut: C::Fut) where
        C: AsCoro<Snd = S, Rcv = R, Out = T>,

        ensures
            call_ensures(C::as_coro_fn, (*self,), fut),
            fut.inv(),
            !fut.awaiting(),
    {
        C::as_coro_fn(*self)
    }
}

/// The yield point of a coroutine: a body that suspends once, handing a value to the driver,
/// and then completes with the driver's response.
#[derive(Debug)]
pub struct Yield<S, R> {
    polled: bool,
    s: Option<S>,
    _r: PhantomData<R>,
}

impl<S, R> Yield<S, R> {
    /// A fresh yield point that will hand `v` to the driver.
    pub closed spec fn fresh(v: S) -> Self {
        Yield { polled: false, s: Some(v), _r: PhantomData }
    }

    /// The yield point has already handed its value to the driver.
    pub closed spec fn is_polled(&self) -> bool {
        self.polled
    }

    /// The value still to be handed to the driver.
    pub closed spec fn value(&self) -> Option<S> {
        self.s
    }
}

impl<S, R> Resumable<S, R, R> for Yield<S, R> {
    closed spec fn inv(&self) -> bool {
        self.polled || self.s is Some
    }

    closed spec fn awaiting(&self) -> bool {
        self.polled
    }

    closed spec fn step(&self, cx: SharedState<S, R>) -> (Self, SharedState<S, R>, Poll<R>) {
        if self.polled {
            (*self, SharedState { s: cx.s, r: None }, Poll::Ready(cx.r->0))
        } else {
            (
                Yield { polled: true, s: None, _r: self._r },
                SharedState { s: self.s, r: cx.r },
                Poll::Pending,
            )
        }
    }

    fn poll(&mut self, cx: &mut SharedState<S, R>) -> (p: Poll<R>) {
        if self.polled {
            Poll::Ready(cx.r.take().unwrap())
        } else {
            self.polled = true;
            cx.s = self.s.take();
            Poll::Pending
        }
    }
}

/// What the verifier knows of a yield point as a body: it may be polled while it still holds its
/// value or has handed it over, and it waits for a response exactly once it has handed it over.
pub proof fn law_yield_as_body<S, R>(y: Yield<S, R>)
    ensures
        y.inv() == (y.is_polled() || y.value() is Some),
        y.awaiting() == y.is_polled(),
{
}

/// A fresh yield point has not handed over its value yet, and still holds it.
pub proof fn law_fresh_yield<S, R>(v: S)
    ensures
        !Yield::<S, R>::fresh(v).is_polled(),
        Yield::<S, R>::fresh(v).value() == Some(v),
        Yield::<S, R>::fresh(v).inv(),
        !Yield::<S, R>::fresh(v).awaiting(),
{
}

/// A fresh yield point hands its value to the driver and suspends, waiting for a response.
pub proof fn law_yield_hands_value_to_driver<S, R>(y: Yield<S, R>, v: S)
    requires
        !y.is_polled(),
        y.value() == Some(v),
    ensures
        ({
            let (next, cx, p) = y.step(SharedState::with_reply(None));
            &&& p is Pending
            &&& cx.s == Some(v)
            &&& cx.r is None
            &&& next.is_polled()
            &&& next.value() is None
            &&& next.awaiting()
        }),
{
}

/// A suspended yield point completes with exactly the response the driver sent, consuming it, and
/// is itself left unchanged.
pub proof fn law_yield_receives_response<S, R>(y: Yield<S, R>, r: R)
    requires
        y.is_polled(),
    ensures
        ({
            let (next, cx, p) = y.step(SharedState::with_reply(Some(r)));
            &&& p == Poll::<R>::Ready(r)
            &&& next == y
            &&& cx.s is None
            &&& cx.r is None
        }),
{
}

} // verus!
