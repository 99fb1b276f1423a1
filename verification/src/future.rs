//! Suspendable computations and the channel they share with their driver.
use vstd::prelude::*;

verus! {

/// The outcome of polling a suspendable computation.
#[derive(Debug)]
pub enum Poll<T> {
    /// The computation has finished with this value.
    Ready(T),
    /// The computation has suspended itself and must be polled again later.
    Pending,
}

/// The slot through which a running coroutine and the code driving it exchange values.
///
/// `s` holds the value that the coroutine emitted at its latest yield point and that the
/// driver has not collected yet; `r` holds the driver's response that the coroutine has not
/// consumed yet.
#[derive(Debug)]
pub struct SharedState<S, R> {
    /// A value yielded by the coroutine, waiting to be collected by the driver.
    pub s: Option<S>,
    /// A response sent by the driver, waiting to be received by the coroutine.
    pub r: Option<R>,
}

impl<S, R> SharedState<S, R> {
    /// The channel with nothing in flight in either direction except, possibly, a response.
    pub open spec fn with_reply(r: Option<R>) -> Self {
        SharedState { s: None, r }
    }
}

impl<S, R> Default for SharedState<S, R> {
    fn default() -> (st: Self)
        ensures
            st.s is None,
            st.r is None,
    {
        SharedState { s: None, r: None }
    }
}

/// A suspendable computation that talks to its driver through a [SharedState]: the body of a
/// coroutine that emits values of type `S`, receives values of type `R` in response, and
/// finally produces a value of type `O`.
///
/// A body may only suspend at a yield point (see [crate::Handle::yield_value]): whenever
/// [Resumable::poll] returns [Poll::Pending] it has placed a value in the channel for the
/// driver, and the next poll hands it the driver's response.
///
/// The spec functions below describe the body to the verifier; an implementation checked by
/// Verus defines them. They have `arbitrary()` defaults, which say nothing about a body, because
/// compiled code keeps a trait's spec functions as methods: a body written in plain Rust could
/// not implement the trait otherwise.
pub trait Resumable<S, R, O>: Sized {
    /// The body is in a state from which it may be polled.
    open spec fn inv(&self) -> bool {
        arbitrary()
    }

    /// The body is suspended at a yield point and expects a response on its next poll.
    open spec fn awaiting(&self) -> bool {
        arbitrary()
    }

    /// One poll: the body's next state, the channel after the poll, and the poll's outcome.
    open spec fn step(&self, cx: SharedState<S, R>) -> (Self, SharedState<S, R>, Poll<O>) {
        arbitrary()
    }

    /// Run the body until it yields or completes.
    fn poll(&mut self, cx: &mut SharedState<S, R>) -> (p: Poll<O>)
        requires
            old(self).inv(),
            old(cx).s is None,
            old(self).awaiting() <==> old(cx).r is Some,
        ensures
            (*final(self), *final(cx), p) == old(self).step(*old(cx)),
            p is Pending ==> {
                &&& final(self).inv()
                &&& final(self).awaiting()
                &&& final(cx).s is Some
                &&& final(cx).r is None
            },
            p is Ready ==> final(cx).s is None && final(cx).r is None,
    ;
}

} // verus!
