//! Running coroutines: the [Coro] typestate machine and the loops that drive it.
use core::marker::PhantomData;
use vstd::prelude::*;

use crate::future::{Poll, Resumable, SharedState};
use crate::handle::Handle;

verus! {

/// The lifecycle state of a running [Coro]: either [Pending] or [Ready].
pub trait Lifecycle {
    /// The coroutine may be resumed (rather than waiting for a response).
    spec fn is_ready() -> bool;
}

/// Ready for the next call to [Coro::resume].
#[derive(Debug)]
pub struct Ready;

impl Lifecycle for Ready {
    open spec fn is_ready() -> bool {
        true
    }
}

/// Awaiting a call to [Coro::send].
#[derive(Debug)]
pub struct Pending;

impl Lifecycle for Pending {
    open spec fn is_ready() -> bool {
        false
    }
}

/// A [Coro] that is ready to be resumed by calling [resume][Coro::resume].
pub type ReadyCoro<R, O, F, S> = Coro<R, O, F, Ready, S>;

/// A [Coro] that is pending a response from [send][Coro::send].
pub type PendingCoro<R, O, F, S> = Coro<R, O, F, Pending, S>;

/// A Generator is a simplified [Coro] that only emits values and does not return a final value.
pub type Generator<T, F> = Coro<(), (), F, Ready, T>;

/// A running coroutine that can make progress by calling [resume][Coro::resume].
///
/// A `Coro` can be constructed directly from a function building its body using [Coro::from]
/// or via either of the [crate::AsCoro] or [crate::IntoCoro] traits.
pub struct Coro<R, O, F, L, S> where F: Resumable<S, R, O>, L: Lifecycle {
    _lifecycle: L,
    state: SharedState<S, R>,
    fut: Option<F>,
    _out: PhantomData<O>,
}

/// The intermediate state of a [Coro] while it is executing
#[must_use]
pub enum CoroState<S, T, R, F> where F: Resumable<S, R, T> {
    /// The [Coro] yielded via [yield_value][Handle::yield_value]. Call the [send][Coro::send]
    /// method on the inner [PendingCoro] to send a value back into the coroutine and convert
    /// it back to a [ReadyCoro] which can be [resumed][Coro::resume].
    Pending(PendingCoro<R, T, F, S>, S),
    /// The [Coro] is now complete and has returned a value.
    Complete(T),
}

/// Driving `body`, with `reply` waiting in its channel, completes with `out` after it yields
/// `sent[0]`, `sent[1]`, ... in turn and receives `replies[0]`, `replies[1]`, ... in response.
pub open spec fn run_completes<S, R, O, F: Resumable<S, R, O>>(
    body: F,
    reply: Option<R>,
    sent: Seq<S>,
    replies: Seq<R>,
    out: O,
) -> bool
    decreases sent.len(),
{
    let (next, cx, p) = body.step(SharedState::with_reply(reply));
    match p {
        Poll::Ready(o) => sent.len() == 0 && replies.len() == 0 && o == out,
        Poll::Pending => {
            &&& sent.len() > 0
            &&& replies.len() == sent.len()
            &&& cx.s == Some(sent[0])
            &&& run_completes(next, Some(replies[0]), sent.drop_first(), replies.drop_first(), out)
        },
    }
}

/// `n` unit responses: what a [Generator] receives for the values it yields.
pub open spec fn units(n: nat) -> Seq<()> {
    Seq::new(n, |_i: int| ())
}

/// Driving `body`, with `reply` waiting in its channel, completes after at most `n` yields
/// whenever each yielded value `s` is answered by some response `r` with `allowed(s, r)`.
pub open spec fn completes_within<S, R, O, F: Resumable<S, R, O>>(
    body: F,
    reply: Option<R>,
    allowed: spec_fn(S, R) -> bool,
    n: nat,
) -> bool
    decreases n,
{
    let (next, cx, p) = body.step(SharedState::with_reply(reply));
    match p {
        Poll::Ready(_) => true,
        Poll::Pending => n > 0 && forall|r: R| #[trigger]
            allowed(cx.s->0, r) ==> completes_within(next, Some(r), allowed, (n - 1) as nat),
    }
}

/// The responses that `f` may give to a yielded value.
pub open spec fn responses_of<S, R, G: FnMut(S) -> R>(f: G) -> spec_fn(S, R) -> bool {
    |s: S, r: R| call_ensures(f, (s,), r)
}

/// Any response at all.
pub open spec fn any_response<S, R>() -> spec_fn(S, R) -> bool {
    |s: S, r: R| true
}

/// A run is one poll that yields `s` followed by a run that starts with the response `r` to it.
pub proof fn law_run_prepends<S, R, O, F: Resumable<S, R, O>>(
    body: F,
    reply: Option<R>,
    s: S,
    r: R,
    sent: Seq<S>,
    replies: Seq<R>,
    out: O,
)
    requires
        body.step(SharedState::with_reply(reply)).2 is Pending,
        body.step(SharedState::with_reply(reply)).1.s == Some(s),
        run_completes(body.step(SharedState::with_reply(reply)).0, Some(r), sent, replies, out),
    ensures
        run_completes(body, reply, seq![s] + sent, seq![r] + replies, out),
{
    assert((seq![s] + sent).drop_first() == sent);
    assert((seq![r] + replies).drop_first() == replies);
}

/// A bound on the yields of a run is also met by any larger bound.
pub proof fn law_completes_within_larger<S, R, O, F: Resumable<S, R, O>>(
    body: F,
    reply: Option<R>,
    allowed: spec_fn(S, R) -> bool,
    n: nat,
    m: nat,
)
    requires
        completes_within(body, reply, allowed, n),
        n <= m,
    ensures
        completes_within(body, reply, allowed, m),
    decreases n,
{
    let (next, cx, p) = body.step(SharedState::with_reply(reply));
    if p is Pending {
        assert forall|r: R| #[trigger] allowed(cx.s->0, r) implies completes_within(
            next,
            Some(r),
            allowed,
            (m - 1) as nat,
        ) by {
            law_completes_within_larger(next, Some(r), allowed, (n - 1) as nat, (m - 1) as nat);
        }
    }
}

/// `f` gives at most one response to each value.
pub open spec fn answers_uniquely<S, R, G: FnMut(S) -> R>(f: G) -> bool {
    forall|s: S, r1: R, r2: R| #[trigger]
        call_ensures(f, (s,), r1) && #[trigger] call_ensures(f, (s,), r2) ==> r1 == r2
}

/// Each `replies[i]` is a response that `f` may give to `sent[i]`.
pub open spec fn answered_by<S, R, G: FnMut(S) -> R>(f: G, sent: Seq<S>, replies: Seq<R>) -> bool {
    &&& sent.len() == replies.len()
    &&& forall|i: int| 0 <= i < sent.len() ==> call_ensures(f, (sent[i],), #[trigger] replies[i])
}

/// Driven by a step function that answers each value in one way, a body runs in one way: the
/// values it yields, the responses it receives and its result are determined, so the result of
/// [Coro::run_sync] is the result of the run.
pub proof fn law_run_determined_by_step_fn<S, R, O, F: Resumable<S, R, O>, G: FnMut(S) -> R>(
    body: F,
    reply: Option<R>,
    f: G,
    sent1: Seq<S>,
    replies1: Seq<R>,
    out1: O,
    sent2: Seq<S>,
    replies2: Seq<R>,
    out2: O,
)
    requires
        answers_uniquely(f),
        run_completes(body, reply, sent1, replies1, out1),
        answered_by(f, sent1, replies1),
        run_completes(body, reply, sent2, replies2, out2),
        answered_by(f, sent2, replies2),
    ensures
        sent1 == sent2,
        replies1 == replies2,
        out1 == out2,
    decreases sent1.len(),
{
    let (next, cx, p) = body.step(SharedState::with_reply(reply));
    if p is Pending {
        assert(call_ensures(f, (sent1[0],), replies1[0]));
        assert(call_ensures(f, (sent2[0],), replies2[0]));
        assert(answered_by(f, sent1.drop_first(), replies1.drop_first())) by {
            assert forall|i: int| 0 <= i < sent1.drop_first().len() implies call_ensures(
                f,
                (sent1.drop_first()[i],),
                #[trigger] replies1.drop_first()[i],
            ) by {
                assert(call_ensures(f, (sent1[i + 1],), replies1[i + 1]));
            }
        }
        assert(answered_by(f, sent2.drop_first(), replies2.drop_first())) by {
            assert forall|i: int| 0 <= i < sent2.drop_first().len() implies call_ensures(
                f,
                (sent2.drop_first()[i],),
                #[trigger] replies2.drop_first()[i],
            ) by {
                assert(call_ensures(f, (sent2[i + 1],), replies2[i + 1]));
            }
        }
        law_run_determined_by_step_fn(
            next,
            Some(replies1[0]),
            f,
            sent1.drop_first(),
            replies1.drop_first(),
            out1,
            sent2.drop_first(),
            replies2.drop_first(),
            out2,
        );
        assert(sent1 =~= seq![sent1[0]] + sent1.drop_first());
        assert(sent2 =~= seq![sent2[0]] + sent2.drop_first());
        assert(replies1 =~= seq![replies1[0]] + replies1.drop_first());
        assert(replies2 =~= seq![replies2[0]] + replies2.drop_first());
    } else {
        assert(sent1 =~= sent2);
        assert(replies1 =~= replies2);
    }
}

impl<R, O, F, L, S> Coro<R, O, F, L, S> where F: Resumable<S, R, O>, L: Lifecycle {
    /// Nothing is left in the channel for the driver; unless the body has completed (which
    /// only a ready coroutine can show, through [Coro::next]), it can be polled, a ready
    /// coroutine holds a response exactly when its body waits for one, and a pending one
    /// waits for a response that has not been sent yet.
    #[verifier::type_invariant]
    spec fn well_formed(self) -> bool {
        &&& self.state.s is None
        &&& match self.fut {
            None => L::is_ready(),
            Some(f) => {
                &&& f.inv()
                &&& if L::is_ready() {
                    f.awaiting() <==> self.state.r is Some
                } else {
                    f.awaiting() && self.state.r is None
                }
            },
        }
    }

    /// The body of the coroutine in its current state.
    pub closed spec fn body(&self) -> F {
        self.fut->0
    }

    /// The body has completed: the coroutine can no longer be resumed.
    pub closed spec fn is_finished(&self) -> bool {
        self.fut is None
    }

    /// The response waiting to be received by the body when it is next resumed.
    pub closed spec fn reply(&self) -> Option<R> {
        self.state.r
    }
}

impl<R, O, F, S> Coro<R, O, F, Ready, S> where F: Resumable<S, R, O> {
    /// A coroutine that will run `fut` from its start.
    pub(crate) fn start(fut: F) -> (c: Self)
        requires
            fut.inv(),
            !fut.awaiting(),
        ensures
            c.body() == fut,
            c.reply() is None,
            !c.is_finished(),
    {
        Coro { _lifecycle: Ready, state: SharedState::default(), fut: Some(fut), _out: PhantomData }
    }

    /// Build a coroutine from a function that builds its body from a [Handle].
    ///
    /// ```ignore
    /// let coro = Coro::from(|handle: Handle<usize, bool>| handle.yield_value(42));
    /// ```
    pub fn from<G>(mut f: G) -> (c: Self) where G: FnMut(Handle<S, R>) -> F
        requires
            forall|h: Handle<S, R>| call_requires(f, (h,)),
            forall|h: Handle<S, R>, fut: F| #[trigger]
                call_ensures(f, (h,), fut) ==> fut.inv() && !fut.awaiting(),
        ensures
            c.reply() is None,
            !c.is_finished(),
            exists|h: Handle<S, R>| call_ensures(f, (h,), c.body()),
    {
        let fut = f(Handle::new());
        Self::start(fut)
    }

    /// A description of the coroutine for debugging output.
    pub fn debug_string(&self) -> (s: String)
        ensures
            s@ == "Coro { lifecycle: Ready }"@,
    {
        String::from_str("Coro { lifecycle: Ready }")
    }

    /// Run the [Coro] to its next yield point, returning a [CoroState].
    ///
    /// The body is polled once with the pending response, if any: a body that completes gives
    /// [CoroState::Complete] with its result, a body that yields gives [CoroState::Pending] with
    /// the suspended coroutine and the yielded value.
    pub fn resume(self) -> (res: CoroState<S, O, R, F>)
        requires
            !self.is_finished(),
        ensures
            ({
                let (next, cx, p) = self.body().step(SharedState::with_reply(self.reply()));
                match res {
                    CoroState::Complete(o) => p == Poll::<O>::Ready(o),
                    CoroState::Pending(c, s) => {
                        &&& p is Pending
                        &&& cx.s == Some(s)
                        &&& c.body() == next
                        &&& c.reply() is None
                        &&& !c.is_finished()
                        &&& c.body().inv()
                        &&& c.body().awaiting()
                    },
                }
            }),
    {
        proof {
            use_type_invariant(&self);
        }
        let Coro { _lifecycle, mut state, fut, _out } = self;
        let mut fut = fut.unwrap();
        match fut.poll(&mut state) {
            Poll::Ready(val) => CoroState::Complete(val),
            Poll::Pending => {
                let s = state.s.take().unwrap();
                CoroState::Pending(Coro { _lifecycle: Pending, state, fut: Some(fut), _out }, s)
            },
        }
    }

    /// Run this [Coro] to completion using the provided synchronous step function, which maps
    /// each yielded value to the response sent back into the coroutine.
    ///
    /// The run must be known to end: some `n` bounds the yields of the body whatever responses
    /// `step_fn` gives.
    ///
    /// Equivalent to:
    /// ```ignore
    /// let mut coro = my_coro;
    /// loop {
    ///     coro = match coro.resume() {
    ///         CoroState::Complete(res) => return res,
    ///         CoroState::Pending(c, s) => c.send((step_fn)(s)),
    ///     };
    /// }
    /// ```
    pub fn run_sync<G>(self, step_fn: G) -> (out: O) where G: FnMut(S) -> R
        requires
            !self.is_finished(),
            exists|n: nat| completes_within(self.body(), self.reply(), responses_of(step_fn), n),
            forall|s: S| call_requires(step_fn, (s,)),
        ensures
            exists|sent: Seq<S>, replies: Seq<R>|
                {
                    &&& run_completes(self.body(), self.reply(), sent, replies, out)
                    &&& forall|i: int|
                        0 <= i < sent.len() ==> call_ensures(step_fn, (sent[i],), #[trigger] replies[i])
                },
    {
        let ghost body0 = self.body();
        let ghost reply0 = self.reply();
        let ghost mut n: nat = choose|n: nat|
            completes_within(self.body(), self.reply(), responses_of(step_fn), n);
        let mut step = step_fn;
        let ghost mut sent: Seq<S> = Seq::empty();
        let ghost mut replies: Seq<R> = Seq::empty();
        let mut coro = self;
        loop
            invariant
                body0 == self.body(),
                reply0 == self.reply(),
                step == step_fn,
                !coro.is_finished(),
                completes_within(coro.body(), coro.reply(), responses_of(step), n),
                forall|s: S| call_requires(step, (s,)),
                sent.len() == replies.len(),
                forall|i: int|
                    0 <= i < sent.len() ==> call_ensures(step, (sent[i],), #[trigger] replies[i]),
                forall|ss: Seq<S>, rs: Seq<R>, o: O| #[trigger]
                    run_completes(coro.body(), coro.reply(), ss, rs, o) ==> run_completes(
                        body0,
                        reply0,
                        sent + ss,
                        replies + rs,
                        o,
                    ),
            decreases n,
        {
            let ghost body = coro.body();
            let ghost reply = coro.reply();
            coro = match coro.resume() {
                CoroState::Complete(res) => {
                    proof {
                        assert(run_completes(body, reply, Seq::empty(), Seq::empty(), res));
                        assert(run_completes(
                            body0,
                            reply0,
                            sent + Seq::<S>::empty(),
                            replies + Seq::<R>::empty(),
                            res,
                        ));
                        assert(sent + Seq::<S>::empty() == sent);
                        assert(replies + Seq::<R>::empty() == replies);
                    }
                    return res;
                },
                CoroState::Pending(c, s) => {
                    let r = step(s);
                    let next = c.send(r);
                    proof {
                        let (nb, cx, p) = body.step(SharedState::with_reply(reply));
                        assert(cx.s->0 == s);
                        assert(responses_of(step)(cx.s->0, r));
                        assert(completes_within(nb, Some(r), responses_of(step), (n - 1) as nat));
                        assert forall|ss: Seq<S>, rs: Seq<R>, o: O| #[trigger]
                            run_completes(next.body(), next.reply(), ss, rs, o) implies run_completes(
                            body0,
                            reply0,
                            sent.push(s) + ss,
                            replies.push(r) + rs,
                            o,
                        ) by {
                            law_run_prepends(body, reply, s, r, ss, rs, o);
                            assert(sent + (seq![s] + ss) == sent.push(s) + ss);
                            assert(replies + (seq![r] + rs) == replies.push(r) + rs);
                        }
                        sent = sent.push(s);
                        replies = replies.push(r);
                        n = (n - 1) as nat;
                    }
                    next
                },
            };
        }
    }
}

impl<R, O, F, S> Coro<R, O, F, Pending, S> where F: Resumable<S, R, O> {
    /// Send a response to this [Coro] following a call to [Handle::yield_value].
    ///
    /// Calling this method converts a [PendingCoro] into a [ReadyCoro], allowing it to be resumed
    /// again (and reassigned to an existing variable).
    pub fn send(self, r: R) -> (c: ReadyCoro<R, O, F, S>)
        ensures
            c.body() == self.body(),
            c.reply() == Some(r),
            !c.is_finished(),
    {
        proof {
            use_type_invariant(&self);
        }
        let Coro { _lifecycle, mut state, fut, _out } = self;
        state.r = Some(r);
        Coro { _lifecycle: Ready, state, fut, _out }
    }

    /// A description of the coroutine for debugging output.
    pub fn debug_string(&self) -> (s: String)
        ensures
            s@ == "Coro { lifecycle: Pending }"@,
    {
        String::from_str("Coro { lifecycle: Pending }")
    }
}

impl<T, F> Coro<(), (), F, Ready, T> where F: Resumable<T, (), ()> {
    /// Run the generator to its next yield point and return the value it yields, or `None` once
    /// its body completes. A yielded value is answered with `()` at once, so the generator stays
    /// ready without going through [Coro::send].
    pub fn next(&mut self) -> (v: Option<T>)
        requires
            !old(self).is_finished(),
        ensures
            ({
                let (next, cx, p) = old(self).body().step(SharedState::with_reply(old(self).reply()));
                match v {
                    None => p is Ready && final(self).is_finished(),
                    Some(x) => {
                        &&& p is Pending
                        &&& cx.s == Some(x)
                        &&& final(self).body() == next
                        &&& final(self).reply() == Some(())
                        &&& !final(self).is_finished()
                    },
                }
            }),
    {
        let mut cur = Coro {
            _lifecycle: Ready,
            state: SharedState::default(),
            fut: None,
            _out: PhantomData,
        };
        core::mem::swap(self, &mut cur);
        proof {
            use_type_invariant(&cur);
        }
        let Coro { _lifecycle, mut state, fut, _out } = cur;
        let mut fut = fut.unwrap();
        match fut.poll(&mut state) {
            Poll::Pending => {
                let val = state.s.take().unwrap();
                state.r = Some(());
                *self = Coro { _lifecycle, state, fut: Some(fut), _out };
                Some(val)
            },
            Poll::Ready(()) => None,
        }
    }

    /// Run the generator to completion, collecting the values it yields in order.
    ///
    /// The run must be known to end: some `n` bounds the yields of the body.
    pub fn collect(self) -> (out: Vec<T>)
        requires
            !self.is_finished(),
            exists|n: nat| completes_within(self.body(), self.reply(), any_response(), n),
        ensures
            run_completes(self.body(), self.reply(), out@, units(out.len() as nat), ()),
    {
        let ghost body0 = self.body();
        let ghost reply0 = self.reply();
        let ghost mut n: nat = choose|n: nat|
            completes_within(self.body(), self.reply(), any_response(), n);
        let mut g = self;
        let mut out: Vec<T> = Vec::new();
        loop
            invariant
                body0 == self.body(),
                reply0 == self.reply(),
                !g.is_finished(),
                completes_within(g.body(), g.reply(), any_response(), n),
                forall|ss: Seq<T>, rs: Seq<()>, o: ()| #[trigger]
                    run_completes(g.body(), g.reply(), ss, rs, o) ==> run_completes(
                        body0,
                        reply0,
                        out@ + ss,
                        units(out.len() as nat) + rs,
                        o,
                    ),
            decreases n,
        {
            let ghost body = g.body();
            let ghost reply = g.reply();
            match g.next() {
                None => {
                    proof {
                        assert(run_completes(body, reply, Seq::empty(), Seq::empty(), ()));
                        assert(run_completes(
                            body0,
                            reply0,
                            out@ + Seq::<T>::empty(),
                            units(out.len() as nat) + Seq::<()>::empty(),
                            (),
                        ));
                        assert(out@ + Seq::<T>::empty() == out@);
                        assert(units(out.len() as nat) + Seq::<()>::empty() == units(
                            out.len() as nat,
                        ));
                    }
                    return out;
                },
                Some(x) => {
                    proof {
                        assert(any_response::<T, ()>()(x, ()));
                        assert forall|ss: Seq<T>, rs: Seq<()>, o: ()| #[trigger]
                            run_completes(g.body(), g.reply(), ss, rs, o) implies run_completes(
                            body0,
                            reply0,
                            out@.push(x) + ss,
                            units((out.len() + 1) as nat) + rs,
                            o,
                        ) by {
                            law_run_prepends(body, reply, x, (), ss, rs, o);
                            assert(out@ + (seq![x] + ss) == out@.push(x) + ss);
                            assert(units(out.len() as nat) + (seq![()] + rs) == units(
                                (out.len() + 1) as nat,
                            ) + rs);
                        }
                        n = (n - 1) as nat;
                    }
                    out.push(x);
                },
            }
        }
    }
}

impl<S, T, R, F> CoroState<S, T, R, F> where F: Resumable<S, R, T> {
    /// Returns `true` if this is a [CoroState::Pending] value.
    pub fn is_pending(&self) -> (b: bool)
        ensures
            b == (self is Pending),
    {
        match self {
            CoroState::Pending(_, _) => true,
            CoroState::Complete(_) => false,
        }
    }

    /// Returns `true` if this is a [CoroState::Complete] value.
    pub fn is_complete(&self) -> (b: bool)
        ensures
            b == (self is Complete),
    {
        match self {
            CoroState::Pending(_, _) => false,
            CoroState::Complete(_) => true,
        }
    }

    /// Assume that this value is [Pending][CoroState::Pending] and send a response to the
    /// underlying [Coro] using the provided mapping function to unwrap it into a [ReadyCoro].
    pub fn unwrap_pending(self, f: impl Fn(S) -> R) -> (c: ReadyCoro<R, T, F, S>)
        requires
            self is Pending,
            self matches CoroState::Pending(_, s) ==> call_requires(f, (s,)),
        ensures
            self matches CoroState::Pending(p, s) && exists|r: R|
                {
                    &&& call_ensures(f, (s,), r)
                    &&& c.body() == p.body()
                    &&& c.reply() == Some(r)
                },
    {
        match self {
            CoroState::Pending(coro, s) => coro.send((f)(s)),
            CoroState::Complete(_) => vstd::pervasive::unreached(),
        }
    }

    /// Assume that this value is [Complete][CoroState::Complete] and unwrap it to return the inner
    /// value.
    pub fn unwrap(self) -> (t: T)
        requires
            self is Complete,
        ensures
            self == CoroState::<S, T, R, F>::Complete(t),
    {
        match self {
            CoroState::Pending(_, _) => vstd::pervasive::unreached(),
            CoroState::Complete(t) => t,
        }
    }
}

} // verus!
