//! Bodies that wait on an inner body and then continue with its result.
use vstd::prelude::*;

use crate::coro::{completes_within, law_completes_within_larger, run_completes};
use crate::future::{Poll, Resumable, SharedState};
use crate::handle::Handle;

verus! {

/// `g` accepts every value and builds the same continuation from the same value.
pub open spec fn fits_continuation<T, B, G: FnOnce(T) -> B>(g: G) -> bool {
    &&& forall|t: T| call_requires(g, (t,))
    &&& forall|t: T, b1: B, b2: B| #[trigger]
        call_ensures(g, (t,), b1) && #[trigger] call_ensures(g, (t,), b2) ==> b1 == b2
}

/// The continuation that `g` builds from `t`.
pub open spec fn continuation_of<T, B, G: FnOnce(T) -> B>(g: G, t: T) -> B {
    choose|b: B| call_ensures(g, (t,), b)
}

/// `g` accepts every value, and what it builds from `t` is `plan(t)`.
pub open spec fn builds<T, B, G: FnOnce(T) -> B>(g: G, plan: spec_fn(T) -> B) -> bool {
    &&& forall|t: T| call_requires(g, (t,))
    &&& forall|t: T, b: B| #[trigger] call_ensures(g, (t,), b) ==> b == plan(t)
}

/// A body that runs `first` in place, so that its yields reach the same driver and the
/// responses reach it, and then runs the body that the continuation `cont` builds from its
/// result; `plan` names that body for each result.
///
/// This is what awaiting a nested coroutine ([Handle::yield_from]) inside a body amounts to.
#[verifier::reject_recursive_types(T)]
pub struct AndThen<A, G, B, T> {
    /// The inner body, in its current state.
    pub first: A,
    /// The continuation, until the inner body has completed.
    pub cont: Option<G>,
    /// The continuation's body, once the inner body has completed.
    pub second: Option<B>,
    /// The body that the continuation builds from each result of the inner body.
    pub plan: Ghost<spec_fn(T) -> B>,
}

/// A composed body may be polled: while the inner body runs, it may be polled and the
/// continuation builds fresh bodies as planned; afterwards, the continuation's body may be polled.
pub open spec fn and_then_inv<S, R, T, O, A, G, B>(x: AndThen<A, G, B, T>) -> bool where
    A: Resumable<S, R, T>,
    G: FnOnce(T) -> B,
    B: Resumable<S, R, O>,
 {
    match x.second {
        Some(b) => b.inv(),
        None => {
            &&& x.first.inv()
            &&& x.cont is Some
            &&& builds(x.cont->0, x.plan@)
            &&& forall|t: T, b: B| #[trigger]
                call_ensures(x.cont->0, (t,), b) ==> b.inv() && !b.awaiting()
        },
    }
}

/// A composed body waits for a response when the body that runs now does.
pub open spec fn and_then_awaiting<S, R, T, O, A, G, B>(x: AndThen<A, G, B, T>) -> bool where
    A: Resumable<S, R, T>,
    G: FnOnce(T) -> B,
    B: Resumable<S, R, O>,
 {
    match x.second {
        Some(b) => b.awaiting(),
        None => x.first.awaiting(),
    }
}

/// One poll of a composed body: the inner body's poll while it runs; when it completes with
/// `t`, the first poll of the body planned for `t`, in the same call; afterwards, that body's
/// poll.
pub open spec fn and_then_step<S, R, T, O, A, G, B>(
    x: AndThen<A, G, B, T>,
    cx: SharedState<S, R>,
) -> (AndThen<A, G, B, T>, SharedState<S, R>, Poll<O>) where
    A: Resumable<S, R, T>,
    G: FnOnce(T) -> B,
    B: Resumable<S, R, O>,
 {
    match x.second {
        Some(b) => {
            let (b2, cx2, q) = b.step(cx);
            (AndThen { first: x.first, cont: x.cont, second: Some(b2), plan: x.plan }, cx2, q)
        },
        None => {
            let (a2, cx2, p) = x.first.step(cx);
            match p {
                Poll::Pending => (
                    AndThen { first: a2, cont: x.cont, second: None, plan: x.plan },
                    cx2,
                    Poll::Pending,
                ),
                Poll::Ready(t) => {
                    let (b2, cx3, q) = (x.plan@)(t).step(SharedState::with_reply(None));
                    (AndThen { first: a2, cont: None, second: Some(b2), plan: x.plan }, cx3, q)
                },
            }
        },
    }
}

impl<S, R, T, O, A, G, B> Resumable<S, R, O> for AndThen<A, G, B, T> where
    A: Resumable<S, R, T>,
    G: FnOnce(T) -> B,
    B: Resumable<S, R, O>,
 {
    open spec fn inv(&self) -> bool {
        and_then_inv::<S, R, T, O, A, G, B>(*self)
    }

    open spec fn awaiting(&self) -> bool {
        and_then_awaiting::<S, R, T, O, A, G, B>(*self)
    }

    open spec fn step(&self, cx: SharedState<S, R>) -> (Self, SharedState<S, R>, Poll<O>) {
        and_then_step::<S, R, T, O, A, G, B>(*self, cx)
    }

    fn poll(&mut self, cx: &mut SharedState<S, R>) -> (p: Poll<O>) {
        if self.second.is_none() {
            match self.first.poll(cx) {
                Poll::Pending => {
                    return Poll::Pending;
                },
                Poll::Ready(t) => {
                    let g = self.cont.take().unwrap();
                    let b = g(t);
                    self.second = Some(b);
                },
            }
        }
        let mut b = self.second.take().unwrap();
        let q = b.poll(cx);
        self.second = Some(b);
        q
    }
}

impl<S, R> Handle<S, R> {
    /// A body that runs `first` (such as a body from [Handle::yield_from]) and then the body
    /// that `cont` builds from its result.
    pub fn and_then<T, O, A, G, B>(&self, first: A, cont: G) -> (body: AndThen<A, G, B, T>) where
        A: Resumable<S, R, T>,
        G: FnOnce(T) -> B,
        B: Resumable<S, R, O>,

        requires
            fits_continuation(cont),
            forall|t: T, b: B| #[trigger] call_ensures(cont, (t,), b) ==> b.inv() && !b.awaiting(),
        ensures
            body.first == first,
            body.cont == Some(cont),
            body.second is None,
            body.plan@ == (|t: T| continuation_of(cont, t)),
            first.inv() ==> body.inv(),
    {
        let ghost plan = |t: T| continuation_of(cont, t);
        assert forall|t: T, b: B| #[trigger] call_ensures(cont, (t,), b) implies b == plan(t) by {
            assert(call_ensures(cont, (t,), continuation_of(cont, t)));
        }
        AndThen { first, cont: Some(cont), second: None, plan: Ghost(plan) }
    }

    /// A body that runs `first` and then the body that `cont` builds from its result, where
    /// `plan` names, for each result, the body that `cont` builds.
    pub fn and_then_with_plan<T, O, A, G, B>(
        &self,
        first: A,
        cont: G,
        Ghost(plan): Ghost<spec_fn(T) -> B>,
    ) -> (body: AndThen<A, G, B, T>) where
        A: Resumable<S, R, T>,
        G: FnOnce(T) -> B,
        B: Resumable<S, R, O>,

        requires
            builds(cont, plan),
            forall|t: T| #[trigger] plan(t).inv() && !plan(t).awaiting(),
        ensures
            body.first == first,
            body.cont == Some(cont),
            body.second is None,
            body.plan@ == plan,
            first.inv() ==> body.inv(),
    {
        AndThen { first, cont: Some(cont), second: None, plan: Ghost(plan) }
    }
}

/// A composed body is what [and_then_inv], [and_then_awaiting] and [and_then_step] say it is,
/// whatever the continuation's type.
pub proof fn law_and_then_as_body<S, R, T, O, A, G, B>(
    x: AndThen<A, G, B, T>,
    cx: SharedState<S, R>,
) where A: Resumable<S, R, T>, G: FnOnce(T) -> B, B: Resumable<S, R, O>
    ensures
        x.inv() == and_then_inv::<S, R, T, O, A, G, B>(x),
        x.awaiting() == and_then_awaiting::<S, R, T, O, A, G, B>(x),
        x.step(cx) == and_then_step::<S, R, T, O, A, G, B>(x, cx),
{
}

/// Once the continuation's body runs, the composed body runs exactly as it does.
pub proof fn law_and_then_continues_as_second<S, R, T, O, A, G, B>(
    x: AndThen<A, G, B, T>,
    reply: Option<R>,
    sent: Seq<S>,
    replies: Seq<R>,
    out: O,
) where A: Resumable<S, R, T>, G: FnOnce(T) -> B, B: Resumable<S, R, O>
    requires
        x.second is Some,
        run_completes(x.second->0, reply, sent, replies, out),
    ensures
        run_completes(x, reply, sent, replies, out),
    decreases sent.len(),
{
    let (b2, cx2, q) = x.second->0.step(SharedState::with_reply(reply));
    if q is Pending {
        let x2 = AndThen { first: x.first, cont: x.cont, second: Some(b2), plan: x.plan };
        law_and_then_continues_as_second(
            x2,
            Some(replies[0]),
            sent.drop_first(),
            replies.drop_first(),
            out,
        );
    }
}

/// Nesting coroutines: a body that waits on an inner body and then continues hands the inner
/// body's yields to the driver and the driver's responses to the inner body, in order, and then
/// continues with the body planned for the inner body's result. If the inner body completes
/// with `t` after yielding `sa` and receiving `ra`, and the body planned for `t` completes with
/// `o` after yielding `sb` and receiving `rb`, the composed body completes with `o` after
/// yielding `sa + sb` and receiving `ra + rb`.
pub proof fn law_and_then_runs_in_sequence<S, R, T, O, A, G, B>(
    x: AndThen<A, G, B, T>,
    reply: Option<R>,
    sa: Seq<S>,
    ra: Seq<R>,
    t: T,
    sb: Seq<S>,
    rb: Seq<R>,
    o: O,
) where A: Resumable<S, R, T>, G: FnOnce(T) -> B, B: Resumable<S, R, O>
    requires
        x.second is None,
        run_completes(x.first, reply, sa, ra, t),
        run_completes((x.plan@)(t), None, sb, rb, o),
    ensures
        run_completes(x, reply, sa + sb, ra + rb, o),
    decreases sa.len(),
{
    let (a2, cx2, p) = x.first.step(SharedState::with_reply(reply));
    match p {
        Poll::Pending => {
            let x2 = AndThen { first: a2, cont: x.cont, second: None, plan: x.plan };
            law_and_then_runs_in_sequence(
                x2,
                Some(ra[0]),
                sa.drop_first(),
                ra.drop_first(),
                t,
                sb,
                rb,
                o,
            );
            assert((sa + sb).drop_first() == sa.drop_first() + sb);
            assert((ra + rb).drop_first() == ra.drop_first() + rb);
            assert((sa + sb)[0] == sa[0]);
            assert((ra + rb)[0] == ra[0]);
        },
        Poll::Ready(t1) => {
            assert(sa + sb == sb);
            assert(ra + rb == rb);
            let (b2, cx3, q) = (x.plan@)(t).step(SharedState::with_reply(None));
            if q is Pending {
                let x2 = AndThen::<A, G, B, T> {
                    first: a2,
                    cont: None,
                    second: Some(b2),
                    plan: x.plan,
                };
                law_and_then_continues_as_second(
                    x2,
                    Some(rb[0]),
                    sb.drop_first(),
                    rb.drop_first(),
                    o,
                );
            }
        },
    }
}

/// Once the continuation's body runs, a bound on its yields bounds the composed body's yields.
pub proof fn law_and_then_second_completes_within<S, R, T, O, A, G, B>(
    x: AndThen<A, G, B, T>,
    reply: Option<R>,
    allowed: spec_fn(S, R) -> bool,
    n: nat,
) where A: Resumable<S, R, T>, G: FnOnce(T) -> B, B: Resumable<S, R, O>
    requires
        x.second is Some,
        completes_within(x.second->0, reply, allowed, n),
    ensures
        completes_within(x, reply, allowed, n),
    decreases n,
{
    let (b2, cx2, q) = x.second->0.step(SharedState::with_reply(reply));
    if q is Pending {
        let x2 = AndThen { first: x.first, cont: x.cont, second: Some(b2), plan: x.plan };
        assert forall|r: R| #[trigger] allowed(cx2.s->0, r) implies completes_within(
            x2,
            Some(r),
            allowed,
            (n - 1) as nat,
        ) by {
            law_and_then_second_completes_within(x2, Some(r), allowed, (n - 1) as nat);
        }
    }
}

/// A composed body yields at most as often as its inner body and then the body planned for
/// the inner body's result, together: with at most `n1` yields from the inner body and at most
/// `n2` from every planned body, the composed body yields at most `n1 + n2` times.
pub proof fn law_and_then_completes_within<S, R, T, O, A, G, B>(
    x: AndThen<A, G, B, T>,
    reply: Option<R>,
    allowed: spec_fn(S, R) -> bool,
    n1: nat,
    n2: nat,
) where A: Resumable<S, R, T>, G: FnOnce(T) -> B, B: Resumable<S, R, O>
    requires
        x.second is None,
        completes_within(x.first, reply, allowed, n1),
        forall|t: T| #[trigger] completes_within((x.plan@)(t), None, allowed, n2),
    ensures
        completes_within(x, reply, allowed, n1 + n2),
    decreases n1,
{
    let (a2, cx2, p) = x.first.step(SharedState::with_reply(reply));
    match p {
        Poll::Pending => {
            let x2 = AndThen { first: a2, cont: x.cont, second: None, plan: x.plan };
            assert forall|r: R| #[trigger] allowed(cx2.s->0, r) implies completes_within(
                x2,
                Some(r),
                allowed,
                (n1 + n2 - 1) as nat,
            ) by {
                law_and_then_completes_within(x2, Some(r), allowed, (n1 - 1) as nat, n2);
            }
        },
        Poll::Ready(t) => {
            let b = (x.plan@)(t);
            assert(completes_within(b, None, allowed, n2));
            let (b2, cx3, q) = b.step(SharedState::with_reply(None));
            if q is Pending {
                let x2 = AndThen::<A, G, B, T> {
                    first: a2,
                    cont: None,
                    second: Some(b2),
                    plan: x.plan,
                };
                assert forall|r: R| #[trigger] allowed(cx3.s->0, r) implies completes_within(
                    x2,
                    Some(r),
                    allowed,
                    (n1 + n2 - 1) as nat,
                ) by {
                    law_and_then_second_completes_within(x2, Some(r), allowed, (n2 - 1) as nat);
                    law_completes_within_larger(
                        x2,
                        Some(r),
                        allowed,
                        (n2 - 1) as nat,
                        (n1 + n2 - 1) as nat,
                    );
                }
            }
        },
    }
}

} // verus!
