//! Properties of coroutines that hold across calls.
use vstd::prelude::*;

use crate::chain::AndThen;
use crate::coro::run_completes;
pub use crate::coro::{
    law_completes_within_larger, law_run_determined_by_step_fn, law_run_prepends,
};
use crate::future::{Poll, Resumable, SharedState};
use crate::handle::Yield;
pub use crate::chain::{
    law_and_then_as_body, law_and_then_completes_within, law_and_then_continues_as_second,
    law_and_then_runs_in_sequence, law_and_then_second_completes_within,
};
pub use crate::handle::{
    law_fresh_yield, law_yield_as_body, law_yield_hands_value_to_driver,
    law_yield_receives_response,
};

verus! {

/// The run of a coroutine is determined by the responses it is sent: two runs of the same body
/// that receive the same responses yield the same values and complete with the same result.
pub proof fn law_run_determined_by_responses<S, R, O, F: Resumable<S, R, O>>(
    body: F,
    reply: Option<R>,
    sent1: Seq<S>,
    sent2: Seq<S>,
    replies: Seq<R>,
    out1: O,
    out2: O,
)
    requires
        run_completes(body, reply, sent1, replies, out1),
        run_completes(body, reply, sent2, replies, out2),
    ensures
        sent1 == sent2,
        out1 == out2,
    decreases sent1.len(),
{
    let (next, cx, p) = body.step(SharedState::with_reply(reply));
    match p {
        Poll::Ready(o) => {
            assert(sent1 =~= sent2);
        },
        Poll::Pending => {
            law_run_determined_by_responses(
                next,
                Some(replies[0]),
                sent1.drop_first(),
                sent2.drop_first(),
                replies.drop_first(),
                out1,
                out2,
            );
            assert(sent1 =~= seq![sent1[0]] + sent1.drop_first());
            assert(sent2 =~= seq![sent2[0]] + sent2.drop_first());
        },
    }
}

/// A coroutine made of a single yield point hands its value to the driver and then completes
/// with exactly the response it is sent.
pub proof fn law_yield_round_trip<S, R>(y: Yield<S, R>, v: S, r: R)
    requires
        !y.is_polled(),
        y.value() == Some(v),
    ensures
        run_completes(y, None, seq![v], seq![r], r),
{
    law_yield_hands_value_to_driver(y, v);
    let (next, cx, p) = y.step(SharedState::with_reply(None));
    law_yield_receives_response(next, r);
    assert(seq![v].drop_first() =~= Seq::<S>::empty());
    assert(seq![r].drop_first() =~= Seq::<R>::empty());
    assert(run_completes(next, Some(r), Seq::<S>::empty(), Seq::<R>::empty(), r));
}

/// A yield point inside a larger body: a body that yields `v`, and then continues with the body
/// planned for the response `r`, hands `v` to the driver first and then runs that body.
pub proof fn law_yield_inside_body<S, R, O, G, B>(
    x: AndThen<Yield<S, R>, G, B, R>,
    v: S,
    r: R,
    sb: Seq<S>,
    rb: Seq<R>,
    o: O,
) where G: FnOnce(R) -> B, B: Resumable<S, R, O>
    requires
        !x.first.is_polled(),
        x.first.value() == Some(v),
        x.second is None,
        run_completes((x.plan@)(r), None, sb, rb, o),
    ensures
        run_completes(x, None, seq![v] + sb, seq![r] + rb, o),
{
    law_yield_round_trip(x.first, v, r);
    law_and_then_runs_in_sequence(x, None, seq![v], seq![r], r, sb, rb, o);
}

} // verus!
