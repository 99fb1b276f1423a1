//! Coroutines written as explicit, resumable state machines.
//!
//! A [Coro] runs a body (a [Resumable] state machine) that hands values to the code driving it
//! through [Handle::yield_value] and receives responses in return. The driver calls
//! [Coro::resume] on a [Ready] coroutine and gets back a [CoroState]: either the suspended
//! coroutine, now [Pending], with the value it yielded, or the value the body completed with. A
//! [Pending] coroutine becomes [Ready] again once [Coro::send] stores the response to its last
//! yield.
mod chain;
mod coro;
mod future;
mod handle;
pub mod laws;
mod traits;

pub use chain::{
    and_then_awaiting, and_then_inv, and_then_step, builds, continuation_of, fits_continuation,
    AndThen,
};
pub use coro::{
    answered_by, answers_uniquely, any_response, completes_within, responses_of, run_completes,
    units, Coro, CoroState, Generator, Lifecycle, Pending, PendingCoro, Ready, ReadyCoro,
};
pub use future::{Poll, Resumable, SharedState};
pub use handle::{HandOwl, Handle, Yield};
pub use traits::{AsCoro, IntoCoro};
