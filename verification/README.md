# crimes

Coroutines as explicit, resumable state machines, verified with Verus.

A coroutine body implements `Resumable`: polled with the channel it shares with its driver,
it either completes or suspends at a yield point (`Handle::yield_value`), leaving a value for
the driver. `Coro` runs such a body under a typestate: `resume` takes a `Ready` coroutine and
gives back either the value the body completed with or the now `Pending` coroutine together
with the value it yielded; `send` stores the response and makes it `Ready` again.
`run_sync` drives a coroutine to completion with a step function; a generator (a coroutine
that only yields) is stepped with `next` or run to the end with `collect`.

Layout of `src/`:

- `future.rs`: `Poll`, the `SharedState` channel and the `Resumable` trait with its contract.
- `handle.rs`: `Handle` and the `Yield` yield point.
- `chain.rs`: `AndThen`, a body that waits on an inner body and then continues with the body
  planned for its result, with the laws of nesting.
- `coro.rs`: `Coro`, its lifecycle, `CoroState`, `run_sync`, `collect`, and `run_completes`,
  the specification of a whole run.
- `traits.rs`: `AsCoro` and `IntoCoro`.
- `laws.rs`: properties that span calls.

`app/` adapts std futures to `Resumable`, so that bodies can also be written as `async` code.
