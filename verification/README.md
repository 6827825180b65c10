# fure

Retrying futures under retry policies, with the retry logic verified by Verus.

- `src/` is the verified library.
  - `delay.rs`: `Delay`, a span of time of the range of `std::time::Duration`, with exact
    arithmetic (`checked_mul`, conversions to seconds and nanoseconds).
  - `backoff.rs`: the `Backoff` schedules `fixed` and `exponential`, their specification
    (`exponential_nth`) and laws (growth as `initial * factor^n`, the cap, monotonicity).
  - `lib.rs`: the `Policy` and `CreateFuture` traits, `Timer`, `Resume`, and `retry`.
  - `policies/`: the builtin policies (`parallel`, `interval`, `sequential`, `backoff`,
    `Sequential`, `Concurrent`, `DelayedConcurrent`) and the stop conditions `attempts` and
    `retry_if`/`cond`.
  - `future.rs`: `Retry`, the state machine that runs the futures. It says what is to be done
    next (`Action`) and takes back what came of it; its invariant and laws are proved there
    (a future is never polled from an empty set, every future but the first answers a granted
    retry, `attempts(_, n)` creates at most `n + 1` futures, a policy whose timer never fires
    runs one future at a time).
  - `runs.rs`: the laws over whole runs (a sequence of machines, each one step after the
    one before): at most `n + 1` futures under `attempts(_, n)`; one future at a time, and no
    forced retry, under `sequential` and `backoff`; the waits of `backoff` taken from the
    schedule in order and, for a schedule that never runs out, each fired before the next
    future is created.
- `app/` drives the machine as a `Future` under tokio, starts the timers, converts between
  `Duration` and `Delay`, takes a backoff schedule from any iterator of `Duration`s, and holds
  `jitter`, which works in floating point.
- `tests/` runs the library, with a small driver of its own for the asynchronous tests.
