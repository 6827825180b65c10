//! Laws of the machine over whole runs: sequences of machines, each one step after the one
//! before.
use vstd::prelude::*;
use crate::backoff::{Backoff, Exponential, Fixed};
use crate::delay::Delay;
use crate::future::{
    attempts_left, lemma_attempts_budget, lemma_sequential_one_at_a_time, lemma_step_grant,
    lemma_step_keeps_wf, Retry, RetryState,
};
use crate::policies::{
    BackoffRetry, Concurrent, DelayedConcurrent, RetryAttempts, Sequential, SequentialRetryPolicy,
};
use crate::policies::bounded::{
    lemma_concurrent_counts_down, lemma_delayed_concurrent_counts_down,
    lemma_sequential_counts_down,
};
use crate::{CreateFuture, Policy, Resume, Timer};

verus! {

/// `ms` is a run of the machine: each machine in it follows from the one before by one step.
pub open spec fn is_run<P, T, E, CF, G>(ms: Seq<Retry<P, T, E, CF, G>>) -> bool where
    P: Policy<T, E>,
    CF: CreateFuture<T, E>,
 {
    forall|i: int| #![trigger ms[i]] 0 <= i < ms.len() - 1 ==> ms[i].steps_to(ms[i + 1])
}

/// Every machine of a run that starts within the invariant keeps it.
pub proof fn lemma_run_wf<P, T, E, CF, G>(ms: Seq<Retry<P, T, E, CF, G>>, j: int) where
    P: Policy<T, E>,
    CF: CreateFuture<T, E>,

    requires
        is_run(ms),
        0 <= j < ms.len(),
        ms[0].wf(),
    ensures
        ms[j].wf(),
    decreases j,
{
    if j > 0 {
        lemma_run_wf(ms, j - 1);
        assert(ms[j - 1].steps_to(ms[j]));
        lemma_step_keeps_wf(ms[j - 1], ms[j]);
    }
}

proof fn lemma_attempts_run_at<Q, T, E, CF, G>(
    ms: Seq<Retry<RetryAttempts<Q, usize>, T, E, CF, G>>,
    n: nat,
    j: int,
) where Q: Policy<T, E>, CF: CreateFuture<T, E>
    requires
        is_run(ms),
        0 <= j < ms.len(),
        ms[0].granted() + attempts_left(ms[0]) <= n,
    ensures
        ms[j].granted() + attempts_left(ms[j]) <= n,
    decreases j,
{
    if j > 0 {
        lemma_attempts_run_at(ms, n, j - 1);
        assert(ms[j - 1].steps_to(ms[j]));
        lemma_attempts_budget(ms[j - 1], ms[j]);
    }
}

/// A run of `retry(create_f, attempts(policy, n))` creates at most `n + 1` futures, the
/// first and one for each of at most `n` retries granted.
pub proof fn lemma_attempts_run<Q, T, E, CF, G>(
    ms: Seq<Retry<RetryAttempts<Q, usize>, T, E, CF, G>>,
    n: nat,
) where Q: Policy<T, E>, CF: CreateFuture<T, E>
    requires
        is_run(ms),
        ms.len() > 0,
        ms[0].wf(),
        ms[0].granted() == 0,
        ms[0].state() matches RetryState::CreateFut { policy } && policy.condition() == n,
    ensures
        forall|i: int| 0 <= i < ms.len() ==> #[trigger] ms[i].created() <= n + 1 && ms[i].granted() <= n,
{
    assert forall|i: int| 0 <= i < ms.len() implies #[trigger] ms[i].created() <= n + 1 && ms[i].granted() <= n by {
        lemma_attempts_run_at(ms, n, i);
        lemma_run_wf(ms, i);
    }
}

/// Under a policy whose timer never fires, a machine in `PollDelay` only ever finds the timer
/// pending: the policy is never consulted without a result.
pub proof fn lemma_never_fires_step<P, T, E, CF, G>(m: Retry<P, T, E, CF, G>, next: Retry<P, T, E, CF, G>) where
    P: Policy<T, E>,
    CF: CreateFuture<T, E>,

    requires
        forall|p: P| #[trigger] p.timer() == Timer::Never,
        m.steps_to(next),
        m.state() is PollDelay,
    ensures
        m.timer_waits(next),
{
    if let RetryState::PollDelay { policy } = m.state() {
        assert(policy.timer() == Timer::Never);
    }
}

proof fn lemma_never_firing_run_at<P, T, E, CF, G>(ms: Seq<Retry<P, T, E, CF, G>>, j: int) where
    P: Policy<T, E>,
    CF: CreateFuture<T, E>,

    requires
        forall|p: P| #[trigger] p.timer() == Timer::Never,
        is_run(ms),
        0 <= j < ms.len(),
        ms[0].wf(),
        ms[0].one_at_a_time(),
    ensures
        ms[j].one_at_a_time(),
    decreases j,
{
    if j > 0 {
        lemma_never_firing_run_at(ms, j - 1);
        lemma_run_wf(ms, j - 1);
        assert(ms[j - 1].steps_to(ms[j]));
        lemma_sequential_one_at_a_time(ms[j - 1], ms[j]);
    }
}

/// Under a policy whose timer never fires, over a whole run that starts with no future
/// running: at most one future runs at any time; a future is created only when none is
/// running, that is once the previous one has completed and the policy, consulted on its
/// result, granted a retry; and the policy is never consulted without a result.
pub proof fn lemma_never_firing_run<P, T, E, CF, G>(ms: Seq<Retry<P, T, E, CF, G>>) where
    P: Policy<T, E>,
    CF: CreateFuture<T, E>,

    requires
        forall|p: P| #[trigger] p.timer() == Timer::Never,
        is_run(ms),
        ms.len() > 0,
        ms[0].wf(),
        ms[0].state() is CreateFut,
        ms[0].running().len() == 0,
    ensures
        forall|i: int| 0 <= i < ms.len() ==> (#[trigger] ms[i]).running().len() <= 1,
        forall|i: int|
            0 <= i < ms.len() && (#[trigger] ms[i]).state() is CreateFut ==> ms[i].running().len()
                == 0,
        forall|i: int|
            0 <= i < ms.len() - 1 && (#[trigger] ms[i]).state() is PollDelay ==> ms[i].timer_waits(
                ms[i + 1],
            ),
{
    assert forall|i: int| 0 <= i < ms.len() implies (#[trigger] ms[i]).one_at_a_time() by {
        lemma_never_firing_run_at(ms, i);
    }
    assert forall|i: int| 0 <= i < ms.len() - 1 && (#[trigger] ms[i]).state() is PollDelay implies ms[i].timer_waits(ms[i + 1]) by {
        lemma_never_fires_step(ms[i], ms[i + 1]);
    }
}

/// The timers of `sequential` and `backoff`, bare or with a count of attempts, never fire.
pub proof fn lemma_sequential_timers_never_fire<I: Backoff, T, E>()
    ensures
        forall|p: SequentialRetryPolicy| #[trigger] Policy::<T, E>::timer(&p) == Timer::Never,
        forall|p: RetryAttempts<SequentialRetryPolicy, usize>|
            #[trigger] Policy::<T, E>::timer(&p) == Timer::Never,
        forall|p: BackoffRetry<I>| #[trigger] Policy::<T, E>::timer(&p) == Timer::Never,
        forall|p: RetryAttempts<BackoffRetry<I>, usize>|
            #[trigger] Policy::<T, E>::timer(&p) == Timer::Never,
{
}

/// A run of `retry(create_f, sequential().attempts(n))` that starts with no future running
/// runs at most one future at a time, creates a future only once the previous one has
/// completed, and never consults the policy without a result.
pub proof fn lemma_sequential_run<T, E, CF, G>(
    ms: Seq<Retry<RetryAttempts<SequentialRetryPolicy, usize>, T, E, CF, G>>,
) where CF: CreateFuture<T, E>
    requires
        is_run(ms),
        ms.len() > 0,
        ms[0].wf(),
        ms[0].state() is CreateFut,
        ms[0].running().len() == 0,
    ensures
        forall|i: int| 0 <= i < ms.len() ==> (#[trigger] ms[i]).running().len() <= 1,
        forall|i: int|
            0 <= i < ms.len() && (#[trigger] ms[i]).state() is CreateFut ==> ms[i].running().len()
                == 0,
        forall|i: int|
            0 <= i < ms.len() - 1 && (#[trigger] ms[i]).state() is PollDelay ==> ms[i].timer_waits(
                ms[i + 1],
            ),
{
    lemma_sequential_timers_never_fire::<Exponential, T, E>();
    lemma_never_firing_run(ms);
}

/// The schedule that the machine's policy holds, under a `backoff` policy with a count of
/// attempts; `None` once the policy has declined.
pub open spec fn held_schedule<I, T, E, CF, G>(
    m: Retry<RetryAttempts<BackoffRetry<I>, usize>, T, E, CF, G>,
) -> Option<I> {
    match m.held_policy() {
        Some(p) => Some(p.policy().schedule()),
        None => None,
    }
}

/// The wait that the machine starts before its next future, in the state a granted retry
/// leads to: the delay of `ArmRetry`, or none where a future is created at once.
pub open spec fn wait_before_next<P, T, E, CF, G>(m: Retry<P, T, E, CF, G>) -> Option<Delay> {
    match m.state() {
        RetryState::ArmRetry { delay, .. } => Some(delay),
        _ => None,
    }
}

/// `t` is what the schedule `s` turns into after `k` of its delays are handed out.
pub open spec fn schedule_after<I: Backoff>(s: I, k: nat, t: I) -> bool
    decreases k,
{
    if k == 0 {
        t == s
    } else {
        exists|mid: I, d: Option<Delay>|
            #[trigger] mid.yields(t, d) && schedule_after(s, (k - 1) as nat, mid)
    }
}

/// One step of a machine under `backoff(schedule).attempts(n)`: it grants at most one retry;
/// where it grants none the schedule stays (or the policy is gone), and where it grants one
/// the schedule hands out the wait that the machine then starts before the next future.
pub proof fn lemma_backoff_step<I: Backoff, T, E, CF, G>(
    m: Retry<RetryAttempts<BackoffRetry<I>, usize>, T, E, CF, G>,
    next: Retry<RetryAttempts<BackoffRetry<I>, usize>, T, E, CF, G>,
) where CF: CreateFuture<T, E>
    requires
        m.steps_to(next),
    ensures
        next.granted() == m.granted() || next.granted() == m.granted() + 1,
        held_schedule(m) is None ==> held_schedule(next) is None && next.granted() == m.granted(),
        next.granted() == m.granted() ==> held_schedule(next) is None || held_schedule(next)
            == held_schedule(m),
        next.granted() == m.granted() + 1 ==> {
            &&& held_schedule(m) matches Some(s)
            &&& held_schedule(next) matches Some(t)
            &&& s.yields(t, wait_before_next(next))
            &&& next.state() is CreateFut || next.state() is ArmRetry
            &&& next.state() is CreateFut ==> wait_before_next(next) is None
        },
{
    if next.granted() != m.granted() {
        lemma_step_grant(m, next);
    }
}

proof fn lemma_backoff_run_at<I: Backoff, T, E, CF, G>(
    ms: Seq<Retry<RetryAttempts<BackoffRetry<I>, usize>, T, E, CF, G>>,
    start: I,
    j: int,
) where CF: CreateFuture<T, E>
    requires
        is_run(ms),
        0 <= j < ms.len(),
        ms[0].granted() == 0,
        held_schedule(ms[0]) == Some(start),
    ensures
        held_schedule(ms[j]) matches Some(t) ==> schedule_after(start, ms[j].granted(), t),
    decreases j,
{
    if j > 0 {
        lemma_backoff_run_at(ms, start, j - 1);
        assert(ms[j - 1].steps_to(ms[j]));
        lemma_backoff_step(ms[j - 1], ms[j]);
        if ms[j].granted() == ms[j - 1].granted() + 1 {
            let s = held_schedule(ms[j - 1])->0;
            let t = held_schedule(ms[j])->0;
            assert(s.yields(t, wait_before_next(ms[j])));
        }
    }
}

/// Over a run of `retry(create_f, backoff(schedule).attempts(n))` that starts with no future
/// running: the waits come from the schedule in order, and the attempts never overlap; with a
/// schedule that never runs out, a future other than the first is created only once its wait
/// has fired.
/// Where the `k`-th retry is granted (counting from 0), the wait is the next delay of the
/// schedule left after `k` delays, and the machine starts that wait (the `ArmRetry` state)
/// before it creates the next future; at most one future runs at any time, a future is created
/// only when none runs, and the policy is never consulted without a result.
pub proof fn lemma_backoff_run<I: Backoff, T, E, CF, G>(
    ms: Seq<Retry<RetryAttempts<BackoffRetry<I>, usize>, T, E, CF, G>>,
    start: I,
) where CF: CreateFuture<T, E>
    requires
        is_run(ms),
        ms.len() > 0,
        ms[0].wf(),
        ms[0].state() is CreateFut,
        ms[0].running().len() == 0,
        ms[0].granted() == 0,
        held_schedule(ms[0]) == Some(start),
    ensures
        forall|i: int|
            0 <= i < ms.len() ==> (held_schedule(#[trigger] ms[i]) matches Some(t)
                ==> schedule_after(start, ms[i].granted(), t)),
        forall|i: int|
            0 <= i < ms.len() - 1 && (#[trigger] ms[i]).granted() != ms[i + 1].granted() ==> {
                &&& ms[i + 1].granted() == ms[i].granted() + 1
                &&& held_schedule(ms[i]) matches Some(s)
                &&& schedule_after(start, ms[i].granted(), s)
                &&& held_schedule(ms[i + 1]) matches Some(t)
                &&& s.yields(t, wait_before_next(ms[i + 1]))
                &&& ms[i + 1].state() is CreateFut ==> wait_before_next(ms[i + 1]) is None
            },
        never_runs_out::<I>() ==> forall|i: int|
            0 <= i < ms.len() - 1 && (#[trigger] ms[i + 1]).state() is CreateFut && !(
            ms[i].state() is CreateFut) ==> ms[i].state() is WaitingRetry,
        forall|i: int| 0 <= i < ms.len() ==> (#[trigger] ms[i]).running().len() <= 1,
        forall|i: int|
            0 <= i < ms.len() && (#[trigger] ms[i]).state() is CreateFut ==> ms[i].running().len()
                == 0,
        forall|i: int|
            0 <= i < ms.len() - 1 && (#[trigger] ms[i]).state() is PollDelay ==> ms[i].timer_waits(
                ms[i + 1],
            ),
{
    if never_runs_out::<I>() {
        assert forall|i: int|
            0 <= i < ms.len() - 1 && (#[trigger] ms[i + 1]).state() is CreateFut && !(
            ms[i].state() is CreateFut) implies ms[i].state() is WaitingRetry by {
            assert(ms[i].steps_to(ms[i + 1]));
            lemma_backoff_creation_waits(ms[i], ms[i + 1]);
        }
    }
    assert forall|i: int|
        0 <= i < ms.len() implies (held_schedule(#[trigger] ms[i]) matches Some(t)
            ==> schedule_after(start, ms[i].granted(), t)) by {
        lemma_backoff_run_at(ms, start, i);
    }
    assert forall|i: int|
        0 <= i < ms.len() - 1 && (#[trigger] ms[i]).granted() != ms[i + 1].granted() implies {
            &&& ms[i + 1].granted() == ms[i].granted() + 1
            &&& held_schedule(ms[i]) matches Some(s)
            &&& schedule_after(start, ms[i].granted(), s)
            &&& held_schedule(ms[i + 1]) matches Some(t)
            &&& s.yields(t, wait_before_next(ms[i + 1]))
            &&& ms[i + 1].state() is CreateFut ==> wait_before_next(ms[i + 1]) is None
        } by {
        lemma_backoff_run_at(ms, start, i);
        lemma_backoff_step(ms[i], ms[i + 1]);
    }
    lemma_sequential_timers_never_fire::<I, T, E>();
    lemma_never_firing_run(ms);
}

/// The exponential schedule left after `k` delays stands at the `k`-th delay of the one it
/// started as, with the same factor and cap.
pub proof fn lemma_exponential_schedule_after(start: Exponential, k: nat, t: Exponential)
    requires
        schedule_after(start, k, t),
    ensures
        t.current()@ == start.nth(k),
        t.factor() == start.factor(),
        t.max() == start.max(),
    decreases k,
{
    if k > 0 {
        let (mid, d) = choose|mid: Exponential, d: Option<Delay>|
            #[trigger] mid.yields(t, d) && schedule_after(start, (k - 1) as nat, mid);
        lemma_exponential_schedule_after(start, (k - 1) as nat, mid);
    }
}

/// A schedule that never runs out: every step of it hands out a delay.
pub open spec fn never_runs_out<I: Backoff>() -> bool {
    forall|s: I, t: I, d: Option<Delay>| #[trigger] s.yields(t, d) ==> d is Some
}

/// The exponential and the fixed schedules never run out.
pub proof fn lemma_builtin_schedules_never_run_out()
    ensures
        never_runs_out::<Exponential>(),
        never_runs_out::<Fixed>(),
{
}

/// One step of a machine under `backoff(schedule).attempts(n)`, with a schedule that never
/// runs out: a future other than the first is created only once the wait of the granted
/// retry has fired.
pub proof fn lemma_backoff_creation_waits<I: Backoff, T, E, CF, G>(
    m: Retry<RetryAttempts<BackoffRetry<I>, usize>, T, E, CF, G>,
    next: Retry<RetryAttempts<BackoffRetry<I>, usize>, T, E, CF, G>,
) where CF: CreateFuture<T, E>
    requires
        never_runs_out::<I>(),
        m.steps_to(next),
        next.state() is CreateFut,
        !(m.state() is CreateFut),
    ensures
        m.state() is WaitingRetry,
{
    lemma_backoff_step(m, next);
    lemma_sequential_timers_never_fire::<I, T, E>();
    if m.state() is PollDelay {
        lemma_never_fires_step(m, next);
    }
    if next.granted() != m.granted() {
        let s = held_schedule(m)->0;
        let t = held_schedule(next)->0;
        assert(s.yields(t, wait_before_next(next)));
    }
}

/// Over a run of `retry(create_f, backoff(exponential(initial, factor, max)).attempts(n))` that
/// starts with no future running: where the `k`-th retry is granted (counting from 0), the
/// machine waits the `k`-th delay of the schedule (`initial`, then each one grown by `factor`
/// up to `max`); a future other than the first is created only once that wait has fired; and
/// the attempts never overlap.
pub proof fn lemma_exponential_backoff_run<T, E, CF, G>(
    ms: Seq<Retry<RetryAttempts<BackoffRetry<Exponential>, usize>, T, E, CF, G>>,
    start: Exponential,
) where CF: CreateFuture<T, E>
    requires
        is_run(ms),
        ms.len() > 0,
        ms[0].wf(),
        ms[0].state() is CreateFut,
        ms[0].running().len() == 0,
        ms[0].granted() == 0,
        held_schedule(ms[0]) == Some(start),
    ensures
        forall|i: int|
            0 <= i < ms.len() - 1 && (#[trigger] ms[i]).granted() != ms[i + 1].granted() ==> {
                &&& ms[i + 1].state() matches RetryState::ArmRetry { delay, .. }
                &&& delay@ == start.nth(ms[i].granted())
            },
        forall|i: int|
            0 <= i < ms.len() - 1 && (#[trigger] ms[i + 1]).state() is CreateFut && !(
            ms[i].state() is CreateFut) ==> ms[i].state() is WaitingRetry,
        forall|i: int| 0 <= i < ms.len() ==> (#[trigger] ms[i]).running().len() <= 1,
        forall|i: int|
            0 <= i < ms.len() && (#[trigger] ms[i]).state() is CreateFut ==> ms[i].running().len()
                == 0,
{
    lemma_backoff_run(ms, start);
    assert forall|i: int|
        0 <= i < ms.len() - 1 && (#[trigger] ms[i]).granted() != ms[i + 1].granted() implies {
            &&& ms[i + 1].state() matches RetryState::ArmRetry { delay, .. }
            &&& delay@ == start.nth(ms[i].granted())
        } by {
        let s = held_schedule(ms[i])->0;
        lemma_exponential_schedule_after(start, ms[i].granted(), s);
    }
    assert forall|i: int|
        0 <= i < ms.len() - 1 && (#[trigger] ms[i + 1]).state() is CreateFut && !(
        ms[i].state() is CreateFut) implies ms[i].state() is WaitingRetry by {
        assert(ms[i].steps_to(ms[i + 1]));
        lemma_builtin_schedules_never_run_out();
        lemma_backoff_creation_waits(ms[i], ms[i + 1]);
    }
}

/// Every retry that a policy of type `P` grants leaves one fewer of the count `left`.
pub open spec fn counts_down<P, T, E>(left: spec_fn(P) -> nat) -> bool where P: Policy<T, E> {
    forall|p: P, seen: Option<Result<&T, &E>>, r: Resume<P>|
        #[trigger] p.decides(seen, Some(r)) ==> left(r.policy) + 1 == left(p)
}

/// The count `left` of the policy the machine holds; none once the policy has declined.
pub open spec fn held_left<P, T, E, CF, G>(m: Retry<P, T, E, CF, G>, left: spec_fn(P) -> nat) -> nat {
    match m.held_policy() {
        Some(p) => left(p),
        None => 0,
    }
}

/// Under a policy that counts down, no step of the machine makes the retries granted and the
/// count left add up to more.
pub proof fn lemma_counted_step<P, T, E, CF, G>(
    m: Retry<P, T, E, CF, G>,
    next: Retry<P, T, E, CF, G>,
    left: spec_fn(P) -> nat,
) where P: Policy<T, E>, CF: CreateFuture<T, E>
    requires
        counts_down::<P, T, E>(left),
        m.steps_to(next),
    ensures
        next.granted() + held_left(next, left) <= m.granted() + held_left(m, left),
{
    if next.granted() != m.granted() {
        let resume = lemma_step_grant(m, next);
        let p = m.held_policy()->0;
        let seen = choose|seen: Option<Result<&T, &E>>| #[trigger] p.decides(seen, Some(resume));
        assert(left(resume.policy) + 1 == left(p));
    }
}

proof fn lemma_counted_run_at<P, T, E, CF, G>(
    ms: Seq<Retry<P, T, E, CF, G>>,
    left: spec_fn(P) -> nat,
    n: nat,
    j: int,
) where P: Policy<T, E>, CF: CreateFuture<T, E>
    requires
        counts_down::<P, T, E>(left),
        is_run(ms),
        0 <= j < ms.len(),
        ms[0].granted() + held_left(ms[0], left) <= n,
    ensures
        ms[j].granted() + held_left(ms[j], left) <= n,
    decreases j,
{
    if j > 0 {
        lemma_counted_run_at(ms, left, n, j - 1);
        assert(ms[j - 1].steps_to(ms[j]));
        lemma_counted_step(ms[j - 1], ms[j], left);
    }
}

/// A run under a policy that counts down from `n` grants at most `n` retries and creates at
/// most `n + 1` futures.
pub proof fn lemma_counted_run<P, T, E, CF, G>(
    ms: Seq<Retry<P, T, E, CF, G>>,
    left: spec_fn(P) -> nat,
    n: nat,
) where P: Policy<T, E>, CF: CreateFuture<T, E>
    requires
        counts_down::<P, T, E>(left),
        is_run(ms),
        ms.len() > 0,
        ms[0].wf(),
        ms[0].granted() == 0,
        ms[0].held_policy() matches Some(p) && left(p) == n,
    ensures
        forall|i: int|
            0 <= i < ms.len() ==> #[trigger] ms[i].created() <= n + 1 && ms[i].granted() <= n,
{
    assert forall|i: int| 0 <= i < ms.len() implies #[trigger] ms[i].created() <= n + 1
        && ms[i].granted() <= n by {
        lemma_counted_run_at(ms, left, n, i);
        lemma_run_wf(ms, i);
    }
}

/// `Sequential`, `Concurrent` and `DelayedConcurrent` count down their retries left, on every
/// outcome they retry (an error, or a forced retry): `retry(create_f, Concurrent::new(n))`, and
/// the others alike, create at most `n + 1` futures.
pub proof fn lemma_bounded_policies_count_down<T, E>()
    ensures
        counts_down::<Sequential, T, E>(|p: Sequential| p.max_retries() as nat),
        counts_down::<Concurrent, T, E>(|p: Concurrent| p.max_retries() as nat),
        counts_down::<DelayedConcurrent, T, E>(|p: DelayedConcurrent| p.max_retries() as nat),
{
    assert forall|p: Sequential, seen: Option<Result<&T, &E>>, r: Resume<Sequential>|
        #[trigger] Policy::<T, E>::decides(&p, seen, Some(r)) implies r.policy.max_retries() + 1
        == p.max_retries() by {
        lemma_sequential_counts_down(p, seen, Some(r));
    }
    assert forall|p: Concurrent, seen: Option<Result<&T, &E>>, r: Resume<Concurrent>|
        #[trigger] Policy::<T, E>::decides(&p, seen, Some(r)) implies r.policy.max_retries() + 1
        == p.max_retries() by {
        lemma_concurrent_counts_down(p, seen, Some(r));
    }
    assert forall|p: DelayedConcurrent, seen: Option<Result<&T, &E>>, r: Resume<DelayedConcurrent>|
        #[trigger] Policy::<T, E>::decides(&p, seen, Some(r)) implies r.policy.max_retries() + 1
        == p.max_retries() by {
        lemma_delayed_concurrent_counts_down(p, seen, Some(r));
    }
}

} // verus!
