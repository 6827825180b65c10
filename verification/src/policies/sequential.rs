//! Policies that run one future at a time.
use vstd::prelude::*;
use crate::backoff::{Backoff, Exponential, Fixed};
use crate::delay::MAX_NANOS;
use crate::{Policy, Resume, Timer};

verus! {

/// Creates a policy that runs futures one after another: a new future is created only once
/// the previous one has completed.
///
/// It has no stop condition of its own: wrap it with `attempts` or `retry_if`.
pub fn sequential() -> (policy: SequentialRetryPolicy) {
    SequentialRetryPolicy
}

/// The policy created by [`sequential`].
#[derive(Debug, Clone, Copy)]
pub struct SequentialRetryPolicy;

impl<T, E> Policy<T, E> for SequentialRetryPolicy {
    open spec fn well_formed(&self) -> bool {
        true
    }

    open spec fn timer(&self) -> Timer {
        Timer::Never
    }

    open spec fn decides(&self, result: Option<Result<&T, &E>>, decision: Option<Resume<Self>>) -> bool {
        decision == Some(Resume { policy: SequentialRetryPolicy, delay: None })
    }

    fn force_retry_after(&self) -> (timer: Timer) {
        Timer::Never
    }

    fn retry(self, result: Option<Result<&T, &E>>) -> (decision: Option<Resume<Self>>) {
        Some(Resume { policy: self, delay: None })
    }
}

/// Creates a policy that runs futures one after another, waiting before each new future for
/// the next delay of the schedule (not at all once the schedule has run out).
///
/// It has no stop condition of its own: wrap it with `attempts` or `retry_if`.
pub fn backoff<I>(schedule: I) -> (policy: BackoffRetry<I>)
    ensures
        policy.schedule() == schedule,
{
    BackoffRetry { backoff: schedule }
}

/// The policy created by [`backoff`].
#[derive(Debug, Clone, Copy)]
pub struct BackoffRetry<I> {
    backoff: I,
}

impl<I> BackoffRetry<I> {
    /// The schedule of the delays still to come.
    pub closed spec fn schedule(self) -> I {
        self.backoff
    }
}

impl<I: Backoff, T, E> Policy<T, E> for BackoffRetry<I> {
    open spec fn well_formed(&self) -> bool {
        true
    }

    open spec fn timer(&self) -> Timer {
        Timer::Never
    }

    open spec fn decides(&self, result: Option<Result<&T, &E>>, decision: Option<Resume<Self>>) -> bool {
        decision matches Some(r) && self.schedule().yields(r.policy.schedule(), r.delay)
    }

    fn force_retry_after(&self) -> (timer: Timer) {
        Timer::Never
    }

    fn retry(self, result: Option<Result<&T, &E>>) -> (decision: Option<Resume<Self>>) {
        let mut schedule = self.backoff;
        let delay = schedule.next_delay();
        Some(Resume { policy: BackoffRetry { backoff: schedule }, delay })
    }
}

/// `sequential` grants a retry on every outcome, at once, and its timer never fires.
pub proof fn lemma_sequential_always_grants<T, E>(
    p: SequentialRetryPolicy,
    result: Option<Result<&T, &E>>,
    decision: Option<Resume<SequentialRetryPolicy>>,
)
    requires
        Policy::<T, E>::decides(&p, result, decision),
    ensures
        decision matches Some(r) && r.delay is None,
        Policy::<T, E>::timer(&p) == Timer::Never,
{
}

/// `backoff(fixed(d))` grants a retry on every outcome, after the wait `d`, keeping `d`.
pub proof fn lemma_fixed_backoff_waits<T, E>(
    p: BackoffRetry<Fixed>,
    result: Option<Result<&T, &E>>,
    decision: Option<Resume<BackoffRetry<Fixed>>>,
)
    requires
        Policy::<T, E>::decides(&p, result, decision),
    ensures
        decision matches Some(r) && r.delay == Some(p.schedule().duration())
            && r.policy.schedule().duration() == p.schedule().duration(),
{
}

/// `backoff(exponential(..))` grants a retry on every outcome, after the schedule's current
/// delay; the schedule then stands at that delay times its factor, lowered to its cap where it
/// exceeds it, or stays where the product leaves the range of a delay.
pub proof fn lemma_exponential_backoff_waits<T, E>(
    p: BackoffRetry<Exponential>,
    result: Option<Result<&T, &E>>,
    decision: Option<Resume<BackoffRetry<Exponential>>>,
)
    requires
        Policy::<T, E>::decides(&p, result, decision),
    ensures
        decision matches Some(r) && r.delay == Some(p.schedule().current()),
        decision matches Some(r) ==> {
            let cur = p.schedule().current()@;
            let f = p.schedule().factor() as nat;
            let next = r.policy.schedule().current()@;
            &&& r.policy.schedule().factor() == p.schedule().factor()
            &&& r.policy.schedule().max() == p.schedule().max()
            &&& cur * f > MAX_NANOS ==> next == cur
            &&& cur * f <= MAX_NANOS ==> match p.schedule().max() {
                Some(m) => next == if m@ < cur * f {
                    m@
                } else {
                    cur * f
                },
                None => next == cur * f,
            }
        },
{
}

} // verus!
