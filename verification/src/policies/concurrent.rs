//! Policies that run further futures while earlier ones are still running.
use vstd::prelude::*;
use crate::delay::Delay;
use crate::{Policy, Resume, Timer};

verus! {

/// Creates a policy that runs futures concurrently: once a future is found pending, another
/// one is created at once. If a future completes at once, no further future is run.
///
/// It has no stop condition of its own: wrap it with `attempts` or `retry_if`.
pub fn parallel() -> (policy: ParallelRetryPolicy) {
    ParallelRetryPolicy
}

/// The policy created by [`parallel`].
#[derive(Debug, Clone, Copy)]
pub struct ParallelRetryPolicy;

impl<T, E> Policy<T, E> for ParallelRetryPolicy {
    open spec fn well_formed(&self) -> bool {
        true
    }

    open spec fn timer(&self) -> Timer {
        Timer::Immediate
    }

    open spec fn decides(&self, result: Option<Result<&T, &E>>, decision: Option<Resume<Self>>) -> bool {
        decision == Some(Resume { policy: ParallelRetryPolicy, delay: None })
    }

    fn force_retry_after(&self) -> (timer: Timer) {
        Timer::Immediate
    }

    fn retry(self, result: Option<Result<&T, &E>>) -> (decision: Option<Resume<Self>>) {
        Some(Resume { policy: ParallelRetryPolicy, delay: None })
    }
}

/// Creates a policy that runs another future after an error, or after `force_retry_after`
/// passes with no result. Each completed future drops the running timer; the next one starts
/// afresh.
///
/// It has no stop condition of its own: wrap it with `attempts` or `retry_if`.
pub fn interval(force_retry_after: Delay) -> (policy: IntervalRetryPolicy)
    ensures
        policy.force_retry_after_delay() == force_retry_after,
{
    IntervalRetryPolicy { force_retry_after }
}

/// The policy created by [`interval`].
pub struct IntervalRetryPolicy {
    force_retry_after: Delay,
}

impl IntervalRetryPolicy {
    /// How long the policy lets running futures go without a result.
    pub closed spec fn force_retry_after_delay(self) -> Delay {
        self.force_retry_after
    }
}

impl<T, E> Policy<T, E> for IntervalRetryPolicy {
    open spec fn well_formed(&self) -> bool {
        true
    }

    open spec fn timer(&self) -> Timer {
        Timer::After(self.force_retry_after_delay())
    }

    open spec fn decides(&self, result: Option<Result<&T, &E>>, decision: Option<Resume<Self>>) -> bool {
        decision == Some(Resume { policy: *self, delay: None })
    }

    fn force_retry_after(&self) -> (timer: Timer) {
        Timer::After(self.force_retry_after)
    }

    fn retry(self, result: Option<Result<&T, &E>>) -> (decision: Option<Resume<Self>>) {
        Some(Resume { policy: self, delay: None })
    }
}

/// `parallel` grants a retry on every outcome, at once, and stays as it is.
pub proof fn lemma_parallel_always_grants<T, E>(
    p: ParallelRetryPolicy,
    result: Option<Result<&T, &E>>,
    decision: Option<Resume<ParallelRetryPolicy>>,
)
    requires
        Policy::<T, E>::decides(&p, result, decision),
    ensures
        decision matches Some(r) && r.delay is None,
        Policy::<T, E>::timer(&p) == Timer::Immediate,
{
}

/// `interval(d)` grants a retry on every outcome, at once, keeping its timer `d`.
pub proof fn lemma_interval_always_grants<T, E>(
    p: IntervalRetryPolicy,
    result: Option<Result<&T, &E>>,
    decision: Option<Resume<IntervalRetryPolicy>>,
)
    requires
        Policy::<T, E>::decides(&p, result, decision),
    ensures
        decision matches Some(r) && r.delay is None && r.policy.force_retry_after_delay()
            == p.force_retry_after_delay(),
        Policy::<T, E>::timer(&p) == Timer::After(p.force_retry_after_delay()),
{
}

} // verus!
