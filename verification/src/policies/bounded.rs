//! Policies with a count of retries built in: each retries after an error or a forced retry,
//! stops after an `Ok` result, and stops once its retries are used up.
use vstd::prelude::*;
use crate::delay::Delay;
use crate::{Policy, Resume, Timer};

verus! {

/// The retries that are left after one more outcome: none after an `Ok` result or when no
/// retry was left, else one fewer.
pub open spec fn retries_after<T, E>(max_retries: usize, result: Option<Result<&T, &E>>) -> Option<usize> {
    match result {
        Some(Ok(_)) => None,
        _ => if max_retries == 0 {
            None
        } else {
            Some((max_retries - 1) as usize)
        },
    }
}

/// The count of retries that a policy has left.
#[derive(Debug, Clone, Copy)]
struct RetryFailed {
    max_retries: usize,
}

impl RetryFailed {
    fn new(max_retries: usize) -> (r: Self)
        ensures
            r.max_retries == max_retries,
    {
        Self { max_retries }
    }

    fn next<T, E>(&self, result: Option<Result<&T, &E>>) -> (r: Option<Self>)
        ensures
            match retries_after(self.max_retries, result) {
                Some(n) => r == Some(RetryFailed { max_retries: n }),
                None => r is None,
            },
    {
        match result {
            Some(Ok(_)) => None,
            _ => match self.max_retries.checked_sub(1) {
                Some(n) => Some(Self::new(n)),
                None => None,
            },
        }
    }
}

/// Runs futures one after another, at most `max_retries + 1` of them.
#[derive(Debug, Clone, Copy)]
pub struct Sequential {
    retry: RetryFailed,
}

impl Sequential {
    /// The retries that are left.
    pub closed spec fn max_retries(self) -> usize {
        self.retry.max_retries
    }

    pub fn new(max_retries: usize) -> (policy: Self)
        ensures
            policy.max_retries() == max_retries,
    {
        Self { retry: RetryFailed::new(max_retries) }
    }
}

impl<T, E> Policy<T, E> for Sequential {
    open spec fn well_formed(&self) -> bool {
        true
    }

    open spec fn timer(&self) -> Timer {
        Timer::Never
    }

    open spec fn decides(&self, result: Option<Result<&T, &E>>, decision: Option<Resume<Self>>) -> bool {
        match retries_after(self.max_retries(), result) {
            Some(n) => decision matches Some(r) && r.policy.max_retries() == n && r.delay is None,
            None => decision is None,
        }
    }

    fn force_retry_after(&self) -> (timer: Timer) {
        Timer::Never
    }

    fn retry(self, result: Option<Result<&T, &E>>) -> (decision: Option<Resume<Self>>) {
        match self.retry.next(result) {
            Some(retry) => Some(Resume { policy: Self { retry }, delay: None }),
            None => None,
        }
    }
}

/// Creates another future at once whenever the running ones are pending, at most
/// `max_retries + 1` futures in all.
#[derive(Debug, Clone, Copy)]
pub struct Concurrent {
    retry: RetryFailed,
}

impl Concurrent {
    /// The retries that are left.
    pub closed spec fn max_retries(self) -> usize {
        self.retry.max_retries
    }

    pub fn new(max_retries: usize) -> (policy: Self)
        ensures
            policy.max_retries() == max_retries,
    {
        Self { retry: RetryFailed::new(max_retries) }
    }
}

impl<T, E> Policy<T, E> for Concurrent {
    open spec fn well_formed(&self) -> bool {
        true
    }

    open spec fn timer(&self) -> Timer {
        Timer::Immediate
    }

    open spec fn decides(&self, result: Option<Result<&T, &E>>, decision: Option<Resume<Self>>) -> bool {
        match retries_after(self.max_retries(), result) {
            Some(n) => decision matches Some(r) && r.policy.max_retries() == n && r.delay is None,
            None => decision is None,
        }
    }

    fn force_retry_after(&self) -> (timer: Timer) {
        Timer::Immediate
    }

    fn retry(self, result: Option<Result<&T, &E>>) -> (decision: Option<Resume<Self>>) {
        match self.retry.next(result) {
            Some(retry) => Some(Resume { policy: Self { retry }, delay: None }),
            None => None,
        }
    }
}

/// Creates another future after an error, or after `force_retry_after` passes with no
/// result, at most `max_retries + 1` futures in all.
#[derive(Debug, Clone, Copy)]
pub struct DelayedConcurrent {
    retry: RetryFailed,
    force_retry_after: Delay,
}

impl DelayedConcurrent {
    /// The retries that are left.
    pub closed spec fn max_retries(self) -> usize {
        self.retry.max_retries
    }

    /// How long the policy lets running futures go without a result.
    pub closed spec fn force_retry_after_delay(self) -> Delay {
        self.force_retry_after
    }

    pub fn new(max_retries: usize, force_retry_after: Delay) -> (policy: Self)
        ensures
            policy.max_retries() == max_retries,
            policy.force_retry_after_delay() == force_retry_after,
    {
        Self { retry: RetryFailed::new(max_retries), force_retry_after }
    }
}

impl<T, E> Policy<T, E> for DelayedConcurrent {
    open spec fn well_formed(&self) -> bool {
        true
    }

    open spec fn timer(&self) -> Timer {
        Timer::After(self.force_retry_after_delay())
    }

    open spec fn decides(&self, result: Option<Result<&T, &E>>, decision: Option<Resume<Self>>) -> bool {
        match retries_after(self.max_retries(), result) {
            Some(n) => decision matches Some(r) && r.policy.max_retries() == n
                && r.policy.force_retry_after_delay() == self.force_retry_after_delay()
                && r.delay is None,
            None => decision is None,
        }
    }

    fn force_retry_after(&self) -> (timer: Timer) {
        Timer::After(self.force_retry_after)
    }

    fn retry(self, result: Option<Result<&T, &E>>) -> (decision: Option<Resume<Self>>) {
        match self.retry.next(result) {
            Some(retry) => Some(
                Resume { policy: Self { retry, force_retry_after: self.force_retry_after }, delay: None },
            ),
            None => None,
        }
    }
}

/// `Sequential` counts its retries down: after an error, or when its timer fired first (`None`),
/// with retries left it grants one at once and keeps one fewer; it declines after an `Ok`
/// result, and once none is left.
pub proof fn lemma_sequential_counts_down<T, E>(
    p: Sequential,
    result: Option<Result<&T, &E>>,
    decision: Option<Resume<Sequential>>,
)
    requires
        Policy::<T, E>::decides(&p, result, decision),
    ensures
        result matches Some(Ok(_)) ==> decision is None,
        p.max_retries() == 0 ==> decision is None,
        !(result matches Some(Ok(_))) && p.max_retries() > 0 ==> (decision matches Some(r)
            && r.policy.max_retries() + 1 == p.max_retries() && r.delay is None),
{
}

/// `Concurrent` counts its retries down: after an error, or when its timer fired first (`None`),
/// with retries left it grants one at once and keeps one fewer; it declines after an `Ok`
/// result, and once none is left.
pub proof fn lemma_concurrent_counts_down<T, E>(
    p: Concurrent,
    result: Option<Result<&T, &E>>,
    decision: Option<Resume<Concurrent>>,
)
    requires
        Policy::<T, E>::decides(&p, result, decision),
    ensures
        result matches Some(Ok(_)) ==> decision is None,
        p.max_retries() == 0 ==> decision is None,
        !(result matches Some(Ok(_))) && p.max_retries() > 0 ==> (decision matches Some(r)
            && r.policy.max_retries() + 1 == p.max_retries() && r.delay is None),
{
}

/// `DelayedConcurrent`, which keeps its timer, counts its retries down: after an error, or when its timer fired first (`None`),
/// with retries left it grants one at once and keeps one fewer; it declines after an `Ok`
/// result, and once none is left.
pub proof fn lemma_delayed_concurrent_counts_down<T, E>(
    p: DelayedConcurrent,
    result: Option<Result<&T, &E>>,
    decision: Option<Resume<DelayedConcurrent>>,
)
    requires
        Policy::<T, E>::decides(&p, result, decision),
    ensures
        result matches Some(Ok(_)) ==> decision is None,
        p.max_retries() == 0 ==> decision is None,
        !(result matches Some(Ok(_))) && p.max_retries() > 0 ==> (decision matches Some(r)
            && r.policy.max_retries() + 1 == p.max_retries() && r.delay is None
            && r.policy.force_retry_after_delay() == p.force_retry_after_delay()),
{
}

} // verus!
