//! Builtin implementations of [`Policy`](crate::Policy), and the wrappers that give a policy
//! a stop condition.
use vstd::prelude::*;
use crate::{Policy, Resume, Timer};

pub mod bounded;
pub mod concurrent;
pub mod sequential;

pub use bounded::{Concurrent, DelayedConcurrent, Sequential};
pub use concurrent::{interval, parallel, IntervalRetryPolicy, ParallelRetryPolicy};
pub use sequential::{backoff, sequential, BackoffRetry, SequentialRetryPolicy};

verus! {

/// Stop conditions for any policy.
pub trait PolicyExt: Sized {
    /// Retries at most `max_retries` times, and never after an `Ok` result.
    fn attempts(self, max_retries: usize) -> (policy: RetryAttempts<Self, usize>)
        ensures
            policy.policy() == self,
            policy.condition() == max_retries,
    ;

    /// Retries as `self` does while `retry_if` holds of the outcome, and stops as soon as it
    /// does not.
    fn retry_if<T, E, FN>(self, retry_if: FN) -> (policy: RetryAttempts<Self, FN>) where
        FN: FnMut(Option<Result<&T, &E>>) -> bool,

        ensures
            policy.policy() == self,
            policy.condition() == retry_if,
    ;
}

impl<P> PolicyExt for P {
    fn attempts(self, max_retries: usize) -> (policy: RetryAttempts<P, usize>) {
        RetryAttempts { policy: self, condition: max_retries }
    }

    fn retry_if<T, E, FN>(self, retry_if: FN) -> (policy: RetryAttempts<P, FN>) where
        FN: FnMut(Option<Result<&T, &E>>) -> bool,
     {
        RetryAttempts { policy: self, condition: retry_if }
    }
}

/// Wraps `policy` so that it retries at most `max_retries` times, and never after an `Ok`
/// result.
pub fn attempts<P>(policy: P, max_retries: usize) -> (wrapped: RetryAttempts<P, usize>)
    ensures
        wrapped.policy() == policy,
        wrapped.condition() == max_retries,
{
    policy.attempts(max_retries)
}

/// Wraps `policy` so that it retries only while `retry_if` holds of the outcome.
pub fn cond<P, T, E, FN>(policy: P, retry_if: FN) -> (wrapped: RetryAttempts<P, FN>) where
    FN: FnMut(Option<Result<&T, &E>>) -> bool,

    ensures
        wrapped.policy() == policy,
        wrapped.condition() == retry_if,
{
    policy.retry_if(retry_if)
}

/// A policy with a stop condition: a count of retries left (`usize`) or a predicate on the
/// outcome.
pub struct RetryAttempts<P, C> {
    policy: P,
    condition: C,
}

impl<P, C> RetryAttempts<P, C> {
    /// The policy that is wrapped.
    pub closed spec fn policy(self) -> P {
        self.policy
    }

    /// The stop condition.
    pub closed spec fn condition(self) -> C {
        self.condition
    }
}

/// What `retry` answers of a wrapped policy, where the wrapped policy is consulted: its answer,
/// with the stop condition carried along.
pub open spec fn delegated<P, C, T, E>(
    policy: P,
    result: Option<Result<&T, &E>>,
    decision: Option<Resume<RetryAttempts<P, C>>>,
) -> bool where P: Policy<T, E> {
    match decision {
        None => policy.decides(result, None),
        Some(r) => policy.decides(result, Some(Resume { policy: r.policy.policy(), delay: r.delay })),
    }
}

impl<P, T, E> Policy<T, E> for RetryAttempts<P, usize> where P: Policy<T, E> {
    open spec fn well_formed(&self) -> bool {
        self.policy().well_formed()
    }

    open spec fn timer(&self) -> Timer {
        self.policy().timer()
    }

    open spec fn decides(&self, result: Option<Result<&T, &E>>, decision: Option<Resume<Self>>) -> bool {
        match result {
            Some(Ok(_)) => decision is None,
            _ => if self.condition() == 0 {
                decision is None
            } else {
                delegated(self.policy(), result, decision) && (decision matches Some(r)
                    ==> r.policy.condition() == self.condition() - 1)
            },
        }
    }

    fn force_retry_after(&self) -> (timer: Timer) {
        self.policy.force_retry_after()
    }

    fn retry(self, result: Option<Result<&T, &E>>) -> (decision: Option<Resume<Self>>) {
        match result {
            Some(Ok(_)) => None,
            _ => {
                if self.condition == 0 {
                    None
                } else {
                    let left: usize = self.condition - 1;
                    match self.policy.retry(result) {
                        None => None,
                        Some(r) => Some(
                            Resume {
                                policy: RetryAttempts { policy: r.policy, condition: left },
                                delay: r.delay,
                            },
                        ),
                    }
                }
            },
        }
    }
}

impl<P, T, E, FN> Policy<T, E> for RetryAttempts<P, FN> where
    P: Policy<T, E>,
    FN: FnMut(Option<Result<&T, &E>>) -> bool,
 {
    open spec fn well_formed(&self) -> bool {
        &&& self.policy().well_formed()
        &&& forall|r: Option<Result<&T, &E>>| #[trigger] call_requires(self.condition(), (r,))
    }

    open spec fn timer(&self) -> Timer {
        self.policy().timer()
    }

    open spec fn decides(&self, result: Option<Result<&T, &E>>, decision: Option<Resume<Self>>) -> bool {
        exists|holds: bool|
            #[trigger] call_ensures(self.condition(), (result,), holds) && if holds {
                &&& delegated(self.policy(), result, decision)
                &&& decision matches Some(r) ==> r.policy.condition() == self.condition()
            } else {
                decision is None
            }
    }

    fn force_retry_after(&self) -> (timer: Timer) {
        self.policy.force_retry_after()
    }

    fn retry(self, result: Option<Result<&T, &E>>) -> (decision: Option<Resume<Self>>) {
        let ghost before = self;
        let RetryAttempts { policy, mut condition } = self;
        assert(call_requires(before.condition(), (result,)));
        let holds = condition(result);
        assert(call_ensures(before.condition(), (result,), holds));
        if holds {
            match policy.retry(result) {
                None => None,
                Some(r) => Some(Resume { policy: RetryAttempts { policy: r.policy, condition }, delay: r.delay }),
            }
        } else {
            None
        }
    }
}

/// A policy wrapped by `retry_if` or `cond` grants a retry, on any outcome (a forced retry,
/// `None`, included), only where the predicate, called on that very outcome, answered `true`;
/// where the predicate cannot answer `true` of the outcome, it declines. A retry it grants is
/// one the wrapped policy granted on the same outcome, with the same predicate kept.
pub proof fn lemma_retry_if_asks_predicate<P, T, E, FN>(
    p: RetryAttempts<P, FN>,
    result: Option<Result<&T, &E>>,
    decision: Option<Resume<RetryAttempts<P, FN>>>,
) where P: Policy<T, E>, FN: FnMut(Option<Result<&T, &E>>) -> bool
    requires
        Policy::<T, E>::decides(&p, result, decision),
    ensures
        decision is Some ==> exists|holds: bool|
            #[trigger] call_ensures(p.condition(), (result,), holds) && holds,
        (forall|holds: bool| #[trigger] call_ensures(p.condition(), (result,), holds) ==> !holds)
            ==> decision is None,
        decision matches Some(r) ==> {
            &&& r.policy.condition() == p.condition()
            &&& p.policy().decides(result, Some(Resume { policy: r.policy.policy(), delay: r.delay }))
        },
{
}

/// A policy wrapped by `attempts` stops after an `Ok` result and once no retry is left; on an
/// error or a forced retry (`None`), with retries left, it does what the wrapped policy does on
/// the same outcome: declines where that declines, and grants that retry with one retry fewer.
pub proof fn lemma_attempts_counts_down<P, T, E>(
    p: RetryAttempts<P, usize>,
    result: Option<Result<&T, &E>>,
    decision: Option<Resume<RetryAttempts<P, usize>>>,
) where P: Policy<T, E>
    requires
        Policy::<T, E>::decides(&p, result, decision),
    ensures
        result matches Some(Ok(_)) ==> decision is None,
        p.condition() == 0 ==> decision is None,
        decision is None && !(result matches Some(Ok(_))) && p.condition() > 0 ==> p.policy().decides(
            result,
            None,
        ),
        decision matches Some(r) ==> {
            &&& r.policy.condition() + 1 == p.condition()
            &&& p.policy().decides(result, Some(Resume { policy: r.policy.policy(), delay: r.delay }))
        },
{
}

} // verus!
