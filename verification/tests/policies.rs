use fure::backoff::{exponential, fixed};
use fure::delay::Delay;
use fure::policies::{
    attempts, backoff, cond, interval, parallel, sequential, Concurrent, DelayedConcurrent,
    PolicyExt, Sequential,
};
use fure::{Policy, Timer};

type Outcome<'a> = Option<Result<&'a u32, &'a u32>>;

fn grants<P: Policy<u32, u32>>(policy: P, outcome: Outcome) -> Option<P> {
    policy.retry(outcome).map(|r| r.policy)
}

// Counts the retries a policy grants on the same outcome, up to `limit`.
fn count_grants<P: Policy<u32, u32>>(mut policy: P, outcome: Outcome, limit: usize) -> usize {
    let mut n = 0;
    while n < limit {
        match policy.retry(outcome) {
            Some(r) => {
                policy = r.policy;
                n += 1;
            }
            None => break,
        }
    }
    n
}

#[test]
fn builtin_timers() {
    assert_eq!(Policy::<u32, u32>::force_retry_after(&parallel()), Timer::Immediate);
    assert_eq!(Policy::<u32, u32>::force_retry_after(&sequential()), Timer::Never);
    assert_eq!(
        Policy::<u32, u32>::force_retry_after(&interval(Delay::from_secs(2))),
        Timer::After(Delay::from_secs(2))
    );
    assert_eq!(
        Policy::<u32, u32>::force_retry_after(&backoff(fixed(Delay::from_secs(1)))),
        Timer::Never
    );
    assert_eq!(
        Policy::<u32, u32>::force_retry_after(&attempts(interval(Delay::from_millis(5)), 3)),
        Timer::After(Delay::from_millis(5))
    );
    assert_eq!(Policy::<u32, u32>::force_retry_after(&Sequential::new(1)), Timer::Never);
    assert_eq!(Policy::<u32, u32>::force_retry_after(&Concurrent::new(1)), Timer::Immediate);
    assert_eq!(
        Policy::<u32, u32>::force_retry_after(&DelayedConcurrent::new(1, Delay::from_secs(3))),
        Timer::After(Delay::from_secs(3))
    );
}

#[test]
fn unbounded_policies_always_retry_without_delay() {
    let e = 1u32;
    let r = parallel().retry(Some(Err::<&u32, &u32>(&e))).unwrap();
    assert_eq!(r.delay, None);
    let r = Policy::<u32, u32>::retry(sequential(), None).unwrap();
    assert_eq!(r.delay, None);
    let r = Policy::<u32, u32>::retry(interval(Delay::from_secs(1)), Some(Ok(&e))).unwrap();
    assert_eq!(r.delay, None);
    assert_eq!(count_grants(sequential(), None, 50), 50);
}

#[test]
fn attempts_grants_exactly_max_retries() {
    let e = 7u32;
    assert_eq!(count_grants(attempts(sequential(), 3), Some(Err(&e)), 50), 3);
    assert_eq!(count_grants(attempts(parallel(), 0), None, 50), 0);
    assert_eq!(count_grants(sequential().attempts(5), None, 50), 5);
}

#[test]
fn attempts_stops_on_ok() {
    let v = 1u32;
    assert!(grants(attempts(sequential(), 3), Some(Ok(&v))).is_none());
}

#[test]
fn retry_if_retries_while_condition_holds() {
    let v = 1u32;
    let e = 2u32;
    let not_ok = |r: Option<Result<&u32, &u32>>| !matches!(r, Some(Ok(_)));
    assert!(grants(cond(sequential(), not_ok), Some(Ok(&v))).is_none());
    assert!(grants(cond(sequential(), not_ok), Some(Err(&e))).is_some());
    assert!(grants(sequential().retry_if(not_ok), None).is_some());
    assert_eq!(count_grants(cond(sequential(), not_ok), Some(Err(&e)), 20), 20);
}

#[test]
fn retry_if_condition_sees_each_outcome() {
    let mut seen = 0;
    let e = 2u32;
    {
        let counting = |_: Option<Result<&u32, &u32>>| {
            seen += 1;
            seen < 3
        };
        assert_eq!(count_grants(cond(parallel(), counting), Some(Err(&e)), 10), 2);
    }
    assert_eq!(seen, 3);
}

#[test]
fn backoff_policy_hands_out_the_schedule() {
    let schedule = exponential(Delay::from_secs(1), 2, Some(Delay::from_secs(3)));
    let mut policy = backoff(schedule);
    let mut delays = vec![];
    for _ in 0..4 {
        let r = Policy::<u32, u32>::retry(policy, None).unwrap();
        delays.push(r.delay.unwrap());
        policy = r.policy;
    }
    assert_eq!(
        delays,
        vec![Delay::from_secs(1), Delay::from_secs(2), Delay::from_secs(3), Delay::from_secs(3)]
    );
}

#[test]
fn bounded_policies_count_down_and_stop_on_ok() {
    let v = 1u32;
    let e = 2u32;
    assert_eq!(count_grants(Sequential::new(2), Some(Err(&e)), 10), 2);
    assert_eq!(count_grants(Concurrent::new(4), None, 10), 4);
    assert_eq!(count_grants(DelayedConcurrent::new(0, Delay::from_secs(1)), None, 10), 0);
    assert!(grants(Sequential::new(2), Some(Ok(&v))).is_none());
    assert!(grants(Concurrent::new(2), Some(Ok(&v))).is_none());
    let r = grants(DelayedConcurrent::new(2, Delay::from_secs(9)), None).unwrap();
    assert_eq!(Policy::<u32, u32>::force_retry_after(&r), Timer::After(Delay::from_secs(9)));
}
