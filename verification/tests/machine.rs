// Steps the machine by hand, with labels standing for the running futures.
use std::future::{ready, Ready};

use fure::delay::Delay;
use fure::policies::{attempts, backoff, interval, parallel, sequential};
use fure::backoff::{exponential, fixed};
use fure::{retry, Action, Timer};

fn source() -> impl FnMut() -> Ready<Result<u32, u32>> {
    || ready(Ok(0))
}

#[test]
fn parallel_polls_in_order_and_refills_first_place() {
    let mut m = retry::<_, u32, u32, _, u32>(source(), attempts(parallel(), 3));
    assert_eq!(m.next_action(), Action::CreateFuture);
    let _ = m.create_future();
    m.launch(1);
    assert_eq!(m.next_action(), Action::PollFuture);
    assert_eq!(*m.polled_future(), 1);
    assert!(!m.future_pending());
    assert_eq!(m.next_action(), Action::StartTimer(Timer::Immediate));
    m.timer_started();
    assert_eq!(m.next_action(), Action::PollFuture);
    assert_eq!(*m.polled_future(), 1);
    assert!(!m.future_pending());
    assert_eq!(m.next_action(), Action::PollTimer);
    m.timer_fired();
    assert_eq!(m.next_action(), Action::CreateFuture);
    let _ = m.create_future();
    m.launch(2);
    assert_eq!(*m.polled_future(), 1);
    // the first future fails: the second is left, and a third takes the first place
    assert_eq!(m.future_ready(Err(10)), None);
    assert_eq!(m.next_action(), Action::CreateFuture);
    let _ = m.create_future();
    m.launch(3);
    assert_eq!(*m.polled_future(), 3);
    assert!(!m.future_pending());
    assert_eq!(*m.polled_future(), 2);
    assert_eq!(m.future_ready(Ok(20)), Some(Ok(20)));
    assert!(m.is_finished());
}

#[test]
fn last_error_is_handed_back_when_retries_run_out() {
    let mut m = retry::<_, u32, u32, _, u32>(source(), attempts(sequential(), 1));
    let _ = m.create_future();
    m.launch(1);
    assert_eq!(m.future_ready(Err(1)), None);
    assert_eq!(m.next_action(), Action::CreateFuture);
    let _ = m.create_future();
    m.launch(2);
    assert_eq!(m.future_ready(Err(2)), Some(Err(2)));
    assert!(m.is_finished());
}

#[test]
fn sequential_waits_on_a_timer_that_never_fires() {
    let mut m = retry::<_, u32, u32, _, u32>(source(), attempts(sequential(), 2));
    let _ = m.create_future();
    m.launch(1);
    assert!(!m.future_pending());
    assert_eq!(m.next_action(), Action::StartTimer(Timer::Never));
    m.timer_started();
    assert!(!m.future_pending());
    assert_eq!(m.next_action(), Action::PollTimer);
    m.timer_pending();
    // polled again: the running future first, then the timer
    assert_eq!(m.next_action(), Action::PollFuture);
    assert_eq!(*m.polled_future(), 1);
}

#[test]
fn timer_firing_consults_the_policy_without_a_result() {
    let mut m = retry::<_, u32, u32, _, u32>(source(), attempts(interval(Delay::from_secs(1)), 0));
    let _ = m.create_future();
    m.launch(1);
    assert!(!m.future_pending());
    assert_eq!(m.next_action(), Action::StartTimer(Timer::After(Delay::from_secs(1))));
    m.timer_started();
    assert!(!m.future_pending());
    m.timer_fired();
    // no retry left: only the running future is waited on, and the machine suspends
    assert_eq!(m.next_action(), Action::PollFuture);
    assert!(m.future_pending());
    assert_eq!(m.next_action(), Action::PollFuture);
    assert_eq!(m.future_ready(Err(5)), Some(Err(5)));
}

#[test]
fn backoff_waits_before_each_new_future() {
    let mut m = retry::<_, u32, u32, _, u32>(source(), attempts(backoff(fixed(Delay::from_millis(30))), 2));
    let _ = m.create_future();
    m.launch(1);
    assert_eq!(m.future_ready(Err(1)), None);
    assert_eq!(m.next_action(), Action::StartTimer(Timer::After(Delay::from_millis(30))));
    m.timer_started();
    assert_eq!(m.next_action(), Action::PollTimer);
    m.timer_pending();
    assert_eq!(m.next_action(), Action::PollTimer);
    m.timer_fired();
    assert_eq!(m.next_action(), Action::CreateFuture);
    let f = m.create_future();
    assert_eq!(futures_ready_value(f), Ok(0));
}

fn futures_ready_value(f: Ready<Result<u32, u32>>) -> Result<u32, u32> {
    f.into_inner()
}

#[test]
fn exponential_backoff_waits_in_schedule_order() {
    let schedule = exponential(Delay::from_secs(1), 2, None);
    let mut m = retry::<_, u32, u32, _, u32>(source(), attempts(backoff(schedule), 3));
    let mut waits = vec![];
    for k in 0..4u32 {
        assert_eq!(m.next_action(), Action::CreateFuture);
        let _ = m.create_future();
        m.launch(k);
        match m.future_ready(Err(k)) {
            Some(out) => {
                assert_eq!(out, Err(3));
                break;
            }
            None => {}
        }
        match m.next_action() {
            Action::StartTimer(Timer::After(d)) => waits.push(d),
            other => panic!("unexpected action {:?}", other),
        }
        m.timer_started();
        m.timer_fired();
    }
    assert!(m.is_finished());
    assert_eq!(waits, vec![Delay::from_secs(1), Delay::from_secs(2), Delay::from_secs(4)]);
}
