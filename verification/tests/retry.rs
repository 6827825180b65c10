use std::future::{pending, Future};
use std::pin::Pin;
use std::sync::{Arc, Mutex};
use std::task::{Context, Poll};
use std::time::{Duration, Instant};

use fure::backoff::exponential;
use fure::delay::Delay;
use fure::policies::{attempts, backoff, interval, parallel, sequential};
use fure::{retry, Action, CreateFuture, Policy, Resume, Retry, Timer};

// Drives the machine under tokio: performs each action it asks for and reports the outcome.
enum Clock {
    Never,
    Now,
    Sleeping(Pin<Box<tokio::time::Sleep>>),
}

struct Run<P, T, E, CF: CreateFuture<T, E>> {
    machine: Retry<P, T, E, CF, Pin<Box<CF::Output>>>,
    clock: Clock,
}

fn std_duration(d: Delay) -> Duration {
    Duration::new(d.as_secs(), d.subsec_nanos())
}

impl<P, T, E, CF> Future for Run<P, T, E, CF>
where
    P: Policy<T, E> + Unpin,
    CF: CreateFuture<T, E> + Unpin,
    T: Unpin,
    E: Unpin,
{
    type Output = Result<T, E>;

    fn poll(self: Pin<&mut Self>, cx: &mut Context<'_>) -> Poll<Self::Output> {
        let this = self.get_mut();
        loop {
            match this.machine.next_action() {
                Action::CreateFuture => {
                    let f = this.machine.create_future();
                    this.machine.launch(Box::pin(f));
                }
                Action::PollFuture => match this.machine.polled_future().as_mut().poll(cx) {
                    Poll::Ready(result) => {
                        if let Some(out) = this.machine.future_ready(result) {
                            return Poll::Ready(out);
                        }
                    }
                    Poll::Pending => {
                        if this.machine.future_pending() {
                            return Poll::Pending;
                        }
                    }
                },
                Action::StartTimer(timer) => {
                    this.clock = match timer {
                        Timer::Never => Clock::Never,
                        Timer::Immediate => Clock::Now,
                        Timer::After(d) => Clock::Sleeping(Box::pin(tokio::time::sleep(std_duration(d)))),
                    };
                    this.machine.timer_started();
                }
                Action::PollTimer => {
                    let fired = match &mut this.clock {
                        Clock::Never => false,
                        Clock::Now => true,
                        Clock::Sleeping(s) => s.as_mut().poll(cx).is_ready(),
                    };
                    if fired {
                        this.machine.timer_fired();
                    } else {
                        this.machine.timer_pending();
                        return Poll::Pending;
                    }
                }
            }
        }
    }
}

fn run<P, T, E, CF>(create_f: CF, policy: P) -> Run<P, T, E, CF>
where
    P: Policy<T, E>,
    CF: CreateFuture<T, E>,
{
    Run { machine: retry(create_f, policy), clock: Clock::Never }
}

fn run_test(f: impl Future) {
    tokio::runtime::Builder::new_current_thread()
        .enable_time()
        .build()
        .unwrap()
        .block_on(f);
}

#[test]
fn lib_should_drop_previous_delay_after_retry() {
    struct RetryTest {
        retry: usize,
    }

    impl<T, E> Policy<T, E> for RetryTest {
        fn timer(&self) -> Timer {
            if self.retry == 1 {
                Timer::Never
            } else {
                Timer::Immediate
            }
        }

        fn force_retry_after(&self) -> Timer {
            if self.retry == 1 {
                Timer::Never
            } else {
                Timer::Immediate
            }
        }

        fn retry(self, _result: Option<Result<&T, &E>>) -> Option<Resume<Self>> {
            if self.retry == 5 {
                None
            } else {
                Some(Resume { policy: Self { retry: self.retry + 1 }, delay: None })
            }
        }
    }
    run_test(async {
        let call_count = Arc::new(Mutex::new(0));
        let create_fut = || {
            let call_count = call_count.clone();
            async move {
                let call = {
                    let mut mutex_guard = call_count.lock().unwrap();
                    *mutex_guard += 1;
                    *mutex_guard
                };
                if call == 2 {
                    tokio::task::yield_now().await;
                    Err(())
                } else if call == 3 {
                    pending().await
                } else {
                    Err::<(), ()>(())
                }
            }
        };

        let _ = run(create_fut, RetryTest { retry: 0 }).await;

        let guard = call_count.lock().unwrap();
        assert_eq!(*guard, 6);
    })
}

#[test]
fn concurrent_should_run_all_non_ready_futures() {
    run_test(async {
        let call_count = Arc::new(Mutex::new(0));
        let create_fut = || async {
            let call = {
                let mut mutex_guard = call_count.lock().unwrap();
                *mutex_guard += 1;
                *mutex_guard
            };

            if call == 3 {
                // three polls find it pending before one more future is run:
                // create -> poll (1) -> waiting delay, which polls too (2) -> create -> poll (3)
                tokio::task::yield_now().await;
                tokio::task::yield_now().await;
                tokio::task::yield_now().await;
                Ok::<(), ()>(())
            } else {
                pending().await
            }
        };

        let result = run(create_fut, attempts(parallel(), 4)).await;

        let guard = call_count.lock().unwrap();
        assert_eq!(*guard, 4);
        assert!(result.is_ok());
    })
}

#[test]
fn concurrent_should_run_futures_till_ready_one() {
    run_test(async {
        let call_count = Arc::new(Mutex::new(0));
        let create_fut = || async {
            let call = {
                let mut mutex_guard = call_count.lock().unwrap();
                *mutex_guard += 1;
                *mutex_guard
            };
            if call == 2 {
                Ok::<(), ()>(())
            } else {
                pending().await
            }
        };

        let result = run(create_fut, attempts(parallel(), 5)).await;

        let guard = call_count.lock().unwrap();
        assert_eq!(*guard, 2);
        assert!(result.is_ok());
    })
}

#[test]
fn concurrent_should_return_last_error_when_all_failed() {
    run_test(async {
        let call_count = Arc::new(Mutex::new(0));
        let create_fut = || async {
            tokio::task::yield_now().await;
            let mut mutex_guard = call_count.lock().unwrap();
            *mutex_guard += 1;
            if *mutex_guard == 1 {
                Err::<(), _>(*mutex_guard)
            } else {
                Err(*mutex_guard)
            }
        };

        let result = run(create_fut, attempts(interval(Delay::from_secs(10000)), 2)).await;

        let guard = call_count.lock().unwrap();
        assert_eq!(*guard, 3);
        assert_eq!(result, Err(3));
    })
}

#[test]
fn concurrent_should_retry_after_delay() {
    run_test(async {
        let call_count = Arc::new(Mutex::new(0));
        let create_fut = || async {
            tokio::task::yield_now().await;
            let call_count = {
                let mut mutex_guard = call_count.lock().unwrap();
                *mutex_guard += 1;
                *mutex_guard
            };
            if call_count == 1 {
                pending::<Result<(), ()>>().await
            } else {
                Ok(())
            }
        };
        let now = Instant::now();
        let result = run(create_fut, attempts(interval(Delay::from_millis(50)), 2)).await;

        let guard = call_count.lock().unwrap();
        assert_eq!(*guard, 2);
        assert!(now.elapsed() >= Duration::from_millis(50));
        assert!(result.is_ok());
    })
}

#[test]
fn should_run_next_after_backoff() {
    run_test(async {
        let create_fut = || async {
            tokio::task::yield_now().await;
            Err::<(), ()>(())
        };
        let now = Instant::now();

        let policy = backoff(exponential(Delay::from_millis(50), 2, Some(Delay::from_secs(1))));
        let result = run(create_fut, attempts(policy, 2)).await;

        assert!(now.elapsed() > Duration::from_millis(150));
        assert!(result.is_err());
    })
}

#[test]
fn sequential_should_run_futures_sequentially() {
    run_test(async {
        let call_count = Arc::new(Mutex::new(0));
        let pass_allowed = Arc::new(Mutex::new(false));
        let create_fut = {
            let call_count = call_count.clone();
            let pass_allowed = pass_allowed.clone();
            move || {
                let call_count = call_count.clone();
                let pass_allowed = pass_allowed.clone();
                async move {
                    {
                        let mut mutex_guard = call_count.lock().unwrap();
                        *mutex_guard += 1;
                    }
                    loop {
                        {
                            if *pass_allowed.lock().unwrap() {
                                break;
                            }
                        }
                        tokio::task::yield_now().await
                    }

                    Err::<(), ()>(())
                }
            }
        };

        tokio::spawn(async move { run(create_fut, attempts(sequential(), 2)).await });
        tokio::time::sleep(Duration::from_millis(10)).await;

        {
            let guard = call_count.lock().unwrap();
            assert_eq!(*guard, 1);
        }
        *pass_allowed.lock().unwrap() = true;
        tokio::time::sleep(Duration::from_millis(10)).await;
        let guard = call_count.lock().unwrap();
        assert_eq!(*guard, 3);
    })
}

use fure::policies::{Concurrent, DelayedConcurrent, Sequential};

#[test]
fn policies_should_drop_previous_delay_after_retry() {
    struct RetryTest {
        retry: usize,
    }

    impl<T, E> Policy<T, E> for RetryTest {
        fn timer(&self) -> Timer {
            if self.retry == 1 {
                Timer::Never
            } else {
                Timer::Immediate
            }
        }

        fn force_retry_after(&self) -> Timer {
            if self.retry == 1 {
                Timer::Never
            } else {
                Timer::Immediate
            }
        }

        fn retry(self, _result: Option<Result<&T, &E>>) -> Option<Resume<Self>> {
            if self.retry == 5 {
                None
            } else {
                Some(Resume { policy: Self { retry: self.retry + 1 }, delay: None })
            }
        }
    }
    run_test(async {
        let call_count = Arc::new(Mutex::new(0));
        let create_fut = || {
            let call_count = call_count.clone();
            Box::pin(async move {
                let call = {
                    let mut mutex_guard = call_count.lock().unwrap();
                    *mutex_guard += 1;
                    *mutex_guard
                };
                if call == 2 {
                    tokio::task::yield_now().await;
                    Err(())
                } else if call == 3 {
                    pending().await
                } else {
                    Err::<(), ()>(())
                }
            })
        };

        let _ = run(create_fut, RetryTest { retry: 0 }).await;

        let guard = call_count.lock().unwrap();
        assert_eq!(*guard, 6);
    })
}

#[test]
fn policies_should_run_futures_sequentially() {
    run_test(async {
        let call_count = Arc::new(Mutex::new(0));
        let pass_allowed = Arc::new(Mutex::new(false));
        let create_fut = {
            let call_count = call_count.clone();
            let pass_allowed = pass_allowed.clone();
            move || {
                let call_count = call_count.clone();
                let pass_allowed = pass_allowed.clone();
                Box::pin(async move {
                    {
                        let mut mutex_guard = call_count.lock().unwrap();
                        *mutex_guard += 1;
                    }
                    loop {
                        {
                            if *pass_allowed.lock().unwrap() {
                                break;
                            }
                        }
                        tokio::task::yield_now().await
                    }

                    Err::<(), ()>(())
                })
            }
        };

        tokio::spawn(async move { run(create_fut, Sequential::new(1)).await });
        tokio::task::yield_now().await;

        {
            let guard = call_count.lock().unwrap();
            assert_eq!(*guard, 1);
        }
        *pass_allowed.lock().unwrap() = true;
        tokio::task::yield_now().await;
        let guard = call_count.lock().unwrap();
        assert_eq!(*guard, 2);
    })
}

#[test]
fn should_run_only_one_future_when_first_completed() {
    run_test(async {
        let call_count = Arc::new(Mutex::new(0));
        let create_fut = || {
            let call_count = call_count.clone();
            Box::pin(async move {
                let mut mutex_guard = call_count.lock().unwrap();
                *mutex_guard += 1;
                Ok::<(), ()>(())
            })
        };

        let result = run(create_fut, Concurrent::new(2)).await;

        let guard = call_count.lock().unwrap();
        assert_eq!(*guard, 1);
        assert!(result.is_ok());
    })
}

#[test]
fn policies_should_run_all_non_ready_futures() {
    run_test(async {
        let call_count = Arc::new(Mutex::new(0));
        let create_fut = || {
            let call_count = call_count.clone();
            Box::pin(async move {
                let call = {
                    let mut mutex_guard = call_count.lock().unwrap();
                    *mutex_guard += 1;
                    *mutex_guard
                };
                if call == 3 {
                    Ok::<(), ()>(())
                } else {
                    pending().await
                }
            })
        };

        let result = run(create_fut, Concurrent::new(2)).await;

        let guard = call_count.lock().unwrap();
        assert_eq!(*guard, 3);
        assert!(result.is_ok());
    })
}

#[test]
fn policies_should_run_futures_till_ready_one() {
    run_test(async {
        let call_count = Arc::new(Mutex::new(0));
        let create_fut = || {
            let call_count = call_count.clone();
            Box::pin(async move {
                let call = {
                    let mut mutex_guard = call_count.lock().unwrap();
                    *mutex_guard += 1;
                    *mutex_guard
                };
                if call == 2 {
                    Ok::<(), ()>(())
                } else {
                    pending().await
                }
            })
        };

        let result = run(create_fut, Concurrent::new(2)).await;

        let guard = call_count.lock().unwrap();
        assert_eq!(*guard, 2);
        assert!(result.is_ok());
    })
}

#[test]
fn should_retry_when_failed() {
    run_test(async {
        let call_count = Arc::new(Mutex::new(0));
        let create_fut = || {
            let call_count = call_count.clone();
            Box::pin(async move {
                let mut mutex_guard = call_count.lock().unwrap();
                *mutex_guard += 1;
                if *mutex_guard == 1 {
                    Err(())
                } else {
                    Ok(())
                }
            })
        };

        let result = run(create_fut, DelayedConcurrent::new(2, Delay::from_secs(10000))).await;

        let guard = call_count.lock().unwrap();
        assert_eq!(*guard, 2);
        assert!(result.is_ok());
    })
}

#[test]
fn policies_should_return_last_error_when_all_failed() {
    run_test(async {
        let call_count = Arc::new(Mutex::new(0));
        let create_fut = || {
            let call_count = call_count.clone();
            Box::pin(async move {
                let mut mutex_guard = call_count.lock().unwrap();
                *mutex_guard += 1;
                if *mutex_guard == 1 {
                    Err::<(), _>(*mutex_guard)
                } else {
                    Err(*mutex_guard)
                }
            })
        };

        let result = run(create_fut, DelayedConcurrent::new(2, Delay::from_secs(10000))).await;

        let guard = call_count.lock().unwrap();
        assert_eq!(*guard, 3);
        assert_eq!(result, Err(3));
    })
}

#[test]
fn policies_should_retry_after_delay() {
    run_test(async {
        let call_count = Arc::new(Mutex::new(0));
        let create_fut = || {
            let call_count = call_count.clone();
            Box::pin(async move {
                let call_count = {
                    let mut mutex_guard = call_count.lock().unwrap();
                    *mutex_guard += 1;
                    *mutex_guard
                };
                if call_count == 1 {
                    pending::<Result<(), ()>>().await
                } else {
                    Ok(())
                }
            })
        };

        let result = run(create_fut, DelayedConcurrent::new(2, Delay::from_millis(1))).await;

        let guard = call_count.lock().unwrap();
        assert_eq!(*guard, 2);
        assert!(result.is_ok());
    })
}

#[test]
fn should_not_retry_when_ok() {
    run_test(async {
        let call_count = Arc::new(Mutex::new(0));
        let create_fut = || {
            let call_count = call_count.clone();
            Box::pin(async move {
                let mut mutex_guard = call_count.lock().unwrap();
                *mutex_guard += 1;
                Ok::<_, ()>(())
            })
        };

        let result = run(create_fut, DelayedConcurrent::new(2, Delay::from_millis(100000000))).await;

        let guard = call_count.lock().unwrap();
        assert_eq!(*guard, 1);
        assert!(result.is_ok());
    })
}
