//! Retrying futures under retry policies.
//!
//! A [`Policy`] decides, after each outcome of a future, whether another future is created and
//! how long to wait first, and how long to let running futures go without a result before a
//! retry is forced. [`Retry`] is the state machine that runs the futures under a policy: it
//! says what to do next (create a future, poll one, start or poll a timer) and takes back what
//! came of it. Builtin policies are in [`policies`], backoff schedules in [`backoff`].
use vstd::prelude::*;

pub mod backoff;
pub mod delay;
pub mod future;
pub mod policies;
pub mod runs;


pub use future::{Action, Retry, RetryState};
use delay::Delay;

verus! {

/// A timer that forces a retry when it fires before any running future completes.
#[derive(Clone, Copy, Debug, PartialEq, Eq, Structural)]
pub enum Timer {
    /// A timer that never fires.
    Never,
    /// A timer that fires at once.
    Immediate,
    /// A timer that fires once the delay has passed.
    After(Delay),
}

/// What a policy hands back when it grants a retry: the policy for what follows, and how long
/// to wait before the next future is created.
pub struct Resume<P> {
    pub policy: P,
    pub delay: Option<Delay>,
}

/// A generic policy that determines how futures are retried.
pub trait Policy<T, E>: Sized {
    /// Whether the policy may be consulted: the conditions it calls can be called. Policies
    /// that call nothing need not say.
    open spec fn well_formed(&self) -> bool {
        true
    }

    /// The timer that [`Policy::force_retry_after`] hands out. Every policy says which it is; a
    /// policy written outside the verified library gives it as a function that returns the
    /// same timer as `force_retry_after`.
    spec fn timer(&self) -> Timer;

    /// Whether [`Policy::retry`] may answer `decision` on `result`; any answer, for policies
    /// that do not say.
    open spec fn decides(&self, result: Option<Result<&T, &E>>, decision: Option<Resume<Self>>) -> bool {
        true
    }

    /// The timer started right after a future is found pending: if it fires before any running
    /// future completes, [`Policy::retry`] is called with `None`, the running futures going on.
    fn force_retry_after(&self) -> (timer: Timer)
        ensures
            timer == self.timer(),
    ;

    /// Whether a new future is to be created: `Some` with the policy that follows and the wait
    /// before the creation, or `None` to stop. `result` is the outcome of the future that
    /// completed, or `None` where the timer of [`Policy::force_retry_after`] fired first.
    fn retry(self, result: Option<Result<&T, &E>>) -> (decision: Option<Resume<Self>>)
        requires
            self.well_formed(),
        ensures
            self.decides(result, decision),
            decision matches Some(r) ==> r.policy.well_formed(),
    ;
}

/// A source of the futures that are run.
pub trait CreateFuture<T, E> {
    type Output: core::future::Future<Output = Result<T, E>>;

    /// Whether [`CreateFuture::create`] can be called; always, for sources that do not say.
    open spec fn can_create(&self) -> bool {
        true
    }

    /// Whether `future` may be what [`CreateFuture::create`] hands out when called on `self`,
    /// turning it into `next`; anything, for sources that do not say.
    open spec fn creates(&self, next: &Self, future: Self::Output) -> bool {
        true
    }

    fn create(&mut self) -> (future: Self::Output)
        requires
            old(self).can_create(),
        ensures
            final(self).can_create(),
            old(self).creates(final(self), future),
    ;
}

impl<T, E, F, FN> CreateFuture<T, E> for FN where
    FN: FnMut() -> F,
    F: core::future::Future<Output = Result<T, E>>,
 {
    type Output = F;

    open spec fn can_create(&self) -> bool {
        call_requires(*self, ())
    }

    /// A closure hands out what a call of it returns.
    open spec fn creates(&self, next: &Self, future: F) -> bool {
        call_ensures(*self, (), future)
    }

    fn create(&mut self) -> (future: F) {
        self()
    }
}

/// Runs futures created by `create_f` according to `policy`: the machine starts by asking for
/// the first future.
pub fn retry<P, T, E, CF, G>(create_f: CF, policy: P) -> (machine: Retry<P, T, E, CF, G>) where
    P: Policy<T, E>,
    CF: CreateFuture<T, E>,

    requires
        policy.well_formed(),
        create_f.can_create(),
    ensures
        machine.wf(),
        machine.state() == (RetryState::CreateFut { policy }),
        machine.running() == Seq::<G>::empty(),
        !machine.first_taken(),
        machine.source() == create_f,
        machine.created() == 0,
        machine.granted() == 0,
        !machine.in_hand(),
{
    Retry::new(policy, create_f)
}

} // verus!
