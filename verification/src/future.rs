//! The state machine that runs futures under a policy.
//!
//! The machine never polls a future itself: it says what is to be done next ([`Action`]), and
//! the one that drives it does that and reports what came of it through the event methods of
//! [`Retry`]. Running futures are kept in the machine, in the order in which they are polled.
use vstd::prelude::*;
use crate::delay::Delay;
use crate::{CreateFuture, Policy, Resume, Timer};
use crate::policies::RetryAttempts;

verus! {

/// The futures that are running, in the order in which they are polled: the one in `fut`
/// first, where there is one, then those of `rest` in order.
struct Futs<G> {
    fut: Option<G>,
    rest: Vec<G>,
}

/// The running futures after `g` is pushed: it takes the first place where that is free, and
/// the last place otherwise.
pub open spec fn pushed<G>(running: Seq<G>, first_taken: bool, g: G) -> Seq<G> {
    if first_taken {
        running.push(g)
    } else {
        seq![g] + running
    }
}

/// The running futures after the one at position `k` is taken out: the first place empties,
/// where `k` is that place; else the last future moves into position `k`.
pub open spec fn removed<G>(running: Seq<G>, first_taken: bool, k: int) -> Seq<G> {
    if first_taken && k == 0 {
        running.drop_first()
    } else {
        running.update(k, running.last()).drop_last()
    }
}

impl<G> Futs<G> {
    spec fn order(&self) -> Seq<G> {
        match self.fut {
            Some(g) => seq![g] + self.rest@,
            None => self.rest@,
        }
    }

    fn empty() -> (futs: Self)
        ensures
            futs.order() == Seq::<G>::empty(),
            futs.fut is None,
    {
        Futs { fut: None, rest: Vec::new() }
    }

    fn push(&mut self, f: G)
        ensures
            final(self).order() == pushed(old(self).order(), old(self).fut is Some, f),
            final(self).fut is Some,
    {
        if self.fut.is_none() {
            self.fut = Some(f);
        } else {
            self.rest.push(f);
        }
    }

    fn len(&self) -> (n: usize)
        requires
            self.order().len() <= usize::MAX,
        ensures
            n == self.order().len(),
    {
        match &self.fut {
            Some(_) => 1 + self.rest.len(),
            None => self.rest.len(),
        }
    }

    fn at_mut(&mut self, k: usize) -> (g: &mut G)
        requires
            k < old(self).order().len(),
        ensures
            *g == old(self).order()[k as int],
            final(self).order() == old(self).order().update(k as int, *final(g)),
            (final(self).fut is Some) == (old(self).fut is Some),
    {
        match &mut self.fut {
            Some(g) => {
                if k == 0 {
                    return g;
                }
                &mut self.rest[k - 1]
            },
            None => &mut self.rest[k],
        }
    }

    /// Takes out the future at position `k` of the poll order.
    fn remove(&mut self, k: usize) -> (g: G)
        requires
            k < old(self).order().len(),
        ensures
            g == old(self).order()[k as int],
            final(self).order() == removed(old(self).order(), old(self).fut is Some, k as int),
            final(self).fut is Some <==> (old(self).fut is Some && k != 0),
    {
        if self.fut.is_some() && k == 0 {
            let g = self.fut.take().unwrap();
            assert(old(self).order().drop_first() =~= self.order());
            g
        } else {
            let i: usize = if self.fut.is_some() { k - 1 } else { k };
            let g = poll_vec(&mut self.rest, i);
            assert(removed(old(self).order(), old(self).fut is Some, k as int) =~= self.order());
            g
        }
    }
}

/// Takes out the future at position `i` of `v`, the one found ready: the last future moves
/// into its place.
fn poll_vec<G>(v: &mut Vec<G>, i: usize) -> (g: G)
    requires
        i < old(v).len(),
    ensures
        g == old(v)@[i as int],
        final(v)@ == old(v)@.update(i as int, old(v)@.last()).drop_last(),
{
    v.swap_remove(i)
}

} // verus!

verus! {

/// Where the machine stands.
#[allow(inconsistent_fields)]
pub enum RetryState<P> {
    /// A future is to be created; `policy` decides what follows.
    CreateFut { policy: P },
    /// The running futures are polled in order, the one at `next` now; `policy` is `None`
    /// once the policy has declined to retry, and the next result is then the last.
    PollResults { policy: Option<P>, next: usize },
    /// Every running future was found pending: the timer of `policy` is to be started.
    ArmDelay { policy: P },
    /// The timer of `policy` runs, and the running futures are polled again in order, the one
    /// at `next` now.
    WaitingDelay { policy: P, next: usize },
    /// Every running future is still pending: the timer is to be polled.
    PollDelay { policy: P },
    /// The policy granted a retry after `delay`: its timer is to be started.
    ArmRetry { policy: P, delay: Delay },
    /// The timer of a granted retry runs; once it fires a future is created.
    WaitingRetry { policy: P },
    /// A result was handed back: the machine is done.
    Finished,
}

/// What the one that drives the machine is to do next.
#[derive(Clone, Copy, Debug, PartialEq, Eq, Structural)]
pub enum Action {
    /// Create a future with [`Retry::create_future`] and hand it to [`Retry::launch`].
    CreateFuture,
    /// Poll the future that [`Retry::polled_future`] hands out, then report
    /// [`Retry::future_pending`] or [`Retry::future_ready`].
    PollFuture,
    /// Start this timer, replacing any earlier one, then report [`Retry::timer_started`].
    StartTimer(Timer),
    /// Poll the timer, then report [`Retry::timer_fired`] or [`Retry::timer_pending`]; after
    /// the latter the machine waits to be polled again.
    PollTimer,
}

/// The outcome of a completed future, as a policy is handed it.
pub open spec fn outcome<T, E>(result: &Result<T, E>) -> Option<Result<&T, &E>> {
    match result {
        Ok(t) => Some(Ok(t)),
        Err(e) => Some(Err(e)),
    }
}

/// The state the machine moves to when a policy grants a retry: a future is created at once
/// where there is no delay, else the timer of the delay is started first.
pub open spec fn granted_state<P>(resume: Resume<P>) -> RetryState<P> {
    match resume.delay {
        None => RetryState::CreateFut { policy: resume.policy },
        Some(d) => RetryState::ArmRetry { policy: resume.policy, delay: d },
    }
}

/// Runs futures created by a [`CreateFuture`] according to a [`Policy`].
pub struct Retry<P, T, E, CF, G> {
    create_f: CF,
    running_futs: Futs<G>,
    retry_state: RetryState<P>,
    created: Ghost<nat>,
    granted: Ghost<nat>,
    in_hand: Ghost<bool>,
    outcomes: std::marker::PhantomData<(T, E)>,
}

impl<P, T, E, CF, G> Retry<P, T, E, CF, G> {
    /// Where the machine stands.
    pub closed spec fn state(self) -> RetryState<P> {
        self.retry_state
    }

    /// The running futures, in the order in which they are polled.
    pub closed spec fn running(self) -> Seq<G> {
        self.running_futs.order()
    }

    /// Whether the first place of the poll order is taken.
    pub closed spec fn first_taken(self) -> bool {
        self.running_futs.fut is Some
    }

    /// The source of the futures.
    pub closed spec fn source(self) -> CF {
        self.create_f
    }

    /// How many futures the machine has created.
    pub closed spec fn created(self) -> nat {
        self.created@
    }

    /// How many retries the policy has granted.
    pub closed spec fn granted(self) -> nat {
        self.granted@
    }

    /// Whether a future has been created and not yet handed over to be run.
    pub closed spec fn in_hand(self) -> bool {
        self.in_hand@
    }

    /// Whether a future is still to be created for the last retry granted (or for the first
    /// future).
    pub open spec fn creation_due(self) -> bool {
        match self.state() {
            RetryState::CreateFut { .. } => true,
            RetryState::ArmRetry { .. } => true,
            RetryState::WaitingRetry { .. } => true,
            _ => false,
        }
    }

    /// The policy the machine holds; `None` once it has declined and in `Finished`.
    pub open spec fn held_policy(self) -> Option<P> {
        match self.state() {
            RetryState::CreateFut { policy } => Some(policy),
            RetryState::PollResults { policy, .. } => policy,
            RetryState::ArmDelay { policy } => Some(policy),
            RetryState::WaitingDelay { policy, .. } => Some(policy),
            RetryState::PollDelay { policy } => Some(policy),
            RetryState::ArmRetry { policy, .. } => Some(policy),
            RetryState::WaitingRetry { policy } => Some(policy),
            RetryState::Finished => None,
        }
    }

    /// The policy held in the states that poll the running futures (`None` once it declined).
    pub open spec fn polling_policy(self) -> Option<P> {
        match self.state() {
            RetryState::PollResults { policy, .. } => policy,
            RetryState::WaitingDelay { policy, .. } => Some(policy),
            _ => None,
        }
    }

    /// The position of the future that is being polled, in the states that poll one.
    pub open spec fn polled(self) -> Option<usize> {
        match self.state() {
            RetryState::PollResults { next, .. } => Some(next),
            RetryState::WaitingDelay { next, .. } => Some(next),
            _ => None,
        }
    }
}

impl<P, T, E, CF, G> Retry<P, T, E, CF, G> where P: Policy<T, E>, CF: CreateFuture<T, E> {
    /// The machine's invariant: the policies it holds can be consulted, the source can create
    /// futures, a future is running wherever one is polled or waited on, and every future
    /// created, but the first, answers a retry that the policy granted.
    pub open spec fn wf(self) -> bool {
        &&& self.source().can_create()
        &&& self.running().len() <= usize::MAX
        &&& self.created() + (if self.creation_due() { 1int } else { 0int }) == self.granted() + 1
        &&& self.in_hand() ==> self.state() is CreateFut
        &&& match self.state() {
            RetryState::CreateFut { policy } => policy.well_formed(),
            RetryState::PollResults { policy, next } => {
                &&& policy matches Some(p) ==> p.well_formed()
                &&& next < self.running().len()
            },
            RetryState::ArmDelay { policy } => policy.well_formed() && self.running().len() > 0,
            RetryState::WaitingDelay { policy, next } => {
                &&& policy.well_formed()
                &&& next < self.running().len()
            },
            RetryState::PollDelay { policy } => policy.well_formed() && self.running().len() > 0,
            RetryState::ArmRetry { policy, .. } => policy.well_formed(),
            RetryState::WaitingRetry { policy } => policy.well_formed(),
            RetryState::Finished => true,
        }
    }

    /// What is to be done next, in every state but `Finished`.
    pub open spec fn action(self) -> Option<Action> {
        match self.state() {
            RetryState::CreateFut { .. } => Some(Action::CreateFuture),
            RetryState::PollResults { .. } => Some(Action::PollFuture),
            RetryState::ArmDelay { policy } => Some(Action::StartTimer(policy.timer())),
            RetryState::WaitingDelay { .. } => Some(Action::PollFuture),
            RetryState::PollDelay { .. } => Some(Action::PollTimer),
            RetryState::ArmRetry { delay, .. } => Some(Action::StartTimer(Timer::After(delay))),
            RetryState::WaitingRetry { .. } => Some(Action::PollTimer),
            RetryState::Finished => None,
        }
    }

    /// `next` follows from `self` when the source creates `future`; it is yet to be handed
    /// over. One future is created for each future that is to be run.
    pub open spec fn creates_future(self, next: Self, future: CF::Output) -> bool {
        &&& self.state() is CreateFut
        &&& !self.in_hand()
        &&& next.in_hand()
        &&& self.source().creates(&next.source(), future)
        &&& next.source().can_create()
        &&& next.state() == self.state()
        &&& next.running() == self.running()
        &&& next.first_taken() == self.first_taken()
        &&& next.created() == self.created()
        &&& next.granted() == self.granted()
    }

    /// `next` follows from `self` when the created future `fut` is handed over.
    pub open spec fn launches(self, next: Self, fut: G) -> bool {
        &&& self.state() matches RetryState::CreateFut { policy }
            && next.state() == (RetryState::PollResults { policy: Some(policy), next: 0 })
        &&& self.in_hand()
        &&& !next.in_hand()
        &&& self.running().len() < usize::MAX
        &&& next.running() == pushed(self.running(), self.first_taken(), fut)
        &&& next.first_taken()
        &&& next.created() == self.created() + 1
        &&& next.granted() == self.granted()
        &&& next.source() == self.source()
    }

    /// `next` follows from `self` when the polled future is found pending; `suspend` tells
    /// whether the machine then waits to be polled again.
    pub open spec fn passes(self, next: Self, suspend: bool) -> bool {
        &&& !next.in_hand()
        &&& next.running() == self.running()
        &&& next.first_taken() == self.first_taken()
        &&& next.created() == self.created()
        &&& next.granted() == self.granted()
        &&& next.source() == self.source()
        &&& match self.state() {
            RetryState::PollResults { policy, next: k } => if k + 1 < self.running().len() {
                next.state() == (RetryState::PollResults { policy, next: (k + 1) as usize })
                    && !suspend
            } else {
                match policy {
                    Some(p) => next.state() == (RetryState::ArmDelay { policy: p }) && !suspend,
                    None => next.state() == (RetryState::PollResults { policy: None::<P>, next: 0 })
                        && suspend,
                }
            },
            RetryState::WaitingDelay { policy, next: k } => !suspend && if k + 1
                < self.running().len() {
                next.state() == (RetryState::WaitingDelay { policy, next: (k + 1) as usize })
            } else {
                next.state() == (RetryState::PollDelay { policy })
            },
            _ => false,
        }
    }

    /// `next` follows from `self` when the polled future completes with `result`; `out` is
    /// the result handed back, if the machine is done.
    pub open spec fn completes(
        self,
        next: Self,
        result: Result<T, E>,
        out: Option<Result<T, E>>,
    ) -> bool {
        &&& self.polled() matches Some(k) && next.running() == removed(
            self.running(),
            self.first_taken(),
            k as int,
        ) && next.first_taken() == (self.first_taken() && k != 0)
        &&& !next.in_hand()
        &&& next.created() == self.created()
        &&& next.source() == self.source()
        &&& match self.state() {
            RetryState::PollResults { policy: None, .. } => {
                &&& out == Some(result)
                &&& next.state() == RetryState::<P>::Finished
                &&& next.granted() == self.granted()
            },
            RetryState::PollResults { policy: Some(p), .. } => self.consulted(
                next,
                p,
                outcome(&result),
                result,
                out,
            ),
            RetryState::WaitingDelay { policy: p, .. } => self.consulted(
                next,
                p,
                outcome(&result),
                result,
                out,
            ),
            _ => false,
        }
    }

    /// After a future completed with `result`, `policy` was consulted on `seen`: either it
    /// declined and `result` is handed back, or it granted a retry and the machine goes on.
    pub open spec fn consulted(
        self,
        next: Self,
        policy: P,
        seen: Option<Result<&T, &E>>,
        result: Result<T, E>,
        out: Option<Result<T, E>>,
    ) -> bool {
        match out {
            Some(r) => {
                &&& r == result
                &&& policy.decides(seen, None)
                &&& next.state() == RetryState::<P>::Finished
                &&& next.granted() == self.granted()
            },
            None => exists|resume: Resume<P>|
                {
                    &&& #[trigger] policy.decides(seen, Some(resume))
                    &&& resume.policy.well_formed()
                    &&& next.state() == granted_state(resume)
                    &&& next.granted() == self.granted() + 1
                },
        }
    }

    /// `next` follows from `self` when the timer that the action asked for is started.
    pub open spec fn starts_timer(self, next: Self) -> bool {
        &&& self.unchanged_but_state(next)
        &&& match self.state() {
            RetryState::ArmDelay { policy } => next.state() == (RetryState::WaitingDelay {
                policy,
                next: 0,
            }),
            RetryState::ArmRetry { policy, .. } => next.state() == (RetryState::WaitingRetry {
                policy,
            }),
            _ => false,
        }
    }

    /// `next` follows from `self` when the timer is found pending; the machine then waits to be
    /// polled again.
    pub open spec fn timer_waits(self, next: Self) -> bool {
        &&& self.unchanged_but_state(next)
        &&& match self.state() {
            RetryState::PollDelay { policy } => next.state() == (RetryState::WaitingDelay {
                policy,
                next: 0,
            }),
            RetryState::WaitingRetry { policy } => next.state() == (RetryState::WaitingRetry {
                policy,
            }),
            _ => false,
        }
    }

    /// `next` follows from `self` when the timer fires: a granted retry goes ahead, or the
    /// policy is consulted with no result, the running futures going on. A timer that never
    /// fires does not.
    pub open spec fn fires(self, next: Self) -> bool {
        &&& !next.in_hand()
        &&& next.running() == self.running()
        &&& next.first_taken() == self.first_taken()
        &&& next.created() == self.created()
        &&& next.source() == self.source()
        &&& self.state() matches RetryState::PollDelay { policy } ==> policy.timer() != Timer::Never
        &&& match self.state() {
            RetryState::WaitingRetry { policy } => {
                &&& next.state() == (RetryState::CreateFut { policy })
                &&& next.granted() == self.granted()
            },
            RetryState::PollDelay { policy } => {
                ||| {
                    &&& policy.decides(None, None)
                    &&& next.state() == (RetryState::PollResults { policy: None::<P>, next: 0 })
                    &&& next.granted() == self.granted()
                }
                ||| exists|resume: Resume<P>|
                    {
                        &&& #[trigger] policy.decides(None, Some(resume))
                        &&& resume.policy.well_formed()
                        &&& next.state() == granted_state(resume)
                        &&& next.granted() == self.granted() + 1
                    }
            },
            _ => false,
        }
    }

    /// Everything but the state, and the source, is as it was.
    pub open spec fn unchanged_but_state(self, next: Self) -> bool {
        &&& !next.in_hand()
        &&& next.running() == self.running()
        &&& next.first_taken() == self.first_taken()
        &&& next.created() == self.created()
        &&& next.granted() == self.granted()
        &&& next.source() == self.source()
    }

    /// `next` can follow from `self` by one step of the machine.
    pub open spec fn steps_to(self, next: Self) -> bool {
        ||| exists|fut: G| #[trigger] self.launches(next, fut)
        ||| exists|suspend: bool| #[trigger] self.passes(next, suspend)
        ||| exists|result: Result<T, E>, out: Option<Result<T, E>>|
            #[trigger] self.completes(next, result, out)
        ||| self.starts_timer(next)
        ||| self.timer_waits(next)
        ||| self.fires(next)
        ||| exists|future: CF::Output| #[trigger] self.creates_future(next, future)
    }

    /// A machine that runs `policy` over the futures of `create_f`, none of them created yet.
    pub(crate) fn new(policy: P, create_f: CF) -> (retry: Self)
        requires
            policy.well_formed(),
            create_f.can_create(),
        ensures
            retry.wf(),
            retry.state() == (RetryState::CreateFut { policy }),
            retry.running() == Seq::<G>::empty(),
            !retry.first_taken(),
            retry.source() == create_f,
            retry.created() == 0,
            retry.granted() == 0,
            !retry.in_hand(),
    {
        Retry {
            create_f,
            running_futs: Futs::empty(),
            retry_state: RetryState::CreateFut { policy },
            created: Ghost(0),
            granted: Ghost(0),
            in_hand: Ghost(false),
            outcomes: std::marker::PhantomData,
        }
    }

    /// Whether a result has been handed back.
    pub fn is_finished(&self) -> (b: bool)
        ensures
            b == (self.state() is Finished),
    {
        match self.retry_state {
            RetryState::Finished => true,
            _ => false,
        }
    }

    /// What is to be done next.
    pub fn next_action(&self) -> (action: Action)
        requires
            self.wf(),
            !(self.state() is Finished),
        ensures
            self.action() == Some(action),
    {
        match &self.retry_state {
            RetryState::CreateFut { .. } => Action::CreateFuture,
            RetryState::PollResults { .. } => Action::PollFuture,
            RetryState::ArmDelay { policy } => Action::StartTimer(policy.force_retry_after()),
            RetryState::WaitingDelay { .. } => Action::PollFuture,
            RetryState::PollDelay { .. } => Action::PollTimer,
            RetryState::ArmRetry { delay, .. } => Action::StartTimer(Timer::After(*delay)),
            RetryState::WaitingRetry { .. } => Action::PollTimer,
            RetryState::Finished => Action::PollTimer,
        }
    }
}

impl<P, T, E, CF, G> Retry<P, T, E, CF, G> where P: Policy<T, E>, CF: CreateFuture<T, E> {
    /// Takes the state out, leaving `Finished` in its place.
    fn take_state(&mut self) -> (state: RetryState<P>)
        ensures
            state == old(self).state(),
            final(self).state() == RetryState::<P>::Finished,
            final(self).running_futs == old(self).running_futs,
            final(self).create_f == old(self).create_f,
            final(self).created == old(self).created,
            final(self).granted == old(self).granted,
            final(self).in_hand == old(self).in_hand,
    {
        let mut state = RetryState::Finished;
        std::mem::swap(&mut state, &mut self.retry_state);
        state
    }

    /// Creates the next future, for [`Action::CreateFuture`]; it is to be handed to
    /// [`Retry::launch`] before another is created.
    pub fn create_future(&mut self) -> (future: CF::Output)
        requires
            old(self).wf(),
            old(self).state() is CreateFut,
            !old(self).in_hand(),
        ensures
            final(self).wf(),
            old(self).creates_future(*final(self), future),
            old(self).steps_to(*final(self)),
    {
        let future = self.create_f.create();
        self.in_hand = Ghost(true);
        assert(old(self).creates_future(*self, future));
        future
    }

    /// Takes the future just created, for [`Action::CreateFuture`], and starts polling.
    pub fn launch(&mut self, future: G)
        requires
            old(self).wf(),
            old(self).state() is CreateFut,
            old(self).in_hand(),
            old(self).running().len() < usize::MAX,
        ensures
            final(self).wf(),
            old(self).launches(*final(self), future),
            old(self).steps_to(*final(self)),
    {
        let state = self.take_state();
        match state {
            RetryState::CreateFut { policy } => {
                self.running_futs.push(future);
                self.retry_state = RetryState::PollResults { policy: Some(policy), next: 0 };
                self.created = Ghost(self.created@ + 1);
                self.in_hand = Ghost(false);
            },
            _ => {},
        }
        assert(old(self).launches(*self, future));
    }

    /// The future to poll, for [`Action::PollFuture`].
    pub fn polled_future(&mut self) -> (future: &mut G)
        requires
            old(self).wf(),
            old(self).polled() is Some,
        ensures
            *future == old(self).running()[old(self).polled()->0 as int],
            final(self).running() == old(self).running().update(
                old(self).polled()->0 as int,
                *final(future),
            ),
            final(self).state() == old(self).state(),
            final(self).first_taken() == old(self).first_taken(),
            final(self).source() == old(self).source(),
            final(self).created() == old(self).created(),
            final(self).granted() == old(self).granted(),
            final(self).wf(),
    {
        let k: usize = match self.retry_state {
            RetryState::PollResults { next, .. } => next,
            RetryState::WaitingDelay { next, .. } => next,
            _ => 0,
        };
        self.running_futs.at_mut(k)
    }

    /// The polled future is pending: the next one is to be polled, or, once all are pending,
    /// the timer is to be started or polled. Returns whether the machine waits to be polled
    /// again (where the policy has declined to retry and only running futures are left).
    pub fn future_pending(&mut self) -> (suspend: bool)
        requires
            old(self).wf(),
            old(self).polled() is Some,
        ensures
            final(self).wf(),
            old(self).passes(*final(self), suspend),
            old(self).steps_to(*final(self)),
    {
        let n: usize = self.running_futs.len();
        let state = self.take_state();
        let suspend: bool = match state {
            RetryState::PollResults { policy, next } => {
                if next + 1 < n {
                    self.retry_state = RetryState::PollResults { policy, next: next + 1 };
                    false
                } else {
                    match policy {
                        Some(p) => {
                            self.retry_state = RetryState::ArmDelay { policy: p };
                            false
                        },
                        None => {
                            self.retry_state = RetryState::PollResults { policy: None, next: 0 };
                            true
                        },
                    }
                }
            },
            RetryState::WaitingDelay { policy, next } => {
                if next + 1 < n {
                    self.retry_state = RetryState::WaitingDelay { policy, next: next + 1 };
                } else {
                    self.retry_state = RetryState::PollDelay { policy };
                }
                false
            },
            _ => false,
        };
        assert(old(self).passes(*self, suspend));
        suspend
    }

    /// Consults `policy` on the outcome of the completed future: hands the result back where
    /// it declines, and goes on with the retry where it grants one.
    fn consult(&mut self, policy: P, result: Result<T, E>) -> (out: Option<Result<T, E>>)
        requires
            policy.well_formed(),
            old(self).state() is Finished,
        ensures
            old(self).consulted(*final(self), policy, outcome(&result), result, out),
            final(self).running_futs == old(self).running_futs,
            final(self).create_f == old(self).create_f,
            final(self).created == old(self).created,
            final(self).in_hand == old(self).in_hand,
            out is None ==> match final(self).state() {
                RetryState::CreateFut { policy } => policy.well_formed(),
                RetryState::ArmRetry { policy, .. } => policy.well_formed(),
                _ => false,
            },
    {
        let seen = match &result {
            Ok(t) => Some(Ok(t)),
            Err(e) => Some(Err(e)),
        };
        assert(seen == outcome(&result));
        match policy.retry(seen) {
            None => Some(result),
            Some(resume) => {
                let ghost r = resume;
                self.retry_state = match resume.delay {
                    None => RetryState::CreateFut { policy: resume.policy },
                    Some(d) => RetryState::ArmRetry { policy: resume.policy, delay: d },
                };
                self.granted = Ghost(self.granted@ + 1);
                assert(self.state() == granted_state(r));
                None
            },
        }
    }

    /// The polled future completed with `result`. Returns the result to hand back, where the
    /// machine is done; else the machine goes on as the policy decided.
    pub fn future_ready(&mut self, result: Result<T, E>) -> (out: Option<Result<T, E>>)
        requires
            old(self).wf(),
            old(self).polled() is Some,
        ensures
            final(self).wf(),
            old(self).completes(*final(self), result, out),
            old(self).steps_to(*final(self)),
    {
        let state = self.take_state();
        let out = match state {
            RetryState::PollResults { policy, next } => {
                self.running_futs.remove(next);
                match policy {
                    None => Some(result),
                    Some(p) => self.consult(p, result),
                }
            },
            RetryState::WaitingDelay { policy, next } => {
                self.running_futs.remove(next);
                self.consult(policy, result)
            },
            _ => None,
        };
        assert(old(self).completes(*self, result, out));
        out
    }

    /// The timer asked for by [`Action::StartTimer`] was started.
    pub fn timer_started(&mut self)
        requires
            old(self).wf(),
            old(self).state() is ArmDelay || old(self).state() is ArmRetry,
        ensures
            final(self).wf(),
            old(self).starts_timer(*final(self)),
            old(self).steps_to(*final(self)),
    {
        let state = self.take_state();
        match state {
            RetryState::ArmDelay { policy } => {
                self.retry_state = RetryState::WaitingDelay { policy, next: 0 };
            },
            RetryState::ArmRetry { policy, .. } => {
                self.retry_state = RetryState::WaitingRetry { policy };
            },
            _ => {},
        }
    }

    /// The timer was polled and is pending; the machine waits to be polled again.
    pub fn timer_pending(&mut self)
        requires
            old(self).wf(),
            old(self).state() is PollDelay || old(self).state() is WaitingRetry,
        ensures
            final(self).wf(),
            old(self).timer_waits(*final(self)),
            old(self).steps_to(*final(self)),
    {
        let state = self.take_state();
        match state {
            RetryState::PollDelay { policy } => {
                self.retry_state = RetryState::WaitingDelay { policy, next: 0 };
            },
            RetryState::WaitingRetry { policy } => {
                self.retry_state = RetryState::WaitingRetry { policy };
            },
            _ => {},
        }
    }

    /// The timer fired. A timer that never fires cannot be reported fired.
    pub fn timer_fired(&mut self)
        requires
            old(self).wf(),
            old(self).state() is PollDelay || old(self).state() is WaitingRetry,
            old(self).state() matches RetryState::PollDelay { policy } ==> policy.timer()
                != Timer::Never,
        ensures
            final(self).wf(),
            old(self).fires(*final(self)),
            old(self).steps_to(*final(self)),
    {
        let state = self.take_state();
        match state {
            RetryState::WaitingRetry { policy } => {
                self.retry_state = RetryState::CreateFut { policy };
            },
            RetryState::PollDelay { policy } => {
                match policy.retry(None) {
                    None => {
                        self.retry_state = RetryState::PollResults { policy: None, next: 0 };
                    },
                    Some(resume) => {
                        let ghost r = resume;
                        self.retry_state = match resume.delay {
                            None => RetryState::CreateFut { policy: resume.policy },
                            Some(d) => RetryState::ArmRetry { policy: resume.policy, delay: d },
                        };
                        self.granted = Ghost(self.granted@ + 1);
                        assert(self.state() == granted_state(r));
                    },
                }
            },
            _ => {},
        }
    }
}

/// The retries that the held policy, wrapped by `attempts`, has left; none once the policy has
/// declined.
pub open spec fn attempts_left<Q, T, E, CF, G>(m: Retry<RetryAttempts<Q, usize>, T, E, CF, G>) -> nat {
    match m.state() {
        RetryState::CreateFut { policy } => policy.condition() as nat,
        RetryState::PollResults { policy: Some(p), .. } => p.condition() as nat,
        RetryState::ArmDelay { policy } => policy.condition() as nat,
        RetryState::WaitingDelay { policy, .. } => policy.condition() as nat,
        RetryState::PollDelay { policy } => policy.condition() as nat,
        RetryState::ArmRetry { policy, .. } => policy.condition() as nat,
        RetryState::WaitingRetry { policy } => policy.condition() as nat,
        _ => 0,
    }
}

/// Under a policy wrapped by `attempts`, every retry granted uses up one of the retries left:
/// no step of the machine makes the retries granted and those left add up to more.
pub proof fn lemma_attempts_budget<Q, T, E, CF, G>(
    m: Retry<RetryAttempts<Q, usize>, T, E, CF, G>,
    next: Retry<RetryAttempts<Q, usize>, T, E, CF, G>,
) where Q: Policy<T, E>, CF: CreateFuture<T, E>
    requires
        m.steps_to(next),
    ensures
        next.granted() + attempts_left(next) <= m.granted() + attempts_left(m),
{
    if next.granted() != m.granted() {
        let resume = lemma_step_grant(m, next);
        assert(resume.policy.condition() + 1 == m.held_policy()->0.condition());
    }
}

/// Under a policy wrapped by `attempts(_, n)`, a machine whose granted and remaining retries
/// add up to at most `n` (as they do when it starts) has created at most `n + 1` futures.
pub proof fn lemma_attempts_bound<Q, T, E, CF, G>(
    m: Retry<RetryAttempts<Q, usize>, T, E, CF, G>,
    n: nat,
) where Q: Policy<T, E>, CF: CreateFuture<T, E>
    requires
        m.wf(),
        m.granted() + attempts_left(m) <= n,
    ensures
        m.created() <= n + 1,
{
}

impl<P, T, E, CF, G> Retry<P, T, E, CF, G> {
    /// At most one future runs at a time: none while the next is to be created, the one
    /// while it runs.
    pub open spec fn one_at_a_time(self) -> bool {
        match self.state() {
            RetryState::CreateFut { .. } => self.running().len() == 0,
            RetryState::ArmRetry { .. } => self.running().len() == 0,
            RetryState::WaitingRetry { .. } => self.running().len() == 0,
            RetryState::Finished => self.running().len() <= 1,
            _ => self.running().len() == 1,
        }
    }
}

/// Under a policy whose timer never fires (such as `sequential`, `backoff`, or either with a
/// stop condition), a new future is created only once the previous one has completed: no step
/// of the machine breaks `one_at_a_time`, which holds when it starts.
pub proof fn lemma_sequential_one_at_a_time<P, T, E, CF, G>(
    m: Retry<P, T, E, CF, G>,
    next: Retry<P, T, E, CF, G>,
) where P: Policy<T, E>, CF: CreateFuture<T, E>
    requires
        forall|p: P| #[trigger] p.timer() == Timer::Never,
        m.wf(),
        m.one_at_a_time(),
        m.steps_to(next),
    ensures
        next.one_at_a_time(),
{
    lemma_step_running(m, next);
    if let RetryState::PollDelay { policy } = m.state() {
        assert(policy.timer() == Timer::Never);
    }
}

/// Whenever the machine polls a future, there is one to poll: the set of running futures is
/// never empty when it is polled.
pub proof fn lemma_polled_future_exists<P, T, E, CF, G>(m: Retry<P, T, E, CF, G>)
    where P: Policy<T, E>, CF: CreateFuture<T, E>
    requires
        m.wf(),
        m.polled() is Some,
    ensures
        m.polled()->0 < m.running().len(),
        m.running().len() > 0,
{
}

/// Under a policy wrapped by `attempts`, a future that completes with `Ok` ends the run: its
/// result is handed back.
pub proof fn lemma_attempts_ok_ends<Q, T, E, CF, G>(
    m: Retry<RetryAttempts<Q, usize>, T, E, CF, G>,
    next: Retry<RetryAttempts<Q, usize>, T, E, CF, G>,
    value: T,
    out: Option<Result<T, E>>,
) where Q: Policy<T, E>, CF: CreateFuture<T, E>
    requires
        m.completes(next, Ok(value), out),
    ensures
        out == Some(Ok::<T, E>(value)),
        next.state() is Finished,
{
}

/// Every step of the machine keeps its invariant.
pub proof fn lemma_step_keeps_wf<P, T, E, CF, G>(m: Retry<P, T, E, CF, G>, next: Retry<P, T, E, CF, G>)
    where P: Policy<T, E>, CF: CreateFuture<T, E>
    requires
        m.wf(),
        m.steps_to(next),
    ensures
        next.wf(),
{
    lemma_step_running(m, next);
    if next.granted() != m.granted() {
        lemma_step_grant(m, next);
    }
}

/// A step of the machine grants at most one retry, and only as its policy decided: on the
/// outcome of the future that completed or, once its timer fired, on none. Where it grants
/// one, `resume` is that retry, and the machine goes on with it.
pub proof fn lemma_step_grant<P, T, E, CF, G>(
    m: Retry<P, T, E, CF, G>,
    next: Retry<P, T, E, CF, G>,
) -> (resume: Resume<P>) where P: Policy<T, E>, CF: CreateFuture<T, E>
    requires
        m.steps_to(next),
        next.granted() != m.granted(),
    ensures
        next.granted() == m.granted() + 1,
        m.held_policy() matches Some(p) && exists|seen: Option<Result<&T, &E>>|
            #[trigger] p.decides(seen, Some(resume)),
        resume.policy.well_formed(),
        next.state() == granted_state(resume),
{
    if exists|result: Result<T, E>, out: Option<Result<T, E>>|
        #[trigger] m.completes(next, result, out)
    {
        let (result, out) = choose|result: Result<T, E>, out: Option<Result<T, E>>|
            #[trigger] m.completes(next, result, out);
        let policy = m.polling_policy()->0;
        choose|resume: Resume<P>|
            #[trigger] policy.decides(outcome(&result), Some(resume))
                && resume.policy.well_formed() && next.state() == granted_state(resume)
                && next.granted() == m.granted() + 1
    } else {
        let policy = m.held_policy()->0;
        choose|resume: Resume<P>|
            #[trigger] policy.decides(None, Some(resume)) && resume.policy.well_formed()
                && next.state() == granted_state(resume) && next.granted() == m.granted() + 1
    }
}

/// A step of the machine changes the running futures only by a launch, which adds one while
/// a future is being created, or by a completion, which takes out the one polled.
pub proof fn lemma_step_running<P, T, E, CF, G>(m: Retry<P, T, E, CF, G>, next: Retry<P, T, E, CF, G>)
    where P: Policy<T, E>, CF: CreateFuture<T, E>
    requires
        m.wf(),
        m.steps_to(next),
    ensures
        next.running() == m.running() || (m.state() is CreateFut && next.running().len()
            == m.running().len() + 1) || (m.polled() is Some && next.running().len() + 1
            == m.running().len()),
{
    if exists|fut: G| #[trigger] m.launches(next, fut) {
        let fut = choose|fut: G| #[trigger] m.launches(next, fut);
        assert(next.running().len() == m.running().len() + 1);
    } else if exists|result: Result<T, E>, out: Option<Result<T, E>>|
        #[trigger] m.completes(next, result, out)
    {
        let (result, out) = choose|result: Result<T, E>, out: Option<Result<T, E>>|
            #[trigger] m.completes(next, result, out);
        assert(next.running().len() == m.running().len() - 1);
    }
}

/// A completed future, whether it completed with `Ok` or with `Err`, ends the run with its
/// result only where the policy, consulted on that very outcome, declines (or had declined
/// before); where the policy cannot decline on it, the machine goes on with a retry the policy
/// granted on that outcome.
pub proof fn lemma_result_handed_back_only_when_declined<P, T, E, CF, G>(
    m: Retry<P, T, E, CF, G>,
    next: Retry<P, T, E, CF, G>,
    result: Result<T, E>,
    out: Option<Result<T, E>>,
) where P: Policy<T, E>, CF: CreateFuture<T, E>
    requires
        m.completes(next, result, out),
    ensures
        out is Some ==> {
            &&& out == Some(result)
            &&& m.polling_policy() matches Some(p) ==> p.decides(outcome(&result), None)
        },
        m.polling_policy() is Some && !m.polling_policy()->0.decides(outcome(&result), None) ==> {
            &&& out is None
            &&& next.granted() == m.granted() + 1
            &&& exists|resume: Resume<P>|
                #[trigger] m.polling_policy()->0.decides(outcome(&result), Some(resume))
                    && next.state() == granted_state(resume)
        },
{
}

} // verus!
