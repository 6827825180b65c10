//! Backoff schedules for the `backoff` policy: the delays to wait before each retry.
use vstd::prelude::*;
use vstd::arithmetic::power::pow;
use crate::delay::{Delay, MAX_NANOS, opt_view};

verus! {

/// A source of the delays to wait before successive retries.
///
/// `next_delay` hands out the next delay, or `None` once the schedule has run out.
pub trait Backoff: Sized {
    /// Whether one call of `next_delay` may turn `self` into `next` and hand out `delay`; any
    /// step, for schedules that do not say.
    open spec fn yields(&self, next: Self, delay: Option<Delay>) -> bool {
        true
    }

    fn next_delay(&mut self) -> (delay: Option<Delay>)
        ensures
            old(self).yields(*final(self), delay),
    ;
}

/// The same delay, over and over.
#[derive(Clone, Copy, Debug)]
pub struct Fixed {
    duration: Delay,
}

impl Fixed {
    /// The delay that every step hands out.
    pub closed spec fn duration(self) -> Delay {
        self.duration
    }

    /// The first `n` delays of the schedule.
    pub fn take(self, n: usize) -> (delays: Vec<Delay>)
        ensures
            delays@ == Seq::new(n as nat, |i: int| self.duration()),
    {
        let mut delays: Vec<Delay> = Vec::new();
        let mut i: usize = 0;
        while i < n
            invariant
                i <= n,
                delays@ == Seq::new(i as nat, |j: int| self.duration()),
            decreases n - i,
        {
            delays.push(self.duration);
            i = i + 1;
        }
        delays
    }
}

impl Backoff for Fixed {
    open spec fn yields(&self, next: Self, delay: Option<Delay>) -> bool {
        next == *self && delay == Some(self.duration())
    }

    fn next_delay(&mut self) -> (delay: Option<Delay>) {
        Some(self.duration)
    }
}

/// A schedule that hands out `duration` on every step, without end.
pub fn fixed(duration: Delay) -> (schedule: Fixed)
    ensures
        schedule.duration() == duration,
{
    Fixed { duration }
}

/// The delay that follows `current` in an exponential schedule, all in nanoseconds: `current`
/// times `factor`, lowered to `max` where it exceeds it; where the product leaves the range of
/// a delay, the schedule stays at `current`.
pub open spec fn exponential_step(current: nat, factor: nat, max: Option<nat>) -> nat {
    let x: nat = current * factor;
    if x > MAX_NANOS {
        current
    } else {
        match max {
            Some(m) => if m < x {
                m
            } else {
                x
            },
            None => x,
        }
    }
}

/// The `n`-th delay (from 0) of the exponential schedule that starts at `initial`.
pub open spec fn exponential_nth(initial: nat, factor: nat, max: Option<nat>, n: nat) -> nat
    decreases n,
{
    if n == 0 {
        initial
    } else {
        exponential_step(exponential_nth(initial, factor, max, (n - 1) as nat), factor, max)
    }
}

/// Delays that grow by a factor on each step, up to an optional maximum.
#[derive(Clone, Copy, Debug)]
pub struct Exponential {
    initial: Delay,
    factor: u32,
    max: Option<Delay>,
}

impl Exponential {
    /// The delay that the next step hands out.
    pub closed spec fn current(self) -> Delay {
        self.initial
    }

    /// The factor by which the delays grow.
    pub closed spec fn factor(self) -> u32 {
        self.factor
    }

    /// The cap on the delays that follow the first.
    pub closed spec fn max(self) -> Option<Delay> {
        self.max
    }

    /// The `n`-th delay (from 0) that this schedule hands out from now on.
    pub open spec fn nth(self, n: nat) -> nat {
        exponential_nth(self.current()@, self.factor() as nat, opt_view(self.max()), n)
    }

    /// The first `n` delays of the schedule.
    pub fn take(self, n: usize) -> (delays: Vec<Delay>)
        ensures
            delays@.len() == n,
            forall|i: int| 0 <= i < n ==> #[trigger] delays@[i]@ == self.nth(i as nat),
    {
        let mut schedule = self;
        let mut delays: Vec<Delay> = Vec::new();
        let mut i: usize = 0;
        while i < n
            invariant
                i <= n,
                delays@.len() == i,
                forall|j: int| 0 <= j < i ==> #[trigger] delays@[j]@ == self.nth(j as nat),
                schedule.current()@ == self.nth(i as nat),
                schedule.factor() == self.factor(),
                schedule.max() == self.max(),
            decreases n - i,
        {
            let d = schedule.step();
            delays.push(d);
            i = i + 1;
        }
        delays
    }

    /// Hands out the current delay and moves on to the next.
    fn step(&mut self) -> (d: Delay)
        ensures
            d == old(self).current(),
            final(self).current()@ == exponential_step(
                old(self).current()@,
                old(self).factor() as nat,
                opt_view(old(self).max()),
            ),
            final(self).factor() == old(self).factor(),
            final(self).max() == old(self).max(),
    {
        let current = self.initial;
        match current.checked_mul(self.factor) {
            Some(x) => {
                let next = match self.max {
                    Some(m) => if m.lt(&x) {
                        m
                    } else {
                        x
                    },
                    None => x,
                };
                self.initial = next;
            },
            None => {},
        }
        current
    }
}

impl Backoff for Exponential {
    open spec fn yields(&self, next: Self, delay: Option<Delay>) -> bool {
        &&& delay == Some(self.current())
        &&& next.current()@ == exponential_step(
            self.current()@,
            self.factor() as nat,
            opt_view(self.max()),
        )
        &&& next.factor() == self.factor()
        &&& next.max() == self.max()
    }

    fn next_delay(&mut self) -> (delay: Option<Delay>) {
        Some(self.step())
    }
}

/// A schedule that starts at `initial` and multiplies the delay by `factor` on each step; each
/// delay after the first is lowered to `max` where it would exceed it, and once a product
/// would leave the range of a delay the schedule keeps handing out the last delay.
pub fn exponential(initial: Delay, factor: u32, max: Option<Delay>) -> (schedule: Exponential)
    ensures
        schedule.current() == initial,
        schedule.factor() == factor,
        schedule.max() == max,
{
    Exponential { initial, factor, max }
}

/// With no cap and no overflow up to step `n`, the `n`-th delay of an exponential schedule is
/// `initial * factor^n`.
pub proof fn lemma_exponential_uncapped(initial: nat, factor: nat, n: nat)
    requires
        initial * pow(factor as int, n) <= MAX_NANOS,
    ensures
        exponential_nth(initial, factor, None, n) == initial * pow(factor as int, n),
    decreases n,
{
    reveal(pow);
    if n > 0 {
        let k: nat = (n - 1) as nat;
        if factor == 0 {
            assert(initial * pow(factor as int, n) == 0) by (nonlinear_arith)
                requires
                    pow(factor as int, n) == factor * pow(factor as int, k),
                    factor == 0,
            ;
            assert(exponential_nth(initial, factor, None, k) * factor == 0) by (nonlinear_arith)
                requires
                    factor == 0,
            ;
        } else {
            vstd::arithmetic::power::lemma_pow_positive(factor as int, k);
            assert(initial * pow(factor as int, k) <= initial * pow(factor as int, n))
                by (nonlinear_arith)
                requires
                    pow(factor as int, n) == factor * pow(factor as int, k),
                    factor >= 1,
                    pow(factor as int, k) > 0,
            ;
            lemma_exponential_uncapped(initial, factor, k);
            assert(initial * pow(factor as int, k) * factor == initial * pow(factor as int, n))
                by (nonlinear_arith)
                requires
                    pow(factor as int, n) == factor * pow(factor as int, k),
            ;
        }
    }
}

/// Once a schedule with a cap `max` hands out a delay no longer than `max`, no later delay
/// exceeds `max`.
pub proof fn lemma_exponential_capped(initial: nat, factor: nat, max: nat, n: nat)
    requires
        initial <= max,
    ensures
        exponential_nth(initial, factor, Some(max), n) <= max,
    decreases n,
{
    if n > 0 {
        lemma_exponential_capped(initial, factor, max, (n - 1) as nat);
    }
}

/// With a factor of at least one, and a first delay within the cap if there is one, the delays
/// of an exponential schedule never shrink.
pub proof fn lemma_exponential_grows(initial: nat, factor: nat, max: Option<nat>, n: nat)
    requires
        factor >= 1,
        max matches Some(m) ==> initial <= m,
    ensures
        exponential_nth(initial, factor, max, n) <= exponential_nth(initial, factor, max, n + 1),
    decreases n,
{
    let cur: nat = exponential_nth(initial, factor, max, n);
    if let Some(m) = max {
        lemma_exponential_capped(initial, factor, m, n);
    }
    assert(cur <= cur * factor) by (nonlinear_arith)
        requires
            factor >= 1,
    ;
}

/// With a cap `max` at least the first delay, and no product of a delay within the cap by
/// `factor` leaving the range of a delay, the `n`-th delay of an exponential schedule is
/// `min(max, initial * factor^n)`.
pub proof fn lemma_exponential_capped_is_min(initial: nat, factor: nat, max: nat, n: nat)
    requires
        initial <= max,
        max * factor <= MAX_NANOS,
    ensures
        exponential_nth(initial, factor, Some(max), n) == if initial * pow(factor as int, n)
            <= max {
            initial * pow(factor as int, n)
        } else {
            max as int
        },
    decreases n,
{
    reveal(pow);
    if n > 0 {
        let k: nat = (n - 1) as nat;
        lemma_exponential_capped_is_min(initial, factor, max, k);
        lemma_exponential_capped(initial, factor, max, k);
        let cur: nat = exponential_nth(initial, factor, Some(max), k);
        let pk: int = pow(factor as int, k);
        let pn: int = pow(factor as int, n);
        assert(pn == factor * pk);
        assert(cur * factor <= max * factor) by (nonlinear_arith)
            requires
                cur <= max,
        ;
        assert(initial * pn == (initial * pk) * factor) by (nonlinear_arith)
            requires
                pn == factor * pk,
        ;
        if initial * pk <= max {
            assert(cur == initial * pk);
        } else {
            assert(cur == max);
            if factor == 0 {
                assert(pk == 0) by {
                    vstd::arithmetic::power::lemma0_pow(k);
                }
                assert(initial * pk == 0) by (nonlinear_arith)
                    requires
                        pk == 0,
                ;
            } else {
                assert(initial * pn >= initial * pk) by (nonlinear_arith)
                    requires
                        initial * pn == (initial * pk) * factor,
                        factor >= 1,
                        initial * pk > max,
                ;
                assert(max * factor >= max) by (nonlinear_arith)
                    requires
                        factor >= 1,
                ;
            }
        }
    }
}

} // verus!
