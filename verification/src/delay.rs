//! A span of time with nanosecond precision, of the same range as `std::time::Duration`:
//! whole seconds that fit a `u64` and a sub-second part below one second.
use vstd::prelude::*;

verus! {

/// Nanoseconds in one second.
pub const NANOS_PER_SEC: u128 = 1_000_000_000u128;

/// The longest span that a `Delay` can hold: `u64::MAX` seconds and 999,999,999 nanoseconds.
pub const MAX_NANOS: u128 = 18446744073709551615999999999u128;

/// A span of time, counted in nanoseconds.
#[derive(Clone, Copy, Debug, PartialEq, Eq, Structural)]
pub struct Delay {
    nanos: u128,
}

impl View for Delay {
    type V = nat;

    closed spec fn view(&self) -> nat {
        self.nanos as nat
    }
}

/// The nanoseconds that an optional delay holds, if any.
pub open spec fn opt_view(d: Option<Delay>) -> Option<nat> {
    match d {
        Some(d) => Some(d@),
        None => None,
    }
}

impl Delay {
    #[verifier::type_invariant]
    spec fn fits(self) -> bool {
        self.nanos <= MAX_NANOS
    }

    /// Two delays of the same length are the same delay.
    pub proof fn lemma_view_injective(self, other: Delay)
        ensures
            self@ == other@ <==> self == other,
    {
    }

    /// A delay of `secs` seconds.
    pub fn from_secs(secs: u64) -> (d: Delay)
        ensures
            d@ == secs * NANOS_PER_SEC,
    {
        assert(secs * NANOS_PER_SEC <= MAX_NANOS) by (nonlinear_arith)
            requires
                secs <= u64::MAX,
        ;
        Delay { nanos: (secs as u128) * NANOS_PER_SEC }
    }

    /// A delay of `millis` milliseconds.
    pub fn from_millis(millis: u64) -> (d: Delay)
        ensures
            d@ == millis * 1_000_000,
    {
        assert(millis * 1_000_000 <= MAX_NANOS) by (nonlinear_arith)
            requires
                millis <= u64::MAX,
        ;
        Delay { nanos: (millis as u128) * 1_000_000u128 }
    }

    /// A delay of `nanos` nanoseconds.
    pub fn from_nanos(nanos: u64) -> (d: Delay)
        ensures
            d@ == nanos,
    {
        Delay { nanos: nanos as u128 }
    }

    /// A delay of `secs` seconds and `nanos` nanoseconds; nanoseconds beyond one second
    /// carry into the seconds.
    pub fn new(secs: u64, nanos: u32) -> (d: Delay)
        requires
            secs + nanos / 1_000_000_000u32 <= u64::MAX,
        ensures
            d@ == secs * NANOS_PER_SEC + nanos,
    {
        assert(secs * NANOS_PER_SEC + nanos <= MAX_NANOS) by (nonlinear_arith)
            requires
                secs + nanos / 1_000_000_000u32 <= u64::MAX,
                nanos <= u32::MAX,
        ;
        Delay { nanos: (secs as u128) * NANOS_PER_SEC + (nanos as u128) }
    }

    /// The length of the delay in nanoseconds.
    pub fn as_nanos(&self) -> (n: u128)
        ensures
            n == self@,
    {
        self.nanos
    }

    /// The whole seconds of the delay.
    pub fn as_secs(&self) -> (s: u64)
        ensures
            s == self@ / 1_000_000_000nat,
    {
        proof {
            use_type_invariant(self);
        }
        (self.nanos / NANOS_PER_SEC) as u64
    }

    /// The part of the delay below one second, in nanoseconds.
    pub fn subsec_nanos(&self) -> (n: u32)
        ensures
            n == self@ % 1_000_000_000nat,
            n < NANOS_PER_SEC,
    {
        (self.nanos % NANOS_PER_SEC) as u32
    }

    /// Whether this delay is shorter than `other`.
    pub fn lt(&self, other: &Delay) -> (b: bool)
        ensures
            b == (self@ < other@),
    {
        self.nanos < other.nanos
    }

    /// The delay multiplied by `factor`, or `None` where the product exceeds the range of a
    /// delay.
    pub fn checked_mul(self, factor: u32) -> (r: Option<Delay>)
        ensures
            match r {
                Some(d) => d@ == self@ * factor && self@ * factor <= MAX_NANOS,
                None => self@ * factor > MAX_NANOS,
            },
    {
        proof {
            use_type_invariant(&self);
        }
        assert(self.nanos * factor <= MAX_NANOS * 4294967295) by (nonlinear_arith)
            requires
                self.nanos <= MAX_NANOS,
                factor <= 4294967295,
        ;
        let product: u128 = self.nanos * (factor as u128);
        if product <= MAX_NANOS {
            Some(Delay { nanos: product })
        } else {
            None
        }
    }
}

} // verus!
