//! Spans of time with nanosecond resolution.
use vstd::prelude::*;

verus! {

/// Nanoseconds in a microsecond.
pub const NANOS_PER_MICRO: u128 = 1_000;

/// Nanoseconds in a millisecond.
pub const NANOS_PER_MILLI: u128 = 1_000_000;

/// Nanoseconds in a second.
pub const NANOS_PER_SEC: u128 = 1_000_000_000;

/// The longest representable span, in nanoseconds: `u64::MAX` seconds and
/// 999 999 999 nanoseconds.
pub const MAX_NANOS: u128 = 18_446_744_073_709_551_615_999_999_999;

/// A span of time, also used as a point on a clock that starts at zero.
#[derive(Clone, Copy, Debug, PartialEq, Eq, PartialOrd, Ord, Hash, Structural)]
pub struct Duration {
    nanos: u128,
}

impl View for Duration {
    type V = nat;

    /// The span in nanoseconds.
    closed spec fn view(&self) -> nat {
        self.nanos as nat
    }
}

/// `a + b` nanoseconds, capped at the longest span.
pub open spec fn capped_sum(a: nat, b: nat) -> nat {
    if a + b <= MAX_NANOS {
        a + b
    } else {
        MAX_NANOS as nat
    }
}

/// `a - b` nanoseconds, or zero when `b` is the longer span.
pub open spec fn floored_difference(a: nat, b: nat) -> nat {
    if a >= b {
        (a - b) as nat
    } else {
        0
    }
}

/// The distance between two spans, whichever is longer.
pub open spec fn distance(a: nat, b: nat) -> nat {
    if a >= b {
        (a - b) as nat
    } else {
        (b - a) as nat
    }
}

/// Whole milliseconds in a span of `nanos` nanoseconds, modulo 2^64.
pub open spec fn millis_modulo(nanos: nat) -> nat {
    (nanos / (NANOS_PER_MILLI as nat)) % 0x1_0000_0000_0000_0000
}

/// An optional span in nanoseconds.
pub open spec fn opt_nanos(d: Option<Duration>) -> Option<nat> {
    match d {
        Some(d) => Some(d@),
        None => None,
    }
}

/// Whether the two optional spans are both missing or of the same length.
pub fn same_span(a: &Option<Duration>, b: &Option<Duration>) -> (r: bool)
    ensures
        r == (opt_nanos(*a) == opt_nanos(*b)),
{
    match (a, b) {
        (Some(x), Some(y)) => x.same(y),
        (None, None) => true,
        _ => false,
    }
}

impl Duration {
    #[verifier::type_invariant]
    spec fn in_range(self) -> bool {
        self.nanos <= MAX_NANOS
    }

    /// The empty span.
    pub fn zero() -> (r: Duration)
        ensures
            r@ == 0,
    {
        Duration { nanos: 0 }
    }

    pub fn from_secs(secs: u64) -> (r: Duration)
        ensures
            r@ == secs * NANOS_PER_SEC,
    {
        Duration { nanos: (secs as u128) * NANOS_PER_SEC }
    }

    pub fn from_millis(millis: u64) -> (r: Duration)
        ensures
            r@ == millis * NANOS_PER_MILLI,
    {
        Duration { nanos: (millis as u128) * NANOS_PER_MILLI }
    }

    pub fn from_micros(micros: u64) -> (r: Duration)
        ensures
            r@ == micros * NANOS_PER_MICRO,
    {
        Duration { nanos: (micros as u128) * NANOS_PER_MICRO }
    }

    /// A span of the given number of nanoseconds, capped at the longest span.
    pub fn from_nanos(nanos: u128) -> (r: Duration)
        ensures
            r@ == capped_sum(nanos as nat, 0),
    {
        if nanos <= MAX_NANOS {
            Duration { nanos }
        } else {
            Duration { nanos: MAX_NANOS }
        }
    }

    pub fn as_nanos(&self) -> (r: u128)
        ensures
            r == self@,
            r <= MAX_NANOS,
    {
        proof {
            use_type_invariant(self);
        }
        self.nanos
    }

    /// Whole milliseconds in the span.
    pub fn as_millis(&self) -> (r: u128)
        ensures
            r == self@ / (NANOS_PER_MILLI as nat),
    {
        self.nanos / NANOS_PER_MILLI
    }

    /// Whole milliseconds in the span, of which 64 bits are kept.
    pub fn low_millis(&self) -> (r: u64)
        ensures
            r == millis_modulo(self@),
    {
        (self.as_millis() % 0x1_0000_0000_0000_0000) as u64
    }

    /// Whole seconds in the span.
    pub fn as_secs(&self) -> (r: u64)
        ensures
            r == self@ / (NANOS_PER_SEC as nat),
    {
        proof {
            use_type_invariant(self);
        }
        (self.nanos / NANOS_PER_SEC) as u64
    }

    pub fn is_zero(&self) -> (r: bool)
        ensures
            r == (self@ == 0),
    {
        self.nanos == 0
    }

    /// Whether the two spans have the same length.
    pub fn same(&self, other: &Duration) -> (r: bool)
        ensures
            r == (self@ == other@),
            r == (self == other),
    {
        self.nanos == other.nanos
    }

    /// Whether this span is at most as long as `other`.
    pub fn at_most(&self, other: &Duration) -> (r: bool)
        ensures
            r == (self@ <= other@),
    {
        self.nanos <= other.nanos
    }

    /// Whether this span is shorter than `other`.
    pub fn shorter_than(&self, other: &Duration) -> (r: bool)
        ensures
            r == (self@ < other@),
    {
        self.nanos < other.nanos
    }

    /// The two spans one after the other, capped at the longest span.
    pub fn saturating_add(&self, other: Duration) -> (r: Duration)
        ensures
            r@ == capped_sum(self@, other@),
    {
        proof {
            use_type_invariant(self);
            use_type_invariant(&other);
        }
        let sum: u128 = self.nanos + other.nanos;
        if sum <= MAX_NANOS {
            Duration { nanos: sum }
        } else {
            Duration { nanos: MAX_NANOS }
        }
    }

    /// What is left of this span after `other`, or nothing.
    pub fn saturating_sub(&self, other: Duration) -> (r: Duration)
        ensures
            r@ == floored_difference(self@, other@),
    {
        proof {
            use_type_invariant(self);
        }
        if self.nanos >= other.nanos {
            Duration { nanos: self.nanos - other.nanos }
        } else {
            Duration { nanos: 0 }
        }
    }

    /// The distance between the two spans.
    pub fn abs_diff(&self, other: Duration) -> (r: Duration)
        ensures
            r@ == distance(self@, other@),
    {
        proof {
            use_type_invariant(self);
            use_type_invariant(&other);
        }
        if self.nanos >= other.nanos {
            Duration { nanos: self.nanos - other.nanos }
        } else {
            Duration { nanos: other.nanos - self.nanos }
        }
    }
}

} // verus!
