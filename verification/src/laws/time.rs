//! Spans of time.
use crate::time::{capped_sum, distance, floored_difference, millis_modulo};
use vstd::prelude::*;

verus! {

/// A sum of spans is their sum, unless that is longer than any span.
pub proof fn law_capped_sum(a: nat, b: nat)
    ensures
        a + b <= 18_446_744_073_709_551_615_999_999_999 ==> capped_sum(a, b) == a + b,
        a + b > 18_446_744_073_709_551_615_999_999_999 ==> capped_sum(a, b)
            == 18_446_744_073_709_551_615_999_999_999,
        capped_sum(a, b) == capped_sum(b, a),
{
}

/// What is left of a span and what was taken make up the span, unless more was
/// taken than there was.
pub proof fn law_floored_difference(a: nat, b: nat)
    ensures
        b <= a ==> floored_difference(a, b) + b == a,
        b >= a ==> floored_difference(a, b) == 0,
{
}

/// The distance between two points leads from the earlier to the later.
pub proof fn law_distance(a: nat, b: nat)
    ensures
        a <= b ==> a + distance(a, b) == b,
        b <= a ==> b + distance(a, b) == a,
        distance(a, b) == distance(b, a),
{
}

/// Whole milliseconds are a million nanoseconds each, and what is less than one
/// does not count.
pub proof fn law_millis(ms: nat, rest: nat)
    requires
        ms < 0x1_0000_0000_0000_0000,
        rest < 1_000_000,
    ensures
        millis_modulo(ms * 1_000_000 + rest) == ms,
{
    assert((ms * 1_000_000 + rest) / 1_000_000 == ms);
}

} // verus!
