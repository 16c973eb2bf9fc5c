//! Single-precision numbers: what their bits stand for, and how far a rounded
//! result is from the exact one.
use crate::single::{
    lemma_nearest_bound, lemma_spare, lemma_spare_least, nearest, one, product_place, rounded_sum,
    single_magnitude, spare_bits, Single,
};
use vstd::arithmetic::div_mod::lemma_fundamental_div_mod;
use vstd::arithmetic::power2::{
    lemma2_to64, lemma_pow2_pos, lemma_pow2_strictly_increases, lemma_pow2_unfold, pow2,
};
use vstd::prelude::*;

verus! {

/// The bits of a finite number are a sign, and a count of steps up from zero:
/// the number is its mantissa times a power of two, and the mantissa has 24
/// bits but for the numbers with the least exponent.
pub proof fn law_number_parts(a: Single)
    requires
        !a.is_nan(),
        !a.is_infinite(),
    ensures
        a.bits == (if a.negative() {
            0x8000_0000int
        } else {
            0
        }) + (a.exponent() + 149) * 0x80_0000 + a.mantissa(),
        a.mantissa() < 0x100_0000,
        a.exponent() >= -149,
        a.mantissa() < 0x80_0000 ==> a.exponent() == -149,
{
}

/// What the bits say: the sign, whether they are a number, whether it is
/// larger than zero, and its place among all.
pub proof fn law_bits(a: Single, b: Single)
    ensures
        a.negative() == (a.bits >= 0x8000_0000),
        a.is_positive() == (0 < a.bits <= 0x7f80_0000),
        a.is_nan() == (0x7f80_0000 < a.bits < 0x8000_0000 || a.bits > 0xff80_0000),
        a.is_infinite() == (a.bits == 0x7f80_0000 || a.bits == 0xff80_0000),
        a.place() == (if a.bits < 0x8000_0000 {
            a.bits as int
        } else {
            0x8000_0000 - a.bits
        }),
        a.equals(b) == (!a.is_nan() && !b.is_nan() && (a.bits == b.bits || (a.bits == 0 && b.bits
            == 0x8000_0000) || (a.bits == 0x8000_0000 && b.bits == 0))),
        one().bits == 0x3f80_0000,
{
}

/// Rounding goes to a multiple of the unit no further than half a unit away,
/// and to an even one where two are as close.
proof fn lemma_nearest(n: nat, s: nat)
    ensures
        ({
            let off = nearest(n, s) * pow2(s) - n;
            &&& -pow2(s) <= 2 * off <= pow2(s)
            &&& 2 * off == pow2(s) || 2 * off == -pow2(s) ==> nearest(n, s) % 2 == 0
        }),
{
    let unit = pow2(s);
    lemma_pow2_pos(s);
    lemma_fundamental_div_mod(n as int, unit as int);
    let q = n / unit;
    let r = n % unit;
    assert((q + 1) * unit == unit * q + unit) by (nonlinear_arith);
    assert(q * unit == unit * q) by (nonlinear_arith);
}

/// The number that `n` times a power of two is rounded to is no further from it
/// than half its own unit, and has an even mantissa where it is just that far.
/// Both are compared as whole numbers, 64 bits below the exponent `e`.
pub proof fn law_rounding(n: nat, e: int)
    requires
        n > 0,
        single_magnitude(n, e) < 0x7f80_0000,
    ensures
        ({
            let r = Single { bits: single_magnitude(n, e) as u32 };
            let unit = pow2((r.exponent() - e + 64) as nat);
            let off = r.mantissa() * unit - n * 0x1_0000_0000_0000_0000;
            &&& r.exponent() - e + 64 >= 0
            &&& !r.negative() && !r.is_nan()
            &&& -unit <= 2 * off <= unit
            &&& 2 * off == unit || 2 * off == -unit ==> r.mantissa() % 2 == 0
        }),
{
    let wide = n * 0x1_0000_0000_0000_0000;
    let f = e - 64;
    let s = spare_bits(wide, f);
    let q = nearest(wide, s);
    assert(s > 0);
    lemma_spare(wide, f);
    lemma_spare_least(wide, f);
    lemma_nearest_bound(wide, f);
    lemma_nearest(wide, s);
    lemma_pow2_pos(s);
    lemma_pow2_unfold(s);
    lemma_pow2_unfold((s + 1) as nat);
    let k = f + s + 149;
    let r = Single { bits: single_magnitude(n, e) as u32 };
    let below = (s - 1) as nat;
    lemma_pow2_pos(below);
    vstd::arithmetic::div_mod::lemma_div_denominator(wide as int, pow2(below) as int, 2);
    assert(wide / pow2(s) == wide / pow2(below) / 2) by {
        assert(pow2(s) == pow2(below) * 2);
    }
    assert(q >= 0x80_0000 || k == 0);
    if q < 0x100_0000 {
        assert(r.mantissa() == q && r.exponent() == f + s);
    } else {
        assert(q == 0x100_0000);
        assert(r.mantissa() == 0x80_0000 && r.exponent() == f + s + 1);
        assert(r.mantissa() * pow2((s + 1) as nat) == q * pow2(s)) by (nonlinear_arith)
            requires
                r.mantissa() == 0x80_0000,
                q == 0x100_0000,
                pow2((s + 1) as nat) == 2 * pow2(s),
        ;
    }
}

/// Only what is at least as large as half a unit beyond the largest number is
/// rounded to the infinite one. Both are compared as whole numbers, 64 bits
/// below the exponent `e`.
pub proof fn law_overflow(n: nat, e: int)
    requires
        n > 0,
        e <= 168,
        single_magnitude(n, e) >= 0x7f80_0000,
    ensures
        single_magnitude(n, e) == 0x7f80_0000,
        2 * n * 0x1_0000_0000_0000_0000 >= 0x1ff_ffff * pow2((168 - e) as nat),
{
    let wide = n * 0x1_0000_0000_0000_0000;
    let f = e - 64;
    let s = spare_bits(wide, f);
    let q = nearest(wide, s);
    let d = (104 - f) as nat;
    assert(s > 0);
    lemma_spare(wide, f);
    lemma_spare_least(wide, f);
    lemma_nearest_bound(wide, f);
    lemma_pow2_pos(s);
    assert(s >= d);
    let unit = pow2(s);
    if s == d {
        assert(q == 0x100_0000);
        lemma_fundamental_div_mod(wide as int, unit as int);
        assert(wide / unit == 0xff_ffff);
        assert(2 * wide >= 0x1ff_ffff * unit) by (nonlinear_arith)
            requires
                wide == unit * 0xff_ffff + wide % unit,
                2 * (wide % unit) >= unit,
        ;
    } else {
        let below = (s - 1) as nat;
        lemma_pow2_pos(below);
        lemma_pow2_pos(d);
        if d < below {
            lemma_pow2_strictly_increases(d, below);
        }
        lemma_fundamental_div_mod(wide as int, pow2(below) as int);
        assert(2 * wide >= 0x1ff_ffff * pow2(d)) by (nonlinear_arith)
            requires
                wide == pow2(below) * (wide / pow2(below)) + wide % pow2(below),
                wide % pow2(below) >= 0,
                wide / pow2(below) >= 0x100_0000,
                pow2(below) >= pow2(d) >= 1,
        ;
    }
}

/// The sign of a product is that of its factors, and its size is that of the
/// rounded product of their mantissas.
pub proof fn law_product(a: Single, b: Single)
    requires
        !a.is_nan() && !a.is_infinite(),
        !b.is_nan() && !b.is_infinite(),
    ensures
        ({
            let size = single_magnitude(a.mantissa() * b.mantissa(), a.exponent() + b.exponent());
            &&& a.negative() == b.negative() ==> product_place(a, b) == size
            &&& a.negative() != b.negative() ==> product_place(a, b) == -size
        }),
        a.mantissa() == 0 || b.mantissa() == 0 ==> product_place(a, b) == 0,
{
    if a.mantissa() == 0 {
        assert(a.mantissa() * b.mantissa() == 0);
    }
    if b.mantissa() == 0 {
        assert(a.mantissa() * b.mantissa() == 0);
    }
}

/// A product with an infinite factor is infinite, unless the other is zero.
pub proof fn law_infinite_product(a: Single, b: Single)
    requires
        a.is_infinite(),
        !b.is_nan(),
    ensures
        b.place() == 0 ==> product_place(a, b) == 0,
        b.place() != 0 ==> product_place(a, b) == if a.negative() == b.negative() {
            0x7f80_0000int
        } else {
            -0x7f80_0000int
        },
{
}

/// The order of the factors does not matter.
pub proof fn law_product_commutes(a: Single, b: Single)
    ensures
        product_place(a, b) == product_place(b, a),
{
    assert(a.mantissa() * b.mantissa() == b.mantissa() * a.mantissa()) by (nonlinear_arith);
}

/// A sum of counts is exact where it has at most 24 bits, and otherwise no
/// further from the exact sum than half the unit that is left.
pub proof fn law_rounded_sum(a: nat, b: nat)
    ensures
        a + b < 0x100_0000 ==> rounded_sum(a, b) == a + b,
        ({
            let off = rounded_sum(a, b) - (a + b);
            exists|s: nat|
                rounded_sum(a, b) == nearest(a + b, s) * #[trigger] pow2(s) && -pow2(s) <= 2 * off
                    <= pow2(s) && (a + b) / pow2(s) < 0x100_0000 && (s > 0 ==> (a + b) / pow2(
                    (s - 1) as nat,
                ) >= 0x100_0000)
        }),
        rounded_sum(a, b) == rounded_sum(b, a),
{
    let n = a + b;
    let s = spare_bits(n, 0);
    lemma2_to64();
    lemma_nearest(n, s);
    lemma_spare(n, 0);
    if s > 0 {
        lemma_spare_least(n, 0);
    }
    if n < 0x100_0000 {
        assert(s == 0);
        assert(nearest(n, 0) == n) by {
            assert(pow2(0) == 1);
            assert(n / 1 == n && n % 1 == 0) by (nonlinear_arith);
        }
        assert(n * pow2(0) == n);
    }
    assert(rounded_sum(a, b) == nearest(n, s) * pow2(s));
}

} // verus!
