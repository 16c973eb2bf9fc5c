//! Single-precision numbers (IEEE 754 binary32) by their bits, and their
//! products and sums in integer arithmetic: each is the number closest to the
//! exact result, and of two equally close ones the even one.
use vstd::arithmetic::power2::{
    lemma2_to64, lemma_pow2_adds, lemma_pow2_pos, lemma_pow2_strictly_increases, lemma_pow2_unfold,
    pow2,
};
use vstd::prelude::*;

verus! {

/// The bits of the infinite number.
pub const INFINITE: u32 = 0x7f80_0000;

/// The bits of one.
pub const ONE_BITS: u32 = 0x3f80_0000;

/// A single-precision number.
#[derive(Clone, Copy, Debug, PartialEq, Eq, Structural)]
pub struct Single {
    pub bits: u32,
}

/// One.
pub open spec fn one() -> Single {
    Single { bits: ONE_BITS }
}

impl Single {
    /// Whether the sign is a minus.
    pub open spec fn negative(self) -> bool {
        self.bits >= 0x8000_0000
    }

    /// The bits without the sign: they order the numbers without a sign.
    pub open spec fn magnitude(self) -> int {
        self.bits as int % 0x8000_0000
    }

    /// Whether the bits are those of no number.
    pub open spec fn is_nan(self) -> bool {
        self.magnitude() > INFINITE
    }

    /// Whether the number is infinite.
    pub open spec fn is_infinite(self) -> bool {
        self.magnitude() == INFINITE
    }

    /// The whole number that a finite number is a multiple of a power of two of.
    pub open spec fn mantissa(self) -> nat {
        if self.magnitude() < 0x80_0000 {
            self.magnitude() as nat
        } else {
            (self.magnitude() % 0x80_0000 + 0x80_0000) as nat
        }
    }

    /// The exponent of that power of two.
    pub open spec fn exponent(self) -> int {
        if self.magnitude() < 0x80_0000 {
            -149
        } else {
            self.magnitude() / 0x80_0000 - 150
        }
    }

    /// The place of a number among all numbers; the two zeros share one.
    pub open spec fn place(self) -> int {
        if self.negative() {
            -self.magnitude()
        } else {
            self.magnitude()
        }
    }

    /// Whether the number is larger than zero.
    pub open spec fn is_positive(self) -> bool {
        !self.is_nan() && self.place() > 0
    }

    /// Whether the two are the same number. What is no number is the same as
    /// nothing.
    pub open spec fn equals(self, other: Single) -> bool {
        !self.is_nan() && !other.is_nan() && self.place() == other.place()
    }
}

// ---------------------------------------------------------------------------
// Rounding
// ---------------------------------------------------------------------------

/// How many low bits of `n` times the power of two with exponent `e` a number
/// has no room for: it holds 24 bits, none of them below the exponent -149.
pub open spec fn spare_bits(n: nat, e: int) -> nat
    decreases
            n + (if e < -149 {
                -149 - e
            } else {
                0
            }),
{
    if n < 0x100_0000 && e >= -149 {
        0
    } else {
        1 + spare_bits(n / 2, e + 1)
    }
}

/// `n` without its low `s` bits, rounded to the closest, and to the even one
/// where two are equally close.
pub open spec fn nearest(n: nat, s: nat) -> nat {
    let unit = pow2(s);
    let q = n / unit;
    let r = n % unit;
    if 2 * r > unit || (2 * r == unit && q % 2 == 1) {
        q + 1
    } else {
        q
    }
}

/// The magnitude of the number closest to `n` times the power of two with
/// exponent `e`, where `n` has bits to spare.
pub open spec fn closest_magnitude(n: nat, e: int) -> int {
    let s = spare_bits(n, e);
    let m = (e + s + 149) * 0x80_0000 + nearest(n, s);
    if m < INFINITE {
        m
    } else {
        INFINITE as int
    }
}

/// The magnitude of the number closest to `n` times the power of two with
/// exponent `e`.
pub open spec fn single_magnitude(n: nat, e: int) -> int {
    if n == 0 {
        0
    } else {
        closest_magnitude(n * 0x1_0000_0000_0000_0000, e - 64)
    }
}

/// The place of the product of two numbers; zero where the product is no
/// number.
pub open spec fn product_place(a: Single, b: Single) -> int {
    let m = if a.is_infinite() || b.is_infinite() {
        INFINITE as int
    } else {
        single_magnitude(a.mantissa() * b.mantissa(), a.exponent() + b.exponent())
    };
    if a.is_nan() || b.is_nan() || (a.is_infinite() && b.magnitude() == 0) || (b.is_infinite()
        && a.magnitude() == 0) {
        0
    } else if a.negative() != b.negative() {
        -m
    } else {
        m
    }
}

/// The sum of two numbers that are counted in the same unit.
pub open spec fn rounded_sum(a: nat, b: nat) -> nat {
    let s = spare_bits(a + b, 0);
    nearest(a + b, s) * pow2(s)
}

/// The number of low bits that there is no room for.
fn spare(n: u128, e: i128) -> (r: u128)
    requires
        n < 0x1_0000_0000_0000_0000_0000_0000_0000,
        -1_000 <= e <= 1_000,
    ensures
        r == spare_bits(n as nat, e as int),
{
    let mut m: u128 = n;
    let mut f: i128 = e;
    let mut s: u128 = 0;
    while m >= 0x100_0000
        invariant
            s + m <= n,
            f == e + s,
            -1_000 <= e <= 1_000,
            n < 0x1_0000_0000_0000_0000_0000_0000_0000,
            spare_bits(n as nat, e as int) == s + spare_bits(m as nat, f as int),
        decreases m,
    {
        m = m / 2;
        f = f + 1;
        s = s + 1;
    }
    let ghost (s1, f1) = (s as int, f as int);
    while f < -149
        invariant
            m < 0x100_0000,
            s == s1 + (f - f1),
            0 <= s1 <= n,
            -1_000 <= f1 <= f,
            f1 < -149 ==> f <= -149,
            f1 >= -149 ==> f == f1,
            n < 0x1_0000_0000_0000_0000_0000_0000_0000,
            spare_bits(n as nat, e as int) == s + spare_bits(m as nat, f as int),
        decreases -f,
    {
        m = m / 2;
        f = f + 1;
        s = s + 1;
    }
    s
}

/// The power of two with exponent 113.
proof fn lemma_pow2_113()
    ensures
        pow2(113) == 0x2_0000_0000_0000_0000_0000_0000_0000,
        pow2(112) == 0x1_0000_0000_0000_0000_0000_0000_0000,
{
    lemma2_to64();
    lemma_pow2_adds(64, 32);
    lemma_pow2_adds(96, 16);
    lemma_pow2_unfold(113);
}

/// A number of `k` bits has no more of them to spare, beside those below the
/// least exponent.
proof fn lemma_spare_small(n: nat, k: nat, e: int)
    requires
        n < pow2(k),
    ensures
        spare_bits(n, e) <= k + (if e < -149 {
            -149 - e
        } else {
            0
        }),
    decreases
            n + (if e < -149 {
                -149 - e
            } else {
                0
            }),
{
    lemma2_to64();
    if !(n < 0x100_0000 && e >= -149) {
        if k > 0 {
            lemma_pow2_unfold(k);
            lemma_spare_small(n / 2, (k - 1) as nat, e + 1);
        } else {
            lemma_spare_small(n / 2, 0, e + 1);
        }
    }
}

/// The power of two with exponent `s`.
fn power(s: u128) -> (r: u128)
    requires
        s <= 113,
    ensures
        r == pow2(s as nat),
        r <= 0x2_0000_0000_0000_0000_0000_0000_0000,
{
    proof {
        lemma2_to64();
        lemma_pow2_113();
    }
    let mut unit: u128 = 1;
    let mut i: u128 = 0;
    while i < s
        invariant
            i <= s <= 113,
            unit == pow2(i as nat),
            pow2(113) == 0x2_0000_0000_0000_0000_0000_0000_0000,
        decreases s - i,
    {
        proof {
            lemma_pow2_unfold((i + 1) as nat);
            lemma_pow2_strictly_increases(i as nat, 113);
        }
        unit = unit * 2;
        i = i + 1;
    }
    proof {
        if s < 113 {
            lemma_pow2_strictly_increases(s as nat, 113);
        }
    }
    unit
}

/// `n` without its low `s` bits, rounded.
fn round(n: u128, s: u128) -> (r: u128)
    requires
        n < 0x1_0000_0000_0000_0000_0000_0000_0000,
    ensures
        r == nearest(n as nat, s as nat),
        r <= n + 1,
{
    proof {
        lemma_pow2_pos(s as nat);
    }
    if s > 113 {
        proof {
            lemma_pow2_113();
            lemma_pow2_strictly_increases(113, s as nat);
            vstd::arithmetic::div_mod::lemma_small_mod(n as nat, pow2(s as nat));
            vstd::arithmetic::div_mod::lemma_basic_div(n as int, pow2(s as nat) as int);
        }
        return 0;
    }
    let unit = power(s);
    let q: u128 = n / unit;
    let rest: u128 = n % unit;
    proof {
        assert(q <= n) by (nonlinear_arith)
            requires
                q == n as int / unit as int,
                unit > 0,
                n >= 0,
        ;
    }
    if 2 * rest > unit || (2 * rest == unit && q % 2 == 1) {
        q + 1
    } else {
        q
    }
}

/// How many bits are left of a number once those without room are dropped.
pub proof fn lemma_nearest_bound(n: nat, e: int)
    ensures
        nearest(n, spare_bits(n, e)) <= 0x100_0000,
{
    let s = spare_bits(n, e);
    lemma_pow2_pos(s);
    lemma_spare(n, e);
    assert(n / pow2(s) < 0x100_0000);
}

/// Without the spare bits a number has at most 24.
pub proof fn lemma_spare(n: nat, e: int)
    ensures
        n / pow2(spare_bits(n, e)) < 0x100_0000,
        e + spare_bits(n, e) >= -149,
    decreases
            n + (if e < -149 {
                -149 - e
            } else {
                0
            }),
{
    lemma2_to64();
    if n < 0x100_0000 && e >= -149 {
        assert(pow2(0) == 1);
    } else {
        lemma_spare(n / 2, e + 1);
        let s = spare_bits(n / 2, e + 1);
        lemma_pow2_unfold((s + 1) as nat);
        lemma_pow2_pos(s);
        vstd::arithmetic::div_mod::lemma_div_denominator(n as int, 2, pow2(s) as int);
    }
}

/// The magnitude of the number closest to `n` times the power of two with
/// exponent `e`.
fn magnitude_of(n: u64, e: i32) -> (r: u32)
    requires
        n < 0x1_0000_0000_0000,
        -900 <= e <= 500,
    ensures
        r == single_magnitude(n as nat, e as int),
        r <= INFINITE,
{
    if n == 0 {
        return 0;
    }
    let wide: u128 = (n as u128) * 0x1_0000_0000_0000_0000;
    let f: i128 = e as i128 - 64;
    proof {
        lemma_pow2_113();
        lemma_spare_small(wide as nat, 112, f as int);
    }
    let s = spare(wide, f);
    let q = round(wide, s);
    proof {
        lemma_nearest_bound(wide as nat, f as int);
        lemma_spare(wide as nat, f as int);
    }
    let m: i128 = (f + s as i128 + 149) * 0x80_0000 + q as i128;
    if m < INFINITE as i128 {
        m as u32
    } else {
        INFINITE
    }
}

impl Single {
    /// Nothing.
    pub fn zero() -> (r: Self)
        ensures
            r.bits == 0,
    {
        Single { bits: 0 }
    }

    /// One.
    pub fn one() -> (r: Self)
        ensures
            r == one(),
    {
        Single { bits: ONE_BITS }
    }

    /// The number closest to `n` times the power of two with exponent `e`.
    pub fn scaled(n: u32, e: i32) -> (r: Self)
        requires
            -900 <= e <= 500,
        ensures
            r.bits == single_magnitude(n as nat, e as int),
    {
        Single { bits: magnitude_of(n as u64, e) }
    }

    /// The bits without the sign.
    fn unsigned(&self) -> (r: u32)
        ensures
            r == self.magnitude(),
            r < 0x8000_0000,
    {
        self.bits % 0x8000_0000
    }

    /// Whether the number is larger than zero.
    pub fn positive(&self) -> (r: bool)
        ensures
            r == self.is_positive(),
    {
        0 < self.bits && self.bits <= INFINITE
    }

    /// Whether the two are the same number.
    pub fn same(&self, other: Single) -> (r: bool)
        ensures
            r == self.equals(other),
    {
        let (a, b) = (self.unsigned(), other.unsigned());
        a <= INFINITE && b <= INFINITE && a == b && (a == 0 || self.bits == other.bits)
    }

    /// The place of the product of two numbers among all numbers.
    pub fn product_place(&self, other: Single) -> (r: i64)
        ensures
            r == product_place(*self, other),
    {
        let (a, b) = (self.unsigned(), other.unsigned());
        if a > INFINITE || b > INFINITE || (a == INFINITE && b == 0) || (b == INFINITE && a == 0) {
            return 0;
        }
        let m: u32 = if a == INFINITE || b == INFINITE {
            INFINITE
        } else {
            let (ma, ea) = self.parts();
            let (mb, eb) = other.parts();
            assert(ma as int * mb as int <= 0xff_ffff * 0xff_ffff) by (nonlinear_arith)
                requires
                    0 <= ma <= 0xff_ffff,
                    0 <= mb <= 0xff_ffff,
            ;
            magnitude_of((ma as u64) * (mb as u64), ea + eb)
        };
        if (self.bits >= 0x8000_0000) != (other.bits >= 0x8000_0000) {
            -(m as i64)
        } else {
            m as i64
        }
    }

    /// The mantissa and the exponent of a finite number.
    fn parts(&self) -> (r: (u32, i32))
        requires
            self.magnitude() < INFINITE,
        ensures
            r.0 == self.mantissa(),
            r.1 == self.exponent(),
            r.0 <= 0xff_ffff,
            -149 <= r.1 <= 104,
    {
        let m = self.unsigned();
        if m < 0x80_0000 {
            (m, -149)
        } else {
            (m % 0x80_0000 + 0x80_0000, (m / 0x80_0000) as i32 - 150)
        }
    }
}

/// The sum of two numbers that are counted in the same unit.
pub fn sum_rounded(a: u32, b: u32) -> (r: u32)
    requires
        a + b < 0x8000_0000,
    ensures
        r == rounded_sum(a as nat, b as nat),
        a + b <= 0x800_0000 ==> r <= 0x1000_0000,
{
    let n: u128 = (a + b) as u128;
    let s = spare(n, 0);
    let q = round(n, s);
    proof {
        lemma_sum_bound((a + b) as nat);
    }
    let unit = power(s);
    (q * unit) as u32
}

/// Rounding a sum keeps it within 32 bits.
proof fn lemma_sum_bound(n: nat)
    requires
        n < 0x8000_0000,
    ensures
        spare_bits(n, 0) <= 7,
        nearest(n, spare_bits(n, 0)) * pow2(spare_bits(n, 0)) <= 0x8000_0000,
        n <= 0x800_0000 ==> nearest(n, spare_bits(n, 0)) * pow2(spare_bits(n, 0)) <= 0x1000_0000,
{
    reveal_with_fuel(spare_bits, 8);
    lemma2_to64();
    lemma_nearest_bound(n, 0);
    let s = spare_bits(n, 0);
    let q = nearest(n, s);
    let unit = pow2(s);
    assert(unit <= 128);
    assert(q * unit <= 0x100_0000 * 128) by (nonlinear_arith)
        requires
            q <= 0x100_0000,
            unit <= 128,
    ;
    if n <= 0x800_0000 {
        assert(unit <= 16);
        assert(q * unit <= 0x100_0000 * 16) by (nonlinear_arith)
            requires
                q <= 0x100_0000,
                unit <= 16,
        ;
    }
}

// ---------------------------------------------------------------------------
// Laws
// ---------------------------------------------------------------------------

/// A number that has no bits to spare, shifted left by `k`, has `k`.
proof fn lemma_spare_shifted(m: nat, e: int, k: nat)
    requires
        m < 0x100_0000,
        e >= -149,
        m >= 0x80_0000 || e == -149,
    ensures
        spare_bits(m * pow2(k), e - k) == k,
        nearest(m * pow2(k), k) == m,
    decreases k,
{
    lemma2_to64();
    lemma_pow2_pos(k);
    vstd::arithmetic::div_mod::lemma_mod_multiples_basic(m as int, pow2(k) as int);
    vstd::arithmetic::div_mod::lemma_div_by_multiple(m as int, pow2(k) as int);
    if k == 0 {
        assert(m * pow2(0) == m);
    } else {
        let below = (k - 1) as nat;
        lemma_spare_shifted(m, e, below);
        lemma_pow2_unfold(k);
        lemma_pow2_pos(below);
        let n = m * pow2(k);
        assert(n == 2 * (m * pow2(below))) by (nonlinear_arith)
            requires
                n == m * pow2(k),
                pow2(k) == 2 * pow2(below),
        ;
        assert(m >= 0x80_0000 ==> n >= 0x100_0000) by (nonlinear_arith)
            requires
                n == 2 * (m * pow2(below)),
                pow2(below) >= 1,
        ;
        assert(n / 2 == m * pow2(below));
    }
}

/// Times one a number keeps its place.
pub proof fn law_one_is_neutral(a: Single)
    requires
        !a.is_nan(),
    ensures
        product_place(a, one()) == a.place(),
{
    if !a.is_infinite() && a.mantissa() > 0 {
        let m = a.mantissa();
        let e = a.exponent();
        lemma2_to64();
        lemma_pow2_adds(23, 64);
        assert(m * 0x80_0000 * 0x1_0000_0000_0000_0000 == m * pow2(87)) by (nonlinear_arith)
            requires
                pow2(87) == 0x80_0000 * 0x1_0000_0000_0000_0000,
        ;
        lemma_spare_shifted(m, e, 87);
        assert(a.magnitude() == (e + 149) * 0x80_0000 + m);
    }
}

/// No more bits are dropped than there is no room for.
pub proof fn lemma_spare_least(n: nat, e: int)
    requires
        spare_bits(n, e) > 0,
    ensures
        n / pow2((spare_bits(n, e) - 1) as nat) >= 0x100_0000 || e + spare_bits(n, e) - 1 < -149,
    decreases
            n + (if e < -149 {
                -149 - e
            } else {
                0
            }),
{
    lemma2_to64();
    let s = spare_bits(n / 2, e + 1);
    if s == 0 {
        assert(n / pow2(0) == n) by {
            assert(pow2(0) == 1);
        }
    } else {
        lemma_spare_least(n / 2, e + 1);
        let below = (s - 1) as nat;
        lemma_pow2_unfold(s);
        lemma_pow2_pos(below);
        vstd::arithmetic::div_mod::lemma_div_denominator(n as int, 2, pow2(below) as int);
    }
}

/// A larger number has no fewer bits to spare.
proof fn lemma_spare_grows(n: nat, m: nat, e: int)
    requires
        n <= m,
    ensures
        spare_bits(n, e) <= spare_bits(m, e),
    decreases
            n + (if e < -149 {
                -149 - e
            } else {
                0
            }),
{
    if !(n < 0x100_0000 && e >= -149) {
        lemma_spare_grows(n / 2, m / 2, e + 1);
    }
}

/// Rounding keeps the order of numbers.
proof fn lemma_nearest_grows(n: nat, m: nat, s: nat)
    requires
        n <= m,
    ensures
        nearest(n, s) <= nearest(m, s),
{
    let unit = pow2(s);
    lemma_pow2_pos(s);
    vstd::arithmetic::div_mod::lemma_div_is_ordered(n as int, m as int, unit as int);
    vstd::arithmetic::div_mod::lemma_fundamental_div_mod(n as int, unit as int);
    vstd::arithmetic::div_mod::lemma_fundamental_div_mod(m as int, unit as int);
}

proof fn lemma_closest_grows(n: nat, m: nat, e: int)
    requires
        n <= m,
    ensures
        closest_magnitude(n, e) <= closest_magnitude(m, e),
{
    let s = spare_bits(n, e);
    let t = spare_bits(m, e);
    lemma_spare_grows(n, m, e);
    lemma_spare(n, e);
    lemma_spare(m, e);
    lemma_nearest_bound(n, e);
    if s == t {
        lemma_nearest_grows(n, m, s);
    } else {
        lemma_spare_least(m, e);
        let below = (t - 1) as nat;
        lemma_pow2_unfold(t);
        lemma_pow2_pos(below);
        vstd::arithmetic::div_mod::lemma_div_denominator(m as int, pow2(below) as int, 2);
        assert(m / pow2(below) >= 0x100_0000);
        assert(pow2(t) == pow2(below) * 2);
        assert(m / pow2(t) == m / pow2(below) / 2);
        assert(nearest(m, t) >= 0x80_0000);
    }
}

/// Doubling a number and lowering its exponent changes nothing.
proof fn lemma_closest_doubled(n: nat, e: int)
    requires
        n >= 0x80_0000,
    ensures
        closest_magnitude(2 * n, e) == closest_magnitude(n, e + 1),
{
    let s = spare_bits(n, e + 1);
    let unit = pow2(s);
    lemma_pow2_pos(s);
    lemma_pow2_unfold((s + 1) as nat);
    assert(spare_bits(2 * n, e) == s + 1);
    let q = n / unit;
    let r = n % unit;
    vstd::arithmetic::div_mod::lemma_fundamental_div_mod(n as int, unit as int);
    assert(2 * n == q * (2 * unit) + 2 * r) by (nonlinear_arith)
        requires
            n == unit * q + r,
    ;
    vstd::arithmetic::div_mod::lemma_fundamental_div_mod_converse(
        (2 * n) as int,
        (2 * unit) as int,
        q as int,
        (2 * r) as int,
    );
    assert(nearest(2 * n, (s + 1) as nat) == nearest(n, s));
}

proof fn lemma_closest_scaled(n: nat, e: int, d: nat)
    requires
        n >= 0x80_0000,
    ensures
        closest_magnitude(n * pow2(d), e) == closest_magnitude(n, e + d),
    decreases d,
{
    lemma2_to64();
    if d == 0 {
        assert(n * pow2(0) == n);
    } else {
        let below = (d - 1) as nat;
        lemma_pow2_unfold(d);
        lemma_pow2_pos(below);
        let m = n * pow2(below);
        assert(m >= n && n * pow2(d) == 2 * m) by (nonlinear_arith)
            requires
                m == n * pow2(below),
                pow2(below) >= 1,
                pow2(d) == 2 * pow2(below),
        ;
        lemma_closest_doubled(m, e);
        lemma_closest_scaled(n, e + 1, below);
    }
}

proof fn lemma_single_magnitude(n: nat, e: int)
    ensures
        0 <= single_magnitude(n, e) <= INFINITE,
{
    lemma_spare(n * 0x1_0000_0000_0000_0000, e - 64);
}

/// Of two numbers the larger has the larger product with the same positive
/// number, or one that rounds to the same.
pub proof fn law_product_keeps_order(a: Single, b: Single, w: Single)
    requires
        !a.is_nan() && !a.negative(),
        !b.is_nan() && !b.negative(),
        a.place() <= b.place(),
        w.is_positive(),
    ensures
        product_place(a, w) <= product_place(b, w),
{
    lemma_single_magnitude(a.mantissa() * w.mantissa(), a.exponent() + w.exponent());
    lemma_single_magnitude(b.mantissa() * w.mantissa(), b.exponent() + w.exponent());
    if a.mantissa() == 0 {
        assert(a.mantissa() * w.mantissa() == 0);
    }
    if !a.is_infinite() && !b.is_infinite() && !w.is_infinite() && a.mantissa() > 0 {
        let (ma, ea, mb, eb) = (a.mantissa(), a.exponent(), b.mantissa(), b.exponent());
        let (mw, ew) = (w.mantissa(), w.exponent());
        let wide: nat = 0x1_0000_0000_0000_0000;
        let n = ma * mw * wide;
        let m = mb * mw * wide;
        let e = ea + ew - 64;
        let d = (eb - ea) as nat;
        assert(mw > 0);
        assert(mb > 0 && ea <= eb);
        lemma_pow2_pos(d);
        assert(ma <= mb * pow2(d)) by {
            lemma2_to64();
            if d == 0 {
                assert(mb * pow2(0) == mb);
            } else {
                lemma_pow2_unfold(d);
                lemma_pow2_pos((d - 1) as nat);
                assert(mb * pow2(d) >= 0x100_0000) by (nonlinear_arith)
                    requires
                        mb >= 0x80_0000,
                        pow2(d) >= 2,
                ;
            }
        }
        assert(n <= m * pow2(d)) by (nonlinear_arith)
            requires
                n == ma * mw * wide,
                m == mb * mw * wide,
                ma <= mb * pow2(d),
                mw >= 0,
                wide >= 0,
        ;
        assert(m >= wide) by (nonlinear_arith)
            requires
                m == mb * mw * wide,
                mb >= 1,
                mw >= 1,
        ;
        assert(ma * mw > 0 && mb * mw > 0) by (nonlinear_arith)
            requires
                ma > 0,
                mb > 0,
                mw > 0,
        ;
        lemma_closest_grows(n, m * pow2(d), e);
        lemma_closest_scaled(m, e, d);
    }
}

} // verus!
