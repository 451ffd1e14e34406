//! Single-precision numbers, held by their IEEE 754 binary32 encoding.
//!
//! Every value that a script computes with is a [`Number`]. The library
//! classifies, compares and converts numbers by integer arithmetic on the
//! encoding; sums, differences, products and quotients are rounded by the
//! embedding program and handed back.
//!
//! What an encoding stands for is said in whole numbers. Every finite
//! binary32 value is a whole multiple of 2^-149, so the model of a number is
//! its count of such units; an infinity counts as 2^277 units, above every
//! finite value, and a NaN has no value.

use vstd::prelude::*;
use vstd::arithmetic::div_mod::lemma_div_multiples_vanish_quotient;
use vstd::arithmetic::power2::{
    pow2,
    lemma_pow2_unfold,
    lemma_pow2_pos,
    lemma_pow2_adds,
    lemma_pow2_strictly_increases,
    lemma2_to64,
    lemma2_to64_rest,
};

verus! {

/// A binary32 value: one sign bit, eight exponent bits, twenty-three
/// fraction bits.
#[derive(Clone, Copy, Debug, PartialEq, Eq)]
pub struct Number {
    pub bits: u32,
}

/// Index of the highest set bit of `m`, and 0 for `m < 2`.
pub open spec fn highest_bit(m: nat) -> nat
    decreases m,
{
    if m < 2 {
        0
    } else {
        1 + highest_bit(m / 2)
    }
}

/// The encoding of the binary32 value nearest to the natural number `m`,
/// ties going to the even significand.
pub open spec fn nearest_encoding(m: nat) -> int {
    if m == 0 {
        0
    } else {
        let k = highest_bit(m);
        if k <= 23 {
            (127 + k) * 0x80_0000 + (m * pow2((23 - k) as nat) - 0x80_0000)
        } else {
            let d = pow2((k - 23) as nat);
            let q = m / d;
            let r = m % d;
            let rounded = if 2 * r > d || (2 * r == d && q % 2 == 1) {
                q + 1
            } else {
                q
            };
            (127 + k) * 0x80_0000 + (rounded - 0x80_0000)
        }
    }
}

/// The encoding of the binary32 value nearest to the integer `v`.
pub open spec fn integer_encoding(v: int) -> int {
    if v < 0 {
        0x8000_0000 + nearest_encoding((-v) as nat)
    } else {
        nearest_encoding(v as nat)
    }
}

pub open spec fn clamp(v: int, low: int, high: int) -> int {
    if v < low {
        low
    } else if v > high {
        high
    } else {
        v
    }
}

impl Number {
    /// The encoding without its sign bit.
    pub open spec fn magnitude(self) -> int {
        if self.bits >= 0x8000_0000 {
            self.bits - 0x8000_0000
        } else {
            self.bits as int
        }
    }

    pub open spec fn negative(self) -> bool {
        self.bits >= 0x8000_0000
    }

    /// Not a number: the exponent is all ones and the fraction is not zero.
    pub open spec fn nan(self) -> bool {
        self.magnitude() > 0x7f80_0000
    }

    /// The exponent field.
    pub open spec fn exponent(self) -> nat {
        (self.magnitude() / 0x80_0000) as nat
    }

    /// The fraction field.
    pub open spec fn fraction(self) -> nat {
        (self.magnitude() % 0x80_0000) as nat
    }

    /// The significand: the fraction, with the implicit leading bit unless
    /// the exponent field is zero.
    pub open spec fn significand(self) -> nat {
        if self.exponent() == 0 {
            self.fraction()
        } else {
            0x80_0000 + self.fraction()
        }
    }

    /// The power of two by which the significand counts units of 2^-149.
    pub open spec fn scale(self) -> nat {
        if self.exponent() == 0 {
            0
        } else {
            (self.exponent() - 1) as nat
        }
    }

    /// The absolute value, in units of 2^-149. An infinity has 2^277 units.
    pub open spec fn size(self) -> nat {
        self.significand() * pow2(self.scale())
    }

    /// The value, in units of 2^-149.
    pub open spec fn units(self) -> int {
        if self.negative() {
            -(self.size() as int)
        } else {
            self.size() as int
        }
    }

    /// Positive or negative zero.
    pub open spec fn zero(self) -> bool {
        self.size() == 0
    }

    /// `self == other` as IEEE 754 compares: the values are equal, and
    /// neither is a NaN.
    pub open spec fn same(self, other: Number) -> bool {
        !self.nan() && !other.nan() && self.units() == other.units()
    }

    /// `self < other` as IEEE 754 compares: the value of `self` is the
    /// smaller, and neither is a NaN.
    pub open spec fn below(self, other: Number) -> bool {
        !self.nan() && !other.nan() && self.units() < other.units()
    }

    /// A number counts as true unless it compares equal to zero.
    pub open spec fn truthy(self) -> bool {
        self.nan() || !self.zero()
    }

    /// The absolute value rounded down to an integer.
    pub open spec fn whole_magnitude(self) -> nat {
        self.size() / pow2(149)
    }

    /// The value rounded toward zero; 0 for NaN.
    pub open spec fn truncation(self) -> int {
        if self.nan() {
            0
        } else if self.negative() {
            -(self.whole_magnitude() as int)
        } else {
            self.whole_magnitude() as int
        }
    }

    /// The value as a saturating cast to `i32` gives it.
    pub open spec fn as_i32(self) -> int {
        clamp(self.truncation(), i32::MIN as int, i32::MAX as int)
    }

    /// The value as a saturating cast to `usize` gives it.
    pub open spec fn as_usize(self) -> int {
        clamp(self.truncation(), 0, usize::MAX as int)
    }

    /// The magnitude, negated under a set sign bit: an integer that orders
    /// the encodings as their values are ordered.
    pub open spec fn rank(self) -> int {
        if self.negative() {
            -self.magnitude()
        } else {
            self.magnitude()
        }
    }

    pub open spec fn of_int(v: int) -> Number {
        Number { bits: integer_encoding(v) as u32 }
    }

    pub open spec fn of_bool(b: bool) -> Number {
        if b {
            Number { bits: 0x3f80_0000 }
        } else {
            Number { bits: 0 }
        }
    }

    pub fn from_bits(bits: u32) -> (r: Number)
        ensures
            r.bits == bits,
    {
        Number { bits }
    }

    pub fn to_bits(self) -> (r: u32)
        ensures
            r == self.bits,
    {
        self.bits
    }

    /// 1.0 for `true`, 0.0 for `false`.
    pub fn from_bool(b: bool) -> (r: Number)
        ensures
            r == Number::of_bool(b),
            r.truthy() == b,
    {
        proof {
            lemma_size_zero(Number::of_bool(b));
        }
        if b {
            Number { bits: 0x3f80_0000 }
        } else {
            Number { bits: 0 }
        }
    }

    fn magnitude_bits(self) -> (r: u32)
        ensures
            r == self.magnitude(),
    {
        if self.bits >= 0x8000_0000 {
            self.bits - 0x8000_0000
        } else {
            self.bits
        }
    }

    pub fn is_nan(self) -> (r: bool)
        ensures
            r == self.nan(),
    {
        self.magnitude_bits() > 0x7f80_0000
    }

    pub fn is_zero(self) -> (r: bool)
        ensures
            r == self.zero(),
    {
        proof {
            lemma_size_zero(self);
        }
        self.magnitude_bits() == 0
    }

    pub fn is_truthy(self) -> (r: bool)
        ensures
            r == self.truthy(),
    {
        proof {
            lemma_size_zero(self);
        }
        self.magnitude_bits() != 0
    }

    fn rank_value(self) -> (r: i64)
        ensures
            r == self.rank(),
    {
        let m: u32 = self.magnitude_bits();
        if self.bits >= 0x8000_0000 {
            0i64 - (m as i64)
        } else {
            m as i64
        }
    }

    pub fn equals(self, other: Number) -> (r: bool)
        ensures
            r == self.same(other),
    {
        proof {
            lemma_rank_orders(self, other);
        }
        !self.is_nan() && !other.is_nan() && self.rank_value() == other.rank_value()
    }

    pub fn less_than(self, other: Number) -> (r: bool)
        ensures
            r == self.below(other),
    {
        proof {
            lemma_rank_orders(self, other);
        }
        !self.is_nan() && !other.is_nan() && self.rank_value() < other.rank_value()
    }

    pub fn greater_than(self, other: Number) -> (r: bool)
        ensures
            r == other.below(self),
    {
        other.less_than(self)
    }

    /// The absolute value rounded down, capped at `u64::MAX`.
    fn whole_magnitude_capped(self) -> (r: u64)
        ensures
            r == if self.whole_magnitude() > u64::MAX {
                u64::MAX as int
            } else {
                self.whole_magnitude() as int
            },
    {
        let m: u32 = self.magnitude_bits();
        let e: u32 = m / 0x80_0000;
        let f: u32 = m % 0x80_0000;
        let s: u64 = if e == 0 {
            f as u64
        } else {
            0x80_0000u64 + f as u64
        };
        assert(s == self.significand());
        assert(e == self.exponent());
        proof {
            lemma_whole(self);
        }
        if e >= 150 {
            let k: u32 = e - 150;
            if k > 40 {
                proof {
                    lemma2_to64_rest();
                    if k > 41 {
                        lemma_pow2_strictly_increases(41, k as nat);
                    }
                    assert(s >= 0x80_0000);
                    assert(s * pow2(k as nat) >= 0x80_0000 * 0x200_0000_0000) by (nonlinear_arith)
                        requires
                            s >= 0x80_0000,
                            pow2(k as nat) >= 0x200_0000_0000,
                    ;
                }
                u64::MAX
            } else {
                let p: u64 = power_of_two(k);
                proof {
                    lemma2_to64_rest();
                    assert(s * p < 0x100_0000 * 0x100_0000_0000) by (nonlinear_arith)
                        requires
                            s < 0x100_0000,
                            p <= 0x100_0000_0000,
                    ;
                }
                s * p
            }
        } else {
            let k: u32 = 150 - e;
            if k > 40 {
                proof {
                    lemma2_to64_rest();
                    lemma_pow2_strictly_increases(40, k as nat);
                    let d = pow2(k as nat) as int;
                    let n = s as int;
                    assert(n / d == 0) by (nonlinear_arith)
                        requires
                            0 <= n < 0x100_0000,
                            d > 0x100_0000_0000,
                    ;
                }
                0
            } else {
                let p: u64 = power_of_two(k);
                proof {
                    lemma_pow2_pos(k as nat);
                }
                s / p
            }
        }
    }

    /// The number as `i32`: rounded toward zero, saturating at the ends of
    /// the range, and 0 for NaN.
    pub fn to_i32(self) -> (r: i32)
        ensures
            r == self.as_i32(),
    {
        if self.is_nan() {
            return 0;
        }
        let w: u64 = self.whole_magnitude_capped();
        if self.bits >= 0x8000_0000 {
            if w >= 0x8000_0000 {
                i32::MIN
            } else {
                (0i64 - (w as i64)) as i32
            }
        } else {
            if w > 0x7fff_ffff {
                i32::MAX
            } else {
                w as i32
            }
        }
    }

    /// The number as `usize`: rounded toward zero, saturating at the ends of
    /// the range, and 0 for NaN.
    pub fn to_usize(self) -> (r: usize)
        ensures
            r == self.as_usize(),
    {
        if self.is_nan() {
            return 0;
        }
        if self.bits >= 0x8000_0000 {
            return 0;
        }
        let w: u64 = self.whole_magnitude_capped();
        if w >= usize::MAX as u64 {
            usize::MAX
        } else {
            w as usize
        }
    }

    /// The binary32 value nearest to `m`.
    fn from_magnitude(m: u64) -> (r: u32)
        ensures
            r == nearest_encoding(m as nat),
            r < 0x8000_0000,
    {
        if m == 0 {
            return 0;
        }
        let mut k: u32 = 0;
        let mut p: u64 = 1;
        proof {
            lemma2_to64();
        }
        while m / 2 >= p
            invariant
                p == pow2(k as nat),
                0 < p <= m,
                k <= 63,
                highest_bit(m as nat) == k + highest_bit((m / p) as nat),
                m / p >= 1,
            decreases m - p,
        {
            proof {
                lemma_pow2_unfold((k + 1) as nat);
                lemma_highest_bit_step(m as nat, p as nat);
                if k == 63 {
                    lemma2_to64_rest();
                }
            }
            p = p * 2;
            k = k + 1;
        }
        proof {
            assert(m / p == 1) by (nonlinear_arith)
                requires
                    p <= m,
                    m / 2 < p,
                    p > 0,
            ;
            assert(highest_bit(1) == 0);
            lemma2_to64();
            lemma2_to64_rest();
        }
        if k <= 23 {
            let scale: u64 = power_of_two(23 - k);
            proof {
                lemma_pow2_adds(k as nat, (23 - k) as nat);
                assert(m * scale >= p * scale) by (nonlinear_arith)
                    requires
                        m >= p,
                        scale >= 0,
                ;
                assert(m * scale < 2 * (p * scale)) by (nonlinear_arith)
                    requires
                        m / 2 < p,
                        scale > 0,
                        m >= 0,
                ;
            }
            let frac: u64 = m * scale - 0x80_0000;
            ((127 + k as u64) * 0x80_0000 + frac) as u32
        } else {
            let d: u64 = power_of_two(k - 23);
            proof {
                lemma_pow2_adds((k - 23) as nat, 23);
                lemma_pow2_pos((k - 23) as nat);
                assert(m / d >= 0x80_0000) by (nonlinear_arith)
                    requires
                        m >= d * 0x80_0000,
                        d > 0,
                ;
                assert(m / d < 0x100_0000) by (nonlinear_arith)
                    requires
                        m / 2 < d * 0x80_0000,
                        d > 0,
                        m >= 0,
                ;
            }
            let q: u64 = m / d;
            let r: u64 = m % d;
            let round_up: bool = r > d - r || (r == d - r && q % 2 == 1);
            let rounded: u64 = if round_up {
                q + 1
            } else {
                q
            };
            ((127 + k as u64) * 0x80_0000 + (rounded - 0x80_0000)) as u32
        }
    }

    /// The nearest number to `v`, ties going to the even significand.
    pub fn from_i32(v: i32) -> (r: Number)
        ensures
            r == Number::of_int(v as int),
    {
        if v < 0 {
            let m: u64 = (0i64 - (v as i64)) as u64;
            Number { bits: 0x8000_0000u32 + Number::from_magnitude(m) }
        } else {
            Number { bits: Number::from_magnitude(v as u64) }
        }
    }

    /// The nearest number to `v`, ties going to the even significand.
    pub fn from_u32(v: u32) -> (r: Number)
        ensures
            r == Number::of_int(v as int),
    {
        Number { bits: Number::from_magnitude(v as u64) }
    }

    /// The nearest number to `v`, ties going to the even significand.
    pub fn from_usize(v: usize) -> (r: Number)
        ensures
            r == Number::of_int(v as int),
    {
        Number { bits: Number::from_magnitude(v as u64) }
    }
}

/// 2 to the power `k`, for powers that fit comfortably in 64 bits.
fn power_of_two(k: u32) -> (p: u64)
    requires
        k <= 40,
    ensures
        p == pow2(k as nat),
        0 < p <= 0x100_0000_0000,
{
    let mut p: u64 = 1;
    let mut i: u32 = 0;
    proof {
        lemma2_to64();
        lemma2_to64_rest();
    }
    while i < k
        invariant
            i <= k <= 40,
            p == pow2(i as nat),
            pow2(40) == 0x100_0000_0000,
            0 < p <= 0x100_0000_0000,
        decreases k - i,
    {
        proof {
            lemma_pow2_unfold((i + 1) as nat);
            if i + 1 < 40 {
                lemma_pow2_strictly_increases((i + 1) as nat, 40);
            }
        }
        p = p * 2;
        i = i + 1;
    }
    p
}

proof fn lemma_highest_bit_step(m: nat, p: nat)
    requires
        p > 0,
        m / 2 >= p,
    ensures
        highest_bit(m / p) == 1 + highest_bit(m / (2 * p)),
        m / (2 * p) >= 1,
{
    assert(m / p >= 2) by (nonlinear_arith)
        requires
            p > 0,
            m / 2 >= p,
    ;
    assert((m / p) / 2 == m / (2 * p)) by (nonlinear_arith)
        requires
            p > 0,
    ;
}

/// The highest set bit of a positive number bounds it from both sides.
pub proof fn lemma_highest_bit_bounds(m: nat)
    requires
        m >= 1,
    ensures
        pow2(highest_bit(m)) <= m < 2 * pow2(highest_bit(m)),
    decreases m,
{
    lemma2_to64();
    if m >= 2 {
        lemma_highest_bit_bounds(m / 2);
        lemma_pow2_unfold(highest_bit(m));
    }
}

/// The fields of an encoding: the exponent has eight bits, the fraction
/// twenty-three, and the two make up the magnitude.
pub proof fn lemma_fields(n: Number)
    ensures
        n.exponent() <= 255,
        n.fraction() < 0x80_0000,
        n.magnitude() == n.exponent() * 0x80_0000 + n.fraction(),
        n.nan() <==> n.exponent() == 255 && n.fraction() > 0,
{
}

/// Only the two zeros have no units.
pub proof fn lemma_size_zero(n: Number)
    ensures
        n.size() == 0 <==> n.magnitude() == 0,
{
    lemma_fields(n);
    lemma_pow2_pos(n.scale());
    let s = n.significand() as int;
    let p = pow2(n.scale()) as int;
    assert(s * p == 0 <==> s == 0) by (nonlinear_arith)
        requires
            s >= 0,
            p > 0,
    ;
}

/// The larger magnitude stands for the larger absolute value.
pub proof fn lemma_size_grows(a: Number, b: Number)
    requires
        a.magnitude() < b.magnitude(),
    ensures
        a.size() < b.size(),
{
    lemma_fields(a);
    lemma_fields(b);
    let ea = a.exponent();
    let eb = b.exponent();
    let sa = a.significand() as int;
    let sb = b.significand() as int;
    let pa = pow2(a.scale()) as int;
    let pb = pow2(b.scale()) as int;
    lemma_pow2_pos(a.scale());
    lemma_pow2_pos(b.scale());
    if ea == eb {
        assert(sa * pa < sb * pb) by (nonlinear_arith)
            requires
                0 <= sa < sb,
                pa == pb,
                pa > 0,
        ;
    } else {
        assert(ea < eb);
        if ea == 0 {
            lemma2_to64();
            assert(sa * pa < sb * pb) by (nonlinear_arith)
                requires
                    0 <= sa < 0x80_0000,
                    pa == 1,
                    sb >= 0x80_0000,
                    pb >= 1,
            ;
        } else {
            lemma_pow2_unfold(ea);
            if ea < eb - 1 {
                lemma_pow2_strictly_increases(ea, (eb - 1) as nat);
            }
            let next = pow2(ea) as int;
            assert(sa * pa < sb * pb) by (nonlinear_arith)
                requires
                    0 <= sa < 0x100_0000,
                    sb >= 0x80_0000,
                    pa > 0,
                    next == 2 * pa,
                    next <= pb,
            ;
        }
    }
}

/// Comparing encodings by rank is comparing the values.
pub proof fn lemma_rank_orders(a: Number, b: Number)
    ensures
        a.rank() < b.rank() <==> a.units() < b.units(),
        a.rank() == b.rank() <==> a.units() == b.units(),
{
    lemma_size_zero(a);
    lemma_size_zero(b);
    if a.magnitude() < b.magnitude() {
        lemma_size_grows(a, b);
    } else if b.magnitude() < a.magnitude() {
        lemma_size_grows(b, a);
    } else {
        assert(a.exponent() == b.exponent());
        assert(a.fraction() == b.fraction());
    }
}

/// The whole part of the absolute value, from the fields: the significand
/// shifted up where the exponent is 150 or more, and down where it is less.
pub proof fn lemma_whole(n: Number)
    ensures
        n.whole_magnitude() == if n.exponent() >= 150 {
            n.significand() * pow2((n.exponent() - 150) as nat)
        } else {
            n.significand() / pow2((150 - n.exponent()) as nat)
        },
{
    lemma_fields(n);
    let e = n.exponent();
    let s = n.significand() as int;
    let unit = pow2(149) as int;
    lemma_pow2_pos(149);
    if e >= 150 {
        let up = pow2((e - 150) as nat) as int;
        lemma_pow2_adds((e - 150) as nat, 149);
        assert(n.size() == s * (up * unit));
        assert((s * (up * unit)) / unit == s * up) by (nonlinear_arith)
            requires
                unit > 0,
        ;
    } else if e >= 1 {
        let low = pow2((e - 1) as nat) as int;
        let down = pow2((150 - e) as nat) as int;
        lemma_pow2_adds((e - 1) as nat, (150 - e) as nat);
        lemma_pow2_pos((e - 1) as nat);
        lemma_pow2_pos((150 - e) as nat);
        assert(unit == low * down);
        lemma_div_multiples_vanish_quotient(low, s, down);
        assert(n.size() == s * low);
        assert(s * low == low * s) by (nonlinear_arith);
    } else {
        lemma2_to64();
        lemma_pow2_strictly_increases(23, 149);
        lemma_pow2_strictly_increases(23, 150);
        let down = pow2(150) as int;
        assert(n.size() == s * 1);
        assert(s / unit == 0) by (nonlinear_arith)
            requires
                0 <= s < 0x80_0000,
                unit > 0x80_0000,
        ;
        assert(s / down == 0) by (nonlinear_arith)
            requires
                0 <= s < 0x80_0000,
                down > 0x80_0000,
        ;
    }
}

/// An integer of fewer than 25 bits is a number exactly: the nearest number
/// to it is no NaN, has the integer for its value, and rounds toward zero to
/// the integer itself.
pub proof fn lemma_small_integer_is_exact(v: int)
    requires
        -0x100_0000 < v < 0x100_0000,
    ensures
        !Number::of_int(v).nan(),
        Number::of_int(v).units() == v * pow2(149),
        Number::of_int(v).truncation() == v,
        Number::of_int(v).zero() <==> v == 0,
        Number::of_int(v).bits == integer_encoding(v),
{
    let m: nat = if v < 0 {
        (-v) as nat
    } else {
        v as nat
    };
    let n = Number::of_int(v);
    let unit = pow2(149) as int;
    lemma_pow2_pos(149);
    lemma2_to64();
    if m > 0 {
        let k = highest_bit(m);
        lemma_highest_bit_bounds(m);
        if k > 24 {
            lemma_pow2_strictly_increases(24, k);
        }
        assert(k <= 23);
        let p = pow2((23 - k) as nat) as int;
        let hi = pow2(k) as int;
        lemma_pow2_adds(k, (23 - k) as nat);
        lemma_pow2_pos((23 - k) as nat);
        assert(hi * p == 0x80_0000);
        assert(m * p >= 0x80_0000) by (nonlinear_arith)
            requires
                m >= hi,
                hi * p == 0x80_0000,
                p > 0,
        ;
        assert(m * p < 0x100_0000) by (nonlinear_arith)
            requires
                m < 2 * hi,
                hi * p == 0x80_0000,
                p > 0,
        ;
        let f = m * p - 0x80_0000;
        let e = 127 + k;
        let enc = e * 0x80_0000 + f;
        assert(nearest_encoding(m) == enc);
        assert(0x3f80_0000 <= enc < 0x4b80_0000) by (nonlinear_arith)
            requires
                enc == e * 0x80_0000 + f,
                127 <= e <= 150,
                0 <= f < 0x80_0000,
        ;
        assert(n.magnitude() == enc);
        assert(enc / 0x80_0000 == e && enc % 0x80_0000 == f) by (nonlinear_arith)
            requires
                enc == e * 0x80_0000 + f,
                0 <= f < 0x80_0000,
        ;
        assert(n.exponent() == e);
        assert(n.significand() == m * p);
        let up = pow2((126 + k) as nat) as int;
        assert(n.scale() == 126 + k);
        lemma_pow2_adds((23 - k) as nat, (126 + k) as nat);
        assert(p * up == unit);
        assert(n.size() == (m * p) * up);
        assert((m * p) * up == m * unit) by (nonlinear_arith)
            requires
                p * up == unit,
        ;
        assert((m * unit) / unit == m) by (nonlinear_arith)
            requires
                unit > 0,
        ;
        assert(n.whole_magnitude() == m);
        assert(m * unit > 0) by (nonlinear_arith)
            requires
                m > 0,
                unit > 0,
        ;
        if v < 0 {
            assert(n.units() == -(m * unit));
            assert(v * unit == -(m * unit)) by (nonlinear_arith)
                requires
                    v == -m,
            ;
        }
    } else {
        assert(n.bits == 0);
        assert(n.exponent() == 0);
        assert(n.significand() == 0);
        assert(n.size() == 0) by (nonlinear_arith)
            requires
                n.size() == n.significand() * pow2(n.scale()),
                n.significand() == 0,
        ;
        assert(0int / unit == 0) by (nonlinear_arith)
            requires
                unit > 0,
        ;
        assert(v * unit == 0) by (nonlinear_arith)
            requires
                v == 0,
        ;
    }
}

/// The distance between neighbouring numbers around the natural number
/// `m`: 1 up to 24 bits, and a power of two that doubles with every further
/// bit.
pub open spec fn spacing(m: nat) -> nat {
    if highest_bit(m) <= 23 {
        1
    } else {
        pow2((highest_bit(m) - 23) as nat)
    }
}

/// The number chosen for a natural number is the nearest one. Its value is
/// a whole number `w`, a multiple of the spacing around `m`; `w` is at most
/// half a spacing from `m`; and where it is exactly half a spacing away,
/// the multiple is even.
pub proof fn lemma_nearest_is_nearest(m: nat)
    requires
        m < 0x1_0000_0000_0000_0000,
    ensures
        ({
            let n = Number { bits: nearest_encoding(m) as u32 };
            let w = n.whole_magnitude() as int;
            let gap = spacing(m) as int;
            &&& n.bits == nearest_encoding(m)
            &&& !n.nan()
            &&& !n.negative()
            &&& n.size() == w * pow2(149)
            &&& w % gap == 0
            &&& 2 * (w - m) <= gap
            &&& 2 * (m - w) <= gap
            &&& (2 * (w - m) == gap || 2 * (m - w) == gap) ==> (w / gap) % 2 == 0
        }),
{
    lemma2_to64();
    lemma2_to64_rest();
    let unit = pow2(149) as int;
    lemma_pow2_pos(149);
    if m == 0 || highest_bit(m) <= 23 {
        if m > 0 {
            lemma_highest_bit_bounds(m);
            assert(m < 0x100_0000);
        }
        lemma_small_integer_is_exact(m as int);
        let n = Number::of_int(m as int);
        assert(n.bits == nearest_encoding(m));
        assert(!n.negative());
        assert(n.size() == m * unit);
        assert((m * unit) / unit == m) by (nonlinear_arith)
            requires
                unit > 0,
        ;
        assert(n.whole_magnitude() == m);
        assert(spacing(m) == 1);
    } else {
        let k = highest_bit(m);
        lemma_highest_bit_bounds(m);
        if k > 64 {
            lemma_pow2_strictly_increases(64, k);
        }
        assert(k <= 63);
        let d = pow2((k - 23) as nat) as int;
        let hi = pow2(k) as int;
        lemma_pow2_adds((k - 23) as nat, 23);
        lemma_pow2_pos((k - 23) as nat);
        assert(hi == d * 0x80_0000);
        let q = m as int / d;
        let r = m as int % d;
        assert(m == q * d + r && 0 <= r < d) by (nonlinear_arith)
            requires
                q == m as int / d,
                r == m as int % d,
                d > 0,
        ;
        assert(q >= 0x80_0000) by (nonlinear_arith)
            requires
                m >= d * 0x80_0000,
                m == q * d + r,
                0 <= r < d,
        ;
        assert(q < 0x100_0000) by (nonlinear_arith)
            requires
                m < 2 * (d * 0x80_0000),
                m == q * d + r,
                0 <= r < d,
        ;
        let rounded = if 2 * r > d || (2 * r == d && q % 2 == 1) {
            q + 1
        } else {
            q
        };
        let enc = (127 + k) * 0x80_0000 + (rounded - 0x80_0000);
        assert(nearest_encoding(m) == enc);
        assert(0 < enc < 0x7f80_0000) by (nonlinear_arith)
            requires
                enc == (127 + k) * 0x80_0000 + (rounded - 0x80_0000),
                24 <= k <= 63,
                0x80_0000 <= rounded <= 0x100_0000,
        ;
        let n = Number { bits: enc as u32 };
        assert(n.magnitude() == enc);
        let up = pow2((126 + k) as nat) as int;
        lemma_pow2_adds((k - 23) as nat, 149);
        assert(up == d * unit);
        if rounded < 0x100_0000 {
            let e = 127 + k;
            let f = rounded - 0x80_0000;
            assert(enc / 0x80_0000 == e && enc % 0x80_0000 == f) by (nonlinear_arith)
                requires
                    enc == e * 0x80_0000 + f,
                    0 <= f < 0x80_0000,
            ;
            assert(n.exponent() == e);
            assert(n.significand() == rounded);
            assert(n.scale() == 126 + k);
            assert(n.size() == rounded * up);
        } else {
            let e = 128 + k;
            assert(enc == e * 0x80_0000);
            assert(enc / 0x80_0000 == e && enc % 0x80_0000 == 0) by (nonlinear_arith)
                requires
                    enc == e * 0x80_0000,
            ;
            assert(n.exponent() == e);
            assert(n.significand() == 0x80_0000);
            assert(n.scale() == 127 + k);
            lemma_pow2_unfold((127 + k) as nat);
            assert(pow2((127 + k) as nat) == 2 * up);
            assert(n.size() == 0x80_0000 * (2 * up));
            assert(0x80_0000 * (2 * up) == rounded * up) by (nonlinear_arith)
                requires
                    rounded == 0x100_0000,
            ;
        }
        let w = rounded * d;
        assert(n.size() == w * unit) by (nonlinear_arith)
            requires
                n.size() == rounded * up,
                up == d * unit,
                w == rounded * d,
        ;
        assert((w * unit) / unit == w) by (nonlinear_arith)
            requires
                unit > 0,
        ;
        assert(n.whole_magnitude() == w);
        assert(w % d == 0 && w / d == rounded) by (nonlinear_arith)
            requires
                w == rounded * d,
                d > 0,
        ;
        assert(w - m == (rounded - q) * d - r) by (nonlinear_arith)
            requires
                w == rounded * d,
                m == q * d + r,
        ;
        assert(spacing(m) == d);
        assert(n.bits == enc);
        assert(!n.nan());
        assert(!n.negative());
        if rounded == q {
            assert(w - m == -r) by (nonlinear_arith)
                requires
                    w - m == (rounded - q) * d - r,
                    rounded == q,
            ;
            assert(2 * r <= d);
            if 2 * r == d {
                assert(q % 2 == 0);
            }
        } else {
            assert(w - m == d - r) by (nonlinear_arith)
                requires
                    w - m == (rounded - q) * d - r,
                    rounded == q + 1,
            ;
            assert(2 * r >= d);
            if 2 * r == d {
                assert(q % 2 == 1);
                assert((q + 1) % 2 == 0);
            }
        }
        assert((w / d) == rounded);
    }
}

} // verus!
