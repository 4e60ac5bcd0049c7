//! Single-precision numbers, carried as their IEEE 754 bit patterns.
//!
//! The upscaler receives and stores single-precision values. Here such a value
//! is its bit pattern, and what the library decides about it is stated over the
//! number that the pattern stands for: an integer count of the smallest
//! positive single-precision number, 2^-149.

use vstd::arithmetic::div_mod::{
    lemma_div_is_ordered,
    lemma_fundamental_div_mod,
    lemma_fundamental_div_mod_converse,
};
use vstd::arithmetic::mul::{
    lemma_mul_inequality,
    lemma_mul_is_associative,
    lemma_mul_strict_inequality,
};
use vstd::arithmetic::power2::{
    lemma_pow2_adds,
    lemma_pow2_pos,
    lemma_pow2_strictly_increases,
    lemma_pow2_unfold,
    lemma2_to64,
    pow2,
};
use vstd::prelude::*;

verus! {

/// The sign bit of a bit pattern.
pub const SIGN_BIT: u32 = 0x8000_0000;

/// The bit pattern of positive infinity.
pub const INFINITY_BITS: u32 = 0x7f80_0000;

/// The bit pattern of the largest finite number.
pub const MAX_BITS: u32 = 0x7f7f_ffff;

/// The bit pattern of 1.0.
pub const ONE_BITS: u32 = 0x3f80_0000;

/// A single-precision number, as its bit pattern.
#[derive(Debug, Clone, Copy, PartialEq, Eq, Structural)]
pub struct F32 {
    /// Sign, exponent and fraction, from the highest bit to the lowest.
    pub bits: u32,
}

/// The number that an unsigned bit pattern stands for, in units of 2^-149.
///
/// Infinity counts as 2^128, one step above the largest finite number.
pub open spec fn scaled(magnitude: nat) -> nat {
    let exponent = magnitude / 0x80_0000nat;
    let fraction = magnitude % 0x80_0000nat;
    if exponent == 0 {
        fraction
    } else {
        (0x80_0000 + fraction) as nat * pow2((exponent - 1) as nat)
    }
}

/// `n / d`, rounded to the nearest integer, and to the even one of two that are equally near.
pub open spec fn round_half_even(n: nat, d: nat) -> nat {
    let q = n / d;
    let r = n % d;
    if 2 * r > d || (2 * r == d && q % 2 == 1) {
        q + 1
    } else {
        q
    }
}

/// The distance between neighbouring single-precision numbers around the integer `n`, or 1
/// where they lie closer together than that.
pub open spec fn spacing(n: nat) -> nat
    decreases n,
{
    if n < 0x100_0000 {
        1
    } else {
        2 * spacing(n / 2)
    }
}

/// The integer `n`, rounded to single precision.
pub open spec fn rounded(n: nat) -> nat {
    round_half_even(n, spacing(n)) * spacing(n)
}

/// What multiplies the numerator to bring a quotient to the exponent `k`.
pub open spec fn scale_up(k: int) -> nat {
    if k < 0 {
        pow2((-k) as nat)
    } else {
        1
    }
}

/// What multiplies the denominator to bring a quotient to the exponent `k`.
pub open spec fn scale_down(k: int) -> nat {
    if k > 0 {
        pow2(k as nat)
    } else {
        1
    }
}

/// Whether `n / d`, divided by `2^k`, has exactly 24 bits before the point.
pub open spec fn has_exponent(n: nat, d: nat, k: int) -> bool {
    0x80_0000 * (d * scale_down(k)) <= n * scale_up(k) < 0x100_0000 * (d * scale_down(
        k,
    ))
}

/// Whether `significand * 2^k` is `n / d`, rounded to single precision.
pub open spec fn is_rounded_quotient(n: nat, d: nat, significand: nat, k: int) -> bool {
    &&& has_exponent(n, d, k)
    &&& significand == round_half_even(n * scale_up(k), d * scale_down(k))
}

/// The exponent of 2 of `n / d` in single precision.
pub open spec fn quotient_exponent(n: nat, d: nat) -> int {
    choose|k: int| has_exponent(n, d, k)
}

/// The 24-bit significand of `n / d` in single precision.
pub open spec fn quotient_significand(n: nat, d: nat) -> nat {
    let k = quotient_exponent(n, d);
    round_half_even(n * scale_up(k), d * scale_down(k))
}

impl F32 {
    /// The bit pattern without its sign.
    pub open spec fn magnitude(self) -> nat {
        (self.bits % SIGN_BIT) as nat
    }

    /// Whether the value is not a number.
    pub open spec fn is_nan(self) -> bool {
        self.magnitude() > INFINITY_BITS
    }

    /// The value in units of 2^-149, where it is a number.
    pub open spec fn value(self) -> int {
        if self.bits >= SIGN_BIT {
            -(scaled(self.magnitude()) as int)
        } else {
            scaled(self.magnitude()) as int
        }
    }

    /// `self < other`: false where either is not a number.
    pub open spec fn is_less(self, other: F32) -> bool {
        !self.is_nan() && !other.is_nan() && self.value() < other.value()
    }

    /// `self <= other`: false where either is not a number.
    pub open spec fn is_at_most(self, other: F32) -> bool {
        !self.is_nan() && !other.is_nan() && self.value() <= other.value()
    }

    /// `self == other`: false where either is not a number.
    pub open spec fn is_same_number(self, other: F32) -> bool {
        !self.is_nan() && !other.is_nan() && self.value() == other.value()
    }

    /// The value without its sign.
    pub open spec fn without_sign(self) -> F32 {
        F32 { bits: (self.bits % SIGN_BIT) as u32 }
    }

    /// The value, but at least `low` and at most `high`. What is not a number stays so.
    pub open spec fn limited(self, low: F32, high: F32) -> F32 {
        if self.is_less(low) {
            low
        } else if high.is_less(self) {
            high
        } else {
            self
        }
    }

    /// The smaller of two values: the other one where one is not a number.
    pub open spec fn smaller(self, other: F32) -> F32 {
        if self.is_nan() || other.is_less(self) {
            other
        } else {
            self
        }
    }

    /// The larger of two values: the other one where one is not a number.
    pub open spec fn larger(self, other: F32) -> F32 {
        if self.is_nan() || self.is_less(other) {
            other
        } else {
            self
        }
    }

    /// Whether the value is the integer `n`.
    pub open spec fn is_integer(self, n: nat) -> bool {
        self.bits < INFINITY_BITS && self.value() == n * pow2(149)
    }

    /// Whether the value is `n / d`, where both are rounded to single precision before they are
    /// divided, and the quotient is rounded too.
    pub open spec fn is_ratio(self, n: nat, d: nat) -> bool {
        let exponent = quotient_exponent(rounded(n), rounded(d));
        &&& self.bits < INFINITY_BITS
        &&& exponent + 149 >= 0
        &&& self.value() == quotient_significand(rounded(n), rounded(d)) * pow2(
            (exponent + 149) as nat,
        )
    }

    /// The value with the given bit pattern.
    pub fn from_bits(bits: u32) -> (result: F32)
        ensures
            result.bits == bits,
    {
        F32 { bits }
    }

    /// 0.0
    pub fn zero() -> (result: F32)
        ensures
            result.bits == 0,
            !result.is_nan(),
            result.value() == 0,
    {
        F32 { bits: 0 }
    }

    /// 1.0
    pub fn one() -> (result: F32)
        ensures
            result.bits == ONE_BITS,
            !result.is_nan(),
            result.value() == pow2(149),
    {
        proof {
            lemma_one();
        }
        F32 { bits: ONE_BITS }
    }

    /// A signed integer that orders bit patterns as the numbers they stand for.
    fn order_key(self) -> (key: i64)
        ensures
            key == (if self.bits >= SIGN_BIT {
                -(self.magnitude() as int)
            } else {
                self.magnitude() as int
            }),
    {
        if self.bits >= SIGN_BIT {
            -((self.bits - SIGN_BIT) as i64)
        } else {
            self.bits as i64
        }
    }

    /// Whether the value is not a number.
    pub fn nan(self) -> (result: bool)
        ensures
            result == self.is_nan(),
    {
        self.bits % SIGN_BIT > INFINITY_BITS
    }

    /// `self < other`, as IEEE 754 orders them.
    pub fn lt(self, other: F32) -> (result: bool)
        ensures
            result == self.is_less(other),
    {
        proof {
            lemma_key_orders(self, other);
        }
        !self.nan() && !other.nan() && self.order_key() < other.order_key()
    }

    /// `self <= other`, as IEEE 754 orders them.
    pub fn le(self, other: F32) -> (result: bool)
        ensures
            result == self.is_at_most(other),
    {
        proof {
            lemma_key_orders(self, other);
            lemma_key_orders(other, self);
        }
        !self.nan() && !other.nan() && self.order_key() <= other.order_key()
    }

    /// `self == other`, as IEEE 754 compares them: both zeros are the same number.
    pub fn same_number(self, other: F32) -> (result: bool)
        ensures
            result == self.is_same_number(other),
    {
        proof {
            lemma_key_orders(self, other);
            lemma_key_orders(other, self);
        }
        !self.nan() && !other.nan() && self.order_key() == other.order_key()
    }

    /// The value without its sign.
    pub fn abs(self) -> (result: F32)
        ensures
            result == self.without_sign(),
            result.is_nan() == self.is_nan(),
            result.value() == (if self.value() < 0 {
                -self.value()
            } else {
                self.value()
            }),
    {
        F32 { bits: self.bits % SIGN_BIT }
    }

    /// The single-precision number nearest to `n`.
    pub fn from_u32(n: u32) -> (result: F32)
        ensures
            !result.is_nan(),
            result.bits < INFINITY_BITS,
            result.value() == rounded(n as nat) * pow2(149),
    {
        if n == 0 {
            proof {
                assert(spacing(0) == 1);
                assert(round_half_even(0, 1) == 0);
                assert(rounded(0) == 0) by (nonlinear_arith)
                    requires
                        rounded(0) == 0 * spacing(0),
                ;
                assert(0 * pow2(149) == 0);
            }
            return F32 { bits: 0 };
        }
        let (significand, k) = round_quotient(n as u64, 1);
        proof {
            lemma_integer_exponent(n as nat, significand as nat, k as int);
            lemma_assembled(significand as nat, k as int);
        }
        F32 { bits: 0x80_0000 * ((k + 150) as u32) + (significand - 0x80_0000) }
    }

    /// `n / d` in single precision.
    pub fn ratio(n: u32, d: u32) -> (result: F32)
        requires
            n > 0,
            d > 0,
        ensures
            result.is_ratio(n as nat, d as nat),
    {
        let numerator: u64 = round_integer(n);
        let denominator: u64 = round_integer(d);
        let (significand, k) = round_quotient(numerator, denominator);
        proof {
            lemma_quotient_exponent(numerator as nat, denominator as nat, k as int);
            lemma_assembled(significand as nat, k as int);
        }
        F32 { bits: 0x80_0000 * ((k + 150) as u32) + (significand - 0x80_0000) }
    }

    /// The value, but at least `low` and at most `high`.
    pub fn clamped(self, low: F32, high: F32) -> (result: F32)
        ensures
            result == self.limited(low, high),
    {
        if self.lt(low) {
            low
        } else if high.lt(self) {
            high
        } else {
            self
        }
    }

    /// The smaller of two values.
    pub fn min(self, other: F32) -> (result: F32)
        ensures
            result == self.smaller(other),
    {
        if self.nan() || other.lt(self) {
            other
        } else {
            self
        }
    }

    /// The larger of two values.
    pub fn max(self, other: F32) -> (result: F32)
        ensures
            result == self.larger(other),
    {
        if self.nan() || self.lt(other) {
            other
        } else {
            self
        }
    }
}

/// `n / d` rounded to single precision, as a 24-bit significand and an exponent of 2.
///
/// The significand is `0x100_0000` where the rounding carried.
pub fn round_quotient(n: u64, d: u64) -> (result: (u32, i32))
    requires
        0 < n <= 0x1_0000_0000_0000,
        0 < d <= 0x1_0000_0000_0000,
    ensures
        is_rounded_quotient(n as nat, d as nat, result.0 as nat, result.1 as int),
        0x80_0000 <= result.0 <= 0x100_0000,
        -72 <= result.1 <= 48,
{
    let mut num: u128 = n as u128;
    let mut den: u128 = d as u128;
    let mut k: i32 = 0;
    proof {
        lemma2_to64();
        assert(n * pow2(0) == n && d * pow2(0) == d) by (nonlinear_arith)
            requires
                pow2(0) == 1,
        ;
    }
    if num < 0x80_0000 * den {
        while num < 0x80_0000 * den
            invariant
                0 < n <= 0x1_0000_0000_0000,
                0 < d <= 0x1_0000_0000_0000,
                den == d,
                -72 <= k <= 0,
                num == n * pow2((-k) as nat),
                num >= pow2((-k) as nat),
                0 < num < 0x100_0000 * den,
            decreases 0x100_0000 * den - num,
        {
            proof {
                lemma_pow2_unfold((1 - k) as nat);
                assert(n * (2 * pow2((-k) as nat)) == 2 * (n * pow2((-k) as nat)))
                    by (nonlinear_arith);
                if k == -72 {
                    lemma_pow2_adds(64, 8);
                    lemma2_to64();
                    assert(pow2(72) == 0x1_0000_0000_0000_0000 * 0x100);
                }
            }
            num = num * 2;
            k = k - 1;
        }
    } else {
        while num >= 0x100_0000 * den
            invariant
                0 < n <= 0x1_0000_0000_0000,
                0 < d <= 0x1_0000_0000_0000,
                num == n,
                0 <= k <= 25,
                den == d * pow2(k as nat),
                den >= pow2(k as nat),
                0 < den <= 0x1_0000_0000_0000,
                num >= 0x80_0000 * den,
            decreases num - den,
        {
            proof {
                lemma_pow2_unfold((k + 1) as nat);
                assert(d * (2 * pow2(k as nat)) == 2 * (d * pow2(k as nat))) by (nonlinear_arith);
                if k == 25 {
                    lemma2_to64();
                }
            }
            den = den * 2;
            k = k + 1;
        }
    }
    let q: u128 = num / den;
    let r: u128 = num % den;
    proof {
        lemma_quotient_bounds(num as nat, den as nat);
        assert(d * scale_down(k as int) == den);
        assert(n * scale_up(k as int) == num);
    }
    let significand: u128 = if 2 * r > den || (2 * r == den && q % 2 == 1) {
        q + 1
    } else {
        q
    };
    (significand as u32, k)
}

/// The distance between neighbouring single-precision numbers around `n`, or 1.
fn spacing_around(n: u32) -> (result: u32)
    ensures
        result == spacing(n as nat),
        n < 0x100_0000 ==> result == 1,
        n >= 0x100_0000 ==> 2 <= result && 0x80_0000 * result <= n,
    decreases n,
{
    if n < 0x100_0000 {
        1
    } else {
        2 * spacing_around(n / 2)
    }
}

/// The integer `n`, rounded to single precision.
pub fn round_integer(n: u32) -> (result: u64)
    ensures
        result == rounded(n as nat),
        result <= 0x1_0000_0000,
        n > 0 ==> result > 0,
        n <= 0x8000_0000 ==> result <= 0x8000_0000,
{
    let gap: u32 = spacing_around(n);
    let q: u32 = n / gap;
    let r: u32 = n % gap;
    let count: u64 = if 2 * r > gap || (2 * r == gap && q % 2 == 1) {
        q as u64 + 1
    } else {
        q as u64
    };
    proof {
        lemma_rounded_bounds(n as nat);
        assert(count * gap == rounded(n as nat));
    }
    count * gap as u64
}

/// Rounding an integer of 32 bits yields a number of at most 32 bits, or the next power of 2.
pub proof fn lemma_rounded_bounds(n: nat)
    requires
        n < 0x1_0000_0000,
    ensures
        rounded(n) <= 0x1_0000_0000,
        n > 0 ==> rounded(n) > 0,
        n <= 0x8000_0000 ==> rounded(n) <= 0x8000_0000,
{
    reveal_with_fuel(spacing, 10);
    let gap = spacing(n);
    assert(gap == 1 || gap == 2 || gap == 4 || gap == 8 || gap == 16 || gap == 32 || gap == 64
        || gap == 128 || gap == 256);
    assert((0x1_0000_0000nat / gap) * gap == 0x1_0000_0000 && (0x8000_0000nat / gap) * gap
        == 0x8000_0000) by (nonlinear_arith)
        requires
            gap == 1 || gap == 2 || gap == 4 || gap == 8 || gap == 16 || gap == 32 || gap == 64
                || gap == 128 || gap == 256,
    ;
    lemma_round_below(n, gap, 0x1_0000_0000nat / gap);
    if n <= 0x8000_0000 {
        lemma_round_below(n, gap, 0x8000_0000nat / gap);
    }
    if n > 0 {
        lemma_div_is_ordered(gap as int, n as int, gap as int);
        lemma_fundamental_div_mod_converse(gap as int, gap as int, 1, 0);
        assert(round_half_even(n, gap) * gap >= 1) by (nonlinear_arith)
            requires
                round_half_even(n, gap) >= 1,
                gap >= 1,
        ;
    }
}

/// Rounding to a multiple of `gap` does not pass a multiple of `gap`.
proof fn lemma_round_below(n: nat, gap: nat, count: nat)
    requires
        gap > 0,
        n <= count * gap,
    ensures
        round_half_even(n, gap) <= count,
        round_half_even(n, gap) * gap <= count * gap,
{
    lemma_fundamental_div_mod(n as int, gap as int);
    let q = n / gap;
    if q >= count {
        assert(q * gap == gap * q) by (nonlinear_arith);
        lemma_mul_inequality(count as int, q as int, gap as int);
        if q > count {
            lemma_mul_inequality(count as int + 1, q as int, gap as int);
            assert((count + 1) * gap == count * gap + gap) by (nonlinear_arith);
        }
    }
    lemma_mul_inequality(round_half_even(n, gap) as int, count as int, gap as int);
}

/// A quotient with 24 bits before the point has a 24-bit integer part.
proof fn lemma_quotient_bounds(num: nat, den: nat)
    requires
        den > 0,
        0x80_0000 * den <= num < 0x100_0000 * den,
    ensures
        0x80_0000 <= num / den < 0x100_0000,
{
    lemma_fundamental_div_mod(num as int, den as int);
    let q = num / den;
    if q < 0x80_0000 {
        lemma_mul_inequality(q as int + 1, 0x80_0000int, den as int);
        assert((q + 1) * den == den * q + den) by (nonlinear_arith);
    }
    if q >= 0x100_0000 {
        lemma_mul_inequality(0x100_0000int, q as int, den as int);
        assert(q * den == den * q) by (nonlinear_arith);
    }
}

/// Larger unsigned bit patterns stand for larger numbers.
pub proof fn lemma_scaled_increases(a: nat, b: nat)
    requires
        a < b,
    ensures
        scaled(a) < scaled(b),
{
    let unit = 0x80_0000nat;
    let (ea, fa) = (a / unit, a % unit);
    let (eb, fb) = (b / unit, b % unit);
    lemma_div_is_ordered(a as int, b as int, unit as int);
    if eb > 0 {
        lemma_pow2_pos((eb - 1) as nat);
        let p = pow2((eb - 1) as nat);
        assert((unit + fb) * p >= unit * p) by (nonlinear_arith)
            requires
                p >= 0,
                fb >= 0,
        ;
        if ea == 0 {
            assert(unit * p >= unit) by (nonlinear_arith)
                requires
                    p >= 1,
                    unit >= 0,
            ;
        } else if ea == eb {
            lemma_mul_strict_inequality((unit + fa) as int, (unit + fb) as int, p as int);
        } else {
            let s = pow2((ea - 1) as nat);
            lemma_pow2_pos((ea - 1) as nat);
            lemma_pow2_unfold(ea);
            lemma_mul_strict_inequality((unit + fa) as int, 2 * unit as int, s as int);
            assert((2 * unit) * s == unit * (2 * s)) by (nonlinear_arith);
            if ea < eb - 1 {
                lemma_pow2_strictly_increases(ea, (eb - 1) as nat);
            }
            assert(unit * pow2(ea) <= unit * p) by (nonlinear_arith)
                requires
                    pow2(ea) <= p,
                    unit >= 0,
            ;
        }
    }
}

/// The signed bit patterns are ordered as the numbers they stand for.
pub proof fn lemma_key_orders(x: F32, y: F32)
    ensures
        ({
            let kx = if x.bits >= SIGN_BIT {
                -(x.magnitude() as int)
            } else {
                x.magnitude() as int
            };
            let ky = if y.bits >= SIGN_BIT {
                -(y.magnitude() as int)
            } else {
                y.magnitude() as int
            };
            (kx < ky) == (x.value() < y.value())
        }),
{
    let a = x.magnitude();
    let b = y.magnitude();
    if a < b {
        lemma_scaled_increases(a, b);
    }
    if b < a {
        lemma_scaled_increases(b, a);
    }
    if 0 < a {
        lemma_scaled_increases(0, a);
    }
    if 0 < b {
        lemma_scaled_increases(0, b);
    }
}

/// 1.0 is 2^149 times the smallest positive number.
pub proof fn lemma_one()
    ensures
        scaled(ONE_BITS as nat) == pow2(149),
{
    assert(ONE_BITS / 0x80_0000 == 127);
    assert(ONE_BITS % 0x80_0000 == 0);
    lemma2_to64();
    lemma_pow2_adds(23, 126);
}

/// The rounded quotient of an integer by 1 is that integer, rounded to single precision.
proof fn lemma_integer_exponent(n: nat, significand: nat, k: int)
    requires
        n > 0,
        n < 0x1_0000_0000,
        is_rounded_quotient(n, 1, significand, k),
    ensures
        -23 <= k <= 8,
        significand * pow2((k + 149) as nat) == rounded(n) * pow2(149),
{
    lemma2_to64();
    if k > 8 {
        if k > 9 {
            lemma_pow2_strictly_increases(9, k as nat);
        }
        assert(n * scale_up(k) == n);
        assert(false);
    }
    if k < -23 {
        if -k > 24 {
            lemma_pow2_strictly_increases(24, (-k) as nat);
        }
        assert(n * pow2((-k) as nat) >= pow2((-k) as nat)) by (nonlinear_arith)
            requires
                n >= 1,
        ;
        assert(false);
    }
    if k <= 0 {
        let p = pow2((-k) as nat);
        lemma_pow2_pos((-k) as nat);
        assert(scale_up(k) == p);
        assert(n < 0x100_0000) by (nonlinear_arith)
            requires
                n * p < 0x100_0000,
                p >= 1,
        ;
        assert((n * p) / 1 == n * p && (n * p) % 1 == 0);
        assert(significand == n * p);
        assert(spacing(n) == 1);
        assert(n / 1 == n && n % 1 == 0);
        assert(rounded(n) == n);
        lemma_pow2_adds((-k) as nat, (k + 149) as nat);
        lemma_mul_is_associative(n as int, p as int, pow2((k + 149) as nat) as int);
    } else {
        lemma_spacing(n, k as nat);
        lemma_pow2_adds(k as nat, 149);
        lemma_mul_is_associative(significand as int, pow2(k as nat) as int, pow2(149) as int);
    }
}

/// Integers of `24 + k` bits are `2^k` apart in single precision.
proof fn lemma_spacing(n: nat, k: nat)
    requires
        0x80_0000 * pow2(k) <= n < 0x100_0000 * pow2(k),
    ensures
        spacing(n) == pow2(k),
    decreases k,
{
    lemma2_to64();
    if k > 0 {
        lemma_pow2_unfold(k);
        let h = pow2((k - 1) as nat);
        lemma_pow2_pos((k - 1) as nat);
        assert(0x80_0000 * (2 * h) == 2 * (0x80_0000 * h));
        assert(0x100_0000 * (2 * h) == 2 * (0x100_0000 * h));
        assert(n >= 0x100_0000);
        lemma_spacing(n / 2, (k - 1) as nat);
    }
}

/// A significand and an exponent, put together, stand for their product.
proof fn lemma_assembled(significand: nat, k: int)
    requires
        0x80_0000 <= significand <= 0x100_0000,
        -149 <= k <= 100,
    ensures
        scaled((0x80_0000 * (k + 150) + (significand - 0x80_0000)) as nat)
            == significand * pow2((k + 149) as nat),
        0x80_0000 * (k + 150) + (significand - 0x80_0000) < INFINITY_BITS,
{
    let unit = 0x80_0000int;
    let bits = unit * (k + 150) + (significand - unit);
    if significand < 0x100_0000 {
        lemma_fundamental_div_mod_converse(bits, unit, k + 150, significand - unit);
    } else {
        lemma_fundamental_div_mod_converse(bits, unit, k + 151, 0);
        lemma_pow2_unfold((k + 150) as nat);
        assert(unit * (2 * pow2((k + 149) as nat)) == (2 * unit) * pow2((k + 149) as nat))
            by (nonlinear_arith);
    }
}

/// A quotient has one exponent only.
pub proof fn lemma_exponent_unique(n: nat, d: nat, j: int, k: int)
    requires
        d > 0,
        has_exponent(n, d, j),
        has_exponent(n, d, k),
    ensures
        j == k,
{
    if j < k {
        lemma_exponents_apart(n, d, j, k);
    } else if k < j {
        lemma_exponents_apart(n, d, k, j);
    }
}

/// No quotient has two exponents.
proof fn lemma_exponents_apart(n: nat, d: nat, j: int, k: int)
    requires
        d > 0,
        j < k,
        has_exponent(n, d, j),
    ensures
        !has_exponent(n, d, k),
{
    let gap = pow2((k - j) as nat);
    lemma_scale_step(j, k);
    lemma_pow2_pos((k - j) as nat);
    lemma_pow2_unfold((k - j) as nat);
    lemma_pow2_pos((k - j - 1) as nat);
    let (uj, dj, uk, dk) = (scale_up(j), scale_down(j), scale_up(k), scale_down(k));
    lemma_scale_pos(j);
    lemma_scale_pos(k);
    // Both sides of the bounds, over the common denominator `uj * uk`.
    assert((n * uj) * uk < (0x100_0000 * (d * dj)) * uk) by (nonlinear_arith)
        requires
            n * uj < 0x100_0000 * (d * dj),
            uk > 0,
    ;
    assert((n * uk) * uj == (n * uj) * uk) by (nonlinear_arith);
    assert((0x80_0000 * (d * dk)) * uj == (0x80_0000 * d) * (dk * uj)) by (nonlinear_arith);
    assert((0x100_0000 * (d * dj)) * uk == (0x100_0000 * d) * (dj * uk)) by (nonlinear_arith);
    assert(dk * uj >= 2 * (dj * uk)) by (nonlinear_arith)
        requires
            dk * uj == (dj * uk) * gap,
            gap >= 2,
    ;
    assert((0x80_0000 * d) * (dk * uj) >= (0x100_0000 * d) * (dj * uk)) by (nonlinear_arith)
        requires
            dk * uj >= 2 * (dj * uk),
    ;
    if has_exponent(n, d, k) {
        assert((0x80_0000 * (d * dk)) * uj <= (n * uk) * uj) by (nonlinear_arith)
            requires
                0x80_0000 * (d * dk) <= n * uk,
                uj > 0,
        ;
    }
}

/// The two scales are positive.
pub proof fn lemma_scale_pos(k: int)
    ensures
        scale_up(k) > 0,
        scale_down(k) > 0,
{
    if k < 0 {
        lemma_pow2_pos((-k) as nat);
    }
    if k > 0 {
        lemma_pow2_pos(k as nat);
    }
}

/// From one exponent to a larger one the scales differ by a power of 2.
proof fn lemma_scale_step(j: int, k: int)
    requires
        j < k,
    ensures
        scale_down(k) * scale_up(j) == (scale_down(j) * scale_up(k)) * pow2((k - j) as nat),
{
    lemma2_to64();
    let gap = pow2((k - j) as nat);
    let (uj, dj, uk, dk) = (scale_up(j), scale_down(j), scale_up(k), scale_down(k));
    if j >= 0 {
        lemma_pow2_adds(j as nat, (k - j) as nat);
        assert(dk * uj == (dj * uk) * gap) by (nonlinear_arith)
            requires
                uj == 1,
                uk == 1,
                dk == dj * gap,
        ;
    } else if k <= 0 {
        lemma_pow2_adds((-k) as nat, (k - j) as nat);
        assert(dk * uj == (dj * uk) * gap) by (nonlinear_arith)
            requires
                dj == 1,
                dk == 1,
                uj == uk * gap,
        ;
    } else {
        lemma_pow2_adds(k as nat, (-j) as nat);
        assert(dk * uj == (dj * uk) * gap) by (nonlinear_arith)
            requires
                dj == 1,
                uk == 1,
                dk * uj == gap,
        ;
    }
}

/// Any exponent that fits a quotient is the quotient's exponent.
pub proof fn lemma_quotient_exponent(n: nat, d: nat, k: int)
    requires
        d > 0,
        has_exponent(n, d, k),
    ensures
        quotient_exponent(n, d) == k,
        quotient_significand(n, d) == round_half_even(n * scale_up(k), d * scale_down(k)),
{
    let j = quotient_exponent(n, d);
    assert(has_exponent(n, d, j));
    lemma_exponent_unique(n, d, j, k);
}

/// `2^exponent`.
pub(crate) fn power_of_two(exponent: u32) -> (result: u64)
    requires
        exponent <= 32,
    ensures
        result == pow2(exponent as nat),
        1 <= result <= 0x1_0000_0000,
{
    let mut result: u64 = 1;
    let mut i: u32 = 0;
    proof {
        lemma2_to64();
    }
    while i < exponent
        invariant
            i <= exponent <= 32,
            result == pow2(i as nat),
            1 <= result <= 0x1_0000_0000,
        decreases exponent - i,
    {
        proof {
            lemma_pow2_unfold((i + 1) as nat);
            if i < 31 {
                lemma_pow2_strictly_increases((i + 1) as nat, 32);
            }
            lemma2_to64();
        }
        result = 2 * result;
        i = i + 1;
    }
    result
}

/// Rounding a quotient gives an integer that is off by at most half of the divisor, and the even
/// one of two that are equally near.
pub proof fn law_rounding_half_to_even(n: nat, d: nat)
    requires
        d > 0,
    ensures
        2 * (round_half_even(n, d) * d - n) <= d,
        2 * (n - round_half_even(n, d) * d) <= d,
        2 * (round_half_even(n, d) * d - n) == d || 2 * (n - round_half_even(n, d) * d) == d
            ==> round_half_even(n, d) % 2 == 0,
{
    lemma_fundamental_div_mod(n as int, d as int);
    let q = n / d;
    let r = n % d;
    let s = round_half_even(n, d);
    assert(s * d == q * d + (s - q) * d) by (nonlinear_arith);
    assert(q * d == d * q) by (nonlinear_arith);
    if s == q + 1 {
        assert((s - q) * d == d) by (nonlinear_arith)
            requires
                s - q == 1,
        ;
    } else {
        assert((s - q) * d == 0) by (nonlinear_arith)
            requires
                s - q == 0,
        ;
    }
}

} // verus!
