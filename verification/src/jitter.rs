//! The length of the sub-pixel jitter sequence.
//!
//! Temporal upscaling needs more jitter phases the more output pixels share one
//! rendered pixel. The count is computed in single precision, as the rest of
//! the upscaler's parameters are, and stated here over exact integers.

use crate::float::{
    has_exponent,
    lemma_rounded_bounds,
    lemma_scale_pos,
    lemma_quotient_exponent,
    power_of_two,
    quotient_exponent,
    quotient_significand,
    round_half_even,
    round_integer,
    round_quotient,
    rounded,
    scale_down,
    scale_up,
    spacing,
};
use vstd::arithmetic::div_mod::lemma_fundamental_div_mod;
use vstd::arithmetic::power2::{
    lemma_pow2_adds,
    lemma_pow2_pos,
    lemma_pow2_strictly_increases,
    lemma_pow2_unfold,
    lemma2_to64,
    pow2,
};
use vstd::prelude::*;

verus! {

/// The phase count at a ratio of 1:1.
pub const BASE_PHASE_COUNT: i32 = 8;

/// The absolute value of an integer.
pub open spec fn absolute(x: int) -> nat {
    if x < 0 {
        (-x) as nat
    } else {
        x as nat
    }
}

/// The integer part of `significand * 2^exponent`.
pub open spec fn integer_part(significand: nat, exponent: int) -> nat {
    if exponent >= 0 {
        significand * pow2(exponent as nat)
    } else {
        significand / pow2((-exponent) as nat)
    }
}

/// Eight times the square of `n / d`, without its fraction.
///
/// The quotient is rounded to single precision, and so is its square. Eight times that needs
/// no rounding.
pub open spec fn eightfold_square(n: nat, d: nat) -> nat {
    let significand = quotient_significand(n, d);
    let square = quotient_significand(significand * significand, 1);
    let exponent = quotient_exponent(significand * significand, 1) + 2 * quotient_exponent(n, d);
    integer_part(square, exponent + 3)
}

/// The number of jitter phases for the given render and display widths.
///
/// The widths are rounded to single precision first. Where the ratio is infinite, or its square
/// is too large, the count is the largest `i32`; where both widths are 0, there is no ratio and
/// the count is 0.
pub open spec fn phase_count(render_width: int, display_width: int) -> int {
    if display_width == 0 {
        0
    } else if render_width == 0 {
        i32::MAX as int
    } else {
        let count = eightfold_square(
            rounded(absolute(display_width)),
            rounded(absolute(render_width)),
        );
        if count > i32::MAX {
            i32::MAX as int
        } else {
            count as int
        }
    }
}

/// The absolute value of an `i32`, which may be one more than the largest `i32`.
fn magnitude(x: i32) -> (result: u32)
    ensures
        result == absolute(x as int),
        result <= 0x8000_0000,
{
    if x < 0 {
        (-(x as i64)) as u32
    } else {
        x as u32
    }
}

/// The integer part of `significand * 2^exponent`, or the largest `i32` where it is larger.
fn saturating_integer_part(significand: u32, exponent: i32) -> (result: i32)
    requires
        0x80_0000 <= significand <= 0x100_0000,
        -1000 <= exponent <= 1000,
    ensures
        result == (if integer_part(significand as nat, exponent as int) > i32::MAX {
            i32::MAX as int
        } else {
            integer_part(significand as nat, exponent as int) as int
        }),
{
    if exponent >= 8 {
        proof {
            lemma2_to64();
            if exponent > 8 {
                lemma_pow2_strictly_increases(8, exponent as nat);
            }
            assert(significand * pow2(exponent as nat) >= 0x80_0000 * 256) by (nonlinear_arith)
                requires
                    significand >= 0x80_0000,
                    pow2(exponent as nat) >= 256,
            ;
        }
        return i32::MAX;
    }
    if exponent >= 0 {
        let factor: u64 = power_of_two(exponent as u32);
        proof {
            lemma2_to64();
            lemma_pow2_strictly_increases(exponent as nat, 8);
            assert(significand * factor <= 0x100_0000 * 256) by (nonlinear_arith)
                requires
                    significand <= 0x100_0000,
                    factor <= 256,
            ;
        }
        let product: u64 = significand as u64 * factor;
        if product > i32::MAX as u64 {
            i32::MAX
        } else {
            product as i32
        }
    } else if exponent >= -32 {
        let divisor: u64 = power_of_two((-exponent) as u32);
        proof {
            assert(significand as u64 / divisor <= significand) by (nonlinear_arith)
                requires
                    divisor >= 1,
            ;
        }
        (significand as u64 / divisor) as i32
    } else {
        proof {
            lemma2_to64();
            lemma_pow2_strictly_increases(32, (-exponent) as nat);
            assert(significand as nat / pow2((-exponent) as nat) == 0) by (nonlinear_arith)
                requires
                    significand < pow2((-exponent) as nat),
            ;
        }
        0
    }
}

/// Return the number of jitter phases for the given render and display widths.
///
/// The phase count scales quadratically with the upscale ratio
/// (`display_width / render_width`), starting from a base of 8 at 1:1.
pub fn get_jitter_phase_count(render_width: i32, display_width: i32) -> (result: i32)
    ensures
        result == phase_count(render_width as int, display_width as int),
        result >= 0,
{
    if display_width == 0 {
        return 0;
    }
    if render_width == 0 {
        return i32::MAX;
    }
    let n: u64 = round_integer(magnitude(display_width));
    let d: u64 = round_integer(magnitude(render_width));
    let (significand, k) = round_quotient(n, d);
    proof {
        lemma_quotient_exponent(n as nat, d as nat, k as int);
        assert(0 < significand * significand <= 0x100_0000 * 0x100_0000) by (nonlinear_arith)
            requires
                0 < significand <= 0x100_0000,
        ;
    }
    let (square, j) = round_quotient(significand as u64 * significand as u64, 1);
    proof {
        lemma_quotient_exponent((significand * significand) as nat, 1, j as int);
    }
    saturating_integer_part(square, j + 2 * k + 3)
}

/// Integers of up to 24 bits, and 2^24, are single-precision numbers.
pub proof fn lemma_rounded_exact(n: nat)
    requires
        n <= 0x100_0000,
    ensures
        rounded(n) == n,
{
    reveal_with_fuel(spacing, 3);
    if n < 0x100_0000 {
        assert(spacing(n) == 1);
        assert(n / 1 == n && n % 1 == 0);
    } else {
        assert(spacing(n) == 2);
    }
}

/// The exponent of an integer of up to 24 bits.
proof fn lemma_small_exponent(n: nat) -> (k: int)
    requires
        0 < n < 0x100_0000,
    ensures
        -23 <= k <= 0,
        0x80_0000 <= n * pow2((-k) as nat) < 0x100_0000,
    decreases 0x100_0000 - n,
{
    lemma2_to64();
    if n >= 0x80_0000 {
        assert(n * pow2(0) == n);
        0
    } else {
        let j = lemma_small_exponent(2 * n);
        let p = pow2((-j) as nat);
        lemma_pow2_unfold((1 - j) as nat);
        assert(n * (2 * p) == (2 * n) * p) by (nonlinear_arith);
        if j == -23 {
            assert((2 * n) * p >= 2 * p) by (nonlinear_arith)
                requires
                    n >= 1,
            ;
        }
        j - 1
    }
}

/// A multiple of the divisor needs no rounding.
proof fn lemma_round_multiple(count: nat, d: nat)
    requires
        d > 0,
    ensures
        round_half_even(count * d, d) == count,
{
    vstd::arithmetic::div_mod::lemma_fundamental_div_mod_converse(
        (count * d) as int,
        d as int,
        count as int,
        0,
    );
}

/// Eight times the square of an integer ratio is exact.
proof fn lemma_eightfold_square_exact(width: nat, factor: nat)
    requires
        width > 0,
        0 < factor,
        factor * factor <= 0x100_0000,
    ensures
        eightfold_square(width * factor, width) == 8 * (factor * factor),
{
    lemma2_to64();
    assert(factor <= 4096) by (nonlinear_arith)
        requires
            factor * factor <= 0x100_0000,
    ;
    let k = lemma_small_exponent(factor);
    let a = (-k) as nat;
    let p = pow2(a);
    let m = factor * p;
    assert(scale_up(k) == p && scale_down(k) == 1);
    assert((width * factor) * p == m * width) by (nonlinear_arith)
        requires
            m == factor * p,
    ;
    assert(width * 1 == width);
    assert(0x80_0000 * width <= m * width < 0x100_0000 * width) by (nonlinear_arith)
        requires
            0x80_0000 <= m < 0x100_0000,
            width > 0,
    ;
    assert(has_exponent(width * factor, width, k));
    lemma_quotient_exponent(width * factor, width, k);
    lemma_round_multiple(m, width);
    assert(quotient_significand(width * factor, width) == m);

    let mm = m * m;
    assert(0x80_0000 * 0x80_0000 <= mm < 0x100_0000 * 0x100_0000) by (nonlinear_arith)
        requires
            0x80_0000 <= m < 0x100_0000,
            mm == m * m,
    ;
    let j: int = if mm < 0x100_0000 * 0x80_0000 {
        23
    } else {
        24
    };
    let q = pow2(j as nat);
    assert(1 * q == q && mm * 1 == mm);
    assert(has_exponent(mm, 1, j));
    lemma_quotient_exponent(mm, 1, j);
    let square = round_half_even(mm, q);
    let exponent = j - 2 * a;
    assert(quotient_significand(mm, 1) == square);
    assert(eightfold_square(width * factor, width) == integer_part(square, exponent + 3));

    let ff = factor * factor;
    lemma_pow2_adds(a, a);
    let pp = pow2(2 * a);
    assert(mm == ff * pp) by (nonlinear_arith)
        requires
            mm == m * m,
            m == factor * p,
            ff == factor * factor,
            pp == p * p,
    ;
    if exponent <= 0 {
        let rest = pow2((2 * a - j) as nat);
        lemma_pow2_adds((2 * a - j) as nat, j as nat);
        assert(mm == (ff * rest) * q) by (nonlinear_arith)
            requires
                mm == ff * pp,
                pp == rest * q,
        ;
        lemma_round_multiple(ff * rest, q);
        if exponent + 3 >= 0 {
            lemma_pow2_adds((2 * a - j) as nat, (exponent + 3) as nat);
            let up = pow2((exponent + 3) as nat);
            assert((ff * rest) * up == 8 * ff) by (nonlinear_arith)
                requires
                    rest * up == 8,
            ;
            assert(integer_part(square, exponent + 3) == 8 * ff);
        } else {
            let down = pow2((-(exponent + 3)) as nat);
            lemma_pow2_adds((-(exponent + 3)) as nat, 3);
            lemma_pow2_pos((-(exponent + 3)) as nat);
            assert(ff * rest == (8 * ff) * down) by (nonlinear_arith)
                requires
                    rest == down * 8,
            ;
            assert((8 * ff) * down == down * (8 * ff)) by (nonlinear_arith);
            vstd::arithmetic::div_mod::lemma_div_multiples_vanish((8 * ff) as int, down as int);
            assert(integer_part(square, exponent + 3) == 8 * ff);
        }
    } else {
        // Only the largest factor has a square of 25 bits.
        lemma_pow2_adds(2 * a, exponent as nat);
        let above = pow2(exponent as nat);
        lemma_pow2_unfold(exponent as nat);
        lemma_pow2_pos((exponent - 1) as nat);
        let half = pow2((exponent - 1) as nat);
        lemma_pow2_pos(2 * a);
        assert(0x80_0000 * above <= ff) by (nonlinear_arith)
            requires
                0x80_0000 * q <= mm,
                mm == ff * pp,
                q == pp * above,
                pp > 0,
        ;
        assert(half == 1);
        assert(exponent == 1) by {
            if exponent > 1 {
                lemma_pow2_strictly_increases(0, (exponent - 1) as nat);
            }
        }
        assert(ff == 0x100_0000);
        assert(mm == 0x80_0000 * q) by (nonlinear_arith)
            requires
                mm == 0x100_0000 * pp,
                q == pp * 2,
        ;
        lemma_round_multiple(0x80_0000, q);
        assert(square == 0x80_0000);
        assert(square * pow2((exponent + 3) as nat) == 0x80_0000 * 16) by (nonlinear_arith)
            requires
                square == 0x80_0000,
                pow2((exponent + 3) as nat) == 16,
        ;
        assert(integer_part(square, exponent + 3) == 8 * ff);
    }
}

/// At a ratio of 1:1 there are 8 phases, whatever the width.
pub proof fn law_base_phase_count(width: i32)
    requires
        width != 0,
    ensures
        phase_count(width as int, width as int) == BASE_PHASE_COUNT,
{
    let n = rounded(absolute(width as int));
    lemma_rounded_positive(absolute(width as int));
    lemma_eightfold_square_exact(n, 1);
    assert(n * 1 == n);
}

/// Rounding leaves a positive integer positive.
proof fn lemma_rounded_positive(n: nat)
    requires
        0 < n <= 0x8000_0000,
    ensures
        rounded(n) > 0,
{
    crate::float::lemma_rounded_bounds(n);
}

/// The phase count scales quadratically: an integer upscale ratio `factor` takes
/// `8 * factor^2` phases.
///
/// The display width and the square of the ratio are those that single precision holds exactly.
pub proof fn law_quadratic_phase_count(render_width: i32, factor: i32)
    requires
        0 < render_width,
        0 < factor,
        render_width * factor <= 0x100_0000,
        factor * factor <= 0x100_0000,
    ensures
        phase_count(render_width as int, render_width * factor) == 8 * (factor * factor),
{
    let width = render_width as nat;
    let ratio = factor as nat;
    assert(width <= width * ratio && 0 < width * ratio) by (nonlinear_arith)
        requires
            width > 0,
            ratio > 0,
    ;
    lemma_rounded_exact(width);
    lemma_rounded_exact(width * ratio);
    lemma_eightfold_square_exact(width, ratio);
}

/// Doubling the denominator often enough brings a quotient to 24 bits.
proof fn lemma_large_exponent(n: nat, d: nat) -> (k: int)
    requires
        d > 0,
        0x80_0000 * d <= n,
    ensures
        k >= 0,
        0x80_0000 * (d * pow2(k as nat)) <= n < 0x100_0000 * (d * pow2(k as nat)),
    decreases n - d,
{
    lemma2_to64();
    if n < 0x100_0000 * d {
        assert(d * pow2(0) == d) by (nonlinear_arith)
            requires
                pow2(0) == 1,
        ;
        0
    } else {
        let j = lemma_large_exponent(n, 2 * d);
        lemma_pow2_unfold((j + 1) as nat);
        let p = pow2(j as nat);
        assert(d * (2 * p) == (2 * d) * p) by (nonlinear_arith);
        j + 1
    }
}

/// Doubling the numerator often enough brings a quotient to 24 bits.
proof fn lemma_tiny_exponent(n: nat, d: nat) -> (k: int)
    requires
        n > 0,
        n < 0x100_0000 * d,
    ensures
        k <= 0,
        0x80_0000 * d <= n * pow2((-k) as nat) < 0x100_0000 * d,
    decreases 0x100_0000 * d - n,
{
    lemma2_to64();
    if n >= 0x80_0000 * d {
        assert(n * pow2(0) == n) by (nonlinear_arith)
            requires
                pow2(0) == 1,
        ;
        0
    } else {
        let j = lemma_tiny_exponent(2 * n, d);
        lemma_pow2_unfold((1 - j) as nat);
        let p = pow2((-j) as nat);
        assert(n * (2 * p) == (2 * n) * p) by (nonlinear_arith);
        j - 1
    }
}

/// Every quotient of positive integers has an exponent, and one of moderate size where they are.
proof fn lemma_exponent_exists(n: nat, d: nat)
    requires
        0 < n <= 0x1_0000_0000_0000,
        0 < d <= 0x1_0000_0000_0000,
    ensures
        has_exponent(n, d, quotient_exponent(n, d)),
        -100 <= quotient_exponent(n, d) <= 100,
{
    lemma2_to64();
    let k = if n >= 0x80_0000 * d {
        lemma_large_exponent(n, d)
    } else {
        lemma_tiny_exponent(n, d)
    };
    assert(n * 1 == n && d * 1 == d);
    assert(has_exponent(n, d, k)) by {
        if k == 0 {
            assert(pow2(0) == 1);
            assert(d * pow2(0) == d && n * pow2(0) == n) by (nonlinear_arith)
                requires
                    pow2(0) == 1,
            ;
        }
    }
    lemma_quotient_exponent(n, d, k);
    if k > 100 {
        lemma_pow2_strictly_increases(64, k as nat);
        assert(d * pow2(k as nat) >= pow2(k as nat)) by (nonlinear_arith)
            requires
                d >= 1,
        ;
    }
    if k < -100 {
        lemma_pow2_adds(64, 36);
        lemma_pow2_strictly_increases(32, 36);
        lemma_pow2_strictly_increases(100, (-k) as nat);
        assert(n * pow2((-k) as nat) >= pow2((-k) as nat)) by (nonlinear_arith)
            requires
                n >= 1,
        ;
        assert(pow2(100) >= 0x1_0000_0000_0000_0000 * 0x1_0000_0000) by (nonlinear_arith)
            requires
                pow2(100) == pow2(64) * pow2(36),
                pow2(64) == 0x1_0000_0000_0000_0000,
                pow2(36) >= 0x1_0000_0000,
        ;
    }
}

/// A quotient differs from what it is rounded to by at most one part in 2^24.
pub proof fn lemma_relative_error(n: nat, d: nat)
    requires
        0 < n <= 0x1_0000_0000_0000,
        0 < d <= 0x1_0000_0000_0000,
    ensures
        ({
            let k = quotient_exponent(n, d);
            let s = quotient_significand(n, d);
            let a = pow2(200);
            let b = pow2((k + 200) as nat);
            &&& -100 <= k <= 100
            &&& 0x80_0000 <= s <= 0x100_0000
            &&& 0xff_ffff * (s * (d * b)) <= 0x100_0000 * (n * a) <= 0x100_0001 * (s * (d * b))
        }),
{
    lemma_exponent_exists(n, d);
    let k = quotient_exponent(n, d);
    let s = quotient_significand(n, d);
    let a = pow2(200);
    let b = pow2((k + 200) as nat);
    let u = scale_up(k);
    let v = scale_down(k);
    let num = n * u;
    let den = d * v;
    lemma_scale_pos(k);
    assert(den > 0) by (nonlinear_arith)
        requires
            den == d * v,
            d > 0,
            v > 0,
    ;
    lemma_fundamental_div_mod(num as int, den as int);
    let q = num / den;
    let r = num % den;
    assert(0x80_0000 <= q < 0x100_0000) by (nonlinear_arith)
        requires
            num == den * q + r,
            0 <= r < den,
            0x80_0000 * den <= num < 0x100_0000 * den,
    ;
    // Rounding is off by at most half the denominator
    assert(2 * (s * den) <= 2 * num + den && 2 * num <= 2 * (s * den) + den) by (nonlinear_arith)
        requires
            num == den * q + r,
            0 <= r < den,
            (s == q && 2 * r <= den) || (s == q + 1 && 2 * r >= den),
    ;
    assert(0x100_0000 * den <= 2 * (s * den)) by (nonlinear_arith)
        requires
            2 * s >= 0x100_0000,
            den > 0,
    ;
    assert(0xff_ffff * (s * den) <= 0x100_0000 * num <= 0x100_0001 * (s * den));
    // Both scales at once
    assert(v * a == u * b) by {
        if k >= 0 {
            lemma_pow2_adds(k as nat, 200);
            lemma2_to64();
            assert(1 * b == b && v * a == b) by (nonlinear_arith)
                requires
                    b == pow2(k as nat) * a,
                    k > 0 ==> v == pow2(k as nat),
                    k == 0 ==> v == 1 && pow2(k as nat) == 1,
                    k >= 0,
            ;
        } else {
            lemma_pow2_adds((-k) as nat, (k + 200) as nat);
            assert(1 * a == a);
        }
    }
    assert((s * den) * a == (s * (d * b)) * u) by (nonlinear_arith)
        requires
            den == d * v,
            v * a == u * b,
    ;
    assert(num * a == (n * a) * u) by (nonlinear_arith)
        requires
            num == n * u,
    ;
    lemma_pow2_pos(200);
    let x = s * den;
    let y = s * (d * b);
    let z = n * a;
    assert(0xff_ffff * y <= 0x100_0000 * z <= 0x100_0001 * y) by (nonlinear_arith)
        requires
            0xff_ffff * x <= 0x100_0000 * num <= 0x100_0001 * x,
            x * a == y * u,
            num * a == z * u,
            a > 0,
            u > 0,
    ;
}

/// The integer part of a number, between it and the next integer, in units of 2^-600.
proof fn lemma_integer_part(significand: nat, exponent: int)
    requires
        -600 <= exponent,
    ensures
        ({
            let count = integer_part(significand, exponent);
            let unit = pow2(600);
            let value = significand * pow2((exponent + 600) as nat);
            count * unit <= value < (count + 1) * unit
        }),
{
    let count = integer_part(significand, exponent);
    let unit = pow2(600);
    lemma_pow2_pos(600);
    if exponent >= 0 {
        let p = pow2(exponent as nat);
        lemma_pow2_adds(exponent as nat, 600);
        assert(count * unit == significand * (p * unit) && count * unit < (count + 1) * unit)
            by (nonlinear_arith)
            requires
                count == significand * p,
                unit > 0,
        ;
    } else {
        let p = pow2((-exponent) as nat);
        let rest = pow2((exponent + 600) as nat);
        lemma_pow2_adds((-exponent) as nat, (exponent + 600) as nat);
        lemma_pow2_pos((-exponent) as nat);
        lemma_pow2_pos((exponent + 600) as nat);
        lemma_fundamental_div_mod(significand as int, p as int);
        let r = significand % p;
        assert(count * unit <= significand * rest < (count + 1) * unit) by (nonlinear_arith)
            requires
                unit == p * rest,
                significand == p * count + r,
                0 <= r < p,
                rest > 0,
        ;
    }
}

/// The phase count is eight times the square of the upscale ratio, without its fraction, up to
/// three roundings of one part in 2^24 each. Widths of more than 24 bits are rounded first, and
/// a count that does not fit is the largest `i32`.
pub proof fn law_phase_count_is_quadratic(render_width: i32, display_width: i32)
    requires
        render_width != 0,
        display_width != 0,
    ensures
        ({
            let r = rounded(absolute(render_width as int)) as int;
            let d = rounded(absolute(display_width as int)) as int;
            let count = phase_count(render_width as int, display_width as int);
            let e = 0x100_0000int;
            &&& count * (r * r) * ((e - 1) * (e - 1) * (e - 1)) <= 8 * (d * d) * (e * e * e)
            &&& count < i32::MAX ==> 8 * (d * d) * (e * e * e) < (count + 1) * (r * r) * ((e + 1) * (
            e + 1) * (e + 1))
        }),
{
    let n = rounded(absolute(display_width as int));
    let d = rounded(absolute(render_width as int));
    lemma_rounded_bounds(absolute(render_width as int));
    lemma_rounded_bounds(absolute(display_width as int));
    lemma_relative_error(n, d);
    let k = quotient_exponent(n, d);
    let s = quotient_significand(n, d);
    assert(0 < s * s <= 0x1_0000_0000_0000) by (nonlinear_arith)
        requires
            0 < s <= 0x100_0000,
    ;
    lemma_relative_error(s * s, 1);
    let j = quotient_exponent(s * s, 1);
    let t = quotient_significand(s * s, 1);
    let exponent = j + 2 * k + 3;
    let count = integer_part(t, exponent);
    let limited = phase_count(render_width as int, display_width as int);
    assert(limited == count || limited == i32::MAX && count > i32::MAX);
    lemma_integer_part(t, exponent);
    let a = pow2(200);
    let kk = pow2((k + 200) as nat);
    let jj = pow2((j + 200) as nat);
    lemma_pow2_pos(200);
    lemma_pow2_pos((k + 200) as nat);
    lemma_pow2_pos((j + 200) as nat);
    lemma_pow2_adds(200, 200);
    lemma_pow2_adds(400, 200);
    lemma_pow2_adds((k + 200) as nat, (k + 200) as nat);
    lemma_pow2_adds((2 * k + 400) as nat, (j + 200) as nat);
    lemma_pow2_adds((2 * k + j + 600) as nat, 3);
    lemma2_to64();
    lemma_three_roundings(
        0x100_0000,
        n as int,
        d as int,
        s as int,
        t as int,
        count as int,
        a as int,
        kk as int,
        jj as int,
    );
    assert(limited * (d * d) * (0xff_ffff * 0xff_ffff * 0xff_ffff) <= count * (d * d) * (0xff_ffff
        * 0xff_ffff * 0xff_ffff)) by (nonlinear_arith)
        requires
            0 <= limited <= count,
    ;
}

/// Squares of products, factor by factor.
proof fn lemma_square_factors(e: int, a: int, bound: int, s: int, x: int)
    ensures
        (e * ((s * s) * a)) * ((bound * bound) * (x * x)) == (e * a) * ((bound * (s * x)) * (bound
            * (s * x))),
{
    let sx = s * x;
    let ss = s * s;
    let xx = x * x;
    let bb = bound * bound;
    assert(sx * sx == ss * xx) by (nonlinear_arith)
        requires
            sx == s * x,
            ss == s * s,
            xx == x * x,
    ;
    assert((bound * sx) * (bound * sx) == bb * (sx * sx)) by (nonlinear_arith)
        requires
            bb == bound * bound,
    ;
    assert((e * (ss * a)) * (bb * xx) == (e * a) * (bb * (ss * xx))) by (nonlinear_arith);
}

/// How three relative errors add up.
proof fn lemma_three_roundings(
    e: int,
    n: int,
    d: int,
    s: int,
    t: int,
    count: int,
    a: int,
    k: int,
    j: int,
)
    requires
        e > 1,
        n > 0,
        d > 0,
        s > 0,
        t > 0,
        count >= 0,
        a > 0,
        k > 0,
        j > 0,
        (e - 1) * (s * (d * k)) <= e * (n * a) <= (e + 1) * (s * (d * k)),
        (e - 1) * (t * (1 * j)) <= e * ((s * s) * a) <= (e + 1) * (t * (1 * j)),
        count * ((a * a) * a) <= t * (((k * k) * j) * 8) < (count + 1) * ((a * a) * a),
    ensures
        count * (d * d) * ((e - 1) * (e - 1) * (e - 1)) <= 8 * (n * n) * (e * e * e),
        8 * (n * n) * (e * e * e) < (count + 1) * (d * d) * ((e + 1) * (e + 1) * (e + 1)),
{
    let sdk = s * (d * k);
    let na = n * a;
    let tj = t * j;
    let dk = d * k;
    let unit = (a * a) * a;
    assert(1 * j == j);
    assert(unit > 0) by (nonlinear_arith)
        requires
            unit == (a * a) * a,
            a > 0,
    ;
    assert(dk > 0 && sdk > 0 && na > 0 && tj > 0) by (nonlinear_arith)
        requires
            dk == d * k,
            sdk == s * (d * k),
            na == n * a,
            tj == t * j,
            d > 0,
            k > 0,
            s > 0,
            n > 0,
            a > 0,
            t > 0,
            j > 0,
    ;
    assert(t * (((k * k) * j) * 8) == 8 * (tj * (k * k))) by (nonlinear_arith)
        requires
            tj == t * j,
    ;
    // From above
    let low = e - 1;
    let first = (low * sdk) * (low * sdk);
    let second = (e * na) * (e * na);
    assert(low * sdk >= 0) by (nonlinear_arith)
        requires
            low >= 0,
            sdk >= 0,
    ;
    assert(first <= second) by (nonlinear_arith)
        requires
            first == (low * sdk) * (low * sdk),
            second == (e * na) * (e * na),
            0 <= low * sdk <= e * na,
    ;
    let weight = (low * low) * (dk * dk);
    assert(weight >= 0) by (nonlinear_arith)
        requires
            weight == (low * low) * (dk * dk),
    ;
    assert((low * tj) * weight <= (e * ((s * s) * a)) * weight) by (nonlinear_arith)
        requires
            low * tj <= e * ((s * s) * a),
            weight >= 0,
    ;
    lemma_square_factors(e, a, low, s, dk);
    assert((e * a) * first <= (e * a) * second) by (nonlinear_arith)
        requires
            first <= second,
            e > 0,
            a > 0,
    ;
    assert((e * a) * second == (n * n) * (e * e * e) * unit) by (nonlinear_arith)
        requires
            second == (e * na) * (e * na),
            na == n * a,
            unit == (a * a) * a,
    ;
    let cube = low * low * low;
    assert((low * tj) * weight == (d * d) * cube * (tj * (k * k))) by (nonlinear_arith)
        requires
            weight == (low * low) * (dk * dk),
            dk == d * k,
            cube == low * low * low,
    ;
    let left = count * (d * d) * cube;
    let right = 8 * (n * n) * (e * e * e);
    assert(left * unit <= right * unit) by (nonlinear_arith)
        requires
            left == count * (d * d) * cube,
            right == 8 * (n * n) * (e * e * e),
            count * unit <= 8 * (tj * (k * k)),
            (d * d) * cube * (tj * (k * k)) <= (n * n) * (e * e * e) * unit,
            (d * d) * cube >= 0,
    {
        assert(((d * d) * cube) * (count * unit) <= ((d * d) * cube) * (8 * (tj * (k * k))))
            by (nonlinear_arith)
            requires
                count * unit <= 8 * (tj * (k * k)),
                (d * d) * cube >= 0,
        ;
    }
    assert((d * d) * cube >= 0) by (nonlinear_arith)
        requires
            cube == low * low * low,
            low >= 0,
    ;
    assert(left <= right) by (nonlinear_arith)
        requires
            left * unit <= right * unit,
            unit > 0,
    ;
    // From below
    let high = e + 1;
    let third = (high * sdk) * (high * sdk);
    assert(second <= third) by (nonlinear_arith)
        requires
            second == (e * na) * (e * na),
            third == (high * sdk) * (high * sdk),
            0 <= e * na <= high * sdk,
    ;
    assert((e * a) * second <= (e * a) * third) by (nonlinear_arith)
        requires
            second <= third,
            e > 0,
            a > 0,
    ;
    let heavy = (high * high) * (dk * dk);
    assert(heavy > 0) by (nonlinear_arith)
        requires
            heavy == (high * high) * (dk * dk),
            high > 0,
            dk > 0,
    ;
    lemma_square_factors(e, a, high, s, dk);
    assert((e * ((s * s) * a)) * heavy <= (high * tj) * heavy) by (nonlinear_arith)
        requires
            e * ((s * s) * a) <= high * tj,
            heavy > 0,
    ;
    let big = high * high * high;
    assert((high * tj) * heavy == (d * d) * big * (tj * (k * k))) by (nonlinear_arith)
        requires
            heavy == (high * high) * (dk * dk),
            dk == d * k,
            big == high * high * high,
    ;
    let bound = (count + 1) * (d * d) * big;
    assert((d * d) * big > 0) by (nonlinear_arith)
        requires
            d > 0,
            high > 0,
            big == high * high * high,
    ;
    let factor = (d * d) * big;
    let middle = 8 * (tj * (k * k));
    assert(factor * middle < factor * ((count + 1) * unit)) by (nonlinear_arith)
        requires
            middle < (count + 1) * unit,
            factor > 0,
    ;
    assert(bound * unit == factor * ((count + 1) * unit)) by (nonlinear_arith)
        requires
            bound == (count + 1) * (d * d) * big,
            factor == (d * d) * big,
    ;
    assert(right * unit <= factor * middle) by (nonlinear_arith)
        requires
            right == 8 * (n * n) * (e * e * e),
            (n * n) * (e * e * e) * unit <= factor * (tj * (k * k)),
            middle == 8 * (tj * (k * k)),
    ;
    assert(right < bound) by (nonlinear_arith)
        requires
            right * unit < bound * unit,
            unit > 0,
    ;
}

/// Where there is nothing to display there are no phases, and where nothing is rendered there are
/// as many as can be counted; and it does not matter in which direction widths are counted.
pub proof fn law_phase_count_edges(render_width: i32, display_width: i32)
    ensures
        display_width == 0 ==> phase_count(render_width as int, display_width as int) == 0,
        display_width != 0 && render_width == 0 ==> phase_count(
            render_width as int,
            display_width as int,
        ) == 0x7fff_ffff,
        phase_count(-render_width as int, display_width as int) == phase_count(
            render_width as int,
            display_width as int,
        ),
        phase_count(render_width as int, -display_width as int) == phase_count(
            render_width as int,
            display_width as int,
        ),
        0 <= phase_count(render_width as int, display_width as int) <= 0x7fff_ffff,
{
}

} // verus!
