//! Constants of the sharpening pass.

use crate::constants::RcasConstants;
use crate::float::{
    lemma_scaled_increases,
    power_of_two,
    scaled,
    F32,
    INFINITY_BITS,
    SIGN_BIT,
};
use vstd::arithmetic::div_mod::lemma_fundamental_div_mod;
use vstd::arithmetic::power2::{
    lemma2_to64,
    lemma2_to64_rest,
    lemma_pow2_adds,
    lemma_pow2_pos,
    lemma_pow2_strictly_increases,
    lemma_pow2_unfold,
    pow2,
};
use vstd::prelude::*;

verus! {

/// The bit pattern of positive infinity in half precision.
pub const HALF_INFINITY_BITS: u16 = 0x7c00;

/// The sign bit of a half-precision bit pattern.
pub const HALF_SIGN_BIT: u16 = 0x8000;

/// The number that an unsigned half-precision bit pattern stands for, in units of 2^-24.
///
/// Infinity counts as 2^16, one step above the largest finite number.
pub open spec fn half_scaled(magnitude: nat) -> nat {
    let exponent = magnitude / 0x400nat;
    let fraction = magnitude % 0x400nat;
    if exponent == 0 {
        fraction
    } else {
        (0x400 + fraction) as nat * pow2((exponent - 1) as nat)
    }
}

/// How far the half-precision number with the unsigned pattern `half` is from `value`, in units
/// of 2^-149.
pub open spec fn half_distance(value: nat, half: nat) -> int {
    let difference = value - half_scaled(half) * pow2(125);
    if difference < 0 {
        -difference
    } else {
        difference
    }
}

/// Whether the unsigned half-precision pattern `half` is the one nearest to `value`, and the
/// even one where two are equally near.
pub open spec fn is_nearest_magnitude(value: nat, half: nat) -> bool {
    &&& half <= HALF_INFINITY_BITS
    &&& forall|other: nat|
        other <= HALF_INFINITY_BITS && other != half ==> {
            ||| half_distance(value, half) < #[trigger] half_distance(value, other)
            ||| half_distance(value, half) == half_distance(value, other) && half % 2 == 0
        }
}

/// Whether the half-precision bit pattern `half` is `x`, rounded to the nearest half-precision
/// number. The sign is kept, and what is not a number keeps the upper bits of its fraction and is
/// made quiet.
pub open spec fn is_nearest_half(x: F32, half: u16) -> bool {
    let magnitude = (half % HALF_SIGN_BIT) as nat;
    &&& half >= HALF_SIGN_BIT <==> x.bits >= SIGN_BIT
    &&& x.is_nan() ==> magnitude == 0x7e00 + x.magnitude() % 0x40_0000 / 0x2000
    &&& !x.is_nan() ==> is_nearest_magnitude(scaled(x.magnitude()), magnitude)
}

/// The half-precision pattern nearest to the number with the given unsigned bit pattern.
fn nearest_magnitude(magnitude: u32) -> (result: u16)
    requires
        magnitude <= INFINITY_BITS,
    ensures
        is_nearest_magnitude(scaled(magnitude as nat), result as nat),
{
    let ghost x = F32 { bits: magnitude };
    let exponent: u32 = magnitude / 0x80_0000;
    if exponent >= 143 {
        proof {
            lemma_too_large(x);
        }
        return HALF_INFINITY_BITS;
    }
    if exponent < 102 {
        proof {
            lemma_too_small(x);
        }
        return 0;
    }
    let significand: u32 = 0x80_0000 + magnitude % 0x80_0000;
    // The distance of neighbouring half-precision numbers, in steps of the significand
    let shift: u32 = if exponent >= 113 {
        13
    } else {
        126 - exponent
    };
    proof {
        lemma2_to64();
        lemma2_to64_rest();
        if shift < 24 {
            lemma_pow2_strictly_increases(shift as nat, 24);
        }
    }
    let step: u32 = power_of_two(shift) as u32;
    let q: u32 = significand / step;
    let r: u32 = significand % step;
    let below: u32 = if exponent >= 113 {
        (exponent - 113) * 0x400 + q
    } else {
        q
    };
    proof {
        lemma_step_bounds(significand as nat, shift as nat);
        lemma_bracketed(x, shift as nat, q as nat, r as nat, below as nat);
    }
    if 2 * r > step || (2 * r == step && q % 2 == 1) {
        (below + 1) as u16
    } else {
        below as u16
    }
}

/// The bit pattern of `x`, rounded to half precision.
fn half_from_single(x: F32) -> (result: u16)
    ensures
        is_nearest_half(x, result),
{
    let magnitude: u32 = x.bits % SIGN_BIT;
    let half: u16 = if magnitude > INFINITY_BITS {
        0x7e00 + (magnitude % 0x40_0000 / 0x2000) as u16
    } else {
        nearest_magnitude(magnitude)
    };
    if x.bits >= SIGN_BIT {
        half + HALF_SIGN_BIT
    } else {
        half
    }
}

/// `bytemuck::cast` from two 16-bit words to one of 32 bits: the same bytes in memory, so that
/// which of the two words is the lower half depends on the machine's byte order.
#[verifier::external_body]
fn cast_pair(pair: [u16; 2]) -> (result: u32)
    ensures
        result == pair[0] + 0x1_0000 * pair[1] || result == pair[1] + 0x1_0000 * pair[0],
{
    bytemuck::cast(pair)
}

/// Pack two single-precision values into a single word as half-precision values.
fn pack_half_2x16(values: [F32; 2]) -> (result: u32)
    ensures
        ({
            let low = (result % 0x1_0000) as u16;
            let high = (result / 0x1_0000) as u16;
            ||| is_nearest_half(values[0], low) && is_nearest_half(values[1], high)
            ||| is_nearest_half(values[1], low) && is_nearest_half(values[0], high)
        }),
{
    let half0: u16 = half_from_single(values[0]);
    let half1: u16 = half_from_single(values[1]);
    cast_pair([half0, half1])
}

/// Setup required constant values for RCAS.
///
/// `sharpness_linear` is 2^-n, where n is the number of stops (halvings) by which sharpness is
/// reduced: 1.0 is maximum sharpness.
pub fn populate_rcas_constants(sharpness_linear: F32) -> (result: RcasConstants)
    ensures
        result.rcas_config[0] == sharpness_linear.bits,
        is_nearest_half(sharpness_linear, (result.rcas_config[1] % 0x1_0000) as u16),
        is_nearest_half(sharpness_linear, (result.rcas_config[1] / 0x1_0000) as u16),
        result.rcas_config[2] == 0,
        result.rcas_config[3] == 0,
{
    let h_sharp: [F32; 2] = [sharpness_linear, sharpness_linear];
    RcasConstants { rcas_config: [sharpness_linear.bits, pack_half_2x16(h_sharp), 0, 0] }
}

/// Rounding a number to half precision has one result.
pub proof fn law_nearest_half_unique(x: F32, a: u16, b: u16)
    requires
        is_nearest_half(x, a),
        is_nearest_half(x, b),
    ensures
        a == b,
{
    let m = (a % HALF_SIGN_BIT) as nat;
    let n = (b % HALF_SIGN_BIT) as nat;
    if !x.is_nan() && m != n {
        assert(half_distance(scaled(x.magnitude()), m) <= half_distance(scaled(x.magnitude()), n));
        assert(half_distance(scaled(x.magnitude()), n) <= half_distance(scaled(x.magnitude()), m));
        assert(m % 2 == 0 && n % 2 == 0);
        lemma_even_neighbours(x, m, n);
    }
}

/// Of two patterns that are equally near, one lies between them, or one of them is odd.
proof fn lemma_even_neighbours(x: F32, m: nat, n: nat)
    requires
        !x.is_nan(),
        m <= HALF_INFINITY_BITS,
        n <= HALF_INFINITY_BITS,
        m != n,
        m % 2 == 0,
        n % 2 == 0,
        half_distance(scaled(x.magnitude()), m) == half_distance(scaled(x.magnitude()), n),
    ensures
        exists|other: nat|
            other <= HALF_INFINITY_BITS && other != m && #[trigger] half_distance(scaled(x.magnitude()), other)
                < half_distance(scaled(x.magnitude()), m),
{
    let low = if m < n {
        m
    } else {
        n
    };
    let high = if m < n {
        n
    } else {
        m
    };
    lemma_half_scaled_increases(low, low + 1);
    lemma_half_scaled_increases(low + 1, high);
    let x0 = half_scaled(low);
    let x1 = half_scaled(low + 1);
    let x2 = half_scaled(high);
    let unit = pow2(125);
    lemma_pow2_pos(125);
    assert(x0 * unit < x1 * unit < x2 * unit) by (nonlinear_arith)
        requires
            x0 < x1 < x2,
            unit > 0,
    ;
    assert(half_distance(scaled(x.magnitude()), low + 1) < half_distance(scaled(x.magnitude()), low));
}

/// From 2^16 on, infinity is nearest.
proof fn lemma_too_large(x: F32)
    requires
        143 * 0x80_0000 <= x.bits <= INFINITY_BITS,
    ensures
        is_nearest_magnitude(scaled(x.magnitude()), HALF_INFINITY_BITS as nat),
{
    let n = HALF_INFINITY_BITS as nat;
    let unit = pow2(125);
    lemma_pow2_pos(125);
    assert(x.magnitude() == x.bits);
    if x.bits > 143 * 0x80_0000 {
        lemma_scaled_increases((143 * 0x80_0000) as nat, x.bits as nat);
    }
    assert(scaled((143 * 0x80_0000) as nat) == 0x80_0000 * pow2(142));
    assert(n / 0x400 == 31 && n % 0x400 == 0);
    assert(half_scaled(n) == 0x400 * pow2(30));
    lemma_pow2_adds(13, 129);
    lemma_pow2_adds(30, 99);
    lemma_pow2_adds(26, 99);
    lemma_pow2_adds(30, 125);
    lemma_pow2_adds(13, 142);
    lemma2_to64();
    assert(half_scaled(n) * unit == 0x80_0000 * pow2(142)) by (nonlinear_arith)
        requires
            half_scaled(n) == 0x400 * pow2(30),
            unit == pow2(125),
            pow2(155) == pow2(30) * pow2(125),
            pow2(155) == pow2(13) * pow2(142),
            pow2(13) == 0x2000,
    ;
    assert forall|other: nat| other <= n && other != n implies half_distance(scaled(x.magnitude()), n)
        < #[trigger] half_distance(scaled(x.magnitude()), other) by {
        lemma_half_scaled_increases(other, n);
        assert(half_scaled(other) * unit < half_scaled(n) * unit) by (nonlinear_arith)
            requires
                half_scaled(other) < half_scaled(n),
                unit > 0,
        ;
    }
}

/// Below 2^-25, zero is nearest.
proof fn lemma_too_small(x: F32)
    requires
        x.bits < 102 * 0x80_0000,
    ensures
        is_nearest_magnitude(scaled(x.magnitude()), 0),
{
    let unit = pow2(125);
    lemma_pow2_pos(125);
    assert(x.magnitude() == x.bits);
    lemma_scaled_increases(x.bits as nat, (102 * 0x80_0000) as nat);
    assert(scaled((102 * 0x80_0000) as nat) == 0x80_0000 * pow2(101));
    lemma_pow2_adds(23, 101);
    lemma_pow2_unfold(125);
    lemma2_to64();
    assert(pow2(23) == 0x80_0000);
    assert(2 * scaled(x.magnitude()) < unit);
    assert(half_scaled(0) == 0);
    assert(0 * unit == 0);
    assert forall|other: nat| other <= HALF_INFINITY_BITS && other != 0 implies half_distance(scaled(x.magnitude()), 0)
        < #[trigger] half_distance(scaled(x.magnitude()), other) by {
        lemma_half_scaled_increases(0, other);
        assert(half_scaled(other) * unit >= unit) by (nonlinear_arith)
            requires
                half_scaled(other) >= 1,
        ;
    }
}

/// Splitting a significand into steps of `2^shift`.
proof fn lemma_step_bounds(significand: nat, shift: nat)
    requires
        0x80_0000 <= significand < 0x100_0000,
        13 <= shift <= 24,
    ensures
        shift == 13 ==> 0x400 <= significand / pow2(shift) < 0x800,
        shift > 13 ==> significand / pow2(shift) < 0x400,
{
    lemma2_to64();
    lemma2_to64_rest();
    assert(pow2(13) == 0x2000);
    if shift > 13 {
        if shift > 14 {
            lemma_pow2_strictly_increases(14, shift);
        }
        let step = pow2(shift);
        assert(pow2(14) == 0x4000);
        assert(significand / step < 0x400) by (nonlinear_arith)
            requires
                significand < 0x100_0000,
                step >= 0x4000,
        ;
    }
}

/// A number between two neighbouring half-precision numbers is rounded to the nearer one.
proof fn lemma_bracketed(x: F32, shift: nat, q: nat, r: nat, below: nat)
    requires
        102 * 0x80_0000 <= x.bits < 143 * 0x80_0000,
        shift == (if x.bits / 0x80_0000 >= 113 {
            13
        } else {
            126 - x.bits / 0x80_0000
        }),
        q == (0x80_0000 + x.bits % 0x80_0000) as nat / pow2(shift),
        r == (0x80_0000 + x.bits % 0x80_0000) as nat % pow2(shift),
        below == (if x.bits / 0x80_0000 >= 113 {
            (x.bits / 0x80_0000 - 113) * 0x400 + q
        } else {
            q as int
        }),
    ensures
        below < HALF_INFINITY_BITS,
        2 * r > pow2(shift) || (2 * r == pow2(shift) && q % 2 == 1) ==> is_nearest_magnitude(
            scaled(x.magnitude()),
            below + 1,
        ),
        !(2 * r > pow2(shift) || (2 * r == pow2(shift) && q % 2 == 1)) ==> is_nearest_magnitude(
            scaled(x.magnitude()),
            below,
        ),
{
    let exponent = (x.bits / 0x80_0000) as nat;
    let significand = (0x80_0000 + x.bits % 0x80_0000) as nat;
    let step = pow2(shift);
    let small = pow2((exponent - 1) as nat);
    let unit = pow2(125);
    lemma_pow2_pos(shift);
    lemma_pow2_pos((exponent - 1) as nat);
    lemma_pow2_pos(125);
    lemma_step_bounds(significand, shift);
    lemma_fundamental_div_mod(significand as int, step as int);
    assert(x.magnitude() == x.bits);
    assert(scaled(x.magnitude()) == significand * small);
    // Both neighbours, in steps of the number's significand
    assert(half_scaled(below) * unit == q * (step * small) && half_scaled(below + 1) * unit == (q
        + 1) * (step * small)) by {
        if exponent >= 113 {
            let scale = pow2((exponent - 113) as nat);
            lemma_half_parts((exponent - 113) as nat, q);
            lemma_half_parts((exponent - 113) as nat, q + 1);
            lemma_pow2_adds((exponent - 113) as nat, 125);
            lemma_pow2_adds(13, (exponent - 1) as nat);
            assert(q * scale * unit == q * (step * small) && (q + 1) * scale * unit == (q + 1) * (
            step * small)) by (nonlinear_arith)
                requires
                    scale * unit == step * small,
            ;
        } else {
            lemma_pow2_adds(shift, (exponent - 1) as nat);
            lemma2_to64();
            assert(step * small == unit);
            assert(half_scaled(below) == q);
            assert(half_scaled(below + 1) == q + 1) by {
                if q + 1 == 0x400 {
                    assert(0x400 * pow2(0) == 0x400) by (nonlinear_arith)
                        requires
                            pow2(0) == 1,
                    ;
                }
            }
        }
    }
    let value = scaled(x.magnitude());
    let low = half_scaled(below) * unit;
    let high = half_scaled(below + 1) * unit;
    assert(value - low == r * small && high - value == (step - r) * small && small > 0)
        by (nonlinear_arith)
        requires
            value == significand * small,
            significand == step * q + r,
            low == q * (step * small),
            high == (q + 1) * (step * small),
            small > 0,
    ;
    assert(r * small < (step - r) * small <==> 2 * r < step) by (nonlinear_arith)
        requires
            small > 0,
    ;
    assert(r * small == (step - r) * small <==> 2 * r == step) by (nonlinear_arith)
        requires
            small > 0,
    ;
    assert(0 <= r * small && 0 < (step - r) * small) by (nonlinear_arith)
        requires
            small > 0,
            0 <= r < step,
    ;
    assert forall|other: nat| other < below implies half_distance(scaled(x.magnitude()), below)
        < #[trigger] half_distance(scaled(x.magnitude()), other) by {
        lemma_half_scaled_increases(other, below);
        assert(half_scaled(other) * unit < half_scaled(below) * unit) by (nonlinear_arith)
            requires
                half_scaled(other) < half_scaled(below),
                unit > 0,
        ;
    }
    assert forall|other: nat| other > below + 1 implies half_distance(scaled(x.magnitude()), below + 1)
        < #[trigger] half_distance(scaled(x.magnitude()), other) by {
        lemma_half_scaled_increases(below + 1, other);
        assert(half_scaled(below + 1) * unit < half_scaled(other) * unit) by (nonlinear_arith)
            requires
                half_scaled(below + 1) < half_scaled(other),
                unit > 0,
        ;
    }
    assert(half_distance(scaled(x.magnitude()), below) == r * small);
    assert(half_distance(scaled(x.magnitude()), below + 1) == (step - r) * small);
    assert(below % 2 == q % 2);
}

/// The pattern with the given exponent and significand, where the significand may have carried.
proof fn lemma_half_parts(exponent: nat, significand: nat)
    requires
        0x400 <= significand <= 0x800,
    ensures
        half_scaled(exponent * 0x400 + significand) == significand * pow2(exponent),
{
    let pattern = exponent * 0x400 + significand;
    if significand < 0x800 {
        assert(pattern / 0x400 == exponent + 1 && pattern % 0x400 == significand - 0x400);
    } else {
        assert(pattern / 0x400 == exponent + 2 && pattern % 0x400 == 0);
        lemma_pow2_unfold(exponent + 1);
        assert(0x400 * (2 * pow2(exponent)) == 0x800 * pow2(exponent)) by (nonlinear_arith);
    }
}

/// Half-precision patterns are ordered as the numbers they stand for.
proof fn lemma_half_scaled_increases(a: nat, b: nat)
    requires
        a < b,
    ensures
        half_scaled(a) < half_scaled(b),
    decreases b - a,
{
    if a + 1 < b {
        lemma_half_scaled_increases(a, (b - 1) as nat);
        lemma_half_scaled_increases((b - 1) as nat, b);
    } else {
        let exponent = a / 0x400;
        let fraction = a % 0x400;
        lemma2_to64();
        if fraction + 1 < 0x400 {
            assert(b / 0x400 == exponent && b % 0x400 == fraction + 1);
            if exponent > 0 {
                let unit = pow2((exponent - 1) as nat);
                lemma_pow2_pos((exponent - 1) as nat);
                assert((0x400 + fraction) * unit < (0x400 + fraction + 1) * unit)
                    by (nonlinear_arith)
                    requires
                        unit > 0,
                ;
            }
        } else {
            assert(b / 0x400 == exponent + 1 && b % 0x400 == 0);
            if exponent > 0 {
                let unit = pow2((exponent - 1) as nat);
                lemma_pow2_pos((exponent - 1) as nat);
                lemma_pow2_unfold(exponent);
                assert((0x400 + 0x3ff) * unit < 0x400 * (2 * unit)) by (nonlinear_arith)
                    requires
                        unit > 0,
                ;
            } else {
                assert(0x400 * pow2(0) == 0x400) by (nonlinear_arith)
                    requires
                        pow2(0) == 1,
                ;
            }
        }
    }
}

/// Of two half-precision numbers that are equally near, the one with the even pattern is taken.
pub proof fn law_ties_go_to_even(x: F32, half: u16, other: nat)
    requires
        !x.is_nan(),
        is_nearest_half(x, half),
        other <= 0x7c00,
        other != half % 0x8000,
        half_distance(scaled(x.magnitude()), (half % 0x8000) as nat) == half_distance(
            scaled(x.magnitude()),
            other,
        ),
    ensures
        half % 2 == 0,
{
}

/// No half-precision number is nearer than the one taken, the sign is kept, and what is not a
/// number stays so.
pub proof fn law_nothing_is_nearer(x: F32, half: u16, other: nat)
    requires
        is_nearest_half(x, half),
        other <= 0x7c00,
    ensures
        half / 0x8000 == x.bits / 0x8000_0000,
        x.magnitude() > 0x7f80_0000 <==> half % 0x8000 > 0x7c00,
        x.magnitude() <= 0x7f80_0000 ==> half_distance(
            scaled(x.magnitude()),
            (half % 0x8000) as nat,
        ) <= half_distance(scaled(x.magnitude()), other),
        // It is made quiet, and keeps the upper bits of what else it holds
        x.magnitude() > 0x7f80_0000 ==> half % 0x400 >= 0x200 && half % 0x200 == x.magnitude()
            % 0x40_0000 / 0x2000,
{
}

/// A number that half precision can hold is kept: exponent and fraction move to their places in
/// the shorter pattern, with 112 less in the exponent.
pub proof fn law_exact_halves(exponent: nat, fraction: nat, half: u16)
    requires
        1 <= exponent <= 30,
        fraction < 0x400,
        is_nearest_half(
            F32 { bits: ((exponent + 112) * 0x80_0000 + fraction * 0x2000) as u32 },
            half,
        ),
    ensures
        half == exponent * 0x400 + fraction,
{
    let x = F32 { bits: ((exponent + 112) * 0x80_0000 + fraction * 0x2000) as u32 };
    let m = exponent * 0x400 + fraction;
    assert((exponent + 112) * 0x80_0000 + fraction * 0x2000 < 0x7f80_0000);
    assert(x.magnitude() == (exponent + 112) * 0x80_0000 + fraction * 0x2000);
    assert(x.magnitude() / 0x80_0000 == exponent + 112);
    assert(x.magnitude() % 0x80_0000 == fraction * 0x2000);
    assert(m / 0x400 == exponent && m % 0x400 == fraction);
    lemma_pow2_adds((exponent - 1) as nat, 125);
    lemma_pow2_adds(13, (exponent + 111) as nat);
    lemma2_to64();
    let a = pow2((exponent - 1) as nat);
    let b = pow2(125);
    let c = pow2((exponent + 111) as nat);
    let p = pow2((exponent + 124) as nat);
    assert(scaled(x.magnitude()) == (0x80_0000 + fraction * 0x2000) as nat * c);
    assert(half_scaled(m) == (0x400 + fraction) as nat * a);
    assert((0x80_0000 + fraction * 0x2000) * c == (0x400 + fraction) * p) by (nonlinear_arith)
        requires
            p == 0x2000 * c,
    ;
    assert(((0x400 + fraction) * a) * b == (0x400 + fraction) * p) by (nonlinear_arith)
        requires
            p == a * b,
    ;
    let value = scaled(x.magnitude());
    assert(half_distance(value, m) == 0);
    let n = (half % HALF_SIGN_BIT) as nat;
    assert(is_nearest_magnitude(value, n));
    if n != m {
        assert(half_distance(value, n) <= half_distance(value, m));
        assert(half_scaled(n) * b == half_scaled(m) * b);
        lemma_pow2_pos(125);
        assert(half_scaled(n) == half_scaled(m)) by (nonlinear_arith)
            requires
                half_scaled(n) * b == half_scaled(m) * b,
                b > 0,
        ;
        if n < m {
            lemma_half_scaled_increases(n, m);
        } else {
            lemma_half_scaled_increases(m, n);
        }
    }
}

} // verus!
