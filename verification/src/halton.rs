//! The Halton sequence, digit by digit.
//!
//! A Halton number mirrors the digits of its index at the point: index
//! `d0 + d1 b + d2 b^2 + ...` becomes `d0 / b + d1 / b^2 + d2 / b^3 + ...`. Here are
//! the index and its digits. Adding up the fractions is floating-point work.

use vstd::arithmetic::div_mod::lemma_fundamental_div_mod;
use vstd::arithmetic::power::{lemma_pow0, lemma_pow1, lemma_pow_adds, lemma_pow_positive, pow};
use vstd::prelude::*;

verus! {

/// The remainder of a division that truncates toward zero: it has the sign of the dividend.
pub open spec fn truncated_remainder(n: int, d: int) -> int {
    let divisor = if d < 0 {
        -d
    } else {
        d
    };
    if n < 0 {
        -((-n) % divisor)
    } else {
        n % divisor
    }
}

/// The number with the given digits, the lowest first.
pub open spec fn digits_value(digits: Seq<u32>, base: int) -> int
    decreases digits.len(),
{
    if digits.len() == 0 {
        0
    } else {
        digits[0] + base * digits_value(digits.subrange(1, digits.len() as int), base)
    }
}

/// The number with the given digits, the highest first: the numerator of the mirrored fraction,
/// over `base` to the number of digits.
pub open spec fn mirrored_value(digits: Seq<u32>, base: int) -> int
    decreases digits.len(),
{
    if digits.len() == 0 {
        0
    } else {
        digits.last() + base * mirrored_value(digits.drop_last(), base)
    }
}

/// Whether `digits` are those of `n`, the lowest first, without leading zeros.
pub open spec fn are_digits(digits: Seq<u32>, n: int, base: int) -> bool {
    &&& digits_value(digits, base) == n
    &&& forall|i: int| 0 <= i < digits.len() ==> #[trigger] digits[i] < base
    &&& digits.len() > 0 ==> digits.last() > 0
}

/// The index into the Halton sequence of a frame.
pub open spec fn jitter_number(index: int, phase_count: int) -> int {
    truncated_remainder(index, phase_count) + 1
}

/// The index into the Halton sequence of a frame: frames repeat after `phase_count`, and the
/// sequence starts at 1.
pub fn jitter_index(index: i32, phase_count: i32) -> (result: i32)
    requires
        phase_count != 0,
        truncated_remainder(index as int, phase_count as int) < i32::MAX,
    ensures
        result == jitter_number(index as int, phase_count as int),
{
    let divisor: i64 = if phase_count < 0 {
        -(phase_count as i64)
    } else {
        phase_count as i64
    };
    let dividend: i64 = index as i64;
    let remainder: i64 = if dividend < 0 {
        -((-dividend) % divisor)
    } else {
        dividend % divisor
    };
    (remainder + 1) as i32
}

/// The digits of `index`, the lowest first, or none where it is not positive.
pub fn halton_digits(index: i32, base: u32) -> (result: Vec<u32>)
    requires
        base >= 2,
    ensures
        index > 0 ==> are_digits(result@, index as int, base as int),
        index <= 0 ==> result@.len() == 0,
{
    let mut digits: Vec<u32> = Vec::new();
    if index <= 0 {
        return digits;
    }
    let mut current: u32 = index as u32;
    let ghost mut weight: int = 1;
    assert(digits_value(digits@, base as int) == 0);
    proof {
        lemma_pow0(base as int);
    }
    while current > 0
        invariant
            base >= 2,
            index > 0,
            weight == pow(base as int, digits@.len()),
            index == digits_value(digits@, base as int) + current * weight,
            forall|i: int| 0 <= i < digits@.len() ==> #[trigger] digits@[i] < base,
            current == 0 ==> digits@.len() > 0 && digits@.last() > 0,
        decreases current,
    {
        let digit: u32 = current % base;
        let ghost before = digits@;
        proof {
            let quotient = (current / base) as int;
            lemma_digits_push(before, digit, base as int);
            lemma_fundamental_div_mod(current as int, base as int);
            assert(current * weight == digit * weight + quotient * (base * weight))
                by (nonlinear_arith)
                requires
                    current == base * quotient + digit,
            ;
            lemma_pow_adds(base as int, 1, before.len());
            lemma_pow1(base as int);
            assert(quotient < current) by (nonlinear_arith)
                requires
                    current == base * quotient + digit,
                    current > 0,
                    digit >= 0,
                    base >= 2,
                    quotient >= 0,
            ;
            if quotient == 0 {
                assert(base * quotient == 0) by (nonlinear_arith)
                    requires
                        quotient == 0,
                ;
            }
            weight = base * weight;
        }
        digits.push(digit);
        current = current / base;
    }
    proof {
        assert(current * weight == 0) by (nonlinear_arith)
            requires
                current == 0,
        ;
    }
    digits
}

/// A further digit counts the base's power for its place.
proof fn lemma_digits_push(digits: Seq<u32>, digit: u32, base: int)
    ensures
        digits_value(digits.push(digit), base) == digits_value(digits, base) + digit * pow(
            base,
            digits.len(),
        ),
    decreases digits.len(),
{
    let all = digits.push(digit);
    lemma_pow0(base);
    if digits.len() == 0 {
        assert(all.subrange(1, 1) =~= Seq::empty());
        assert(digits_value(all.subrange(1, 1), base) == 0);
        assert(base * 0 == 0) by (nonlinear_arith);
        assert(digit * 1 == digit) by (nonlinear_arith);
    } else {
        let rest = digits.subrange(1, digits.len() as int);
        assert(all.subrange(1, all.len() as int) =~= rest.push(digit));
        lemma_digits_push(rest, digit, base);
        lemma_pow_adds(base, 1, rest.len());
        lemma_pow1(base);
        let power = pow(base, rest.len());
        assert(base * (digits_value(rest, base) + digit * power) == base * digits_value(rest, base)
            + digit * (base * power)) by (nonlinear_arith);
    }
}

/// A Halton number lies between 0 and 1: an offset of half a pixel less lies within half a pixel
/// of the centre.
pub proof fn law_halton_within_unit(digits: Seq<u32>, n: int, base: int)
    requires
        base >= 2,
        n > 0,
        are_digits(digits, n, base),
    ensures
        0 < mirrored_value(digits, base) < pow(base, digits.len()),
{
    assert(digits.len() > 0);
    lemma_mirrored_bounds(digits, base);
    lemma_mirrored_bounds(digits.drop_last(), base);
    let rest = mirrored_value(digits.drop_last(), base);
    assert(base * rest >= 0) by (nonlinear_arith)
        requires
            base >= 2,
            rest >= 0,
    ;
}

/// A number of `k` digits lies below the base's `k`-th power.
proof fn lemma_mirrored_bounds(digits: Seq<u32>, base: int)
    requires
        base >= 2,
        forall|i: int| 0 <= i < digits.len() ==> #[trigger] digits[i] < base,
    ensures
        0 <= mirrored_value(digits, base) < pow(base, digits.len()),
    decreases digits.len(),
{
    lemma_pow0(base);
    lemma_pow_positive(base, digits.len());
    if digits.len() > 0 {
        let rest = digits.drop_last();
        lemma_mirrored_bounds(rest, base);
        lemma_pow_adds(base, 1, rest.len());
        lemma_pow1(base);
        let value = mirrored_value(rest, base);
        let power = pow(base, rest.len());
        let last = digits.last();
        assert(0 <= last + base * value < base * power) by (nonlinear_arith)
            requires
                0 <= last < base,
                0 <= value < power,
        ;
    }
}

/// Digits below the base can be read off a number.
proof fn lemma_mirrored_injective(a: Seq<u32>, b: Seq<u32>, base: int)
    requires
        base >= 2,
        a.len() == b.len(),
        forall|i: int| 0 <= i < a.len() ==> #[trigger] a[i] < base,
        forall|i: int| 0 <= i < b.len() ==> #[trigger] b[i] < base,
        mirrored_value(a, base) == mirrored_value(b, base),
    ensures
        a == b,
    decreases a.len(),
{
    if a.len() > 0 {
        let x = a.last() as int;
        let y = b.last() as int;
        let rest = mirrored_value(a.drop_last(), base);
        let other = mirrored_value(b.drop_last(), base);
        assert(x == y && rest == other) by (nonlinear_arith)
            requires
                0 <= x < base,
                0 <= y < base,
                x + base * rest == y + base * other,
        ;
        lemma_mirrored_injective(a.drop_last(), b.drop_last(), base);
        assert(a =~= a.drop_last().push(a.last()));
        assert(b =~= b.drop_last().push(b.last()));
    }
    assert(a =~= b);
}

/// A Halton number with fewer digits is another number.
proof fn lemma_shorter_differs(a: Seq<u32>, b: Seq<u32>, base: int)
    requires
        base >= 2,
        a.len() < b.len(),
        0 < b.last() < base,
    ensures
        mirrored_value(a, base) * pow(base, b.len()) != mirrored_value(b, base) * pow(
            base,
            a.len(),
        ),
{
    let more = (b.len() - a.len()) as nat;
    lemma_pow_adds(base, a.len() as nat, more);
    lemma_pow_adds(base, 1, (more - 1) as nat);
    lemma_pow1(base);
    lemma_pow_positive(base, a.len());
    let power = pow(base, a.len());
    let factor = pow(base, (more - 1) as nat);
    let x = mirrored_value(a, base);
    let rest = mirrored_value(b.drop_last(), base);
    let last = b.last() as int;
    if x * (power * (base * factor)) == (last + base * rest) * power {
        let multiple = x * factor;
        assert(last + base * rest == base * multiple) by (nonlinear_arith)
            requires
                x * (power * (base * factor)) == (last + base * rest) * power,
                multiple == x * factor,
                power > 0,
        ;
        assert(false) by (nonlinear_arith)
            requires
                last + base * rest == base * multiple,
                0 < last < base,
        ;
    }
}

/// Different indices have different Halton numbers.
pub proof fn law_halton_numbers_differ(a: Seq<u32>, m: int, b: Seq<u32>, n: int, base: int)
    requires
        base >= 2,
        m > 0,
        n > 0,
        are_digits(a, m, base),
        are_digits(b, n, base),
        m != n,
    ensures
        mirrored_value(a, base) * pow(base, b.len()) != mirrored_value(b, base) * pow(
            base,
            a.len(),
        ),
{
    if a.len() < b.len() {
        lemma_shorter_differs(a, b, base);
    } else if b.len() < a.len() {
        lemma_shorter_differs(b, a, base);
    } else {
        lemma_pow_positive(base, a.len());
        let x = mirrored_value(a, base);
        let y = mirrored_value(b, base);
        let power = pow(base, a.len());
        if x * power == y * power {
            assert(x == y) by (nonlinear_arith)
                requires
                    x * power == y * power,
                    power > 0,
            ;
            lemma_mirrored_injective(a, b, base);
        }
    }
}

/// The jitter sequence repeats after `phase_count` frames.
pub proof fn law_jitter_repeats(index: int, phase_count: int)
    requires
        index >= 0,
        phase_count > 0,
    ensures
        jitter_number(index + phase_count, phase_count) == jitter_number(index, phase_count),
        1 <= jitter_number(index, phase_count) <= phase_count,
{
    vstd::arithmetic::div_mod::lemma_mod_add_multiples_vanish(index, phase_count);
    assert((phase_count + index) % phase_count == index % phase_count);
}

/// No two frames before that have the same offset in either direction.
pub proof fn law_jitter_differs(
    i: int,
    j: int,
    phase_count: int,
    a: Seq<u32>,
    b: Seq<u32>,
    base: int,
)
    requires
        0 <= i < j < phase_count,
        base >= 2,
        are_digits(a, jitter_number(i, phase_count), base),
        are_digits(b, jitter_number(j, phase_count), base),
    ensures
        mirrored_value(a, base) * pow(base, b.len()) != mirrored_value(b, base) * pow(
            base,
            a.len(),
        ),
{
    vstd::arithmetic::div_mod::lemma_small_mod(i as nat, phase_count as nat);
    vstd::arithmetic::div_mod::lemma_small_mod(j as nat, phase_count as nat);
    law_halton_numbers_differ(
        a,
        jitter_number(i, phase_count),
        b,
        jitter_number(j, phase_count),
        base,
    );
}

/// A number has no more digits than its size needs.
proof fn lemma_digits_needed(digits: Seq<u32>, base: int)
    requires
        base >= 2,
        digits.len() > 0,
        digits.last() > 0,
    ensures
        digits_value(digits, base) >= pow(base, (digits.len() - 1) as nat),
    decreases digits.len(),
{
    lemma_pow0(base);
    let rest = digits.subrange(1, digits.len() as int);
    if digits.len() == 1 {
        assert(digits_value(rest, base) == 0);
        assert(base * 0 == 0) by (nonlinear_arith);
    } else {
        assert(rest.last() == digits.last());
        lemma_digits_needed(rest, base);
        lemma_pow_adds(base, 1, (rest.len() - 1) as nat);
        lemma_pow1(base);
        let value = digits_value(rest, base);
        let power = pow(base, (rest.len() - 1) as nat);
        assert(base * value >= base * power) by (nonlinear_arith)
            requires
                value >= power,
                base >= 2,
        ;
    }
}

/// In base 2 the Halton numbers of up to 4096 phases have at most 13 digits: they are multiples
/// of 2^-13.
pub proof fn law_few_binary_digits(digits: Seq<u32>, n: int)
    requires
        0 < n <= 4096,
        are_digits(digits, n, 2),
    ensures
        0 < digits.len() <= 13,
{
    assert(digits.len() > 0);
    lemma_digits_needed(digits, 2);
    if digits.len() > 13 {
        lemma_pow_adds(2, 13, (digits.len() - 14) as nat);
        lemma_pow_positive(2, (digits.len() - 14) as nat);
        assert(pow(2, 13) == 8192) by {
            reveal_with_fuel(pow, 14);
        }
        let more = pow(2, (digits.len() - 14) as nat);
        assert(8192 * more >= 8192) by (nonlinear_arith)
            requires
                more >= 1,
        ;
    }
}

/// The remainder of a division that truncates toward zero differs from the dividend by a multiple
/// of the divisor, is smaller than it, and does not have the other sign than the dividend.
pub proof fn law_truncated_remainder(n: int, d: int) -> (q: int)
    requires
        d != 0,
    ensures
        n == d * q + truncated_remainder(n, d),
        -d < truncated_remainder(n, d) < d || d < truncated_remainder(n, d) < -d,
        n >= 0 ==> truncated_remainder(n, d) >= 0,
        n <= 0 ==> truncated_remainder(n, d) <= 0,
{
    let m = if d < 0 {
        -d
    } else {
        d
    };
    let k = if n < 0 {
        -n
    } else {
        n
    };
    lemma_fundamental_div_mod(k, m);
    let quotient = k / m;
    assert(k % m < m);
    let q = if (n < 0) == (d < 0) {
        quotient
    } else {
        -quotient
    };
    assert(n == d * q + truncated_remainder(n, d)) by (nonlinear_arith)
        requires
            k == m * quotient + k % m,
            truncated_remainder(n, d) == (if n < 0 {
                -(k % m)
            } else {
                k % m
            }),
            n == k || n == -k,
            n < 0 ==> n == -k,
            n >= 0 ==> n == k,
            d < 0 ==> m == -d,
            d >= 0 ==> m == d,
            q == (if (n < 0) == (d < 0) {
                quotient
            } else {
                -quotient
            }),
    ;
    q
}

/// The frames of one period take the Halton numbers from the first on, in order.
pub proof fn law_jitter_starts_at_one(index: int, phase_count: int)
    requires
        0 <= index < phase_count,
    ensures
        jitter_number(index, phase_count) == index + 1,
{
    vstd::arithmetic::div_mod::lemma_small_mod(index as nat, phase_count as nat);
}

} // verus!
