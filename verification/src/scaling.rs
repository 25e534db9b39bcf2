//! The whole part of a decimal number, and of a multiple of it, computed
//! digit by digit and without rounding.

use crate::digits::{
    all_digits, decimal_value, lemma_decimal_value_bound, lemma_decimal_value_concat, lemma_pow10,
    lemma_pow10_monotonic, pow10, value_of_digit,
};
use crate::number::{Decimal, Parts};
use vstd::arithmetic::div_mod::{
    lemma_basic_div, lemma_div_denominator, lemma_div_is_ordered, lemma_div_multiples_vanish,
    lemma_hoist_over_denominator,
};
use vstd::prelude::*;

verus! {

/// The whole part of `multiplier * mantissa * 10^exponent`.
pub open spec fn scaled_floor(multiplier: nat, mantissa: nat, exponent: int) -> nat {
    if exponent >= 0 {
        multiplier * mantissa * pow10(exponent as nat)
    } else {
        (multiplier * mantissa) / pow10((-exponent) as nat)
    }
}

/// One more than the largest pixel coordinate.
pub const CEILING: u64 = 2147483648;

/// `v`, or `CEILING` where `v` is beyond it.
pub open spec fn capped(v: nat) -> nat {
    if v >= CEILING {
        CEILING as nat
    } else {
        v
    }
}

/// A count of decimal places so large that it need not be known exactly.
pub const FAR: u128 = 633825300114114700748351602688;

/// Whether the counted number `exact` is known as `known`: either the two
/// agree, or `known` is at least `FAR` and `exact` no less than `known`.
pub open spec fn knows(known: u128, exact: int) -> bool {
    known == exact || (known >= FAR && exact >= known)
}

proof fn lemma_pow10_values()
    ensures
        pow10(10) == 10000000000,
        pow10(20) == 100000000000000000000,
{
    reveal_with_fuel(pow10, 11);
    lemma_pow10(10, 10);
}

/// The digits `s` spell a number; at most twice `FAR` of it is kept.
fn magnitude(s: &[char]) -> (out: u128)
    requires
        all_digits(s@),
    ensures
        out == decimal_value(s@) || (out == 2 * FAR && decimal_value(s@) >= out),
        out <= 2 * FAR,
{
    let mut acc: u128 = 0;
    let mut i: usize = 0;
    while i < s.len()
        invariant
            i <= s@.len(),
            all_digits(s@),
            acc <= 2 * FAR,
            acc == decimal_value(s@.take(i as int)) || (acc == 2 * FAR && decimal_value(
                s@.take(i as int),
            ) >= 2 * FAR),
        decreases s@.len() - i,
    {
        proof {
            assert(s@.take(i + 1).drop_last() == s@.take(i as int));
            assert(s@.take(i + 1).last() == s@[i as int]);
        }
        let d = value_of_digit(s[i]) as u128;
        let next = acc * 10 + d;
        acc = if next >= 2 * FAR { 2 * FAR } else { next };
        i += 1;
    }
    proof {
        assert(s@.take(i as int) == s@);
    }
    acc
}

/// How far the decimal point moves: `zeros` places to the right, or `back`
/// places to the left.
struct Shift {
    zeros: u128,
    back: u128,
}

/// The movement of the point that the exponent of `parts` asks for, after
/// `down` more places to the left.
fn shift_of(parts: &Parts, down: u8) -> (shift: Shift)
    requires
        parts.well_formed(),
        down <= 2,
    ensures
        ({
            let e = parts.written_exponent() - parts.point - down;
            if e >= 0 {
                shift.back == 0 && knows(shift.zeros, e)
            } else {
                shift.zeros == 0 && shift.back > 0 && knows(shift.back, -e)
            }
        }),
{
    let written = magnitude(parts.exponent_digits.as_slice());
    let left: u128 = parts.point as u128 + down as u128;
    if parts.exponent_negative {
        if written + left == 0 {
            Shift { zeros: 0, back: 0 }
        } else {
            Shift { zeros: 0, back: written + left }
        }
    } else if written >= left {
        Shift { zeros: written - left, back: 0 }
    } else {
        Shift { zeros: 0, back: left - written }
    }
}

/// What the first `k` digits spell, capped.
fn whole_of_prefix(digits: &[char], k: usize) -> (out: u64)
    requires
        all_digits(digits@),
        k <= digits@.len(),
    ensures
        out == capped(decimal_value(digits@.take(k as int))),
{
    let mut acc: u64 = 0;
    let mut i: usize = 0;
    while i < k
        invariant
            i <= k <= digits@.len(),
            all_digits(digits@),
            acc == capped(decimal_value(digits@.take(i as int))),
        decreases k - i,
    {
        proof {
            assert(digits@.take(i + 1).drop_last() == digits@.take(i as int));
            assert(digits@.take(i + 1).last() == digits@[i as int]);
        }
        let d = value_of_digit(digits[i]) as u64;
        let next = acc * 10 + d;
        acc = if next >= CEILING { CEILING } else { next };
        i += 1;
    }
    acc
}

/// One step of a long multiplication from the right: the carry out of
/// `k + 1` places is the carry out of `k` places, plus the product at the
/// next place, over ten.
proof fn lemma_carry_step(multiplier: nat, d: nat, tail: nat, k: nat)
    ensures
        (multiplier * (d * pow10(k) + tail)) / pow10(k + 1) == (multiplier * d + (multiplier
            * tail) / pow10(k)) / 10,
{
    lemma_pow10(k, 1);
    lemma_pow10(1, 0);
    assert(pow10(1) == 10) by {
        reveal_with_fuel(pow10, 2);
    }
    let p = pow10(k) as int;
    let y = (multiplier * tail) as int;
    let md = (multiplier * d) as int;
    assert(multiplier * (d * pow10(k) + tail) == y + md * p) by (nonlinear_arith)
        requires
            y == multiplier * tail,
            md == multiplier * d,
            p == pow10(k),
    ;
    lemma_hoist_over_denominator(y, md, p as nat);
    assert((y + md * p) / p == y / p + md);
    lemma_div_denominator(y + md * p, p, 10);
    assert(pow10(k + 1) == p * 10);
}

/// The carry out of the digits from position `k` on, when the number is
/// multiplied by `multiplier`: what the product of these digits contributes
/// to the places before `k`.
fn carry_of_suffix(multiplier: u32, digits: &[char], k: usize) -> (out: u64)
    requires
        all_digits(digits@),
        k <= digits@.len(),
    ensures
        out == (multiplier as nat * decimal_value(digits@.skip(k as int))) / pow10(
            (digits@.len() - k) as nat,
        ),
        out <= multiplier,
{
    let n = digits.len();
    let mut carry: u64 = 0;
    let mut i: usize = n;
    proof {
        assert(digits@.skip(n as int) =~= Seq::<char>::empty());
        assert(pow10(0) == 1);
        assert(decimal_value(Seq::<char>::empty()) == 0);
        assert(multiplier as nat * 0 == 0);
    }
    while i > k
        invariant
            k <= i <= n,
            n == digits@.len(),
            all_digits(digits@),
            carry <= multiplier,
            carry == (multiplier as nat * decimal_value(digits@.skip(i as int))) / pow10(
                (n - i) as nat,
            ),
        decreases i,
    {
        i -= 1;
        let d = value_of_digit(digits[i]) as u64;
        proof {
            let tail = digits@.skip(i + 1);
            let one = seq![digits@[i as int]];
            assert(digits@.skip(i as int) == one + tail);
            lemma_decimal_value_concat(one, tail);
            assert(one.drop_last() =~= Seq::<char>::empty());
            assert(decimal_value(one) == d) by {
                reveal_with_fuel(decimal_value, 2);
            }
            lemma_carry_step(
                multiplier as nat,
                d as nat,
                decimal_value(tail),
                (n - i - 1) as nat,
            );
            assert(multiplier * d <= multiplier * 9) by (nonlinear_arith)
                requires
                    d <= 9,
            ;
        }
        carry = (multiplier as u64 * d + carry) / 10;
    }
    carry
}

/// `c` over ten to the power `count`.
fn divide_by_tens(c: u64, count: u128) -> (out: u64)
    ensures
        out == c as nat / pow10(count as nat),
        count >= 20 ==> out == 0,
{
    proof {
        lemma_pow10_values();
    }
    if count >= 20 {
        proof {
            lemma_pow10_monotonic(20, count as nat);
            lemma_basic_div(c as int, pow10(count as nat) as int);
        }
        return 0;
    }
    let mut out = c;
    let mut done: u128 = 0;
    proof {
        assert(pow10(0) == 1);
    }
    while done < count
        invariant
            done <= count,
            out == c as nat / pow10(done as nat),
        decreases count - done,
    {
        proof {
            lemma_pow10(done as nat, 1);
            assert(pow10(1) == 10) by {
                reveal_with_fuel(pow10, 2);
            }
            lemma_pow10(done as nat, 0);
            lemma_div_denominator(c as int, pow10(done as nat) as int, 10);
        }
        out = out / 10;
        done += 1;
    }
    out
}

/// `v` times ten to the power `count`, capped.
fn times_tens(v: u64, count: u128) -> (out: u64)
    requires
        v <= CEILING,
    ensures
        out == capped(v as nat * pow10(count as nat)),
        count >= 10 && v > 0 ==> out == CEILING,
{
    proof {
        lemma_pow10_values();
        assert(pow10(0) == 1);
    }
    let mut out = v;
    let mut done: u128 = 0;
    while done < count && 0 < out && out < CEILING
        invariant
            done <= count,
            out <= CEILING,
            out == capped(v as nat * pow10(done as nat)),
        decreases count - done,
    {
        proof {
            lemma_pow10(done as nat, 1);
            assert(pow10(1) == 10) by {
                reveal_with_fuel(pow10, 2);
            }
            assert(v * pow10((done + 1) as nat) == (v * pow10(done as nat)) * 10)
                by (nonlinear_arith)
                requires
                    pow10((done + 1) as nat) == pow10(done as nat) * 10,
            ;
        }
        let next = out * 10;
        out = if next >= CEILING { CEILING } else { next };
        done += 1;
    }
    proof {
        let rest = (count - done) as nat;
        lemma_pow10(done as nat, rest);
        lemma_pow10(rest, 0);
        assert(done as nat + rest == count as nat);
        let a = (v * pow10(done as nat)) as int;
        let r = pow10(rest) as int;
        assert(v * pow10(count as nat) == a * r) by (nonlinear_arith)
            requires
                pow10(count as nat) == pow10(done as nat) * pow10(rest),
                a == v * pow10(done as nat),
                r == pow10(rest),
        ;
        if out == 0 {
            assert(a == 0);
            assert(a * r == 0) by (nonlinear_arith)
                requires
                    a == 0,
            ;
        } else if out >= CEILING {
            assert(a * r >= a) by (nonlinear_arith)
                requires
                    a >= 0,
                    r >= 1,
            ;
        } else {
            assert(rest == 0);
            assert(a * r == a) by (nonlinear_arith)
                requires
                    r == 1,
            ;
        }
        if count >= 10 && v > 0 {
            lemma_pow10_monotonic(10, count as nat);
            assert(v * pow10(count as nat) >= CEILING) by (nonlinear_arith)
                requires
                    v >= 1,
                    pow10(count as nat) >= 10000000000,
            ;
        }
    }
    out
}

/// `a * b`, capped.
fn times(a: u32, b: u64) -> (out: u64)
    requires
        b <= CEILING,
    ensures
        out == capped(a as nat * b as nat),
{
    assert(a * b <= 4294967295 * 2147483648) by (nonlinear_arith)
        requires
            a <= 4294967295,
            b <= 2147483648,
    ;
    let p = a as u64 * b;
    if p >= CEILING {
        CEILING
    } else {
        p
    }
}

/// Capping a factor before a multiplication by a whole number changes
/// nothing of the capped product.
proof fn lemma_capped_product(a: nat, b: nat)
    ensures
        capped(a * capped(b)) == capped(a * b),
{
    if b >= CEILING {
        if a == 0 {
            assert(a * b == 0) by (nonlinear_arith)
                requires
                    a == 0,
            ;
            assert(a * capped(b) == 0) by (nonlinear_arith)
                requires
                    a == 0,
            ;
        } else {
            assert(a * b >= CEILING) by (nonlinear_arith)
                requires
                    a >= 1,
                    b >= CEILING,
            ;
            assert(a * capped(b) >= CEILING) by (nonlinear_arith)
                requires
                    a >= 1,
                    capped(b) >= CEILING,
            ;
        }
    }
}

/// The point moves right: the capped results agree with the exact product.
proof fn lemma_right(multiplier: nat, mantissa: nat, base: nat, out: nat, zeros: u128, e: int)
    requires
        e >= 0,
        knows(zeros, e),
        base == capped(multiplier * capped(mantissa)),
        out == capped(base * pow10(zeros as nat)),
        zeros >= 10 && base > 0 ==> out == CEILING,
    ensures
        out == capped(scaled_floor(multiplier, mantissa, e)),
{
    lemma_capped_product(multiplier, mantissa);
    let p = multiplier * mantissa;
    assert(base == capped(p));
    lemma_pow10(e as nat, 0);
    let t = pow10(e as nat);
    if zeros == e {
        lemma_capped_product(t, p);
        assert(t * capped(p) == capped(p) * t) by (nonlinear_arith);
        assert(t * p == p * t) by (nonlinear_arith);
    } else {
        lemma_pow10_values();
        lemma_pow10_monotonic(10, e as nat);
        if base == 0 {
            assert(p == 0);
            assert(p * t == 0) by (nonlinear_arith)
                requires
                    p == 0,
            ;
            assert(base * pow10(zeros as nat) == 0) by (nonlinear_arith)
                requires
                    base == 0,
            ;
        } else {
            assert(p * t >= CEILING) by (nonlinear_arith)
                requires
                    p >= 1,
                    t >= 10000000000,
            ;
        }
    }
}

/// The point moves left by no more places than there are digits: the
/// digits before it count whole, those after it only by their carry.
proof fn lemma_left_near(
    multiplier: nat,
    digits: Seq<char>,
    back: nat,
    base: nat,
    carry: nat,
)
    requires
        0 < back <= digits.len(),
        base == capped(multiplier * capped(decimal_value(digits.take(digits.len() - back)))),
        carry == (multiplier * decimal_value(digits.skip(digits.len() - back))) / pow10(back),
    ensures
        capped(base + carry) == capped(scaled_floor(multiplier, decimal_value(digits), -back)),
{
    let k = digits.len() - back;
    let head = decimal_value(digits.take(k));
    let tail = decimal_value(digits.skip(k));
    assert(digits.take(k) + digits.skip(k) == digits);
    lemma_decimal_value_concat(digits.take(k), digits.skip(k));
    lemma_pow10(back, 0);
    let p = pow10(back) as int;
    let y = (multiplier * tail) as int;
    let mh = (multiplier * head) as int;
    assert(multiplier * decimal_value(digits) == y + mh * p) by (nonlinear_arith)
        requires
            decimal_value(digits) == head * p + tail,
            y == multiplier * tail,
            mh == multiplier * head,
    ;
    lemma_hoist_over_denominator(y, mh, p as nat);
    lemma_capped_product(multiplier, head);
}

/// The point moves left by more places than there are digits: only the
/// carry out of all digits is left, over ten for every further place.
proof fn lemma_left_far(
    multiplier: nat,
    digits: Seq<char>,
    back: u128,
    e: int,
    carry: nat,
    out: nat,
)
    requires
        all_digits(digits),
        digits.len() < 18446744073709551616,
        multiplier < 4294967296,
        e < 0,
        knows(back, -e),
        back > digits.len(),
        carry == (multiplier * decimal_value(digits)) / pow10(digits.len()),
        out == carry / pow10((back - digits.len()) as nat),
        back - digits.len() >= 20 ==> out == 0,
    ensures
        out == scaled_floor(multiplier, decimal_value(digits), e),
{
    let n = digits.len();
    let x = (multiplier * decimal_value(digits)) as int;
    lemma_pow10(n, 0);
    if back == -e {
        let extra = (back - n) as nat;
        lemma_pow10(n, extra);
        lemma_pow10(extra, 0);
        lemma_div_denominator(x, pow10(n) as int, pow10(extra) as int);
        assert(n + extra == (-e) as nat);
    } else {
        let far = ((-e) - n) as nat;
        lemma_pow10_values();
        lemma_pow10(n, far);
        lemma_pow10_monotonic(20, far);
        lemma_decimal_value_bound(digits);
        assert(n + far == (-e) as nat);
        assert(x < pow10(n) * pow10(far)) by (nonlinear_arith)
            requires
                x == multiplier * decimal_value(digits),
                multiplier < 4294967296,
                decimal_value(digits) < pow10(n),
                pow10(far) >= 100000000000000000000,
        ;
        lemma_basic_div(x, pow10((-e) as nat) as int);
    }
}

/// Whether `mantissa * 10^exponent` is at most `bound`.
pub open spec fn is_at_most(mantissa: nat, exponent: int, bound: nat) -> bool {
    if exponent >= 0 {
        mantissa * pow10(exponent as nat) <= bound
    } else {
        mantissa <= bound * pow10((-exponent) as nat)
    }
}

/// Whether `mantissa * 10^exponent` is `value`.
pub open spec fn is_equal_to(mantissa: nat, exponent: int, value: nat) -> bool {
    if exponent >= 0 {
        mantissa * pow10(exponent as nat) == value
    } else {
        mantissa == value * pow10((-exponent) as nat)
    }
}

proof fn lemma_small_powers()
    ensures
        pow10(0) == 1,
        pow10(1) == 10,
        pow10(2) == 100,
{
    reveal_with_fuel(pow10, 3);
}

/// So many hundredths of an extent, where they are at most a hundred, are
/// at most the extent; and a hundred hundredths are the extent.
proof fn lemma_hundredths(extent: nat, mantissa: nat, exponent: int)
    requires
        is_at_most(mantissa, exponent, 100),
    ensures
        scaled_floor(extent, mantissa, exponent - 2) <= extent,
        is_equal_to(mantissa, exponent, 100) ==> scaled_floor(extent, mantissa, exponent - 2)
            == extent,
{
    lemma_small_powers();
    if exponent >= 2 {
        let up = pow10((exponent - 2) as nat);
        lemma_pow10((exponent - 2) as nat, 2);
        assert((exponent - 2) as nat + 2 == exponent as nat);
        assert(mantissa * up <= 1) by (nonlinear_arith)
            requires
                mantissa * (up * 100) <= 100,
        ;
        assert(extent * mantissa * up <= extent) by (nonlinear_arith)
            requires
                mantissa * up <= 1,
        ;
        if is_equal_to(mantissa, exponent, 100) {
            assert(mantissa * up == 1) by (nonlinear_arith)
                requires
                    mantissa * (up * 100) == 100,
            ;
            assert(extent * mantissa * up == extent) by (nonlinear_arith)
                requires
                    mantissa * up == 1,
            ;
        }
    } else {
        let places = (2 - exponent) as nat;
        let down = pow10(places);
        lemma_pow10(places, 0);
        if exponent < 0 {
            lemma_pow10(2, (-exponent) as nat);
            assert(2 + (-exponent) as nat == places);
        } else if exponent == 0 {
            assert(mantissa * 1 == mantissa);
        } else {
            assert(mantissa * 10 <= 100);
        }
        assert(mantissa <= down);
        assert(extent * mantissa <= extent * down) by (nonlinear_arith)
            requires
                mantissa <= down,
        ;
        lemma_div_is_ordered((extent * mantissa) as int, (extent * down) as int, down as int);
        lemma_div_multiples_vanish(extent as int, down as int);
        assert(extent * down == down * extent) by (nonlinear_arith);
        if is_equal_to(mantissa, exponent, 100) {
            assert(mantissa == down);
        }
    }
}

/// Nothing, scaled, is nothing.
proof fn lemma_scaled_zero(multiplier: nat, exponent: int)
    ensures
        scaled_floor(multiplier, 0, exponent) == 0,
{
    assert(multiplier * 0 == 0);
    if exponent >= 0 {
        assert(0 * pow10(exponent as nat) == 0);
    } else {
        lemma_pow10((-exponent) as nat, 0);
        lemma_basic_div(0, pow10((-exponent) as nat) as int);
    }
}

/// A share between 0 and 100 hundredths of an extent lies between nothing
/// and the extent; the fraction of a pixel is dropped.
pub proof fn lemma_share_stays_within(share: Decimal, extent: int)
    requires
        share.is_within(100),
        0 <= extent <= i32::MAX,
    ensures
        0 <= share.percent_of(extent) <= extent,
{
    let mantissa = share->Finite_mantissa;
    let exponent = share->Finite_exponent;
    lemma_hundredths(extent as nat, mantissa, exponent);
    if mantissa == 0 {
        lemma_scaled_zero(extent as nat, exponent - 2);
    }
}

/// A hundred hundredths of an extent are the extent.
pub proof fn lemma_whole_share(share: Decimal, extent: int)
    requires
        share.is_exactly(100),
        0 <= extent <= i32::MAX,
    ensures
        share.percent_of(extent) == extent,
{
    let mantissa = share->Finite_mantissa;
    let exponent = share->Finite_exponent;
    lemma_small_powers();
    if exponent >= 0 {
        assert(0 * pow10(exponent as nat) == 0);
    } else {
        lemma_pow10((-exponent) as nat, 0);
        assert(100 * pow10((-exponent) as nat) > 0) by (nonlinear_arith)
            requires
                pow10((-exponent) as nat) >= 1,
        ;
    }
    assert(mantissa != 0);
    lemma_hundredths(extent as nat, mantissa, exponent);
}

/// Whether the digits spell zero.
pub(crate) fn spells_zero(digits: &[char]) -> (yes: bool)
    requires
        all_digits(digits@),
    ensures
        yes == (decimal_value(digits@) == 0),
{
    let v = whole_of_prefix(digits, digits.len());
    assert(digits@.take(digits@.len() as int) == digits@);
    v == 0
}

/// The whole part of `multiplier` times the number that `parts` denotes,
/// after its point has moved `down` more places to the left; capped at
/// `CEILING`. The sign of `parts` plays no part.
pub(crate) fn floor_scaled(multiplier: u32, parts: &Parts, down: u8) -> (out: u64)
    requires
        parts.well_formed(),
        down <= 2,
    ensures
        out == capped(
            scaled_floor(
                multiplier as nat,
                decimal_value(parts.digits@),
                parts.written_exponent() - parts.point - down,
            ),
        ),
{
    let digits = parts.digits.as_slice();
    let n = digits.len();
    let shift = shift_of(parts, down);
    let ghost e = parts.written_exponent() - parts.point - down;
    if shift.back == 0 {
        let m = whole_of_prefix(digits, n);
        let base = times(multiplier, m);
        let out = times_tens(base, shift.zeros);
        proof {
            assert(digits@.take(n as int) == digits@);
            lemma_right(
                multiplier as nat,
                decimal_value(digits@),
                base as nat,
                out as nat,
                shift.zeros,
                e,
            );
        }
        out
    } else if shift.back <= n as u128 {
        let k: usize = n - (shift.back as usize);
        let h = whole_of_prefix(digits, k);
        let carry = carry_of_suffix(multiplier, digits, k);
        let base = times(multiplier, h);
        proof {
            lemma_left_near(
                multiplier as nat,
                digits@,
                shift.back as nat,
                base as nat,
                carry as nat,
            );
        }
        let sum = base + carry;
        if sum >= CEILING {
            CEILING
        } else {
            sum
        }
    } else {
        let carry = carry_of_suffix(multiplier, digits, 0);
        let out = divide_by_tens(carry, shift.back - n as u128);
        proof {
            assert(digits@.skip(0) == digits@);
            lemma_left_far(
                multiplier as nat,
                digits@,
                shift.back,
                e,
                carry as nat,
                out as nat,
            );
        }
        if out >= CEILING {
            CEILING
        } else {
            out
        }
    }
}

} // verus!
