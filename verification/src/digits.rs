//! Decimal digits and the integers they spell.

use crate::text::copy_range;
use vstd::prelude::*;

verus! {

/// Whether `c` is one of the ten ASCII digits.
pub open spec fn is_digit(c: char) -> bool {
    '0' <= c && c <= '9'
}

/// The value of the digit `c`.
pub open spec fn digit_value(c: char) -> nat
    recommends
        is_digit(c),
{
    (c as u32 - '0' as u32) as nat
}

/// Whether `s` holds digits only. The empty text does.
pub open spec fn all_digits(s: Seq<char>) -> bool {
    forall|i: int| 0 <= i < s.len() ==> is_digit(#[trigger] s[i])
}

/// Ten to the power `n`.
pub open spec fn pow10(n: nat) -> nat
    decreases n,
{
    if n == 0 {
        1
    } else {
        10 * pow10((n - 1) as nat)
    }
}

/// The number that the digits `s` spell, most significant digit first; the
/// empty text spells zero.
pub open spec fn decimal_value(s: Seq<char>) -> nat
    decreases s.len(),
{
    if s.len() == 0 {
        0
    } else {
        decimal_value(s.drop_last()) * 10 + digit_value(s.last())
    }
}

/// Powers of ten are positive and multiply as their exponents add.
pub proof fn lemma_pow10(a: nat, b: nat)
    ensures
        pow10(a) >= 1,
        pow10(a + b) == pow10(a) * pow10(b),
    decreases a,
{
    if a == 0 {
        assert(pow10(0) == 1);
        assert(pow10(b) == 1 * pow10(b));
    } else {
        lemma_pow10((a - 1) as nat, b);
        assert(pow10(a + b) == 10 * pow10((a + b - 1) as nat));
        assert((a + b - 1) as nat == (a - 1) as nat + b);
        assert(10 * (pow10((a - 1) as nat) * pow10(b)) == (10 * pow10((a - 1) as nat)) * pow10(b))
            by (nonlinear_arith);
    }
}

/// Powers of ten grow with their exponent.
pub proof fn lemma_pow10_monotonic(a: nat, b: nat)
    requires
        a <= b,
    ensures
        pow10(a) <= pow10(b),
{
    lemma_pow10(a, (b - a) as nat);
    lemma_pow10((b - a) as nat, 0);
    assert(a + (b - a) as nat == b);
    assert(pow10(a) <= pow10(a) * pow10((b - a) as nat)) by (nonlinear_arith)
        requires
            pow10((b - a) as nat) >= 1,
    ;
}

/// A text spelled in two parts: the first part counts for as many powers
/// of ten as the second has digits.
pub proof fn lemma_decimal_value_concat(a: Seq<char>, b: Seq<char>)
    ensures
        decimal_value(a + b) == decimal_value(a) * pow10(b.len()) + decimal_value(b),
    decreases b.len(),
{
    if b.len() == 0 {
        assert(a + b == a);
        assert(pow10(0) == 1);
    } else {
        let b0 = b.drop_last();
        lemma_decimal_value_concat(a, b0);
        assert((a + b).drop_last() == a + b0);
        assert((a + b).last() == b.last());
        assert(pow10(b.len()) == 10 * pow10(b0.len()));
        assert((decimal_value(a) * pow10(b0.len()) + decimal_value(b0)) * 10 == decimal_value(a) * (
        10 * pow10(b0.len())) + decimal_value(b0) * 10) by (nonlinear_arith);
    }
}

/// Digits spell a number below ten to the power of their count.
pub proof fn lemma_decimal_value_bound(s: Seq<char>)
    requires
        all_digits(s),
    ensures
        decimal_value(s) < pow10(s.len()),
    decreases s.len(),
{
    if s.len() == 0 {
    } else {
        let s0 = s.drop_last();
        assert forall|i: int| 0 <= i < s0.len() implies is_digit(#[trigger] s0[i]) by {
            assert(s0[i] == s[i]);
        }
        lemma_decimal_value_bound(s0);
        assert(is_digit(s[s.len() - 1]));
        assert(pow10(s.len()) == 10 * pow10(s0.len()));
    }
}

/// A text spells at least what any of its beginnings spells.
pub proof fn lemma_decimal_value_prefix(s: Seq<char>, k: int)
    requires
        0 <= k <= s.len(),
    ensures
        decimal_value(s.take(k)) <= decimal_value(s),
{
    let a = s.take(k);
    let b = s.skip(k);
    assert(a + b == s);
    lemma_decimal_value_concat(a, b);
    lemma_pow10(b.len(), 0);
    assert(decimal_value(a) <= decimal_value(a) * pow10(b.len())) by (nonlinear_arith)
        requires
            pow10(b.len()) >= 1,
    ;
}

/// Whether `c` is a digit.
pub fn digit(c: char) -> (yes: bool)
    ensures
        yes == is_digit(c),
{
    '0' <= c && c <= '9'
}

/// The value of the digit `c`.
pub(crate) fn value_of_digit(c: char) -> (v: u8)
    requires
        is_digit(c),
    ensures
        v == digit_value(c),
        v <= 9,
{
    (c as u32 - '0' as u32) as u8
}

/// Whether all of `chars` are digits.
pub fn only_digits(chars: &[char]) -> (yes: bool)
    ensures
        yes == all_digits(chars@),
{
    let mut i: usize = 0;
    while i < chars.len()
        invariant
            i <= chars@.len(),
            forall|j: int| 0 <= j < i ==> is_digit(#[trigger] chars@[j]),
        decreases chars@.len() - i,
    {
        if !digit(chars[i]) {
            return false;
        }
        i += 1;
    }
    true
}

/// The number that a run of one or more digits spells, where it is at
/// most `limit`.
pub open spec fn bounded_of(s: Seq<char>, limit: nat) -> Option<nat> {
    if s.len() > 0 && all_digits(s) && decimal_value(s) <= limit {
        Some(decimal_value(s))
    } else {
        None
    }
}

/// Reads a run of one or more digits as a number of at most `limit`.
/// Leading zeros are allowed; any other character, an empty text or a
/// larger number gives `None`.
pub fn parse_bounded(chars: &[char], limit: u64) -> (value: Option<u64>)
    ensures
        match bounded_of(chars@, limit as nat) {
            Some(v) => value == Some(v as u64),
            None => value is None,
        },
{
    if chars.len() == 0 {
        return None;
    }
    let mut acc: u64 = 0;
    let mut i: usize = 0;
    while i < chars.len()
        invariant
            i <= chars@.len(),
            all_digits(chars@.take(i as int)),
            acc == decimal_value(chars@.take(i as int)),
            acc <= limit,
        decreases chars@.len() - i,
    {
        let c = chars[i];
        let ghost next = chars@.take(i + 1);
        proof {
            assert(next.drop_last() == chars@.take(i as int));
            assert(next.last() == c);
        }
        if !digit(c) {
            proof {
                assert(!is_digit(chars@[i as int]));
            }
            return None;
        }
        let d = value_of_digit(c) as u64;
        if d > limit || acc > (limit - d) / 10 {
            proof {
                assert(decimal_value(next) == acc * 10 + d);
                assert(decimal_value(next) > limit);
                lemma_decimal_value_prefix(chars@, i + 1);
            }
            return None;
        }
        acc = acc * 10 + d;
        proof {
            assert forall|j: int| 0 <= j < next.len() implies is_digit(#[trigger] next[j]) by {
                if j < i {
                    assert(chars@.take(i as int)[j] == next[j]);
                }
            }
        }
        i += 1;
    }
    proof {
        assert(chars@.take(i as int) == chars@);
    }
    Some(acc)
}

/// `s` without a leading plus sign.
pub open spec fn without_plus(s: Seq<char>) -> Seq<char> {
    if s.len() > 0 && s[0] == '+' {
        s.skip(1)
    } else {
        s
    }
}

/// The unsigned 32-bit number that `s` spells: an optional plus sign and
/// one or more digits that stay within the type.
pub open spec fn u32_of(s: Seq<char>) -> Option<u32> {
    match bounded_of(without_plus(s), 4294967295) {
        Some(v) => Some(v as u32),
        None => None,
    }
}

/// The unsigned 64-bit number that `s` spells: an optional plus sign and
/// one or more digits that stay within the type.
pub open spec fn u64_of(s: Seq<char>) -> Option<u64> {
    match bounded_of(without_plus(s), 18446744073709551615) {
        Some(v) => Some(v as u64),
        None => None,
    }
}

/// The signed 32-bit number that `s` spells: an optional sign and one or
/// more digits that stay within the type.
pub open spec fn i32_of(s: Seq<char>) -> Option<i32> {
    if s.len() > 0 && s[0] == '-' {
        match bounded_of(s.skip(1), 2147483648) {
            Some(v) => Some((-(v as int)) as i32),
            None => None,
        }
    } else {
        match bounded_of(without_plus(s), 2147483647) {
            Some(v) => Some(v as i32),
            None => None,
        }
    }
}

/// Reads an unsigned 64-bit number.
pub fn parse_u64(chars: &[char]) -> (value: Option<u64>)
    ensures
        value == u64_of(chars@),
{
    let start: usize = if chars.len() > 0 && chars[0] == '+' { 1 } else { 0 };
    let digits = copy_range(chars, start, chars.len());
    assert(digits@ == without_plus(chars@));
    parse_bounded(digits.as_slice(), u64::MAX)
}

/// Reads an unsigned 32-bit number.
pub fn parse_u32(chars: &[char]) -> (value: Option<u32>)
    ensures
        value == u32_of(chars@),
{
    let start: usize = if chars.len() > 0 && chars[0] == '+' { 1 } else { 0 };
    let digits = copy_range(chars, start, chars.len());
    assert(digits@ == without_plus(chars@));
    match parse_bounded(digits.as_slice(), 4294967295) {
        Some(v) => Some(v as u32),
        None => None,
    }
}

/// Reads a signed 32-bit number.
pub fn parse_i32(chars: &[char]) -> (value: Option<i32>)
    ensures
        value == i32_of(chars@),
{
    if chars.len() > 0 && chars[0] == '-' {
        let digits = copy_range(chars, 1, chars.len());
        assert(digits@ == chars@.skip(1));
        match parse_bounded(digits.as_slice(), 2147483648) {
            Some(v) => Some((-(v as i64)) as i32),
            None => None,
        }
    } else {
        let start: usize = if chars.len() > 0 && chars[0] == '+' { 1 } else { 0 };
        let digits = copy_range(chars, start, chars.len());
        assert(digits@ == without_plus(chars@));
        match parse_bounded(digits.as_slice(), 2147483647) {
            Some(v) => Some(v as i32),
            None => None,
        }
    }
}

/// The digit that stands for `d`.
pub open spec fn digit_char(d: nat) -> char
    recommends
        d < 10,
{
    ((48 + d) as u8) as char
}

/// The digits of `n`, most significant first and without leading zeros;
/// zero is written `0`.
pub open spec fn digits_of(n: nat) -> Seq<char>
    decreases n,
{
    if n < 10 {
        seq![digit_char(n)]
    } else {
        digits_of(n / 10).push(digit_char(n % 10))
    }
}

/// The decimal form of `v`: a minus sign where it is negative, then its
/// digits.
pub open spec fn decimal_of(v: int) -> Seq<char> {
    if v < 0 {
        seq!['-'] + digits_of((-v) as nat)
    } else {
        digits_of(v as nat)
    }
}

/// The digits of a number are digits, there is at least one, and they
/// spell the number.
pub proof fn lemma_digits_of(n: nat)
    ensures
        digits_of(n).len() > 0,
        all_digits(digits_of(n)),
        decimal_value(digits_of(n)) == n,
    decreases n,
{
    if n < 10 {
        let s = digits_of(n);
        assert(s.drop_last() =~= Seq::<char>::empty());
        assert(decimal_value(s.drop_last()) == 0);
        assert(digit_value(digit_char(n)) == n);
        assert(s.last() == digit_char(n));
    } else {
        lemma_digits_of(n / 10);
        let s = digits_of(n);
        let s0 = digits_of(n / 10);
        assert(s.drop_last() == s0);
        assert(s.last() == digit_char(n % 10));
        assert(digit_value(digit_char(n % 10)) == n % 10);
        assert forall|i: int| 0 <= i < s.len() implies is_digit(#[trigger] s[i]) by {
            if i < s0.len() {
                assert(s[i] == s0[i]);
            }
        }
    }
}

/// The decimal form of a signed 32-bit number reads back as that number.
pub proof fn lemma_decimal_of_reads_back(v: i32)
    ensures
        i32_of(decimal_of(v as int)) == Some(v),
{
    let s = decimal_of(v as int);
    if v < 0 {
        let d = digits_of((-v) as nat);
        lemma_digits_of((-v) as nat);
        assert(s.skip(1) == d);
        assert(s[0] == '-');
    } else {
        lemma_digits_of(v as nat);
        assert(is_digit(s[0]));
        assert(without_plus(s) == s);
    }
}

/// Appends the digits of `n` to `out`.
fn push_digits(n: u32, out: &mut Vec<char>)
    ensures
        final(out)@ == old(out)@ + digits_of(n as nat),
    decreases n,
{
    if n >= 10 {
        push_digits(n / 10, out);
    }
    let d: u8 = (n % 10) as u8;
    out.push((48 + d) as char);
    assert(out@ == old(out)@ + digits_of(n as nat));
}

/// The decimal form of `v`.
pub fn decimal_text(v: i32) -> (out: Vec<char>)
    ensures
        out@ == decimal_of(v as int),
{
    let mut out: Vec<char> = Vec::new();
    if v < 0 {
        out.push('-');
        push_digits((-(v as i64)) as u32, &mut out);
    } else {
        push_digits(v as u32, &mut out);
    }
    out
}

} // verus!
