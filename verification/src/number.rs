//! Decimal numbers as they are written in a request: the grammar of a
//! numeric token and the exact value that it denotes.

use crate::digits::{all_digits, decimal_value, only_digits};
use crate::scaling::{
    floor_scaled, is_at_most, is_equal_to, scaled_floor, spells_zero, CEILING,
};
use crate::text::{chars_of, copy_range, find_from, first_index, text_of};
use vstd::prelude::*;

verus! {

/// What a numeric token denotes. A finite number is
/// `mantissa * 10^exponent`, negated where `negative` is set; no rounding
/// takes place, so every digit that was written counts.
pub enum Decimal {
    NotANumber,
    Infinite { negative: bool },
    Finite { negative: bool, mantissa: nat, exponent: int },
}

/// A whole number of pixels with the given sign and magnitude, kept within
/// the range of `i32`.
pub open spec fn pixels(negative: bool, magnitude: nat) -> int {
    if negative {
        if magnitude >= 2147483648 {
            -2147483648
        } else {
            -(magnitude as int)
        }
    } else {
        if magnitude >= 2147483647 {
            2147483647
        } else {
            magnitude as int
        }
    }
}

impl Decimal {
    /// The number without its fraction, kept within the range of `i32`.
    /// What is not a number counts as zero.
    pub open spec fn truncated(self) -> int {
        match self {
            Decimal::NotANumber => 0,
            Decimal::Infinite { negative } => pixels(negative, CEILING as nat),
            Decimal::Finite { negative, mantissa, exponent } => pixels(
                negative,
                scaled_floor(1, mantissa, exponent),
            ),
        }
    }

    /// So many hundredths of `extent`, without the fraction and kept within
    /// the range of `i32`. An infinite share of nothing counts as zero.
    pub open spec fn percent_of(self, extent: int) -> int {
        match self {
            Decimal::NotANumber => 0,
            Decimal::Infinite { negative } => if extent == 0 {
                0
            } else {
                pixels(negative != (extent < 0), CEILING as nat)
            },
            Decimal::Finite { negative, mantissa, exponent } => pixels(
                negative != (extent < 0),
                scaled_floor(
                    (if extent < 0 {
                        -extent
                    } else {
                        extent
                    }) as nat,
                    mantissa,
                    exponent - 2,
                ),
            ),
        }
    }

    /// Whether the number is zero, of either sign.
    pub open spec fn is_zero(self) -> bool {
        self matches Decimal::Finite { mantissa, .. } && mantissa == 0
    }

    /// Whether the number is finite and lies between zero and `bound`,
    /// both included.
    pub open spec fn is_within(self, bound: nat) -> bool {
        match self {
            Decimal::Finite { negative, mantissa, exponent } => (mantissa == 0 || !negative)
                && is_at_most(mantissa, exponent, bound),
            _ => false,
        }
    }

    /// Whether the number is exactly `value`.
    pub open spec fn is_exactly(self, value: nat) -> bool {
        match self {
            Decimal::Finite { negative, mantissa, exponent } => (mantissa == 0 || !negative)
                && is_equal_to(mantissa, exponent, value),
            _ => false,
        }
    }
}

/// Whether `s` begins with a sign.
pub open spec fn has_sign(s: Seq<char>) -> bool {
    s.len() > 0 && (s[0] == '+' || s[0] == '-')
}

/// Whether `s` begins with a minus sign.
pub open spec fn is_negative(s: Seq<char>) -> bool {
    s.len() > 0 && s[0] == '-'
}

/// `s` without its sign, where it has one.
pub open spec fn unsigned_part(s: Seq<char>) -> Seq<char> {
    if has_sign(s) {
        s.skip(1)
    } else {
        s
    }
}

/// The lower-case form of an ASCII capital; any other character as it is.
pub open spec fn lower(c: char) -> char {
    if 'A' <= c && c <= 'Z' {
        ((c as u8 + 32) as u8) as char
    } else {
        c
    }
}

/// Whether `s` spells the lower-case word `word` when ASCII case is
/// ignored.
pub open spec fn spells_ignoring_case(s: Seq<char>, word: Seq<char>) -> bool {
    s.len() == word.len() && forall|i: int| 0 <= i < s.len() ==> lower(#[trigger] s[i]) == word[i]
}

/// Where the exponent mark (`e` or `E`) stands in `body`, or the length of
/// `body` where there is none.
pub open spec fn exponent_mark(body: Seq<char>) -> int {
    if first_index(body, 'e') <= first_index(body, 'E') {
        first_index(body, 'e')
    } else {
        first_index(body, 'E')
    }
}

/// The digits before the decimal point of the mantissa `m`.
pub open spec fn integer_digits(m: Seq<char>) -> Seq<char> {
    m.take(first_index(m, '.'))
}

/// The digits after the decimal point of the mantissa `m`; none where
/// there is no point.
pub open spec fn fraction_digits(m: Seq<char>) -> Seq<char> {
    if first_index(m, '.') < m.len() {
        m.skip(first_index(m, '.') + 1)
    } else {
        Seq::empty()
    }
}

/// The exponent written in `body`: zero where there is no exponent mark,
/// else the signed run of one or more digits after the mark; `None` where
/// what follows the mark is anything else.
pub open spec fn exponent_of(body: Seq<char>) -> Option<int> {
    let k = exponent_mark(body);
    if k >= body.len() {
        Some(0)
    } else {
        let e = body.skip(k + 1);
        let d = unsigned_part(e);
        if d.len() > 0 && all_digits(d) {
            Some(
                if is_negative(e) {
                    -(decimal_value(d) as int)
                } else {
                    decimal_value(d) as int
                },
            )
        } else {
            None
        }
    }
}

/// The grammar of a numeric token and the number it denotes.
///
/// A token is an optional sign followed by `nan`, `inf` or `infinity` in
/// any mix of ASCII cases, or by a decimal: digits with at most one point
/// among them and at least one digit in all, and then optionally an
/// exponent mark with an optional sign and at least one digit. Nothing may
/// stand before or after. Everything else denotes nothing.
pub open spec fn number_of(s: Seq<char>) -> Option<Decimal> {
    let body = unsigned_part(s);
    if spells_ignoring_case(body, "nan"@) {
        Some(Decimal::NotANumber)
    } else if spells_ignoring_case(body, "inf"@) || spells_ignoring_case(body, "infinity"@) {
        Some(Decimal::Infinite { negative: is_negative(s) })
    } else {
        let m = body.take(exponent_mark(body));
        if is_mantissa(m) {
            match exponent_of(body) {
                Some(e) => Some(
                    Decimal::Finite {
                        negative: is_negative(s),
                        mantissa: decimal_value(integer_digits(m) + fraction_digits(m)),
                        exponent: e - fraction_digits(m).len(),
                    },
                ),
                None => None,
            }
        } else {
            None
        }
    }
}

/// The pieces of a finite token.
pub struct Parts {
    pub negative: bool,
    /// The digits before and after the point, most significant first.
    pub digits: Vec<char>,
    /// How many of the digits stood after the point.
    pub point: usize,
    pub exponent_negative: bool,
    /// The digits of the exponent; none where no exponent was written.
    pub exponent_digits: Vec<char>,
}

impl Parts {
    /// The pieces are digits, and the point lies among them.
    pub open spec fn well_formed(&self) -> bool {
        &&& all_digits(self.digits@)
        &&& all_digits(self.exponent_digits@)
        &&& self.point <= self.digits@.len()
    }

    /// The exponent that was written.
    pub open spec fn written_exponent(&self) -> int {
        if self.exponent_negative {
            -(decimal_value(self.exponent_digits@) as int)
        } else {
            decimal_value(self.exponent_digits@) as int
        }
    }

    /// The number that the pieces denote.
    pub open spec fn value(&self) -> Decimal {
        Decimal::Finite {
            negative: self.negative,
            mantissa: decimal_value(self.digits@),
            exponent: self.written_exponent() - self.point,
        }
    }
}

/// A token taken apart.
pub enum Token {
    NotANumber,
    Infinite(bool),
    Finite(Parts),
}

impl Token {
    /// The pieces of a finite token are well formed.
    pub open spec fn well_formed(&self) -> bool {
        match self {
            Token::Finite(parts) => parts.well_formed(),
            _ => true,
        }
    }

    /// The number that the token denotes.
    pub open spec fn value(&self) -> Decimal {
        match self {
            Token::NotANumber => Decimal::NotANumber,
            Token::Infinite(negative) => Decimal::Infinite { negative: *negative },
            Token::Finite(parts) => parts.value(),
        }
    }
}

/// The lower-case form of an ASCII capital; any other character as it is.
fn to_lower(c: char) -> (l: char)
    ensures
        l == lower(c),
{
    if 'A' <= c && c <= 'Z' {
        ((c as u8 + 32) as u8) as char
    } else {
        c
    }
}

/// Whether `chars` spells the lower-case `word` when ASCII case is ignored.
fn spells_any_case(chars: &[char], word: &str) -> (yes: bool)
    ensures
        yes == spells_ignoring_case(chars@, word@),
{
    let w = chars_of(word);
    if chars.len() != w.len() {
        return false;
    }
    let mut i: usize = 0;
    while i < chars.len()
        invariant
            chars@.len() == w@.len(),
            w@ == word@,
            i <= chars@.len(),
            forall|j: int| 0 <= j < i ==> lower(#[trigger] chars@[j]) == w@[j],
        decreases chars@.len() - i,
    {
        if to_lower(chars[i]) != w[i] {
            return false;
        }
        i += 1;
    }
    true
}

/// Parts the sign from what follows it.
fn strip_sign(chars: &[char]) -> (out: (bool, Vec<char>))
    ensures
        out.0 == is_negative(chars@),
        out.1@ == unsigned_part(chars@),
{
    let n = chars.len();
    let signed = n > 0 && (chars[0] == '+' || chars[0] == '-');
    let negative = n > 0 && chars[0] == '-';
    let start: usize = if signed { 1 } else { 0 };
    (negative, copy_range(chars, start, n))
}

/// Where the exponent mark stands.
fn find_mark(body: &[char]) -> (mark: usize)
    ensures
        mark == exponent_mark(body@),
        mark <= body@.len(),
{
    let lower_mark = find_from(body, 'e', 0);
    let upper_mark = find_from(body, 'E', 0);
    assert(body@.skip(0) == body@);
    if lower_mark <= upper_mark {
        lower_mark
    } else {
        upper_mark
    }
}

/// Whether `m` is a mantissa: digits with at most one point among them,
/// and at least one digit.
pub open spec fn is_mantissa(m: Seq<char>) -> bool {
    all_digits(integer_digits(m)) && all_digits(fraction_digits(m)) && integer_digits(m).len()
        + fraction_digits(m).len() > 0
}

/// The digits of a mantissa and the count of those after the point.
struct Mantissa {
    digits: Vec<char>,
    point: usize,
}

/// The sign and the digits of a written exponent.
struct Exponent {
    negative: bool,
    digits: Vec<char>,
}

/// The digits of a mantissa and the count of those after the point.
fn read_mantissa(m: &[char]) -> (out: Option<Mantissa>)
    ensures
        out is Some == is_mantissa(m@),
        out matches Some(found) ==> found.digits@ == integer_digits(m@) + fraction_digits(m@)
            && found.point == fraction_digits(m@).len(),
{
    let dot = find_from(m, '.', 0);
    assert(m@.skip(0) == m@);
    let mut digits = copy_range(m, 0, dot);
    assert(digits@ == integer_digits(m@));
    let mut fraction = if dot < m.len() {
        copy_range(m, dot + 1, m.len())
    } else {
        Vec::new()
    };
    assert(fraction@ == fraction_digits(m@));
    if !only_digits(digits.as_slice()) || !only_digits(fraction.as_slice()) {
        return None;
    }
    if digits.len() == 0 && fraction.len() == 0 {
        return None;
    }
    let point = fraction.len();
    digits.append(&mut fraction);
    Some(Mantissa { digits, point })
}

/// The sign and the digits of the exponent written after position `mark`
/// of `body`; no digits where `mark` is the end of `body`.
fn read_exponent(body: &[char], mark: usize) -> (out: Option<Exponent>)
    requires
        mark == exponent_mark(body@),
        mark <= body@.len(),
    ensures
        out is Some == exponent_of(body@) is Some,
        out matches Some(found) ==> all_digits(found.digits@) && exponent_of(body@) == Some(
            if found.negative {
                -(decimal_value(found.digits@) as int)
            } else {
                decimal_value(found.digits@) as int
            },
        ),
{
    if mark >= body.len() {
        let none: Vec<char> = Vec::new();
        assert(decimal_value(none@) == 0);
        return Some(Exponent { negative: false, digits: none });
    }
    let e = copy_range(body, mark + 1, body.len());
    assert(e@ == body@.skip(mark + 1));
    let (negative, digits) = strip_sign(e.as_slice());
    if digits.len() == 0 || !only_digits(digits.as_slice()) {
        return None;
    }
    Some(Exponent { negative, digits })
}

/// Takes a numeric token apart, or finds that the text is none.
pub fn read_token(chars: &[char]) -> (token: Option<Token>)
    ensures
        match token {
            Some(t) => t.well_formed() && number_of(chars@) == Some(t.value()),
            None => number_of(chars@) is None,
        },
{
    let (negative, body_vec) = strip_sign(chars);
    let body = body_vec.as_slice();
    if spells_any_case(body, "nan") {
        return Some(Token::NotANumber);
    }
    if spells_any_case(body, "inf") || spells_any_case(body, "infinity") {
        return Some(Token::Infinite(negative));
    }
    let mark = find_mark(body);
    let mantissa = copy_range(body, 0, mark);
    assert(mantissa@ == body@.take(mark as int));
    let mantissa = match read_mantissa(mantissa.as_slice()) {
        Some(found) => found,
        None => {
            return None;
        },
    };
    let exponent = match read_exponent(body, mark) {
        Some(found) => found,
        None => {
            return None;
        },
    };
    Some(
        Token::Finite(
            Parts {
                negative,
                digits: mantissa.digits,
                point: mantissa.point,
                exponent_negative: exponent.negative,
                exponent_digits: exponent.digits,
            },
        ),
    )
}

/// A number as it was written in a request. Its value is exact: see
/// [`Decimal`].
#[derive(Debug)]
pub struct Number {
    text: String,
}

impl Clone for Number {
    fn clone(&self) -> (out: Number)
        ensures
            out@ == self@,
    {
        proof {
            use_type_invariant(self);
        }
        Number { text: self.text.clone() }
    }
}

/// The whole number of pixels with the given sign and magnitude.
fn signed(negative: bool, magnitude: u64) -> (out: i32)
    ensures
        out == pixels(negative, magnitude as nat),
{
    if negative {
        if magnitude >= 2147483648 {
            i32::MIN
        } else {
            -(magnitude as i32)
        }
    } else {
        if magnitude >= 2147483647 {
            i32::MAX
        } else {
            magnitude as i32
        }
    }
}

impl View for Number {
    type V = Decimal;

    closed spec fn view(&self) -> Decimal {
        number_of(self.text@)->0
    }
}

impl Number {
    #[verifier::type_invariant]
    spec fn is_token(&self) -> bool {
        number_of(self.text@) is Some
    }

    /// Reads a numeric token: see [`number_of`] for the grammar.
    pub fn parse(s: &str) -> (number: Option<Number>)
        ensures
            number is Some == number_of(s@) is Some,
            number matches Some(n) ==> number_of(s@) == Some(n@),
    {
        let chars = chars_of(s);
        Number::from_chars(chars.as_slice())
    }

    /// Reads a numeric token from its characters.
    pub fn from_chars(chars: &[char]) -> (number: Option<Number>)
        ensures
            number is Some == number_of(chars@) is Some,
            number matches Some(n) ==> number_of(chars@) == Some(n@),
    {
        match read_token(chars) {
            Some(_) => Some(Number { text: text_of(chars) }),
            None => None,
        }
    }

    /// The token as it was written.
    pub fn as_str(&self) -> (text: &str)
        ensures
            number_of(text@) == Some(self@),
    {
        proof {
            use_type_invariant(self);
        }
        self.text.as_str()
    }

    /// The number without its fraction, as a pixel coordinate.
    pub fn truncate(&self) -> (out: i32)
        ensures
            out == self@.truncated(),
    {
        proof {
            use_type_invariant(self);
        }
        let chars = chars_of(self.text.as_str());
        match read_token(chars.as_slice()) {
            Some(Token::Finite(parts)) => signed(parts.negative, floor_scaled(1, &parts, 0)),
            Some(Token::Infinite(negative)) => signed(negative, CEILING),
            Some(Token::NotANumber) => 0,
            None => 0,
        }
    }

    /// So many hundredths of `extent`, without the fraction.
    pub fn percent_of(&self, extent: i32) -> (out: i32)
        ensures
            out == self@.percent_of(extent as int),
    {
        proof {
            use_type_invariant(self);
        }
        let chars = chars_of(self.text.as_str());
        let size: u32 = if extent < 0 {
            (-(extent as i64)) as u32
        } else {
            extent as u32
        };
        match read_token(chars.as_slice()) {
            Some(Token::Finite(parts)) => signed(
                parts.negative != (extent < 0),
                floor_scaled(size, &parts, 2),
            ),
            Some(Token::Infinite(negative)) => if extent == 0 {
                0
            } else {
                signed(negative != (extent < 0), CEILING)
            },
            Some(Token::NotANumber) => 0,
            None => 0,
        }
    }

    /// Whether the number is zero, of either sign.
    pub fn is_zero(&self) -> (yes: bool)
        ensures
            yes == self@.is_zero(),
    {
        proof {
            use_type_invariant(self);
        }
        let chars = chars_of(self.text.as_str());
        match read_token(chars.as_slice()) {
            Some(Token::Finite(parts)) => spells_zero(parts.digits.as_slice()),
            _ => false,
        }
    }
}

} // verus!
