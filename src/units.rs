//! Fixed-point amount codec: decimal text scaled by a token's decimal count.

use crate::uint::{uint_bound, Uint256};
use alloy::primitives::utils::{format_units, parse_units};
use alloy::primitives::U256;
use vstd::arithmetic::power::pow;
use vstd::prelude::*;

verus! {

/// The largest decimal count the codec accepts.
pub const MAX_DECIMALS: u64 = 77;

pub open spec fn is_digit(c: char) -> bool {
    '0' <= c && c <= '9'
}

pub open spec fn digit_value(c: char) -> nat {
    ((c as u32) - ('0' as u32)) as nat
}

/// The number a string of decimal digits stands for (most significant first).
pub open spec fn digits_value(s: Seq<char>) -> nat
    decreases s.len(),
{
    if s.len() == 0 {
        0
    } else {
        digits_value(s.drop_last()) * 10 + digit_value(s.last())
    }
}

pub open spec fn has_dot(s: Seq<char>) -> bool {
    exists|i: int| 0 <= i < s.len() && s[i] == '.'
}

pub open spec fn dot_pos(s: Seq<char>) -> int {
    choose|i: int| 0 <= i < s.len() && s[i] == '.'
}

/// The digits before the decimal point (all of them when there is none).
pub open spec fn int_part(s: Seq<char>) -> Seq<char> {
    if has_dot(s) {
        s.subrange(0, dot_pos(s))
    } else {
        s
    }
}

/// The digits after the decimal point.
pub open spec fn frac_part(s: Seq<char>) -> Seq<char> {
    if has_dot(s) {
        s.subrange(dot_pos(s) + 1, s.len() as int)
    } else {
        Seq::empty()
    }
}

/// The number of digits after the decimal point.
pub open spec fn frac_len(s: Seq<char>) -> nat {
    frac_part(s).len()
}

/// A plain decimal numeral: digits with at most one point, and at least one digit.
pub open spec fn valid_decimal(s: Seq<char>) -> bool {
    &&& forall|i: int| 0 <= i < s.len() ==> is_digit(#[trigger] s[i]) || s[i] == '.'
    &&& forall|i: int, j: int|
        0 <= i < s.len() && 0 <= j < s.len() && #[trigger] s[i] == '.' && #[trigger] s[j] == '.'
            ==> i == j
    &&& exists|i: int| 0 <= i < s.len() && is_digit(#[trigger] s[i])
}

/// The numeral's value scaled by `10^decimals` (for at most `decimals` fraction digits).
pub open spec fn decimal_value(s: Seq<char>, decimals: nat) -> nat {
    digits_value(int_part(s) + frac_part(s)) * (pow(10, (decimals - frac_len(s)) as nat) as nat)
}

/// Why a text is not an amount.
#[derive(Clone, Copy, Debug, PartialEq, Eq, Structural)]
pub enum ParseError {
    /// Empty, or not digits with at most one decimal point.
    Malformed,
    /// More fraction digits than the token's decimals can hold.
    TooManyFractionDigits,
    /// A decimal count above `MAX_DECIMALS`.
    UnsupportedDecimals,
    /// The scaled value does not fit in 256 bits.
    Overflow,
}

/// What `parse_amount` returns, over the text's characters.
pub open spec fn parse_spec(s: Seq<char>, decimals: nat) -> Result<nat, ParseError> {
    if !valid_decimal(s) {
        Err(ParseError::Malformed)
    } else if frac_len(s) > decimals {
        Err(ParseError::TooManyFractionDigits)
    } else if decimals > MAX_DECIMALS {
        Err(ParseError::UnsupportedDecimals)
    } else if decimal_value(s, decimals) >= uint_bound() {
        Err(ParseError::Overflow)
    } else {
        Ok(decimal_value(s, decimals))
    }
}

/// Relies on `str::chars` collected into a `Vec`: the same characters.
#[verifier::external_body]
fn chars_of(s: &str) -> (r: Vec<char>)
    ensures
        r@ == s@,
{
    s.chars().collect()
}

/// Relies on collecting `char`s into a `String`: the same characters.
#[verifier::external_body]
fn string_of(v: &Vec<char>) -> (r: String)
    ensures
        r@ == v@,
{
    v.iter().collect()
}

/// Relies on alloy's `parse_units`: for a plain non-negative numeral with no
/// more fraction digits than the unit, the numeral scaled by `10^decimals`,
/// or an error when that does not fit in a `U256`.
#[verifier::external_body]
fn units_parse(s: &str, decimals: u8) -> (r: Option<Uint256>)
    requires
        valid_decimal(s@),
        frac_len(s@) <= decimals,
        decimals <= MAX_DECIMALS,
    ensures
        r is Some <==> decimal_value(s@, decimals as nat) < uint_bound(),
        r matches Some(v) ==> v.value() == decimal_value(s@, decimals as nat),
{
    parse_units(s, decimals).ok().map(|p| Uint256 { limbs: p.get_absolute().into_limbs() })
}

/// The character of a decimal digit below ten.
pub open spec fn digit_char(d: nat) -> char {
    seq!['0', '1', '2', '3', '4', '5', '6', '7', '8', '9'][d as int]
}

/// The decimal digits of `n`, most significant first, without leading zeros.
pub open spec fn nat_digits(n: nat) -> Seq<char>
    decreases n,
{
    if n < 10 {
        seq![digit_char(n)]
    } else {
        nat_digits(n / 10).push(digit_char(n % 10))
    }
}

/// `s` left-padded with zeros to `width` characters.
pub open spec fn zero_pad(s: Seq<char>, width: nat) -> Seq<char> {
    if s.len() < width {
        Seq::new((width - s.len()) as nat, |i: int| '0') + s
    } else {
        s
    }
}

/// A value scaled by `10^decimals`, written with every fraction digit.
pub open spec fn units_text(v: nat, decimals: nat) -> Seq<char> {
    nat_digits(v / (pow(10, decimals) as nat)) + seq!['.'] + zero_pad(
        nat_digits(v % (pow(10, decimals) as nat)),
        decimals,
    )
}

pub open spec fn strip_zeros(s: Seq<char>) -> Seq<char>
    decreases s.len(),
{
    if s.len() > 0 && s.last() == '0' {
        strip_zeros(s.drop_last())
    } else {
        s
    }
}

/// A point-bearing numeral without trailing fraction zeros, nor a bare trailing point.
pub open spec fn minimal(s: Seq<char>) -> Seq<char> {
    let t = strip_zeros(s);
    if t.len() > 0 && t.last() == '.' {
        t.drop_last()
    } else {
        t
    }
}

/// What `format_amount` writes for a value scaled by `10^decimals`.
pub open spec fn format_spec(v: nat, decimals: nat) -> Option<Seq<char>> {
    if decimals <= MAX_DECIMALS {
        Some(minimal(units_text(v, decimals)))
    } else {
        None
    }
}

/// Relies on alloy's `format_units` for a `U256`: the integer part, a point,
/// and the remainder left-padded with zeros to `decimals` digits; an error
/// for a unit above 77.
#[verifier::external_body]
fn units_format(v: Uint256, decimals: u8) -> (r: Option<Vec<char>>)
    ensures
        r is Some <==> decimals <= MAX_DECIMALS,
        r matches Some(t) ==> t@ == units_text(v.value(), decimals as nat),
{
    format_units(U256::from_limbs(v.limbs), decimals).ok().map(|t| t.chars().collect())
}

/// Parses a decimal numeral into an integer scaled by `10^decimals`.
/// Text with more fraction digits than `decimals` is rejected, not rounded.
pub fn parse_amount(text: &str, decimals: u64) -> (r: Result<Uint256, ParseError>)
    ensures
        match r {
            Ok(v) => parse_spec(text@, decimals as nat) == Ok::<nat, ParseError>(v.value()),
            Err(e) => parse_spec(text@, decimals as nat) == Err::<nat, ParseError>(e),
        },
{
    let cs = chars_of(text);
    let n = cs.len();
    let mut dot: Option<usize> = None;
    let mut has_digit = false;
    let mut i: usize = 0;
    while i < n
        invariant
            n == cs@.len(),
            cs@ == text@,
            i <= n,
            forall|k: int| 0 <= k < i ==> is_digit(#[trigger] cs@[k]) || cs@[k] == '.',
            match dot {
                Some(p) => p < i && cs@[p as int] == '.' && forall|k: int|
                    0 <= k < i && #[trigger] cs@[k] == '.' ==> k == p,
                None => forall|k: int| 0 <= k < i ==> #[trigger] cs@[k] != '.',
            },
            has_digit <==> exists|k: int| 0 <= k < i && is_digit(#[trigger] cs@[k]),
        decreases n - i,
    {
        let c = cs[i];
        if c == '.' {
            if dot.is_some() {
                return Err(ParseError::Malformed);
            }
            dot = Some(i);
        } else if '0' <= c && c <= '9' {
            has_digit = true;
        } else {
            assert(!valid_decimal(text@));
            return Err(ParseError::Malformed);
        }
        i = i + 1;
    }
    if !has_digit {
        return Err(ParseError::Malformed);
    }
    assert(valid_decimal(text@));
    let frac: usize = match dot {
        Some(p) => n - 1 - p,
        None => 0,
    };
    assert(frac == frac_len(text@));
    if frac as u64 > decimals {
        return Err(ParseError::TooManyFractionDigits);
    }
    if decimals > MAX_DECIMALS {
        return Err(ParseError::UnsupportedDecimals);
    }
    match units_parse(text, decimals as u8) {
        Some(v) => Ok(v),
        None => Err(ParseError::Overflow),
    }
}

/// Writes an integer scaled by `10^decimals` as a decimal numeral with no
/// trailing fraction zeros; `None` for a decimal count above `MAX_DECIMALS`.
pub fn format_amount(v: Uint256, decimals: u64) -> (r: Option<String>)
    ensures
        match r {
            Some(t) => format_spec(v.value(), decimals as nat) == Some(t@),
            None => format_spec(v.value(), decimals as nat) is None,
        },
{
    if decimals > MAX_DECIMALS {
        return None;
    }
    let mut t = match units_format(v, decimals as u8) {
        Some(t) => t,
        None => return None,
    };
    let ghost full = t@;
    while t.len() > 0 && t[t.len() - 1] == '0'
        invariant
            strip_zeros(t@) == strip_zeros(full),
        decreases t.len(),
    {
        t.pop();
    }
    assert(strip_zeros(t@) == t@);
    if t.len() > 0 && t[t.len() - 1] == '.' {
        t.pop();
    }
    Some(string_of(&t))
}

} // verus!
