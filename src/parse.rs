//! Reads integers written in a given radix.

use crate::format::chars_to_string;
use num_traits::Num;
use std::num::ParseIntError;
use vstd::prelude::*;

verus! {

#[verifier::external_type_specification]
#[verifier::external_body]
pub struct ExParseIntError(ParseIntError);

/// The value of digit character `c` in `radix`: `0`-`9`, then `a`-`z` or
/// `A`-`Z` for 10 to 35; `None` when it is no digit below `radix`.
pub open spec fn digit_of(c: char, radix: nat) -> Option<nat> {
    let u = c as u32;
    let d: int = if 48 <= u <= 57 {
        u - 48
    } else if 97 <= u <= 122 {
        u - 87
    } else if 65 <= u <= 90 {
        u - 55
    } else {
        36
    };
    if d < radix {
        Some(d as nat)
    } else {
        None
    }
}

/// The value of a run of digits, most-significant first; `None` when a
/// character is no digit of `radix`.
pub open spec fn digits_value(s: Seq<char>, radix: nat) -> Option<nat>
    decreases s.len(),
{
    if s.len() == 0 {
        Some(0)
    } else {
        match (digits_value(s.drop_last(), radix), digit_of(s.last(), radix)) {
            (Some(a), Some(d)) => Some(a * radix + d),
            _ => None,
        }
    }
}

/// The magnitude of a numeral that is an optional `+` and at least one digit.
pub open spec fn unsigned_numeral(s: Seq<char>, radix: nat) -> Option<nat> {
    let body = if s.len() > 0 && s[0] == '+' {
        s.skip(1)
    } else {
        s
    };
    if body.len() == 0 {
        None
    } else {
        digits_value(body, radix)
    }
}

/// The value of a numeral that is an optional `+` or `-` and at least one
/// digit.
pub open spec fn signed_numeral(s: Seq<char>, radix: nat) -> Option<int> {
    if s.len() > 0 && s[0] == '-' {
        if s.len() == 1 {
            None
        } else {
            match digits_value(s.skip(1), radix) {
                Some(v) => Some(-v),
                None => None,
            }
        }
    } else {
        match unsigned_numeral(s, radix) {
            Some(v) => Some(v as int),
            None => None,
        }
    }
}

/// Relies on `num_traits::Num::from_str_radix` for `u64`, which calls
/// `u64::from_str_radix`: an optional `+` and digits of `radix`, the value
/// fitting in 64 bits; panics for a radix outside 2 to 36.
#[verifier::external_body]
fn u64_from_str_radix(s: &str, radix: u32) -> (r: Result<u64, ParseIntError>)
    requires
        2 <= radix <= 36,
    ensures
        r is Ok <==> (unsigned_numeral(s@, radix as nat) matches Some(v) && v <= u64::MAX),
        r matches Ok(x) ==> unsigned_numeral(s@, radix as nat) == Some(x as nat),
{
    <u64 as Num>::from_str_radix(s, radix)
}

/// Relies on `num_traits::Num::from_str_radix` for `i64`, which calls
/// `i64::from_str_radix`: an optional sign and digits of `radix`, the value
/// fitting in 64 bits; panics for a radix outside 2 to 36.
#[verifier::external_body]
fn i64_from_str_radix(s: &str, radix: u32) -> (r: Result<i64, ParseIntError>)
    requires
        2 <= radix <= 36,
    ensures
        r is Ok <==> (signed_numeral(s@, radix as nat) matches Some(v) && i64::MIN <= v
            <= i64::MAX),
        r matches Ok(x) ==> signed_numeral(s@, radix as nat) == Some(x as int),
{
    <i64 as Num>::from_str_radix(s, radix)
}

/// Relies on `str::chars`, collected: the characters of `s` in order.
#[verifier::external_body]
pub(crate) fn chars_of(s: &str) -> (r: Vec<char>)
    ensures
        r@ == s@,
{
    s.chars().collect()
}

/// Whether `s` begins with the two characters `a` and `b`.
pub open spec fn starts_with2(s: Seq<char>, a: char, b: char) -> bool {
    s.len() >= 2 && s[0] == a && s[1] == b
}

/// `s` with every leading repetition of `a b` removed.
pub open spec fn trim_pair(s: Seq<char>, a: char, b: char) -> Seq<char>
    decreases s.len(),
{
    if starts_with2(s, a, b) {
        trim_pair(s.skip(2), a, b)
    } else {
        s
    }
}

/// The prefix of a radix: `b` for 2, `o` for 8, `x` for 16.
pub open spec fn prefix_letter(radix: nat) -> char {
    if radix == 2 {
        'b'
    } else if radix == 8 {
        'o'
    } else {
        'x'
    }
}

/// The upper-case form of a prefix letter.
pub open spec fn upper_letter(c: char) -> char {
    if c == 'b' {
        'B'
    } else if c == 'o' {
        'O'
    } else {
        'X'
    }
}

/// Bits per digit of a radix that has a prefix.
pub open spec fn bits_per_digit(radix: nat) -> nat {
    if radix == 2 {
        1
    } else if radix == 8 {
        3
    } else {
        4
    }
}

/// Whether a radix is read after its prefix is removed.
pub open spec fn has_prefix(radix: nat) -> bool {
    radix == 2 || radix == 8 || radix == 16
}

/// The digits read for `s` in `radix`: for 2, 8 and 16 every leading lower-case
/// prefix is removed, then every leading upper-case one.
pub open spec fn numeral_text(s: Seq<char>, radix: nat) -> Seq<char> {
    if has_prefix(radix) {
        let l = prefix_letter(radix);
        trim_pair(trim_pair(s, '0', l), '0', upper_letter(l))
    } else {
        s
    }
}

/// The significant bits that a numeral tells: its digits times the bits per
/// digit, for radix 2, 8 and 16 only.
pub open spec fn numeral_bits(s: Seq<char>, radix: nat) -> Option<usize> {
    if has_prefix(radix) {
        Some((numeral_text(s, radix).len() * bits_per_digit(radix)) as usize)
    } else {
        None
    }
}

/// Removes every leading `a b` from `s[start..]`, returning where the rest
/// begins.
fn trim_pair_from(s: &Vec<char>, start: usize, a: char, b: char) -> (r: usize)
    requires
        start <= s@.len(),
    ensures
        start <= r <= s@.len(),
        s@.skip(r as int) == trim_pair(s@.skip(start as int), a, b),
{
    let mut i = start;
    while s.len() - i >= 2 && s[i] == a && s[i + 1] == b
        invariant
            start <= i <= s@.len(),
            trim_pair(s@.skip(start as int), a, b) == trim_pair(s@.skip(i as int), a, b),
        decreases s@.len() - i,
    {
        assert(s@.skip(i as int).skip(2) =~= s@.skip(i + 2));
        i = i + 2;
    }
    i
}

/// The text that is read as digits, as a vector of characters.
fn numeral_chars(s: &Vec<char>, radix: u32) -> (r: Vec<char>)
    ensures
        r@ == numeral_text(s@, radix as nat),
        r@.len() <= s@.len(),
{
    let (lower, upper) = if radix == 2 {
        ('b', 'B')
    } else if radix == 8 {
        ('o', 'O')
    } else if radix == 16 {
        ('x', 'X')
    } else {
        assert(s@.skip(0) =~= s@);
        return s.clone();
    };
    let i = trim_pair_from(s, 0, '0', lower);
    let j = trim_pair_from(s, i, '0', upper);
    assert(s@.skip(0) =~= s@);
    let mut out: Vec<char> = Vec::new();
    let mut k = j;
    while k < s.len()
        invariant
            j <= k <= s@.len(),
            out@ =~= s@.subrange(j as int, k as int),
        decreases s@.len() - k,
    {
        out.push(s[k]);
        k = k + 1;
    }
    assert(out@ =~= s@.skip(j as int));
    out
}

/// Parses `str` as an unsigned integer of `radix`, after removing its
/// prefixes for radix 2, 8 and 16, for which it also returns the number of
/// significant bits that the digits give.
pub fn parse(str: &str, radix: u32) -> (r: Result<(u64, Option<usize>), ParseIntError>)
    requires
        2 <= radix <= 36,
        str@.len() * 4 <= usize::MAX,
    ensures
        r is Ok <==> (unsigned_numeral(numeral_text(str@, radix as nat), radix as nat) matches Some(
            v,
        ) && v <= u64::MAX),
        r matches Ok((x, n)) ==> {
            &&& unsigned_numeral(numeral_text(str@, radix as nat), radix as nat) == Some(x as nat)
            &&& n == numeral_bits(str@, radix as nat)
        },
{
    let chars = chars_of(str);
    let digits = numeral_chars(&chars, radix);
    let text = chars_to_string(&digits);
    match u64_from_str_radix(text.as_str(), radix) {
        Ok(x) => Ok((x, significant_digit_bits(&digits, radix))),
        Err(e) => Err(e),
    }
}

/// Parses `str` as a signed integer of `radix`, like [`parse`].
pub fn parse_signed(str: &str, radix: u32) -> (r: Result<(i64, Option<usize>), ParseIntError>)
    requires
        2 <= radix <= 36,
        str@.len() * 4 <= usize::MAX,
    ensures
        r is Ok <==> (signed_numeral(numeral_text(str@, radix as nat), radix as nat) matches Some(v)
            && i64::MIN <= v <= i64::MAX),
        r matches Ok((x, n)) ==> {
            &&& signed_numeral(numeral_text(str@, radix as nat), radix as nat) == Some(x as int)
            &&& n == numeral_bits(str@, radix as nat)
        },
{
    let chars = chars_of(str);
    let digits = numeral_chars(&chars, radix);
    let text = chars_to_string(&digits);
    match i64_from_str_radix(text.as_str(), radix) {
        Ok(x) => Ok((x, significant_digit_bits(&digits, radix))),
        Err(e) => Err(e),
    }
}

/// The digits' count times the bits per digit, for radix 2, 8 and 16.
fn significant_digit_bits(digits: &Vec<char>, radix: u32) -> (r: Option<usize>)
    requires
        digits@.len() * 4 <= usize::MAX,
    ensures
        has_prefix(radix as nat) ==> r == Some((digits@.len() * bits_per_digit(radix as nat)) as usize),
        !has_prefix(radix as nat) ==> r is None,
{
    if radix == 2 {
        Some(digits.len())
    } else if radix == 8 {
        Some(digits.len() * 3)
    } else if radix == 16 {
        Some(digits.len() * 4)
    } else {
        None
    }
}

/// Tries to identify the radix of an integer string from its first two
/// characters: `0x` is 16, `0b` is 2, `0o` or `0O` is 8; otherwise `None`.
pub fn identify_radix(str: &str) -> (r: Option<u32>)
    ensures
        r == (if starts_with2(str@, '0', 'x') {
            Some(16u32)
        } else if starts_with2(str@, '0', 'b') {
            Some(2u32)
        } else if starts_with2(str@, '0', 'o') || starts_with2(str@, '0', 'O') {
            Some(8u32)
        } else {
            None
        }),
{
    let s = chars_of(str);
    if s.len() < 2 || s[0] != '0' {
        None
    } else if s[1] == 'x' {
        Some(16)
    } else if s[1] == 'b' {
        Some(2)
    } else if s[1] == 'o' || s[1] == 'O' {
        Some(8)
    } else {
        None
    }
}

} // verus!
