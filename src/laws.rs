//! Facts that tie construction, rendering and reading together.

use crate::bits::{bit_value, bits_value, lemma_value_push};
use crate::format::{binary_of, dec_digits, decimal_text, digit_char, group_count, group_end, group_start};
use crate::integer::{construct_bits, IntegerOptions};
use crate::parse::{digit_of, digits_value, numeral_text, starts_with2, trim_pair, unsigned_numeral};
use vstd::arithmetic::div_mod::lemma_fundamental_div_mod;
use vstd::arithmetic::power2::{lemma2_to64, lemma_pow2_strictly_increases};
use vstd::prelude::*;

verus! {

/// An integer built with width `size` has exactly `size` bits.
pub proof fn law_width(v: u64, o: IntegerOptions)
    ensures
        construct_bits(v, o).len() == o.size,
{
}

/// A digit below 16 reads back as itself.
proof fn lemma_digit_round_trip(d: nat, radix: nat)
    requires
        d < radix <= 16,
    ensures
        digit_of(digit_char(d), radix) == Some(d),
{
    assert(('0' as u32) == 48);
    assert(('a' as u32) == 97);
    assert(('9' as u32) == 57);
    if d == 0 { assert(digit_char(d) == '0'); }
    else if d == 1 { assert(digit_char(d) == '1'); assert(('1' as u32) == 49); }
    else if d == 2 { assert(digit_char(d) == '2'); assert(('2' as u32) == 50); }
    else if d == 3 { assert(digit_char(d) == '3'); assert(('3' as u32) == 51); }
    else if d == 4 { assert(digit_char(d) == '4'); assert(('4' as u32) == 52); }
    else if d == 5 { assert(digit_char(d) == '5'); assert(('5' as u32) == 53); }
    else if d == 6 { assert(digit_char(d) == '6'); assert(('6' as u32) == 54); }
    else if d == 7 { assert(digit_char(d) == '7'); assert(('7' as u32) == 55); }
    else if d == 8 { assert(digit_char(d) == '8'); assert(('8' as u32) == 56); }
    else if d == 9 { assert(digit_char(d) == '9'); }
    else if d == 10 { assert(digit_char(d) == 'a'); }
    else if d == 11 { assert(digit_char(d) == 'b'); assert(('b' as u32) == 98); }
    else if d == 12 { assert(digit_char(d) == 'c'); assert(('c' as u32) == 99); }
    else if d == 13 { assert(digit_char(d) == 'd'); assert(('d' as u32) == 100); }
    else if d == 14 { assert(digit_char(d) == 'e'); assert(('e' as u32) == 101); }
    else { assert(digit_char(d) == 'f'); assert(('f' as u32) == 102); }
}

/// The decimal digits of `n` read back as `n`, and start with a digit.
proof fn lemma_dec_digits(n: nat)
    ensures
        digits_value(dec_digits(n), 10) == Some(n),
        dec_digits(n).len() > 0,
        dec_digits(n)[0] != '+',
    decreases n,
{
    if n < 10 {
        lemma_digit_round_trip(n, 10);
        let s = dec_digits(n);
        assert(s.drop_last() =~= Seq::<char>::empty());
        assert(digits_value(s.drop_last(), 10) == Some(0nat));
        assert(s.last() == digit_char(n));
        assert(digit_of('+', 10) is None);
    } else {
        lemma_dec_digits(n / 10);
        lemma_digit_round_trip(n % 10, 10);
        let s = dec_digits(n);
        assert(s.drop_last() =~= dec_digits(n / 10));
        assert(s.last() == digit_char(n % 10));
        assert(n == (n / 10) * 10 + n % 10);
        assert(s[0] == dec_digits(n / 10)[0]);
    }
}

/// Rendering a non-negative integer in decimal and reading the text back in
/// base 10 gives its magnitude, which fits in 64 bits.
pub proof fn law_decimal_round_trip(s: Seq<bool>)
    requires
        s.len() <= 64,
    ensures
        unsigned_numeral(numeral_text(decimal_text(s, false), 10), 10) == Some(bits_value(s)),
        bits_value(s) <= u64::MAX,
{
    crate::bits::lemma_value_bound(s);
    lemma2_to64();
    if s.len() < 64 {
        lemma_pow2_strictly_increases(s.len(), 64);
    }
    lemma_dec_digits(bits_value(s));
}

/// The binary text, read as base-2 digits, has the bits' value.
proof fn lemma_binary_value(s: Seq<bool>)
    ensures
        digits_value(binary_of(s), 2) == Some(bits_value(s)),
    decreases s.len(),
{
    if s.len() > 0 {
        let t = s.skip(1);
        lemma_binary_value(t);
        assert(binary_of(s).drop_last() =~= binary_of(t));
        assert(('1' as u32) == 49);
        assert(('0' as u32) == 48);
        assert(digit_of(binary_of(s).last(), 2) == Some(bit_value(s[0])));
    } else {
        assert(binary_of(s) =~= Seq::<char>::empty());
    }
}

/// The binary text has one character per bit, and read back in base 2 it
/// gives the bits' unsigned value.
pub proof fn law_binary_round_trip(s: Seq<bool>)
    requires
        s.len() > 0,
    ensures
        binary_of(s).len() == s.len(),
        unsigned_numeral(numeral_text(binary_of(s), 2), 2) == Some(bits_value(s)),
{
    let b = binary_of(s);
    assert(!starts_with2(b, '0', 'b'));
    assert(trim_pair(b, '0', 'b') == b);
    assert(!starts_with2(b, '0', 'B'));
    assert(trim_pair(b, '0', 'B') == b);
    lemma_binary_value(s);
}

/// Splitting `len` bits into digits of `g` bits from the least-significant
/// end puts every bit in exactly one digit: bit `i` in group `i / g`.
pub proof fn law_groups_partition(len: nat, g: nat)
    requires
        g > 0,
    ensures
        forall|i: int| 0 <= i < len ==> #[trigger] (i / g as int) < group_count(len, g),
        forall|i: int, j: int|
            0 <= i < len && 0 <= j < group_count(len, g) ==> ((group_start(g, j) <= i < #[trigger] group_end(len, g, j))
                <==> j == #[trigger] (i / g as int)),
{
    assert forall|i: int| 0 <= i < len implies #[trigger] (i / g as int) < group_count(len, g) by {
        lemma_fundamental_div_mod(i, g as int);
        lemma_fundamental_div_mod(len as int, g as int);
        let q = i / g as int;
        let lq = len as int / g as int;
        let lr = len as int % g as int;
        assert(q < group_count(len, g)) by (nonlinear_arith)
            requires
                i == g * q + i % g as int,
                0 <= i % g as int,
                i < len,
                len == g * lq + lr,
                0 <= lr < g,
                group_count(len, g) == (if lr == 0 { lq } else { lq + 1 }),
                g > 0,
        ;
    }
    assert forall|i: int, j: int|
        0 <= i < len && 0 <= j < group_count(len, g) implies ((group_start(g, j) <= i < #[trigger] group_end(len, g, j))
            <==> j == #[trigger] (i / g as int)) by {
        lemma_fundamental_div_mod(i, g as int);
        let q = i / g as int;
        let r = i % g as int;
        assert((j * g <= i < (j + 1) * g) <==> j == q) by (nonlinear_arith)
            requires
                i == g * q + r,
                0 <= r < g,
                g > 0,
        ;
    }
}

} // verus!
