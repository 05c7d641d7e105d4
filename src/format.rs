//! Renders an [`Integer`] in binary, octal, decimal and hexadecimal.

use crate::bits::{
    bit_seq, bits_value, bv_get, bv_len, int_from_slice, lemma_value_bound, twos_comp, Bits,
};
use crate::integer::Integer;
use vstd::arithmetic::div_mod::lemma_fundamental_div_mod;
use vstd::arithmetic::power2::{lemma2_to64, pow2};
use vstd::prelude::*;

verus! {

/// The character for digit `d`: `0`-`9`, then `a`-`z`.
pub open spec fn digit_char(d: nat) -> char {
    seq![
        '0', '1', '2', '3', '4', '5', '6', '7', '8', '9', 'a', 'b', 'c', 'd', 'e', 'f', 'g', 'h',
        'i', 'j', 'k', 'l', 'm', 'n', 'o', 'p', 'q', 'r', 's', 't', 'u', 'v', 'w', 'x', 'y', 'z',
    ][d as int]
}

/// The bits written most-significant first, `1` for a set bit.
pub open spec fn binary_of(s: Seq<bool>) -> Seq<char> {
    Seq::new(s.len(), |k: int| if s[s.len() - 1 - k] { '1' } else { '0' })
}

/// The number of groups of `g` bits that `len` bits make, the last one
/// possibly short.
pub open spec fn group_count(len: nat, g: nat) -> nat {
    if len % g == 0 { len / g } else { len / g + 1 }
}

/// Start of group `j`.
pub open spec fn group_start(g: nat, j: int) -> int {
    j * g
}

/// End of group `j`: the next group's start, or the length for the last.
pub open spec fn group_end(len: nat, g: nat, j: int) -> int {
    if (j + 1) * g < len { (j + 1) * g } else { len as int }
}

/// The bits `s` split into groups of `g` from the least-significant end, each
/// written as one digit, the most-significant group first.
pub open spec fn grouped_digits(s: Seq<bool>, g: nat) -> Seq<char> {
    let n = group_count(s.len(), g);
    Seq::new(
        n,
        |k: int|
            digit_char(
                bits_value(
                    s.subrange(group_start(g, n - 1 - k), group_end(s.len(), g, n - 1 - k)),
                ),
            ),
    )
}

/// Decimal digits of `n`, most-significant first, without leading zeros.
pub open spec fn dec_digits(n: nat) -> Seq<char>
    decreases n,
{
    if n < 10 {
        seq![digit_char(n)]
    } else {
        dec_digits(n / 10).push(digit_char(n % 10))
    }
}

/// Decimal text of an integer: for a negative one, `-` and the digits of its
/// two's complement read unsigned; otherwise the digits of its bits read
/// unsigned.
pub open spec fn decimal_text(bits: Seq<bool>, negative: bool) -> Seq<char> {
    if negative {
        seq!['-'] + dec_digits(bits_value(twos_comp(bits)))
    } else {
        dec_digits(bits_value(bits))
    }
}

/// Relies on `char::from_digit`: `None` when `num` is not below `radix`,
/// else the digit `0`-`9` or the lower-case letter; panics for a radix
/// above 36.
#[verifier::external_body]
fn from_digit(num: u32, radix: u32) -> (r: Option<char>)
    requires
        2 <= radix <= 36,
    ensures
        num < radix ==> r == Some(digit_char(num as nat)),
        num >= radix ==> r is None,
{
    char::from_digit(num, radix)
}

/// Relies on `String`'s `FromIterator<char>`: the characters in order.
#[verifier::external_body]
pub(crate) fn chars_to_string(v: &Vec<char>) -> (r: String)
    ensures
        r@ == v@,
{
    v.iter().collect()
}

/// Converts the bits `lo .. hi` into a digit of the given radix.
fn bits_to_char(b: &Bits, lo: usize, hi: usize, radix: u32) -> (r: char)
    requires
        lo <= hi <= bit_seq(*b).len(),
        hi - lo <= 4,
        2 <= radix <= 36,
        pow2((hi - lo) as nat) <= radix,
    ensures
        r == digit_char(bits_value(bit_seq(*b).subrange(lo as int, hi as int))),
{
    proof {
        lemma2_to64();
        lemma_value_bound(bit_seq(*b).subrange(lo as int, hi as int));
    }
    let v = int_from_slice(b, lo, hi);
    from_digit(v as u32, radix).unwrap()
}

/// Writes the bits in groups of `g`, one digit of `radix` each.
fn grouped_string(b: &Bits, g: usize, radix: u32) -> (r: String)
    requires
        (g == 3 && radix == 8) || (g == 4 && radix == 16),
    ensures
        r@ == grouped_digits(bit_seq(*b), g as nat),
{
    let ghost s = bit_seq(*b);
    let len = bv_len(b);
    let n = if len % g == 0 {
        len / g
    } else {
        len / g + 1
    };
    let mut out: Vec<char> = Vec::new();
    let mut k: usize = 0;
    while k < n
        invariant
            (g == 3 && radix == 8) || (g == 4 && radix == 16),
            s == bit_seq(*b),
            len == s.len(),
            n == group_count(len as nat, g as nat),
            k <= n,
            out@ =~= grouped_digits(s, g as nat).take(k as int),
        decreases n - k,
    {
        let j = n - 1 - k;
        proof {
            let q = len / g;
            let rm = len % g;
            lemma_fundamental_div_mod(len as int, g as int);
            assert(j * g < len) by (nonlinear_arith)
                requires
                    len == g * q + rm,
                    0 <= rm < g,
                    (rm == 0 && j + 1 <= q) || (rm > 0 && j <= q),
            ;
        }
        let lo = j * g;
        let hi = if len - lo > g {
            lo + g
        } else {
            len
        };
        proof {
            lemma2_to64();
            assert(group_start(g as nat, j as int) == lo);
            assert(group_end(len as nat, g as nat, j as int) == hi);
        }
        let c = bits_to_char(b, lo, hi, radix);
        out.push(c);
        k = k + 1;
    }
    chars_to_string(&out)
}

/// Writes the decimal digits of `n`.
fn decimal_digits(n: u64) -> (r: Vec<char>)
    ensures
        r@ == dec_digits(n as nat),
{
    let mut low: Vec<char> = Vec::new();
    let mut cur: u64 = n;
    while cur >= 10
        invariant
            dec_digits(n as nat) == dec_digits(cur as nat) + Seq::new(
                low@.len(),
                |i: int| low@[low@.len() - 1 - i],
            ),
        decreases cur,
    {
        let d = from_digit((cur % 10) as u32, 10).unwrap();
        let ghost before = low@;
        low.push(d);
        assert(Seq::new(low@.len(), |i: int| low@[low@.len() - 1 - i]) =~= seq![d] + Seq::new(
            before.len(),
            |i: int| before[before.len() - 1 - i],
        ));
        assert(dec_digits(cur as nat) == dec_digits((cur / 10) as nat).push(d));
        cur = cur / 10;
    }
    let mut out: Vec<char> = Vec::new();
    out.push(from_digit(cur as u32, 10).unwrap());
    let mut i: usize = 0;
    while i < low.len()
        invariant
            dec_digits(n as nat) == dec_digits(cur as nat) + Seq::new(
                low@.len(),
                |i: int| low@[low@.len() - 1 - i],
            ),
            cur < 10,
            i <= low@.len(),
            out@ =~= seq![digit_char(cur as nat)] + Seq::new(
                i as nat,
                |x: int| low@[low@.len() - 1 - x],
            ),
        decreases low@.len() - i,
    {
        out.push(low[low.len() - 1 - i]);
        i = i + 1;
    }
    assert(dec_digits(cur as nat) == seq![digit_char(cur as nat)]);
    assert(out@ =~= dec_digits(n as nat));
    out
}

/// Text renderings of a bit sequence.
pub trait FormatBits {
    /// The bits rendered, least-significant first.
    spec fn bit_pattern(&self) -> Seq<bool>;

    /// Returns a binary representation of the bits.
    fn binary_string(&self) -> (r: String)
        ensures
            r@ == binary_of(self.bit_pattern()),
    ;

    /// Returns an octal representation of the bits.
    fn octal_string(&self) -> (r: String)
        ensures
            r@ == grouped_digits(self.bit_pattern(), 3),
    ;

    /// Returns a hex representation of the bits.
    fn hex_string(&self) -> (r: String)
        ensures
            r@ == grouped_digits(self.bit_pattern(), 4),
    ;
}

impl FormatBits for Integer {
    open spec fn bit_pattern(&self) -> Seq<bool> {
        self.bit_view()
    }

    fn binary_string(&self) -> (r: String) {
        let ghost s = self.bit_view();
        let len = bv_len(&self.bits);
        let mut out: Vec<char> = Vec::new();
        let mut k: usize = 0;
        while k < len
            invariant
                s == bit_seq(self.bits),
                len == s.len(),
                k <= len,
                out@ =~= binary_of(s).take(k as int),
            decreases len - k,
        {
            let c = if bv_get(&self.bits, len - 1 - k) {
                '1'
            } else {
                '0'
            };
            out.push(c);
            k = k + 1;
        }
        chars_to_string(&out)
    }

    fn octal_string(&self) -> (r: String) {
        grouped_string(&self.bits, 3, 8)
    }

    fn hex_string(&self) -> (r: String) {
        grouped_string(&self.bits, 4, 16)
    }
}

impl Integer {
    /// Returns the decimal representation: the two's complement negated when
    /// the integer is negative, the bits read unsigned otherwise.
    pub fn decimal_string(&self) -> (r: String)
        requires
            self.wf(),
        ensures
            r@ == decimal_text(self.bit_view(), self.negative_flag()),
    {
        let len = bv_len(&self.bits);
        if self.negative {
            let tc = self.twos_complement();
            let mag = int_from_slice(&tc, 0, len);
            assert(bit_seq(tc).subrange(0, len as int) =~= twos_comp(self.bit_view()));
            let mut out: Vec<char> = Vec::new();
            out.push('-');
            let mut digits = decimal_digits(mag);
            out.append(&mut digits);
            assert(out@ =~= decimal_text(self.bit_view(), self.negative_flag()));
            chars_to_string(&out)
        } else {
            let mag = int_from_slice(&self.bits, 0, len);
            assert(self.bit_view().subrange(0, len as int) =~= self.bit_view());
            let digits = decimal_digits(mag);
            chars_to_string(&digits)
        }
    }
}

} // verus!
