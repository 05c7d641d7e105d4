//! The bit sequence underneath an integer: bitvec's `BitVec`, seen by the
//! proofs as a `Seq<bool>` with index 0 the least-significant bit.

use bitvec::order::Lsb0;
use bitvec::vec::BitVec;
use bitvec::view::BitView;
use vstd::arithmetic::power2::{lemma2_to64, lemma_pow2_unfold, pow2};
use vstd::bits::{lemma_u64_pow2_no_overflow, lemma_u64_shl_is_mul};
use vstd::prelude::*;

verus! {

/// A bit sequence kept in bitvec's `BitVec`, least-significant bit first.
#[verifier::external_body]
pub struct Bits {
    inner: BitVec<u64, Lsb0>,
}

/// The bits a `Bits` holds, least-significant first.
pub uninterp spec fn bit_seq(b: Bits) -> Seq<bool>;

/// Bit `i` of a 64-bit word.
pub open spec fn word_bit(v: u64, i: int) -> bool {
    (v >> (i as u64)) & 1u64 == 1u64
}

/// The 64 bits of a word, least-significant first.
pub open spec fn word_bits(v: u64) -> Seq<bool> {
    Seq::new(64, |i: int| word_bit(v, i))
}

/// Relies on `BitView::view_bits` and `BitSlice::to_bitvec`: the bits of a
/// word in `Lsb0` order, bit `i` standing for `1 << i`.
#[verifier::external_body]
pub(crate) fn bits_of_word(v: u64) -> (r: Bits)
    ensures
        bit_seq(r) == word_bits(v),
{
    Bits { inner: v.view_bits::<Lsb0>().to_bitvec() }
}

/// Relies on `BitVec::len`.
#[verifier::external_body]
pub(crate) fn bv_len(b: &Bits) -> (r: usize)
    ensures
        r == bit_seq(*b).len(),
{
    b.inner.len()
}

/// Relies on indexing a `BitSlice`, which panics out of bounds.
#[verifier::external_body]
pub(crate) fn bv_get(b: &Bits, i: usize) -> (r: bool)
    requires
        i < bit_seq(*b).len(),
    ensures
        r == bit_seq(*b)[i as int],
{
    b.inner[i]
}

/// Relies on `BitSlice::set`, which panics out of bounds.
#[verifier::external_body]
pub(crate) fn bv_set(b: &mut Bits, i: usize, value: bool)
    requires
        i < bit_seq(*old(b)).len(),
    ensures
        bit_seq(*final(b)) == bit_seq(*old(b)).update(i as int, value),
{
    b.inner.set(i, value)
}

/// Relies on `BitVec::truncate`: keeps the first `n` bits, and does nothing
/// when there are not more than `n`.
#[verifier::external_body]
pub(crate) fn bv_truncate(b: &mut Bits, n: usize)
    ensures
        n < bit_seq(*old(b)).len() ==> bit_seq(*final(b)) == bit_seq(*old(b)).take(n as int),
        n >= bit_seq(*old(b)).len() ==> bit_seq(*final(b)) == bit_seq(*old(b)),
{
    b.inner.truncate(n)
}

/// Relies on `BitVec::clone`: the copy holds the same bits.
#[verifier::external_body]
pub(crate) fn bv_clone(b: &Bits) -> (r: Bits)
    ensures
        bit_seq(r) == bit_seq(*b),
{
    Bits { inner: b.inner.clone() }
}

/// Relies on `BitSlice::trailing_zeros`: the number of cleared bits after the
/// last set one, counted from the end; the whole length when none is set.
#[verifier::external_body]
pub(crate) fn bv_trailing_zeros(b: &Bits) -> (r: usize)
    ensures
        r <= bit_seq(*b).len(),
        forall|i: int| bit_seq(*b).len() - r <= i < bit_seq(*b).len() ==> !#[trigger] bit_seq(*b)[i],
        r < bit_seq(*b).len() ==> bit_seq(*b)[bit_seq(*b).len() - r - 1],
{
    b.inner.trailing_zeros()
}

/// Relies on `BitSlice::first_one`: the index of the lowest set bit.
#[verifier::external_body]
pub(crate) fn bv_first_one(b: &Bits) -> (r: Option<usize>)
    ensures
        r is None ==> forall|i: int| 0 <= i < bit_seq(*b).len() ==> !#[trigger] bit_seq(*b)[i],
        r matches Some(k) ==> k < bit_seq(*b).len() && bit_seq(*b)[k as int] && forall|i: int|
            0 <= i < k ==> !#[trigger] bit_seq(*b)[i],
{
    b.inner.first_one()
}

/// 1 for a set bit, 0 for a clear one.
pub open spec fn bit_value(b: bool) -> nat {
    if b { 1 } else { 0 }
}

/// The unsigned value of a bit sequence, least-significant bit first.
pub open spec fn bits_value(s: Seq<bool>) -> nat
    decreases s.len(),
{
    if s.len() == 0 {
        0
    } else {
        bit_value(s[0]) + 2 * bits_value(s.skip(1))
    }
}

/// Two's complement of a bit sequence: each bit that has a set bit below it
/// is inverted, the others are kept.
pub open spec fn twos_comp(s: Seq<bool>) -> Seq<bool> {
    Seq::new(s.len(), |i: int| if exists|j: int| 0 <= j < i && s[j] { !s[i] } else { s[i] })
}

/// Appending a bit adds its weight at the top.
pub proof fn lemma_value_push(s: Seq<bool>, b: bool)
    ensures
        bits_value(s.push(b)) == bits_value(s) + bit_value(b) * pow2(s.len()),
    decreases s.len(),
{
    if s.len() > 0 {
        assert(s.push(b).skip(1) =~= s.skip(1).push(b));
        lemma_value_push(s.skip(1), b);
        assert(s.push(b)[0] == s[0]);
        assert(bits_value(s.push(b)) == bit_value(s[0]) + 2 * bits_value(s.skip(1).push(b)));
        lemma_pow2_unfold(s.len());
        let p = pow2((s.len() - 1) as nat);
        assert(2 * (bit_value(b) * p) == bit_value(b) * (2 * p)) by (nonlinear_arith);
    } else {
        lemma2_to64();
        assert(s.push(b).skip(1) =~= Seq::<bool>::empty());
        assert(s.push(b)[0] == b);
        assert(bits_value(s.push(b)) == bit_value(b) + 2 * bits_value(s.push(b).skip(1)));
    }
}

/// A sequence of `n` bits has a value below `2^n`.
pub proof fn lemma_value_bound(s: Seq<bool>)
    ensures
        bits_value(s) < pow2(s.len()),
    decreases s.len(),
{
    if s.len() > 0 {
        lemma_value_bound(s.skip(1));
        lemma_pow2_unfold(s.len());
    } else {
        lemma2_to64();
    }
}

/// Converts the bits `lo .. hi` into an integer, bit `lo` being the least
/// significant.
pub fn int_from_slice(b: &Bits, lo: usize, hi: usize) -> (r: u64)
    requires
        lo <= hi <= bit_seq(*b).len(),
        hi - lo <= 64,
    ensures
        r == bits_value(bit_seq(*b).subrange(lo as int, hi as int)),
{
    let ghost s = bit_seq(*b).subrange(lo as int, hi as int);
    let mut num: u64 = 0;
    let mut idx: usize = 0;
    proof {
        assert(s.take(0) =~= Seq::<bool>::empty());
    }
    while lo + idx < hi
        invariant
            lo <= hi <= bit_seq(*b).len(),
            hi - lo <= 64,
            s == bit_seq(*b).subrange(lo as int, hi as int),
            idx <= hi - lo,
            num == bits_value(s.take(idx as int)),
        decreases hi - lo - idx,
    {
        let bit = bv_get(b, lo + idx);
        proof {
            assert(s.take(idx + 1) =~= s.take(idx as int).push(s[idx as int]));
            lemma_value_push(s.take(idx as int), s[idx as int]);
            lemma_value_bound(s.take(idx as int));
            lemma_u64_pow2_no_overflow(idx as nat);
            lemma_u64_shl_is_mul(1, idx as u64);
        }
        if bit {
            let i = idx as u64;
            assert((num | (1u64 << i)) == num + (1u64 << i)) by (bit_vector)
                requires
                    i < 64,
                    num < (1u64 << i),
            ;
            num = num | (1u64 << i);
        }
        idx = idx + 1;
    }
    proof {
        assert(s.take(idx as int) =~= s);
    }
    num
}

/// Replaces the bits with their two's complement: every bit above the lowest
/// set one is inverted.
pub fn make_slice_twos_complement(b: &mut Bits)
    ensures
        bit_seq(*final(b)) == twos_comp(bit_seq(*old(b))),
{
    let ghost s = bit_seq(*b);
    match bv_first_one(b) {
        None => {
            assert(twos_comp(s) =~= s);
        },
        Some(k) => {
            let len = bv_len(b);
            let mut i: usize = k + 1;
            while i < len
                invariant
                    k < len == s.len() == bit_seq(*b).len(),
                    s[k as int],
                    forall|j: int| 0 <= j < k ==> !#[trigger] s[j],
                    k < i,
                    i <= len || i == k + 1,
                    bit_seq(*b) =~= Seq::new(
                        s.len(),
                        |x: int| if k < x < i { !s[x] } else { s[x] },
                    ),
                decreases len - i,
            {
                let v = bv_get(b, i);
                bv_set(b, i, !v);
                i = i + 1;
            }
            assert forall|x: int| 0 <= x < s.len() implies #[trigger] twos_comp(s)[x] == bit_seq(*b)[x] by {
                if x > k {
                    assert(0 <= k < x && s[k as int]);
                }
            }
            assert(twos_comp(s) =~= bit_seq(*b));
        },
    }
}

/// Taking the two's complement twice gives back the same bits.
pub proof fn lemma_twos_comp_involution(s: Seq<bool>)
    ensures
        twos_comp(twos_comp(s)) == s,
{
    let t = twos_comp(s);
    assert forall|i: int| 0 <= i < s.len() implies #[trigger] twos_comp(t)[i] == s[i] by {
        if exists|j: int| 0 <= j < i && #[trigger] s[j] {
            let j0 = choose|j: int| 0 <= j < i && #[trigger] s[j];
            let k = lowest_set(s, j0);
            assert(t[k] == s[k]);
            assert(exists|j: int| 0 <= j < i && #[trigger] t[j]);
        }
        if exists|j: int| 0 <= j < i && #[trigger] t[j] {
            let j = choose|j: int| 0 <= j < i && #[trigger] t[j];
            if !(exists|m: int| 0 <= m < j && #[trigger] s[m]) {
                assert(s[j]);
            } else {
                let m = choose|m: int| 0 <= m < j && #[trigger] s[m];
                assert(s[m]);
            }
            assert(exists|j: int| 0 <= j < i && #[trigger] s[j]);
        }
    }
    assert(twos_comp(t) =~= s);
}

/// The lowest set bit at or below a set bit `j`.
proof fn lowest_set(s: Seq<bool>, j: int) -> (k: int)
    requires
        0 <= j < s.len(),
        s[j],
    ensures
        0 <= k <= j,
        s[k],
        forall|m: int| 0 <= m < k ==> !#[trigger] s[m],
    decreases j,
{
    if exists|m: int| 0 <= m < j && s[m] {
        let m = choose|m: int| 0 <= m < j && s[m];
        lowest_set(s, m)
    } else {
        j
    }
}

} // verus!
