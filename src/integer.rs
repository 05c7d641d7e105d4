//! An integer of a chosen width, held as an explicit bit sequence.

use crate::bits::{
    bit_seq, bits_of_word, bv_clone, bv_get, bv_len, bv_set, bv_trailing_zeros, bv_truncate,
    make_slice_twos_complement, twos_comp, word_bits, Bits,
};
use vstd::prelude::*;

verus! {

/// The widest integer that can be built: the width of a `u64`.
pub const STORAGE_BITS: usize = 64;

/// Options to create an [`Integer`].
#[derive(Copy, Clone, Debug, Default)]
pub struct IntegerOptions {
    /// Whether the integer is signed or not.
    pub signed: bool,
    /// The number of bits the integer should have.
    pub size: usize,
    /// The number of significant bits in the integer.
    pub significant_bits: Option<usize>,
    /// Whether the bits from the significant bits up to `size` are filled
    /// with ones.
    pub sign_extend: bool,
}

impl IntegerOptions {
    /// Creates a [`IntegerOptions`].
    pub fn new(signed: bool, size: usize, significant_bits: Option<usize>, sign_extend: bool) -> (r:
        Self)
        ensures
            r.signed == signed,
            r.size == size,
            r.significant_bits == significant_bits,
            r.sign_extend == sign_extend,
    {
        IntegerOptions { signed, size, significant_bits, sign_extend }
    }
}

/// Why an [`Integer`] could not be built.
#[derive(Copy, Clone, Debug, PartialEq, Eq, Structural)]
pub enum IntegerError {
    /// The requested width is more than the 64 bits of the source value.
    WidthExceedsStorage,
}

/// The number of bits up to and including the highest set one; 0 when no bit
/// is set.
pub open spec fn top_one(w: Seq<bool>) -> nat
    decreases w.len(),
{
    if w.len() == 0 {
        0
    } else if w.last() {
        w.len()
    } else {
        top_one(w.drop_last())
    }
}

/// The number of significant bits that construction uses.
pub open spec fn significant_of(v: u64, o: IntegerOptions) -> int {
    match o.significant_bits {
        Some(n) => n as int,
        None => top_one(word_bits(v)) as int,
    }
}

/// The bits an integer built from `v` with options `o` holds: the low `size`
/// bits of `v`, where with `sign_extend` every bit from the significant bits
/// up is set.
pub open spec fn construct_bits(v: u64, o: IntegerOptions) -> Seq<bool> {
    Seq::new(
        o.size as nat,
        |i: int|
            if o.sign_extend && o.size > significant_of(v, o) && significant_of(v, o) <= i {
                true
            } else {
                word_bits(v)[i]
            },
    )
}

/// Whether the most-significant bit of a sequence is set.
pub open spec fn top_bit(s: Seq<bool>) -> bool {
    s.len() > 0 && s.last()
}

/// The count found from the end equals the highest set bit plus one.
proof fn lemma_top_one(w: Seq<bool>, n: int)
    requires
        0 <= n <= w.len(),
        forall|i: int| n <= i < w.len() ==> !#[trigger] w[i],
        n > 0 ==> w[n - 1],
    ensures
        top_one(w) == n,
    decreases w.len(),
{
    if w.len() > n {
        assert(!w[w.len() - 1]);
        lemma_top_one(w.drop_last(), n);
    }
}

/// Represents an integer of a fixed number of bits.
pub struct Integer {
    /// The bits of the integer.
    pub(crate) bits: Bits,
    /// Whether the integer is negative or not.
    pub(crate) negative: bool,
}

impl Integer {
    /// The bits, least-significant first.
    pub open(crate) spec fn bit_view(&self) -> Seq<bool> {
        bit_seq(self.bits)
    }

    /// The cached sign flag.
    pub open(crate) spec fn negative_flag(&self) -> bool {
        self.negative
    }

    /// At most 64 bits, and negative only while the top bit is set.
    pub open(crate) spec fn wf(&self) -> bool {
        &&& self.bit_view().len() <= STORAGE_BITS
        &&& self.negative ==> top_bit(self.bit_view())
    }

    /// Creates an [`Integer`] of `options.size` bits from `elem`; a size above
    /// the 64 bits of `elem` is refused.
    pub fn new(elem: u64, options: IntegerOptions) -> (r: Result<Self, IntegerError>)
        ensures
            options.size > STORAGE_BITS <==> r == Err::<Self, IntegerError>(
                IntegerError::WidthExceedsStorage,
            ),
            r matches Ok(v) ==> {
                &&& v.wf()
                &&& v.bit_view() == construct_bits(elem, options)
                &&& v.negative_flag() == (options.signed && top_bit(
                    construct_bits(elem, options),
                ))
            },
    {
        if options.size > STORAGE_BITS {
            return Err(IntegerError::WidthExceedsStorage);
        }
        let mut bits = bits_of_word(elem);
        let ghost w = word_bits(elem);
        let significant_bits = match options.significant_bits {
            Some(n) => n,
            None => {
                let tz = bv_trailing_zeros(&bits);
                proof {
                    lemma_top_one(w, 64 - tz);
                }
                STORAGE_BITS - tz
            },
        };
        assert(significant_bits == significant_of(elem, options));
        if options.sign_extend && options.size > significant_bits {
            let mut i: usize = significant_bits;
            while i < options.size
                invariant
                    significant_bits <= i <= options.size <= 64,
                    bit_seq(bits) =~= Seq::new(
                        64,
                        |j: int| if significant_bits <= j < i { true } else { w[j] },
                    ),
                decreases options.size - i,
            {
                bv_set(&mut bits, i, true);
                i = i + 1;
            }
        }
        bv_truncate(&mut bits, options.size);
        assert(bit_seq(bits) =~= construct_bits(elem, options));
        let size = bv_len(&bits);
        let last = if size > 0 {
            bv_get(&bits, size - 1)
        } else {
            false
        };
        Ok(Integer { negative: options.signed && last, bits })
    }

    /// Returns the two's complement of the integer's bits, leaving the
    /// integer as it is.
    pub(crate) fn twos_complement(&self) -> (r: Bits)
        ensures
            bit_seq(r) == twos_comp(self.bit_view()),
    {
        let mut bits = bv_clone(&self.bits);
        make_slice_twos_complement(&mut bits);
        bits
    }

    /// Converts the integer into its two's complement representation. The
    /// sign flag stays set only if it was set and the top bit still is.
    pub fn make_twos_complement(&mut self)
        requires
            old(self).wf(),
        ensures
            final(self).wf(),
            final(self).bit_view() == twos_comp(old(self).bit_view()),
            final(self).negative_flag() == (old(self).negative_flag() && top_bit(
                final(self).bit_view(),
            )),
    {
        make_slice_twos_complement(&mut self.bits);
        self.update_negative_prop();
    }

    /// Clears the sign flag when the top bit is no longer set.
    fn update_negative_prop(&mut self)
        requires
            old(self).bit_view().len() <= STORAGE_BITS,
        ensures
            final(self).bits == old(self).bits,
            final(self).negative == (old(self).negative && top_bit(old(self).bit_view())),
    {
        let size = bv_len(&self.bits);
        let last = if size > 0 {
            bv_get(&self.bits, size - 1)
        } else {
            false
        };
        self.negative = self.negative && last;
    }

    /// The number of bits in the integer.
    pub fn bits(&self) -> (r: usize)
        ensures
            r == self.bit_view().len(),
    {
        bv_len(&self.bits)
    }

    /// Returns whether the integer is negative.
    pub fn is_negative(&self) -> (r: bool)
        ensures
            r == self.negative_flag(),
    {
        self.negative
    }
}

} // verus!
