//! The packed bit set that holds the cells, and what is taken on trust of it.
//!
//! Nothing in this file is proved: each contract restates what the source of
//! `fixedbitset` shows of the function it names.

use fixedbitset::FixedBitSet;
use vstd::prelude::*;

verus! {

/// `fixedbitset::FixedBitSet`: a fixed number of bits, packed into 32-bit
/// blocks. Verified code sees nothing inside it but through `bits_of`.
#[verifier::external_type_specification]
#[verifier::external_body]
pub struct ExFixedBitSet(FixedBitSet);

/// The bits that a bit set holds, by position; its length is the set's
/// length in bits.
pub uninterp spec fn bits_of(s: FixedBitSet) -> Seq<bool>;

/// Whether bit `i` is on in a sequence of 32-bit blocks that packs bits
/// from the least significant end of each block.
pub open spec fn block_bit(blocks: Seq<u32>, i: int) -> bool {
    blocks[i / 32] & (1u32 << ((i % 32) as u32)) != 0
}

/// `FixedBitSet::with_capacity`: a set of `bits` bits, all of them off.
pub assume_specification[ FixedBitSet::with_capacity ](bits: usize) -> (s: FixedBitSet)
    ensures
        bits_of(s) == Seq::new(bits as nat, |i: int| false),
;

/// `FixedBitSet::contains`: the bit at `bit`, and `false` past the end.
pub assume_specification[ FixedBitSet::contains ](s: &FixedBitSet, bit: usize) -> (on: bool)
    ensures
        on == (bit < bits_of(*s).len() && bits_of(*s)[bit as int]),
;

/// `FixedBitSet::set`: gives the bit at `bit` the value `enabled` and leaves
/// the others. It panics past the end, which `requires` leaves out.
pub assume_specification[ FixedBitSet::set ](s: &mut FixedBitSet, bit: usize, enabled: bool)
    requires
        bit < bits_of(*old(s)).len(),
    ensures
        bits_of(*final(s)) == bits_of(*old(s)).update(bit as int, enabled),
;

/// `FixedBitSet::toggle`: inverts the bit at `bit` and leaves the others. It
/// panics past the end, which `requires` leaves out.
pub assume_specification[ FixedBitSet::toggle ](s: &mut FixedBitSet, bit: usize)
    requires
        bit < bits_of(*old(s)).len(),
    ensures
        bits_of(*final(s)) == bits_of(*old(s)).update(bit as int, !bits_of(*old(s))[bit as int]),
;

/// `FixedBitSet::clear`: turns every bit off; the length stays.
pub assume_specification[ FixedBitSet::clear ](s: &mut FixedBitSet)
    ensures
        bits_of(*final(s)) == Seq::new(bits_of(*old(s)).len(), |i: int| false),
;

/// `Clone` for `FixedBitSet`: a set of the same length with the same bits.
pub assume_specification[ <FixedBitSet as Clone>::clone ](s: &FixedBitSet) -> (copy: FixedBitSet)
    ensures
        bits_of(copy) == bits_of(*s),
;

/// `FixedBitSet::as_slice`: the blocks themselves, one for every 32 bits
/// begun, bit `i` of the set at position `i % 32` of block `i / 32`.
pub assume_specification<'a>[ FixedBitSet::as_slice ](s: &'a FixedBitSet) -> (blocks: &'a [u32])
    ensures
        blocks@.len() == (bits_of(*s).len() + 31) / 32,
        forall|i: int| 0 <= i < bits_of(*s).len() ==> bits_of(*s)[i] == #[trigger] block_bit(blocks@, i),
;

} // verus!
