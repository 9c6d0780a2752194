//! What this crate relies on of `fixedbitset::FixedBitSet`.
//!
//! Nothing in this file is proved. Each item states, over the sequence of
//! bits that a set holds, what the method of that name does in fixedbitset.

use fixedbitset::FixedBitSet;
use vstd::prelude::*;

verus! {

/// `fixedbitset::FixedBitSet`: a fixed number of bits, kept in 32-bit blocks.
/// The type is opaque here; `bits_of` names what a value of it holds.
#[verifier::external_type_specification]
#[verifier::external_body]
pub struct ExFixedBitSet(fixedbitset::FixedBitSet);

/// The bits of a set in index order. The length of the sequence is the
/// length of the set in bits, which `FixedBitSet::len` reports.
pub uninterp spec fn bits_of(set: FixedBitSet) -> Seq<bool>;

/// Whether bit `k` of a block is set, bit 0 being the least significant.
pub open spec fn block_bit(block: u32, k: int) -> bool {
    block & (1u32 << (k as u32)) != 0
}

/// Whether `blocks` packs `bits`: one block for every 32 bits, the last one
/// partly used, and bit `i` is bit `i % 32` of block `i / 32`.
pub open spec fn packs(blocks: Seq<u32>, bits: Seq<bool>) -> bool {
    &&& blocks.len() == (bits.len() + 31) / 32
    &&& forall|i: int| 0 <= i < bits.len() ==> #[trigger] bits[i] == block_bit(blocks[i / 32], i % 32)
}

/// `bits` with every bit from `start` up to, not including, `end` replaced
/// by `enabled`.
pub open spec fn with_range(bits: Seq<bool>, start: int, end: int, enabled: bool) -> Seq<bool> {
    Seq::new(
        bits.len(),
        |i: int|
            if start <= i < end {
                enabled
            } else {
                bits[i]
            },
    )
}

/// `FixedBitSet::with_capacity` makes a set of `bits` bits, all of them clear.
pub assume_specification[ FixedBitSet::with_capacity ](bits: usize) -> (set: FixedBitSet)
    ensures
        bits_of(set) == Seq::new(bits as nat, |i: int| false),
;

/// `FixedBitSet::contains` reads one bit. The claim covers the bits below
/// the set's length only: for a larger index the method reads whatever the
/// last block holds beyond the length, or answers `false` past the blocks.
pub assume_specification[ FixedBitSet::contains ](set: &FixedBitSet, bit: usize) -> (enabled: bool)
    ensures
        bit < bits_of(*set).len() ==> enabled == bits_of(*set)[bit as int],
;

/// `FixedBitSet::set` writes one bit and leaves the others and the length
/// as they were. It panics on an index at or beyond the length.
pub assume_specification[ FixedBitSet::set ](set: &mut FixedBitSet, bit: usize, enabled: bool)
    requires
        bit < bits_of(*old(set)).len(),
    ensures
        bits_of(*final(set)) == bits_of(*old(set)).update(bit as int, enabled),
;

/// `FixedBitSet::toggle` inverts one bit and leaves the others and the
/// length as they were. It panics on an index at or beyond the length.
pub assume_specification[ FixedBitSet::toggle ](set: &mut FixedBitSet, bit: usize)
    requires
        bit < bits_of(*old(set)).len(),
    ensures
        bits_of(*final(set)) == bits_of(*old(set)).update(
            bit as int,
            !bits_of(*old(set))[bit as int],
        ),
;

/// `Clone::clone` of a `FixedBitSet` copies the blocks and the length.
pub assume_specification[ <FixedBitSet as Clone>::clone ](set: &FixedBitSet) -> (copy: FixedBitSet)
    ensures
        bits_of(copy) == bits_of(*set),
;

/// `FixedBitSet::as_slice` lends the blocks: one `u32` for every 32 bits,
/// the last one partly used, and bit `i` of the set is bit `i % 32` of
/// block `i / 32`. Of the unused bits of the last block nothing is claimed.
pub assume_specification[ FixedBitSet::as_slice ](set: &FixedBitSet) -> (blocks: &[u32])
    ensures
        packs(blocks@, bits_of(*set)),
;

/// `FixedBitSet::set_range` on the range `start..end`: every bit in the
/// range takes the value `enabled`, the others and the length stay. It
/// panics unless `start <= end` and `end` is at most the length.
#[verifier::external_body]
pub(crate) fn set_range(set: &mut FixedBitSet, start: usize, end: usize, enabled: bool)
    requires
        start <= end <= bits_of(*old(set)).len(),
    ensures
        bits_of(*final(set)) == with_range(bits_of(*old(set)), start as int, end as int, enabled),
{
    set.set_range(start..end, enabled);
}

} // verus!
