//! The packed bit set that holds the cells, from the `fixedbitset` crate.

use vstd::prelude::*;
use fixedbitset::FixedBitSet;

verus! {

#[verifier::external_type_specification]
#[verifier::external_body]
pub struct ExFixedBitSet(FixedBitSet);

/// The bits that a `FixedBitSet` holds, lowest index first; its length is the set's length.
pub uninterp spec fn bits_of(s: FixedBitSet) -> Seq<bool>;

/// Whether bit `i` is set in blocks of 32 bits, bit `i % 32` of block `i / 32` standing
/// for it, counted from the least significant bit.
pub open spec fn packed_bit(blocks: Seq<u32>, i: int) -> bool {
    (blocks[i / 32] >> ((i % 32) as u32)) & 1u32 == 1u32
}

/// Relies on `FixedBitSet::with_capacity`: a set of `bits` bits, all cleared.
#[verifier::external_body]
pub(crate) fn cleared_bits(bits: usize) -> (r: FixedBitSet)
    ensures
        bits_of(r) == Seq::new(bits as nat, |i: int| false),
{
    FixedBitSet::with_capacity(bits)
}

/// Relies on `FixedBitSet::contains`: whether the bit is set.
#[verifier::external_body]
pub(crate) fn bit_at(s: &FixedBitSet, bit: usize) -> (r: bool)
    requires
        bit < bits_of(*s).len(),
    ensures
        r == bits_of(*s)[bit as int],
{
    s.contains(bit)
}

/// Relies on `FixedBitSet::set`: sets or clears one bit and leaves the others; it panics
/// on a bit past the length, which is left out.
#[verifier::external_body]
pub(crate) fn put_bit(s: &mut FixedBitSet, bit: usize, enabled: bool)
    requires
        bit < bits_of(*old(s)).len(),
    ensures
        bits_of(*final(s)) == bits_of(*old(s)).update(bit as int, enabled),
{
    s.set(bit, enabled)
}

/// Relies on `FixedBitSet`'s `Clone`: a copy with the same bits.
#[verifier::external_body]
pub(crate) fn copy_bits(s: &FixedBitSet) -> (r: FixedBitSet)
    ensures
        bits_of(r) == bits_of(*s),
{
    s.clone()
}

/// Relies on `FixedBitSet::as_slice`: the 32-bit blocks that store the bits, one per 32
/// bits or part of them.
#[verifier::external_body]
pub(crate) fn blocks_of(s: &FixedBitSet) -> (r: &[u32])
    ensures
        r@.len() == (bits_of(*s).len() + 31) / 32,
        forall|i: int| 0 <= i < bits_of(*s).len() ==> #[trigger] bits_of(*s)[i] == packed_bit(r@, i),
{
    s.as_slice()
}

} // verus!
