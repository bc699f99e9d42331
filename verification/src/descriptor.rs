use vstd::prelude::*;

verus! {

// A descriptor word is a u32 packed as two fields: the low 8 bits are the
// child-occupancy mask (bit `i` set iff octant `i` is occupied, directly or
// transitively), and the high 24 bits are the base address of the node's
// child block in the table, zero meaning that no child block has been
// allocated yet.

/// The occupancy mask of a descriptor word: its low 8 bits.
pub open spec fn occ_mask(d: u32) -> u32 {
    d & 0xff
}

/// The child-block base address of a descriptor word: its high 24 bits.
/// Zero means "no child block allocated yet".
pub open spec fn child_ptr(d: u32) -> u32 {
    d >> 8
}

/// Whether occupancy bit `i` (octant `i`, `i < 8`) is set in word `d`.
pub open spec fn occ_bit(d: u32, i: u32) -> bool {
    d & (1u32 << i) != 0
}

/// The all-zero word is the empty descriptor: no child block and no
/// occupancy bit.
pub proof fn lemma_zero_word()
    by (bit_vector)
    ensures
        child_ptr(0) == 0,
        occ_mask(0) == 0,
        forall|j: u32| j < 8 ==> !occ_bit(0, j),
{
}

/// ORing a one-hot occupancy mask into a word sets exactly bit `i`: the
/// child pointer and every other occupancy bit keep their values, and the
/// result is nonzero.
pub proof fn lemma_or_occ_bit(d: u32, i: u32)
    by (bit_vector)
    requires
        i < 8,
    ensures
        child_ptr(d | (1u32 << i)) == child_ptr(d),
        occ_bit(d | (1u32 << i), i),
        forall|j: u32| j < 8 && j != i ==> occ_bit(d | (1u32 << i), j) == occ_bit(d, j),
        d | (1u32 << i) != 0,
        occ_bit(d, i) ==> d | (1u32 << i) == d,
{
}

/// Writing a base address into the pointer field of a word whose pointer
/// is still zero stores exactly that address and keeps every occupancy
/// bit.
pub proof fn lemma_set_ptr(d: u32, b: u32)
    by (bit_vector)
    requires
        child_ptr(d) == 0,
        b < 0x0100_0000,
    ensures
        child_ptr(d | (b << 8)) == b,
        forall|j: u32| j < 8 ==> occ_bit(d | (b << 8), j) == occ_bit(d, j),
        d != 0 ==> d | (b << 8) != 0,
{
}

/// A set occupancy bit makes the word nonzero.
pub proof fn lemma_occ_bit_nonzero(d: u32, i: u32)
    by (bit_vector)
    requires
        i < 8,
        occ_bit(d, i),
    ensures
        d != 0,
{
}

} // verus!
