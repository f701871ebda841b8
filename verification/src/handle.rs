//! Entity handle codec.
//!
//! A handle packs an entity index into the low bits of a `u32` and a
//! generation (serial) counter into the high bits. The all-ones index
//! pattern is reserved as the "invalid / unset" sentinel. The codec is a
//! pair of pure, total functions; validity and index extraction never fail.

use vstd::prelude::*;

verus! {

/// Number of low bits that carry the entity index.
pub const EHANDLE_INDEX_BITS: u32 = 14;

/// Mask selecting the index bits; also the reserved invalid-index sentinel.
pub const EHANDLE_INDEX_MASK: u32 = 0x3fff;

/// The index bits of a handle.
pub open spec fn spec_handle_index(handle: u32) -> u32 {
    handle & EHANDLE_INDEX_MASK
}

/// A handle is valid exactly when its index bits differ from the sentinel.
pub open spec fn spec_handle_valid(handle: u32) -> bool {
    spec_handle_index(handle) != EHANDLE_INDEX_MASK
}

/// A handle built from an index and a generation counter.
pub open spec fn spec_pack_handle(index: u32, generation: u32) -> u32 {
    (generation << EHANDLE_INDEX_BITS) | index
}

/// True unless the handle's index bits are the reserved sentinel.
pub fn is_ehandle_valid(handle: u32) -> (r: bool)
    ensures
        r == spec_handle_valid(handle),
{
    (handle & EHANDLE_INDEX_MASK) != EHANDLE_INDEX_MASK
}

/// The index carried by the handle, with the generation bits masked out.
/// Returned whether or not the handle is valid; callers that care must
/// check validity separately.
pub fn ehandle_to_index(handle: u32) -> (r: i32)
    ensures
        r == spec_handle_index(handle) as i32,
        0 <= r <= EHANDLE_INDEX_MASK,
{
    proof {
        assert((handle & 0x3fffu32) <= 0x3fffu32) by (bit_vector);
        assert(EHANDLE_INDEX_MASK == 0x3fffu32);
    }
    (handle & EHANDLE_INDEX_MASK) as i32
}

/// True unless the handle's index bits are the reserved sentinel.
pub fn is_handle_valid(handle: u32) -> (r: bool)
    ensures
        r == spec_handle_valid(handle),
{
    is_ehandle_valid(handle)
}

/// The index carried by the handle, as an unsigned size.
pub fn handle_to_index(handle: u32) -> (r: usize)
    ensures
        r == spec_handle_index(handle) as usize,
{
    (handle & EHANDLE_INDEX_MASK) as usize
}

/// Round trip of the codec: packing any in-range index with any generation
/// leaves the index recoverable and untouched by the generation bits, and
/// the handle is valid exactly when the index is not the reserved sentinel.
pub proof fn lemma_handle_codec_round_trip(index: u32, generation: u32)
    requires
        index <= EHANDLE_INDEX_MASK,
    ensures
        spec_handle_index(spec_pack_handle(index, generation)) == index,
        spec_handle_valid(spec_pack_handle(index, generation)) == (index != EHANDLE_INDEX_MASK),
{
    assert(index <= 0x3fffu32 ==> ((generation << 14u32) | index) & 0x3fffu32 == index)
        by (bit_vector);
    assert(EHANDLE_INDEX_MASK == 0x3fffu32);
}

} // verus!
