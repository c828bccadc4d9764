//! Little-endian field access into a byte image.
//!
//! Every multi-byte integer of the on-disk format is little-endian; these
//! helpers read one at a given byte offset of a slice, against a spec-level
//! meaning built on `vstd::bytes`.

use vstd::bytes::spec_u16_from_le_bytes;
use vstd::bytes::spec_u32_from_le_bytes;
use vstd::bytes::spec_u64_from_le_bytes;
use vstd::bytes::u16_from_le_bytes;
use vstd::bytes::u32_from_le_bytes;
use vstd::bytes::u64_from_le_bytes;
use vstd::prelude::*;
use vstd::slice::slice_subrange;

verus! {

/// The little-endian 16-bit integer held at bytes `[i, i + 2)` of `s`.
pub open spec fn le16(s: Seq<u8>, i: int) -> u16 {
    spec_u16_from_le_bytes(s.subrange(i, i + 2))
}

/// The little-endian 32-bit integer held at bytes `[i, i + 4)` of `s`.
pub open spec fn le32(s: Seq<u8>, i: int) -> u32 {
    spec_u32_from_le_bytes(s.subrange(i, i + 4))
}

/// The little-endian 64-bit integer held at bytes `[i, i + 8)` of `s`.
pub open spec fn le64(s: Seq<u8>, i: int) -> u64 {
    spec_u64_from_le_bytes(s.subrange(i, i + 8))
}

pub fn read_u16(s: &[u8], i: usize) -> (r: u16)
    requires
        i + 2 <= s@.len(),
    ensures
        r == le16(s@, i as int),
{
    let n: usize = s.len();
    assert(i + 2 <= n);
    u16_from_le_bytes(slice_subrange(s, i, i + 2))
}

pub fn read_u32(s: &[u8], i: usize) -> (r: u32)
    requires
        i + 4 <= s@.len(),
    ensures
        r == le32(s@, i as int),
{
    let n: usize = s.len();
    assert(i + 4 <= n);
    u32_from_le_bytes(slice_subrange(s, i, i + 4))
}

pub fn read_u64(s: &[u8], i: usize) -> (r: u64)
    requires
        i + 8 <= s@.len(),
    ensures
        r == le64(s@, i as int),
{
    let n: usize = s.len();
    assert(i + 8 <= n);
    u64_from_le_bytes(slice_subrange(s, i, i + 8))
}

} // verus!
