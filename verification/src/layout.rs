//! Little-endian scalar decoding over the raw image bytes.
//!
//! Every multi-byte field of the on-disk format is little-endian.  The spec
//! functions here are the ground truth the rest of the model is written in:
//! a parsed structure is correct exactly when each of its fields equals the
//! corresponding `le16` / `le32` decode of the image.

use vstd::prelude::*;

verus! {

/// The 16-bit little-endian value stored at byte offset `off` of `s`.
pub open spec fn le16(s: Seq<u8>, off: int) -> int
    recommends
        0 <= off,
        off + 2 <= s.len(),
{
    s[off] + s[off + 1] * 0x100
}

/// The 32-bit little-endian value stored at byte offset `off` of `s`.
pub open spec fn le32(s: Seq<u8>, off: int) -> int
    recommends
        0 <= off,
        off + 4 <= s.len(),
{
    s[off] + s[off + 1] * 0x100 + s[off + 2] * 0x1_0000 + s[off + 3] * 0x100_0000
}

/// All 16-bit decodes are in `0 .. 2^16`.
pub proof fn lemma_le16_bound(s: Seq<u8>, off: int)
    requires
        0 <= off,
        off + 2 <= s.len(),
    ensures
        0 <= le16(s, off) < 0x1_0000,
{
}

/// All 32-bit decodes are in `0 .. 2^32`.
pub proof fn lemma_le32_bound(s: Seq<u8>, off: int)
    requires
        0 <= off,
        off + 4 <= s.len(),
    ensures
        0 <= le32(s, off) < 0x1_0000_0000,
{
}

/// Reads the 16-bit little-endian scalar at `off`.
pub fn read_le16(buf: &Vec<u8>, off: usize) -> (r: u16)
    requires
        off + 2 <= buf.len(),
    ensures
        r == le16(buf@, off as int),
{
    buf[off] as u16 + buf[off + 1] as u16 * 0x100
}

/// Reads the 32-bit little-endian scalar at `off`.
pub fn read_le32(buf: &Vec<u8>, off: usize) -> (r: u32)
    requires
        off + 4 <= buf.len(),
    ensures
        r == le32(buf@, off as int),
{
    buf[off] as u32 + buf[off + 1] as u32 * 0x100 + buf[off + 2] as u32 * 0x1_0000
        + buf[off + 3] as u32 * 0x100_0000
}

} // verus!
