//! The computations behind the inspection commands: the hex dump's
//! printable-character test and the free-space report's arithmetic.

use vstd::prelude::*;

verus! {

/// The character a hex dump prints for a byte: the byte itself when it is
/// printable ASCII, a dot otherwise.
pub fn get_char(ch: u8) -> (r: char)
    ensures
        r == (if 32 <= ch < 127 {
            ch as char
        } else {
            '.'
        }),
{
    if ch >= 32 && ch < 127 {
        ch as char
    } else {
        '.'
    }
}

/// Total bytes of a volume: whole blocks, each of `block_size` bytes.
///
/// Both factors come from superblock fields, so the product fits easily.
pub fn volume_bytes(blocks_count: u64, block_size: u64) -> (r: u64)
    requires
        blocks_count <= u32::MAX,
        block_size <= 65536,
    ensures
        r == blocks_count * block_size,
{
    proof {
        assert(blocks_count * block_size <= 0xFFFF_FFFFu64 * 0x1_0000u64) by (nonlinear_arith)
            requires
                blocks_count <= 0xFFFF_FFFFu64 && block_size <= 0x1_0000u64,
        ;
    }
    blocks_count * block_size
}

/// The free-space report's percentage: used bytes over total bytes, rounded
/// to the nearest whole percent (half rounds up).
pub fn use_percent(size: u64, used: u64) -> (r: u64)
    requires
        used <= size,
        1 <= size <= 0x1_0000_0000_0000u64,
    ensures
        r == (100 * used + size / 2) / (size as int),
{
    (100 * used + size / 2) / size
}

} // verus!
