//! The superblock: the first structure a mount reads, and the source of the
//! volume geometry.
//!
//! The superblock occupies 1024 bytes at absolute byte offset 1024, whatever
//! the block size.  Only the fields the interpreter consumes are decoded;
//! the contract of `new` pins each one to its little-endian decode of the
//! image, so that everything later proved about the volume is a statement
//! about the raw bytes.

use vstd::prelude::*;

use crate::disk::{Disk, Offset};
use crate::error::Ext2Error;
use crate::layout::{le16, le32, read_le16, read_le32};

verus! {

/// The ext2 signature every valid superblock carries.
pub const EXT2_MAGIC: u16 = 0xEF53;

/// Byte offset of the superblock within the image.
pub const SUPER_BLOCK_OFFSET: u64 = 1024;

/// Size in bytes of the on-disk superblock.
pub const SUPER_BLOCK_SIZE: u64 = 1024;

/// The block size encoded by a `s_log_block_size` field: `1024 << log`.
///
/// Logs above 6 (a 64 KiB block) are rejected at mount, so the result always
/// fits comfortably in 32 bits.
pub open spec fn spec_block_size_of(log: u32) -> u64 {
    if log == 0 {
        1024
    } else if log == 1 {
        2048
    } else if log == 2 {
        4096
    } else if log == 3 {
        8192
    } else if log == 4 {
        16384
    } else if log == 5 {
        32768
    } else {
        65536
    }
}

/// The superblock fields the interpreter consumes.
#[derive(Debug, Clone, Copy, PartialEq, Eq, Structural)]
pub struct Ext2SuperBlock {
    pub s_inodes_count: u32,      // Total number of inodes in file system
    pub s_blocks_count: u32,      // Total number of blocks in file system
    pub s_free_blocks_count: u32, // Total number of unallocated blocks
    pub s_first_data_block: u32,  // First data block
    pub s_log_block_size: u32,    // Block size exponent
    pub s_blocks_per_group: u32,  // Number of blocks in each block group
    pub s_inodes_per_group: u32,  // Number of inodes in each block group
    pub s_magic: u16,             // Ext2 signature (0xEF53)
    pub s_inode_size: u16,        // Size of the on-disk inode structure
}

/// The geometry bounds a mount enforces.  A superblock outside these bounds
/// is structurally invalid: its fields would make the interpreter's offset
/// arithmetic meaningless (a zero divisor, a block size beyond 64 KiB, or an
/// inode record too short to decode).
pub open spec fn spec_sb_bounds_ok(sb: Ext2SuperBlock) -> bool {
    &&& sb.s_magic == EXT2_MAGIC
    &&& sb.s_log_block_size <= 6
    &&& sb.s_blocks_per_group >= 1
    &&& sb.s_inodes_per_group >= 1
    &&& sb.s_inode_size >= 128
}

/// The superblock decoded from the image bytes at offset 1024.
pub open spec fn spec_superblock(img: Seq<u8>) -> Ext2SuperBlock {
    Ext2SuperBlock {
        s_inodes_count: le32(img, 1024) as u32,
        s_blocks_count: le32(img, 1028) as u32,
        s_free_blocks_count: le32(img, 1036) as u32,
        s_first_data_block: le32(img, 1044) as u32,
        s_log_block_size: le32(img, 1048) as u32,
        s_blocks_per_group: le32(img, 1056) as u32,
        s_inodes_per_group: le32(img, 1064) as u32,
        s_magic: le16(img, 1080) as u16,
        s_inode_size: le16(img, 1112) as u16,
    }
}

/// An image mounts successfully exactly when it holds a full superblock and
/// that superblock is within bounds.
pub open spec fn spec_sb_valid(img: Seq<u8>) -> bool {
    &&& img.len() >= 2048
    &&& spec_sb_bounds_ok(spec_superblock(img))
}

/// The group count never exceeds the block count: with at least one block
/// per group, `ceil(blocks / blocks_per_group) <= blocks`, and the block
/// count is a 32-bit field.
pub proof fn lemma_groups_count_bound(sb: Ext2SuperBlock)
    requires
        sb.inv(),
    ensures
        sb.spec_groups_count() <= sb.s_blocks_count,
        sb.spec_groups_count() <= u32::MAX,
{
    let bc = sb.s_blocks_count as int;
    let bpg = sb.s_blocks_per_group as int;
    assert((bc + bpg - 1) / bpg <= bc) by (nonlinear_arith)
        requires
            1 <= bpg,
            0 <= bc,
    ;
}

impl Ext2SuperBlock {
    /// The fields are in bounds (established at mount, preserved forever:
    /// the structure is immutable).
    pub open spec fn inv(self) -> bool {
        spec_sb_bounds_ok(self)
    }

    /// The block size in bytes: `1024 << s_log_block_size`.
    pub open spec fn spec_block_size(self) -> u64 {
        spec_block_size_of(self.s_log_block_size)
    }

    /// The number of block groups: `ceil(s_blocks_count / s_blocks_per_group)`.
    pub open spec fn spec_groups_count(self) -> u64
        recommends
            self.s_blocks_per_group >= 1,
    {
        ((self.s_blocks_count + self.s_blocks_per_group - 1) / (
        self.s_blocks_per_group as int)) as u64
    }

    /// Number of groups in the filesystem.
    pub fn get_groups_count(&self) -> (r: u64)
        requires
            self.inv(),
        ensures
            r == self.spec_groups_count(),
    {
        (self.s_blocks_count as u64 + self.s_blocks_per_group as u64 - 1)
            / self.s_blocks_per_group as u64
    }

    /// Get block size in bytes.
    pub fn get_block_size(&self) -> (r: u64)
        requires
            self.inv(),
        ensures
            r == self.spec_block_size(),
    {
        if self.s_log_block_size == 0 {
            1024
        } else if self.s_log_block_size == 1 {
            2048
        } else if self.s_log_block_size == 2 {
            4096
        } else if self.s_log_block_size == 3 {
            8192
        } else if self.s_log_block_size == 4 {
            16384
        } else if self.s_log_block_size == 5 {
            32768
        } else {
            65536
        }
    }

    /// Reads and validates the superblock.
    ///
    /// Fails with `UnexpectedEof` when the image cannot hold a superblock,
    /// and with `InvalidFilesystem` when the magic or the geometry fields
    /// are out of bounds; succeeds otherwise, returning exactly the decoded
    /// fields.
    pub fn new(disk: &Disk) -> (r: Result<Ext2SuperBlock, Ext2Error>)
        ensures
            r is Ok <==> spec_sb_valid(disk@),
            r matches Ok(sb) ==> sb == spec_superblock(disk@) && sb.inv(),
            disk@.len() < 2048 ==> r == Err::<Ext2SuperBlock, Ext2Error>(Ext2Error::UnexpectedEof),
            disk@.len() >= 2048 && !spec_sb_valid(disk@) ==> r == Err::<
                Ext2SuperBlock,
                Ext2Error,
            >(Ext2Error::InvalidFilesystem),
    {
        let offset = Offset::Block { block_size: SUPER_BLOCK_SIZE, block_num: 1 };
        let buffer = match disk.read(SUPER_BLOCK_SIZE, offset) {
            Ok(b) => b,
            Err(e) => {
                return Err(e);
            },
        };
        let sb = Ext2SuperBlock {
            s_inodes_count: read_le32(&buffer, 0),
            s_blocks_count: read_le32(&buffer, 4),
            s_free_blocks_count: read_le32(&buffer, 12),
            s_first_data_block: read_le32(&buffer, 20),
            s_log_block_size: read_le32(&buffer, 24),
            s_blocks_per_group: read_le32(&buffer, 32),
            s_inodes_per_group: read_le32(&buffer, 40),
            s_magic: read_le16(&buffer, 56),
            s_inode_size: read_le16(&buffer, 88),
        };
        proof {
            assert(sb == spec_superblock(disk@));
        }
        // Check the ext2 signature, then the geometry bounds.
        if sb.s_magic == EXT2_MAGIC && sb.s_log_block_size <= 6 && sb.s_blocks_per_group >= 1
            && sb.s_inodes_per_group >= 1 && sb.s_inode_size >= 128 {
            Ok(sb)
        } else {
            Err(Ext2Error::InvalidFilesystem)
        }
    }
}

} // verus!
