//! Block groups: the descriptor table and the inode-to-group map.
//!
//! The descriptor table starts at block 2 when the block size is 1024 and at
//! block 1 otherwise; each descriptor is 32 bytes.  A group descriptor
//! remembers its group index and the first inode number of its group, so
//! that locating an inode on disk is pure arithmetic.

use vstd::arithmetic::div_mod::{lemma_fundamental_div_mod, lemma_mod_bound};
use vstd::arithmetic::mul::lemma_mul_inequality;
use vstd::prelude::*;

use crate::disk::{Disk, Offset};
use crate::error::Ext2Error;
use crate::layout::{le16, le32, read_le16, read_le32};
use crate::superblock::Ext2SuperBlock;

verus! {

/// Size in bytes of one on-disk group descriptor.
pub const GROUP_DESC_SIZE: u64 = 32;

/// The fields of one on-disk group descriptor.  Only `bg_inode_table` is
/// consumed by the interpreter; the rest are exposed for reporting.
#[derive(Debug, Clone, Copy, PartialEq, Eq, Structural)]
pub struct Ext2GroupDesc {
    pub bg_block_bitmap: u32,       // Block of the group's block bitmap
    pub bg_inode_bitmap: u32,       // Block of the group's inode bitmap
    pub bg_inode_table: u32,        // First block of the group's inode table
    pub bg_free_blocks_count: u16,  // Number of free blocks in the group
    pub bg_free_inodes_count: u16,  // Number of free inodes in the group
    pub bg_used_dirs_count: u16,    // Number of directories in the group
}

/// The group descriptor decoded from the image bytes at offset `off`.
pub open spec fn spec_group_desc_at(img: Seq<u8>, off: int) -> Ext2GroupDesc {
    Ext2GroupDesc {
        bg_block_bitmap: le32(img, off) as u32,
        bg_inode_bitmap: le32(img, off + 4) as u32,
        bg_inode_table: le32(img, off + 8) as u32,
        bg_free_blocks_count: le16(img, off + 12) as u16,
        bg_free_inodes_count: le16(img, off + 14) as u16,
        bg_used_dirs_count: le16(img, off + 16) as u16,
    }
}

impl Ext2GroupDesc {
    /// Decodes descriptor `group_num` out of the raw descriptor table.
    pub fn new(group_num: usize, buffer: &Vec<u8>) -> (r: Ext2GroupDesc)
        requires
            group_num * 32 + 32 <= buffer.len(),
        ensures
            r == spec_group_desc_at(buffer@, group_num * 32),
    {
        let base = group_num * 32;
        Ext2GroupDesc {
            bg_block_bitmap: read_le32(buffer, base),
            bg_inode_bitmap: read_le32(buffer, base + 4),
            bg_inode_table: read_le32(buffer, base + 8),
            bg_free_blocks_count: read_le16(buffer, base + 12),
            bg_free_inodes_count: read_le16(buffer, base + 14),
            bg_used_dirs_count: read_le16(buffer, base + 16),
        }
    }
}

/// A group descriptor together with its index and the first inode number it
/// owns.
#[derive(Debug, Clone, Copy, PartialEq, Eq, Structural)]
pub struct GroupDesc {
    pub group_num: u64,                 // Group number
    pub ext2_group_desc: Ext2GroupDesc, // On-disk group descriptor
    pub first_inode_num: u64,           // First inode in the group
}

impl GroupDesc {
    /// Builds the descriptor of group `group_num` from the raw table.
    pub fn new(group_num: usize, buffer: &Vec<u8>, inodes_per_group: u32) -> (r: GroupDesc)
        requires
            group_num * 32 + 32 <= buffer.len(),
            group_num <= u32::MAX,
        ensures
            r.group_num == group_num,
            r.ext2_group_desc == spec_group_desc_at(buffer@, group_num * 32),
            r.first_inode_num == group_num * inodes_per_group + 1,
    {
        proof {
            assert((group_num as int) * (inodes_per_group as int) + 1 <= u64::MAX)
                by (nonlinear_arith)
                requires
                    group_num <= 0xFFFF_FFFFu64,
                    inodes_per_group <= 0xFFFF_FFFFu64,
            ;
        }
        GroupDesc {
            group_num: group_num as u64,
            ext2_group_desc: Ext2GroupDesc::new(group_num, buffer),
            first_inode_num: group_num as u64 * inodes_per_group as u64 + 1,
        }
    }
}

/// Block number where the descriptor table starts: block 2 when blocks are
/// 1024 bytes, block 1 otherwise.
pub open spec fn spec_gdt_block(block_size: u64) -> int {
    if block_size == 1024 {
        2
    } else {
        1
    }
}

/// Byte offset of the descriptor table.
pub open spec fn spec_gdt_offset(block_size: u64) -> int {
    spec_gdt_block(block_size) * block_size
}

/// The whole block-group descriptor table.
pub struct Ext2BlockGroups {
    pub block_groups: Vec<GroupDesc>,
    pub inodes_per_group: u32,
}

impl Ext2BlockGroups {
    /// Internal consistency: each descriptor carries its own index and the
    /// first inode number that index implies.
    pub open spec fn inv(self) -> bool {
        &&& self.inodes_per_group >= 1
        &&& self.block_groups@.len() <= u32::MAX
        &&& forall|g: int|
            0 <= g < self.block_groups@.len() ==> {
                &&& (#[trigger] self.block_groups@[g]).group_num == g
                &&& self.block_groups@[g].first_inode_num == g * self.inodes_per_group + 1
            }
    }

    /// The table is the decode of the image's descriptor table for the given
    /// superblock.
    pub open spec fn wf(self, img: Seq<u8>, sb: Ext2SuperBlock) -> bool {
        &&& self.inv()
        &&& self.inodes_per_group == sb.s_inodes_per_group
        &&& self.block_groups@.len() == sb.spec_groups_count()
        &&& forall|g: int|
            0 <= g < self.block_groups@.len()
                ==> (#[trigger] self.block_groups@[g]).ext2_group_desc == spec_group_desc_at(
                img,
                spec_gdt_offset(sb.spec_block_size()) + g * 32,
            )
    }

    /// Reads the descriptor table.
    ///
    /// Succeeds exactly when the table lies within the image; a short image
    /// is `UnexpectedEof`.
    pub fn new(disk: &Disk, super_block: &Ext2SuperBlock) -> (r: Result<Ext2BlockGroups, Ext2Error>)
        requires
            super_block.inv(),
        ensures
            r is Ok <==> spec_gdt_offset(super_block.spec_block_size()) + 32
                * super_block.spec_groups_count() <= disk@.len(),
            r matches Ok(bg) ==> bg.wf(disk@, *super_block),
            r matches Err(e) ==> e == Ext2Error::UnexpectedEof,
    {
        let groups_count = super_block.get_groups_count();
        proof {
            crate::superblock::lemma_groups_count_bound(*super_block);
        }
        let size: u64 = GROUP_DESC_SIZE * groups_count;
        let block_size = super_block.get_block_size();
        // If block size is 1024 the descriptor table begins at block 2,
        // for any other block size it begins at block 1.
        let block_num: u64 = if block_size == 1024 {
            2
        } else {
            1
        };
        let offset = Offset::Block { block_size, block_num };
        let buffer = match disk.read(size, offset) {
            Ok(b) => b,
            Err(e) => {
                return Err(e);
            },
        };
        let ghost gdt_off = spec_gdt_offset(super_block.spec_block_size());
        proof {
            assert(offset.spec_offset() == gdt_off);
            assert(buffer@ == disk@.subrange(gdt_off, gdt_off + size));
        }
        let mut block_groups: Vec<GroupDesc> = Vec::new();
        let gc = groups_count as usize;
        let mut g: usize = 0;
        while g < gc
            invariant
                g <= gc,
                gc <= u32::MAX,
                gc * 32 == buffer@.len(),
                0 <= gdt_off,
                gdt_off + buffer@.len() <= disk@.len(),
                buffer@ == disk@.subrange(gdt_off, gdt_off + buffer@.len()),
                block_groups@.len() == g,
                forall|i: int|
                    0 <= i < g ==> {
                        &&& (#[trigger] block_groups@[i]).group_num == i
                        &&& block_groups@[i].first_inode_num == i
                            * super_block.s_inodes_per_group + 1
                        &&& block_groups@[i].ext2_group_desc == spec_group_desc_at(
                            disk@,
                            gdt_off + i * 32,
                        )
                    },
            decreases gc - g,
        {
            let desc = GroupDesc::new(g, &buffer, super_block.s_inodes_per_group);
            proof {
                assert forall|i: int| 0 <= i < buffer@.len() implies buffer@[i] == disk@[gdt_off
                    + i] by {}
                assert(le32(buffer@, g * 32) == le32(disk@, gdt_off + g * 32));
                assert(le32(buffer@, g * 32 + 4) == le32(disk@, gdt_off + g * 32 + 4));
                assert(le32(buffer@, g * 32 + 8) == le32(disk@, gdt_off + g * 32 + 8));
                assert(le16(buffer@, g * 32 + 12) == le16(disk@, gdt_off + g * 32 + 12));
                assert(le16(buffer@, g * 32 + 14) == le16(disk@, gdt_off + g * 32 + 14));
                assert(le16(buffer@, g * 32 + 16) == le16(disk@, gdt_off + g * 32 + 16));
                assert(desc.ext2_group_desc == spec_group_desc_at(disk@, gdt_off + g * 32));
            }
            block_groups.push(desc);
            g = g + 1;
        }
        Ok(Ext2BlockGroups { block_groups, inodes_per_group: super_block.s_inodes_per_group })
    }

    /// Index of the group that owns inode `inode_num`.
    pub open spec fn spec_group_index(self, inode_num: u64) -> int {
        (inode_num - 1) / (self.inodes_per_group as int)
    }

    /// The inode number names an existing group.
    pub open spec fn spec_has_inode(self, inode_num: u64) -> bool {
        &&& inode_num >= 1
        &&& self.spec_group_index(inode_num) < self.block_groups@.len()
    }

    /// Determines which block group the inode belongs to and returns that
    /// group.  The group brackets the inode number:
    /// `first_inode_num <= inode_num < first_inode_num + inodes_per_group`.
    pub fn get_inode_group(&self, inode_num: u64) -> (r: &GroupDesc)
        requires
            self.inv(),
            self.spec_has_inode(inode_num),
        ensures
            *r == self.block_groups@[self.spec_group_index(inode_num)],
            r.first_inode_num <= inode_num < r.first_inode_num + self.inodes_per_group,
    {
        let g = ((inode_num - 1) / self.inodes_per_group as u64) as usize;
        proof {
            let ipg = self.inodes_per_group as int;
            let n = inode_num as int;
            lemma_fundamental_div_mod(n - 1, ipg);
            lemma_mod_bound(n - 1, ipg);
        }
        &self.block_groups[g]
    }
}

} // verus!
