//! The inode engine: reading an on-disk inode and decoding its 15-entry
//! block-pointer array into the ordered sequence of data-block numbers.
//!
//! The canonical ext2 placement rule, with `P = block_size / 4` pointers per
//! block: data block `k` is held directly in the inode for `k < 12`, behind
//! one index block for the next `P` entries, behind two for the next `P*P`,
//! and behind three for the next `P*P*P`.  A block number of zero anywhere
//! in the chain denotes a hole, which reads back as zeroes.

use vstd::arithmetic::div_mod::{lemma_fundamental_div_mod, lemma_mod_bound};
use vstd::arithmetic::mul::lemma_mul_inequality;
use vstd::prelude::*;

use crate::dir::{
    dir_views, find_entry, insert_entry, spec_entry_at, spec_find_entry, spec_insert_entry,
    spec_walk_block, DirEntryView, Ext2DirEntry, RawDirEntryView,
};
use crate::disk::{BlockCache, Disk, Offset};
use crate::error::Ext2Error;
use crate::group::Ext2BlockGroups;
use crate::layout::{le16, le32, read_le16, read_le32};
use crate::metadata::{is_dir_mode, is_file_mode, Metadata};
use vstd::utf8::{decode_utf8, valid_utf8};

verus! {

/// Number of direct block pointers in an inode.
pub const EXT2_NDIR_BLOCKS: usize = 12;

/// Index of the singly indirect block pointer.
pub const EXT2_IND_BLOCK: usize = 12;

/// Index of the doubly indirect block pointer.
pub const EXT2_DOUBLY_IND_BLOCK: usize = 13;

/// Index of the triply indirect block pointer.
pub const EXT2_TRIPLY_IND_BLOCK: usize = 14;

/// Number of entries in the block-pointer array.
pub const EXT2_N_BLOCKS: usize = 15;

/// Size in bytes of the block-pointer array.
pub const I_BLOCKS_SIZE: usize = 60;

/// The fields of one on-disk inode record.
///
/// The pointer array is kept twice: decoded (`i_block`) for block-number
/// arithmetic, and raw (`i_block_bytes`) because short symbolic-link targets
/// are stored as the bytes of that area.
#[derive(Debug)]
pub struct Ext2InodeStruct {
    pub i_mode: u16,          // File mode
    pub i_uid: u16,           // Low 16 bits of owner uid
    pub i_size: u32,          // Lower 32 bits of size in bytes
    pub i_atime: u32,         // Access time
    pub i_ctime: u32,         // Creation time
    pub i_mtime: u32,         // Modification time
    pub i_dtime: u32,         // Deletion time
    pub i_gid: u16,           // Low 16 bits of group id
    pub i_links_count: u16,   // Links count
    pub i_blocks: u32,        // Count of disk sectors in use by this inode
    pub i_flags: u32,         // File flags
    pub i_block: Vec<u32>,    // The 15 block pointers, decoded
    pub i_block_bytes: Vec<u8>,  // The same 60 bytes, raw
    pub i_size_high: u32,     // Upper 32 bits of size, for regular files
    pub i_uid_high: u16,      // High 16 bits of owner uid
    pub i_gid_high: u16,      // High 16 bits of group id
}

/// The mathematical shape of an inode record.
pub ghost struct InodeView {
    pub i_mode: u16,
    pub i_uid: u16,
    pub i_size: u32,
    pub i_atime: u32,
    pub i_ctime: u32,
    pub i_mtime: u32,
    pub i_dtime: u32,
    pub i_gid: u16,
    pub i_links_count: u16,
    pub i_blocks: u32,
    pub i_flags: u32,
    pub i_block: Seq<u32>,
    pub i_block_bytes: Seq<u8>,
    pub i_size_high: u32,
    pub i_uid_high: u16,
    pub i_gid_high: u16,
}

impl View for Ext2InodeStruct {
    type V = InodeView;

    open spec fn view(&self) -> InodeView {
        InodeView {
            i_mode: self.i_mode,
            i_uid: self.i_uid,
            i_size: self.i_size,
            i_atime: self.i_atime,
            i_ctime: self.i_ctime,
            i_mtime: self.i_mtime,
            i_dtime: self.i_dtime,
            i_gid: self.i_gid,
            i_links_count: self.i_links_count,
            i_blocks: self.i_blocks,
            i_flags: self.i_flags,
            i_block: self.i_block@,
            i_block_bytes: self.i_block_bytes@,
            i_size_high: self.i_size_high,
            i_uid_high: self.i_uid_high,
            i_gid_high: self.i_gid_high,
        }
    }
}

/// The inode record decoded from the image bytes at offset `off`.
pub open spec fn spec_inode_at(img: Seq<u8>, off: int) -> InodeView {
    InodeView {
        i_mode: le16(img, off) as u16,
        i_uid: le16(img, off + 2) as u16,
        i_size: le32(img, off + 4) as u32,
        i_atime: le32(img, off + 8) as u32,
        i_ctime: le32(img, off + 12) as u32,
        i_mtime: le32(img, off + 16) as u32,
        i_dtime: le32(img, off + 20) as u32,
        i_gid: le16(img, off + 24) as u16,
        i_links_count: le16(img, off + 26) as u16,
        i_blocks: le32(img, off + 28) as u32,
        i_flags: le32(img, off + 32) as u32,
        i_block: Seq::new(15, |j: int| le32(img, off + 40 + 4 * j) as u32),
        i_block_bytes: img.subrange(off + 40, off + 100),
        i_size_high: le32(img, off + 108) as u32,
        i_uid_high: le16(img, off + 120) as u16,
        i_gid_high: le16(img, off + 122) as u16,
    }
}

/// The size in bytes an inode declares: the low word, extended by the high
/// word for regular files only.
pub open spec fn spec_inode_size_bytes(iv: InodeView) -> u64 {
    if is_file_mode(iv.i_mode as u32) {
        (iv.i_size + iv.i_size_high * 0x1_0000_0000) as u64
    } else {
        iv.i_size as u64
    }
}

///`ceil(size / block_size)`: how many data blocks carry the inode's bytes.
pub open spec fn spec_data_blocks_count(size: u64, block_size: u64) -> int
    recommends
        block_size >= 1,
{
    size as int / block_size as int + if size as int % block_size as int == 0 {
        0int
    } else {
        1int
    }
}

impl Ext2InodeStruct {
    /// The record's raw pointer area is 60 bytes, and the decoded pointers
    /// agree with it.
    pub open spec fn inv(self) -> bool {
        &&& self.i_block@.len() == 15
        &&& self.i_block_bytes@.len() == 60
        &&& forall|j: int|
            0 <= j < 15 ==> self.i_block@[j] == le32(self.i_block_bytes@, 4 * j)
    }

    /// Calculates the size in bytes.
    pub fn size(&self) -> (r: u64)
        ensures
            r == spec_inode_size_bytes(self@),
    {
        if crate::metadata::FileType::from_mode(self.i_mode as u32).is_file() {
            self.i_size as u64 + self.i_size_high as u64 * 0x1_0000_0000
        } else {
            self.i_size as u64
        }
    }

    /// Decodes an inode record out of `buffer`, which must hold at least one
    /// full record.
    pub fn decode(buffer: &Vec<u8>) -> (r: Ext2InodeStruct)
        requires
            buffer.len() >= 128,
        ensures
            r@ == spec_inode_at(buffer@, 0),
            r.inv(),
    {
        let mut i_block: Vec<u32> = Vec::new();
        let mut j: usize = 0;
        while j < 15
            invariant
                j <= 15,
                buffer.len() >= 128,
                i_block@.len() == j,
                forall|jj: int| 0 <= jj < j ==> i_block@[jj] == le32(buffer@, 40 + 4 * jj),
            decreases 15 - j,
        {
            i_block.push(read_le32(buffer, 40 + 4 * j));
            j = j + 1;
        }
        let mut i_block_bytes: Vec<u8> = Vec::new();
        let mut j: usize = 0;
        while j < 60
            invariant
                j <= 60,
                buffer.len() >= 128,
                i_block_bytes@.len() == j,
                forall|jj: int| 0 <= jj < j ==> i_block_bytes@[jj] == buffer@[40 + jj],
            decreases 60 - j,
        {
            i_block_bytes.push(buffer[40 + j]);
            j = j + 1;
        }
        let r = Ext2InodeStruct {
            i_mode: read_le16(buffer, 0),
            i_uid: read_le16(buffer, 2),
            i_size: read_le32(buffer, 4),
            i_atime: read_le32(buffer, 8),
            i_ctime: read_le32(buffer, 12),
            i_mtime: read_le32(buffer, 16),
            i_dtime: read_le32(buffer, 20),
            i_gid: read_le16(buffer, 24),
            i_links_count: read_le16(buffer, 26),
            i_blocks: read_le32(buffer, 28),
            i_flags: read_le32(buffer, 32),
            i_block,
            i_block_bytes,
            i_size_high: read_le32(buffer, 108),
            i_uid_high: read_le16(buffer, 120),
            i_gid_high: read_le16(buffer, 122),
        };
        proof {
            assert(r@.i_block =~= spec_inode_at(buffer@, 0).i_block);
            assert(r@.i_block_bytes =~= spec_inode_at(buffer@, 0).i_block_bytes);
            assert(r@ == spec_inode_at(buffer@, 0));
        }
        r
    }
}

/// Byte offset of inode `n` on disk: the inode table of `n`'s group, plus
/// the in-group index scaled by the inode record size.
pub open spec fn spec_inode_offset(
    bg: Ext2BlockGroups,
    block_size: u64,
    inode_size: u64,
    n: u64,
) -> int
    recommends
        bg.spec_has_inode(n),
{
    let g = bg.spec_group_index(n);
    bg.block_groups@[g].ext2_group_desc.bg_inode_table * block_size + ((n - 1) % (
    bg.inodes_per_group as int)) * inode_size
}

/// An inode handle: the decoded record plus the derived quantities every
/// reader needs.
pub struct Ext2Inode {
    pub inode_num: u64,              // Inode number
    pub ext2_inode: Ext2InodeStruct, // Decoded on-disk inode record
    pub inode_size: u64,             // Inode record size on disk
    pub block_size: u64,             // Block size
    pub size: u64,                   // Size in bytes
    pub data_blocks_count: u64,      // Number of data blocks
}

impl Ext2Inode {
    /// The derived fields agree with the record: the size is the record's
    /// declared size and the block count is `ceil(size / block_size)`.
    pub open spec fn inv(self) -> bool {
        &&& self.ext2_inode.inv()
        &&& 1024 <= self.block_size <= 65536
        &&& self.block_size % 4 == 0
        &&& 128 <= self.inode_size <= 65536
        &&& self.size == spec_inode_size_bytes(self.ext2_inode@)
        &&& self.data_blocks_count == spec_data_blocks_count(self.size, self.block_size)
    }

    /// The handle was read from image `img` with group table `bg`.
    pub open spec fn wf(self, img: Seq<u8>, bg: Ext2BlockGroups) -> bool {
        &&& self.inv()
        &&& bg.spec_has_inode(self.inode_num)
        &&& self.ext2_inode@ == spec_inode_at(
            img,
            spec_inode_offset(bg, self.block_size, self.inode_size, self.inode_num),
        )
    }

    /// Reads inode `inode_num` from the disk.
    ///
    /// An inode number outside the group table is `InvalidData` (a corrupt
    /// reference); an inode table that runs past the image is
    /// `UnexpectedEof`; otherwise the handle is exactly the decode of the
    /// record's bytes, with `size` combining the high word for regular files
    /// only.
    pub fn new(
        disk: &Disk,
        inode_size: u64,
        block_size: u64,
        block_groups: &Ext2BlockGroups,
        inode_num: u64,
    ) -> (r: Result<Ext2Inode, Ext2Error>)
        requires
            block_groups.inv(),
            1024 <= block_size <= 65536,
            block_size % 4 == 0,
            128 <= inode_size <= 65536,
        ensures
            r is Ok <==> block_groups.spec_has_inode(inode_num) && spec_inode_offset(
                *block_groups,
                block_size,
                inode_size,
                inode_num,
            ) + inode_size <= disk@.len(),
            r matches Ok(ino) ==> {
                &&& ino.wf(disk@, *block_groups)
                &&& ino.inode_num == inode_num
                &&& ino.inode_size == inode_size
                &&& ino.block_size == block_size
            },
            !block_groups.spec_has_inode(inode_num) ==> r == Err::<Ext2Inode, Ext2Error>(
                Ext2Error::InvalidData,
            ),
            block_groups.spec_has_inode(inode_num) && !(spec_inode_offset(
                *block_groups,
                block_size,
                inode_size,
                inode_num,
            ) + inode_size <= disk@.len()) ==> r == Err::<Ext2Inode, Ext2Error>(
                Ext2Error::UnexpectedEof,
            ),
    {
        // Reject inode numbers no group owns: zero, or beyond the table.
        if inode_num == 0 {
            return Err(Ext2Error::InvalidData);
        }
        let g = (inode_num - 1) / block_groups.inodes_per_group as u64;
        if g >= block_groups.block_groups.len() as u64 {
            return Err(Ext2Error::InvalidData);
        }
        // Determine the block group.
        let group = block_groups.get_inode_group(inode_num);
        // Calculate the offset.
        let index = inode_num - group.first_inode_num;
        proof {
            let ipg = block_groups.inodes_per_group as int;
            let n = inode_num as int;
            lemma_fundamental_div_mod(n - 1, ipg);
            lemma_mod_bound(n - 1, ipg);
            assert(ipg * ((n - 1) / ipg) == ((n - 1) / ipg) * ipg) by (nonlinear_arith);
            assert(index == (n - 1) % ipg);
            assert(index * inode_size <= 0xFFFF_FFFFu64 * 0x1_0000u64) by (nonlinear_arith)
                requires
                    0 <= index <= 0xFFFF_FFFFu64,
                    inode_size <= 0x1_0000u64,
            ;
        }
        let offset = Offset::BlockDelta {
            block_size,
            base_block_num: group.ext2_group_desc.bg_inode_table as u64,
            delta: index * inode_size,
        };
        // Read the inode record from the disk.
        let buffer = match disk.read(inode_size, offset) {
            Ok(b) => b,
            Err(e) => {
                return Err(e);
            },
        };
        let inode = Ext2InodeStruct::decode(&buffer);
        proof {
            let ghost off = spec_inode_offset(*block_groups, block_size, inode_size, inode_num);
            assert(offset.spec_offset() == off);
            assert forall|i: int| 0 <= i < buffer@.len() implies buffer@[i] == disk@[off + i] by {}
            assert(spec_inode_at(buffer@, 0).i_block =~= spec_inode_at(disk@, off).i_block);
            assert(spec_inode_at(buffer@, 0).i_block_bytes =~= spec_inode_at(
                disk@,
                off,
            ).i_block_bytes);
            assert(spec_inode_at(buffer@, 0) == spec_inode_at(disk@, off));
        }
        // Calculate the size and the number of data blocks.
        let size = inode.size();
        let q = size / block_size;
        proof {
            lemma_fundamental_div_mod(size as int, block_size as int);
            lemma_mod_bound(size as int, block_size as int);
            if q >= u64::MAX {
                lemma_mul_inequality(2, block_size as int, q as int);
                assert(false);
            }
        }
        let data_blocks_count: u64 = if size % block_size == 0 {
            q
        } else {
            q + 1
        };
        Ok(
            Ext2Inode {
                inode_num,
                ext2_inode: inode,
                inode_size,
                block_size,
                size,
                data_blocks_count,
            },
        )
    }

    /// Block size in bytes.
    pub fn get_block_size(&self) -> (r: u64)
        ensures
            r == self.block_size,
    {
        self.block_size
    }

    /// Size in bytes.
    pub fn get_size(&self) -> (r: u64)
        ensures
            r == self.size,
    {
        self.size
    }

    /// The stat record this handle denotes: every field is a plain function
    /// of the record.  ext2 keeps no sub-second timestamps, so the `*_nsec`
    /// fields are zero.
    pub open spec fn spec_metadata(self) -> Metadata {
        Metadata {
            dev: 0,
            ino: self.inode_num,
            mode: self.ext2_inode@.i_mode as u32,
            nlink: self.ext2_inode@.i_links_count as u64,
            uid: (self.ext2_inode@.i_uid + self.ext2_inode@.i_uid_high * 0x1_0000) as u32,
            gid: (self.ext2_inode@.i_gid + self.ext2_inode@.i_gid_high * 0x1_0000) as u32,
            rdev: 0,
            size: self.size,
            atime: self.ext2_inode@.i_atime as i64,
            atime_nsec: 0,
            mtime: self.ext2_inode@.i_mtime as i64,
            mtime_nsec: 0,
            ctime: self.ext2_inode@.i_ctime as i64,
            ctime_nsec: 0,
            blksize: self.block_size,
            blocks: self.ext2_inode@.i_blocks as u64,
        }
    }

    /// Queries the file system to get information about a file, directory, etc.
    pub fn metadata(&self) -> (r: Metadata)
        ensures
            r == self.spec_metadata(),
    {
        Metadata {
            dev: 0u64,
            ino: self.inode_num,
            mode: self.ext2_inode.i_mode as u32,
            nlink: self.ext2_inode.i_links_count as u64,
            uid: self.ext2_inode.i_uid as u32 + self.ext2_inode.i_uid_high as u32 * 0x1_0000,
            gid: self.ext2_inode.i_gid as u32 + self.ext2_inode.i_gid_high as u32 * 0x1_0000,
            rdev: 0u64,
            size: self.size,
            atime: self.ext2_inode.i_atime as i64,
            atime_nsec: 0,
            mtime: self.ext2_inode.i_mtime as i64,
            mtime_nsec: 0,
            ctime: self.ext2_inode.i_ctime as i64,
            ctime_nsec: 0,
            blksize: self.block_size,
            blocks: self.ext2_inode.i_blocks as u64,
        }
    }
}

/// Number of 32-bit block pointers an index block holds.
pub open spec fn spec_ptrs_per_block(block_size: u64) -> int {
    block_size as int / 4
}

/// A block either is a hole or lies entirely within the image.
pub open spec fn spec_block_ok(img: Seq<u8>, bs: u64, blk: u64) -> bool {
    blk == 0 || blk * bs + bs <= img.len()
}

/// Entry `i` of index block `blk`.  A hole propagates: every entry of the
/// missing block is itself a hole.
pub open spec fn spec_ind_entry(img: Seq<u8>, bs: u64, blk: u64, i: int) -> u64 {
    if blk == 0 {
        0
    } else {
        le32(img, blk * bs + 4 * i) as u64
    }
}

/// Data block `i` behind a doubly indirect block `blk`:
/// entry `i mod P` of the index block named by entry `i / P` of `blk`.
pub open spec fn spec_doubly_entry(img: Seq<u8>, bs: u64, i: int, blk: u64) -> u64 {
    let p = spec_ptrs_per_block(bs);
    let hi = i / p;
    spec_ind_entry(img, bs, spec_ind_entry(img, bs, blk, hi), i - hi * p)
}

/// Both index blocks on the doubly indirect path are holes or in the image.
pub open spec fn spec_doubly_ok(img: Seq<u8>, bs: u64, i: int, blk: u64) -> bool {
    let p = spec_ptrs_per_block(bs);
    let hi = i / p;
    &&& spec_block_ok(img, bs, blk)
    &&& spec_block_ok(img, bs, spec_ind_entry(img, bs, blk, hi))
}

/// Data block `i` behind a triply indirect block `blk`: the doubly indirect
/// rule applied to entry `i / P^2` of `blk` and the remainder.
pub open spec fn spec_triply_entry(img: Seq<u8>, bs: u64, i: int, blk: u64) -> u64 {
    let p = spec_ptrs_per_block(bs);
    let hi = i / p / p;
    spec_doubly_entry(img, bs, i - hi * p * p, spec_ind_entry(img, bs, blk, hi))
}

/// All three index blocks on the triply indirect path are holes or in the
/// image.
pub open spec fn spec_triply_ok(img: Seq<u8>, bs: u64, i: int, blk: u64) -> bool {
    let p = spec_ptrs_per_block(bs);
    let hi = i / p / p;
    &&& spec_block_ok(img, bs, blk)
    &&& spec_doubly_ok(img, bs, i - hi * p * p, spec_ind_entry(img, bs, blk, hi))
}

/// The largest data-block index the 15-entry pointer array can address:
/// 12 direct entries, then `P`, `P^2` and `P^3` indirect ones.
pub open spec fn spec_blocks_reach(bs: u64) -> int {
    let p = spec_ptrs_per_block(bs);
    12 + p + p * p + p * p * p
}

/// The physical block number of data block `k`: the canonical ext2
/// placement rule.
pub open spec fn spec_block_num(img: Seq<u8>, bs: u64, ptrs: Seq<u32>, k: int) -> u64
    recommends
        ptrs.len() == 15,
{
    let p = spec_ptrs_per_block(bs);
    if k < 12 {
        ptrs[k] as u64
    } else if k < 12 + p {
        spec_ind_entry(img, bs, ptrs[12] as u64, k - 12)
    } else if k < 12 + p + p * p {
        spec_doubly_entry(img, bs, k - 12 - p, ptrs[13] as u64)
    } else if k < spec_blocks_reach(bs) {
        spec_triply_entry(img, bs, k - 12 - p - p * p, ptrs[14] as u64)
    } else {
        0
    }
}

/// Every index block consulted on the way to data block `k` is a hole or
/// lies in the image, and `k` is within the pointer array's reach.
pub open spec fn spec_block_num_ok(img: Seq<u8>, bs: u64, ptrs: Seq<u32>, k: int) -> bool
    recommends
        ptrs.len() == 15,
{
    let p = spec_ptrs_per_block(bs);
    if k < 12 {
        true
    } else if k < 12 + p {
        spec_block_ok(img, bs, ptrs[12] as u64)
    } else if k < 12 + p + p * p {
        spec_doubly_ok(img, bs, k - 12 - p, ptrs[13] as u64)
    } else if k < spec_blocks_reach(bs) {
        spec_triply_ok(img, bs, k - 12 - p - p * p, ptrs[14] as u64)
    } else {
        false
    }
}

/// What the block-number iterator yields for index `k`: the block number,
/// `InvalidData` past the array's reach (a corrupt inode), or
/// `UnexpectedEof` when an index block lies outside the image.
pub open spec fn spec_next_block(img: Seq<u8>, bs: u64, ptrs: Seq<u32>, k: int) -> Result<
    u64,
    Ext2Error,
>
    recommends
        ptrs.len() == 15,
{
    if k >= spec_blocks_reach(bs) {
        Err(Ext2Error::InvalidData)
    } else if !spec_block_num_ok(img, bs, ptrs, k) {
        Err(Ext2Error::UnexpectedEof)
    } else {
        Ok(spec_block_num(img, bs, ptrs, k))
    }
}

/// The lazy sequence of physical block numbers of an inode's data blocks.
pub struct ReadBlockNum {
    pub blocks_per_block: u64,  // pointers per index block
    pub i_block: Vec<u32>,  // the inode's 15 block pointers
    pub data_blocks_count: u64,
    pub cache: BlockCache,
    pub first_indirect_block: u64,
    pub first_doubly_indirect_block: u64,
    pub first_triply_indirect_block: u64,
    pub curr: u64,
}

impl ReadBlockNum {
    /// The image this iterator reads from.
    pub open spec fn spec_img(self) -> Seq<u8> {
        self.cache.spec_image()
    }

    /// The block size this iterator was created with.
    pub open spec fn spec_bs(self) -> u64 {
        self.cache.spec_block_size()
    }

    /// The thresholds are the ones the placement rule uses, and the cache is
    /// faithful to the image.
    pub open spec fn inv(self) -> bool {
        let p = self.blocks_per_block;
        &&& 1024 <= self.spec_bs() <= 65536
        &&& self.spec_bs() % 4 == 0
        &&& p == spec_ptrs_per_block(self.spec_bs())
        &&& self.i_block@.len() == 15
        &&& self.cache.wf()
        &&& self.first_indirect_block == 12
        &&& self.first_doubly_indirect_block == 12 + p
        &&& self.first_triply_indirect_block == 12 + p + p * p
    }

    /// The fields `next` never changes.
    pub open spec fn same_shape(self, other: ReadBlockNum) -> bool {
        &&& other.spec_img() == self.spec_img()
        &&& other.spec_bs() == self.spec_bs()
        &&& other.blocks_per_block == self.blocks_per_block
        &&& other.i_block@ == self.i_block@
        &&& other.data_blocks_count == self.data_blocks_count
        &&& other.first_indirect_block == self.first_indirect_block
        &&& other.first_doubly_indirect_block == self.first_doubly_indirect_block
        &&& other.first_triply_indirect_block == self.first_triply_indirect_block
    }

    /// Creates the iterator at index zero.
    pub fn new(disk: &Disk, i_block: &Vec<u32>, block_size: u64, data_blocks_count: u64) -> (r:
        ReadBlockNum)
        requires
            i_block@.len() == 15,
            1024 <= block_size <= 65536,
            block_size % 4 == 0,
        ensures
            r.inv(),
            r.spec_img() == disk@,
            r.spec_bs() == block_size,
            r.i_block@ == i_block@,
            r.data_blocks_count == data_blocks_count,
            r.curr == 0,
    {
        let blocks_per_block = block_size / 4;
        proof {
            assert(blocks_per_block <= 16384);
            assert(blocks_per_block * blocks_per_block <= 0x1000_0000) by (nonlinear_arith)
                requires
                    0 <= blocks_per_block <= 16384,
            ;
        }
        ReadBlockNum {
            blocks_per_block,
            i_block: i_block.clone(),
            data_blocks_count,
            cache: BlockCache::new(disk, block_size),
            first_indirect_block: 12,
            first_doubly_indirect_block: 12 + blocks_per_block,
            first_triply_indirect_block: 12 + blocks_per_block + blocks_per_block
                * blocks_per_block,
            curr: 0,
        }
    }

    /// Gets a direct block number.
    pub fn get_direct_block(&self, i: u64) -> (r: Result<u64, Ext2Error>)
        requires
            self.inv(),
            i < 12,
        ensures
            r == Ok::<u64, Ext2Error>(self.i_block@[i as int] as u64),
    {
        Ok(self.i_block[i as usize] as u64)
    }

    /// Gets entry `i` of the singly indirect block `indirect_block_num`.
    pub fn get_indirect_block(&mut self, disk: &Disk, i: u64, indirect_block_num: u64) -> (r:
        Result<u64, Ext2Error>)
        requires
            old(self).inv(),
            old(self).spec_img() == disk@,
            i < old(self).blocks_per_block,
        ensures
            final(self).inv(),
            old(self).same_shape(*final(self)),
            final(self).curr == old(self).curr,
            r is Ok <==> spec_block_ok(disk@, old(self).spec_bs(), indirect_block_num),
            r matches Ok(v) ==> v == spec_ind_entry(
                disk@,
                old(self).spec_bs(),
                indirect_block_num,
                i as int,
            ),
            r matches Err(e) ==> e == Ext2Error::UnexpectedEof,
    {
        if indirect_block_num == 0 {
            // A hole: every entry of the missing index block is a hole.
            return Ok(0);
        }
        let buf = match self.cache.get_block(disk, indirect_block_num) {
            Ok(b) => b,
            Err(e) => {
                return Err(e);
            },
        };
        proof {
            lemma_fundamental_div_mod(self.spec_bs() as int, 4);
            assert(4 * self.blocks_per_block == self.spec_bs());
            let base = indirect_block_num * self.spec_bs();
            assert forall|j: int| 0 <= j < buf@.len() implies buf@[j] == disk@[base + j] by {}
            assert(le32(buf@, 4 * i) == le32(disk@, base + 4 * i));
        }
        let addr = (i * 4) as usize;
        Ok(read_le32(&buf, addr) as u64)
    }

    /// Gets data block `i` behind the doubly indirect block
    /// `doubly_indirect_block_num`.
    pub fn get_doubly_indirect_block(
        &mut self,
        disk: &Disk,
        i: u64,
        doubly_indirect_block_num: u64,
    ) -> (r: Result<u64, Ext2Error>)
        requires
            old(self).inv(),
            old(self).spec_img() == disk@,
            i < old(self).blocks_per_block * old(self).blocks_per_block,
        ensures
            final(self).inv(),
            old(self).same_shape(*final(self)),
            final(self).curr == old(self).curr,
            r is Ok <==> spec_doubly_ok(
                disk@,
                old(self).spec_bs(),
                i as int,
                doubly_indirect_block_num,
            ),
            r matches Ok(v) ==> v == spec_doubly_entry(
                disk@,
                old(self).spec_bs(),
                i as int,
                doubly_indirect_block_num,
            ),
            r matches Err(e) ==> e == Ext2Error::UnexpectedEof,
    {
        let p = self.blocks_per_block;
        let indirect_block_num_i = i / p;
        proof {
            lemma_fundamental_div_mod(i as int, p as int);
            lemma_mod_bound(i as int, p as int);
            assert((i as int) / (p as int) < p as int) by (nonlinear_arith)
                requires
                    0 <= i as int,
                    (i as int) < (p as int) * (p as int),
                    0 < p as int,
            ;
        }
        let indirect_block_num = match self.get_indirect_block(
            disk,
            indirect_block_num_i,
            doubly_indirect_block_num,
        ) {
            Ok(b) => b,
            Err(e) => {
                return Err(e);
            },
        };
        let lo = i - indirect_block_num_i * p;
        self.get_indirect_block(disk, lo, indirect_block_num)
    }

    /// Gets data block `i` behind the triply indirect block
    /// `triply_indirect_block_num`.
    pub fn get_triply_indirect_block(
        &mut self,
        disk: &Disk,
        i: u64,
        triply_indirect_block_num: u64,
    ) -> (r: Result<u64, Ext2Error>)
        requires
            old(self).inv(),
            old(self).spec_img() == disk@,
            i < old(self).blocks_per_block * old(self).blocks_per_block * old(
                self,
            ).blocks_per_block,
        ensures
            final(self).inv(),
            old(self).same_shape(*final(self)),
            final(self).curr == old(self).curr,
            r is Ok <==> spec_triply_ok(
                disk@,
                old(self).spec_bs(),
                i as int,
                triply_indirect_block_num,
            ),
            r matches Ok(v) ==> v == spec_triply_entry(
                disk@,
                old(self).spec_bs(),
                i as int,
                triply_indirect_block_num,
            ),
            r matches Err(e) ==> e == Ext2Error::UnexpectedEof,
    {
        let p = self.blocks_per_block;
        proof {
            assert(p <= 16384);
            assert(p * p <= 0x1000_0000) by (nonlinear_arith)
                requires
                    0 <= p <= 16384,
            ;
            vstd::arithmetic::div_mod::lemma_div_denominator(i as int, p as int, p as int);
            lemma_fundamental_div_mod(i as int, p as int * p as int);
            lemma_mod_bound(i as int, p as int * p as int);
            assert((i as int) / ((p as int) * (p as int)) < p as int) by (nonlinear_arith)
                requires
                    0 <= i as int,
                    (i as int) < (p as int) * (p as int) * (p as int),
                    0 < p as int,
            ;
        }
        let doubly_indirect_block_num_i = i / p / p;
        let doubly_indirect_block_num = match self.get_indirect_block(
            disk,
            doubly_indirect_block_num_i,
            triply_indirect_block_num,
        ) {
            Ok(b) => b,
            Err(e) => {
                return Err(e);
            },
        };
        proof {
            let pp = (p as int) * (p as int);
            let hi = doubly_indirect_block_num_i as int;
            assert(hi == i as int / pp);
            assert(pp * (i as int / pp) <= i as int);
            assert(hi * pp == pp * (i as int / pp) && hi * pp == hi * (p as int) * (p as int))
                by (nonlinear_arith)
                requires
                    hi == i as int / pp,
                    pp == (p as int) * (p as int),
            ;
            assert(i as int - hi * pp == i as int % pp);
            assert(0 <= i as int % pp < pp);
        }
        let rest = i - doubly_indirect_block_num_i * (p * p);
        self.get_doubly_indirect_block(disk, rest, doubly_indirect_block_num)
    }

    /// Yields the block number of the next data block, `None` at the end.
    pub fn next(&mut self, disk: &Disk) -> (r: Option<Result<u64, Ext2Error>>)
        requires
            old(self).inv(),
            old(self).spec_img() == disk@,
        ensures
            final(self).inv(),
            old(self).same_shape(*final(self)),
            old(self).curr >= old(self).data_blocks_count ==> r is None && final(self).curr == old(
                self,
            ).curr,
            old(self).curr < old(self).data_blocks_count ==> final(self).curr == old(self).curr + 1
                && r == Some(
                spec_next_block(
                    disk@,
                    old(self).spec_bs(),
                    old(self).i_block@,
                    old(self).curr as int,
                ),
            ),
    {
        let i = self.curr;
        if i >= self.data_blocks_count {
            None
        } else {
            self.curr = i + 1;
            if i < self.first_indirect_block {
                Some(self.get_direct_block(i))
            } else if i < self.first_doubly_indirect_block {
                let i2 = i - self.first_indirect_block;
                let indirect_block_num = self.i_block[EXT2_IND_BLOCK] as u64;
                Some(self.get_indirect_block(disk, i2, indirect_block_num))
            } else if i < self.first_triply_indirect_block {
                let i2 = i - self.first_doubly_indirect_block;
                let doubly_indirect_block_num = self.i_block[EXT2_DOUBLY_IND_BLOCK] as u64;
                Some(self.get_doubly_indirect_block(disk, i2, doubly_indirect_block_num))
            } else {
                let i2 = i - self.first_triply_indirect_block;
                let p = self.blocks_per_block;
                proof {
                    assert(p <= 16384);
                    assert(p * p <= 0x1000_0000 && p * p * p <= 0x4_0000_0000_0000)
                        by (nonlinear_arith)
                        requires
                            0 <= p <= 16384,
                    ;
                }
                if i2 >= p * p * p {
                    // Beyond the triply indirect reach: the inode is corrupt.
                    Some(Err(Ext2Error::InvalidData))
                } else {
                    let triply_indirect_block_num = self.i_block[EXT2_TRIPLY_IND_BLOCK] as u64;
                    Some(self.get_triply_indirect_block(disk, i2, triply_indirect_block_num))
                }
            }
        }
    }
}

/// The bytes of physical block `bn`: the image's block when it is there,
/// zeroes for a hole.  (A block outside the image is given zeroes too, so
/// that the payload always has `block_size` bytes; readers fail on such a
/// block before ever using this value.)
pub open spec fn spec_block_payload(img: Seq<u8>, bs: u64, bn: u64) -> Seq<u8> {
    if bn != 0 && bn * bs + bs <= img.len() {
        img.subrange(bn * bs as int, bn * bs + bs)
    } else {
        Seq::new(bs as nat, |i: int| 0u8)
    }
}

/// The bytes of data block `k` of an inode with pointer array `ptrs`.
pub open spec fn spec_data_block(img: Seq<u8>, bs: u64, ptrs: Seq<u32>, k: int) -> Seq<u8>
    recommends
        ptrs.len() == 15,
{
    spec_block_payload(img, bs, spec_block_num(img, bs, ptrs, k))
}

/// What the data-block iterator yields for index `k`: the block's bytes, or
/// the first error on the path to them.
pub open spec fn spec_data_block_result(img: Seq<u8>, bs: u64, ptrs: Seq<u32>, k: int) -> Result<
    Seq<u8>,
    Ext2Error,
>
    recommends
        ptrs.len() == 15,
{
    match spec_next_block(img, bs, ptrs, k) {
        Err(e) => Err(e),
        Ok(bn) => if !spec_block_ok(img, bs, bn) {
            Err(Ext2Error::UnexpectedEof)
        } else {
            Ok(spec_block_payload(img, bs, bn))
        },
    }
}

/// The first `k` data blocks of the inode, concatenated.
pub open spec fn spec_content_blocks(img: Seq<u8>, bs: u64, ptrs: Seq<u32>, k: int) -> Seq<u8>
    recommends
        ptrs.len() == 15,
    decreases k,
{
    if k <= 0 {
        Seq::empty()
    } else {
        spec_content_blocks(img, bs, ptrs, k - 1) + spec_data_block(img, bs, ptrs, k - 1)
    }
}

/// Every data block of the inode can be read.
pub open spec fn spec_content_ok(img: Seq<u8>, bs: u64, ptrs: Seq<u32>, dbc: u64) -> bool
    recommends
        ptrs.len() == 15,
{
    forall|k: int| 0 <= k < dbc ==> spec_data_block_result(img, bs, ptrs, k) is Ok
}

/// The result of reading data blocks `k .. dbc` and concatenating them: the
/// first failure wins.
pub open spec fn spec_read_content_result(
    img: Seq<u8>,
    bs: u64,
    ptrs: Seq<u32>,
    dbc: int,
    k: int,
) -> Result<Seq<u8>, Ext2Error>
    decreases dbc - k,
{
    if k >= dbc {
        Ok(Seq::empty())
    } else {
        match spec_data_block_result(img, bs, ptrs, k) {
            Err(e) => Err(e),
            Ok(b) => match spec_read_content_result(img, bs, ptrs, dbc, k + 1) {
                Err(e) => Err(e),
                Ok(rest) => Ok(b + rest),
            },
        }
    }
}

/// Concatenating `k` blocks yields `k * block_size` bytes.
pub proof fn lemma_content_blocks_len(img: Seq<u8>, bs: u64, ptrs: Seq<u32>, k: int)
    requires
        k >= 0,
    ensures
        spec_content_blocks(img, bs, ptrs, k).len() == k * bs,
    decreases k,
{
    if k > 0 {
        lemma_content_blocks_len(img, bs, ptrs, k - 1);
        let bn = spec_block_num(img, bs, ptrs, k - 1);
        assert(0 <= bn * bs) by (nonlinear_arith)
            requires
                0 <= bn && 0 <= bs,
        ;
        assert(spec_data_block(img, bs, ptrs, k - 1).len() == bs);
        assert(spec_content_blocks(img, bs, ptrs, k) == spec_content_blocks(img, bs, ptrs, k - 1)
            + spec_data_block(img, bs, ptrs, k - 1));
        assert((k - 1) * bs + bs == k * bs) by (nonlinear_arith);
        assert(spec_content_blocks(img, bs, ptrs, k).len() == k * bs);
    } else {
        assert(k * bs == 0) by (nonlinear_arith)
            requires
                k == 0,
        ;
    }
}

/// The lazy sequence of an inode's data blocks, as byte buffers.
pub struct ReadBlock {
    pub block_size: u64,
    pub blocks: ReadBlockNum,
}

impl ReadBlock {
    /// The image this iterator reads from.
    pub open spec fn spec_img(self) -> Seq<u8> {
        self.blocks.spec_img()
    }

    /// The block size agrees with the block-number iterator's.
    pub open spec fn inv(self) -> bool {
        &&& self.blocks.inv()
        &&& self.block_size == self.blocks.spec_bs()
    }

    /// Reads one physical block from the device.
    pub fn read_block(&self, disk: &Disk, block_num: u64) -> (r: Result<Vec<u8>, Ext2Error>)
        requires
            self.inv(),
            self.spec_img() == disk@,
        ensures
            r is Ok <==> block_num * self.block_size + self.block_size <= disk@.len(),
            r matches Ok(v) ==> v@ == disk@.subrange(
                block_num * self.block_size as int,
                block_num * self.block_size + self.block_size,
            ),
            r matches Err(e) ==> e == Ext2Error::UnexpectedEof,
    {
        let offset = Offset::Block { block_size: self.block_size, block_num };
        disk.read(self.block_size, offset)
    }

    /// Turns a block number into that block's bytes: zeroes for a hole, a
    /// device read otherwise.
    pub fn prepare_block_result(&self, disk: &Disk, block_num: u64) -> (r: Result<
        Vec<u8>,
        Ext2Error,
    >)
        requires
            self.inv(),
            self.spec_img() == disk@,
        ensures
            r is Ok <==> spec_block_ok(disk@, self.block_size, block_num),
            r matches Ok(v) ==> v@ == spec_block_payload(disk@, self.block_size, block_num),
            r matches Err(e) ==> e == Ext2Error::UnexpectedEof,
    {
        if block_num == 0 {
            // A hole reads back as a zero-filled block.
            let v: Vec<u8> = vec![0u8; self.block_size as usize];
            proof {
                assert(v@ =~= spec_block_payload(disk@, self.block_size, block_num));
            }
            Ok(v)
        } else {
            self.read_block(disk, block_num)
        }
    }

    /// Yields the bytes of the next data block, `None` at the end.  An error
    /// is yielded as an item and terminates the iteration: every later call
    /// returns `None`.
    pub fn next(&mut self, disk: &Disk) -> (r: Option<Result<Vec<u8>, Ext2Error>>)
        requires
            old(self).inv(),
            old(self).spec_img() == disk@,
        ensures
            final(self).inv(),
            final(self).block_size == old(self).block_size,
            old(self).blocks.same_shape(final(self).blocks),
            old(self).blocks.curr >= old(self).blocks.data_blocks_count ==> r is None
                && final(self).blocks.curr == old(self).blocks.curr,
            old(self).blocks.curr < old(self).blocks.data_blocks_count ==> {
                let spec_r = spec_data_block_result(
                    disk@,
                    old(self).block_size,
                    old(self).blocks.i_block@,
                    old(self).blocks.curr as int,
                );
                &&& r is Some
                &&& (r->0 is Ok <==> spec_r is Ok)
                &&& (r matches Some(Ok(v)) ==> v@ == spec_r->Ok_0 && final(self).blocks.curr
                    == old(self).blocks.curr + 1)
                &&& (r matches Some(Err(e)) ==> Err::<Seq<u8>, Ext2Error>(e) == spec_r
                    && final(self).blocks.curr == final(self).blocks.data_blocks_count)
            },
    {
        match self.blocks.next(disk) {
            None => None,
            Some(Err(e)) => {
                self.blocks.curr = self.blocks.data_blocks_count;
                Some(Err(e))
            },
            Some(Ok(block_num)) => {
                match self.prepare_block_result(disk, block_num) {
                    Ok(v) => Some(Ok(v)),
                    Err(e) => {
                        self.blocks.curr = self.blocks.data_blocks_count;
                        Some(Err(e))
                    },
                }
            },
        }
    }
}

impl Ext2Inode {
    /// Data-block iterator over this inode's content.
    pub fn read_blocks_iter(&self, disk: &Disk) -> (r: Result<ReadBlock, Ext2Error>)
        requires
            self.inv(),
        ensures
            r is Ok,
            r matches Ok(it) ==> {
                &&& it.inv()
                &&& it.spec_img() == disk@
                &&& it.block_size == self.block_size
                &&& it.blocks.i_block@ == self.ext2_inode.i_block@
                &&& it.blocks.data_blocks_count == self.data_blocks_count
                &&& it.blocks.curr == 0
            },
    {
        let blocks = match self.get_blocks_iter(disk) {
            Ok(b) => b,
            Err(e) => {
                return Err(e);
            },
        };
        Ok(ReadBlock { block_size: self.block_size, blocks })
    }

    /// Block-number iterator over this inode's data blocks.
    pub fn get_blocks_iter(&self, disk: &Disk) -> (r: Result<ReadBlockNum, Ext2Error>)
        requires
            self.inv(),
        ensures
            r is Ok,
            r matches Ok(it) ==> {
                &&& it.inv()
                &&& it.spec_img() == disk@
                &&& it.spec_bs() == self.block_size
                &&& it.i_block@ == self.ext2_inode.i_block@
                &&& it.data_blocks_count == self.data_blocks_count
                &&& it.curr == 0
            },
    {
        Ok(
            ReadBlockNum::new(
                disk,
                &self.ext2_inode.i_block,
                self.block_size,
                self.data_blocks_count,
            ),
        )
    }

    /// Reads the inode's data blocks, concatenated (`data_blocks_count` full
    /// blocks; readers truncate to `size` themselves).
    ///
    /// Succeeds exactly when every block on the way can be read; otherwise
    /// the first failure is returned.
    pub fn read(&self, disk: &Disk) -> (r: Result<Vec<u8>, Ext2Error>)
        requires
            self.inv(),
        ensures
            r is Ok <==> spec_content_ok(
                disk@,
                self.block_size,
                self.ext2_inode.i_block@,
                self.data_blocks_count,
            ),
            r matches Ok(v) ==> v@ == spec_content_blocks(
                disk@,
                self.block_size,
                self.ext2_inode.i_block@,
                self.data_blocks_count as int,
            ),
            r matches Ok(v) ==> spec_read_content_result(
                disk@,
                self.block_size,
                self.ext2_inode.i_block@,
                self.data_blocks_count as int,
                0,
            ) == Ok::<Seq<u8>, Ext2Error>(v@),
            r matches Err(e) ==> spec_read_content_result(
                disk@,
                self.block_size,
                self.ext2_inode.i_block@,
                self.data_blocks_count as int,
                0,
            ) == Err::<Seq<u8>, Ext2Error>(e),
    {
        let mut iter = match self.read_blocks_iter(disk) {
            Ok(it) => it,
            Err(e) => {
                return Err(e);
            },
        };
        let mut buffer: Vec<u8> = Vec::new();
        let ghost bs = self.block_size;
        let ghost ptrs = self.ext2_inode.i_block@;
        let dbc = self.data_blocks_count;
        while iter.blocks.curr < dbc
            invariant
                self.inv(),
                bs == self.block_size,
                ptrs == self.ext2_inode.i_block@,
                dbc == self.data_blocks_count,
                iter.inv(),
                iter.spec_img() == disk@,
                iter.block_size == bs,
                iter.blocks.i_block@ == ptrs,
                iter.blocks.data_blocks_count == dbc,
                iter.blocks.curr <= dbc,
                buffer@ == spec_content_blocks(disk@, bs, ptrs, iter.blocks.curr as int),
                forall|j: int|
                    0 <= j < iter.blocks.curr ==> spec_data_block_result(disk@, bs, ptrs, j) is Ok,
                spec_read_content_result(disk@, bs, ptrs, dbc as int, 0) == (
                match spec_read_content_result(disk@, bs, ptrs, dbc as int, iter.blocks.curr as int) {
                    Err(e) => Err::<Seq<u8>, Ext2Error>(e),
                    Ok(rest) => Ok::<Seq<u8>, Ext2Error>(buffer@ + rest),
                }),
            decreases dbc - iter.blocks.curr,
        {
            let ghost k = iter.blocks.curr as int;
            let ghost buf0 = buffer@;
            match iter.next(disk) {
                Some(Ok(block)) => {
                    buffer.extend_from_slice(block.as_slice());
                    proof {
                        assert(buffer@ =~= spec_content_blocks(disk@, bs, ptrs, k + 1));
                        let after = spec_read_content_result(disk@, bs, ptrs, dbc as int, k + 1);
                        if after is Ok {
                            assert(buf0 + (block@ + after->Ok_0) =~= buffer@ + after->Ok_0);
                        }
                    }
                },
                Some(Err(e)) => {
                    proof {
                        assert(spec_data_block_result(disk@, bs, ptrs, k) == Err::<
                            Seq<u8>,
                            Ext2Error,
                        >(e));
                        assert(spec_read_content_result(disk@, bs, ptrs, dbc as int, k) == Err::<
                            Seq<u8>,
                            Ext2Error,
                        >(e));
                    }
                    return Err(e);
                },
                None => {
                    proof {
                        assert(false);
                    }
                },
            }
        }
        proof {
            assert(buffer@ + Seq::<u8>::empty() =~= buffer@);
        }
        Ok(buffer)
    }

    /// The inode's data-block numbers, materialized in order.
    ///
    /// Succeeds exactly when the whole pointer chain can be read; otherwise
    /// the first failure is returned.
    pub fn get_blocks(&self, disk: &Disk) -> (r: Result<Vec<u64>, Ext2Error>)
        requires
            self.inv(),
        ensures
            r is Ok <==> forall|k: int|
                0 <= k < self.data_blocks_count ==> spec_next_block(
                    disk@,
                    self.block_size,
                    self.ext2_inode.i_block@,
                    k,
                ) is Ok,
            r matches Ok(v) ==> v@.len() == self.data_blocks_count && forall|k: int|
                0 <= k < self.data_blocks_count ==> v@[k] == spec_block_num(
                    disk@,
                    self.block_size,
                    self.ext2_inode.i_block@,
                    k,
                ),
            r matches Err(e) ==> exists|k: int|
                0 <= k < self.data_blocks_count && spec_next_block(
                    disk@,
                    self.block_size,
                    self.ext2_inode.i_block@,
                    k,
                ) == Err::<u64, Ext2Error>(e) && (forall|j: int|
                    0 <= j < k ==> spec_next_block(
                        disk@,
                        self.block_size,
                        self.ext2_inode.i_block@,
                        j,
                    ) is Ok),
    {
        let mut iter = match self.get_blocks_iter(disk) {
            Ok(it) => it,
            Err(e) => {
                return Err(e);
            },
        };
        let mut blocks: Vec<u64> = Vec::new();
        let ghost bs = self.block_size;
        let ghost ptrs = self.ext2_inode.i_block@;
        let dbc = self.data_blocks_count;
        while iter.curr < dbc
            invariant
                self.inv(),
                bs == self.block_size,
                ptrs == self.ext2_inode.i_block@,
                dbc == self.data_blocks_count,
                iter.inv(),
                iter.spec_img() == disk@,
                iter.spec_bs() == bs,
                iter.i_block@ == ptrs,
                iter.data_blocks_count == dbc,
                iter.curr <= dbc,
                blocks@.len() == iter.curr,
                forall|k: int|
                    0 <= k < iter.curr ==> spec_next_block(disk@, bs, ptrs, k) == Ok::<
                        u64,
                        Ext2Error,
                    >(blocks@[k]),
            decreases dbc - iter.curr,
        {
            let ghost k = iter.curr as int;
            match iter.next(disk) {
                Some(Ok(bn)) => {
                    blocks.push(bn);
                },
                Some(Err(e)) => {
                    proof {
                        assert(spec_next_block(disk@, bs, ptrs, k) == Err::<u64, Ext2Error>(e));
                        assert forall|j: int| 0 <= j < k implies spec_next_block(
                            disk@,
                            bs,
                            ptrs,
                            j,
                        ) is Ok by {
                            assert(spec_next_block(disk@, bs, ptrs, j) == Ok::<u64, Ext2Error>(
                                blocks@[j],
                            ));
                        }
                    }
                    return Err(e);
                },
                None => {
                    proof {
                        assert(false);
                    }
                },
            }
        }
        proof {
            assert forall|k: int| 0 <= k < dbc implies spec_next_block(disk@, bs, ptrs, k) is Ok
                && blocks@[k] == spec_block_num(disk@, bs, ptrs, k) by {
                assert(spec_next_block(disk@, bs, ptrs, k) == Ok::<u64, Ext2Error>(blocks@[k]));
            }
        }
        Ok(blocks)
    }
}

/// A block's payload always has exactly `block_size` bytes.
pub proof fn lemma_payload_len(img: Seq<u8>, bs: u64, bn: u64)
    ensures
        spec_block_payload(img, bs, bn).len() == bs,
{
    assert(0 <= bn * bs) by (nonlinear_arith)
        requires
            0 <= bn && 0 <= bs,
    ;
}

/// Folding a walk's records into a listing: deleted slots (inode zero) are
/// skipped, a non-UTF-8 name is corrupt data, and every other record is
/// inserted under its name, later records replacing earlier ones.
pub open spec fn spec_add_entries(
    m: Seq<DirEntryView>,
    raw: Seq<RawDirEntryView>,
    parent: Seq<char>,
) -> Result<Seq<DirEntryView>, Ext2Error>
    decreases raw.len(),
{
    if raw.len() == 0 {
        Ok(m)
    } else {
        let e = raw[0];
        if e.inode_num == 0 {
            spec_add_entries(m, raw.drop_first(), parent)
        } else if !valid_utf8(e.name) {
            Err(Ext2Error::InvalidData)
        } else {
            let name = decode_utf8(e.name);
            let dv = DirEntryView {
                path: crate::dir::spec_child_path(parent, name),
                file_name: name,
                inode_num: e.inode_num,
            };
            spec_add_entries(spec_insert_entry(m, dv), raw.drop_first(), parent)
        }
    }
}

/// The listing of a directory's blocks from block `k` on, folded onto `m`:
/// the first failure wins, exactly as the block iterator yields it.
pub open spec fn spec_read_dir_blocks(
    img: Seq<u8>,
    bs: u64,
    ptrs: Seq<u32>,
    dbc: int,
    parent: Seq<char>,
    k: int,
    m: Seq<DirEntryView>,
) -> Result<Seq<DirEntryView>, Ext2Error>
    decreases dbc - k,
{
    if k >= dbc {
        Ok(m)
    } else {
        match spec_data_block_result(img, bs, ptrs, k) {
            Err(e) => Err(e),
            Ok(block) => match spec_walk_block(block, 0) {
                None => Err(Ext2Error::InvalidData),
                Some(raw) => match spec_add_entries(m, raw, parent) {
                    Err(e) => Err(e),
                    Ok(m2) => spec_read_dir_blocks(img, bs, ptrs, dbc, parent, k + 1, m2),
                },
            },
        }
    }
}

/// What remains of a directory read that stands at offset `off` of block `k`
/// with listing `m` built so far.
pub open spec fn spec_dir_continue(
    img: Seq<u8>,
    bs: u64,
    ptrs: Seq<u32>,
    dbc: int,
    parent: Seq<char>,
    k: int,
    block: Seq<u8>,
    off: int,
    m: Seq<DirEntryView>,
) -> Result<Seq<DirEntryView>, Ext2Error> {
    match spec_walk_block(block, off) {
        None => Err(Ext2Error::InvalidData),
        Some(raw) => match spec_add_entries(m, raw, parent) {
            Err(e) => Err(e),
            Ok(m2) => spec_read_dir_blocks(img, bs, ptrs, dbc, parent, k + 1, m2),
        },
    }
}

/// What `read_dir` returns for an inode: `NotADirectory` for a non-directory
/// mode, otherwise the name-ordered listing of all its blocks' records.
pub open spec fn spec_dir_listing(
    img: Seq<u8>,
    bs: u64,
    iv: InodeView,
    parent: Seq<char>,
) -> Result<Seq<DirEntryView>, Ext2Error> {
    if !is_dir_mode(iv.i_mode as u32) {
        Err(Ext2Error::NotADirectory)
    } else {
        spec_read_dir_blocks(
            img,
            bs,
            iv.i_block,
            spec_data_blocks_count(spec_inode_size_bytes(iv), bs),
            parent,
            0,
            Seq::empty(),
        )
    }
}

impl Ext2Inode {
    /// Reads this directory inode: every surviving record of every block, in
    /// an ordered map keyed by file name.  Entries named by `path` as their
    /// parent directory.
    ///
    /// Fails with `NotADirectory` on a non-directory inode, with
    /// `InvalidData` on a corrupt record or name, and with a device error
    /// where a block cannot be read; the first failure wins.
    pub fn read_dir(&self, disk: &Disk, path: &str) -> (r: Result<Vec<Ext2DirEntry>, Ext2Error>)
        requires
            self.inv(),
        ensures
            r matches Ok(v) ==> spec_dir_listing(disk@, self.block_size, self.ext2_inode@, path@)
                == Ok::<Seq<DirEntryView>, Ext2Error>(dir_views(v@)),
            r matches Err(e) ==> spec_dir_listing(disk@, self.block_size, self.ext2_inode@, path@)
                == Err::<Seq<DirEntryView>, Ext2Error>(e),
    {
        if !self.metadata().is_dir() {
            return Err(Ext2Error::NotADirectory);
        }
        let ghost bs = self.block_size;
        let ghost ptrs = self.ext2_inode.i_block@;
        let ghost parent = path@;
        let dbc = self.data_blocks_count;
        let mut entries: Vec<Ext2DirEntry> = Vec::new();
        let mut iter = match self.read_blocks_iter(disk) {
            Ok(it) => it,
            Err(e) => {
                return Err(e);
            },
        };
        proof {
            assert(dir_views(entries@) =~= Seq::<DirEntryView>::empty());
        }
        while iter.blocks.curr < dbc
            invariant
                self.inv(),
                is_dir_mode(self.ext2_inode@.i_mode as u32),
                bs == self.block_size,
                ptrs == self.ext2_inode.i_block@,
                dbc == self.data_blocks_count,
                parent == path@,
                iter.inv(),
                iter.spec_img() == disk@,
                iter.block_size == bs,
                iter.blocks.i_block@ == ptrs,
                iter.blocks.data_blocks_count == dbc,
                iter.blocks.curr <= dbc,
                spec_read_dir_blocks(disk@, bs, ptrs, dbc as int, parent, 0, Seq::empty())
                    == spec_read_dir_blocks(
                    disk@,
                    bs,
                    ptrs,
                    dbc as int,
                    parent,
                    iter.blocks.curr as int,
                    dir_views(entries@),
                ),
            decreases dbc - iter.blocks.curr,
        {
            let ghost k = iter.blocks.curr as int;
            let ghost m_k = dir_views(entries@);
            match iter.next(disk) {
                Some(Ok(buffer)) => {
                    proof {
                        assert(spec_data_block_result(disk@, bs, ptrs, k) == Ok::<
                            Seq<u8>,
                            Ext2Error,
                        >(buffer@));
                        lemma_payload_len(disk@, bs, spec_block_num(disk@, bs, ptrs, k));
                    }
                    let block_len = buffer.len();
                    let mut offset: usize = 0;
                    while offset < block_len
                        invariant
                            self.inv(),
                            is_dir_mode(self.ext2_inode@.i_mode as u32),
                            bs == self.block_size,
                            ptrs == self.ext2_inode.i_block@,
                            dbc == self.data_blocks_count,
                            parent == path@,
                            block_len == buffer.len(),
                            0 <= offset <= block_len,
                            spec_read_dir_blocks(disk@, bs, ptrs, dbc as int, parent, 0, Seq::empty())
                                == spec_dir_continue(
                                disk@,
                                bs,
                                ptrs,
                                dbc as int,
                                parent,
                                k,
                                buffer@,
                                offset as int,
                                dir_views(entries@),
                            ),
                        decreases block_len - offset,
                    {
                        let ghost off = offset as int;
                        let ghost m_cur = dir_views(entries@);
                        // Decode the record header, mirroring the walk's
                        // structural checks.
                        if block_len - offset < 8 {
                            return Err(Ext2Error::InvalidData);
                        }
                        let ino = read_le32(&buffer, offset) as u64;
                        let rec_len = read_le16(&buffer, offset + 4) as usize;
                        let name_len = buffer[offset + 6] as usize;
                        if rec_len < 8 || rec_len > block_len - offset || name_len > rec_len - 8 {
                            return Err(Ext2Error::InvalidData);
                        }
                        proof {
                            assert(spec_entry_at(buffer@, off) is Some);
                        }
                        let ghost e = spec_entry_at(buffer@, off)->0;
                        let ghost w = spec_walk_block(buffer@, off + e.rec_len);
                        proof {
                            assert(e.inode_num == ino && e.rec_len == rec_len);
                            if w is Some {
                                assert(spec_walk_block(buffer@, off) == Some(seq![e] + w->0));
                                assert((seq![e] + w->0)[0] == e);
                                assert((seq![e] + w->0).drop_first() =~= w->0);
                            } else {
                                assert(spec_walk_block(buffer@, off) is None);
                            }
                        }
                        if ino == 0 {
                            // A deleted or reserved slot: skip it.
                            offset = offset + rec_len;
                        } else {
                            let (entry, rl) = match Ext2DirEntry::new(&buffer, offset, path) {
                                Ok(x) => x,
                                Err(err) => {
                                    return Err(err);
                                },
                            };
                            entries = insert_entry(entries, entry);
                            offset = offset + rl;
                        }
                    }
                    proof {
                        assert(offset == block_len);
                        assert(spec_walk_block(buffer@, offset as int) == Some(
                            Seq::<RawDirEntryView>::empty(),
                        ));
                    }
                },
                Some(Err(e)) => {
                    proof {
                        assert(spec_data_block_result(disk@, bs, ptrs, k) == Err::<
                            Seq<u8>,
                            Ext2Error,
                        >(e));
                    }
                    return Err(e);
                },
                None => {
                    proof {
                        assert(false);
                    }
                },
            }
        }
        Ok(entries)
    }
}

/// `ceil(size / bs) * bs` covers the size: the concatenated blocks are long
/// enough to truncate to `size`.
pub proof fn lemma_dbc_covers_size(size: u64, bs: u64)
    requires
        bs >= 1,
    ensures
        spec_data_blocks_count(size, bs) >= 0,
        spec_data_blocks_count(size, bs) * bs >= size,
{
    let q = size as int / bs as int;
    let r = size as int % bs as int;
    lemma_fundamental_div_mod(size as int, bs as int);
    lemma_mod_bound(size as int, bs as int);
    assert(q * bs == bs * q) by (nonlinear_arith);
    if r != 0 {
        assert((q + 1) * bs == q * bs + bs) by (nonlinear_arith);
    }
}

/// The byte content of a file inode: its data blocks concatenated, truncated
/// to the declared size.
pub open spec fn spec_file_content(img: Seq<u8>, bs: u64, iv: InodeView) -> Seq<u8> {
    spec_content_blocks(
        img,
        bs,
        iv.i_block,
        spec_data_blocks_count(spec_inode_size_bytes(iv), bs),
    ).take(spec_inode_size_bytes(iv) as int)
}

/// Byte `j` of the concatenated blocks is byte `j mod block_size` of data
/// block `j / block_size`.
pub proof fn lemma_content_blocks_index(img: Seq<u8>, bs: u64, ptrs: Seq<u32>, dbc: int, j: int)
    requires
        bs >= 1,
        0 <= j < dbc * bs,
    ensures
        spec_content_blocks(img, bs, ptrs, dbc)[j] == spec_data_block(img, bs, ptrs, j / (
        bs as int))[j % (bs as int)],
    decreases dbc,
{
    let bsi = bs as int;
    if dbc <= 0 {
        assert(dbc * bs <= 0) by (nonlinear_arith)
            requires
                dbc <= 0 && bs >= 0,
        ;
    } else {
        lemma_content_blocks_len(img, bs, ptrs, dbc - 1);
        lemma_payload_len(img, bs, spec_block_num(img, bs, ptrs, dbc - 1));
        if j < (dbc - 1) * bsi {
            lemma_content_blocks_index(img, bs, ptrs, dbc - 1, j);
        } else {
            assert(j < dbc * bsi && (dbc - 1) * bsi + bsi == dbc * bsi) by (nonlinear_arith)
                requires
                    0 <= j < dbc * bs && bsi == bs,
            ;
            let r = j - (dbc - 1) * bsi;
            vstd::arithmetic::div_mod::lemma_fundamental_div_mod_converse_div(
                j,
                bsi,
                dbc - 1,
                r,
            );
            vstd::arithmetic::div_mod::lemma_fundamental_div_mod_converse_mod(
                j,
                bsi,
                dbc - 1,
                r,
            );
        }
    }
}

/// The bytes a symbolic link points at: targets of up to 60 bytes live in
/// the pointer array itself, longer ones are ordinary file content.
pub open spec fn spec_symlink_target_bytes(img: Seq<u8>, bs: u64, iv: InodeView) -> Seq<u8> {
    let size = spec_inode_size_bytes(iv);
    if size <= 60 {
        iv.i_block_bytes.take(size as int)
    } else {
        spec_content_blocks(
            img,
            bs,
            iv.i_block,
            spec_data_blocks_count(size, bs),
        ).take(size as int)
    }
}

/// What `read_link` returns for an inode record: the link target decoded as
/// UTF-8, or the first failure on the way to it.
pub open spec fn spec_read_link_result(img: Seq<u8>, bs: u64, iv: InodeView) -> Result<
    Seq<char>,
    Ext2Error,
> {
    if !crate::metadata::is_symlink_mode(iv.i_mode as u32) {
        Err(Ext2Error::NotASymlink)
    } else {
        let size = spec_inode_size_bytes(iv);
        if size <= 60 {
            let bytes = iv.i_block_bytes.take(size as int);
            if valid_utf8(bytes) {
                Ok(decode_utf8(bytes))
            } else {
                Err(Ext2Error::InvalidData)
            }
        } else {
            match spec_read_content_result(
                img,
                bs,
                iv.i_block,
                spec_data_blocks_count(size, bs),
                0,
            ) {
                Err(e) => Err(e),
                Ok(content) => {
                    let bytes = content.take(size as int);
                    if valid_utf8(bytes) {
                        Ok(decode_utf8(bytes))
                    } else {
                        Err(Ext2Error::InvalidData)
                    }
                },
            }
        }
    }
}

/// Inode `n` can be read: a group owns it and its record lies in the image.
pub open spec fn spec_read_inode_ok(
    img: Seq<u8>,
    bg: Ext2BlockGroups,
    bs: u64,
    isz: u64,
    n: u64,
) -> bool {
    &&& bg.spec_has_inode(n)
    &&& spec_inode_offset(bg, bs, isz, n) + isz <= img.len()
}

/// The entry `name` of the directory inode `iv`, when the directory can be
/// read and holds the name.
pub open spec fn spec_child_entry(img: Seq<u8>, bs: u64, iv: InodeView, name: Seq<char>) -> Option<
    DirEntryView,
> {
    match spec_dir_listing(img, bs, iv, Seq::empty()) {
        Err(_) => None,
        Ok(m) => spec_find_entry(m, name),
    }
}

impl Ext2Inode {
    /// Reads the value of this symbolic link.
    ///
    /// Fails with `NotASymlink` on any other inode type and with
    /// `InvalidData` when the target is not UTF-8; a long target that cannot
    /// be read from the device propagates the first block failure.  The
    /// returned string encodes back to exactly the inode's `size` bytes.
    pub fn read_link(&self, disk: &Disk) -> (r: Result<String, Ext2Error>)
        requires
            self.inv(),
        ensures
            ({
                let iv = self.ext2_inode@;
                let tgt = spec_symlink_target_bytes(disk@, self.block_size, iv);
                &&& (r matches Ok(s) ==> {
                    &&& spec_read_link_result(disk@, self.block_size, iv) == Ok::<
                        Seq<char>,
                        Ext2Error,
                    >(s@)
                    &&& valid_utf8(tgt)
                    &&& s@ == decode_utf8(tgt)
                    &&& vstd::utf8::encode_utf8(s@) == tgt
                    &&& tgt.len() == self.size
                })
                &&& (r matches Err(e) ==> spec_read_link_result(disk@, self.block_size, iv)
                    == Err::<Seq<char>, Ext2Error>(e))
            }),
    {
        if !self.metadata().is_symlink() {
            return Err(Ext2Error::NotASymlink);
        }
        let ghost tgt = spec_symlink_target_bytes(disk@, self.block_size, self.ext2_inode@);
        // The target of a symbolic link is stored inside the pointer array
        // itself when it is at most 60 bytes long.
        if self.size <= 60 {
            let sz = self.size as usize;
            let mut target: Vec<u8> = Vec::new();
            let mut j: usize = 0;
            while j < sz
                invariant
                    j <= sz,
                    sz <= 60,
                    self.ext2_inode.i_block_bytes@.len() == 60,
                    target@ == self.ext2_inode.i_block_bytes@.subrange(0, j as int),
                decreases sz - j,
            {
                target.push(self.ext2_inode.i_block_bytes[j]);
                j = j + 1;
                proof {
                    assert(target@ =~= self.ext2_inode.i_block_bytes@.subrange(0, j as int));
                }
            }
            proof {
                assert(target@ =~= tgt);
            }
            match crate::text::utf8_to_string(target) {
                Ok(s) => {
                    proof {
                        vstd::utf8::decode_utf8_encode_utf8(tgt);
                    }
                    Ok(s)
                },
                Err(e) => Err(e),
            }
        } else {
            // A longer target is ordinary file content, truncated to `size`.
            let mut content = match self.read(disk) {
                Ok(c) => c,
                Err(e) => {
                    return Err(e);
                },
            };
            proof {
                lemma_content_blocks_len(
                    disk@,
                    self.block_size,
                    self.ext2_inode.i_block@,
                    self.data_blocks_count as int,
                );
                lemma_dbc_covers_size(self.size, self.block_size);
            }
            let sz = self.size as usize;
            content.truncate(sz);
            proof {
                assert(content@ =~= tgt);
            }
            match crate::text::utf8_to_string(content) {
                Ok(s) => {
                    proof {
                        vstd::utf8::decode_utf8_encode_utf8(tgt);
                    }
                    Ok(s)
                },
                Err(e) => Err(e),
            }
        }
    }

    /// Resolves a child by name: looks `name` up in this directory and reads
    /// the child's inode.  `None` covers every failure: an unreadable or
    /// non-directory inode, a missing name, and a child inode that cannot be
    /// read.
    pub fn get_child(&self, disk: &Disk, block_groups: &Ext2BlockGroups, name: &str) -> (r: Option<
        Ext2Inode,
    >)
        requires
            self.inv(),
            block_groups.inv(),
        ensures
            r is Some <==> (spec_child_entry(disk@, self.block_size, self.ext2_inode@, name@)
                matches Some(dv) && spec_read_inode_ok(
                disk@,
                *block_groups,
                self.block_size,
                self.inode_size,
                dv.inode_num,
            )),
            r matches Some(child) ==> {
                let dv = spec_child_entry(
                    disk@,
                    self.block_size,
                    self.ext2_inode@,
                    name@,
                )->Some_0;
                &&& child.wf(disk@, *block_groups)
                &&& child.inode_num == dv.inode_num
                &&& child.block_size == self.block_size
                &&& child.inode_size == self.inode_size
            },
    {
        proof {
            reveal_strlit("");
            assert(""@ =~= Seq::<char>::empty());
        }
        match self.read_dir(disk, "") {
            Ok(entries) => match find_entry(&entries, name) {
                Some(dir_entry) => {
                    match Ext2Inode::new(
                        disk,
                        self.inode_size,
                        self.block_size,
                        block_groups,
                        dir_entry.inode_num,
                    ) {
                        Ok(child) => Some(child),
                        Err(_) => None,
                    }
                },
                None => None,
            },
            Err(_) => None,
        }
    }
}

} // verus!
