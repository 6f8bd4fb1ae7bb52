//! The block device and the per-iterator block cache.
//!
//! The device is the filesystem image held in memory: a read is a bounds
//! check followed by a copy, and its contract pins the returned bytes to a
//! subrange of the image.  A read that would run past the end of the image
//! (or whose byte offset does not even fit in 64 bits) fails with
//! `UnexpectedEof`, exactly when `offset + size` exceeds the image length.

use vstd::prelude::*;

use crate::error::Ext2Error;

verus! {

/// A byte offset expressed in terms a caller thinks in: either a whole block,
/// or a block plus a byte delta.
#[derive(Debug)]
pub enum Offset {
    Block { block_size: u64, block_num: u64 },
    BlockDelta { block_size: u64, base_block_num: u64, delta: u64 },
}

impl Offset {
    /// The byte offset this value denotes, as an unbounded integer.
    pub open spec fn spec_offset(self) -> int {
        match self {
            Offset::Block { block_size, block_num } => block_num * block_size,
            Offset::BlockDelta { block_size, base_block_num, delta } => base_block_num * block_size
                + delta,
        }
    }

    /// Resolves the encoding into a plain byte offset.
    pub fn calc_offset(&self) -> (r: u64)
        requires
            self.spec_offset() <= u64::MAX,
        ensures
            r == self.spec_offset(),
    {
        match self {
            Offset::Block { block_size, block_num } => *block_num * *block_size,
            Offset::BlockDelta { block_size, base_block_num, delta } => *base_block_num
                * *block_size + *delta,
        }
    }

    /// Like `calc_offset`, but reports an offset beyond 64 bits instead of
    /// requiring the caller to rule it out.
    pub fn checked_offset(&self) -> (r: Option<u64>)
        ensures
            r is Some <==> self.spec_offset() <= u64::MAX,
            r is Some ==> r->0 == self.spec_offset(),
    {
        match self {
            Offset::Block { block_size, block_num } => block_num.checked_mul(*block_size),
            Offset::BlockDelta { block_size, base_block_num, delta } => {
                match base_block_num.checked_mul(*block_size) {
                    Some(base) => base.checked_add(*delta),
                    None => None,
                }
            },
        }
    }
}

/// The block device: a random-access view of the filesystem image.
pub struct Disk {
    image: Vec<u8>,
}

impl View for Disk {
    type V = Seq<u8>;

    closed spec fn view(&self) -> Seq<u8> {
        self.image@
    }
}

impl Disk {
    /// Wraps an image, already read into memory, as a device.
    pub fn new(image: Vec<u8>) -> (d: Disk)
        ensures
            d@ == image@,
    {
        Disk { image }
    }

    /// The image length in bytes.
    pub fn len(&self) -> (r: usize)
        ensures
            r == self@.len(),
    {
        self.image.len()
    }

    /// Reads exactly `size` bytes at the resolved offset.
    ///
    /// Succeeds exactly when the requested range lies within the image, and
    /// then returns that byte range; a short read is `UnexpectedEof`.
    pub fn read(&self, size: u64, offset: Offset) -> (r: Result<Vec<u8>, Ext2Error>)
        ensures
            r is Ok <==> offset.spec_offset() + size <= self@.len(),
            r matches Ok(v) ==> v@ == self@.subrange(
                offset.spec_offset(),
                offset.spec_offset() + size,
            ),
            r matches Err(e) ==> e == Ext2Error::UnexpectedEof,
    {
        let len = self.image.len();
        match offset.checked_offset() {
            None => Err(Ext2Error::UnexpectedEof),
            Some(o) => {
                if o > len as u64 || size > len as u64 - o {
                    Err(Ext2Error::UnexpectedEof)
                } else {
                    let start = o as usize;
                    let n = size as usize;
                    let mut v: Vec<u8> = Vec::new();
                    let mut i: usize = 0;
                    while i < n
                        invariant
                            i <= n,
                            start + n <= len,
                            len == self.image@.len(),
                            v@ == self.image@.subrange(start as int, start + i),
                        decreases n - i,
                    {
                        v.push(self.image[start + i]);
                        i = i + 1;
                        proof {
                            assert(v@ =~= self.image@.subrange(start as int, start + i));
                        }
                    }
                    proof {
                        assert(v@ =~= self@.subrange(
                            offset.spec_offset(),
                            offset.spec_offset() + size,
                        ));
                    }
                    Ok(v)
                }
            },
        }
    }
}

/// What it means for a cache entry to be faithful: block `num` of the image
/// `img`, for block size `bs`.
pub open spec fn cache_entry_ok(img: Seq<u8>, bs: nat, num: u64, data: Seq<u8>) -> bool {
    &&& num * bs + bs <= img.len()
    &&& data == img.subrange(num * bs as int, num * bs + bs)
}

/// A lookaside for recently read blocks, used while walking indirect block
/// pointers.  Eviction never happens: a cache lives only as long as one
/// iteration over one inode's blocks.
pub struct BlockCache {
    block_size: u64,
    entries: Vec<(u64, Vec<u8>)>,
    image: Ghost<Seq<u8>>,
}

impl BlockCache {
    /// The image this cache mirrors.
    pub closed spec fn spec_image(&self) -> Seq<u8> {
        self.image@
    }

    /// The block size the cache was created with.
    pub closed spec fn spec_block_size(&self) -> u64 {
        self.block_size
    }

    /// Every cached block holds exactly the image bytes of its block number.
    pub closed spec fn wf(&self) -> bool {
        forall|i: int|
            0 <= i < self.entries@.len() ==> cache_entry_ok(
                self.image@,
                self.block_size as nat,
                (#[trigger] self.entries@[i]).0,
                self.entries@[i].1@,
            )
    }

    /// Creates an empty cache over the given device.
    pub fn new(disk: &Disk, block_size: u64) -> (c: BlockCache)
        ensures
            c.wf(),
            c.spec_image() == disk@,
            c.spec_block_size() == block_size,
    {
        BlockCache { block_size, entries: Vec::new(), image: Ghost(disk@) }
    }

    /// Returns block `block_num`, reading it from the device on a miss.
    ///
    /// Succeeds exactly when the block lies within the image.
    pub fn get_block(&mut self, disk: &Disk, block_num: u64) -> (r: Result<Vec<u8>, Ext2Error>)
        requires
            old(self).wf(),
            old(self).spec_image() == disk@,
        ensures
            final(self).wf(),
            final(self).spec_image() == old(self).spec_image(),
            final(self).spec_block_size() == old(self).spec_block_size(),
            r is Ok <==> block_num * old(self).spec_block_size() + old(self).spec_block_size()
                <= disk@.len(),
            r matches Ok(v) ==> cache_entry_ok(
                disk@,
                old(self).spec_block_size() as nat,
                block_num,
                v@,
            ),
            r matches Err(e) ==> e == Ext2Error::UnexpectedEof,
    {
        let n = self.entries.len();
        let mut i: usize = 0;
        while i < n
            invariant
                self.wf(),
                self.spec_image() == disk@,
                n == self.entries@.len(),
            decreases n - i,
        {
            if self.entries[i].0 == block_num {
                let data = self.entries[i].1.clone();
                proof {
                    assert(data@ == self.entries@[i as int].1@);
                }
                return Ok(data);
            }
            i = i + 1;
        }
        let offset = Offset::Block { block_size: self.block_size, block_num };
        match disk.read(self.block_size, offset) {
            Ok(data) => {
                self.entries.push((block_num, data.clone()));
                Ok(data)
            },
            Err(e) => Err(e),
        }
    }
}

} // verus!
