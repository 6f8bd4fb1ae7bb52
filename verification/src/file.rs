//! The file reader: a byte-positioned view over an inode's data blocks.
//!
//! A read at position `pos` serves at most one block: it returns
//! `min(buffer length, bytes to end of file, bytes to end of the block)`
//! bytes, so a read straddling a block boundary comes back short and the
//! caller loops until a read returns zero.  At end of file the buffer is
//! zero-filled and the read returns zero.

use vstd::prelude::*;
use vstd::pervasive::VecAdditionalExecFns;

use crate::disk::{Disk, Offset};
use crate::error::Ext2Error;
use crate::inode::{
    spec_block_num, spec_block_ok, spec_block_payload, spec_content_ok, spec_data_block,
    spec_file_content, Ext2Inode,
};

verus! {

/// How many bytes one `read` call returns: up to the buffer length, never
/// past the end of the file, never across a block boundary.
pub open spec fn spec_read_len(size: u64, bs: u64, pos: u64, buf_len: int) -> int
    recommends
        bs >= 1,
{
    if pos >= size {
        0
    } else {
        let to_eof = size - pos;
        let in_block = bs - pos as int % bs as int;
        if buf_len <= to_eof && buf_len <= in_block {
            buf_len
        } else if to_eof <= in_block {
            to_eof as int
        } else {
            in_block
        }
    }
}

/// An open file: the inode handle, its materialized data-block numbers, and
/// the read position.
pub struct FsFile {
    pub inode: Ext2Inode,
    pub blocks: Vec<u64>,
    pub pos: u64,
    pub img: Ghost<Seq<u8>>,
}

impl FsFile {
    /// The block list is the inode's, resolved against the image the file
    /// was opened on.
    pub open spec fn wf(self) -> bool {
        &&& self.inode.inv()
        &&& self.blocks@.len() == self.inode.data_blocks_count
        &&& forall|k: int|
            0 <= k < self.blocks@.len() ==> self.blocks@[k] == spec_block_num(
                self.img@,
                self.inode.block_size,
                self.inode.ext2_inode.i_block@,
                k,
            )
    }

    /// The file's byte content.
    pub open spec fn spec_content(self) -> Seq<u8> {
        spec_file_content(self.img@, self.inode.block_size, self.inode.ext2_inode@)
    }

    /// Wraps an inode handle and its resolved block numbers as an open file
    /// positioned at byte zero.
    pub fn new(disk: &Disk, inode: Ext2Inode, blocks: Vec<u64>) -> (r: FsFile)
        requires
            inode.inv(),
            blocks@.len() == inode.data_blocks_count,
            forall|k: int|
                0 <= k < blocks@.len() ==> blocks@[k] == spec_block_num(
                    disk@,
                    inode.block_size,
                    inode.ext2_inode.i_block@,
                    k,
                ),
        ensures
            r.wf(),
            r.img@ == disk@,
            r.inode == inode,
            r.pos == 0,
    {
        FsFile { inode, blocks, pos: 0, img: Ghost(disk@) }
    }

    /// Attempts to open a file on the given volume.
    pub fn open(fs: &crate::ext2::Ext2Filesystem, path: &str) -> (r: Result<FsFile, Ext2Error>)
        requires
            fs.wf(),
        ensures
            r matches Ok(f) ==> {
                &&& fs.spec_resolve(path@, false) == Ok::<u64, Ext2Error>(f.inode.inode_num)
                &&& !crate::metadata::is_dir_mode(fs.spec_inode(f.inode.inode_num).i_mode as u32)
                &&& f.wf()
                &&& f.img@ == fs.disk@
                &&& f.pos == 0
            },
            fs.spec_resolve(path@, false) matches Err(e) ==> r == Err::<FsFile, Ext2Error>(e),
    {
        fs.open(path)
    }

    /// Is the position at or past the end of the file?
    pub fn is_eol(&self) -> (r: bool)
        ensures
            r == (self.pos >= self.inode.size),
    {
        self.pos >= self.inode.get_size()
    }

    /// How many bytes of a `buffer_len`-byte buffer a read at the current
    /// position may fill before the end of the file.
    pub fn how_many_bytes(&self, buffer_len: usize) -> (r: usize)
        requires
            self.pos < self.inode.size,
        ensures
            r == if buffer_len <= self.inode.size - self.pos {
                buffer_len as int
            } else {
                self.inode.size - self.pos
            },
    {
        if buffer_len as u64 > self.inode.get_size() - self.pos {
            (self.inode.get_size() - self.pos) as usize
        } else {
            buffer_len
        }
    }

    /// Extends `buffer` with zeroes until it holds `buffer_len` bytes.
    pub fn zero_padding(&self, read_bytes: usize, buffer_len: usize, buffer: &mut Vec<u8>)
        requires
            old(buffer)@.len() == read_bytes,
        ensures
            read_bytes < buffer_len ==> final(buffer)@ == old(buffer)@ + Seq::new(
                (buffer_len - read_bytes) as nat,
                |i: int| 0u8,
            ),
            read_bytes >= buffer_len ==> final(buffer)@ == old(buffer)@,
    {
        if read_bytes < buffer_len {
            let pad_len = buffer_len - read_bytes;
            let zero: Vec<u8> = vec![0u8; pad_len];
            buffer.extend_from_slice(zero.as_slice());
            proof {
                assert(zero@ =~= Seq::new((buffer_len - read_bytes) as nat, |i: int| 0u8));
            }
        }
    }

    /// Reads the block holding file block `file_block_num` from the device.
    fn read_file_block(&self, disk: &Disk, file_block_num: u64) -> (r: Result<Vec<u8>, Ext2Error>)
        requires
            self.wf(),
            self.img@ == disk@,
            file_block_num < self.blocks@.len(),
        ensures
            ({
                let bn = self.blocks@[file_block_num as int];
                &&& (r is Ok <==> spec_block_ok(disk@, self.inode.block_size, bn))
                &&& (r matches Ok(v) ==> v@ == spec_block_payload(disk@, self.inode.block_size, bn))
                &&& (r matches Err(e) ==> e == Ext2Error::UnexpectedEof)
            }),
    {
        proof {
            vstd::std_specs::vec::axiom_spec_len(&self.blocks);
        }
        let block_num = self.blocks[file_block_num as usize];
        if block_num == 0 {
            // A hole reads back as zeroes without touching the device.
            let len = self.inode.get_block_size() as usize;
            let v: Vec<u8> = vec![0u8; len];
            proof {
                assert(v@ =~= spec_block_payload(disk@, self.inode.block_size, block_num));
            }
            Ok(v)
        } else {
            let offset = Offset::Block {
                block_size: self.inode.get_block_size(),
                block_num,
            };
            proof {
                assert(offset.spec_offset() == block_num * self.inode.block_size);
            }
            let r = disk.read(self.inode.get_block_size(), offset);
            proof {
                assert(r is Ok <==> block_num * self.inode.block_size + self.inode.block_size
                    <= disk@.len());
                assert(r is Ok <==> spec_block_ok(disk@, self.inode.block_size, block_num));
            }
            r
        }
    }

    /// Pulls bytes from the file into `buf`, returning how many bytes were
    /// read: zero exactly at end of file (the buffer is then zero-filled),
    /// otherwise up to one block's worth, leaving the rest of the buffer
    /// unchanged.
    pub fn read(&mut self, disk: &Disk, buf: &mut Vec<u8>) -> (r: Result<usize, Ext2Error>)
        requires
            old(self).wf(),
            old(self).img@ == disk@,
        ensures
            final(self).wf(),
            final(self).inode == old(self).inode,
            final(self).blocks == old(self).blocks,
            final(self).img == old(self).img,
            final(buf)@.len() == old(buf)@.len(),
            r is Ok <==> (old(self).pos >= old(self).inode.size || old(buf)@.len() == 0
                || spec_block_ok(
                disk@,
                old(self).inode.block_size,
                old(self).blocks@[old(self).pos as int / old(self).inode.block_size as int],
            )),
            r matches Ok(n) ==> {
                let content = old(self).spec_content();
                let pos = old(self).pos;
                &&& n == spec_read_len(
                    old(self).inode.size,
                    old(self).inode.block_size,
                    pos,
                    old(buf)@.len() as int,
                )
                &&& final(self).pos == pos + n
                &&& (n == 0 ==> final(buf)@ == Seq::new(old(buf)@.len(), |i: int| 0u8)
                    || final(buf)@ == old(buf)@)
                &&& (n > 0 ==> final(buf)@ == content.subrange(pos as int, pos + n)
                    + old(buf)@.skip(n as int))
            },
            r matches Err(e) ==> {
                &&& e == Ext2Error::UnexpectedEof
                &&& *final(self) == *old(self)
                &&& final(buf)@ == old(buf)@
            },
    {
        if self.is_eol() {
            // End of file: zero-fill the caller's buffer and report no bytes.
            let len = buf.len();
            let mut zero: Vec<u8> = Vec::new();
            self.zero_padding(0, len, &mut zero);
            *buf = zero;
            return Ok(0);
        }
        let buffer_len = buf.len();
        if buffer_len == 0 {
            return Ok(0);
        }
        let bs = self.inode.get_block_size();
        let block_index = self.pos / bs;
        let intra = self.pos % bs;
        proof {
            vstd::arithmetic::div_mod::lemma_fundamental_div_mod(
                self.pos as int,
                self.inode.block_size as int,
            );
            vstd::arithmetic::div_mod::lemma_mod_bound(
                self.pos as int,
                self.inode.block_size as int,
            );
            crate::inode::lemma_dbc_covers_size(self.inode.size, self.inode.block_size);
            crate::inode::lemma_content_blocks_len(
                disk@,
                self.inode.block_size,
                self.inode.ext2_inode.i_block@,
                self.inode.data_blocks_count as int,
            );
            assert(block_index < self.inode.data_blocks_count) by (nonlinear_arith)
                requires
                    block_index == self.pos as int / self.inode.block_size as int,
                    self.pos < self.inode.size,
                    self.inode.size <= self.inode.data_blocks_count * self.inode.block_size,
                    self.inode.block_size >= 1,
            ;
        }
        let block = match self.read_file_block(disk, block_index) {
            Ok(b) => b,
            Err(e) => {
                return Err(e);
            },
        };
        proof {
            crate::inode::lemma_payload_len(
                disk@,
                self.inode.block_size,
                self.blocks@[block_index as int],
            );
        }
        // The read never crosses the end of the file or the block boundary.
        let to_eof = self.how_many_bytes(buffer_len);
        let in_block = (bs - intra) as usize;
        let n = if to_eof <= in_block {
            to_eof
        } else {
            in_block
        };
        let intra_us = intra as usize;
        let ghost content = self.spec_content();
        let ghost pos = self.pos;
        let mut i: usize = 0;
        while i < n
            invariant
                0 <= i <= n,
                self.wf(),
                self.img@ == disk@,
                pos == self.pos,
                pos < self.inode.size,
                intra_us == pos as int % self.inode.block_size as int,
                intra_us + n <= self.inode.block_size,
                n <= self.inode.size - pos,
                block_index == pos as int / self.inode.block_size as int,
                block_index < self.blocks@.len(),
                block@ == spec_data_block(
                    disk@,
                    self.inode.block_size,
                    self.inode.ext2_inode.i_block@,
                    block_index as int,
                ),
                block@.len() == self.inode.block_size,
                buf@.len() == buffer_len,
                n <= buffer_len,
                content == self.spec_content(),
                content.len() == self.inode.size,
                self.inode.size <= self.inode.data_blocks_count * self.inode.block_size,
                forall|j: int| 0 <= j < i ==> buf@[j] == content[pos + j],
                forall|j: int| i <= j < buffer_len ==> buf@[j] == old(buf)@[j],
            decreases n - i,
        {
            proof {
                let bsi = self.inode.block_size as int;
                vstd::arithmetic::div_mod::lemma_fundamental_div_mod(pos as int, bsi);
                assert(bsi * (pos as int / bsi) == (pos as int / bsi) * bsi) by (nonlinear_arith);
                crate::inode::lemma_content_blocks_len(
                    disk@,
                    self.inode.block_size,
                    self.inode.ext2_inode.i_block@,
                    self.inode.data_blocks_count as int,
                );
                crate::inode::lemma_content_blocks_index(
                    disk@,
                    self.inode.block_size,
                    self.inode.ext2_inode.i_block@,
                    self.inode.data_blocks_count as int,
                    pos + i,
                );
                vstd::arithmetic::div_mod::lemma_fundamental_div_mod_converse_div(
                    pos + i,
                    bsi,
                    block_index as int,
                    intra_us + i,
                );
                vstd::arithmetic::div_mod::lemma_fundamental_div_mod_converse_mod(
                    pos + i,
                    bsi,
                    block_index as int,
                    intra_us + i,
                );
            }
            buf.set(i, block[intra_us + i]);
            i = i + 1;
        }
        self.pos = self.pos + n as u64;
        proof {
            assert(buf@ =~= content.subrange(pos as int, pos + n) + old(buf)@.skip(n as int));
        }
        Ok(n)
    }

    /// Reads the rest of the file, from the current position to its end.
    pub fn read_to_end(&mut self, disk: &Disk) -> (r: Result<Vec<u8>, Ext2Error>)
        requires
            old(self).wf(),
            old(self).img@ == disk@,
        ensures
            final(self).wf(),
            final(self).inode == old(self).inode,
            r is Ok <==> spec_content_ok(
                disk@,
                old(self).inode.block_size,
                old(self).inode.ext2_inode.i_block@,
                old(self).inode.data_blocks_count,
            ) || old(self).pos >= old(self).inode.size,
            r matches Ok(v) ==> {
                let content = old(self).spec_content();
                &&& (old(self).pos < old(self).inode.size ==> v@ == content.skip(
                    old(self).pos as int,
                ))
                &&& (old(self).pos >= old(self).inode.size ==> v@ == Seq::<u8>::empty())
                &&& final(self).pos >= old(self).inode.size
            },
            r matches Err(e) ==> old(self).pos < old(self).inode.size
                && crate::inode::spec_read_content_result(
                disk@,
                old(self).inode.block_size,
                old(self).inode.ext2_inode.i_block@,
                old(self).inode.data_blocks_count as int,
                0,
            ) == Err::<Seq<u8>, Ext2Error>(e),
    {
        if self.is_eol() {
            return Ok(Vec::new());
        }
        let mut content = match self.inode.read(disk) {
            Ok(c) => c,
            Err(e) => {
                return Err(e);
            },
        };
        proof {
            crate::inode::lemma_content_blocks_len(
                disk@,
                self.inode.block_size,
                self.inode.ext2_inode.i_block@,
                self.inode.data_blocks_count as int,
            );
            crate::inode::lemma_dbc_covers_size(self.inode.size, self.inode.block_size);
        }
        content.truncate(self.inode.get_size() as usize);
        let rest = content.split_off(self.pos as usize);
        self.pos = self.inode.get_size();
        proof {
            assert(rest@ =~= old(self).spec_content().skip(old(self).pos as int));
        }
        Ok(rest)
    }
}

} // verus!
