//! The filesystem façade: mounting, path resolution with symbolic-link
//! following, and the public navigation API.
//!
//! Path resolution splits the path on `/`.  An empty leading component (an
//! absolute path) restarts from the root inode; each nonempty component is
//! looked up in the current directory.  A symbolic link found anywhere but
//! as the terminal component of a `symlink_metadata`-style lookup is
//! resolved against the current directory, absolute targets restarting from
//! the root.  Recursion is bounded: reaching the depth limit reports
//! `TooManyLinks` rather than recursing without end.

use vstd::prelude::*;
use vstd::string::StrSliceExecFns;

use crate::dir::{dir_views, DirEntryView, Ext2DirEntry};
use crate::disk::Disk;
use crate::error::Ext2Error;
use crate::file::FsFile;
use crate::group::Ext2BlockGroups;
use crate::inode::{
    spec_child_entry, spec_data_blocks_count, spec_dir_listing, spec_inode_at, spec_inode_offset,
    spec_inode_size_bytes, spec_read_inode_ok, spec_read_link_result, Ext2Inode, InodeView,
};
use crate::metadata::{is_dir_mode, is_symlink_mode, Metadata};
use crate::superblock::{spec_sb_valid, spec_superblock, Ext2SuperBlock};
use crate::text::{spec_split, spec_views, split_path};

verus! {

/// The root directory's inode number: inode 2, always.
pub const EXT2_ROOT_INO: u64 = 2;

/// The bound on symbolic-link recursion, as POSIX recommends.
pub const MAX_LINK_DEPTH: u64 = 40;

/// The record of inode `n` as decoded from the image.
pub open spec fn spec_inode_view(
    img: Seq<u8>,
    bg: Ext2BlockGroups,
    bs: u64,
    isz: u64,
    n: u64,
) -> InodeView {
    spec_inode_at(img, spec_inode_offset(bg, bs, isz, n))
}

/// The error reading inode `n` reports when it cannot be read: a number no
/// group owns is corrupt data, a record past the image is a short read.
pub open spec fn spec_read_inode_err(
    img: Seq<u8>,
    bg: Ext2BlockGroups,
    bs: u64,
    isz: u64,
    n: u64,
) -> Ext2Error {
    if !bg.spec_has_inode(n) {
        Ext2Error::InvalidData
    } else {
        Ext2Error::UnexpectedEof
    }
}

/// Resolution of components `parts[i..]` starting at inode `ino`.
///
/// `link` is the `symlink_metadata` flag: the terminal component is then not
/// followed.  `depth` bounds symbolic-link recursion; following one more
/// link at depth zero is `TooManyLinks`.
pub open spec fn spec_resolve_parts(
    img: Seq<u8>,
    bg: Ext2BlockGroups,
    bs: u64,
    isz: u64,
    parts: Seq<Seq<char>>,
    i: int,
    ino: u64,
    link: bool,
    depth: int,
) -> Result<u64, Ext2Error>
    decreases depth, parts.len() - i, 0int,
{
    if depth < 0 || i < 0 {
        Err(Ext2Error::TooManyLinks)
    } else if i >= parts.len() {
        Ok(ino)
    } else if parts[i].len() == 0 {
        spec_resolve_parts(img, bg, bs, isz, parts, i + 1, ino, link, depth)
    } else {
        let iv = spec_inode_view(img, bg, bs, isz, ino);
        match spec_child_entry(img, bs, iv, parts[i]) {
            None => Err(Ext2Error::NotFound),
            Some(dv) => if !spec_read_inode_ok(img, bg, bs, isz, dv.inode_num) {
                Err(Ext2Error::NotFound)
            } else {
                let child = spec_inode_view(img, bg, bs, isz, dv.inode_num);
                let follow = is_symlink_mode(child.i_mode as u32) && (!link || i != parts.len()
                    - 1);
                if follow {
                    match spec_read_link_result(img, bs, child) {
                        Err(e) => Err(e),
                        Ok(target) => if depth == 0 {
                            Err(Ext2Error::TooManyLinks)
                        } else {
                            match spec_resolve_rel(img, bg, bs, isz, target, ino, link, depth - 1) {
                                Err(e) => Err(e),
                                Ok(ino2) => spec_resolve_parts(
                                    img,
                                    bg,
                                    bs,
                                    isz,
                                    parts,
                                    i + 1,
                                    ino2,
                                    link,
                                    depth,
                                ),
                            }
                        },
                    }
                } else {
                    spec_resolve_parts(img, bg, bs, isz, parts, i + 1, dv.inode_num, link, depth)
                }
            },
        }
    }
}

/// Resolution of a path relative to inode `ino`: an absolute path restarts
/// from the root inode, whose read can itself fail.
pub open spec fn spec_resolve_rel(
    img: Seq<u8>,
    bg: Ext2BlockGroups,
    bs: u64,
    isz: u64,
    path: Seq<char>,
    ino: u64,
    link: bool,
    depth: int,
) -> Result<u64, Ext2Error>
    decreases depth, spec_split(path).len(), 1int,
{
    if depth < 0 {
        Err(Ext2Error::TooManyLinks)
    } else if path.len() > 0 && path[0] == '/' && !spec_read_inode_ok(
        img,
        bg,
        bs,
        isz,
        EXT2_ROOT_INO as u64,
    ) {
        Err(spec_read_inode_err(img, bg, bs, isz, EXT2_ROOT_INO as u64))
    } else {
        let start = if path.len() > 0 && path[0] == '/' {
            EXT2_ROOT_INO as u64
        } else {
            ino
        };
        spec_resolve_parts(img, bg, bs, isz, spec_split(path), 0, start, link, depth)
    }
}

/// Resolution of a path from the root, as the façade's operations use it.
pub open spec fn spec_resolve_path(
    img: Seq<u8>,
    bg: Ext2BlockGroups,
    bs: u64,
    isz: u64,
    path: Seq<char>,
    link: bool,
) -> Result<u64, Ext2Error> {
    if !spec_read_inode_ok(img, bg, bs, isz, EXT2_ROOT_INO as u64) {
        Err(spec_read_inode_err(img, bg, bs, isz, EXT2_ROOT_INO as u64))
    } else {
        spec_resolve_rel(img, bg, bs, isz, path, EXT2_ROOT_INO as u64, link, MAX_LINK_DEPTH as int)
    }
}

/// The stat record of inode `n` with record `iv` on a volume with block size
/// `bs`.
pub open spec fn spec_stat(bs: u64, iv: InodeView, n: u64) -> Metadata {
    Metadata {
        dev: 0,
        ino: n,
        mode: iv.i_mode as u32,
        nlink: iv.i_links_count as u64,
        uid: (iv.i_uid + iv.i_uid_high * 0x1_0000) as u32,
        gid: (iv.i_gid + iv.i_gid_high * 0x1_0000) as u32,
        rdev: 0,
        size: spec_inode_size_bytes(iv),
        atime: iv.i_atime as i64,
        atime_nsec: 0,
        mtime: iv.i_mtime as i64,
        mtime_nsec: 0,
        ctime: iv.i_ctime as i64,
        ctime_nsec: 0,
        blksize: bs,
        blocks: iv.i_blocks as u64,
    }
}

/// A mounted, immutable ext2 volume.
pub struct Ext2Filesystem {
    pub disk: Disk,
    pub super_block: Ext2SuperBlock,
    pub block_groups: Ext2BlockGroups,
}

impl Ext2Filesystem {
    /// The superblock and group table are the decode of the image.
    pub open spec fn wf(self) -> bool {
        &&& self.super_block.inv()
        &&& self.super_block == spec_superblock(self.disk@)
        &&& self.block_groups.wf(self.disk@, self.super_block)
    }

    /// The volume's block size.
    pub open spec fn spec_bs(self) -> u64 {
        self.super_block.spec_block_size()
    }

    /// The volume's inode record size.
    pub open spec fn spec_isz(self) -> u64 {
        self.super_block.s_inode_size as u64
    }

    /// Resolution of `path` on this volume.
    pub open spec fn spec_resolve(self, path: Seq<char>, link: bool) -> Result<u64, Ext2Error> {
        spec_resolve_path(self.disk@, self.block_groups, self.spec_bs(), self.spec_isz(), path, link)
    }

    /// The record of inode `n` on this volume.
    pub open spec fn spec_inode(self, n: u64) -> InodeView {
        spec_inode_view(self.disk@, self.block_groups, self.spec_bs(), self.spec_isz(), n)
    }

    /// Inode `n` can be read from this volume.
    pub open spec fn spec_inode_ok(self, n: u64) -> bool {
        spec_read_inode_ok(self.disk@, self.block_groups, self.spec_bs(), self.spec_isz(), n)
    }

    /// Mounts a volume: validates the superblock, then loads the group
    /// table.  A bad magic or out-of-bounds geometry is `InvalidFilesystem`
    /// and reads nothing further; an image too short for the superblock or
    /// the group table is `UnexpectedEof`.
    pub fn mount(disk: Disk) -> (r: Result<Ext2Filesystem, Ext2Error>)
        ensures
            r matches Ok(fs) ==> {
                &&& fs.wf()
                &&& fs.disk@ == disk@
                &&& spec_sb_valid(disk@)
            },
            disk@.len() < 2048 ==> r == Err::<Ext2Filesystem, Ext2Error>(
                Ext2Error::UnexpectedEof,
            ),
            disk@.len() >= 2048 && !spec_sb_valid(disk@) ==> r == Err::<Ext2Filesystem, Ext2Error>(
                Ext2Error::InvalidFilesystem,
            ),
            spec_sb_valid(disk@) ==> (r is Ok <==> crate::group::spec_gdt_offset(
                spec_superblock(disk@).spec_block_size(),
            ) + 32 * spec_superblock(disk@).spec_groups_count() <= disk@.len()),
            spec_sb_valid(disk@) && r is Err ==> r == Err::<Ext2Filesystem, Ext2Error>(
                Ext2Error::UnexpectedEof,
            ),
    {
        let super_block = match Ext2SuperBlock::new(&disk) {
            Ok(sb) => sb,
            Err(e) => {
                return Err(e);
            },
        };
        let block_groups = match Ext2BlockGroups::new(&disk, &super_block) {
            Ok(bg) => bg,
            Err(e) => {
                return Err(e);
            },
        };
        Ok(Ext2Filesystem { disk, super_block, block_groups })
    }

    /// Gets an inode handle by number.
    pub fn read_inode(&self, inode_num: u64) -> (r: Result<Ext2Inode, Ext2Error>)
        requires
            self.wf(),
        ensures
            r is Ok <==> self.spec_inode_ok(inode_num),
            r matches Ok(ino) ==> {
                &&& ino.wf(self.disk@, self.block_groups)
                &&& ino.inode_num == inode_num
                &&& ino.block_size == self.spec_bs()
                &&& ino.inode_size == self.spec_isz()
            },
            r matches Err(e) ==> e == spec_read_inode_err(
                self.disk@,
                self.block_groups,
                self.spec_bs(),
                self.spec_isz(),
                inode_num,
            ),
    {
        Ext2Inode::new(
            &self.disk,
            self.super_block.s_inode_size as u64,
            self.super_block.get_block_size(),
            &self.block_groups,
            inode_num,
        )
    }

    /// Gets an inode handle by path, following every symbolic link.
    pub fn resolve(&self, path: &str) -> (r: Result<Ext2Inode, Ext2Error>)
        requires
            self.wf(),
        ensures
            r matches Ok(ino) ==> {
                &&& self.spec_resolve(path@, false) == Ok::<u64, Ext2Error>(ino.inode_num)
                &&& ino.wf(self.disk@, self.block_groups)
                &&& ino.block_size == self.spec_bs()
                &&& ino.inode_size == self.spec_isz()
            },
            r matches Err(e) ==> self.spec_resolve(path@, false) == Err::<u64, Ext2Error>(e),
    {
        let root_inode = match self.read_inode(EXT2_ROOT_INO) {
            Ok(root) => root,
            Err(e) => {
                return Err(e);
            },
        };
        self.resolve_relative(path, root_inode, false)
    }

    /// Gets an inode handle by path relative to `inode`; with `link` the
    /// terminal component is not followed when it is a symbolic link.
    pub fn resolve_relative(&self, path: &str, inode: Ext2Inode, link: bool) -> (r: Result<
        Ext2Inode,
        Ext2Error,
    >)
        requires
            self.wf(),
            inode.wf(self.disk@, self.block_groups),
            inode.block_size == self.spec_bs(),
            inode.inode_size == self.spec_isz(),
        ensures
            r matches Ok(ino) ==> {
                &&& spec_resolve_rel(
                    self.disk@,
                    self.block_groups,
                    self.spec_bs(),
                    self.spec_isz(),
                    path@,
                    inode.inode_num,
                    link,
                    MAX_LINK_DEPTH as int,
                ) == Ok::<u64, Ext2Error>(ino.inode_num)
                &&& ino.wf(self.disk@, self.block_groups)
                &&& ino.block_size == self.spec_bs()
                &&& ino.inode_size == self.spec_isz()
            },
            r matches Err(e) ==> spec_resolve_rel(
                self.disk@,
                self.block_groups,
                self.spec_bs(),
                self.spec_isz(),
                path@,
                inode.inode_num,
                link,
                MAX_LINK_DEPTH as int,
            ) == Err::<u64, Ext2Error>(e),
    {
        self.resolve_depth(path, inode, link, MAX_LINK_DEPTH)
    }

    /// `resolve_relative` with an explicit recursion budget.
    fn resolve_depth(&self, path: &str, inode: Ext2Inode, link: bool, depth: u64) -> (r: Result<
        Ext2Inode,
        Ext2Error,
    >)
        requires
            self.wf(),
            inode.wf(self.disk@, self.block_groups),
            inode.block_size == self.spec_bs(),
            inode.inode_size == self.spec_isz(),
        ensures
            r matches Ok(ino) ==> {
                &&& spec_resolve_rel(
                    self.disk@,
                    self.block_groups,
                    self.spec_bs(),
                    self.spec_isz(),
                    path@,
                    inode.inode_num,
                    link,
                    depth as int,
                ) == Ok::<u64, Ext2Error>(ino.inode_num)
                &&& ino.wf(self.disk@, self.block_groups)
                &&& ino.block_size == self.spec_bs()
                &&& ino.inode_size == self.spec_isz()
            },
            r matches Err(e) ==> spec_resolve_rel(
                self.disk@,
                self.block_groups,
                self.spec_bs(),
                self.spec_isz(),
                path@,
                inode.inode_num,
                link,
                depth as int,
            ) == Err::<u64, Ext2Error>(e),
        decreases depth, spec_split(path@).len(), 1int,
    {
        let start = if path.unicode_len() > 0 && path.get_char(0) == '/' {
            // An absolute path restarts the traversal from the root inode.
            match self.read_inode(EXT2_ROOT_INO) {
                Ok(root) => root,
                Err(e) => {
                    return Err(e);
                },
            }
        } else {
            inode
        };
        let parts = split_path(path);
        proof {
            assert(spec_views(parts@) == spec_split(path@));
        }
        self.resolve_parts(&parts, 0, start, link, depth)
    }

    /// Resolution of the components `parts[i..]`, starting at `inode`.
    fn resolve_parts(
        &self,
        parts: &Vec<String>,
        i: usize,
        inode: Ext2Inode,
        link: bool,
        depth: u64,
    ) -> (r: Result<Ext2Inode, Ext2Error>)
        requires
            self.wf(),
            inode.wf(self.disk@, self.block_groups),
            inode.block_size == self.spec_bs(),
            inode.inode_size == self.spec_isz(),
            i <= parts@.len(),
        ensures
            r matches Ok(ino) ==> {
                &&& spec_resolve_parts(
                    self.disk@,
                    self.block_groups,
                    self.spec_bs(),
                    self.spec_isz(),
                    spec_views(parts@),
                    i as int,
                    inode.inode_num,
                    link,
                    depth as int,
                ) == Ok::<u64, Ext2Error>(ino.inode_num)
                &&& ino.wf(self.disk@, self.block_groups)
                &&& ino.block_size == self.spec_bs()
                &&& ino.inode_size == self.spec_isz()
            },
            r matches Err(e) ==> spec_resolve_parts(
                self.disk@,
                self.block_groups,
                self.spec_bs(),
                self.spec_isz(),
                spec_views(parts@),
                i as int,
                inode.inode_num,
                link,
                depth as int,
            ) == Err::<u64, Ext2Error>(e),
        decreases depth, parts@.len() - i, 0int,
    {
        if i >= parts.len() {
            return Ok(inode);
        }
        if parts[i].as_str().unicode_len() == 0 {
            return self.resolve_parts(parts, i + 1, inode, link, depth);
        }
        match inode.get_child(&self.disk, &self.block_groups, parts[i].as_str()) {
            None => Err(Ext2Error::NotFound),
            Some(child) => {
                let is_last = i == parts.len() - 1;
                let resolve_symlink = child.metadata().is_symlink() && (!link || !is_last);
                if resolve_symlink {
                    let target = match child.read_link(&self.disk) {
                        Ok(t) => t,
                        Err(e) => {
                            return Err(e);
                        },
                    };
                    if depth == 0 {
                        return Err(Ext2Error::TooManyLinks);
                    }
                    let resolved = match self.resolve_depth(
                        target.as_str(),
                        inode,
                        link,
                        depth - 1,
                    ) {
                        Ok(x) => x,
                        Err(e) => {
                            return Err(e);
                        },
                    };
                    self.resolve_parts(parts, i + 1, resolved, link, depth)
                } else {
                    self.resolve_parts(parts, i + 1, child, link, depth)
                }
            },
        }
    }

    /// What `read_dir` returns for a path: resolve, then list.
    pub open spec fn spec_fs_read_dir(self, path: Seq<char>) -> Result<
        Seq<DirEntryView>,
        Ext2Error,
    > {
        match self.spec_resolve(path, false) {
            Err(e) => Err(e),
            Ok(n) => spec_dir_listing(self.disk@, self.spec_bs(), self.spec_inode(n), path),
        }
    }

    /// What `metadata` and `symlink_metadata` return for a path.
    pub open spec fn spec_fs_metadata(self, path: Seq<char>, link: bool) -> Result<
        Metadata,
        Ext2Error,
    > {
        match self.spec_resolve(path, link) {
            Err(e) => Err(e),
            Ok(n) => Ok(spec_stat(self.spec_bs(), self.spec_inode(n), n)),
        }
    }

    /// What `read_link` returns for a path.
    pub open spec fn spec_fs_read_link(self, path: Seq<char>) -> Result<Seq<char>, Ext2Error> {
        match self.spec_resolve(path, true) {
            Err(e) => Err(e),
            Ok(n) => spec_read_link_result(self.disk@, self.spec_bs(), self.spec_inode(n)),
        }
    }

    /// The byte content of the file at `path`, when it resolves to a
    /// non-directory whose blocks are all readable.
    pub open spec fn spec_fs_content(self, path: Seq<char>) -> Seq<u8> {
        let n = self.spec_resolve(path, false)->Ok_0;
        crate::inode::spec_file_content(self.disk@, self.spec_bs(), self.spec_inode(n))
    }

    /// Every data block of the file at `path` can be read.
    pub open spec fn spec_fs_content_ok(self, path: Seq<char>) -> bool {
        let n = self.spec_resolve(path, false)->Ok_0;
        let iv = self.spec_inode(n);
        crate::inode::spec_content_ok(
            self.disk@,
            self.spec_bs(),
            iv.i_block,
            spec_data_blocks_count(spec_inode_size_bytes(iv), self.spec_bs()) as u64,
        )
    }

    /// Every block pointer of the file at `path` can be resolved through its
    /// index blocks (the data blocks themselves may still be unreadable).
    pub open spec fn spec_fs_blocks_ok(self, path: Seq<char>) -> bool {
        let n = self.spec_resolve(path, false)->Ok_0;
        let iv = self.spec_inode(n);
        forall|k: int|
            0 <= k < spec_data_blocks_count(spec_inode_size_bytes(iv), self.spec_bs())
                ==> crate::inode::spec_next_block(self.disk@, self.spec_bs(), iv.i_block, k) is Ok
    }

    /// Opens the file at `path` for reading.
    ///
    /// A directory is refused with `IsADirectory`; a failed resolution
    /// reports its own error; the open succeeds exactly when the path
    /// resolves to a non-directory whose block pointers can all be read.
    pub fn open(&self, path: &str) -> (r: Result<FsFile, Ext2Error>)
        requires
            self.wf(),
        ensures
            r is Ok <==> (self.spec_resolve(path@, false) matches Ok(n) && !is_dir_mode(
                self.spec_inode(n).i_mode as u32,
            ) && self.spec_fs_blocks_ok(path@)),
            self.spec_resolve(path@, false) matches Err(e) ==> r == Err::<FsFile, Ext2Error>(e),
            (self.spec_resolve(path@, false) matches Ok(n) && is_dir_mode(
                self.spec_inode(n).i_mode as u32,
            )) ==> r == Err::<FsFile, Ext2Error>(Ext2Error::IsADirectory),
            r matches Ok(f) ==> {
                &&& self.spec_resolve(path@, false) == Ok::<u64, Ext2Error>(f.inode.inode_num)
                &&& !is_dir_mode(self.spec_inode(f.inode.inode_num).i_mode as u32)
                &&& f.wf()
                &&& f.img@ == self.disk@
                &&& f.pos == 0
                &&& f.inode.wf(self.disk@, self.block_groups)
                &&& f.inode.block_size == self.spec_bs()
                &&& f.inode.inode_size == self.spec_isz()
            },
            (self.spec_resolve(path@, false) matches Ok(n) && !is_dir_mode(
                self.spec_inode(n).i_mode as u32,
            ) && self.spec_fs_content_ok(path@)) ==> r is Ok,
    {
        let inode = match self.resolve(path) {
            Ok(i) => i,
            Err(e) => {
                return Err(e);
            },
        };
        proof {
            assert(inode.ext2_inode@ == self.spec_inode(inode.inode_num));
        }
        if inode.metadata().is_dir() {
            Err(Ext2Error::IsADirectory)
        } else {
            let blocks = match inode.get_blocks(&self.disk) {
                Ok(b) => b,
                Err(e) => {
                    proof {
                        // Readable content implies a resolvable pointer
                        // chain, so this failure rules both out.
                        if self.spec_fs_content_ok(path@) {
                            let bs = self.spec_bs();
                            let ptrs = inode.ext2_inode.i_block@;
                            assert forall|k: int|
                                0 <= k < inode.data_blocks_count implies crate::inode::spec_next_block(
                                self.disk@,
                                bs,
                                ptrs,
                                k,
                            ) is Ok by {
                                assert(crate::inode::spec_data_block_result(
                                    self.disk@,
                                    bs,
                                    ptrs,
                                    k,
                                ) is Ok);
                            }
                            assert(false);
                        }
                        if self.spec_fs_blocks_ok(path@) {
                            assert(false);
                        }
                    }
                    return Err(e);
                },
            };
            proof {
                assert(self.spec_fs_blocks_ok(path@));
            }
            Ok(FsFile::new(&self.disk, inode, blocks))
        }
    }

    /// Get block size.
    pub fn get_block_size(&self) -> (r: u64)
        requires
            self.wf(),
        ensures
            r == self.spec_bs(),
    {
        self.super_block.get_block_size()
    }

    /// Get the number of blocks in the file system.
    pub fn get_blocks_count(&self) -> (r: u64)
        ensures
            r == self.super_block.s_blocks_count,
    {
        self.super_block.s_blocks_count as u64
    }

    /// Get the number of unallocated blocks.
    pub fn get_free_blocks_count(&self) -> (r: u64)
        ensures
            r == self.super_block.s_free_blocks_count,
    {
        self.super_block.s_free_blocks_count as u64
    }

    /// Reads the contents of the directory at `path` (following symbolic
    /// links), as an ordered map from file name to entry.
    pub fn read_dir(&self, path: &str) -> (r: Result<Vec<Ext2DirEntry>, Ext2Error>)
        requires
            self.wf(),
        ensures
            r matches Ok(v) ==> self.spec_fs_read_dir(path@) == Ok::<Seq<DirEntryView>, Ext2Error>(
                dir_views(v@),
            ),
            r matches Err(e) ==> self.spec_fs_read_dir(path@) == Err::<
                Seq<DirEntryView>,
                Ext2Error,
            >(e),
    {
        let inode = match self.resolve(path) {
            Ok(i) => i,
            Err(e) => {
                return Err(e);
            },
        };
        inode.read_dir(&self.disk, path)
    }

    /// Queries the file system for information about the file at `path`,
    /// after following every symbolic link.
    pub fn metadata(&self, path: &str) -> (r: Result<Metadata, Ext2Error>)
        requires
            self.wf(),
        ensures
            r == self.spec_fs_metadata(path@, false),
    {
        let inode = match self.resolve(path) {
            Ok(i) => i,
            Err(e) => {
                return Err(e);
            },
        };
        Ok(inode.metadata())
    }

    /// Like `metadata`, except that a terminal symbolic link is stat-ed
    /// itself, not followed.
    pub fn symlink_metadata(&self, path: &str) -> (r: Result<Metadata, Ext2Error>)
        requires
            self.wf(),
        ensures
            r == self.spec_fs_metadata(path@, true),
    {
        let root_inode = match self.read_inode(EXT2_ROOT_INO) {
            Ok(root) => root,
            Err(e) => {
                return Err(e);
            },
        };
        let inode = match self.resolve_relative(path, root_inode, true) {
            Ok(i) => i,
            Err(e) => {
                return Err(e);
            },
        };
        Ok(inode.metadata())
    }

    /// Reads a symbolic link, returning the path the link points to.
    pub fn read_link(&self, path: &str) -> (r: Result<String, Ext2Error>)
        requires
            self.wf(),
        ensures
            r matches Ok(s) ==> self.spec_fs_read_link(path@) == Ok::<Seq<char>, Ext2Error>(s@),
            r matches Err(e) ==> self.spec_fs_read_link(path@) == Err::<Seq<char>, Ext2Error>(e),
    {
        let root_inode = match self.read_inode(EXT2_ROOT_INO) {
            Ok(root) => root,
            Err(e) => {
                return Err(e);
            },
        };
        let inode = match self.resolve_relative(path, root_inode, true) {
            Ok(i) => i,
            Err(e) => {
                return Err(e);
            },
        };
        inode.read_link(&self.disk)
    }

    /// Reads the entire contents of the file at `path` into a byte vector.
    #[verifier::rlimit(100)]
    #[verifier::spinoff_prover]
    pub fn read(&self, path: &str) -> (r: Result<Vec<u8>, Ext2Error>)
        requires
            self.wf(),
        ensures
            self.spec_resolve(path@, false) matches Err(e) ==> r == Err::<Vec<u8>, Ext2Error>(e),
            (self.spec_resolve(path@, false) matches Ok(n) && is_dir_mode(
                self.spec_inode(n).i_mode as u32,
            )) ==> r == Err::<Vec<u8>, Ext2Error>(Ext2Error::IsADirectory),
            r matches Ok(v) ==> self.spec_resolve(path@, false) is Ok && v@ == self.spec_fs_content(
                path@,
            ),
            r is Ok <==> (self.spec_resolve(path@, false) matches Ok(n) && !is_dir_mode(
                self.spec_inode(n).i_mode as u32,
            ) && self.spec_fs_content_ok(path@)),
    {
        let mut file = match self.open(path) {
            Ok(f) => f,
            Err(e) => {
                return Err(e);
            },
        };
        proof {
            assert(file.inode.ext2_inode@ == self.spec_inode(file.inode.inode_num));
            if self.spec_fs_content_ok(path@) {
                assert(crate::inode::spec_content_ok(
                    self.disk@,
                    self.spec_bs(),
                    file.inode.ext2_inode.i_block@,
                    file.inode.data_blocks_count,
                ));
            }
            if crate::inode::spec_content_ok(
                self.disk@,
                self.spec_bs(),
                file.inode.ext2_inode.i_block@,
                file.inode.data_blocks_count,
            ) {
                assert(self.spec_fs_content_ok(path@));
            }
            if file.inode.size == 0 {
                assert(file.inode.data_blocks_count == 0);
                assert(crate::inode::spec_content_ok(
                    self.disk@,
                    self.spec_bs(),
                    file.inode.ext2_inode.i_block@,
                    file.inode.data_blocks_count,
                ));
            }
        }
        match file.read_to_end(&self.disk) {
            Ok(v) => {
                proof {
                    let content = self.spec_fs_content(path@);
                    assert(content == crate::inode::spec_file_content(
                        self.disk@,
                        self.spec_bs(),
                        file.inode.ext2_inode@,
                    ));
                    if file.inode.size > 0 {
                        assert(v@ =~= content);
                    } else {
                        assert(content =~= Seq::<u8>::empty());
                        assert(v@ =~= content);
                    }
                }
                Ok(v)
            },
            Err(e) => Err(e),
        }
    }

    /// Reads the entire contents of the file at `path` into a string.
    /// Content that is not valid UTF-8 is `InvalidData`.
    pub fn read_to_string(&self, path: &str) -> (r: Result<String, Ext2Error>)
        requires
            self.wf(),
        ensures
            self.spec_resolve(path@, false) matches Err(e) ==> r == Err::<String, Ext2Error>(e),
            (self.spec_resolve(path@, false) matches Ok(n) && is_dir_mode(
                self.spec_inode(n).i_mode as u32,
            )) ==> r == Err::<String, Ext2Error>(Ext2Error::IsADirectory),
            r is Ok <==> (self.spec_resolve(path@, false) matches Ok(n) && !is_dir_mode(
                self.spec_inode(n).i_mode as u32,
            ) && self.spec_fs_content_ok(path@) && vstd::utf8::valid_utf8(
                self.spec_fs_content(path@),
            )),
            (self.spec_resolve(path@, false) matches Ok(n) && !is_dir_mode(
                self.spec_inode(n).i_mode as u32,
            ) && self.spec_fs_content_ok(path@) && !vstd::utf8::valid_utf8(
                self.spec_fs_content(path@),
            )) ==> r == Err::<String, Ext2Error>(Ext2Error::InvalidData),
            r matches Ok(s) ==> {
                &&& self.spec_resolve(path@, false) is Ok
                &&& vstd::utf8::valid_utf8(self.spec_fs_content(path@))
                &&& s@ == vstd::utf8::decode_utf8(self.spec_fs_content(path@))
            },
    {
        let bytes = match self.read(path) {
            Ok(b) => b,
            Err(e) => {
                return Err(e);
            },
        };
        crate::text::utf8_to_string(bytes)
    }

    /// Returns `Ok(true)` if the path points at an existing, openable file;
    /// failures of the lookup are reported as they are, a directory as
    /// `IsADirectory`.
    pub fn try_exists(&self, path: &str) -> (r: Result<bool, Ext2Error>)
        requires
            self.wf(),
        ensures
            r matches Ok(b) ==> b,
            r is Ok <==> (self.spec_resolve(path@, false) matches Ok(n) && !is_dir_mode(
                self.spec_inode(n).i_mode as u32,
            ) && self.spec_fs_blocks_ok(path@)),
            self.spec_resolve(path@, false) matches Err(e) ==> r == Err::<bool, Ext2Error>(e),
            (self.spec_resolve(path@, false) matches Ok(n) && is_dir_mode(
                self.spec_inode(n).i_mode as u32,
            )) ==> r == Err::<bool, Ext2Error>(Ext2Error::IsADirectory),
    {
        match self.open(path) {
            Ok(_) => Ok(true),
            Err(e) => Err(e),
        }
    }
}

} // verus!
