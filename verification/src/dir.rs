//! Directory entries: the on-disk record walk and the ordered name map.
//!
//! A directory's content is a sequence of blocks, each tiled by
//! variable-length records: a fixed 8-byte header (inode number, record
//! length, name length, type), the name bytes, then padding up to the record
//! length.  A walk advances by whole records and must end exactly at the
//! block boundary; a record that is too short, steps outside its block, or
//! claims a name longer than itself marks the directory as corrupt.
//! Records with inode number zero are deleted slots and are skipped.

use vstd::prelude::*;
use vstd::string::StrSliceExecFns;
use vstd::string::StringExecFns;
use vstd::utf8::{decode_utf8, valid_utf8};

use crate::error::Ext2Error;
use crate::layout::{le16, le32, read_le16, read_le32};
use crate::text::{spec_str_lt, str_lt, utf8_to_string};

verus! {

/// One raw on-disk directory record.
pub ghost struct RawDirEntryView {
    pub inode_num: u64,
    pub rec_len: u16,
    pub name: Seq<u8>,
}

/// The record at offset `off` of a directory block, when the offset holds a
/// structurally valid one.
pub open spec fn spec_entry_at(block: Seq<u8>, off: int) -> Option<RawDirEntryView> {
    if off + 8 > block.len() {
        None
    } else {
        let rec_len = le16(block, off + 4);
        let name_len = block[off + 6] as int;
        if rec_len < 8 || off + rec_len > block.len() || name_len > rec_len - 8 {
            None
        } else {
            Some(
                RawDirEntryView {
                    inode_num: le32(block, off) as u64,
                    rec_len: rec_len as u16,
                    name: block.subrange(off + 8, off + 8 + name_len),
                },
            )
        }
    }
}

/// All records of a directory block from offset `off` on.  `None` marks a
/// corrupt block: a walk that cannot tile the rest of the block exactly.
pub open spec fn spec_walk_block(block: Seq<u8>, off: int) -> Option<Seq<RawDirEntryView>>
    decreases block.len() - off,
{
    if off == block.len() {
        Some(Seq::empty())
    } else {
        match spec_entry_at(block, off) {
            None => None,
            Some(e) => match spec_walk_block(block, off + e.rec_len) {
                None => None,
                Some(rest) => Some(seq![e] + rest),
            },
        }
    }
}

/// The record lengths of a walk, summed.
pub open spec fn spec_rec_len_sum(entries: Seq<RawDirEntryView>) -> int
    decreases entries.len(),
{
    if entries.len() == 0 {
        0
    } else {
        entries[0].rec_len + spec_rec_len_sum(entries.drop_first())
    }
}

/// A successful walk tiles its block exactly: the record lengths sum to the
/// distance from the starting offset to the end of the block.  In
/// particular, a walk of a whole block sums to the block size, and never
/// steps outside the block.
pub proof fn lemma_walk_tiles_block(block: Seq<u8>, off: int, entries: Seq<RawDirEntryView>)
    requires
        0 <= off,
        spec_walk_block(block, off) == Some(entries),
    ensures
        off + spec_rec_len_sum(entries) == block.len(),
    decreases block.len() - off,
{
    if off == block.len() {
        assert(entries =~= Seq::<RawDirEntryView>::empty());
    } else {
        let e = spec_entry_at(block, off).unwrap();
        let rest = spec_walk_block(block, off + e.rec_len).unwrap();
        lemma_walk_tiles_block(block, off + e.rec_len, rest);
        assert(entries =~= seq![e] + rest);
        assert(entries.drop_first() =~= rest);
    }
}

/// The full path of a child entry: `parent/name`, except that the root `/`
/// does not double the separator.
pub open spec fn spec_child_path(parent: Seq<char>, name: Seq<char>) -> Seq<char> {
    if parent == seq!['/'] {
        seq!['/'] + name
    } else {
        parent + seq!['/'] + name
    }
}

/// The shape of a decoded directory entry.
pub ghost struct DirEntryView {
    pub path: Seq<char>,
    pub file_name: Seq<char>,
    pub inode_num: u64,
}

/// A decoded directory entry: the file name, the full path, and the inode
/// number the name binds to.
#[derive(Debug)]
pub struct Ext2DirEntry {
    pub path: String,       // full path
    pub file_name: String,  // file name
    pub inode_num: u64,     // inode number
}

impl View for Ext2DirEntry {
    type V = DirEntryView;

    open spec fn view(&self) -> DirEntryView {
        DirEntryView { path: self.path@, file_name: self.file_name@, inode_num: self.inode_num }
    }
}

impl Ext2DirEntry {
    /// Decodes the record at `offset` of a directory block and returns it
    /// with its record length, so the caller can step to the next record.
    ///
    /// Fails with `InvalidData` exactly when the record is structurally
    /// invalid or its name is not UTF-8.
    pub fn new(buffer: &Vec<u8>, offset: usize, parent: &str) -> (r: Result<
        (Ext2DirEntry, usize),
        Ext2Error,
    >)
        ensures
            r is Ok <==> (spec_entry_at(buffer@, offset as int) matches Some(e) && valid_utf8(
                e.name,
            )),
            r matches Ok((entry, rec_len)) ==> spec_entry_at(buffer@, offset as int) matches Some(
                e,
            ) && {
                &&& entry@.file_name == decode_utf8(e.name)
                &&& entry@.inode_num == e.inode_num
                &&& entry@.path == spec_child_path(parent@, decode_utf8(e.name))
                &&& rec_len == e.rec_len
            },
            r matches Err(err) ==> err == Ext2Error::InvalidData,
    {
        // Decode the fixed 8-byte header, rejecting a record that cannot
        // tile the block.
        if offset > buffer.len() || buffer.len() - offset < 8 {
            return Err(Ext2Error::InvalidData);
        }
        let inode_num = read_le32(buffer, offset) as u64;
        let rec_len = read_le16(buffer, offset + 4) as usize;
        let name_len = buffer[offset + 6] as usize;
        if rec_len < 8 || rec_len > buffer.len() - offset || name_len > rec_len - 8 {
            return Err(Ext2Error::InvalidData);
        }
        // The name bytes, validated as UTF-8.
        let mut name_bytes: Vec<u8> = Vec::new();
        let mut j: usize = 0;
        while j < name_len
            invariant
                j <= name_len,
                offset + 8 + name_len <= buffer.len(),
                name_bytes@ == buffer@.subrange(offset + 8, offset + 8 + j),
            decreases name_len - j,
        {
            name_bytes.push(buffer[offset + 8 + j]);
            j = j + 1;
            proof {
                assert(name_bytes@ =~= buffer@.subrange(offset + 8, offset + 8 + j));
            }
        }
        let file_name = match utf8_to_string(name_bytes) {
            Ok(s) => s,
            Err(e) => {
                return Err(e);
            },
        };
        // The full path: `parent/name`, with no doubled separator under the
        // root.
        proof {
            reveal_strlit("/");
            assert("/"@ =~= seq!['/']);
        }
        let path = if parent.unicode_len() == 1 && parent.get_char(0) == '/' {
            proof {
                assert(parent@ =~= seq!['/']);
            }
            let mut p = String::from_str("/");
            p.append(file_name.as_str());
            p
        } else {
            proof {
                assert(parent@ != seq!['/']);
            }
            let mut p = String::from_str(parent);
            p.append("/");
            p.append(file_name.as_str());
            p
        };
        Ok((Ext2DirEntry { path, file_name, inode_num }, rec_len))
    }

    /// Returns the full path to the file that this entry represents.
    pub fn path(&self) -> (r: String)
        ensures
            r@ == self@.path,
    {
        self.path.clone()
    }

    /// Returns the bare file name of this directory entry without any other
    /// leading path component.
    pub fn file_name(&self) -> (r: String)
        ensures
            r@ == self@.file_name,
    {
        self.file_name.clone()
    }

    /// Returns the inode number.
    pub fn inode_num(&self) -> (r: u64)
        ensures
            r == self@.inode_num,
    {
        self.inode_num
    }
}

/// A directory entry given directly by its fields, for listings of paths
/// that are not directories.
#[derive(Debug)]
pub struct DefaultDirEntry {
    pub path: String,       // full path
    pub file_name: String,  // file name
    pub inode_num: u64,     // inode number
}

impl DefaultDirEntry {
    /// Returns the full path to the file that this entry represents.
    pub fn path(&self) -> (r: String)
        ensures
            r@ == self.path@,
    {
        self.path.clone()
    }

    /// Returns the bare file name of this directory entry without any other
    /// leading path component.
    pub fn file_name(&self) -> (r: String)
        ensures
            r@ == self.file_name@,
    {
        self.file_name.clone()
    }

    /// Returns the inode number.
    pub fn inode_num(&self) -> (r: u64)
        ensures
            r == self.inode_num,
    {
        self.inode_num
    }
}

/// The views of a directory listing.
pub open spec fn dir_views(s: Seq<Ext2DirEntry>) -> Seq<DirEntryView> {
    s.map_values(|e: Ext2DirEntry| e@)
}

/// Insertion into the name-ordered listing.  A record later in the walk
/// replaces an earlier one of the same name.
pub open spec fn spec_insert_entry(m: Seq<DirEntryView>, e: DirEntryView) -> Seq<DirEntryView>
    decreases m.len(),
{
    if m.len() == 0 {
        seq![e]
    } else if spec_str_lt(e.file_name, m[0].file_name) {
        seq![e] + m
    } else if e.file_name == m[0].file_name {
        seq![e] + m.drop_first()
    } else {
        seq![m[0]] + spec_insert_entry(m.drop_first(), e)
    }
}

/// Inserts an entry into the name-ordered listing.
pub fn insert_entry(entries: Vec<Ext2DirEntry>, entry: Ext2DirEntry) -> (r: Vec<Ext2DirEntry>)
    ensures
        dir_views(r@) == spec_insert_entry(dir_views(entries@), entry@),
    decreases entries@.len(),
{
    let ghost m0 = dir_views(entries@);
    let mut entries = entries;
    if entries.len() == 0 {
        entries.push(entry);
        proof {
            assert(m0 =~= Seq::<DirEntryView>::empty());
            assert(dir_views(entries@) =~= spec_insert_entry(m0, entry@));
        }
        entries
    } else if str_lt(entry.file_name.as_str(), entries[0].file_name.as_str()) {
        entries.insert(0, entry);
        proof {
            assert(dir_views(entries@) =~= seq![entry@] + m0);
        }
        entries
    } else if entry.file_name == entries[0].file_name {
        let _replaced = entries.remove(0);
        entries.insert(0, entry);
        proof {
            assert(dir_views(entries@) =~= seq![entry@] + m0.drop_first());
        }
        entries
    } else {
        let first = entries.remove(0);
        proof {
            assert(dir_views(entries@) =~= m0.drop_first());
        }
        let mut rest = insert_entry(entries, entry);
        rest.insert(0, first);
        proof {
            assert(dir_views(rest@) =~= seq![first@] + spec_insert_entry(
                m0.drop_first(),
                entry@,
            ));
            assert(first@ == m0[0]);
        }
        rest
    }
}

/// Looks a name up in a listing.
pub open spec fn spec_find_entry(m: Seq<DirEntryView>, name: Seq<char>) -> Option<DirEntryView>
    decreases m.len(),
{
    if m.len() == 0 {
        None
    } else if m[0].file_name == name {
        Some(m[0])
    } else {
        spec_find_entry(m.drop_first(), name)
    }
}

/// Looks a name up in a directory listing.
pub fn find_entry<'a>(entries: &'a Vec<Ext2DirEntry>, name: &str) -> (r: Option<&'a Ext2DirEntry>)
    ensures
        r is Some <==> spec_find_entry(dir_views(entries@), name@) is Some,
        r matches Some(e) ==> spec_find_entry(dir_views(entries@), name@) == Some(e@),
{
    let n = entries.len();
    let mut i: usize = 0;
    proof {
        assert(dir_views(entries@).skip(0) =~= dir_views(entries@));
    }
    while i < n
        invariant
            0 <= i <= n,
            n == entries@.len(),
            spec_find_entry(dir_views(entries@), name@) == spec_find_entry(
                dir_views(entries@).skip(i as int),
                name@,
            ),
        decreases n - i,
    {
        proof {
            assert(dir_views(entries@).skip(i as int)[0] == entries@[i as int]@);
        }
        if crate::text::str_eq(entries[i].file_name.as_str(), name) {
            return Some(&entries[i]);
        }
        proof {
            assert(dir_views(entries@).skip(i as int).drop_first() =~= dir_views(entries@).skip(
                i + 1,
            ));
        }
        i = i + 1;
    }
    proof {
        assert(dir_views(entries@).skip(n as int) =~= Seq::<DirEntryView>::empty());
    }
    None
}

} // verus!
