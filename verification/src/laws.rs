//! Laws of the interpreter: properties that relate several operations,
//! stated over the same spec functions the operations' contracts use.

use vstd::prelude::*;
use vstd::utf8::{decode_utf8, valid_utf8};

use crate::dir::{
    spec_find_entry, spec_insert_entry, DirEntryView, RawDirEntryView,
};
use crate::error::Ext2Error;
use crate::ext2::{
    spec_inode_view, spec_resolve_parts, spec_resolve_rel, Ext2Filesystem, EXT2_ROOT_INO,
    MAX_LINK_DEPTH,
};
use crate::group::Ext2BlockGroups;
use crate::inode::{
    spec_add_entries, spec_child_entry, spec_content_blocks, spec_data_block,
    spec_read_content_result, spec_read_inode_ok,
};
use crate::metadata::is_symlink_mode;
use crate::text::{spec_split, spec_split_go};

verus! {

/// Resolving the path `/` yields the root inode, inode 2, whenever the root
/// inode can be read at all — with or without terminal-symlink following.
pub proof fn lemma_resolve_root(fs: Ext2Filesystem, link: bool)
    requires
        fs.wf(),
        fs.spec_inode_ok(EXT2_ROOT_INO as u64),
    ensures
        fs.spec_resolve("/"@, link) == Ok::<u64, Ext2Error>(EXT2_ROOT_INO as u64),
{
    reveal_strlit("/");
    let p = "/"@;
    assert(p.len() == 1 && p[0] == '/');
    let img = fs.disk@;
    let bg = fs.block_groups;
    let bs = fs.spec_bs();
    let isz = fs.spec_isz();
    let empty = Seq::<char>::empty();
    assert(spec_split_go(p, 1, empty) =~= seq![empty]);
    assert(spec_split(p) =~= seq![empty] + spec_split_go(p, 1, empty));
    let parts = spec_split(p);
    assert(parts.len() == 2 && parts[0] == empty && parts[1] == empty);
    let d = MAX_LINK_DEPTH as int;
    let root = EXT2_ROOT_INO as u64;
    assert(spec_resolve_parts(img, bg, bs, isz, parts, 2, root, link, d) == Ok::<u64, Ext2Error>(
        root,
    ));
    assert(spec_resolve_parts(img, bg, bs, isz, parts, 1, root, link, d) == Ok::<u64, Ext2Error>(
        root,
    ));
    assert(spec_resolve_parts(img, bg, bs, isz, parts, 0, root, link, d) == Ok::<u64, Ext2Error>(
        root,
    ));
    assert(spec_resolve_rel(img, bg, bs, isz, p, root, link, d) == Ok::<u64, Ext2Error>(root));
}

/// The walk of `parts[i..]` from inode `ino` meets no symbolic link: every
/// component that resolves to a readable child resolves to a non-symlink.
pub open spec fn spec_walk_no_symlinks(
    img: Seq<u8>,
    bg: Ext2BlockGroups,
    bs: u64,
    isz: u64,
    parts: Seq<Seq<char>>,
    i: int,
    ino: u64,
) -> bool
    decreases parts.len() - i,
{
    if i < 0 || i >= parts.len() {
        true
    } else if parts[i].len() == 0 {
        spec_walk_no_symlinks(img, bg, bs, isz, parts, i + 1, ino)
    } else {
        let iv = spec_inode_view(img, bg, bs, isz, ino);
        match spec_child_entry(img, bs, iv, parts[i]) {
            None => true,
            Some(dv) => !spec_read_inode_ok(img, bg, bs, isz, dv.inode_num) || (!is_symlink_mode(
                spec_inode_view(img, bg, bs, isz, dv.inode_num).i_mode as u32,
            ) && spec_walk_no_symlinks(img, bg, bs, isz, parts, i + 1, dv.inode_num)),
        }
    }
}

/// On a walk without symbolic links, the terminal-symlink flag and the
/// recursion budget are irrelevant: resolution returns the same result.
pub proof fn lemma_resolve_ignores_link_flag(
    img: Seq<u8>,
    bg: Ext2BlockGroups,
    bs: u64,
    isz: u64,
    parts: Seq<Seq<char>>,
    i: int,
    ino: u64,
    d1: int,
    d2: int,
)
    requires
        spec_walk_no_symlinks(img, bg, bs, isz, parts, i, ino),
        0 <= i,
        0 <= d1,
        0 <= d2,
    ensures
        spec_resolve_parts(img, bg, bs, isz, parts, i, ino, true, d1) == spec_resolve_parts(
            img,
            bg,
            bs,
            isz,
            parts,
            i,
            ino,
            false,
            d2,
        ),
    decreases parts.len() - i,
{
    if i >= parts.len() {
    } else if parts[i].len() == 0 {
        lemma_resolve_ignores_link_flag(img, bg, bs, isz, parts, i + 1, ino, d1, d2);
    } else {
        let iv = spec_inode_view(img, bg, bs, isz, ino);
        match spec_child_entry(img, bs, iv, parts[i]) {
            None => {},
            Some(dv) => {
                if spec_read_inode_ok(img, bg, bs, isz, dv.inode_num) {
                    lemma_resolve_ignores_link_flag(
                        img,
                        bg,
                        bs,
                        isz,
                        parts,
                        i + 1,
                        dv.inode_num,
                        d1,
                        d2,
                    );
                }
            },
        }
    }
}

/// For a path with no symbolic link in any component, `metadata` and
/// `symlink_metadata` agree.
pub proof fn lemma_metadata_agrees_without_symlinks(fs: Ext2Filesystem, path: Seq<char>)
    requires
        fs.wf(),
        spec_walk_no_symlinks(
            fs.disk@,
            fs.block_groups,
            fs.spec_bs(),
            fs.spec_isz(),
            spec_split(path),
            0,
            EXT2_ROOT_INO as u64,
        ),
    ensures
        fs.spec_fs_metadata(path, true) == fs.spec_fs_metadata(path, false),
{
    if fs.spec_inode_ok(EXT2_ROOT_INO as u64) {
        lemma_resolve_ignores_link_flag(
            fs.disk@,
            fs.block_groups,
            fs.spec_bs(),
            fs.spec_isz(),
            spec_split(path),
            0,
            EXT2_ROOT_INO as u64,
            MAX_LINK_DEPTH as int,
            MAX_LINK_DEPTH as int,
        );
    }
}

/// Reading a directory is idempotent: any two successful `read_dir` results
/// for the same volume and path are equal listings.
pub proof fn lemma_read_dir_idempotent(
    fs: Ext2Filesystem,
    path: Seq<char>,
    v1: Seq<DirEntryView>,
    v2: Seq<DirEntryView>,
)
    requires
        fs.spec_fs_read_dir(path) == Ok::<Seq<DirEntryView>, Ext2Error>(v1),
        fs.spec_fs_read_dir(path) == Ok::<Seq<DirEntryView>, Ext2Error>(v2),
    ensures
        v1 == v2,
{
}

/// Reading a file's content is idempotent: any two successful `read` results
/// for the same volume and path hold the same bytes (each is pinned to the
/// file's content).
pub proof fn lemma_read_idempotent(fs: Ext2Filesystem, path: Seq<char>, v1: Seq<u8>, v2: Seq<u8>)
    requires
        v1 == fs.spec_fs_content(path),
        v2 == fs.spec_fs_content(path),
    ensures
        v1 == v2,
{
}

/// A successful block-by-block read returns exactly the concatenation of the
/// file's data blocks: what the block iterator yields, glued together.
pub proof fn lemma_read_result_is_concat(
    img: Seq<u8>,
    bs: u64,
    ptrs: Seq<u32>,
    dbc: int,
    k: int,
    v: Seq<u8>,
)
    requires
        0 <= k <= dbc,
        spec_read_content_result(img, bs, ptrs, dbc, k) == Ok::<Seq<u8>, Ext2Error>(v),
    ensures
        spec_content_blocks(img, bs, ptrs, dbc) == spec_content_blocks(img, bs, ptrs, k) + v,
    decreases dbc - k,
{
    if k >= dbc {
        assert(v =~= Seq::<u8>::empty());
        assert(spec_content_blocks(img, bs, ptrs, dbc) =~= spec_content_blocks(img, bs, ptrs, k)
            + v);
    } else {
        let b = spec_data_block(img, bs, ptrs, k);
        let rest = spec_read_content_result(img, bs, ptrs, dbc, k + 1)->Ok_0;
        lemma_read_result_is_concat(img, bs, ptrs, dbc, k + 1, rest);
        assert(spec_content_blocks(img, bs, ptrs, k + 1) == spec_content_blocks(img, bs, ptrs, k)
            + b);
        assert(spec_content_blocks(img, bs, ptrs, k) + (b + rest) =~= (spec_content_blocks(
            img,
            bs,
            ptrs,
            k,
        ) + b) + rest);
    }
}

/// The listing is strictly ordered by file name.
pub open spec fn spec_entries_sorted(m: Seq<DirEntryView>) -> bool {
    forall|i: int, j: int|
        #![trigger m[i], m[j]]
        0 <= i < j < m.len() ==> crate::text::spec_str_lt(m[i].file_name, m[j].file_name)
}

/// `x` is strictly below every name of the listing.
pub open spec fn spec_below_all(x: Seq<char>, m: Seq<DirEntryView>) -> bool {
    forall|i: int| 0 <= i < m.len() ==> crate::text::spec_str_lt(x, (#[trigger] m[i]).file_name)
}

/// Insertion keeps the listing strictly ordered by name, and keeps every
/// strict lower bound that also bounds the new entry.
pub proof fn lemma_insert_sorted(m: Seq<DirEntryView>, e: DirEntryView)
    requires
        spec_entries_sorted(m),
    ensures
        spec_entries_sorted(spec_insert_entry(m, e)),
        forall|x: Seq<char>|
            crate::text::spec_str_lt(x, e.file_name) && spec_below_all(x, m)
                ==> #[trigger] spec_below_all(x, spec_insert_entry(m, e)),
    decreases m.len(),
{
    let r = spec_insert_entry(m, e);
    if m.len() == 0 {
        assert(r =~= seq![e]);
    } else if crate::text::spec_str_lt(e.file_name, m[0].file_name) {
        assert(r == seq![e] + m);
        assert forall|i: int, j: int| 0 <= i < j < r.len() implies crate::text::spec_str_lt(
            (#[trigger] r[i]).file_name,
            (#[trigger] r[j]).file_name,
        ) by {
            if i == 0 && j > 1 {
                crate::text::lemma_str_lt_trans(
                    e.file_name,
                    m[0].file_name,
                    m[j - 1].file_name,
                    0,
                );
            }
        }
    } else if e.file_name == m[0].file_name {
        assert(r == seq![e] + m.drop_first());
        assert forall|i: int, j: int| 0 <= i < j < r.len() implies crate::text::spec_str_lt(
            (#[trigger] r[i]).file_name,
            (#[trigger] r[j]).file_name,
        ) by {
            if i == 0 {
                assert(crate::text::spec_str_lt(m[0].file_name, m[j as int].file_name));
            }
        }
    } else {
        // The head stays: the new entry's name is strictly above it.
        if !crate::text::spec_str_lt(m[0].file_name, e.file_name) {
            crate::text::lemma_str_lt_connected(e.file_name, m[0].file_name, 0);
            assert(e.file_name =~= m[0].file_name);
            assert(false);
        }
        lemma_insert_sorted(m.drop_first(), e);
        let rr = spec_insert_entry(m.drop_first(), e);
        assert(r == seq![m[0]] + rr);
        assert(spec_below_all(m[0].file_name, m.drop_first()));
        assert(spec_below_all(m[0].file_name, rr));
        assert forall|i: int, j: int| 0 <= i < j < r.len() implies crate::text::spec_str_lt(
            (#[trigger] r[i]).file_name,
            (#[trigger] r[j]).file_name,
        ) by {
            if i == 0 {
                assert(r[j] == rr[j - 1]);
            } else {
                assert(r[i] == rr[i - 1] && r[j] == rr[j - 1]);
            }
        }
        assert forall|x: Seq<char>|
            crate::text::spec_str_lt(x, e.file_name) && spec_below_all(x, m) implies #[trigger] spec_below_all(
            x,
            r,
        ) by {
            assert(spec_below_all(x, m.drop_first()));
            assert(spec_below_all(x, rr));
            assert(crate::text::spec_str_lt(x, m[0].file_name));
            assert forall|i: int| 0 <= i < r.len() implies crate::text::spec_str_lt(
                x,
                (#[trigger] r[i]).file_name,
            ) by {
                if i > 0 {
                    assert(r[i] == rr[i - 1]);
                }
            }
        }
    }
}

/// Folding a walk's records into a sorted listing keeps it sorted.
pub proof fn lemma_add_entries_sorted(
    m: Seq<DirEntryView>,
    raw: Seq<RawDirEntryView>,
    parent: Seq<char>,
    m2: Seq<DirEntryView>,
)
    requires
        spec_add_entries(m, raw, parent) == Ok::<Seq<DirEntryView>, Ext2Error>(m2),
        spec_entries_sorted(m),
    ensures
        spec_entries_sorted(m2),
    decreases raw.len(),
{
    if raw.len() == 0 {
    } else {
        let e = raw[0];
        if e.inode_num == 0 {
            lemma_add_entries_sorted(m, raw.drop_first(), parent, m2);
        } else {
            let dv = DirEntryView {
                path: crate::dir::spec_child_path(parent, decode_utf8(e.name)),
                file_name: decode_utf8(e.name),
                inode_num: e.inode_num,
            };
            lemma_insert_sorted(m, dv);
            lemma_add_entries_sorted(spec_insert_entry(m, dv), raw.drop_first(), parent, m2);
        }
    }
}

/// Reading directory blocks onto a sorted listing keeps it sorted.
pub proof fn lemma_read_dir_blocks_sorted(
    img: Seq<u8>,
    bs: u64,
    ptrs: Seq<u32>,
    dbc: int,
    parent: Seq<char>,
    k: int,
    m: Seq<DirEntryView>,
    m2: Seq<DirEntryView>,
)
    requires
        crate::inode::spec_read_dir_blocks(img, bs, ptrs, dbc, parent, k, m) == Ok::<
            Seq<DirEntryView>,
            Ext2Error,
        >(m2),
        spec_entries_sorted(m),
    ensures
        spec_entries_sorted(m2),
    decreases dbc - k,
{
    if k >= dbc {
    } else {
        let block = crate::inode::spec_data_block_result(img, bs, ptrs, k)->Ok_0;
        let raw = crate::dir::spec_walk_block(block, 0)->Some_0;
        let m1 = spec_add_entries(m, raw, parent)->Ok_0;
        lemma_add_entries_sorted(m, raw, parent, m1);
        lemma_read_dir_blocks_sorted(img, bs, ptrs, dbc, parent, k + 1, m1, m2);
    }
}

/// The directory map is an ordered map: a successful `read_dir` lists its
/// entries in strictly increasing name order.
pub proof fn lemma_read_dir_sorted(fs: Ext2Filesystem, path: Seq<char>, v: Seq<DirEntryView>)
    requires
        fs.spec_fs_read_dir(path) == Ok::<Seq<DirEntryView>, Ext2Error>(v),
    ensures
        spec_entries_sorted(v),
{
    let n = fs.spec_resolve(path, false)->Ok_0;
    let iv = fs.spec_inode(n);
    lemma_read_dir_blocks_sorted(
        fs.disk@,
        fs.spec_bs(),
        iv.i_block,
        crate::inode::spec_data_blocks_count(
            crate::inode::spec_inode_size_bytes(iv),
            fs.spec_bs(),
        ),
        path,
        0,
        Seq::empty(),
        v,
    );
}

/// Concatenating all the `block_size`-sized buffers the data-block iterator
/// yields, then truncating to the inode's size, equals the file's byte
/// content.
pub proof fn lemma_blocks_concat_is_content(
    img: Seq<u8>,
    bs: u64,
    iv: crate::inode::InodeView,
    v: Seq<u8>,
)
    requires
        bs >= 1,
        spec_read_content_result(
            img,
            bs,
            iv.i_block,
            crate::inode::spec_data_blocks_count(crate::inode::spec_inode_size_bytes(iv), bs),
            0,
        ) == Ok::<Seq<u8>, Ext2Error>(v),
    ensures
        v.take(crate::inode::spec_inode_size_bytes(iv) as int) == crate::inode::spec_file_content(
            img,
            bs,
            iv,
        ),
{
    let dbc = crate::inode::spec_data_blocks_count(crate::inode::spec_inode_size_bytes(iv), bs);
    lemma_read_result_is_concat(img, bs, iv.i_block, dbc, 0, v);
    assert(spec_content_blocks(img, bs, iv.i_block, dbc) =~= v);
}

/// Inserting an entry makes its name found, bound to that entry.
pub proof fn lemma_insert_finds_inserted(m: Seq<DirEntryView>, e: DirEntryView)
    ensures
        spec_find_entry(spec_insert_entry(m, e), e.file_name) == Some(e),
    decreases m.len(),
{
    if m.len() == 0 {
    } else if crate::text::spec_str_lt(e.file_name, m[0].file_name) {
    } else if e.file_name == m[0].file_name {
    } else {
        lemma_insert_finds_inserted(m.drop_first(), e);
        let r = seq![m[0]] + spec_insert_entry(m.drop_first(), e);
        assert(r.drop_first() =~= spec_insert_entry(m.drop_first(), e));
    }
}

/// Inserting an entry neither hides nor invents any other name.
pub proof fn lemma_insert_preserves_found(m: Seq<DirEntryView>, e: DirEntryView, name: Seq<char>)
    requires
        name != e.file_name,
    ensures
        spec_find_entry(spec_insert_entry(m, e), name) is Some <==> spec_find_entry(
            m,
            name,
        ) is Some,
    decreases m.len(),
{
    if m.len() == 0 {
        let r = spec_insert_entry(m, e);
        assert(r =~= seq![e]);
        assert(r.drop_first() =~= Seq::<DirEntryView>::empty());
        assert(spec_find_entry(r, name) == spec_find_entry(r.drop_first(), name));
    } else if crate::text::spec_str_lt(e.file_name, m[0].file_name) {
        let r = spec_insert_entry(m, e);
        assert(r == seq![e] + m);
        assert(r.drop_first() =~= m);
        assert(spec_find_entry(r, name) == spec_find_entry(m, name));
    } else if e.file_name == m[0].file_name {
        let r = spec_insert_entry(m, e);
        assert(r == seq![e] + m.drop_first());
        assert(r.drop_first() =~= m.drop_first());
        assert(spec_find_entry(r, name) == spec_find_entry(m.drop_first(), name));
    } else {
        lemma_insert_preserves_found(m.drop_first(), e, name);
        let r = spec_insert_entry(m, e);
        assert(r == seq![m[0]] + spec_insert_entry(m.drop_first(), e));
        assert(r.drop_first() =~= spec_insert_entry(m.drop_first(), e));
        assert(r[0] == m[0]);
    }
}

/// A name found in the listing stays found after folding more records in.
pub proof fn lemma_add_entries_preserves_found(
    m: Seq<DirEntryView>,
    raw: Seq<RawDirEntryView>,
    parent: Seq<char>,
    m2: Seq<DirEntryView>,
    name: Seq<char>,
)
    requires
        spec_add_entries(m, raw, parent) == Ok::<Seq<DirEntryView>, Ext2Error>(m2),
        spec_find_entry(m, name) is Some,
    ensures
        spec_find_entry(m2, name) is Some,
    decreases raw.len(),
{
    if raw.len() == 0 {
    } else {
        let e = raw[0];
        if e.inode_num == 0 {
            lemma_add_entries_preserves_found(m, raw.drop_first(), parent, m2, name);
        } else {
            let dv = DirEntryView {
                path: crate::dir::spec_child_path(parent, decode_utf8(e.name)),
                file_name: decode_utf8(e.name),
                inode_num: e.inode_num,
            };
            if dv.file_name == name {
                lemma_insert_finds_inserted(m, dv);
            } else {
                lemma_insert_preserves_found(m, dv, name);
            }
            lemma_add_entries_preserves_found(
                spec_insert_entry(m, dv),
                raw.drop_first(),
                parent,
                m2,
                name,
            );
        }
    }
}

/// Every record of a walk with a nonzero inode number ends up in the
/// directory listing under its own name: folding the records in never loses
/// a surviving name.
pub proof fn lemma_add_entries_member(
    m: Seq<DirEntryView>,
    raw: Seq<RawDirEntryView>,
    parent: Seq<char>,
    m2: Seq<DirEntryView>,
    j: int,
)
    requires
        spec_add_entries(m, raw, parent) == Ok::<Seq<DirEntryView>, Ext2Error>(m2),
        0 <= j < raw.len(),
        raw[j].inode_num != 0,
    ensures
        valid_utf8(raw[j].name),
        spec_find_entry(m2, decode_utf8(raw[j].name)) is Some,
    decreases raw.len(),
{
    let e = raw[0];
    if e.inode_num == 0 {
        lemma_add_entries_member(m, raw.drop_first(), parent, m2, j - 1);
    } else {
        let dv = DirEntryView {
            path: crate::dir::spec_child_path(parent, decode_utf8(e.name)),
            file_name: decode_utf8(e.name),
            inode_num: e.inode_num,
        };
        if j == 0 {
            lemma_insert_finds_inserted(m, dv);
            lemma_add_entries_preserves_found(
                spec_insert_entry(m, dv),
                raw.drop_first(),
                parent,
                m2,
                dv.file_name,
            );
        } else {
            lemma_add_entries_member(spec_insert_entry(m, dv), raw.drop_first(), parent, m2, j - 1);
        }
    }
}

} // verus!
