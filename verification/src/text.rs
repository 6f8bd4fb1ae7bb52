//! Text utilities: UTF-8 decoding of on-disk names, string ordering for the
//! directory map, and path splitting for the resolver.

use vstd::prelude::*;
use vstd::string::StrSliceExecFns;
use vstd::string::StringExecFns;
use vstd::utf8::{decode_utf8, valid_utf8};

use crate::error::Ext2Error;

verus! {

/// Decodes bytes read from the image as UTF-8 text.  Malformed text is
/// reported as corrupt data, never a panic.
///
/// Relies on `String::from_utf8`: it succeeds exactly on valid UTF-8 input
/// and returns the characters that input encodes, as `vstd`'s `valid_utf8`
/// and `decode_utf8` define them.
#[verifier::external_body]
pub(crate) fn utf8_to_string(bytes: Vec<u8>) -> (r: Result<String, Ext2Error>)
    ensures
        r is Ok <==> valid_utf8(bytes@),
        r matches Ok(s) ==> s@ == decode_utf8(bytes@),
        r matches Err(e) ==> e == Ext2Error::InvalidData,
{
    match String::from_utf8(bytes) {
        Ok(s) => Ok(s),
        Err(_) => Err(Ext2Error::InvalidData),
    }
}

/// Lexicographic comparison of the tails `a[i..]` and `b[i..]`, by scalar
/// value, with a proper prefix ordered first.
pub open spec fn spec_str_lt_from(a: Seq<char>, b: Seq<char>, i: int) -> bool
    decreases a.len() - i,
{
    if i >= a.len() || i >= b.len() || i < 0 {
        a.len() < b.len()
    } else if a[i] != b[i] {
        (a[i] as u32) < (b[i] as u32)
    } else {
        spec_str_lt_from(a, b, i + 1)
    }
}

/// Lexicographic order on character sequences: the order the directory map
/// lists names in.
pub open spec fn spec_str_lt(a: Seq<char>, b: Seq<char>) -> bool {
    spec_str_lt_from(a, b, 0)
}

/// The order is total: two distinct strings compare one way or the other.
pub proof fn lemma_str_lt_connected(a: Seq<char>, b: Seq<char>, i: int)
    requires
        0 <= i,
        !spec_str_lt_from(a, b, i),
        !spec_str_lt_from(b, a, i),
    ensures
        a.len() == b.len(),
        forall|j: int| i <= j < a.len() ==> a[j] == b[j],
    decreases a.len() - i,
{
    if i >= a.len() || i >= b.len() {
        assert(a.len() == b.len());
    } else if a[i] != b[i] {
        assert((a[i] as u32) == (b[i] as u32));
        vstd::utf8::char_u32_cast(a[i], a[i] as u32);
        vstd::utf8::char_u32_cast(b[i], b[i] as u32);
        assert(false);
    } else {
        lemma_str_lt_connected(a, b, i + 1);
    }
}

/// The order is transitive.
pub proof fn lemma_str_lt_trans(a: Seq<char>, b: Seq<char>, c: Seq<char>, i: int)
    requires
        0 <= i,
        spec_str_lt_from(a, b, i),
        spec_str_lt_from(b, c, i),
    ensures
        spec_str_lt_from(a, c, i),
    decreases a.len() - i,
{
    if i >= a.len() || i >= b.len() {
        assert(a.len() < b.len());
        assert(i >= a.len());
        if i >= b.len() || i >= c.len() {
            assert(b.len() < c.len());
        } else {
            assert(a.len() <= i < c.len());
        }
    } else if a[i] != b[i] {
        if i >= c.len() {
            assert(false);
        }
    } else {
        if i >= c.len() {
            assert(false);
        } else if b[i] != c[i] {
        } else {
            lemma_str_lt_trans(a, b, c, i + 1);
        }
    }
}

/// Compares two strings in the directory map's order.
pub fn str_lt(a: &str, b: &str) -> (r: bool)
    ensures
        r == spec_str_lt(a@, b@),
{
    let alen = a.unicode_len();
    let blen = b.unicode_len();
    let mut i: usize = 0;
    while i < alen && i < blen
        invariant
            0 <= i <= alen,
            i <= blen,
            alen == a@.len(),
            blen == b@.len(),
            spec_str_lt(a@, b@) == spec_str_lt_from(a@, b@, i as int),
        decreases alen - i,
    {
        let ca = a.get_char(i);
        let cb = b.get_char(i);
        if ca != cb {
            return (ca as u32) < (cb as u32);
        }
        i = i + 1;
    }
    alen < blen
}

/// Tests two strings for equality of their characters.
pub fn str_eq(a: &str, b: &str) -> (r: bool)
    ensures
        r == (a@ == b@),
{
    let alen = a.unicode_len();
    let blen = b.unicode_len();
    if alen != blen {
        return false;
    }
    let mut i: usize = 0;
    while i < alen
        invariant
            0 <= i <= alen,
            alen == a@.len(),
            alen == b@.len(),
            forall|j: int| 0 <= j < i ==> a@[j] == b@[j],
        decreases alen - i,
    {
        if a.get_char(i) != b.get_char(i) {
            return false;
        }
        i = i + 1;
    }
    proof {
        assert(a@ =~= b@);
    }
    true
}

/// The components of `s[i..]`, split on `/`, with `acc` the part of the
/// current component read so far.  Splitting keeps empty components: a
/// leading `/` yields an empty first component, and `""` splits into one
/// empty component.
pub open spec fn spec_split_go(s: Seq<char>, i: int, acc: Seq<char>) -> Seq<Seq<char>>
    decreases s.len() - i,
{
    if i >= s.len() || i < 0 {
        seq![acc]
    } else if s[i] == '/' {
        seq![acc] + spec_split_go(s, i + 1, Seq::empty())
    } else {
        spec_split_go(s, i + 1, acc.push(s[i]))
    }
}

/// The components of a path, split on `/`.
pub open spec fn spec_split(s: Seq<char>) -> Seq<Seq<char>> {
    spec_split_go(s, 0, Seq::empty())
}

/// The views of a vector of strings.
pub open spec fn spec_views(parts: Seq<String>) -> Seq<Seq<char>> {
    parts.map_values(|p: String| p@)
}

/// Splits a path into its components.
pub fn split_path(path: &str) -> (r: Vec<String>)
    ensures
        spec_views(r@) == spec_split(path@),
{
    let n = path.unicode_len();
    let mut parts: Vec<String> = Vec::new();
    let mut start: usize = 0;
    let mut i: usize = 0;
    proof {
        assert(path@.subrange(0, 0) =~= Seq::<char>::empty());
        assert(spec_views(parts@) =~= Seq::<Seq<char>>::empty());
        assert(spec_views(parts@) + spec_split_go(path@, 0, Seq::empty()) =~= spec_split_go(
            path@,
            0,
            Seq::empty(),
        ));
    }
    while i < n
        invariant
            0 <= start <= i <= n,
            n == path@.len(),
            spec_split(path@) == spec_views(parts@) + spec_split_go(
                path@,
                i as int,
                path@.subrange(start as int, i as int),
            ),
        decreases n - i,
    {
        let c = path.get_char(i);
        if c == '/' {
            let part = String::from_str(path.substring_char(start, i));
            parts.push(part);
            proof {
                assert(spec_views(parts@) =~= spec_views(parts@.drop_last()) + seq![
                    path@.subrange(start as int, i as int),
                ]);
                assert(spec_views(parts@) + spec_split_go(path@, i + 1, Seq::empty())
                    =~= spec_views(parts@.drop_last()) + spec_split_go(
                    path@,
                    i as int,
                    path@.subrange(start as int, i as int),
                ));
                assert(path@.subrange(i + 1, i + 1) =~= Seq::<char>::empty());
            }
            start = i + 1;
        } else {
            proof {
                assert(path@.subrange(start as int, i + 1) =~= path@.subrange(
                    start as int,
                    i as int,
                ).push(path@[i as int]));
            }
        }
        i = i + 1;
    }
    let part = String::from_str(path.substring_char(start, n));
    parts.push(part);
    proof {
        assert(spec_views(parts@) =~= spec_views(parts@.drop_last()) + seq![
            path@.subrange(start as int, n as int),
        ]);
    }
    parts
}

} // verus!
