//! The closed set of failures the filesystem interpreter can report.

use vstd::prelude::*;

verus! {

/// The error taxonomy of the interpreter.
///
/// Every failure is structural: the image is never written and the backing
/// bytes live in memory, so the only faults are short reads, malformed
/// on-disk records and lookup misses.
#[derive(Clone, Copy, Debug, PartialEq, Eq, Structural)]
pub enum Ext2Error {
    /// A read extends past the end of the image.
    UnexpectedEof,
    /// The superblock is malformed (bad magic or out-of-range geometry).
    InvalidFilesystem,
    /// A path component does not exist in its directory.
    NotFound,
    /// A directory operation was applied to a non-directory inode.
    NotADirectory,
    /// A file operation was applied to a directory inode.
    IsADirectory,
    /// A symbolic-link operation was applied to a non-symlink inode.
    NotASymlink,
    /// A malformed on-disk record: a corrupt directory entry, a block index
    /// beyond the triply-indirect reach, or non-UTF-8 text.
    InvalidData,
    /// Symbolic-link resolution exceeded the recursion limit.
    TooManyLinks,
}

impl Ext2Error {
    /// A human-readable description of the failure.
    pub fn message(&self) -> (r: &'static str)
        ensures
            self is UnexpectedEof ==> r@ == "Not enough bytes read"@,
            self is InvalidFilesystem ==> r@ == "Invalid filesystem"@,
            self is NotFound ==> r@ == "No such file or directory"@,
            self is NotADirectory ==> r@ == "Not a directory"@,
            self is IsADirectory ==> r@ == "Is a directory"@,
            self is NotASymlink ==> r@ == "is not a symbolic link"@,
            self is InvalidData ==> r@ == "Invalid data"@,
            self is TooManyLinks ==> r@ == "Too many levels of symbolic links"@,
    {
        match self {
            Ext2Error::UnexpectedEof => "Not enough bytes read",
            Ext2Error::InvalidFilesystem => "Invalid filesystem",
            Ext2Error::NotFound => "No such file or directory",
            Ext2Error::NotADirectory => "Not a directory",
            Ext2Error::IsADirectory => "Is a directory",
            Ext2Error::NotASymlink => "is not a symbolic link",
            Ext2Error::InvalidData => "Invalid data",
            Ext2Error::TooManyLinks => "Too many levels of symbolic links",
        }
    }
}

} // verus!
