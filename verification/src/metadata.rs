//! POSIX-stat-shaped metadata and file-type classification.
//!
//! The file type of an inode is the top four bits of its mode word.  The
//! spec functions here are the single definition of each type test; the
//! inode engine, the path resolver and the façade all speak in terms of
//! them.

use vstd::prelude::*;
use vstd::string::StringExecFns;

verus! {

/// The four type bits of a mode word.
pub open spec fn spec_type_bits(mode: u32) -> u32 {
    (mode >> 12) & 0o17
}

/// The mode word denotes a named pipe.
pub open spec fn is_fifo_mode(mode: u32) -> bool {
    spec_type_bits(mode) == 0o001
}

/// The mode word denotes a character device.
pub open spec fn is_char_device_mode(mode: u32) -> bool {
    spec_type_bits(mode) == 0o002
}

/// The mode word denotes a directory.
pub open spec fn is_dir_mode(mode: u32) -> bool {
    spec_type_bits(mode) == 0o004
}

/// The mode word denotes a block device.
pub open spec fn is_block_device_mode(mode: u32) -> bool {
    spec_type_bits(mode) == 0o006
}

/// The mode word denotes a regular file.
pub open spec fn is_file_mode(mode: u32) -> bool {
    spec_type_bits(mode) == 0o010
}

/// The mode word denotes a symbolic link.
pub open spec fn is_symlink_mode(mode: u32) -> bool {
    spec_type_bits(mode) == 0o012
}

/// The mode word denotes a Unix-domain socket.
pub open spec fn is_socket_mode(mode: u32) -> bool {
    spec_type_bits(mode) == 0o014
}

/// The name the `stat` report prints for a mode word.
pub open spec fn spec_file_type_name(mode: u32) -> Seq<char> {
    if is_file_mode(mode) {
        "regular file"@
    } else if is_dir_mode(mode) {
        "directory"@
    } else if is_block_device_mode(mode) {
        "block special file"@
    } else if is_char_device_mode(mode) {
        "character special file"@
    } else if is_fifo_mode(mode) {
        "fifo"@
    } else if is_symlink_mode(mode) {
        "symbolic link"@
    } else if is_socket_mode(mode) {
        "socket"@
    } else {
        "weird file"@
    }
}

/// The file type of an inode: a mode word viewed through its type bits.
#[derive(Clone, Copy, Debug)]
pub struct FileType(u32);

impl FileType {
    /// The mode word this type was taken from.
    pub closed spec fn spec_mode(&self) -> u32 {
        self.0
    }

    /// Wraps a mode word.
    pub fn from_mode(mode: u32) -> (r: FileType)
        ensures
            r.spec_mode() == mode,
    {
        FileType(mode)
    }

    /// Tests whether this inode is a directory.
    pub fn is_dir(&self) -> (r: bool)
        ensures
            r == is_dir_mode(self.spec_mode()),
    {
        (self.0 >> 12) & 0o17 == 0o004
    }

    /// Tests whether this inode is a regular file.
    pub fn is_file(&self) -> (r: bool)
        ensures
            r == is_file_mode(self.spec_mode()),
    {
        (self.0 >> 12) & 0o17 == 0o010
    }

    /// Tests whether this inode is a symbolic link.
    pub fn is_symlink(&self) -> (r: bool)
        ensures
            r == is_symlink_mode(self.spec_mode()),
    {
        (self.0 >> 12) & 0o17 == 0o012
    }

    /// Returns true if this mode represents a fifo, also known as a named pipe.
    pub fn is_fifo(&self) -> (r: bool)
        ensures
            r == is_fifo_mode(self.spec_mode()),
    {
        (self.0 >> 12) & 0o17 == 0o001
    }

    /// Returns true if this mode represents a character device.
    pub fn is_char_device(&self) -> (r: bool)
        ensures
            r == is_char_device_mode(self.spec_mode()),
    {
        (self.0 >> 12) & 0o17 == 0o002
    }

    /// Returns true if this mode represents a block device.
    pub fn is_block_device(&self) -> (r: bool)
        ensures
            r == is_block_device_mode(self.spec_mode()),
    {
        (self.0 >> 12) & 0o17 == 0o006
    }

    /// Returns true if this mode represents a Unix-domain socket.
    pub fn is_socket(&self) -> (r: bool)
        ensures
            r == is_socket_mode(self.spec_mode()),
    {
        (self.0 >> 12) & 0o17 == 0o014
    }

    /// The name the `stat` report prints for this type.
    pub fn to_string(&self) -> (r: String)
        ensures
            r@ == spec_file_type_name(self.spec_mode()),
    {
        if self.is_file() {
            String::from_str("regular file")
        } else if self.is_dir() {
            String::from_str("directory")
        } else if self.is_block_device() {
            String::from_str("block special file")
        } else if self.is_char_device() {
            String::from_str("character special file")
        } else if self.is_fifo() {
            String::from_str("fifo")
        } else if self.is_symlink() {
            String::from_str("symbolic link")
        } else if self.is_socket() {
            String::from_str("socket")
        } else {
            String::from_str("weird file")
        }
    }
}

/// The stat record of an inode.
///
/// `dev` and `rdev` are zero for this read-only backing.  ext2 stores no
/// sub-second timestamps, so every `*_nsec` field is zero.
#[derive(Clone, Copy, Debug, PartialEq, Eq, Structural)]
pub struct Metadata {
    pub dev: u64,
    pub ino: u64,
    pub mode: u32,
    pub nlink: u64,
    pub uid: u32,
    pub gid: u32,
    pub rdev: u64,
    pub size: u64,
    pub atime: i64,
    pub atime_nsec: i64,
    pub mtime: i64,
    pub mtime_nsec: i64,
    pub ctime: i64,
    pub ctime_nsec: i64,
    pub blksize: u64,
    pub blocks: u64,
}

impl Metadata {
    /// Returns the file type for this metadata.
    pub fn file_type(&self) -> (r: FileType)
        ensures
            r.spec_mode() == self.mode,
    {
        FileType(self.mode)
    }

    /// Tests whether this inode is a directory.
    pub fn is_dir(&self) -> (r: bool)
        ensures
            r == is_dir_mode(self.mode),
    {
        self.file_type().is_dir()
    }

    /// Tests whether this inode is a regular file.
    pub fn is_file(&self) -> (r: bool)
        ensures
            r == is_file_mode(self.mode),
    {
        self.file_type().is_file()
    }

    /// Tests whether this inode is a symbolic link.
    pub fn is_symlink(&self) -> (r: bool)
        ensures
            r == is_symlink_mode(self.mode),
    {
        self.file_type().is_symlink()
    }

    /// Returns the size of the file, in bytes.
    pub fn len(&self) -> (r: u64)
        ensures
            r == self.size,
    {
        self.size
    }
}

} // verus!
