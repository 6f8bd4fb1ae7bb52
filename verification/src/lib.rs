//! A read-only, in-memory interpreter for the ext2 filesystem.
//!
//! The library takes a raw filesystem image as a byte vector, validates its
//! superblock, and exposes a POSIX-style navigation API: path resolution with
//! symbolic-link following, directory enumeration, file reading and metadata
//! inspection.  Every operation is specified against a mathematical model of
//! the on-disk byte layout.

pub mod dir;
pub mod disk;
pub mod error;
pub mod ext2;
pub mod file;
pub mod fs;
pub mod group;
pub mod inode;
pub mod laws;
pub mod layout;
pub mod metadata;
pub mod render;
pub mod superblock;
pub mod text;
