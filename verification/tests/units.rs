//! Unit tests of the rendering helpers and the file-type classification.

use ext2fs::metadata::{FileType, Metadata};
use ext2fs::render::{get_char, use_percent, volume_bytes};

#[test]
fn hex_dump_characters() {
    assert_eq!(get_char(b'A'), 'A');
    assert_eq!(get_char(b' '), ' ');
    assert_eq!(get_char(b'~'), '~');
    assert_eq!(get_char(31), '.');
    assert_eq!(get_char(127), '.');
    assert_eq!(get_char(0), '.');
    assert_eq!(get_char(255), '.');
}

#[test]
fn free_space_arithmetic() {
    assert_eq!(volume_bytes(1024, 1024), 1024 * 1024);
    assert_eq!(use_percent(1024 * 1024, 768 * 1024), 75);
    assert_eq!(use_percent(1000, 0), 0);
    assert_eq!(use_percent(1000, 1000), 100);
    assert_eq!(use_percent(1000, 505), 51);
    assert_eq!(use_percent(1000, 504), 50);
}

#[test]
fn file_type_classification() {
    assert!(FileType::from_mode(0o040755).is_dir());
    assert!(FileType::from_mode(0o100644).is_file());
    assert!(FileType::from_mode(0o120777).is_symlink());
    assert!(FileType::from_mode(0o010644).is_fifo());
    assert!(FileType::from_mode(0o020644).is_char_device());
    assert!(FileType::from_mode(0o060644).is_block_device());
    assert!(FileType::from_mode(0o140755).is_socket());
    assert!(!FileType::from_mode(0o100644).is_dir());
    assert_eq!(FileType::from_mode(0o100644).to_string(), "regular file");
    assert_eq!(FileType::from_mode(0o040755).to_string(), "directory");
    assert_eq!(FileType::from_mode(0o120777).to_string(), "symbolic link");
    assert_eq!(FileType::from_mode(0).to_string(), "weird file");
}

#[test]
fn metadata_accessors() {
    let m = Metadata {
        dev: 0,
        ino: 12,
        mode: 0o100644,
        nlink: 1,
        uid: 1000,
        gid: 100,
        rdev: 0,
        size: 6,
        atime: 10_000,
        atime_nsec: 0,
        mtime: 20_000,
        mtime_nsec: 0,
        ctime: 30_000,
        ctime_nsec: 0,
        blksize: 1024,
        blocks: 2,
    };
    assert!(m.is_file());
    assert!(!m.is_dir());
    assert!(!m.is_symlink());
    assert_eq!(m.len(), 6);
    assert!(m.file_type().is_file());
}
