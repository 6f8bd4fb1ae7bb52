//! End-to-end tests on crafted ext2 images built byte by byte in memory.

use ext2fs::error::Ext2Error;
use ext2fs::fs::mount;


/// The error of a result whose success type need not be printable.
fn err_of<T>(r: Result<T, Ext2Error>) -> Ext2Error {
    match r {
        Err(e) => e,
        Ok(_) => panic!("expected an error"),
    }
}

const BLOCK_SIZE: usize = 1024;
const INODE_SIZE: usize = 128;
const INODE_TABLE_BLOCK: usize = 5;
const FIRST_DATA_BLOCK: usize = 9;

fn w16(img: &mut [u8], off: usize, v: u16) {
    img[off] = (v & 0xFF) as u8;
    img[off + 1] = (v >> 8) as u8;
}

fn w32(img: &mut [u8], off: usize, v: u32) {
    img[off] = (v & 0xFF) as u8;
    img[off + 1] = ((v >> 8) & 0xFF) as u8;
    img[off + 2] = ((v >> 16) & 0xFF) as u8;
    img[off + 3] = ((v >> 24) & 0xFF) as u8;
}

/// A fresh image: superblock, one group descriptor, empty inode table.
fn blank_image(blocks: usize, free_blocks: u32, inodes_per_group: u32) -> Vec<u8> {
    let mut img = vec![0u8; blocks * BLOCK_SIZE];
    // Superblock at byte 1024.
    w32(&mut img, 1024, inodes_per_group); // s_inodes_count
    w32(&mut img, 1028, blocks as u32); // s_blocks_count
    w32(&mut img, 1036, free_blocks); // s_free_blocks_count
    w32(&mut img, 1044, 1); // s_first_data_block
    w32(&mut img, 1048, 0); // s_log_block_size: 1024-byte blocks
    w32(&mut img, 1056, 8192); // s_blocks_per_group
    w32(&mut img, 1064, inodes_per_group); // s_inodes_per_group
    w16(&mut img, 1080, 0xEF53); // s_magic
    w16(&mut img, 1112, INODE_SIZE as u16); // s_inode_size
    // Group descriptor table at block 2.
    let gdt = 2 * BLOCK_SIZE;
    w32(&mut img, gdt, 3); // bg_block_bitmap
    w32(&mut img, gdt + 4, 4); // bg_inode_bitmap
    w32(&mut img, gdt + 8, INODE_TABLE_BLOCK as u32); // bg_inode_table
    w16(&mut img, gdt + 12, free_blocks as u16); // bg_free_blocks_count
    img
}

fn inode_off(ino: u32) -> usize {
    INODE_TABLE_BLOCK * BLOCK_SIZE + (ino as usize - 1) * INODE_SIZE
}

/// Writes an inode record with direct block pointers.
fn write_inode(img: &mut [u8], ino: u32, mode: u16, size: u32, blocks: &[u32]) {
    let off = inode_off(ino);
    w16(img, off, mode);
    w16(img, off + 2, 1000); // i_uid
    w32(img, off + 4, size);
    w32(img, off + 8, 10_000); // i_atime
    w32(img, off + 12, 30_000); // i_ctime
    w32(img, off + 16, 20_000); // i_mtime
    w16(img, off + 24, 100); // i_gid
    w16(img, off + 26, 1); // i_links_count
    w32(img, off + 28, (blocks.len() * 2) as u32); // i_blocks, in 512-byte sectors
    for (j, b) in blocks.iter().enumerate() {
        w32(img, off + 40 + 4 * j, *b);
    }
}

/// Writes a short symbolic link: the target lives in the pointer area.
fn write_symlink(img: &mut [u8], ino: u32, target: &str) {
    assert!(target.len() <= 60);
    let off = inode_off(ino);
    w16(img, off, 0xA1FF); // symlink, rwxrwxrwx
    w32(img, off + 4, target.len() as u32);
    w16(img, off + 26, 1);
    for (j, b) in target.as_bytes().iter().enumerate() {
        img[off + 40 + j] = *b;
    }
}

/// Appends one directory record; `last` pads it to the end of the block.
fn push_dirent(block: &mut Vec<u8>, ino: u32, name: &str, last: bool) {
    let name_len = name.len();
    let rec_len = if last {
        BLOCK_SIZE - block.len()
    } else {
        8 + (name_len + 3) / 4 * 4
    };
    let mut rec = vec![0u8; rec_len];
    w32(&mut rec, 0, ino);
    w16(&mut rec, 4, rec_len as u16);
    rec[6] = name_len as u8;
    rec[7] = if ino == 0 { 0 } else { 2 };
    rec[8..8 + name_len].copy_from_slice(name.as_bytes());
    block.extend_from_slice(&rec);
}

fn write_block(img: &mut [u8], block_num: usize, data: &[u8]) {
    let off = block_num * BLOCK_SIZE;
    img[off..off + data.len()].copy_from_slice(data);
}

/// An image whose root holds `.`(2), `..`(2), `lost+found`(11), `bin`(12).
fn basic_image() -> Vec<u8> {
    let mut img = blank_image(1024, 256, 32);
    let root_block = FIRST_DATA_BLOCK as u32;
    write_inode(&mut img, 2, 0x41ED, BLOCK_SIZE as u32, &[root_block]);
    write_inode(&mut img, 11, 0x41ED, BLOCK_SIZE as u32, &[root_block + 1]);
    write_inode(&mut img, 12, 0x41ED, BLOCK_SIZE as u32, &[root_block + 2]);
    let mut root = Vec::new();
    push_dirent(&mut root, 2, ".", false);
    push_dirent(&mut root, 2, "..", false);
    push_dirent(&mut root, 11, "lost+found", false);
    push_dirent(&mut root, 12, "bin", true);
    write_block(&mut img, FIRST_DATA_BLOCK, &root);
    for (i, b) in [root_block + 1, root_block + 2].iter().enumerate() {
        let mut d = Vec::new();
        push_dirent(&mut d, if i == 0 { 11 } else { 12 }, ".", false);
        push_dirent(&mut d, 2, "..", true);
        write_block(&mut img, *b as usize, &d);
    }
    img
}

/// An image with `/etc/hostname` (6 bytes `hello\n`), `/link` -> that file,
/// a self-referential `/loop`, and a deleted slot in the root.
fn etc_image() -> Vec<u8> {
    let mut img = blank_image(1024, 256, 32);
    let root_block = FIRST_DATA_BLOCK as u32; // 9
    let etc_block = root_block + 1; // 10
    let hostname_block = root_block + 2; // 11
    let ldeep_block = root_block + 3; // 12
    write_inode(&mut img, 2, 0x41ED, BLOCK_SIZE as u32, &[root_block]);
    write_inode(&mut img, 11, 0x41ED, BLOCK_SIZE as u32, &[etc_block]); // /etc
    write_inode(&mut img, 12, 0x81A4, 6, &[hostname_block]); // /etc/hostname
    write_symlink(&mut img, 13, "/etc/hostname"); // /link
    write_symlink(&mut img, 14, "loop"); // /loop -> itself
    // A 70-byte target does not fit the pointer area: it is file content.
    let ldeep_target = format!("{}{}", "/".repeat(57), "/etc/hostname");
    assert_eq!(ldeep_target.len(), 70);
    write_inode(&mut img, 15, 0xA1FF, 70, &[ldeep_block]);
    let mut ldeep_content = vec![0u8; BLOCK_SIZE];
    ldeep_content[..70].copy_from_slice(ldeep_target.as_bytes());
    write_block(&mut img, ldeep_block as usize, &ldeep_content);
    let mut root = Vec::new();
    push_dirent(&mut root, 2, ".", false);
    push_dirent(&mut root, 2, "..", false);
    push_dirent(&mut root, 11, "etc", false);
    push_dirent(&mut root, 13, "link", false);
    push_dirent(&mut root, 0, "gone", false); // a deleted slot, skipped
    push_dirent(&mut root, 15, "ldeep", false);
    push_dirent(&mut root, 14, "loop", true);
    write_block(&mut img, FIRST_DATA_BLOCK, &root);
    let mut etc = Vec::new();
    push_dirent(&mut etc, 11, ".", false);
    push_dirent(&mut etc, 2, "..", false);
    push_dirent(&mut etc, 12, "hostname", true);
    write_block(&mut img, etc_block as usize, &etc);
    let mut content = vec![0u8; BLOCK_SIZE];
    content[..6].copy_from_slice(b"hello\n");
    write_block(&mut img, hostname_block as usize, &content);
    img
}

#[test]
fn cat_hostname() {
    // The cat scenario: /etc/hostname holds exactly `hello\n`.
    let fs = mount(etc_image()).unwrap();
    let bytes = fs.read("/etc/hostname").unwrap();
    assert_eq!(bytes, b"hello\n");
    let text = fs.read_to_string("/etc/hostname").unwrap();
    assert_eq!(text, "hello\n");
}

#[test]
fn ls_root_lexicographic() {
    // The ls -i scenario: four entries, in lexicographic order, with their
    // inode numbers.
    let fs = mount(basic_image()).unwrap();
    let entries = fs.read_dir("/").unwrap();
    let listing: Vec<(String, u64)> =
        entries.iter().map(|e| (e.file_name.clone(), e.inode_num)).collect();
    assert_eq!(
        listing,
        vec![
            (".".to_string(), 2),
            ("..".to_string(), 2),
            ("bin".to_string(), 12),
            ("lost+found".to_string(), 11),
        ]
    );
}

#[test]
fn df_report() {
    // The df scenario: 1024 blocks of 1024 bytes, 256 free.
    let fs = mount(basic_image()).unwrap();
    assert_eq!(fs.get_blocks_count(), 1024);
    assert_eq!(fs.get_free_blocks_count(), 256);
    assert_eq!(fs.get_block_size(), 1024);
    let size = ext2fs::render::volume_bytes(fs.get_blocks_count(), fs.get_block_size());
    let avail = ext2fs::render::volume_bytes(fs.get_free_blocks_count(), fs.get_block_size());
    let used = size - avail;
    assert_eq!(size, 1024 * 1024);
    assert_eq!(used, 768 * 1024);
    assert_eq!(avail, 256 * 1024);
    assert_eq!(ext2fs::render::use_percent(size, used), 75);
    assert_eq!(
        humansize::format_size(size, humansize::DECIMAL).replace('\u{a0}', " "),
        "1.05 MB"
    );
}

#[test]
fn stat_link_and_target() {
    // The stat scenario: the link itself is a 13-byte symlink, its target a
    // 6-byte regular file.
    let fs = mount(etc_image()).unwrap();
    let lstat = fs.symlink_metadata("/link").unwrap();
    assert!(lstat.is_symlink());
    assert_eq!(lstat.len(), 13);
    let stat = fs.metadata("/link").unwrap();
    assert!(stat.is_file());
    assert_eq!(stat.len(), 6);
    assert_eq!(fs.read_link("/link").unwrap(), "/etc/hostname");
}

#[test]
fn long_symlink_target_is_file_content() {
    // A 70-byte target exceeds the 60-byte pointer area and is read as file
    // content; the returned string holds exactly `size` bytes.
    let fs = mount(etc_image()).unwrap();
    let target = fs.read_link("/ldeep").unwrap();
    assert_eq!(target.len(), 70);
    assert_eq!(fs.symlink_metadata("/ldeep").unwrap().len(), 70);
    assert_eq!(&target[57..], "/etc/hostname");
    // Following it lands on the hostname file despite the repeated slashes.
    let stat = fs.metadata("/ldeep").unwrap();
    assert!(stat.is_file());
    assert_eq!(stat.len(), 6);
}

#[test]
fn short_symlink_target_has_size_bytes() {
    let fs = mount(etc_image()).unwrap();
    let target = fs.read_link("/link").unwrap();
    assert_eq!(target.len(), fs.symlink_metadata("/link").unwrap().len() as usize);
}

#[test]
fn read_past_end_zero_fills_and_returns_zero() {
    let fs = mount(etc_image()).unwrap();
    let mut f = fs.open("/etc/hostname").unwrap();
    let mut buf = vec![0u8; 64];
    let n = f.read(&fs.disk, &mut buf).unwrap();
    assert_eq!(n, 6);
    assert_eq!(&buf[..6], b"hello\n");
    let mut buf2 = vec![0xFFu8; 16];
    let n2 = f.read(&fs.disk, &mut buf2).unwrap();
    assert_eq!(n2, 0);
    assert_eq!(buf2, vec![0u8; 16]);
}

#[test]
fn symlink_loop_reports_too_many_links() {
    let fs = mount(etc_image()).unwrap();
    assert_eq!(fs.metadata("/loop").unwrap_err(), Ext2Error::TooManyLinks);
    // The link itself still stats fine.
    let lstat = fs.symlink_metadata("/loop").unwrap();
    assert!(lstat.is_symlink());
    assert_eq!(lstat.len(), 4);
}

#[test]
fn bad_magic_is_invalid_filesystem() {
    let mut img = basic_image();
    w16(&mut img, 1080, 0x0000);
    assert_eq!(err_of(mount(img)), Ext2Error::InvalidFilesystem);
    // Even a tiny file with a bad magic reports the same: no later block is
    // ever consulted.
    let mut small = vec![0u8; 2048];
    w16(&mut small, 1080, 0x1234);
    assert_eq!(err_of(mount(small)), Ext2Error::InvalidFilesystem);
}

#[test]
fn truncated_image_is_eof() {
    assert_eq!(err_of(mount(vec![0u8; 100])), Ext2Error::UnexpectedEof);
}

#[test]
fn resolve_root_is_inode_two() {
    let fs = mount(basic_image()).unwrap();
    let root = fs.resolve("/").unwrap();
    let by_num = fs.read_inode(2).unwrap();
    assert_eq!(root.inode_num, by_num.inode_num);
    assert_eq!(fs.metadata("/").unwrap().ino, 2);
}

#[test]
fn metadata_agrees_without_symlinks() {
    let fs = mount(etc_image()).unwrap();
    for p in ["/", "/etc", "/etc/hostname"] {
        assert_eq!(fs.metadata(p).unwrap(), fs.symlink_metadata(p).unwrap());
    }
}

#[test]
fn read_dir_is_idempotent() {
    let fs = mount(etc_image()).unwrap();
    let a = fs.read_dir("/").unwrap();
    let b = fs.read_dir("/").unwrap();
    let names_a: Vec<String> = a.iter().map(|e| e.file_name.clone()).collect();
    let names_b: Vec<String> = b.iter().map(|e| e.file_name.clone()).collect();
    assert_eq!(names_a, names_b);
    assert_eq!(names_a, vec![".", "..", "etc", "ldeep", "link", "loop"]);
    let inos_a: Vec<u64> = a.iter().map(|e| e.inode_num).collect();
    let inos_b: Vec<u64> = b.iter().map(|e| e.inode_num).collect();
    assert_eq!(inos_a, inos_b);
}

#[test]
fn read_is_idempotent_and_chunked_reads_agree() {
    let fs = mount(etc_image()).unwrap();
    let once = fs.read("/etc/hostname").unwrap();
    let twice = fs.read("/etc/hostname").unwrap();
    assert_eq!(once, twice);
    // Reading through the file reader in odd-sized chunks yields the same
    // bytes, and exactly `size` of them before the zero return.
    for chunk in [1usize, 2, 5, 7, 1000] {
        let mut f = fs.open("/etc/hostname").unwrap();
        let mut collected = Vec::new();
        loop {
            let mut buf = vec![0xAAu8; chunk];
            let n = f.read(&fs.disk, &mut buf).unwrap();
            if n == 0 {
                break;
            }
            collected.extend_from_slice(&buf[..n]);
        }
        assert_eq!(collected, once);
    }
}

#[test]
fn inode_size_agrees_with_fields() {
    let fs = mount(etc_image()).unwrap();
    let file = fs.read_inode(12).unwrap();
    assert_eq!(file.get_size(), 6);
    let link = fs.read_inode(13).unwrap();
    assert_eq!(link.get_size(), 13);
    let dir = fs.read_inode(2).unwrap();
    assert_eq!(dir.get_size(), 1024);
}

#[test]
fn size_high_word_counts_for_regular_files_only() {
    let mut img = etc_image();
    // Give the hostname file a high size word: the size gains 2^32 bytes.
    w32(&mut img, inode_off(12) + 108, 1);
    // Give the /etc directory one too: directories ignore it.
    w32(&mut img, inode_off(11) + 108, 7);
    let fs = mount(img).unwrap();
    assert_eq!(fs.metadata("/etc/hostname").unwrap().len(), 6 + (1u64 << 32));
    assert_eq!(fs.metadata("/etc").unwrap().len(), 1024);
}

#[test]
fn uid_and_gid_combine_high_bits() {
    let mut img = etc_image();
    w16(&mut img, inode_off(12) + 120, 3); // i_uid_high
    w16(&mut img, inode_off(12) + 122, 2); // i_gid_high
    let fs = mount(img).unwrap();
    let m = fs.metadata("/etc/hostname").unwrap();
    assert_eq!(m.uid, 1000 + (3 << 16));
    assert_eq!(m.gid, 100 + (2 << 16));
    assert_eq!(m.atime, 10_000);
    assert_eq!(m.mtime, 20_000);
    assert_eq!(m.ctime, 30_000);
    assert_eq!(m.atime_nsec, 0);
    assert_eq!(m.mtime_nsec, 0);
    assert_eq!(m.ctime_nsec, 0);
    assert_eq!(m.blksize, 1024);
    assert_eq!(m.dev, 0);
    assert_eq!(m.rdev, 0);
    assert_eq!(m.nlink, 1);
    assert_eq!(m.ino, 12);
}

#[test]
fn group_brackets_inode_number() {
    let fs = mount(basic_image()).unwrap();
    for n in [1u64, 2, 11, 31, 32] {
        let group = fs.block_groups.get_inode_group(n);
        assert!(group.first_inode_num <= n);
        assert!(n < group.first_inode_num + fs.block_groups.inodes_per_group as u64);
    }
}

#[test]
fn lookup_misses_and_type_mismatches() {
    let fs = mount(etc_image()).unwrap();
    assert_eq!(fs.metadata("/missing").unwrap_err(), Ext2Error::NotFound);
    assert_eq!(fs.read("/etc/absent").unwrap_err(), Ext2Error::NotFound);
    assert_eq!(err_of(fs.open("/etc")), Ext2Error::IsADirectory);
    assert_eq!(fs.read_dir("/etc/hostname").unwrap_err(), Ext2Error::NotADirectory);
    assert_eq!(fs.read_link("/etc/hostname").unwrap_err(), Ext2Error::NotASymlink);
    assert_eq!(fs.try_exists("/etc/hostname").unwrap(), true);
    assert_eq!(fs.try_exists("/missing").unwrap_err(), Ext2Error::NotFound);
    assert_eq!(fs.try_exists("/etc").unwrap_err(), Ext2Error::IsADirectory);
}

#[test]
fn unreadable_block_is_eof() {
    // Point the hostname file's only data block far past the image: the
    // pointer chain resolves, but reading the block is a short read.
    let mut img = etc_image();
    w32(&mut img, inode_off(12) + 40, 99_999);
    let fs = mount(img).unwrap();
    assert_eq!(fs.read("/etc/hostname").unwrap_err(), Ext2Error::UnexpectedEof);
    let mut f = fs.open("/etc/hostname").unwrap();
    let mut buf = vec![0u8; 8];
    assert_eq!(err_of(f.read(&fs.disk, &mut buf)), Ext2Error::UnexpectedEof);
}

#[test]
fn corrupt_directory_record_is_invalid_data() {
    let mut img = etc_image();
    // A record length of zero can never tile the block.
    w16(&mut img, FIRST_DATA_BLOCK * BLOCK_SIZE + 4, 0);
    let fs = mount(img).unwrap();
    assert_eq!(fs.read_dir("/").unwrap_err(), Ext2Error::InvalidData);
}

#[test]
fn non_utf8_name_is_invalid_data() {
    let mut img = etc_image();
    // Corrupt the first byte of the name of the live `etc` entry.
    let etc_entry_name = FIRST_DATA_BLOCK * BLOCK_SIZE + 12 + 12 + 8;
    img[etc_entry_name] = 0xFF;
    let fs = mount(img).unwrap();
    assert_eq!(fs.read_dir("/").unwrap_err(), Ext2Error::InvalidData);
}

#[test]
fn non_ascii_content_decodes_as_utf8() {
    // Two bytes of UTF-8 decode to one character: the decoder returns
    // characters, not the raw bytes.
    let mut img = etc_image();
    let content_off = (FIRST_DATA_BLOCK + 2) * BLOCK_SIZE;
    img[content_off] = 0xC3;
    img[content_off + 1] = 0xA9;
    let ino12 = inode_off(12);
    w32(&mut img, ino12 + 4, 2); // size 2 bytes
    let fs = mount(img).unwrap();
    let text = fs.read_to_string("/etc/hostname").unwrap();
    assert_eq!(text.chars().count(), 1);
    assert_eq!(text, "\u{e9}");
    // An invalid sequence is corrupt data.
    let mut bad = etc_image();
    bad[content_off] = 0xFF;
    let fs2 = mount(bad).unwrap();
    assert_eq!(fs2.read_to_string("/etc/hostname").unwrap_err(), Ext2Error::InvalidData);
}

#[test]
fn rec_len_tiles_every_directory_block() {
    let fs = mount(etc_image()).unwrap();
    // Walk the root block by hand: the record lengths must sum to the block
    // size exactly.
    let img = etc_image();
    let base = FIRST_DATA_BLOCK * BLOCK_SIZE;
    let mut off = 0usize;
    let mut sum = 0usize;
    while off < BLOCK_SIZE {
        let rec_len =
            u16::from_le_bytes([img[base + off + 4], img[base + off + 5]]) as usize;
        assert!(rec_len >= 8);
        sum += rec_len;
        off += rec_len;
    }
    assert_eq!(sum, BLOCK_SIZE);
    // And the interpreter accepted the same walk.
    assert!(fs.read_dir("/").is_ok());
}
