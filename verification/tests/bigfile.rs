//! A 20 MiB file whose blocks run through the singly and doubly indirect
//! pointers, with a hole among the direct blocks.

use ext2fs::fs::mount;

const BLOCK_SIZE: usize = 1024;
const INODE_SIZE: usize = 128;
const INODE_TABLE_BLOCK: usize = 5;
const DATA_START: usize = 10;
const FILE_BLOCKS: usize = 20480; // 20 MiB of 1024-byte blocks
const HOLE_BLOCK: usize = 5; // file block 5 is a hole

fn w16(img: &mut [u8], off: usize, v: u16) {
    img[off] = (v & 0xFF) as u8;
    img[off + 1] = (v >> 8) as u8;
}

fn w32(img: &mut [u8], off: usize, v: u32) {
    img[off] = (v & 0xFF) as u8;
    img[off + 1] = ((v >> 8) & 0xFF) as u8;
    img[off + 2] = ((v >> 16) & 0xFF) as u8;
    img[off + 3] = ((v >> 24) & 0xFF) as u8;
}

fn pattern(i: usize) -> u8 {
    ((i * 31 + 7) % 251) as u8
}

/// The physical block of file block `k`, with the hole at `HOLE_BLOCK`.
fn data_block(k: usize) -> u32 {
    if k == HOLE_BLOCK {
        0
    } else {
        (DATA_START + k) as u32
    }
}

fn big_image() -> Vec<u8> {
    let ind_block = DATA_START + FILE_BLOCKS; // singly indirect index
    let dbl_block = ind_block + 1; // doubly indirect index
    let l2_start = dbl_block + 1; // its index blocks
    let doubly_entries = FILE_BLOCKS - 12 - 256;
    let l2_count = (doubly_entries + 255) / 256;
    let total_blocks = l2_start + l2_count;
    let mut img = vec![0u8; total_blocks * BLOCK_SIZE];
    // Superblock and one group.
    w32(&mut img, 1028, total_blocks as u32);
    w32(&mut img, 1044, 1);
    w32(&mut img, 1056, 1 << 20); // s_blocks_per_group: a single group
    w32(&mut img, 1064, 32);
    w32(&mut img, 1024, 32);
    w16(&mut img, 1080, 0xEF53);
    w16(&mut img, 1112, INODE_SIZE as u16);
    w32(&mut img, 2 * BLOCK_SIZE + 8, INODE_TABLE_BLOCK as u32);
    // Root directory (inode 2), one block at 9.
    let root_off = INODE_TABLE_BLOCK * BLOCK_SIZE + INODE_SIZE;
    w16(&mut img, root_off, 0x41ED);
    w32(&mut img, root_off + 4, BLOCK_SIZE as u32);
    w16(&mut img, root_off + 26, 2);
    w32(&mut img, root_off + 40, 9);
    let rb = 9 * BLOCK_SIZE;
    w32(&mut img, rb, 2);
    w16(&mut img, rb + 4, 12);
    img[rb + 6] = 1;
    img[rb + 8] = b'.';
    w32(&mut img, rb + 12, 12);
    w16(&mut img, rb + 16, (BLOCK_SIZE - 12) as u16);
    img[rb + 18] = 3;
    img[rb + 20..rb + 23].copy_from_slice(b"big");
    // The big file (inode 12).
    let ino_off = INODE_TABLE_BLOCK * BLOCK_SIZE + 11 * INODE_SIZE;
    w16(&mut img, ino_off, 0x81A4);
    w32(&mut img, ino_off + 4, (FILE_BLOCKS * BLOCK_SIZE) as u32);
    w16(&mut img, ino_off + 26, 1);
    for j in 0..12 {
        w32(&mut img, ino_off + 40 + 4 * j, data_block(j));
    }
    w32(&mut img, ino_off + 40 + 4 * 12, ind_block as u32);
    w32(&mut img, ino_off + 40 + 4 * 13, dbl_block as u32);
    // The singly indirect index: file blocks 12..268.
    for j in 0..256 {
        w32(&mut img, ind_block * BLOCK_SIZE + 4 * j, data_block(12 + j));
    }
    // The doubly indirect tree: file blocks 268 on.
    for m in 0..l2_count {
        w32(&mut img, dbl_block * BLOCK_SIZE + 4 * m, (l2_start + m) as u32);
        for j in 0..256 {
            let k = 268 + m * 256 + j;
            if k < FILE_BLOCKS {
                w32(&mut img, (l2_start + m) * BLOCK_SIZE + 4 * j, data_block(k));
            }
        }
    }
    // The data itself.
    for k in 0..FILE_BLOCKS {
        if k == HOLE_BLOCK {
            continue;
        }
        let base = (DATA_START + k) * BLOCK_SIZE;
        for j in 0..BLOCK_SIZE {
            img[base + j] = pattern(k * BLOCK_SIZE + j);
        }
    }
    img
}

#[test]
fn doubly_indirect_read_matches_reference() {
    let fs = mount(big_image()).unwrap();
    assert_eq!(fs.metadata("/big").unwrap().len() as usize, FILE_BLOCKS * BLOCK_SIZE);
    let bytes = fs.read("/big").unwrap();
    assert_eq!(bytes.len(), FILE_BLOCKS * BLOCK_SIZE);
    let mut expected = vec![0u8; FILE_BLOCKS * BLOCK_SIZE];
    for (i, b) in expected.iter_mut().enumerate() {
        if i / BLOCK_SIZE != HOLE_BLOCK {
            *b = pattern(i);
        }
    }
    assert_eq!(bytes, expected);
    // The hole reads back as zeroes.
    assert!(bytes[HOLE_BLOCK * BLOCK_SIZE..(HOLE_BLOCK + 1) * BLOCK_SIZE]
        .iter()
        .all(|b| *b == 0));
}
