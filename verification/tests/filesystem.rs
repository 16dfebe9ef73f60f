//! The filesystem reader over a hand-built disk image: mounting, the root
//! listing, file reads and the console-printing `cat`.

use aether::console::Console;
use aether::ext2::{BLOCK_SIZE, Ext2Driver};

/// A minimal image: superblock magic, a group descriptor pointing the inode
/// table at block 5, a root directory (inode 2) in block 7 listing `.`,
/// `..` and `hello.txt` (inode 11), whose 13 bytes sit in block 8.
fn build_image() -> Vec<u8> {
    let mut d = vec![0u8; 10 * BLOCK_SIZE];

    // Superblock magic.
    d[1024 + 56] = 0x53;
    d[1024 + 57] = 0xEF;

    // Group descriptor: inode table at block 5.
    d[2048 + 8] = 5;

    // Inode 2 (root directory): size 1024, first data block 7.
    let root = 5 * BLOCK_SIZE + 1 * 128;
    d[root + 4..root + 8].copy_from_slice(&1024u32.to_le_bytes());
    d[root + 40..root + 44].copy_from_slice(&7u32.to_le_bytes());

    // Inode 11 (hello.txt): size 13, first data block 8.
    let hello = 5 * BLOCK_SIZE + 10 * 128;
    d[hello + 4..hello + 8].copy_from_slice(&13u32.to_le_bytes());
    d[hello + 40..hello + 44].copy_from_slice(&8u32.to_le_bytes());

    // Root directory entries in block 7.
    let dir = 7 * BLOCK_SIZE;
    write_dirent(&mut d, dir, 2, 12, b".", 2);
    write_dirent(&mut d, dir + 12, 2, 12, b"..", 2);
    write_dirent(&mut d, dir + 24, 11, 1000, b"hello.txt", 1);

    // File data in block 8.
    d[8 * BLOCK_SIZE..8 * BLOCK_SIZE + 13].copy_from_slice(b"Hello, World!");

    d
}

fn write_dirent(d: &mut [u8], at: usize, inode: u32, rec_len: u16, name: &[u8], ftype: u8) {
    d[at..at + 4].copy_from_slice(&inode.to_le_bytes());
    d[at + 4..at + 6].copy_from_slice(&rec_len.to_le_bytes());
    d[at + 6] = name.len() as u8;
    d[at + 7] = ftype;
    d[at + 8..at + 8 + name.len()].copy_from_slice(name);
}

#[test]
fn mounting_checks_the_magic() {
    assert!(Ext2Driver::new(build_image()).is_some());

    let mut bad = build_image();
    bad[1024 + 56] = 0;
    assert!(Ext2Driver::new(bad).is_none());

    // An image too small for its metadata blocks does not mount.
    assert!(Ext2Driver::new(vec![0u8; 100]).is_none());
}

#[test]
fn root_listing_walks_the_directory() {
    let fs = Ext2Driver::new(build_image()).unwrap();
    let entries = fs.list_root();
    assert_eq!(entries.len(), 3);
    assert_eq!(entries[0].name, b".".to_vec());
    assert_eq!(entries[0].file_type, 2);
    assert_eq!(entries[1].name, b"..".to_vec());
    assert_eq!(entries[2].name, b"hello.txt".to_vec());
    assert_eq!(entries[2].inode, 11);
    assert_eq!(entries[2].file_type, 1);
}

#[test]
fn file_reads_back_exactly() {
    let fs = Ext2Driver::new(build_image()).unwrap();
    assert_eq!(fs.read_file(b"hello.txt"), Some(b"Hello, World!".to_vec()));
    assert_eq!(fs.read_file(b"missing.txt"), None);
    assert_eq!(fs.read_file(b""), None);
}

#[test]
fn multi_block_file_concatenates_its_blocks() {
    let mut image = build_image();
    // Grow hello.txt to 1024 + 13 bytes across blocks 8 and 9.
    let hello = 5 * BLOCK_SIZE + 10 * 128;
    image[hello + 4..hello + 8].copy_from_slice(&(1024u32 + 13).to_le_bytes());
    image[hello + 44..hello + 48].copy_from_slice(&9u32.to_le_bytes());
    for i in 0..BLOCK_SIZE {
        image[8 * BLOCK_SIZE + i] = b'a';
    }
    image[9 * BLOCK_SIZE..9 * BLOCK_SIZE + 13].copy_from_slice(b"Hello, World!");

    let fs = Ext2Driver::new(image).unwrap();
    let data = fs.read_file(b"hello.txt").unwrap();
    assert_eq!(data.len(), 1024 + 13);
    assert!(data[..1024].iter().all(|&b| b == b'a'));
    assert_eq!(&data[1024..], b"Hello, World!");
}

#[test]
fn cat_prints_the_framed_file_to_the_console() {
    let fs = Ext2Driver::new(build_image()).unwrap();
    let mut con = Console::new();
    assert!(fs.cat(b"hello.txt", &mut con));
    // Header line, then the content line ended by the trailing newline,
    // then the footer line.
    for (x, c) in b"--- File Content ---".iter().enumerate() {
        assert_eq!(con.cell_at(x, 0), *c);
    }
    for (x, c) in b"Hello, World!".iter().enumerate() {
        assert_eq!(con.cell_at(x, 1), *c);
    }
    for x in 0..20 {
        assert_eq!(con.cell_at(x, 2), b'-');
    }
    assert_eq!(con.cursor(), (0, 3));
}

#[test]
fn cat_of_a_missing_file_prints_the_miss_message() {
    let fs = Ext2Driver::new(build_image()).unwrap();
    let mut con = Console::new();
    assert!(!fs.cat(b"absent", &mut con));
    for (x, c) in b"File not found.".iter().enumerate() {
        assert_eq!(con.cell_at(x, 0), *c);
    }
    assert_eq!(con.cursor(), (0, 1));
}
