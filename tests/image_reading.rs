use erofs_rs::error::Error;
use erofs_rs::file::Read;
use erofs_rs::filesystem::EroFS;
use erofs_rs::image::{Image, SliceImage};
use erofs_rs::inode::{Layout, NodeKind};
use erofs_rs::locate::Extent;
use erofs_rs::dirent::{parse_dir_block, FileType};
use erofs_rs::path::split_path;

const BS: usize = 4096;

fn put16(img: &mut [u8], at: usize, v: u16) {
    img[at..at + 2].copy_from_slice(&v.to_le_bytes());
}

fn put32(img: &mut [u8], at: usize, v: u32) {
    img[at..at + 4].copy_from_slice(&v.to_le_bytes());
}

fn put64(img: &mut [u8], at: usize, v: u64) {
    img[at..at + 8].copy_from_slice(&v.to_le_bytes());
}

/// An image of `blocks` blocks with a superblock whose inodes start at block 1.
fn blank(blocks: usize) -> Vec<u8> {
    let mut img = vec![0u8; blocks * BS];
    put32(&mut img, 1024, 0xE0F5E1E2);
    img[1024 + 12] = 12;
    put16(&mut img, 1024 + 14, 0);
    put64(&mut img, 1024 + 24, 1_700_000_000);
    put32(&mut img, 1024 + 36, blocks as u32);
    put32(&mut img, 1024 + 40, 1);
    img
}

/// Writes a compact inode record for node `nid`.
fn compact_inode(img: &mut [u8], nid: usize, layout: u16, mode: u16, size: u32, raw: u32) {
    let at = BS + nid * 32;
    put16(img, at, layout << 1);
    put16(img, at + 4, mode);
    put16(img, at + 6, 1);
    put32(img, at + 8, size);
    put32(img, at + 16, raw);
    put32(img, at + 20, nid as u32);
}

/// Writes one directory block at `block` holding `entries` (name, nid, type).
fn dir_block(img: &mut [u8], block: usize, entries: &[(&str, u64, u8)]) {
    let base = block * BS;
    let mut name_at = entries.len() * 12;
    for (i, (name, nid, ft)) in entries.iter().enumerate() {
        put64(img, base + i * 12, *nid);
        put16(img, base + i * 12 + 8, name_at as u16);
        img[base + i * 12 + 10] = *ft;
        img[base + name_at..base + name_at + name.len()].copy_from_slice(name.as_bytes());
        name_at += name.len();
    }
}

/// `/` holding the plain file `hello.txt` with content "hi\n".
fn hello_image() -> Vec<u8> {
    let mut img = blank(4);
    compact_inode(&mut img, 0, 0, 0o040755, BS as u32, 2);
    compact_inode(&mut img, 1, 0, 0o100644, 3, 3);
    dir_block(&mut img, 2, &[("hello.txt", 1, 1)]);
    img[3 * BS..3 * BS + 3].copy_from_slice(b"hi\n");
    img
}

fn read_all(fs: &EroFS<SliceImage>, path: &str, chunk: usize) -> Vec<u8> {
    let mut f = fs.open(path).unwrap();
    f.read_to_end(chunk).unwrap()
}

#[test]
fn hello_file_scenario() {
    let img = hello_image();
    let fs = EroFS::new(SliceImage::new(&img)).unwrap();
    assert_eq!(fs.block_size(), 4096);
    assert_eq!(fs.resolve("/hello.txt"), Ok(1));
    assert_eq!(read_all(&fs, "/hello.txt", 4096), b"hi\n".to_vec());
    let root = fs.read_inode(0).unwrap();
    let entries = fs.read_dir(&root).unwrap();
    assert_eq!(entries.len(), 1);
    let e = entries[0].as_ref().unwrap();
    assert_eq!(e.name, b"hello.txt".to_vec());
    assert_eq!(e.file_type(), FileType::Regular);
    assert_eq!(e.nid, 1);
}

#[test]
fn reader_small_reads_match_large_reads() {
    let img = hello_image();
    let fs = EroFS::new(SliceImage::new(&img)).unwrap();
    let mut f = fs.open("/hello.txt").unwrap();
    let mut out = Vec::new();
    let mut one = [0u8; 1];
    loop {
        let n = f.read(&mut one).unwrap();
        if n == 0 {
            break;
        }
        out.push(one[0]);
    }
    assert_eq!(out, b"hi\n".to_vec());
    assert_eq!(f.read(&mut one), Ok(0));
    assert_eq!(read_all(&fs, "/hello.txt", 2), read_all(&fs, "/hello.txt", 100));
}

#[test]
fn directory_spanning_two_blocks() {
    let mut img = blank(5);
    compact_inode(&mut img, 0, 0, 0o040755, 2 * BS as u32, 2);
    compact_inode(&mut img, 1, 0, 0o100644, 0, 0);
    compact_inode(&mut img, 2, 0, 0o100644, 0, 0);
    compact_inode(&mut img, 3, 0, 0o100644, 0, 0);
    compact_inode(&mut img, 4, 0, 0o100644, 0, 0);
    dir_block(&mut img, 2, &[("alpha", 1, 1), ("beta", 2, 1)]);
    dir_block(&mut img, 3, &[("gamma", 3, 1), ("delta", 4, 1)]);
    let fs = EroFS::new(SliceImage::new(&img)).unwrap();
    let root = fs.read_inode(0).unwrap();
    let names: Vec<Vec<u8>> = fs
        .read_dir(&root)
        .unwrap()
        .into_iter()
        .map(|e| e.unwrap().name)
        .collect();
    let want: Vec<Vec<u8>> = ["alpha", "beta", "gamma", "delta"].iter().map(|s| s.as_bytes().to_vec()).collect();
    assert_eq!(names, want);
    assert_eq!(fs.resolve("/delta"), Ok(4));
    assert_eq!(fs.resolve("/beta"), Ok(2));
}

#[test]
fn inline_tail_matches_locator() {
    let mut img = blank(6);
    compact_inode(&mut img, 0, 0, 0o040755, BS as u32, 2);
    // Inline file: one full block at block 4, five tail bytes after the record.
    compact_inode(&mut img, 2, 2, 0o100644, (BS + 5) as u32, 4);
    dir_block(&mut img, 2, &[("tail", 2, 1)]);
    for i in 0..BS {
        img[4 * BS + i] = (i % 251) as u8;
    }
    let tail_at = BS + 2 * 32 + 32;
    img[tail_at..tail_at + 5].copy_from_slice(b"TAIL!");
    let fs = EroFS::new(SliceImage::new(&img)).unwrap();
    let data = read_all(&fs, "/tail", 7);
    assert_eq!(data.len(), BS + 5);
    assert_eq!(&data[BS..], b"TAIL!");
    assert_eq!(data[10], 10);
    let ino = fs.read_inode(2).unwrap();
    assert_eq!(ino.layout, Layout::Inline);
    let e = fs.locate(&ino, BS as u64).unwrap();
    assert_eq!(e, Extent::Inline { pos: tail_at as u64, len: 5 });
    assert_eq!(fs.read_extent(&e).unwrap(), data[BS..].to_vec());
    let mid = fs.locate(&ino, BS as u64 + 2).unwrap();
    assert_eq!(mid, Extent::Inline { pos: tail_at as u64 + 2, len: 3 });
}

#[test]
fn chunked_file_with_hole() {
    let mut img = blank(8);
    compact_inode(&mut img, 0, 0, 0o040755, BS as u32, 2);
    // Chunked file of three one-block chunks; the middle one is unmapped.
    compact_inode(&mut img, 2, 4, 0o100644, (3 * BS) as u32, 0);
    dir_block(&mut img, 2, &[("sparse", 2, 1)]);
    let index_at = BS + 2 * 32 + 32;
    put32(&mut img, index_at, 5);
    put32(&mut img, index_at + 4, 0xFFFF_FFFF);
    put32(&mut img, index_at + 8, 6);
    for i in 0..BS {
        img[5 * BS + i] = 0xAA;
        img[6 * BS + i] = 0xBB;
    }
    let fs = EroFS::new(SliceImage::new(&img)).unwrap();
    let data = read_all(&fs, "/sparse", 1000);
    assert_eq!(data.len(), 3 * BS);
    assert!(data[..BS].iter().all(|b| *b == 0xAA));
    assert!(data[BS..2 * BS].iter().all(|b| *b == 0));
    assert!(data[2 * BS..].iter().all(|b| *b == 0xBB));
    let ino = fs.read_inode(2).unwrap();
    assert_eq!(fs.locate(&ino, BS as u64 + 10), Ok(Extent::Hole { len: BS as u64 - 10 }));
    assert_eq!(fs.locate(&ino, 2 * BS as u64), Ok(Extent::Mapped { pos: 6 * BS as u64, len: BS as u64 }));
}

#[test]
fn locate_boundaries() {
    let img = hello_image();
    let fs = EroFS::new(SliceImage::new(&img)).unwrap();
    let ino = fs.read_inode(1).unwrap();
    assert_eq!(ino.data_size(), 3);
    assert_eq!(fs.locate(&ino, 3), Err(Error::OutOfBounds));
    assert_eq!(fs.locate(&ino, 4), Err(Error::OutOfBounds));
    assert_eq!(fs.locate(&ino, 2), Ok(Extent::Mapped { pos: 3 * BS as u64 + 2, len: 1 }));
    assert_eq!(fs.locate(&ino, 0), Ok(Extent::Mapped { pos: 3 * BS as u64, len: 3 }));
}

#[test]
fn resolve_composes_by_components() {
    let mut img = blank(6);
    compact_inode(&mut img, 0, 0, 0o040755, BS as u32, 2);
    compact_inode(&mut img, 1, 0, 0o040755, BS as u32, 3);
    compact_inode(&mut img, 2, 0, 0o040755, BS as u32, 4);
    compact_inode(&mut img, 3, 0, 0o100644, 0, 0);
    dir_block(&mut img, 2, &[("a", 1, 2)]);
    dir_block(&mut img, 3, &[("b", 2, 2)]);
    dir_block(&mut img, 4, &[("c", 3, 1)]);
    let fs = EroFS::new(SliceImage::new(&img)).unwrap();
    let whole = fs.resolve("/a/b/c").unwrap();
    let a = fs.resolve("/a").unwrap();
    let b = fs.resolve_from(a, "b").unwrap();
    let c = fs.resolve_from(b, "c").unwrap();
    assert_eq!(whole, 3);
    assert_eq!(c, whole);
    assert_eq!(fs.resolve("/a/b/c"), Ok(whole));
    assert_eq!(fs.resolve("//a//b/c/"), Ok(whole));
    assert_eq!(fs.resolve("/"), Ok(0));
    assert_eq!(fs.resolve("/a/x"), Err(Error::NotFound));
    assert_eq!(fs.resolve("/a/b/c/d"), Err(Error::NotADirectory));
}

#[test]
fn walk_visits_each_node_once() {
    let mut img = blank(6);
    compact_inode(&mut img, 0, 0, 0o040755, BS as u32, 2);
    compact_inode(&mut img, 1, 0, 0o040755, BS as u32, 3);
    compact_inode(&mut img, 2, 0, 0o100644, 3, 4);
    dir_block(&mut img, 2, &[(".", 0, 2), ("..", 0, 2), ("d", 1, 2)]);
    // `d` also lists the root under another name: a cycle.
    dir_block(&mut img, 3, &[(".", 1, 2), ("..", 0, 2), ("f", 2, 1), ("loop", 0, 2)]);
    let fs = EroFS::new(SliceImage::new(&img)).unwrap();
    let items = fs.walk_dir("/").unwrap();
    let paths: Vec<Vec<u8>> = items.iter().filter_map(|r| r.as_ref().ok()).map(|w| w.path.clone()).collect();
    assert_eq!(paths, vec![b"/d".to_vec(), b"/d/f".to_vec()]);
    let errors: Vec<Error> = items.iter().filter_map(|r| r.as_ref().err().copied()).collect();
    assert_eq!(errors, vec![Error::CorruptEntry]);
    let f = items[1].as_ref().unwrap();
    assert_eq!(f.inode.kind(), NodeKind::Regular);
    assert_eq!(f.inode.data_size(), 3);
}

#[test]
fn decoding_twice_gives_the_same_inode() {
    let img = hello_image();
    let fs = EroFS::new(SliceImage::new(&img)).unwrap();
    assert_eq!(fs.read_inode(1), fs.read_inode(1));
    let ino = fs.read_inode(1).unwrap();
    assert_eq!(ino.mtime, 1_700_000_000);
    assert_eq!(ino.permissions(), 0o644);
    assert!(!ino.extended);
}

#[test]
fn extended_inode_fields() {
    let mut img = hello_image();
    let at = BS + 4 * 32;
    put16(&mut img, at, 1);
    put16(&mut img, at + 4, 0o100600);
    put64(&mut img, at + 8, 3);
    put32(&mut img, at + 16, 3);
    put32(&mut img, at + 24, 1000);
    put32(&mut img, at + 28, 1001);
    put64(&mut img, at + 32, 42);
    put32(&mut img, at + 44, 2);
    let fs = EroFS::new(SliceImage::new(&img)).unwrap();
    let ino = fs.read_inode(4).unwrap();
    assert!(ino.extended);
    assert_eq!((ino.uid, ino.gid, ino.mtime, ino.nlink, ino.size), (1000, 1001, 42, 2, 3));
    let mut f = fs.open_inode_file(ino);
    assert_eq!(f.read_to_end(3).unwrap(), b"hi\n".to_vec());
    assert_eq!(f.size(), 3);
}

#[test]
fn superblock_errors() {
    let short = vec![0u8; 1100];
    assert!(matches!(EroFS::new(SliceImage::new(&short)), Err(Error::Truncated)));
    let mut bad = hello_image();
    bad[1024] = 0;
    assert!(matches!(EroFS::new(SliceImage::new(&bad)), Err(Error::MalformedImage)));
    let mut bits = hello_image();
    bits[1024 + 12] = 20;
    assert!(matches!(EroFS::new(SliceImage::new(&bits)), Err(Error::MalformedImage)));
    let mut root_file = hello_image();
    compact_inode(&mut root_file, 0, 0, 0o100644, 3, 3);
    assert!(matches!(EroFS::new(SliceImage::new(&root_file)), Err(Error::MalformedImage)));
}

#[test]
fn inode_errors() {
    let mut img = hello_image();
    compact_inode(&mut img, 5, 1, 0o100644, 3, 3);
    let fs = EroFS::new(SliceImage::new(&img)).unwrap();
    assert_eq!(fs.read_inode(5), Err(Error::UnsupportedLayout));
    assert_eq!(fs.read_inode(1 << 40), Err(Error::InvalidNodeId));
    assert_eq!(fs.read_inode(u64::MAX), Err(Error::InvalidNodeId));
    let file = fs.read_inode(1).unwrap();
    assert!(matches!(fs.read_dir(&file), Err(Error::NotADirectory)));
    assert_eq!(fs.resolve("/nope"), Err(Error::NotFound));
}

#[test]
fn corrupt_entries_are_per_entry() {
    let mut block = vec![0u8; 64];
    put64(&mut block, 0, 7);
    put16(&mut block, 8, 24);
    block[10] = 1;
    put64(&mut block, 12, 8);
    put16(&mut block, 20, 26);
    block[22] = 9;
    block[24..28].copy_from_slice(b"okxy");
    let entries = parse_dir_block(&block);
    assert_eq!(entries.len(), 2);
    let first = entries[0].as_ref().unwrap();
    assert_eq!(first.name, b"ok".to_vec());
    assert_eq!(first.nid, 7);
    assert_eq!(entries[1], Err(Error::CorruptEntry));
    let broken = vec![0u8; 5];
    assert_eq!(parse_dir_block(&broken), vec![Err(Error::CorruptEntry)]);
}

#[test]
fn truncated_data_block() {
    let mut img = hello_image();
    compact_inode(&mut img, 1, 0, 0o100644, 3, 100);
    let fs = EroFS::new(SliceImage::new(&img)).unwrap();
    let ino = fs.read_inode(1).unwrap();
    assert_eq!(fs.locate(&ino, 0), Err(Error::Truncated));
    let mut f = fs.open("/hello.txt").unwrap();
    assert_eq!(f.read_to_end(8), Err(Error::Truncated));
}

#[test]
fn slice_image_ranges() {
    let data = b"Hello, world!";
    let image = SliceImage::new(data);
    assert_eq!(image.get(0, 5), Some(&b"Hello"[..]));
    assert_eq!(image.get(100, 200), None);
    assert_eq!(image.get(5, 3), None);
    assert_eq!(image.len(), 13);
    assert!(!image.is_empty());
    assert!(SliceImage::new(&[]).is_empty());
}

#[test]
fn path_splitting() {
    let parts = split_path(b"/a//bc/");
    assert_eq!(parts, vec![b"a".to_vec(), b"bc".to_vec()]);
    assert!(split_path(b"/").is_empty());
}

#[test]
fn reader_last_byte_and_end() {
    let img = hello_image();
    let fs = EroFS::new(SliceImage::new(&img)).unwrap();
    let mut f = fs.open("/hello.txt").unwrap();
    let mut two = [0u8; 2];
    assert_eq!(f.read(&mut two), Ok(2));
    assert_eq!(&two, b"hi");
    let mut buf = [7u8; 4];
    assert_eq!(f.read(&mut buf), Ok(1));
    assert_eq!(buf, [b'\n', 7, 7, 7]);
    assert_eq!(f.read(&mut buf), Ok(0));
    assert_eq!(buf, [b'\n', 7, 7, 7]);
    let mut empty: [u8; 0] = [];
    assert_eq!(f.read(&mut empty), Ok(0));
}

#[test]
fn walk_root_errors() {
    let img = hello_image();
    let fs = EroFS::new(SliceImage::new(&img)).unwrap();
    assert!(matches!(fs.walk_dir("/hello.txt"), Err(Error::NotADirectory)));
    assert!(matches!(fs.walk_dir("/missing"), Err(Error::NotFound)));
    let items = fs.walk_dir("/").unwrap();
    assert_eq!(items.len(), 1);
    let w = items[0].as_ref().unwrap();
    assert_eq!(w.path, b"/hello.txt".to_vec());
    assert_eq!(w.dir_entry.file_type(), FileType::Regular);
    assert_eq!(w.inode.data_size(), 3);
}
