//! End-to-end scenarios on hand-built SquashFS images.

use squashfs_core::error::SquashfsError;
use squashfs_core::filesystem::FilesystemReader;
use squashfs_core::filesystem::InnerNode;
use squashfs_core::inode::BasicFile;
use squashfs_core::compressor::CompressionOptions;
use squashfs_core::compressor::Compressor;
use squashfs_core::squashfs::Squashfs;
use squashfs_core::reader::SquashfsReader;
use squashfs_core::superblock::SuperBlock;
use std::io::Write;

const NOT_SET: u64 = 0xffff_ffff_ffff_ffff;

fn p16(v: &mut Vec<u8>, x: u16) {
    v.extend_from_slice(&x.to_le_bytes());
}

fn p32(v: &mut Vec<u8>, x: u32) {
    v.extend_from_slice(&x.to_le_bytes());
}

fn p64(v: &mut Vec<u8>, x: u64) {
    v.extend_from_slice(&x.to_le_bytes());
}

struct Sb {
    magic: u32,
    inode_count: u32,
    mod_time: u32,
    block_size: u32,
    frag_count: u32,
    compressor: u16,
    block_log: u16,
    flags: u16,
    id_count: u16,
    version_major: u16,
    version_minor: u16,
    root_inode: u64,
    bytes_used: u64,
    id_table: u64,
    xattr_table: u64,
    inode_table: u64,
    dir_table: u64,
    frag_table: u64,
    export_table: u64,
}

impl Sb {
    fn new() -> Sb {
        Sb {
            magic: 0x73717368,
            inode_count: 1,
            mod_time: 0,
            block_size: 0x20000,
            frag_count: 0,
            compressor: 0,
            block_log: 0x11,
            flags: 0,
            id_count: 0,
            version_major: 4,
            version_minor: 0,
            root_inode: 0,
            bytes_used: 0,
            id_table: NOT_SET,
            xattr_table: NOT_SET,
            inode_table: 96,
            dir_table: 0,
            frag_table: NOT_SET,
            export_table: NOT_SET,
        }
    }

    fn bytes(&self) -> Vec<u8> {
        let mut v = Vec::new();
        p32(&mut v, self.magic);
        p32(&mut v, self.inode_count);
        p32(&mut v, self.mod_time);
        p32(&mut v, self.block_size);
        p32(&mut v, self.frag_count);
        p16(&mut v, self.compressor);
        p16(&mut v, self.block_log);
        p16(&mut v, self.flags);
        p16(&mut v, self.id_count);
        p16(&mut v, self.version_major);
        p16(&mut v, self.version_minor);
        p64(&mut v, self.root_inode);
        p64(&mut v, self.bytes_used);
        p64(&mut v, self.id_table);
        p64(&mut v, self.xattr_table);
        p64(&mut v, self.inode_table);
        p64(&mut v, self.dir_table);
        p64(&mut v, self.frag_table);
        p64(&mut v, self.export_table);
        assert_eq!(v.len(), 96);
        v
    }
}

/// An uncompressed metadata block: bit 15 of the header set.
fn meta_unc(payload: &[u8]) -> Vec<u8> {
    let mut v = Vec::new();
    p16(&mut v, 0x8000 | payload.len() as u16);
    v.extend_from_slice(payload);
    v
}

fn inode_header(t: u16, num: u32) -> Vec<u8> {
    let mut v = Vec::new();
    p16(&mut v, t);
    p16(&mut v, 0o755);
    p16(&mut v, 0);
    p16(&mut v, 0);
    p32(&mut v, 0);
    p32(&mut v, num);
    v
}

fn dir_inode(num: u32, block_index: u32, file_size: u16, block_offset: u16, parent: u32) -> Vec<u8> {
    let mut v = inode_header(1, num);
    p32(&mut v, block_index);
    p32(&mut v, 2);
    p16(&mut v, file_size);
    p16(&mut v, block_offset);
    p32(&mut v, parent);
    v
}

fn file_inode(num: u32, blocks_start: u32, frag: u32, boff: u32, fsize: u32, sizes: &[u32]) -> Vec<u8> {
    let mut v = inode_header(2, num);
    p32(&mut v, blocks_start);
    p32(&mut v, frag);
    p32(&mut v, boff);
    p32(&mut v, fsize);
    for s in sizes {
        p32(&mut v, *s);
    }
    v
}

fn symlink_inode(num: u32, target: &[u8]) -> Vec<u8> {
    let mut v = inode_header(3, num);
    p32(&mut v, 1);
    p32(&mut v, target.len() as u32);
    v.extend_from_slice(target);
    v
}

fn dev_inode(t: u16, num: u32, devno: u32) -> Vec<u8> {
    let mut v = inode_header(t, num);
    p32(&mut v, 1);
    p32(&mut v, devno);
    v
}

fn dir_header(count: u32, start: u32, inode_num: u32) -> Vec<u8> {
    let mut v = Vec::new();
    p32(&mut v, count);
    p32(&mut v, start);
    p32(&mut v, inode_num);
    v
}

fn dir_entry(offset: u16, ioff: i16, t: u16, name: &[u8]) -> Vec<u8> {
    let mut v = Vec::new();
    p16(&mut v, offset);
    p16(&mut v, ioff as u16);
    p16(&mut v, t);
    p16(&mut v, (name.len() - 1) as u16);
    v.extend_from_slice(name);
    v
}

fn zlib_compress(data: &[u8]) -> Vec<u8> {
    let mut enc = flate2::write::ZlibEncoder::new(Vec::new(), flate2::Compression::default());
    enc.write_all(data).unwrap();
    enc.finish().unwrap()
}

/// The smallest archive: only the root directory, empty.
fn empty_dir_image() -> Vec<u8> {
    let root = dir_inode(1, 0, 3, 0, 1);
    let inode_block = meta_unc(&root);
    let mut sb = Sb::new();
    sb.inode_count = 1;
    sb.root_inode = 0;
    sb.inode_table = 96;
    sb.dir_table = 96 + inode_block.len() as u64;
    sb.bytes_used = sb.dir_table;
    let mut img = sb.bytes();
    img.extend_from_slice(&inode_block);
    img
}

#[test]
fn empty_dir_has_no_nodes() {
    let a = Squashfs::from_reader(empty_dir_image()).unwrap();
    assert_eq!(a.superblock.inode_count, 1);
    let root_type = a.root_inode.type_id();
    assert!(root_type == 1 || root_type == 8);
    let fr = a.into_filesystem_reader().unwrap();
    assert_eq!(fr.nodes.len(), 0);
}

/// `/hello` holding `"Hello, world!\n"` in one gzip-compressed fragment,
/// with 4 KiB blocks.
fn single_file_image() -> (Vec<u8>, usize) {
    let content = b"Hello, world!\n";
    let frag_data = zlib_compress(content);
    let frag_len = frag_data.len();
    let inode_table = 96 + frag_len as u64;

    let mut inodes = file_inode(1, 0, 0, 0, 14, &[]);
    let root_off = inodes.len() as u64; // 32
    inodes.extend_from_slice(&dir_inode(2, 0, 28, 0, 2));
    let inode_block = meta_unc(&inodes);

    let mut listing = dir_header(0, 0, 1);
    listing.extend_from_slice(&dir_entry(0, 0, 2, b"hello"));
    assert_eq!(listing.len(), 25);
    let dir_block = meta_unc(&listing);

    let dir_table = inode_table + inode_block.len() as u64;
    let frag_meta_pos = dir_table + dir_block.len() as u64;
    let mut frag_entry = Vec::new();
    p64(&mut frag_entry, 96);
    p32(&mut frag_entry, frag_len as u32); // bit 24 clear: compressed
    p32(&mut frag_entry, 0);
    let frag_block = meta_unc(&frag_entry);
    let frag_table = frag_meta_pos + frag_block.len() as u64;

    let mut sb = Sb::new();
    sb.inode_count = 2;
    sb.block_size = 4096;
    sb.block_log = 12;
    sb.compressor = 1;
    sb.frag_count = 1;
    sb.frag_table = frag_table;
    sb.root_inode = root_off;
    sb.inode_table = inode_table;
    sb.dir_table = dir_table;
    sb.bytes_used = frag_table + 8;

    let mut img = sb.bytes();
    img.extend_from_slice(&frag_data);
    img.extend_from_slice(&inode_block);
    img.extend_from_slice(&dir_block);
    img.extend_from_slice(&frag_block);
    p64(&mut img, frag_meta_pos);
    (img, frag_len)
}

#[test]
fn single_file_tree_and_content() {
    let (img, frag_len) = single_file_image();
    let a = Squashfs::from_reader(img).unwrap();
    assert_eq!(a.superblock.inode_count, 2);
    let frags = a.fragments.as_ref().unwrap();
    assert_eq!(frags.len(), 1);
    assert!(frags[0].size & 0xffffff <= 30);
    assert_eq!(frags[0].size & 0xffffff, frag_len as u32);
    let mut fr = a.into_filesystem_reader().unwrap();
    assert_eq!(fr.nodes.len(), 1);
    assert_eq!(fr.nodes[0].path, b"/hello".to_vec());
    let basic = match &fr.nodes[0].inner {
        InnerNode::File(f) => {
            assert_eq!(f.basic.file_size, 14);
            clone_basic(&f.basic)
        },
        _ => panic!("expected a file node"),
    };
    let bytes = fr.read_file(&basic).unwrap();
    assert_eq!(bytes, b"Hello, world!\n".to_vec());
    // a second read serves the fragment from the cache and must agree
    let again = fr.read_file(&basic).unwrap();
    assert_eq!(again, bytes);
}

fn clone_basic(f: &BasicFile) -> BasicFile {
    BasicFile {
        blocks_start: f.blocks_start,
        frag: f.frag,
        block_offset: f.block_offset,
        file_size: f.file_size,
        block_sizes: f.block_sizes.clone(),
    }
}

/// `/a/b/c.txt` where `c.txt` is 1 MiB of `0x41` in eight uncompressed
/// 128 KiB data blocks, no fragment.
fn nested_dirs_image() -> Vec<u8> {
    let data = vec![0x41u8; 1048576];
    let inode_table = 96 + data.len() as u64;

    let mut inodes = file_inode(1, 96, 0xffff_ffff, 0, 1048576, &[0x0102_0000; 8]);
    assert_eq!(inodes.len(), 64);
    inodes.extend_from_slice(&dir_inode(2, 0, 28, 42, 3)); // b
    inodes.extend_from_slice(&dir_inode(3, 0, 24, 21, 4)); // a
    let root_off = inodes.len() as u64; // 128
    inodes.extend_from_slice(&dir_inode(4, 0, 24, 0, 4));
    let inode_block = meta_unc(&inodes);

    let mut listing = dir_header(0, 0, 3);
    listing.extend_from_slice(&dir_entry(96, 0, 1, b"a"));
    assert_eq!(listing.len(), 21);
    listing.extend_from_slice(&dir_header(0, 0, 2));
    listing.extend_from_slice(&dir_entry(64, 0, 1, b"b"));
    assert_eq!(listing.len(), 42);
    listing.extend_from_slice(&dir_header(0, 0, 1));
    listing.extend_from_slice(&dir_entry(0, 0, 2, b"c.txt"));
    let dir_block = meta_unc(&listing);

    let dir_table = inode_table + inode_block.len() as u64;
    let mut sb = Sb::new();
    sb.inode_count = 4;
    sb.root_inode = root_off;
    sb.inode_table = inode_table;
    sb.dir_table = dir_table;
    sb.bytes_used = dir_table + dir_block.len() as u64;

    let mut img = sb.bytes();
    img.extend_from_slice(&data);
    img.extend_from_slice(&inode_block);
    img.extend_from_slice(&dir_block);
    img
}

#[test]
fn nested_dirs_tree_and_content() {
    let a = Squashfs::from_reader(nested_dirs_image()).unwrap();
    assert_eq!(a.superblock.block_size, 0x20000);
    let mut fr = a.into_filesystem_reader().unwrap();
    assert_eq!(fr.nodes.len(), 3);
    assert_eq!(fr.nodes[0].path, b"/a".to_vec());
    assert!(matches!(fr.nodes[0].inner, InnerNode::Dir(_)));
    assert_eq!(fr.nodes[1].path, b"/a/b".to_vec());
    assert!(matches!(fr.nodes[1].inner, InnerNode::Dir(_)));
    assert_eq!(fr.nodes[2].path, b"/a/b/c.txt".to_vec());
    let basic = match &fr.nodes[2].inner {
        InnerNode::File(f) => {
            assert_eq!(f.basic.block_sizes.len(), 8);
            assert_eq!(f.basic.frag, 0xffff_ffff);
            clone_basic(&f.basic)
        },
        _ => panic!("expected a file node"),
    };
    let bytes = fr.read_file(&basic).unwrap();
    assert_eq!(bytes.len(), 1048576);
    assert!(bytes.iter().all(|b| *b == 0x41));
}

#[test]
fn nested_dirs_all_dirs() {
    let a = Squashfs::from_reader(nested_dirs_image()).unwrap();
    let dirs = a.all_dirs().unwrap();
    assert_eq!(dirs.len(), 3);
    assert_eq!(dirs[0].dir_entries.len(), 1);
    assert_eq!(dirs[0].dir_entries[0].name, b"a".to_vec());
}

#[test]
fn inode_numbers_are_exactly_one_through_count() {
    let a = Squashfs::from_reader(nested_dirs_image()).unwrap();
    for k in 1u32..=4 {
        assert!(a.inodes.get(&k).is_some());
    }
    assert!(a.inodes.get(&0).is_none());
    assert!(a.inodes.get(&5).is_none());
    assert_eq!(a.inodes.len(), 4);
}

/// `/link -> target`.
fn symlink_image() -> Vec<u8> {
    let mut inodes = symlink_inode(1, b"target");
    let root_off = inodes.len() as u64; // 30
    inodes.extend_from_slice(&dir_inode(2, 0, 27, 0, 2));
    let inode_block = meta_unc(&inodes);

    let mut listing = dir_header(0, 0, 1);
    listing.extend_from_slice(&dir_entry(0, 0, 3, b"link"));
    assert_eq!(listing.len(), 24);
    let dir_block = meta_unc(&listing);

    let dir_table = 96 + inode_block.len() as u64;
    let mut sb = Sb::new();
    sb.inode_count = 2;
    sb.root_inode = root_off;
    sb.dir_table = dir_table;
    sb.bytes_used = dir_table + dir_block.len() as u64;

    let mut img = sb.bytes();
    img.extend_from_slice(&inode_block);
    img.extend_from_slice(&dir_block);
    img
}

#[test]
fn symlink_node() {
    let a = Squashfs::from_reader(symlink_image()).unwrap();
    let fr = a.into_filesystem_reader().unwrap();
    assert_eq!(fr.nodes.len(), 1);
    assert_eq!(fr.nodes[0].path, b"/link".to_vec());
    match &fr.nodes[0].inner {
        InnerNode::Symlink(s) => {
            assert_eq!(s.original, b"link".to_vec());
            assert_eq!(s.link, b"target".to_vec());
        },
        _ => panic!("expected a symlink node"),
    }
}

/// `/dev/null` (char 1:3) and `/dev/sda` (block 8:0).
fn device_nodes_image() -> Vec<u8> {
    let mut inodes = dev_inode(5, 1, (1 << 8) | 3);
    assert_eq!(inodes.len(), 24);
    inodes.extend_from_slice(&dev_inode(4, 2, 8 << 8));
    inodes.extend_from_slice(&dir_inode(3, 0, 38, 23, 4)); // dev, at 48
    let root_off = inodes.len() as u64; // 80
    inodes.extend_from_slice(&dir_inode(4, 0, 26, 0, 4));
    let inode_block = meta_unc(&inodes);

    let mut listing = dir_header(0, 0, 3);
    listing.extend_from_slice(&dir_entry(48, 0, 1, b"dev"));
    assert_eq!(listing.len(), 23);
    listing.extend_from_slice(&dir_header(1, 0, 1));
    listing.extend_from_slice(&dir_entry(0, 0, 5, b"null"));
    listing.extend_from_slice(&dir_entry(24, 1, 4, b"sda"));
    assert_eq!(listing.len(), 23 + 35);
    let dir_block = meta_unc(&listing);

    let dir_table = 96 + inode_block.len() as u64;
    let mut sb = Sb::new();
    sb.inode_count = 4;
    sb.root_inode = root_off;
    sb.dir_table = dir_table;
    sb.bytes_used = dir_table + dir_block.len() as u64;

    let mut img = sb.bytes();
    img.extend_from_slice(&inode_block);
    img.extend_from_slice(&dir_block);
    img
}

#[test]
fn device_nodes() {
    let a = Squashfs::from_reader(device_nodes_image()).unwrap();
    let fr = a.into_filesystem_reader().unwrap();
    assert_eq!(fr.nodes.len(), 3);
    assert_eq!(fr.nodes[0].path, b"/dev".to_vec());
    assert_eq!(fr.nodes[1].path, b"/dev/null".to_vec());
    match &fr.nodes[1].inner {
        InnerNode::CharacterDevice(c) => assert_eq!(c.device_number, (1 << 8) | 3),
        _ => panic!("expected a character device"),
    }
    assert_eq!(fr.nodes[2].path, b"/dev/sda".to_vec());
    match &fr.nodes[2].inner {
        InnerNode::BlockDevice(b) => assert_eq!(b.device_number, 8 << 8),
        _ => panic!("expected a block device"),
    }
}

#[test]
fn export_and_id_tables_are_read() {
    // empty root, plus a one-entry export table and a one-entry id table
    let root = dir_inode(1, 0, 3, 0, 1);
    let inode_block = meta_unc(&root);
    let inode_end = 96 + inode_block.len() as u64; // 130
    let mut export_entry = Vec::new();
    p64(&mut export_entry, 42);
    let export_block = meta_unc(&export_entry); // 10 bytes at 130
    let mut id_entry = Vec::new();
    p32(&mut id_entry, 7);
    let id_block = meta_unc(&id_entry); // 6 bytes at 140
    let export_ptr_pos = inode_end + export_block.len() as u64 + id_block.len() as u64; // 146
    let id_ptr_pos = export_ptr_pos + 8; // 154

    let mut sb = Sb::new();
    sb.inode_count = 1;
    sb.flags = 0x0080;
    sb.id_count = 1;
    sb.dir_table = inode_end;
    sb.export_table = export_ptr_pos;
    sb.id_table = id_ptr_pos;
    sb.bytes_used = id_ptr_pos + 8;
    let mut img = sb.bytes();
    img.extend_from_slice(&inode_block);
    img.extend_from_slice(&export_block);
    img.extend_from_slice(&id_block);
    p64(&mut img, inode_end); // export indirection: the export block
    p64(&mut img, inode_end + export_block.len() as u64); // id indirection

    let a = Squashfs::from_reader(img).unwrap();
    let export = a.export.as_ref().unwrap();
    assert_eq!(export.len(), 1);
    assert_eq!(export[0].0, 42);
    let id = a.id.as_ref().unwrap();
    assert_eq!(id.len(), 1);
    assert_eq!(id[0].0, 7);
    assert_eq!(a.dir_blocks.len(), 0);
}

#[test]
fn reader_addressing() {
    let mut r = SquashfsReader::new(vec![0u8; 16], 5);
    assert_eq!(r.addr(10), Ok(15));
    assert!(r.seek_from_start(3).is_ok());
    assert_eq!(r.stream_position(), Ok(3));
    assert_eq!(r.addr(u64::MAX), Err(SquashfsError::Truncated));
}

#[test]
fn corrupted_magic_is_bad_magic() {
    let mut img = empty_dir_image();
    img[0] = b'X';
    img[1] = b'X';
    img[2] = b'X';
    img[3] = b'X';
    match Squashfs::from_reader(img) {
        Err(SquashfsError::BadMagic) => (),
        _ => panic!("expected BadMagic"),
    }
}

#[test]
fn parsing_twice_is_identical() {
    let img = nested_dirs_image();
    let a1 = Squashfs::from_reader(img.clone()).unwrap();
    let a2 = Squashfs::from_reader(img).unwrap();
    assert_eq!(a1.superblock, a2.superblock);
    assert_eq!(a1.data_and_fragments, a2.data_and_fragments);
    assert_eq!(a1.inodes.len(), a2.inodes.len());
    let fr1 = a1.into_filesystem_reader().unwrap();
    let fr2 = a2.into_filesystem_reader().unwrap();
    assert_eq!(fr1.nodes.len(), fr2.nodes.len());
    for (n1, n2) in fr1.nodes.iter().zip(fr2.nodes.iter()) {
        assert_eq!(n1.path, n2.path);
    }
}

#[test]
fn wrong_version_is_rejected() {
    let mut img = empty_dir_image();
    img[28] = 5; // version_major
    assert!(matches!(Squashfs::from_reader(img), Err(SquashfsError::WrongVersion)));
}

#[test]
fn block_size_disagreeing_with_log_is_rejected() {
    let mut img = empty_dir_image();
    img[22] = 0x10; // block_log 16, block_size still 0x20000
    assert!(matches!(
        Squashfs::from_reader(img),
        Err(SquashfsError::InconsistentBlockSize)
    ));
}

#[test]
fn block_size_out_of_range_is_rejected() {
    let mut img = empty_dir_image();
    // block_size 2048, block_log 11: consistent but under 4096
    img[12] = 0x00;
    img[13] = 0x08;
    img[14] = 0x00;
    img[15] = 0x00;
    img[22] = 11;
    assert!(matches!(
        Squashfs::from_reader(img),
        Err(SquashfsError::InconsistentBlockSize)
    ));
}

#[test]
fn unknown_compressor_tag_is_rejected() {
    let mut img = empty_dir_image();
    img[20] = 9;
    assert!(matches!(Squashfs::from_reader(img), Err(SquashfsError::DecompressError)));
}

#[test]
fn short_image_is_truncated() {
    let img = empty_dir_image();
    assert!(matches!(
        Squashfs::from_reader(img[..50].to_vec()),
        Err(SquashfsError::Truncated)
    ));
}

#[test]
fn zero_length_metadata_header_is_invalid() {
    // an inode table holding a single header that declares no payload
    let mut sb = Sb::new();
    sb.inode_count = 1;
    sb.dir_table = 98;
    sb.bytes_used = 98;
    let mut img = sb.bytes();
    p16(&mut img, 0x8000);
    assert!(matches!(
        Squashfs::from_reader(img),
        Err(SquashfsError::InvalidMetadataHeader)
    ));
}

#[test]
fn wrong_inode_count_is_corrupt_table() {
    let mut img = empty_dir_image();
    img[4] = 2; // inode_count 2, table holds 1
    assert!(matches!(
        Squashfs::from_reader(img),
        Err(SquashfsError::CorruptInodeTable)
    ));
}

#[test]
fn duplicate_inode_numbers_are_corrupt() {
    // two directory inodes both numbered 1
    let mut inodes = dir_inode(1, 0, 3, 0, 1);
    let root_off = inodes.len() as u64;
    inodes.extend_from_slice(&dir_inode(1, 0, 3, 0, 1));
    let inode_block = meta_unc(&inodes);
    let mut sb = Sb::new();
    sb.inode_count = 2;
    sb.root_inode = root_off;
    sb.dir_table = 96 + inode_block.len() as u64;
    sb.bytes_used = sb.dir_table;
    let mut img = sb.bytes();
    img.extend_from_slice(&inode_block);
    assert!(matches!(
        Squashfs::from_reader(img),
        Err(SquashfsError::CorruptInodeTable)
    ));
}

#[test]
fn undefined_inode_type_tag_is_rejected() {
    let mut img = empty_dir_image();
    img[96 + 2] = 99; // type tag of the only inode
    assert!(matches!(
        Squashfs::from_reader(img),
        Err(SquashfsError::UnknownInodeType)
    ));
}

#[test]
fn entry_to_missing_inode_is_dangling() {
    // like the symlink image, but the entry points at inode 2 + 5
    let mut inodes = symlink_inode(1, b"target");
    let root_off = inodes.len() as u64;
    inodes.extend_from_slice(&dir_inode(2, 0, 27, 0, 2));
    let inode_block = meta_unc(&inodes);
    let mut listing = dir_header(0, 0, 1);
    listing.extend_from_slice(&dir_entry(0, 5, 3, b"link"));
    let dir_block = meta_unc(&listing);
    let dir_table = 96 + inode_block.len() as u64;
    let mut sb = Sb::new();
    sb.inode_count = 2;
    sb.root_inode = root_off;
    sb.dir_table = dir_table;
    sb.bytes_used = dir_table + dir_block.len() as u64;
    let mut img = sb.bytes();
    img.extend_from_slice(&inode_block);
    img.extend_from_slice(&dir_block);
    let a = Squashfs::from_reader(img).unwrap();
    assert!(matches!(
        a.into_filesystem_reader(),
        Err(SquashfsError::DanglingInodeReference)
    ));
}

#[test]
fn self_referential_directory_is_cyclic() {
    // root -> a, and a's listing names a itself
    let mut inodes = dir_inode(1, 0, 24, 21, 2); // a, listing at offset 21
    let root_off = inodes.len() as u64;
    inodes.extend_from_slice(&dir_inode(2, 0, 24, 0, 2));
    let inode_block = meta_unc(&inodes);
    let mut listing = dir_header(0, 0, 1);
    listing.extend_from_slice(&dir_entry(0, 0, 1, b"a"));
    assert_eq!(listing.len(), 21);
    listing.extend_from_slice(&dir_header(0, 0, 1));
    listing.extend_from_slice(&dir_entry(0, 0, 1, b"z"));
    let dir_block = meta_unc(&listing);
    let dir_table = 96 + inode_block.len() as u64;
    let mut sb = Sb::new();
    sb.inode_count = 2;
    sb.root_inode = root_off;
    sb.dir_table = dir_table;
    sb.bytes_used = dir_table + dir_block.len() as u64;
    let mut img = sb.bytes();
    img.extend_from_slice(&inode_block);
    img.extend_from_slice(&dir_block);
    let a = Squashfs::from_reader(img).unwrap();
    assert!(matches!(
        a.into_filesystem_reader(),
        Err(SquashfsError::CyclicDirectory)
    ));
}

#[test]
fn listing_past_dir_table_is_corrupt() {
    let mut inodes = symlink_inode(1, b"target");
    let root_off = inodes.len() as u64;
    inodes.extend_from_slice(&dir_inode(2, 0, 2000, 0, 2)); // listing longer than the table
    let inode_block = meta_unc(&inodes);
    let mut listing = dir_header(0, 0, 1);
    listing.extend_from_slice(&dir_entry(0, 0, 3, b"link"));
    let dir_block = meta_unc(&listing);
    let dir_table = 96 + inode_block.len() as u64;
    let mut sb = Sb::new();
    sb.inode_count = 2;
    sb.root_inode = root_off;
    sb.dir_table = dir_table;
    sb.bytes_used = dir_table + dir_block.len() as u64;
    let mut img = sb.bytes();
    img.extend_from_slice(&inode_block);
    img.extend_from_slice(&dir_block);
    let a = Squashfs::from_reader(img).unwrap();
    assert!(matches!(
        a.into_filesystem_reader(),
        Err(SquashfsError::CorruptDirTable)
    ));
}

#[test]
fn empty_directory_listing_is_none() {
    let a = Squashfs::from_reader(empty_dir_image()).unwrap();
    assert!(matches!(a.dir_from_index(0, 3, 0), Ok(None)));
    assert!(matches!(a.dir_from_index(0, 0, 0), Ok(None)));
}

#[test]
fn gzip_compression_options_are_parsed() {
    // superblock + options block + inode table
    let mut opts = Vec::new();
    p32(&mut opts, 9); // compression level
    p16(&mut opts, 15); // window size
    p16(&mut opts, 0); // strategies
    let opt_block = meta_unc(&opts);
    let root = dir_inode(1, 0, 3, 0, 1);
    let inode_block = meta_unc(&root);
    let inode_table = 96 + opt_block.len() as u64;
    let mut sb = Sb::new();
    sb.compressor = 1;
    sb.block_size = 4096;
    sb.block_log = 12;
    sb.flags = 0x0400;
    sb.inode_count = 1;
    sb.inode_table = inode_table;
    sb.dir_table = inode_table + inode_block.len() as u64;
    sb.bytes_used = sb.dir_table;
    let mut img = sb.bytes();
    img.extend_from_slice(&opt_block);
    img.extend_from_slice(&inode_block);
    let a = Squashfs::from_reader(img).unwrap();
    match a.compression_options {
        Some(CompressionOptions::Gzip { compression_level, window_size, strategies }) => {
            assert_eq!(compression_level, 9);
            assert_eq!(window_size, 15);
            assert_eq!(strategies, 0);
        },
        _ => panic!("expected gzip options"),
    }
    assert!(!a.options_oversized);
}

#[test]
fn superblock_flags_and_getters() {
    let mut sb = SuperBlock::new(Compressor::Gzip);
    assert_eq!(sb.block_size, 0x20000);
    assert_eq!(sb.block_log, 0x11);
    assert_eq!(sb.version_major, 4);
    assert_eq!(sb.version_minor, 0);
    assert!(!sb.inodes_uncompressed());
    sb.flags = 0x0001 | 0x0080 | 0x0400;
    assert!(sb.inodes_uncompressed());
    assert!(sb.nfs_export_table_exists());
    assert!(sb.compressor_options_are_present());
    assert!(!sb.data_block_stored_uncompressed());
    assert!(!sb.fragments_stored_uncompressed());
    assert!(!sb.fragments_are_not_used());
    assert!(!sb.fragments_are_always_generated());
    assert!(!sb.data_has_been_duplicated());
    assert!(!sb.xattrs_are_stored_uncompressed());
    assert!(!sb.no_xattrs_in_archive());
    assert_eq!(sb.compression_options_size(), Some(8));
    sb.compressor = Compressor::Zstd;
    assert_eq!(sb.compression_options_size(), Some(4));
    sb.flags = 0;
    assert_eq!(sb.compression_options_size(), None);
}

#[test]
fn block_size_is_power_of_block_log() {
    let a = Squashfs::from_reader(empty_dir_image()).unwrap();
    assert_eq!(a.superblock.block_size, 1u32 << a.superblock.block_log);
}

#[test]
fn read_file_without_fragment_table_is_file_not_found() {
    let a = Squashfs::from_reader(empty_dir_image()).unwrap();
    let mut fr: FilesystemReader = a.into_filesystem_reader().unwrap();
    let basic = BasicFile {
        blocks_start: 0,
        frag: 0,
        block_offset: 0,
        file_size: 14,
        block_sizes: Vec::new(),
    };
    match fr.read_file(&basic) {
        Err(SquashfsError::FileNotFound) => (),
        _ => panic!("expected FileNotFound"),
    }
}

#[test]
fn read_file_length_mismatch() {
    let a = Squashfs::from_reader(empty_dir_image()).unwrap();
    let mut fr: FilesystemReader = a.into_filesystem_reader().unwrap();
    let basic = BasicFile {
        blocks_start: 0,
        frag: 0xffff_ffff,
        block_offset: 0,
        file_size: 10,
        block_sizes: Vec::new(),
    };
    match fr.read_file(&basic) {
        Err(SquashfsError::FileSizeMismatch) => (),
        _ => panic!("expected FileSizeMismatch"),
    }
}
