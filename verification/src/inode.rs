//! Inode records: a common 16-byte header followed by a type-specific body,
//! decoded from the decompressed inode-table byte stream.

use crate::error::SquashfsError;
use crate::le::le16;
use crate::le::le32;
use crate::le::le64;
use crate::le::read_u16;
use crate::le::read_u32;
use crate::le::read_u64;
use vstd::prelude::*;
use vstd::slice::slice_subrange;
use vstd::slice::slice_to_vec;

verus! {

/// A fragment reference of this value means the file uses no fragment.
pub const FRAG_NOT_USED: u32 = 0xffff_ffff;

/// The fields every inode record starts with, after the 16-bit type tag.
#[derive(Clone, Copy, Debug, PartialEq, Eq, Structural)]
pub struct InodeHeader {
    pub permissions: u16,
    /// Index into the id table giving the owner.
    pub uid: u16,
    /// Index into the id table giving the group.
    pub gid: u16,
    /// Modification time, seconds since the epoch.
    pub mod_time: u32,
    /// Unique inode number in `[1, inode_count]`.
    pub inode_number: u32,
}

#[derive(Clone, Copy, Debug, PartialEq, Eq, Structural)]
pub struct BasicDirectory {
    /// Start, relative to the directory table, of the metadata block holding
    /// this directory's listing.
    pub block_index: u32,
    pub link_count: u32,
    /// Uncompressed listing size plus the 3-byte phantom terminator.
    pub file_size: u16,
    /// Offset of the listing within its metadata block.
    pub block_offset: u16,
    pub parent_inode: u32,
}

pub struct BasicFile {
    /// Image offset of the first data block.
    pub blocks_start: u32,
    /// Index into the fragment table, or `FRAG_NOT_USED`.
    pub frag: u32,
    /// Byte offset of this file's tail inside its fragment.
    pub block_offset: u32,
    pub file_size: u32,
    /// On-disk size of each data block; bit 24 set means stored uncompressed.
    pub block_sizes: Vec<u32>,
}

pub struct BasicSymlink {
    pub link_count: u32,
    pub target_size: u32,
    pub target_path: Vec<u8>,
}

#[derive(Clone, Copy, Debug, PartialEq, Eq, Structural)]
pub struct BasicDevice {
    pub link_count: u32,
    /// `(major << 8) | minor`.
    pub device_number: u32,
}

#[derive(Clone, Copy, Debug, PartialEq, Eq, Structural)]
pub struct BasicIpc {
    pub link_count: u32,
}

pub struct DirIndex {
    pub index: u32,
    pub start: u32,
    pub name_size: u32,
    pub name: Vec<u8>,
}

pub struct ExtendedDirectory {
    pub link_count: u32,
    pub file_size: u32,
    pub block_index: u32,
    pub parent_inode: u32,
    pub index_count: u16,
    pub block_offset: u16,
    pub xattr_index: u32,
    pub dir_index: Vec<DirIndex>,
}

pub struct ExtendedFile {
    pub blocks_start: u64,
    pub file_size: u64,
    pub sparse: u64,
    pub link_count: u32,
    pub frag: u32,
    pub block_offset: u32,
    pub xattr_index: u32,
    pub block_sizes: Vec<u32>,
}

pub struct ExtendedSymlink {
    pub link_count: u32,
    pub target_size: u32,
    pub target_path: Vec<u8>,
    pub xattr_index: u32,
}

#[derive(Clone, Copy, Debug, PartialEq, Eq, Structural)]
pub struct ExtendedDevice {
    pub link_count: u32,
    pub device_number: u32,
    pub xattr_index: u32,
}

#[derive(Clone, Copy, Debug, PartialEq, Eq, Structural)]
pub struct ExtendedIpc {
    pub link_count: u32,
    pub xattr_index: u32,
}

/// The type-specific body of an inode; the variant is picked by the on-disk
/// type tag 1 through 14.
pub enum InodeInner {
    BasicDirectory(BasicDirectory),
    BasicFile(BasicFile),
    BasicSymlink(BasicSymlink),
    BasicBlockDevice(BasicDevice),
    BasicCharacterDevice(BasicDevice),
    BasicFifo(BasicIpc),
    BasicSocket(BasicIpc),
    ExtendedDirectory(ExtendedDirectory),
    ExtendedFile(ExtendedFile),
    ExtendedSymlink(ExtendedSymlink),
    ExtendedBlockDevice(ExtendedDevice),
    ExtendedCharacterDevice(ExtendedDevice),
    ExtendedFifo(ExtendedIpc),
    ExtendedSocket(ExtendedIpc),
}

/// One decoded inode: the shared header and the type-specific body.
pub struct Inode {
    pub header: InodeHeader,
    pub inner: InodeInner,
}

// Spec-level models of the variable-length records, with byte sequences in
// place of vectors.

pub struct BasicFileV {
    pub blocks_start: u32,
    pub frag: u32,
    pub block_offset: u32,
    pub file_size: u32,
    pub block_sizes: Seq<u32>,
}

pub struct BasicSymlinkV {
    pub link_count: u32,
    pub target_size: u32,
    pub target_path: Seq<u8>,
}

pub struct DirIndexV {
    pub index: u32,
    pub start: u32,
    pub name_size: u32,
    pub name: Seq<u8>,
}

pub struct ExtendedDirectoryV {
    pub link_count: u32,
    pub file_size: u32,
    pub block_index: u32,
    pub parent_inode: u32,
    pub index_count: u16,
    pub block_offset: u16,
    pub xattr_index: u32,
    pub dir_index: Seq<DirIndexV>,
}

pub struct ExtendedFileV {
    pub blocks_start: u64,
    pub file_size: u64,
    pub sparse: u64,
    pub link_count: u32,
    pub frag: u32,
    pub block_offset: u32,
    pub xattr_index: u32,
    pub block_sizes: Seq<u32>,
}

pub struct ExtendedSymlinkV {
    pub link_count: u32,
    pub target_size: u32,
    pub target_path: Seq<u8>,
    pub xattr_index: u32,
}

pub enum InodeInnerV {
    BasicDirectory(BasicDirectory),
    BasicFile(BasicFileV),
    BasicSymlink(BasicSymlinkV),
    BasicBlockDevice(BasicDevice),
    BasicCharacterDevice(BasicDevice),
    BasicFifo(BasicIpc),
    BasicSocket(BasicIpc),
    ExtendedDirectory(ExtendedDirectoryV),
    ExtendedFile(ExtendedFileV),
    ExtendedSymlink(ExtendedSymlinkV),
    ExtendedBlockDevice(ExtendedDevice),
    ExtendedCharacterDevice(ExtendedDevice),
    ExtendedFifo(ExtendedIpc),
    ExtendedSocket(ExtendedIpc),
}

pub struct InodeV {
    pub header: InodeHeader,
    pub inner: InodeInnerV,
}

impl View for DirIndex {
    type V = DirIndexV;

    open spec fn view(&self) -> DirIndexV {
        DirIndexV { index: self.index, start: self.start, name_size: self.name_size, name: self.name@ }
    }
}

impl View for Inode {
    type V = InodeV;

    open spec fn view(&self) -> InodeV {
        InodeV {
            header: self.header,
            inner: match self.inner {
                InodeInner::BasicDirectory(d) => InodeInnerV::BasicDirectory(d),
                InodeInner::BasicFile(f) => InodeInnerV::BasicFile(
                    BasicFileV {
                        blocks_start: f.blocks_start,
                        frag: f.frag,
                        block_offset: f.block_offset,
                        file_size: f.file_size,
                        block_sizes: f.block_sizes@,
                    },
                ),
                InodeInner::BasicSymlink(s) => InodeInnerV::BasicSymlink(
                    BasicSymlinkV {
                        link_count: s.link_count,
                        target_size: s.target_size,
                        target_path: s.target_path@,
                    },
                ),
                InodeInner::BasicBlockDevice(d) => InodeInnerV::BasicBlockDevice(d),
                InodeInner::BasicCharacterDevice(d) => InodeInnerV::BasicCharacterDevice(d),
                InodeInner::BasicFifo(i) => InodeInnerV::BasicFifo(i),
                InodeInner::BasicSocket(i) => InodeInnerV::BasicSocket(i),
                InodeInner::ExtendedDirectory(d) => InodeInnerV::ExtendedDirectory(
                    ExtendedDirectoryV {
                        link_count: d.link_count,
                        file_size: d.file_size,
                        block_index: d.block_index,
                        parent_inode: d.parent_inode,
                        index_count: d.index_count,
                        block_offset: d.block_offset,
                        xattr_index: d.xattr_index,
                        dir_index: d.dir_index@.map_values(|x: DirIndex| x@),
                    },
                ),
                InodeInner::ExtendedFile(f) => InodeInnerV::ExtendedFile(
                    ExtendedFileV {
                        blocks_start: f.blocks_start,
                        file_size: f.file_size,
                        sparse: f.sparse,
                        link_count: f.link_count,
                        frag: f.frag,
                        block_offset: f.block_offset,
                        xattr_index: f.xattr_index,
                        block_sizes: f.block_sizes@,
                    },
                ),
                InodeInner::ExtendedSymlink(s) => InodeInnerV::ExtendedSymlink(
                    ExtendedSymlinkV {
                        link_count: s.link_count,
                        target_size: s.target_size,
                        target_path: s.target_path@,
                        xattr_index: s.xattr_index,
                    },
                ),
                InodeInner::ExtendedBlockDevice(d) => InodeInnerV::ExtendedBlockDevice(d),
                InodeInner::ExtendedCharacterDevice(d) => InodeInnerV::ExtendedCharacterDevice(d),
                InodeInner::ExtendedFifo(i) => InodeInnerV::ExtendedFifo(i),
                InodeInner::ExtendedSocket(i) => InodeInnerV::ExtendedSocket(i),
            },
        }
    }
}

impl InodeV {
    /// The on-disk type tag this inode was decoded from.
    pub open spec fn type_id(self) -> u16 {
        match self.inner {
            InodeInnerV::BasicDirectory(_) => 1,
            InodeInnerV::BasicFile(_) => 2,
            InodeInnerV::BasicSymlink(_) => 3,
            InodeInnerV::BasicBlockDevice(_) => 4,
            InodeInnerV::BasicCharacterDevice(_) => 5,
            InodeInnerV::BasicFifo(_) => 6,
            InodeInnerV::BasicSocket(_) => 7,
            InodeInnerV::ExtendedDirectory(_) => 8,
            InodeInnerV::ExtendedFile(_) => 9,
            InodeInnerV::ExtendedSymlink(_) => 10,
            InodeInnerV::ExtendedBlockDevice(_) => 11,
            InodeInnerV::ExtendedCharacterDevice(_) => 12,
            InodeInnerV::ExtendedFifo(_) => 13,
            InodeInnerV::ExtendedSocket(_) => 14,
        }
    }

    /// Whether this inode is a basic or extended directory.
    pub open spec fn is_dir(self) -> bool {
        self.inner is BasicDirectory || self.inner is ExtendedDirectory
    }
}

impl Inode {
    /// The on-disk type tag this inode was decoded from.
    pub fn type_id(&self) -> (r: u16)
        ensures
            r == self@.type_id(),
    {
        match &self.inner {
            InodeInner::BasicDirectory(_) => 1,
            InodeInner::BasicFile(_) => 2,
            InodeInner::BasicSymlink(_) => 3,
            InodeInner::BasicBlockDevice(_) => 4,
            InodeInner::BasicCharacterDevice(_) => 5,
            InodeInner::BasicFifo(_) => 6,
            InodeInner::BasicSocket(_) => 7,
            InodeInner::ExtendedDirectory(_) => 8,
            InodeInner::ExtendedFile(_) => 9,
            InodeInner::ExtendedSymlink(_) => 10,
            InodeInner::ExtendedBlockDevice(_) => 11,
            InodeInner::ExtendedCharacterDevice(_) => 12,
            InodeInner::ExtendedFifo(_) => 13,
            InodeInner::ExtendedSocket(_) => 14,
        }
    }
}

/// The number of data blocks a file of `file_size` bytes occupies: all full
/// blocks when a fragment holds the tail, else rounded up.
pub open spec fn spec_block_count(file_size: int, frag: u32, block_size: int) -> int {
    if frag == FRAG_NOT_USED {
        if file_size % block_size != 0 {
            file_size / block_size + 1
        } else {
            file_size / block_size
        }
    } else {
        file_size / block_size
    }
}

/// The `count` 32-bit little-endian integers starting at byte `j` of `b`.
pub open spec fn spec_u32_seq(b: Seq<u8>, j: int, count: int) -> Seq<u32> {
    Seq::new(count as nat, |k: int| le32(b, j + 4 * k))
}

/// What decoding a run of `n` directory-index records at byte `j` of `b`
/// yields: the records and the position just past them.
pub open spec fn spec_dir_index_list(b: Seq<u8>, j: int, n: int) -> Option<(Seq<DirIndexV>, int)>
    decreases n,
{
    if n <= 0 {
        Some((Seq::empty(), j))
    } else if j < 0 || j + 12 > b.len() {
        None
    } else {
        let name_size = le32(b, j + 8) as int;
        if j + 12 + name_size + 1 > b.len() {
            None
        } else {
            let d = DirIndexV {
                index: le32(b, j),
                start: le32(b, j + 4),
                name_size: le32(b, j + 8),
                name: b.subrange(j + 12, j + 12 + name_size + 1),
            };
            match spec_dir_index_list(b, j + 12 + name_size + 1, n - 1) {
                Option::Some(p) => Some((seq![d] + p.0, p.1)),
                Option::None => None,
            }
        }
    }
}

/// What decoding one inode record at byte `i` of `b` yields, under data
/// block size `block_size`: the inode and the position just past it.
pub open spec fn spec_inode(b: Seq<u8>, i: int, block_size: int) -> Option<(InodeV, int)> {
    if i < 0 || i + 16 > b.len() {
        None
    } else {
        let t = le16(b, i);
        let header = InodeHeader {
            permissions: le16(b, i + 2),
            uid: le16(b, i + 4),
            gid: le16(b, i + 6),
            mod_time: le32(b, i + 8),
            inode_number: le32(b, i + 12),
        };
        let j = i + 16;
        match spec_inode_body(b, j, t, block_size) {
            Option::Some(p) => Some((InodeV { header, inner: p.0 }, p.1)),
            Option::None => None,
        }
    }
}

/// The type-specific part of `spec_inode`, at byte `j`, for type tag `t`.
pub open spec fn spec_inode_body(b: Seq<u8>, j: int, t: u16, block_size: int) -> Option<
    (InodeInnerV, int),
> {
    if t == 1 {
        if j + 16 > b.len() {
            None
        } else {
            Some(
                (
                    InodeInnerV::BasicDirectory(
                        BasicDirectory {
                            block_index: le32(b, j),
                            link_count: le32(b, j + 4),
                            file_size: le16(b, j + 8),
                            block_offset: le16(b, j + 10),
                            parent_inode: le32(b, j + 12),
                        },
                    ),
                    j + 16,
                ),
            )
        }
    } else if t == 2 {
        if j + 16 > b.len() {
            None
        } else {
            let frag = le32(b, j + 4);
            let count = spec_block_count(le32(b, j + 12) as int, frag, block_size);
            if 4 * count > b.len() - (j + 16) {
                None
            } else {
                Some(
                    (
                        InodeInnerV::BasicFile(
                            BasicFileV {
                                blocks_start: le32(b, j),
                                frag,
                                block_offset: le32(b, j + 8),
                                file_size: le32(b, j + 12),
                                block_sizes: spec_u32_seq(b, j + 16, count),
                            },
                        ),
                        j + 16 + 4 * count,
                    ),
                )
            }
        }
    } else if t == 3 {
        if j + 8 > b.len() {
            None
        } else {
            let target_size = le32(b, j + 4) as int;
            if j + 8 + target_size > b.len() {
                None
            } else {
                Some(
                    (
                        InodeInnerV::BasicSymlink(
                            BasicSymlinkV {
                                link_count: le32(b, j),
                                target_size: le32(b, j + 4),
                                target_path: b.subrange(j + 8, j + 8 + target_size),
                            },
                        ),
                        j + 8 + target_size,
                    ),
                )
            }
        }
    } else if t == 4 || t == 5 {
        if j + 8 > b.len() {
            None
        } else {
            let d = BasicDevice { link_count: le32(b, j), device_number: le32(b, j + 4) };
            Some(
                (
                    if t == 4 {
                        InodeInnerV::BasicBlockDevice(d)
                    } else {
                        InodeInnerV::BasicCharacterDevice(d)
                    },
                    j + 8,
                ),
            )
        }
    } else if t == 6 || t == 7 {
        if j + 4 > b.len() {
            None
        } else {
            let ipc = BasicIpc { link_count: le32(b, j) };
            Some(
                (
                    if t == 6 {
                        InodeInnerV::BasicFifo(ipc)
                    } else {
                        InodeInnerV::BasicSocket(ipc)
                    },
                    j + 4,
                ),
            )
        }
    } else if t == 8 {
        if j + 24 > b.len() {
            None
        } else {
            let index_count = le16(b, j + 16) as int;
            match spec_dir_index_list(b, j + 24, index_count) {
                Option::Some(p) => Some(
                    (
                        InodeInnerV::ExtendedDirectory(
                            ExtendedDirectoryV {
                                link_count: le32(b, j),
                                file_size: le32(b, j + 4),
                                block_index: le32(b, j + 8),
                                parent_inode: le32(b, j + 12),
                                index_count: le16(b, j + 16),
                                block_offset: le16(b, j + 18),
                                xattr_index: le32(b, j + 20),
                                dir_index: p.0,
                            },
                        ),
                        p.1,
                    ),
                ),
                Option::None => None,
            }
        }
    } else if t == 9 {
        if j + 40 > b.len() {
            None
        } else {
            let frag = le32(b, j + 28);
            let count = spec_block_count(le64(b, j + 8) as int, frag, block_size);
            if 4 * count > b.len() - (j + 40) {
                None
            } else {
                Some(
                    (
                        InodeInnerV::ExtendedFile(
                            ExtendedFileV {
                                blocks_start: le64(b, j),
                                file_size: le64(b, j + 8),
                                sparse: le64(b, j + 16),
                                link_count: le32(b, j + 24),
                                frag,
                                block_offset: le32(b, j + 32),
                                xattr_index: le32(b, j + 36),
                                block_sizes: spec_u32_seq(b, j + 40, count),
                            },
                        ),
                        j + 40 + 4 * count,
                    ),
                )
            }
        }
    } else if t == 10 {
        if j + 8 > b.len() {
            None
        } else {
            let target_size = le32(b, j + 4) as int;
            if j + 8 + target_size + 4 > b.len() {
                None
            } else {
                Some(
                    (
                        InodeInnerV::ExtendedSymlink(
                            ExtendedSymlinkV {
                                link_count: le32(b, j),
                                target_size: le32(b, j + 4),
                                target_path: b.subrange(j + 8, j + 8 + target_size),
                                xattr_index: le32(b, j + 8 + target_size),
                            },
                        ),
                        j + 8 + target_size + 4,
                    ),
                )
            }
        }
    } else if t == 11 || t == 12 {
        if j + 12 > b.len() {
            None
        } else {
            let d = ExtendedDevice {
                link_count: le32(b, j),
                device_number: le32(b, j + 4),
                xattr_index: le32(b, j + 8),
            };
            Some(
                (
                    if t == 11 {
                        InodeInnerV::ExtendedBlockDevice(d)
                    } else {
                        InodeInnerV::ExtendedCharacterDevice(d)
                    },
                    j + 12,
                ),
            )
        }
    } else if t == 13 || t == 14 {
        if j + 8 > b.len() {
            None
        } else {
            let ipc = ExtendedIpc { link_count: le32(b, j), xattr_index: le32(b, j + 4) };
            Some(
                (
                    if t == 13 {
                        InodeInnerV::ExtendedFifo(ipc)
                    } else {
                        InodeInnerV::ExtendedSocket(ipc)
                    },
                    j + 8,
                ),
            )
        }
    } else {
        None
    }
}

/// A type tag the format defines.
pub open spec fn spec_known_type(t: u16) -> bool {
    1 <= t <= 14
}

/// Glue for loop proofs: prepend an already-decoded prefix to the outcome
/// of decoding the remaining directory-index records.
pub open spec fn di_completion(pre: Seq<DirIndexV>, o: Option<(Seq<DirIndexV>, int)>) -> Option<
    (Seq<DirIndexV>, int),
> {
    match o {
        Option::Some(p) => Some((pre + p.0, p.1)),
        Option::None => None,
    }
}

/// Read `count` consecutive little-endian 32-bit integers at byte `j`.
pub fn parse_u32_seq(s: &[u8], j: usize, count: usize) -> (r: Vec<u32>)
    requires
        j + 4 * count <= s@.len(),
    ensures
        r@ == spec_u32_seq(s@, j as int, count as int),
{
    let slen: usize = s.len();
    let mut v: Vec<u32> = Vec::new();
    let mut k: usize = 0;
    while k < count
        invariant
            j + 4 * count <= slen,
            slen == s@.len(),
            k <= count,
            v@.len() == k,
            forall|q: int| 0 <= q < k ==> v@[q] == le32(s@, j + 4 * q),
        decreases count - k,
    {
        v.push(read_u32(s, j + 4 * k));
        k = k + 1;
    }
    proof {
        assert(v@ =~= spec_u32_seq(s@, j as int, count as int));
    }
    v
}

/// Decode a run of `n` directory-index records at byte `j0` of `s`.
pub fn parse_dir_index_list(s: &[u8], j0: usize, n: usize) -> (r: Result<
    (Vec<DirIndex>, usize),
    SquashfsError,
>)
    ensures
        r matches Ok(p) ==> spec_dir_index_list(s@, j0 as int, n as int) == Some(
            (p.0@.map_values(|x: DirIndex| x@), p.1 as int),
        ) && (j0 <= s@.len() ==> p.1 <= s@.len()) && j0 <= p.1,
        r matches Err(e) ==> spec_dir_index_list(s@, j0 as int, n as int) is None && e
            == SquashfsError::CorruptInodeTable,
{
    let slen: usize = s.len();
    if j0 > slen {
        // no record run can start past the end of the buffer
        if n > 0 {
            return Err(SquashfsError::CorruptInodeTable);
        }
        let empty_run: Vec<DirIndex> = Vec::new();
        proof {
            assert(empty_run@.map_values(|x: DirIndex| x@) =~= Seq::<DirIndexV>::empty());
        }
        return Ok((empty_run, j0));
    }
    let mut acc: Vec<DirIndex> = Vec::new();
    let mut cur: usize = j0;
    let mut k: usize = 0;
    proof {
        let x = spec_dir_index_list(s@, j0 as int, n as int);
        match x {
            Option::Some(p) => {
                assert(Seq::<DirIndexV>::empty() + p.0 =~= p.0);
            },
            Option::None => {},
        }
    }
    while k < n
        invariant
            k <= n,
            j0 <= cur,
            cur <= slen,
            slen == s@.len(),
            spec_dir_index_list(s@, j0 as int, n as int) == di_completion(
                acc@.map_values(|x: DirIndex| x@),
                spec_dir_index_list(s@, cur as int, (n - k) as int),
            ),
        decreases n - k,
    {
        let ghost acc_v = acc@.map_values(|x: DirIndex| x@);
        let ghost m = (n - k) as int;
        if slen - cur < 12 {
            proof {
                assert(spec_dir_index_list(s@, cur as int, m) is None);
            }
            return Err(SquashfsError::CorruptInodeTable);
        }
        let name_size = read_u32(s, cur + 8);
        let rem: usize = slen - (cur + 12);
        if (name_size as u64) + 1 > (rem as u64) {
            proof {
                assert(spec_dir_index_list(s@, cur as int, m) is None);
            }
            return Err(SquashfsError::CorruptInodeTable);
        }
        let name_len: usize = (name_size as usize) + 1;
        let d = DirIndex {
            index: read_u32(s, cur),
            start: read_u32(s, cur + 4),
            name_size,
            name: slice_to_vec(slice_subrange(s, cur + 12, cur + 12 + name_len)),
        };
        let next: usize = cur + 12 + name_len;
        proof {
            let d_v = d@;
            let y = spec_dir_index_list(s@, next as int, m - 1);
            assert(spec_dir_index_list(s@, cur as int, m) == di_completion(seq![d_v], y));
            match y {
                Option::Some(p) => {
                    assert(acc_v + (seq![d_v] + p.0) =~= (acc_v + seq![d_v]) + p.0);
                },
                Option::None => {},
            }
            assert(acc@.push(d).map_values(|x: DirIndex| x@) =~= acc_v + seq![d_v]);
        }
        acc.push(d);
        cur = next;
        k = k + 1;
    }
    proof {
        let acc_v = acc@.map_values(|x: DirIndex| x@);
        assert(spec_dir_index_list(s@, cur as int, 0) == Some((Seq::<DirIndexV>::empty(), cur as int)));
        assert(acc_v + Seq::<DirIndexV>::empty() =~= acc_v);
    }
    Ok((acc, cur))
}

/// Decode one inode record at byte `i` of the decompressed inode stream.
///
/// Fails with `UnknownInodeType` when the record's type tag is outside 1
/// through 14, and with `CorruptInodeTable` when the record runs past the
/// end of the stream.
pub fn parse_inode(s: &[u8], i: usize, block_size: u32) -> (r: Result<
    (Inode, usize),
    SquashfsError,
>)
    requires
        4096 <= block_size,
    ensures
        r matches Ok(p) ==> spec_inode(s@, i as int, block_size as int) == Some(
            (p.0@, p.1 as int),
        ) && i < p.1 <= s@.len(),
        r matches Err(e) ==> spec_inode(s@, i as int, block_size as int) is None && (if i + 16
            <= s@.len() && !spec_known_type(le16(s@, i as int)) {
            e == SquashfsError::UnknownInodeType
        } else {
            e == SquashfsError::CorruptInodeTable
        }),
{
    let slen: usize = s.len();
    if i >= slen || slen - i < 16 {
        return Err(SquashfsError::CorruptInodeTable);
    }
    let t = read_u16(s, i);
    let header = InodeHeader {
        permissions: read_u16(s, i + 2),
        uid: read_u16(s, i + 4),
        gid: read_u16(s, i + 6),
        mod_time: read_u32(s, i + 8),
        inode_number: read_u32(s, i + 12),
    };
    let j = i + 16;
    if t == 1 {
        if slen - j < 16 {
            return Err(SquashfsError::CorruptInodeTable);
        }
        let d = BasicDirectory {
            block_index: read_u32(s, j),
            link_count: read_u32(s, j + 4),
            file_size: read_u16(s, j + 8),
            block_offset: read_u16(s, j + 10),
            parent_inode: read_u32(s, j + 12),
        };
        Ok((Inode { header, inner: InodeInner::BasicDirectory(d) }, j + 16))
    } else if t == 2 {
        if slen - j < 16 {
            return Err(SquashfsError::CorruptInodeTable);
        }
        let blocks_start = read_u32(s, j);
        let frag = read_u32(s, j + 4);
        let block_offset = read_u32(s, j + 8);
        let file_size = read_u32(s, j + 12);
        let fs64: u64 = file_size as u64;
        let bs64: u64 = block_size as u64;
        proof {
            vstd::arithmetic::div_mod::lemma_div_basics_4(fs64 as int, bs64 as int);
            vstd::arithmetic::div_mod::lemma_div_basics_5(fs64 as int, bs64 as int);
        }
        let count64: u64 = if frag == FRAG_NOT_USED {
            if fs64 % bs64 != 0 {
                fs64 / bs64 + 1
            } else {
                fs64 / bs64
            }
        } else {
            fs64 / bs64
        };
        let rem: usize = slen - (j + 16);
        proof {
            assert(4 * ((rem as int) / 4) <= (rem as int));
            assert((rem as int) < 4 * ((rem as int) / 4) + 4);
        }
        if count64 > (rem / 4) as u64 {
            return Err(SquashfsError::CorruptInodeTable);
        }
        let count: usize = count64 as usize;
        let block_sizes = parse_u32_seq(s, j + 16, count);
        let f = BasicFile { blocks_start, frag, block_offset, file_size, block_sizes };
        Ok((Inode { header, inner: InodeInner::BasicFile(f) }, j + 16 + 4 * count))
    } else if t == 3 {
        if slen - j < 8 {
            return Err(SquashfsError::CorruptInodeTable);
        }
        let link_count = read_u32(s, j);
        let target_size = read_u32(s, j + 4);
        let rem: usize = slen - (j + 8);
        if (target_size as u64) > (rem as u64) {
            return Err(SquashfsError::CorruptInodeTable);
        }
        let ts: usize = target_size as usize;
        let target_path = slice_to_vec(slice_subrange(s, j + 8, j + 8 + ts));
        let l = BasicSymlink { link_count, target_size, target_path };
        Ok((Inode { header, inner: InodeInner::BasicSymlink(l) }, j + 8 + ts))
    } else if t == 4 || t == 5 {
        if slen - j < 8 {
            return Err(SquashfsError::CorruptInodeTable);
        }
        let d = BasicDevice { link_count: read_u32(s, j), device_number: read_u32(s, j + 4) };
        let inner = if t == 4 {
            InodeInner::BasicBlockDevice(d)
        } else {
            InodeInner::BasicCharacterDevice(d)
        };
        Ok((Inode { header, inner }, j + 8))
    } else if t == 6 || t == 7 {
        if slen - j < 4 {
            return Err(SquashfsError::CorruptInodeTable);
        }
        let ipc = BasicIpc { link_count: read_u32(s, j) };
        let inner = if t == 6 {
            InodeInner::BasicFifo(ipc)
        } else {
            InodeInner::BasicSocket(ipc)
        };
        Ok((Inode { header, inner }, j + 4))
    } else if t == 8 {
        if slen - j < 24 {
            return Err(SquashfsError::CorruptInodeTable);
        }
        let index_count = read_u16(s, j + 16);
        match parse_dir_index_list(s, j + 24, index_count as usize) {
            Ok(p) => {
                let d = ExtendedDirectory {
                    link_count: read_u32(s, j),
                    file_size: read_u32(s, j + 4),
                    block_index: read_u32(s, j + 8),
                    parent_inode: read_u32(s, j + 12),
                    index_count,
                    block_offset: read_u16(s, j + 18),
                    xattr_index: read_u32(s, j + 20),
                    dir_index: p.0,
                };
                Ok((Inode { header, inner: InodeInner::ExtendedDirectory(d) }, p.1))
            },
            Err(e) => Err(e),
        }
    } else if t == 9 {
        if slen - j < 40 {
            return Err(SquashfsError::CorruptInodeTable);
        }
        let blocks_start = read_u64(s, j);
        let file_size = read_u64(s, j + 8);
        let sparse = read_u64(s, j + 16);
        let link_count = read_u32(s, j + 24);
        let frag = read_u32(s, j + 28);
        let block_offset = read_u32(s, j + 32);
        let xattr_index = read_u32(s, j + 36);
        let bs64: u64 = block_size as u64;
        proof {
            vstd::arithmetic::div_mod::lemma_div_basics_4(file_size as int, bs64 as int);
            vstd::arithmetic::div_mod::lemma_div_is_ordered_by_denominator(
                file_size as int,
                4096,
                bs64 as int,
            );
            vstd::arithmetic::div_mod::lemma_div_is_ordered(
                file_size as int,
                0xffff_ffff_ffff_ffff,
                4096,
            );
        }
        let count64: u64 = if frag == FRAG_NOT_USED {
            if file_size % bs64 != 0 {
                file_size / bs64 + 1
            } else {
                file_size / bs64
            }
        } else {
            file_size / bs64
        };
        let rem: usize = slen - (j + 40);
        proof {
            assert(4 * ((rem as int) / 4) <= (rem as int));
            assert((rem as int) < 4 * ((rem as int) / 4) + 4);
        }
        if count64 > (rem / 4) as u64 {
            return Err(SquashfsError::CorruptInodeTable);
        }
        let count: usize = count64 as usize;
        let block_sizes = parse_u32_seq(s, j + 40, count);
        let f = ExtendedFile {
            blocks_start,
            file_size,
            sparse,
            link_count,
            frag,
            block_offset,
            xattr_index,
            block_sizes,
        };
        Ok((Inode { header, inner: InodeInner::ExtendedFile(f) }, j + 40 + 4 * count))
    } else if t == 10 {
        if slen - j < 8 {
            return Err(SquashfsError::CorruptInodeTable);
        }
        let link_count = read_u32(s, j);
        let target_size = read_u32(s, j + 4);
        let rem: usize = slen - (j + 8);
        if (target_size as u64) + 4 > (rem as u64) {
            return Err(SquashfsError::CorruptInodeTable);
        }
        let ts: usize = target_size as usize;
        let target_path = slice_to_vec(slice_subrange(s, j + 8, j + 8 + ts));
        let xattr_index = read_u32(s, j + 8 + ts);
        let l = ExtendedSymlink { link_count, target_size, target_path, xattr_index };
        Ok((Inode { header, inner: InodeInner::ExtendedSymlink(l) }, j + 8 + ts + 4))
    } else if t == 11 || t == 12 {
        if slen - j < 12 {
            return Err(SquashfsError::CorruptInodeTable);
        }
        let d = ExtendedDevice {
            link_count: read_u32(s, j),
            device_number: read_u32(s, j + 4),
            xattr_index: read_u32(s, j + 8),
        };
        let inner = if t == 11 {
            InodeInner::ExtendedBlockDevice(d)
        } else {
            InodeInner::ExtendedCharacterDevice(d)
        };
        Ok((Inode { header, inner }, j + 12))
    } else if t == 13 || t == 14 {
        if slen - j < 8 {
            return Err(SquashfsError::CorruptInodeTable);
        }
        let ipc = ExtendedIpc { link_count: read_u32(s, j), xattr_index: read_u32(s, j + 4) };
        let inner = if t == 13 {
            InodeInner::ExtendedFifo(ipc)
        } else {
            InodeInner::ExtendedSocket(ipc)
        };
        Ok((Inode { header, inner }, j + 8))
    } else {
        Err(SquashfsError::UnknownInodeType)
    }
}

/// What decoding inode records from byte `i` to the end of `b` yields:
/// the inodes in stream order, or nothing when a record is malformed or a
/// trailing partial record remains.
pub open spec fn spec_inode_list(b: Seq<u8>, i: int, block_size: int) -> Option<Seq<InodeV>>
    decreases b.len() - i,
{
    if i >= b.len() {
        Some(Seq::empty())
    } else {
        match spec_inode(b, i, block_size) {
            Option::Some(p) => if p.1 <= i || p.1 > b.len() {
                None
            } else {
                match spec_inode_list(b, p.1, block_size) {
                    Option::Some(rest) => Some(seq![p.0] + rest),
                    Option::None => None,
                }
            },
            Option::None => None,
        }
    }
}

/// The error the first undecodable record of the stream reports:
/// `UnknownInodeType` for an undefined type tag, else `CorruptInodeTable`
/// (a record running past the end of the stream).
pub open spec fn spec_inode_list_err(b: Seq<u8>, i: int, block_size: int) -> SquashfsError
    decreases b.len() - i,
{
    if i >= b.len() {
        SquashfsError::CorruptInodeTable
    } else {
        match spec_inode(b, i, block_size) {
            Option::Some(p) => if p.1 <= i || p.1 > b.len() {
                SquashfsError::CorruptInodeTable
            } else {
                spec_inode_list_err(b, p.1, block_size)
            },
            Option::None => if i + 16 <= b.len() && !spec_known_type(le16(b, i)) {
                SquashfsError::UnknownInodeType
            } else {
                SquashfsError::CorruptInodeTable
            },
        }
    }
}

/// Glue for loop proofs: prepend already-decoded inodes to the outcome of
/// decoding the rest of the stream.
pub open spec fn il_completion(pre: Seq<InodeV>, o: Option<Seq<InodeV>>) -> Option<Seq<InodeV>> {
    match o {
        Option::Some(rest) => Some(pre + rest),
        Option::None => None,
    }
}

/// Decode the whole decompressed inode stream `s` into its inodes, in
/// stream order. A malformed record or a trailing partial record fails the
/// whole table.
pub fn parse_inode_list(s: &[u8], block_size: u32) -> (r: Result<Vec<Inode>, SquashfsError>)
    requires
        4096 <= block_size,
    ensures
        r matches Ok(v) ==> spec_inode_list(s@, 0, block_size as int) == Some(
            v@.map_values(|x: Inode| x@),
        ),
        r matches Err(e) ==> spec_inode_list(s@, 0, block_size as int) is None && e
            == spec_inode_list_err(s@, 0, block_size as int),
{
    let slen: usize = s.len();
    let mut acc: Vec<Inode> = Vec::new();
    let mut cur: usize = 0;
    proof {
        let x = spec_inode_list(s@, 0, block_size as int);
        match x {
            Option::Some(rest) => {
                assert(Seq::<InodeV>::empty() + rest =~= rest);
            },
            Option::None => {},
        }
        assert(acc@.map_values(|x: Inode| x@) =~= Seq::<InodeV>::empty());
    }
    while cur < slen
        invariant
            cur <= slen,
            slen == s@.len(),
            4096 <= block_size,
            spec_inode_list(s@, 0, block_size as int) == il_completion(
                acc@.map_values(|x: Inode| x@),
                spec_inode_list(s@, cur as int, block_size as int),
            ),
            spec_inode_list_err(s@, 0, block_size as int) == spec_inode_list_err(
                s@,
                cur as int,
                block_size as int,
            ),
        decreases slen - cur,
    {
        let ghost acc_v = acc@.map_values(|x: Inode| x@);
        match parse_inode(s, cur, block_size) {
            Ok(p) => {
                let (ino, next) = p;
                proof {
                    let ino_v = ino@;
                    let y = spec_inode_list(s@, next as int, block_size as int);
                    assert(spec_inode_list(s@, cur as int, block_size as int) == il_completion(
                        seq![ino_v],
                        y,
                    ));
                    match y {
                        Option::Some(rest) => {
                            assert(acc_v + (seq![ino_v] + rest) =~= (acc_v + seq![ino_v]) + rest);
                        },
                        Option::None => {},
                    }
                    assert(acc@.push(ino).map_values(|x: Inode| x@) =~= acc_v + seq![ino_v]);
                }
                acc.push(ino);
                cur = next;
            },
            Err(e) => {
                return Err(e);
            },
        }
    }
    proof {
        let acc_v = acc@.map_values(|x: Inode| x@);
        assert(spec_inode_list(s@, cur as int, block_size as int) == Some(Seq::<InodeV>::empty()));
        assert(acc_v + Seq::<InodeV>::empty() =~= acc_v);
    }
    Ok(acc)
}

} // verus!
