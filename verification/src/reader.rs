//! Seekable access to an in-memory image and the section readers built on
//! it: inode table, root inode, directory blocks, and the indirected
//! fragment, export and id lookup tables.

use crate::compressor::Compressor;
use crate::error::SquashfsError;
use crate::fragment::parse_fragment_table;
use crate::fragment::spec_fragment_table;
use crate::fragment::Fragment;
use crate::fragment::FRAGMENT_SIZE;
use crate::inode::parse_inode;
use crate::inode::parse_inode_list;
use crate::inode::spec_inode;
use crate::inode::spec_inode_list;
use crate::inode::Inode;
use crate::inode::InodeV;
use crate::le::le64;
use crate::le::read_u64;
use crate::metadata::read_block;
use crate::metadata::read_blocks_count;
use crate::metadata::read_blocks_range;
use crate::metadata::spec_blocks_count;
use crate::metadata::spec_blocks_range;
use crate::metadata::spec_read_block;
use crate::superblock::SuperBlock;
use vstd::prelude::*;
use vstd::slice::slice_subrange;
use vstd::slice::slice_to_vec;

verus! {

/// One decompressed directory-table metadata block, together with its
/// compressed start offset relative to the start of the directory table.
pub struct DirBlock {
    pub offset: u64,
    pub bytes: Vec<u8>,
}

pub struct DirBlockV {
    pub offset: u64,
    pub bytes: Seq<u8>,
}

impl View for DirBlock {
    type V = DirBlockV;

    open spec fn view(&self) -> DirBlockV {
        DirBlockV { offset: self.offset, bytes: self.bytes@ }
    }
}

/// The directory-table metadata blocks that start in `[pos, end)` of `s`,
/// each with its start offset relative to `base`.
pub open spec fn spec_block_runs(s: Seq<u8>, base: int, pos: int, end: int, c: Compressor) -> Option<
    Seq<DirBlockV>,
>
    decreases end - pos,
{
    if pos >= end {
        Some(Seq::empty())
    } else {
        match spec_read_block(s, pos, c) {
            Option::Some(p) => {
                let next = if p.1 > end {
                    end
                } else {
                    p.1
                };
                if next <= pos {
                    None
                } else {
                    match spec_block_runs(s, base, next, end, c) {
                        Option::Some(rest) => Some(
                            seq![DirBlockV { offset: (pos - base) as u64, bytes: p.0 }] + rest,
                        ),
                        Option::None => None,
                    }
                }
            },
            Option::None => None,
        }
    }
}

/// Glue for loop proofs over directory-block runs.
pub open spec fn br_completion(pre: Seq<DirBlockV>, o: Option<Seq<DirBlockV>>) -> Option<
    Seq<DirBlockV>,
> {
    match o {
        Option::Some(rest) => Some(pre + rest),
        Option::None => None,
    }
}

/// Reads the sections of a SquashFS image held in memory, addressing them
/// relative to the image's offset `start` within the buffer.
pub struct SquashfsReader {
    /// The whole underlying buffer; the image begins at `start`.
    pub data: Vec<u8>,
    /// Offset from the start of the buffer to the image.
    pub start: u64,
    /// Current image-relative position.
    pub pos: u64,
}

impl SquashfsReader {
    /// The image denoted by a buffer and an offset into it: everything
    /// from the offset to the end.
    pub open spec fn new_image(data: Seq<u8>, offset: u64) -> Seq<u8> {
        if offset <= data.len() {
            data.subrange(offset as int, data.len() as int)
        } else {
            Seq::empty()
        }
    }

    /// The image bytes: everything from `start` to the end of the buffer.
    pub open spec fn spec_image(self) -> Seq<u8> {
        Self::new_image(self.data@, self.start)
    }

    /// Take ownership of a buffer holding an image at byte `offset`.
    pub fn new(data: Vec<u8>, offset: u64) -> (r: SquashfsReader)
        ensures
            r.data@ == data@,
            r.start == offset,
            r.pos == 0,
    {
        SquashfsReader { data, start: offset, pos: 0 }
    }

    /// Current image-relative position.
    pub fn stream_position(&mut self) -> (r: Result<u64, SquashfsError>)
        ensures
            r == Ok::<u64, SquashfsError>(old(self).pos),
            *final(self) == *old(self),
    {
        Ok(self.pos)
    }

    /// The buffer offset addressed by image-relative offset `seek`.
    pub fn addr(&self, seek: u64) -> (r: Result<u64, SquashfsError>)
        ensures
            self.start + seek <= u64::MAX ==> r == Ok::<u64, SquashfsError>(
                (self.start + seek) as u64,
            ),
            self.start + seek > u64::MAX ==> r == Err::<u64, SquashfsError>(
                SquashfsError::Truncated,
            ),
    {
        if seek > u64::MAX - self.start {
            Err(SquashfsError::Truncated)
        } else {
            Ok(self.start + seek)
        }
    }

    /// Position the reader at image-relative offset `seek`.
    pub fn seek_from_start(&mut self, seek: u64) -> (r: Result<(), SquashfsError>)
        ensures
            r == Ok::<(), SquashfsError>(()),
            final(self).data@ == old(self).data@,
            final(self).start == old(self).start,
            final(self).pos == seek,
    {
        self.pos = seek;
        Ok(())
    }

    /// Borrow the image bytes.
    fn image_slice(&self) -> (r: &[u8])
        ensures
            r@ == self.spec_image(),
    {
        let dlen: usize = self.data.len();
        let lo: usize = if self.start > dlen as u64 {
            dlen
        } else {
            self.start as usize
        };
        slice_subrange(self.data.as_slice(), lo, dlen)
    }

    /// Copy out the leading `superblock.inode_table` bytes of the image:
    /// the superblock, the options block, and the data-and-fragments
    /// region, exactly as stored.
    pub fn data_and_fragments(&mut self, superblock: &SuperBlock) -> (r: Result<
        Vec<u8>,
        SquashfsError,
    >)
        ensures
            final(self).data@ == old(self).data@,
            final(self).start == old(self).start,
            r matches Ok(v) ==> superblock.inode_table <= old(self).spec_image().len() && v@ == old(
                self,
            ).spec_image().subrange(0, superblock.inode_table as int),
            r matches Err(e) ==> superblock.inode_table > old(self).spec_image().len() && e
                == SquashfsError::Truncated,
    {
        self.pos = 0;
        let img = self.image_slice();
        let ilen: usize = img.len();
        if superblock.inode_table > ilen as u64 {
            return Err(SquashfsError::Truncated);
        }
        let n: usize = superblock.inode_table as usize;
        Ok(slice_to_vec(slice_subrange(img, 0, n)))
    }

    /// Read and decode the whole inode table, in stream order: every
    /// metadata block starting in `[inode_table, dir_table)`, concatenated
    /// and decoded into inodes.
    pub fn inodes(&mut self, superblock: &SuperBlock) -> (r: Result<Vec<Inode>, SquashfsError>)
        requires
            old(self).spec_valid_for(*superblock),
        ensures
            final(self).data@ == old(self).data@,
            final(self).start == old(self).start,
            r matches Ok(v) ==> final(self).pos == superblock.dir_table && (match spec_blocks_range(
                old(self).spec_image(),
                superblock.inode_table as int,
                superblock.dir_table as int,
                superblock.compressor,
            ) {
                Option::Some(bytes) => spec_inode_list(bytes, 0, superblock.block_size as int)
                    == Some(v@.map_values(|x: Inode| x@)) && crate::squashfs::spec_numbers_ok(
                    v@.map_values(|x: Inode| x@),
                    superblock.inode_count,
                ),
                Option::None => false,
            }),
            r matches Err(e) ==> (match spec_blocks_range(
                old(self).spec_image(),
                superblock.inode_table as int,
                superblock.dir_table as int,
                superblock.compressor,
            ) {
                Option::Some(bytes) => match spec_inode_list(
                    bytes,
                    0,
                    superblock.block_size as int,
                ) {
                    Option::Some(inos) => !crate::squashfs::spec_numbers_ok(
                        inos,
                        superblock.inode_count,
                    ) && e == SquashfsError::CorruptInodeTable,
                    Option::None => e == crate::inode::spec_inode_list_err(
                        bytes,
                        0,
                        superblock.block_size as int,
                    ),
                },
                Option::None => e == crate::metadata::spec_blocks_range_err(
                    old(self).spec_image(),
                    superblock.inode_table as int,
                    superblock.dir_table as int,
                    superblock.compressor,
                ),
            }),
    {
        proof {
            crate::superblock::lemma_valid_block_size(*superblock);
        }
        self.pos = superblock.inode_table;
        let img = self.image_slice();
        let bytes = match read_blocks_range(
            img,
            superblock.inode_table,
            superblock.dir_table,
            superblock.compressor,
        ) {
            Ok(b) => b,
            Err(e) => {
                return Err(e);
            },
        };
        let inodes = match parse_inode_list(bytes.as_slice(), superblock.block_size) {
            Ok(v) => v,
            Err(e) => {
                return Err(e);
            },
        };
        if !crate::squashfs::check_numbers(&inodes, superblock.inode_count) {
            return Err(SquashfsError::CorruptInodeTable);
        }
        self.pos = superblock.dir_table;
        Ok(inodes)
    }

    /// Whether this reader can serve sections for `sb`: the superblock was
    /// validated.
    pub open spec fn spec_valid_for(self, sb: SuperBlock) -> bool {
        sb.spec_valid()
    }

    /// Resolve the root inode reference: read the single metadata block at
    /// `inode_table + (root_inode >> 16)` and decode the inode at byte
    /// `root_inode & 0xffff` of its payload, which must be a directory.
    pub fn root_inode(&mut self, superblock: &SuperBlock) -> (r: Result<Inode, SquashfsError>)
        requires
            old(self).spec_valid_for(*superblock),
        ensures
            final(self).data@ == old(self).data@,
            final(self).start == old(self).start,
            r matches Ok(ino) ==> spec_root_inode(old(self).spec_image(), *superblock) == Some(
                ino@,
            ) && ino@.is_dir(),
            r matches Err(e) ==> spec_root_inode(old(self).spec_image(), *superblock) is None,
    {
        proof {
            crate::superblock::lemma_valid_block_size(*superblock);
        }
        let dlen: usize = self.data.len();
        let root_start: u64 = superblock.root_inode / 0x10000;
        let root_offset: u64 = superblock.root_inode % 0x10000;
        if root_start > u64::MAX - superblock.inode_table {
            proof {
                assert(old(self).spec_image().len() <= dlen);
                assert(spec_read_block(
                    old(self).spec_image(),
                    superblock.inode_table + root_start as int,
                    superblock.compressor,
                ) is None);
            }
            return Err(SquashfsError::Truncated);
        }
        let seek: u64 = superblock.inode_table + root_start;
        self.pos = seek;
        let img = self.image_slice();
        let ilen: usize = img.len();
        if seek >= ilen as u64 {
            proof {
                assert(spec_read_block(
                    old(self).spec_image(),
                    seek as int,
                    superblock.compressor,
                ) is None);
            }
            return Err(SquashfsError::Truncated);
        }
        let block = match read_block(img, seek as usize, superblock.compressor) {
            Ok(p) => p.0,
            Err(e) => {
                return Err(e);
            },
        };
        match parse_inode(block.as_slice(), root_offset as usize, superblock.block_size) {
            Ok(p) => {
                let (ino, _) = p;
                let t = ino.type_id();
                if t == 1 || t == 8 {
                    Ok(ino)
                } else {
                    Err(SquashfsError::CorruptInodeTable)
                }
            },
            Err(e) => Err(e),
        }
    }

    /// Read the directory-table metadata blocks in `[dir_table, end)`,
    /// keeping each block's start offset relative to `dir_table`.
    pub fn dir_blocks(&mut self, superblock: &SuperBlock, end: u64) -> (r: Result<
        Vec<DirBlock>,
        SquashfsError,
    >)
        requires
            old(self).spec_valid_for(*superblock),
        ensures
            final(self).data@ == old(self).data@,
            final(self).start == old(self).start,
            r matches Ok(v) ==> spec_block_runs(
                old(self).spec_image(),
                superblock.dir_table as int,
                superblock.dir_table as int,
                end as int,
                superblock.compressor,
            ) == Some(v@.map_values(|x: DirBlock| x@)),
            r matches Err(e) ==> spec_block_runs(
                old(self).spec_image(),
                superblock.dir_table as int,
                superblock.dir_table as int,
                end as int,
                superblock.compressor,
            ) is None,
    {
        let base: u64 = superblock.dir_table;
        let c = superblock.compressor;
        self.pos = base;
        let img = self.image_slice();
        let slen: usize = img.len();
        let mut acc: Vec<DirBlock> = Vec::new();
        if base >= end {
            proof {
                assert(acc@.map_values(|x: DirBlock| x@) =~= Seq::<DirBlockV>::empty());
            }
            return Ok(acc);
        }
        let mut cur: u64 = base;
        proof {
            let x = spec_block_runs(img@, base as int, base as int, end as int, c);
            match x {
                Option::Some(rest) => {
                    assert(Seq::<DirBlockV>::empty() + rest =~= rest);
                },
                Option::None => {},
            }
            assert(acc@.map_values(|x: DirBlock| x@) =~= Seq::<DirBlockV>::empty());
        }
        while cur < end
            invariant
                base <= cur <= end,
                base == superblock.dir_table,
                c == superblock.compressor,
                slen == img@.len(),
                img@ == old(self).spec_image(),
                self.data@ == old(self).data@,
                self.start == old(self).start,
                spec_block_runs(img@, base as int, base as int, end as int, c) == br_completion(
                    acc@.map_values(|x: DirBlock| x@),
                    spec_block_runs(img@, base as int, cur as int, end as int, c),
                ),
            decreases end - cur,
        {
            let ghost acc_v = acc@.map_values(|x: DirBlock| x@);
            if cur >= slen as u64 {
                proof {
                    assert(spec_read_block(img@, cur as int, c) is None);
                    assert(spec_block_runs(img@, base as int, cur as int, end as int, c) is None);
                    assert(spec_block_runs(img@, base as int, base as int, end as int, c) is None);
                }
                return Err(SquashfsError::Truncated);
            }
            match read_block(img, cur as usize, c) {
                Ok(p) => {
                    let (payload, next) = p;
                    let d = DirBlock { offset: cur - base, bytes: payload };
                    let next_clamped: u64 = if (next as u64) > end {
                        end
                    } else {
                        next as u64
                    };
                    proof {
                        let d_v = d@;
                        let y = spec_block_runs(
                            img@,
                            base as int,
                            next_clamped as int,
                            end as int,
                            c,
                        );
                        assert(spec_block_runs(img@, base as int, cur as int, end as int, c)
                            == br_completion(seq![d_v], y));
                        match y {
                            Option::Some(rest) => {
                                assert(acc_v + (seq![d_v] + rest) =~= (acc_v + seq![d_v]) + rest);
                            },
                            Option::None => {},
                        }
                        assert(acc@.push(d).map_values(|x: DirBlock| x@) =~= acc_v + seq![d_v]);
                    }
                    acc.push(d);
                    cur = next_clamped;
                },
                Err(e) => {
                    proof {
                        assert(spec_block_runs(img@, base as int, cur as int, end as int, c)
                            is None);
                        assert(spec_block_runs(img@, base as int, base as int, end as int, c)
                            is None);
                    }
                    return Err(e);
                },
            }
        }
        proof {
            assert(spec_block_runs(img@, base as int, cur as int, end as int, c) == Some(Seq::<
                DirBlockV,
            >::empty()));
            let acc_v = acc@.map_values(|x: DirBlock| x@);
            assert(acc_v + Seq::<DirBlockV>::empty() =~= acc_v);
        }
        Ok(acc)
    }
}

/// The 64-bit indirection pointer stored at image offset `table`, when the
/// image is long enough to hold it.
pub open spec fn spec_lookup_ptr(img: Seq<u8>, table: int) -> Option<u64> {
    if 0 <= table && table + 8 <= img.len() {
        Some(le64(img, table))
    } else {
        None
    }
}

/// What a whole lookup-table read yields: the metadata blocks at the
/// indirection target, concatenated, when the pointer and every block are
/// readable.
pub open spec fn spec_lookup_bytes(img: Seq<u8>, table: int, size: int, c: Compressor) -> Option<
    Seq<u8>,
> {
    match spec_lookup_ptr(img, table) {
        Option::Some(p) => spec_blocks_count(img, p as int, spec_lookup_block_count(size), c),
        Option::None => None,
    }
}

/// How many metadata blocks hold a lookup table of `size` bytes.
pub open spec fn spec_lookup_block_count(size: int) -> int {
    (size + 8191) / 8192
}

/// What resolving the root inode reference of `sb` against image `img`
/// yields: the inode decoded at the packed `(block, offset)` position, if
/// it is a directory.
pub open spec fn spec_root_inode(img: Seq<u8>, sb: SuperBlock) -> Option<InodeV> {
    let root_start = sb.root_inode as int / 0x10000;
    let root_offset = sb.root_inode as int % 0x10000;
    match spec_read_block(img, sb.inode_table + root_start, sb.compressor) {
        Option::Some(p) => match spec_inode(p.0, root_offset, sb.block_size as int) {
            Option::Some(q) => if q.0.is_dir() {
                Some(q.0)
            } else {
                None
            },
            Option::None => None,
        },
        Option::None => None,
    }
}

impl SquashfsReader {
    /// Read the indirection pointer at `seek` and the metadata blocks it
    /// points at, enough to cover `size` bytes of packed entries.
    fn lookup_bytes(&mut self, superblock: &SuperBlock, seek: u64, size: u64) -> (r: Result<
        (u64, Vec<u8>),
        SquashfsError,
    >)
        requires
            size <= 0x1_0000_0000_0000,
        ensures
            final(self).data@ == old(self).data@,
            final(self).start == old(self).start,
            r matches Ok(p) ==> spec_lookup_ptr(old(self).spec_image(), seek as int) == Some(p.0)
                && spec_blocks_count(
                old(self).spec_image(),
                p.0 as int,
                spec_lookup_block_count(size as int),
                superblock.compressor,
            ) == Some(p.1@),
            r matches Ok(p) ==> spec_lookup_bytes(
                old(self).spec_image(),
                seek as int,
                size as int,
                superblock.compressor,
            ) == Some(p.1@),
            r matches Err(e) ==> spec_lookup_bytes(
                old(self).spec_image(),
                seek as int,
                size as int,
                superblock.compressor,
            ) is None,
    {
        self.pos = seek;
        let img = self.image_slice();
        let ilen: usize = img.len();
        if seek > u64::MAX - 8 || seek + 8 > ilen as u64 {
            proof {
                assert(spec_lookup_ptr(old(self).spec_image(), seek as int) is None);
            }
            return Err(SquashfsError::Truncated);
        }
        let ptr = read_u64(img, seek as usize);
        let block_count: u64 = (size + 8191) / 8192;
        match read_blocks_count(img, ptr, block_count, superblock.compressor) {
            Ok(bytes) => Ok((ptr, bytes)),
            Err(e) => Err(e),
        }
    }

    /// Read the fragment lookup table, when the superblock says fragments
    /// exist: the indirection pointer at `frag_table` and the decoded
    /// entries.
    pub fn fragments(&mut self, superblock: &SuperBlock) -> (r: Result<
        Option<(u64, Vec<Fragment>)>,
        SquashfsError,
    >)
        requires
            old(self).spec_valid_for(*superblock),
        ensures
            final(self).data@ == old(self).data@,
            final(self).start == old(self).start,
            superblock.frag_count == 0 <==> r == Ok::<
                Option<(u64, Vec<Fragment>)>,
                SquashfsError,
            >(Option::None),
            r matches Ok(o) ==> o matches Some(p) ==> {
                &&& spec_lookup_ptr(old(self).spec_image(), superblock.frag_table as int) == Some(
                    p.0,
                )
                &&& match spec_blocks_count(
                    old(self).spec_image(),
                    p.0 as int,
                    spec_lookup_block_count(16 * superblock.frag_count as int),
                    superblock.compressor,
                ) {
                    Option::Some(bytes) => p.1@ == spec_fragment_table(
                        bytes,
                        superblock.frag_count as int,
                    ) && 16 * superblock.frag_count as int <= bytes.len(),
                    Option::None => false,
                }
            },
            r matches Err(e) ==> superblock.frag_count > 0 && (match spec_lookup_bytes(
                old(self).spec_image(),
                superblock.frag_table as int,
                16 * superblock.frag_count as int,
                superblock.compressor,
            ) {
                Option::Some(bytes) => 16 * superblock.frag_count as int > bytes.len() && e
                    == SquashfsError::Truncated,
                Option::None => true,
            }),
    {
        if superblock.frag_count == 0 {
            return Ok(Option::None);
        }
        let size: u64 = (superblock.frag_count as u64) * (FRAGMENT_SIZE as u64);
        let (ptr, bytes) = match self.lookup_bytes(superblock, superblock.frag_table, size) {
            Ok(p) => p,
            Err(e) => {
                return Err(e);
            },
        };
        match parse_fragment_table(bytes.as_slice(), superblock.frag_count as usize) {
            Ok(v) => Ok(Some((ptr, v))),
            Err(e) => Err(e),
        }
    }
}

impl SquashfsReader {
    /// Decode and validate the superblock at the start of the image.
    pub fn superblock(&mut self) -> (r: Result<SuperBlock, SquashfsError>)
        ensures
            final(self).data@ == old(self).data@,
            final(self).start == old(self).start,
            r == crate::superblock::spec_parse_superblock(old(self).spec_image()),
            r matches Ok(sb) ==> sb.spec_valid(),
    {
        self.pos = 0;
        let img = self.image_slice();
        SuperBlock::parse(img)
    }

    /// Read the single metadata block that follows the 96-byte superblock:
    /// the compressor-options block.
    pub fn options_block(&mut self, superblock: &SuperBlock) -> (r: Result<Vec<u8>, SquashfsError>)
        ensures
            final(self).data@ == old(self).data@,
            final(self).start == old(self).start,
            r matches Ok(v) ==> spec_read_block(
                old(self).spec_image(),
                96,
                superblock.compressor,
            ) matches Some(p) && p.0 == v@,
            r matches Err(e) ==> spec_read_block(
                old(self).spec_image(),
                96,
                superblock.compressor,
            ) is None && e == crate::metadata::spec_read_block_err(
                old(self).spec_image(),
                96,
                superblock.compressor,
            ),
    {
        self.pos = 96;
        let img = self.image_slice();
        match read_block(img, 96, superblock.compressor) {
            Ok(p) => Ok(p.0),
            Err(e) => Err(e),
        }
    }

    /// Read the export lookup table, when the superblock's flags announce
    /// one: the indirection pointer at `export_table` and the decoded
    /// entries, one per inode.
    pub fn export(&mut self, superblock: &SuperBlock) -> (r: Result<
        Option<(u64, Vec<crate::squashfs::Export>)>,
        SquashfsError,
    >)
        requires
            old(self).spec_valid_for(*superblock),
        ensures
            final(self).data@ == old(self).data@,
            final(self).start == old(self).start,
            superblock.flags & 0x0080u16 == 0 <==> r == Ok::<
                Option<(u64, Vec<crate::squashfs::Export>)>,
                SquashfsError,
            >(Option::None),
            r matches Ok(o) ==> o matches Some(p) ==> {
                &&& spec_lookup_ptr(old(self).spec_image(), superblock.export_table as int) == Some(
                    p.0,
                )
                &&& match spec_blocks_count(
                    old(self).spec_image(),
                    p.0 as int,
                    spec_lookup_block_count(8 * superblock.inode_count as int),
                    superblock.compressor,
                ) {
                    Option::Some(bytes) => p.1@ == crate::squashfs::spec_export_table(
                        bytes,
                        superblock.inode_count as int,
                    ) && 8 * superblock.inode_count as int <= bytes.len(),
                    Option::None => false,
                }
            },
            r matches Err(e) ==> superblock.flags & 0x0080u16 != 0 && (match spec_lookup_bytes(
                old(self).spec_image(),
                superblock.export_table as int,
                8 * superblock.inode_count as int,
                superblock.compressor,
            ) {
                Option::Some(bytes) => 8 * superblock.inode_count as int > bytes.len() && e
                    == SquashfsError::Truncated,
                Option::None => true,
            }),
    {
        if superblock.flags & 0x0080u16 == 0 {
            return Ok(Option::None);
        }
        let size: u64 = (superblock.inode_count as u64) * 8;
        let (ptr, bytes) = match self.lookup_bytes(superblock, superblock.export_table, size) {
            Ok(p) => p,
            Err(e) => {
                return Err(e);
            },
        };
        match crate::squashfs::parse_export_table(bytes.as_slice(), superblock.inode_count as usize) {
            Ok(v) => Ok(Some((ptr, v))),
            Err(e) => Err(e),
        }
    }

    /// Read the id lookup table, unconditionally whenever `id_count > 0`:
    /// the indirection pointer at `id_table` and the decoded entries.
    pub fn id(&mut self, superblock: &SuperBlock) -> (r: Result<
        Option<(u64, Vec<crate::squashfs::Id>)>,
        SquashfsError,
    >)
        requires
            old(self).spec_valid_for(*superblock),
        ensures
            final(self).data@ == old(self).data@,
            final(self).start == old(self).start,
            superblock.id_count == 0 <==> r == Ok::<
                Option<(u64, Vec<crate::squashfs::Id>)>,
                SquashfsError,
            >(Option::None),
            r matches Ok(o) ==> o matches Some(p) ==> {
                &&& spec_lookup_ptr(old(self).spec_image(), superblock.id_table as int) == Some(p.0)
                &&& match spec_blocks_count(
                    old(self).spec_image(),
                    p.0 as int,
                    spec_lookup_block_count(4 * superblock.id_count as int),
                    superblock.compressor,
                ) {
                    Option::Some(bytes) => p.1@ == crate::squashfs::spec_id_table(
                        bytes,
                        superblock.id_count as int,
                    ) && 4 * superblock.id_count as int <= bytes.len(),
                    Option::None => false,
                }
            },
            r matches Err(e) ==> superblock.id_count > 0 && (match spec_lookup_bytes(
                old(self).spec_image(),
                superblock.id_table as int,
                4 * superblock.id_count as int,
                superblock.compressor,
            ) {
                Option::Some(bytes) => 4 * superblock.id_count as int > bytes.len() && e
                    == SquashfsError::Truncated,
                Option::None => true,
            }),
    {
        if superblock.id_count == 0 {
            return Ok(Option::None);
        }
        let size: u64 = (superblock.id_count as u64) * 4;
        let (ptr, bytes) = match self.lookup_bytes(superblock, superblock.id_table, size) {
            Ok(p) => p,
            Err(e) => {
                return Err(e);
            },
        };
        match crate::squashfs::parse_id_table(bytes.as_slice(), superblock.id_count as usize) {
            Ok(v) => Ok(Some((ptr, v))),
            Err(e) => Err(e),
        }
    }
}

} // verus!
