//! The emitted node tree and on-demand file content reading.

use crate::compressor::decompress;
use crate::compressor::CompressionOptions;
use crate::compressor::Compressor;
use crate::error::SquashfsError;
use crate::fragment::Fragment;
use crate::inode::BasicFile;
use crate::inode::BasicFileV;
use crate::inode::ExtendedFileV;
use crate::inode::InodeHeader;
use crate::squashfs::Id;
use std::collections::HashMap;
use vstd::prelude::*;
use vstd::slice::slice_subrange;
use vstd::slice::slice_to_vec;

verus! {

broadcast use vstd::std_specs::hash::group_hash_axioms;

/// The ownership and timestamp record every node carries.
#[derive(Clone, Copy, Debug, PartialEq, Eq, Structural)]
pub struct NodeHeader {
    pub permissions: u16,
    /// Index into the id table giving the owner.
    pub uid: u16,
    /// Index into the id table giving the group.
    pub gid: u16,
    pub mod_time: u32,
}

/// The node header taken from an inode header.
pub open spec fn spec_node_header(h: InodeHeader) -> NodeHeader {
    NodeHeader { permissions: h.permissions, uid: h.uid, gid: h.gid, mod_time: h.mod_time }
}

/// Build the node header of an inode header.
pub fn node_header(h: &InodeHeader) -> (r: NodeHeader)
    ensures
        r == spec_node_header(*h),
{
    NodeHeader { permissions: h.permissions, uid: h.uid, gid: h.gid, mod_time: h.mod_time }
}

#[derive(Clone, Copy, Debug, PartialEq, Eq, Structural)]
pub struct SquashfsDir {
    pub header: NodeHeader,
}

pub struct SquashfsFileReader {
    pub header: NodeHeader,
    pub basic: BasicFile,
}

pub struct SquashfsSymlink {
    pub header: NodeHeader,
    /// The link's own name.
    pub original: Vec<u8>,
    /// What the link points at.
    pub link: Vec<u8>,
}

#[derive(Clone, Copy, Debug, PartialEq, Eq, Structural)]
pub struct SquashfsCharacterDevice {
    pub header: NodeHeader,
    pub device_number: u32,
}

#[derive(Clone, Copy, Debug, PartialEq, Eq, Structural)]
pub struct SquashfsBlockDevice {
    pub header: NodeHeader,
    pub device_number: u32,
}

#[derive(Clone, Copy, Debug, PartialEq, Eq, Structural)]
pub struct SquashfsFifo {
    pub header: NodeHeader,
}

#[derive(Clone, Copy, Debug, PartialEq, Eq, Structural)]
pub struct SquashfsSocket {
    pub header: NodeHeader,
}

/// The payload of one emitted node.
pub enum InnerNode {
    Dir(SquashfsDir),
    File(SquashfsFileReader),
    Symlink(SquashfsSymlink),
    CharacterDevice(SquashfsCharacterDevice),
    BlockDevice(SquashfsBlockDevice),
    Fifo(SquashfsFifo),
    Socket(SquashfsSocket),
}

/// One emitted node: an absolute `/`-delimited path and its payload.
pub struct Node {
    pub path: Vec<u8>,
    pub inner: InnerNode,
}

pub struct SquashfsFileReaderV {
    pub header: NodeHeader,
    pub basic: BasicFileV,
}

pub struct SquashfsSymlinkV {
    pub header: NodeHeader,
    pub original: Seq<u8>,
    pub link: Seq<u8>,
}

pub enum InnerNodeV {
    Dir(SquashfsDir),
    File(SquashfsFileReaderV),
    Symlink(SquashfsSymlinkV),
    CharacterDevice(SquashfsCharacterDevice),
    BlockDevice(SquashfsBlockDevice),
    Fifo(SquashfsFifo),
    Socket(SquashfsSocket),
}

pub struct NodeV {
    pub path: Seq<u8>,
    pub inner: InnerNodeV,
}

impl View for Node {
    type V = NodeV;

    open spec fn view(&self) -> NodeV {
        NodeV {
            path: self.path@,
            inner: match self.inner {
                InnerNode::Dir(d) => InnerNodeV::Dir(d),
                InnerNode::File(f) => InnerNodeV::File(
                    SquashfsFileReaderV {
                        header: f.header,
                        basic: BasicFileV {
                            blocks_start: f.basic.blocks_start,
                            frag: f.basic.frag,
                            block_offset: f.basic.block_offset,
                            file_size: f.basic.file_size,
                            block_sizes: f.basic.block_sizes@,
                        },
                    },
                ),
                InnerNode::Symlink(s) => InnerNodeV::Symlink(
                    SquashfsSymlinkV {
                        header: s.header,
                        original: s.original@,
                        link: s.link@,
                    },
                ),
                InnerNode::CharacterDevice(c) => InnerNodeV::CharacterDevice(c),
                InnerNode::BlockDevice(b) => InnerNodeV::BlockDevice(b),
                InnerNode::Fifo(f) => InnerNodeV::Fifo(f),
                InnerNode::Socket(s) => InnerNodeV::Socket(s),
            },
        }
    }
}

/// The basic-file record equivalent to an extended-file record, when its
/// wide fields fit; a sparse or oversized extended file has none.
pub open spec fn spec_basic_of_extended(f: ExtendedFileV) -> Option<BasicFileV> {
    if f.blocks_start <= u32::MAX && f.file_size <= u32::MAX {
        Some(
            BasicFileV {
                blocks_start: f.blocks_start as u32,
                frag: f.frag,
                block_offset: f.block_offset,
                file_size: f.file_size as u32,
                block_sizes: f.block_sizes,
            },
        )
    } else {
        None
    }
}

/// POSIX path composition: append one name under a `/`-delimited path.
pub open spec fn spec_join(p: Seq<u8>, n: Seq<u8>) -> Seq<u8> {
    if p.len() > 0 && p[p.len() - 1] == 47u8 {
        p + n
    } else {
        p + seq![47u8] + n
    }
}

/// Append one name under a `/`-delimited path.
pub fn join_path(path: &Vec<u8>, name: &Vec<u8>) -> (r: Vec<u8>)
    ensures
        r@ == spec_join(path@, name@),
{
    let mut r = slice_to_vec(path.as_slice());
    let plen: usize = r.len();
    if !(plen > 0 && r[plen - 1] == 47u8) {
        r.push(47u8);
        proof {
            assert(path@.push(47u8) =~= path@ + seq![47u8]);
        }
    }
    crate::metadata::append_bytes(&mut r, name);
    proof {
        if path@.len() > 0 && path@[path@.len() - 1] == 47u8 {
        } else {
            assert((path@ + seq![47u8]) + name@ =~= path@ + seq![47u8] + name@);
        }
    }
    r
}

/// The fragment cache: the first time a fragment block is read, its
/// decompressed bytes are kept here, keyed by the fragment's start offset.
pub struct Cache {
    pub fragment_cache: HashMap<u64, Vec<u8>>,
}

/// A filesystem-like view of a parsed archive: the node tree, the tables
/// content reads need, and the raw data region.
pub struct FilesystemReader {
    pub block_size: u32,
    pub block_log: u16,
    pub compressor: Compressor,
    pub compression_options: Option<CompressionOptions>,
    pub mod_time: u32,
    /// Id lookup table, for resolving `uid`/`gid` indexes.
    pub id_table: Option<Vec<Id>>,
    /// Fragment lookup table.
    pub fragments: Option<Vec<Fragment>>,
    /// The root directory's node record.
    pub root_inode: SquashfsDir,
    /// Every non-root node, in pre-order; sibling order is on-disk order.
    pub nodes: Vec<Node>,
    /// The captured data-and-fragments region (the leading `inode_table`
    /// bytes of the image), which file reads consult.
    pub data: Vec<u8>,
    pub cache: Cache,
}

/// A run of `n` zero bytes.
pub open spec fn spec_zeros(n: int) -> Seq<u8> {
    Seq::new(n as nat, |k: int| 0u8)
}

/// What one stored block denotes: `len` bytes at `offset` of the data
/// region, taken raw when marked uncompressed, else what the compressor's
/// codec decodes them to, within `limit` bytes.
pub open spec fn spec_stored_block(
    data: Seq<u8>,
    offset: int,
    len: int,
    uncompressed: bool,
    c: Compressor,
    limit: int,
) -> Option<Seq<u8>> {
    if offset < 0 || len < 0 || offset + len > data.len() {
        None
    } else {
        let raw = data.subrange(offset, offset + len);
        if uncompressed {
            Some(raw)
        } else {
            match crate::compressor::spec_decompress(c, raw) {
                Option::Some(o) => if o.len() <= limit {
                    Some(o)
                } else {
                    None
                },
                Option::None => None,
            }
        }
    }
}

/// The concatenated content of a file's data blocks from index `i` on:
/// each size word's low 24 bits give the stored size (zero denotes a
/// sparse block of zeros), bit 24 marks it stored uncompressed, and the
/// stored bytes advance the read offset.
pub open spec fn spec_file_blocks(
    data: Seq<u8>,
    offset: int,
    sizes: Seq<u32>,
    i: int,
    c: Compressor,
    block_size: int,
) -> Option<Seq<u8>>
    decreases sizes.len() - i,
{
    if i >= sizes.len() {
        Some(Seq::empty())
    } else {
        let w = sizes[i];
        let on_disk = (w % 0x100_0000) as int;
        let uncompressed = (w / 0x100_0000) % 2 == 1;
        let cur = if on_disk == 0 {
            Some(spec_zeros(block_size))
        } else {
            spec_stored_block(data, offset, on_disk, uncompressed, c, block_size)
        };
        match cur {
            Option::Some(b) => match spec_file_blocks(
                data,
                offset + on_disk,
                sizes,
                i + 1,
                c,
                block_size,
            ) {
                Option::Some(rest) => Some(b + rest),
                Option::None => None,
            },
            Option::None => None,
        }
    }
}

/// What one fragment-table entry stores: its block at `start`, sized and
/// compressed per its `size` word.
pub open spec fn spec_frag_entry_bytes(
    data: Seq<u8>,
    f: Fragment,
    c: Compressor,
    block_size: int,
) -> Option<Seq<u8>> {
    spec_stored_block(
        data,
        f.start as int,
        (f.size % 0x100_0000) as int,
        (f.size / 0x100_0000) % 2 == 1,
        c,
        block_size,
    )
}

/// Whether `bytes` is the decoded content of some fragment-table entry
/// whose block starts at `k`. The cache is keyed by start offset, so this
/// is the exact guarantee a cached value carries.
pub open spec fn spec_cached_ok(
    data: Seq<u8>,
    tbl: Seq<Fragment>,
    c: Compressor,
    block_size: int,
    k: u64,
    bytes: Seq<u8>,
) -> bool {
    exists|j: int|
        0 <= j < tbl.len() && (#[trigger] tbl[j]).start == k && spec_frag_entry_bytes(
            data,
            tbl[j],
            c,
            block_size,
        ) == Some(bytes)
}

/// Whether `tail` is the fragment-tail slice of a file that references
/// fragment `fidx`: the bytes at `boff` of the decoded block of an entry
/// sharing that fragment's start offset.
pub open spec fn spec_file_tail_ok(
    data: Seq<u8>,
    tbl: Seq<Fragment>,
    c: Compressor,
    block_size: int,
    fidx: int,
    boff: int,
    tail: Seq<u8>,
) -> bool {
    exists|j: int|
        0 <= j < tbl.len() && (#[trigger] tbl[j]).start == tbl[fidx].start && (
        match spec_frag_entry_bytes(data, tbl[j], c, block_size) {
            Option::Some(fb) => 0 <= boff && boff + tail.len() <= fb.len() && tail == fb.subrange(
                boff,
                boff + tail.len(),
            ),
            Option::None => false,
        })
}

/// Whether the fragment tail of a file referencing fragment `fidx` cannot
/// be served: the entry's block does not decode, or every same-start
/// candidate the cache may hold is too short for the requested slice.
pub open spec fn spec_frag_tail_unavailable(
    data: Seq<u8>,
    tbl: Seq<Fragment>,
    c: Compressor,
    block_size: int,
    fidx: int,
    boff: int,
    tail_len: int,
) -> bool {
    ||| spec_frag_entry_bytes(data, tbl[fidx], c, block_size) is None
    ||| exists|j: int|
        0 <= j < tbl.len() && (#[trigger] tbl[j]).start == tbl[fidx].start && (
        match spec_frag_entry_bytes(data, tbl[j], c, block_size) {
            Option::Some(fb) => boff + tail_len > fb.len(),
            Option::None => true,
        })
}

/// Append `n` zero bytes.
fn append_zeros(dst: &mut Vec<u8>, n: usize)
    ensures
        final(dst)@ == old(dst)@ + spec_zeros(n as int),
{
    let mut k: usize = 0;
    proof {
        assert(dst@ =~= dst@ + spec_zeros(0));
    }
    while k < n
        invariant
            k <= n,
            dst@ == old(dst)@ + spec_zeros(k as int),
        decreases n - k,
    {
        proof {
            assert((old(dst)@ + spec_zeros(k as int)).push(0u8) =~= old(dst)@ + spec_zeros(
                k as int + 1,
            ));
        }
        dst.push(0u8);
        k = k + 1;
    }
}

impl FilesystemReader {
    /// The fragment cache holds only decoded fragment blocks: every cached
    /// run of bytes is the content of some table entry starting at its key.
    pub open spec fn frag_cache_wf(self) -> bool {
        forall|k: u64| #[trigger]
            self.cache.fragment_cache@.dom().contains(k) ==> match crate::squashfs::frag_view(
                self.fragments,
            ) {
                Option::Some(tbl) => spec_cached_ok(
                    self.data@,
                    tbl,
                    self.compressor,
                    self.block_size as int,
                    k,
                    self.cache.fragment_cache@[k]@,
                ),
                Option::None => false,
            }
    }

    /// Read the bytes stored for one data block or fragment block: `len`
    /// bytes at `offset` of the data region, decompressed unless the
    /// stored size had its uncompressed bit set.
    fn stored_block(&self, offset: u64, len: usize, uncompressed: bool, limit: usize) -> (r: Result<
        Vec<u8>,
        SquashfsError,
    >)
        ensures
            r matches Ok(v) ==> spec_stored_block(
                self.data@,
                offset as int,
                len as int,
                uncompressed,
                self.compressor,
                limit as int,
            ) == Some(v@),
            r matches Err(e) ==> spec_stored_block(
                self.data@,
                offset as int,
                len as int,
                uncompressed,
                self.compressor,
                limit as int,
            ) is None,
            r matches Ok(v) ==> uncompressed ==> v@.len() == len,
            r matches Ok(v) ==> !uncompressed ==> v@.len() <= limit,
    {
        let dlen: usize = self.data.len();
        if offset > dlen as u64 || dlen - (offset as usize) < len {
            return Err(SquashfsError::Truncated);
        }
        let raw = slice_subrange(self.data.as_slice(), offset as usize, offset as usize + len);
        if uncompressed {
            Ok(slice_to_vec(raw))
        } else {
            decompress(self.compressor, raw, limit)
        }
    }

    /// Reconstruct the full content of one file: every data block, then
    /// the tail slice of its fragment. The result is exactly `file_size`
    /// bytes, or the read fails with `FileSizeMismatch`.
    pub fn read_file(&mut self, basic: &BasicFile) -> (r: Result<Vec<u8>, SquashfsError>)
        requires
            1 <= old(self).block_size,
            old(self).frag_cache_wf(),
        ensures
            final(self).data@ == old(self).data@,
            final(self).nodes@ == old(self).nodes@,
            final(self).fragments == old(self).fragments,
            final(self).frag_cache_wf(),
            r matches Ok(v) ==> v@.len() == basic.file_size,
            r matches Ok(v) ==> basic.frag == crate::inode::FRAG_NOT_USED
                ==> spec_file_blocks(
                old(self).data@,
                basic.blocks_start as int,
                basic.block_sizes@,
                0,
                old(self).compressor,
                old(self).block_size as int,
            ) == Some(v@),
            r matches Ok(v) ==> basic.frag != crate::inode::FRAG_NOT_USED
                ==> (match crate::squashfs::frag_view(old(self).fragments) {
                Option::Some(tbl) => {
                    &&& (basic.frag as int) < tbl.len()
                    &&& match spec_file_blocks(
                        old(self).data@,
                        basic.blocks_start as int,
                        basic.block_sizes@,
                        0,
                        old(self).compressor,
                        old(self).block_size as int,
                    ) {
                        Option::Some(body) => {
                            &&& body.len() <= v@.len()
                            &&& v@.subrange(0, body.len() as int) == body
                            &&& spec_file_tail_ok(
                                old(self).data@,
                                tbl,
                                old(self).compressor,
                                old(self).block_size as int,
                                basic.frag as int,
                                basic.block_offset as int,
                                v@.subrange(body.len() as int, v@.len() as int),
                            )
                        },
                        Option::None => false,
                    }
                },
                Option::None => false,
            }),
            basic.frag == crate::inode::FRAG_NOT_USED ==> ((r is Ok) <==> (
            match spec_file_blocks(
                old(self).data@,
                basic.blocks_start as int,
                basic.block_sizes@,
                0,
                old(self).compressor,
                old(self).block_size as int,
            ) {
                Option::Some(body) => body.len() == basic.file_size,
                Option::None => false,
            })),
            r matches Err(e) ==> basic.frag != crate::inode::FRAG_NOT_USED ==> (
            match spec_file_blocks(
                old(self).data@,
                basic.blocks_start as int,
                basic.block_sizes@,
                0,
                old(self).compressor,
                old(self).block_size as int,
            ) {
                Option::Some(body) => (match crate::squashfs::frag_view(old(self).fragments) {
                    Option::Some(tbl) => ((basic.frag as int) >= tbl.len() && e
                        == SquashfsError::FileNotFound) || ((basic.frag as int) < tbl.len() && (
                    spec_frag_tail_unavailable(
                        old(self).data@,
                        tbl,
                        old(self).compressor,
                        old(self).block_size as int,
                        basic.frag as int,
                        basic.block_offset as int,
                        basic.file_size as int % old(self).block_size as int,
                    ) || body.len() + (basic.file_size as int % old(self).block_size as int)
                        != basic.file_size)),
                    Option::None => e == SquashfsError::FileNotFound,
                }),
                Option::None => true,
            }),
    {
        let ghost data0 = old(self).data@;
        let ghost sizes = basic.block_sizes@;
        let ghost bs_int = old(self).block_size as int;
        let ghost c0 = old(self).compressor;
        let ghost start0 = basic.blocks_start as int;
        let block_size: usize = self.block_size as usize;
        let mut out: Vec<u8> = Vec::new();
        let mut offset: u64 = basic.blocks_start as u64;
        let n: usize = basic.block_sizes.len();
        let mut i: usize = 0;
        proof {
            let x = spec_file_blocks(data0, start0, sizes, 0, c0, bs_int);
            match x {
                Option::Some(rest) => {
                    assert(Seq::<u8>::empty() + rest =~= rest);
                },
                Option::None => {},
            }
            assert(out@ =~= Seq::<u8>::empty());
        }
        while i < n
            invariant
                i <= n,
                n == basic.block_sizes@.len(),
                sizes == basic.block_sizes@,
                self.data@ == old(self).data@,
                self.data@ == data0,
                self.nodes@ == old(self).nodes@,
                self.block_size == old(self).block_size,
                self.compressor == old(self).compressor,
                self.compressor == c0,
                self.fragments == old(self).fragments,
                self.cache.fragment_cache@ == old(self).cache.fragment_cache@,
                old(self).frag_cache_wf(),
                self.frag_cache_wf(),
                block_size == self.block_size,
                bs_int == self.block_size as int,
                start0 == basic.blocks_start as int,
                spec_file_blocks(data0, start0, sizes, 0, c0, bs_int)
                    == crate::metadata::bytes_completion(
                    out@,
                    spec_file_blocks(data0, offset as int, sizes, i as int, c0, bs_int),
                ),
            decreases n - i,
        {
            let ghost out_pre = out@;
            let sz = basic.block_sizes[i];
            let on_disk: u32 = sz % 0x100_0000;
            let uncompressed: bool = (sz / 0x100_0000) % 2 == 1;
            let ghost y = spec_file_blocks(
                data0,
                offset as int + on_disk as int,
                sizes,
                i as int + 1,
                c0,
                bs_int,
            );
            if on_disk == 0 {
                // a sparse block: block_size zero bytes
                append_zeros(&mut out, block_size);
                proof {
                    assert(spec_file_blocks(data0, offset as int, sizes, i as int, c0, bs_int)
                        == crate::metadata::bytes_completion(spec_zeros(bs_int), y));
                    match y {
                        Option::Some(rest) => {
                            assert(out_pre + (spec_zeros(bs_int) + rest) =~= (out_pre + spec_zeros(
                                bs_int,
                            )) + rest);
                        },
                        Option::None => {},
                    }
                }
            } else {
                let bytes = match self.stored_block(
                    offset,
                    on_disk as usize,
                    uncompressed,
                    block_size,
                ) {
                    Ok(v) => v,
                    Err(e) => {
                        proof {
                            assert(spec_file_blocks(
                                data0,
                                offset as int,
                                sizes,
                                i as int,
                                c0,
                                bs_int,
                            ) is None);
                            assert(spec_file_blocks(data0, start0, sizes, 0, c0, bs_int) is None);
                        }
                        return Err(e);
                    },
                };
                proof {
                    assert(spec_file_blocks(data0, offset as int, sizes, i as int, c0, bs_int)
                        == crate::metadata::bytes_completion(bytes@, y));
                    match y {
                        Option::Some(rest) => {
                            assert(out_pre + (bytes@ + rest) =~= (out_pre + bytes@) + rest);
                        },
                        Option::None => {},
                    }
                }
                crate::metadata::append_bytes(&mut out, &bytes);
            }
            if offset > u64::MAX - on_disk as u64 {
                // unreachable: a block that read within the data region
                // cannot advance the offset past the address space
                let _dlen: usize = self.data.len();
                proof {
                    assert(false);
                }
                return Err(SquashfsError::Truncated);
            }
            offset = offset + on_disk as u64;
            i = i + 1;
        }
        proof {
            assert(spec_file_blocks(data0, offset as int, sizes, n as int, c0, bs_int) == Some(
                Seq::<u8>::empty(),
            ));
            assert(out@ + Seq::<u8>::empty() =~= out@);
        }
        let ghost body = out@;
        if basic.frag != crate::inode::FRAG_NOT_USED {
            let tail_len: usize = (basic.file_size as usize) % block_size;
            let frag_bytes = match self.fragment_bytes(basic.frag) {
                Ok(v) => v,
                Err(e) => {
                    return Err(e);
                },
            };
            let flen: usize = frag_bytes.len();
            let lo: usize = basic.block_offset as usize;
            if lo > flen || flen - lo < tail_len {
                proof {
                    match crate::squashfs::frag_view(old(self).fragments) {
                        Option::Some(tbl) => {
                            let k = tbl[basic.frag as int].start;
                            let j = choose|j: int|
                                0 <= j < tbl.len() && (#[trigger] tbl[j]).start == k
                                    && spec_frag_entry_bytes(data0, tbl[j], c0, bs_int) == Some(
                                    frag_bytes@,
                                );
                            assert(tbl[j].start == tbl[basic.frag as int].start);
                            assert(spec_frag_tail_unavailable(
                                data0,
                                tbl,
                                c0,
                                bs_int,
                                basic.frag as int,
                                basic.block_offset as int,
                                basic.file_size as int % bs_int,
                            ));
                        },
                        Option::None => {
                            assert(false);
                        },
                    }
                }
                return Err(SquashfsError::FileSizeMismatch);
            }
            let tail = slice_subrange(frag_bytes.as_slice(), lo, lo + tail_len);
            let tail_vec = slice_to_vec(tail);
            crate::metadata::append_bytes(&mut out, &tail_vec);
            proof {
                match crate::squashfs::frag_view(old(self).fragments) {
                    Option::Some(tbl) => {
                        let k = tbl[basic.frag as int].start;
                        let j = choose|j: int|
                            0 <= j < tbl.len() && (#[trigger] tbl[j]).start == k
                                && spec_frag_entry_bytes(data0, tbl[j], c0, bs_int) == Some(
                                frag_bytes@,
                            );
                        let tail_s = frag_bytes@.subrange(lo as int, lo as int + tail_len as int);
                        assert(out@ == body + tail_s);
                        assert(out@.subrange(0, body.len() as int) =~= body);
                        assert(out@.subrange(body.len() as int, out@.len() as int) =~= tail_s);
                        assert(tbl[j].start == tbl[basic.frag as int].start);
                    },
                    Option::None => {
                        assert(false);
                    },
                }
            }
        }
        if out.len() as u64 != basic.file_size as u64 {
            return Err(SquashfsError::FileSizeMismatch);
        }
        Ok(out)
    }

    /// The decompressed bytes of fragment `idx`, from the cache when the
    /// fragment's block was read before, else from the data region.
    fn fragment_bytes(&mut self, idx: u32) -> (r: Result<Vec<u8>, SquashfsError>)
        requires
            1 <= old(self).block_size,
            old(self).frag_cache_wf(),
        ensures
            final(self).data@ == old(self).data@,
            final(self).nodes@ == old(self).nodes@,
            final(self).block_size == old(self).block_size,
            final(self).compressor == old(self).compressor,
            final(self).fragments == old(self).fragments,
            final(self).frag_cache_wf(),
            r matches Ok(v) ==> (match crate::squashfs::frag_view(old(self).fragments) {
                Option::Some(tbl) => (idx as int) < tbl.len() && spec_cached_ok(
                    old(self).data@,
                    tbl,
                    old(self).compressor,
                    old(self).block_size as int,
                    tbl[idx as int].start,
                    v@,
                ),
                Option::None => false,
            }),
            r matches Err(e) ==> (match crate::squashfs::frag_view(old(self).fragments) {
                Option::Some(tbl) => ((idx as int >= tbl.len()) && e
                    == SquashfsError::FileNotFound) || ((idx as int) < tbl.len()
                    && spec_frag_entry_bytes(
                    old(self).data@,
                    tbl[idx as int],
                    old(self).compressor,
                    old(self).block_size as int,
                ) is None),
                Option::None => e == SquashfsError::FileNotFound,
            }),
    {
        let entry: Fragment = {
            let frags = match &self.fragments {
                Some(f) => f,
                Option::None => {
                    return Err(SquashfsError::FileNotFound);
                },
            };
            if idx as usize >= frags.len() {
                return Err(SquashfsError::FileNotFound);
            }
            frags[idx as usize]
        };
        let cached: Option<Vec<u8>> = match self.cache.fragment_cache.get(&entry.start) {
            Some(v) => Some(slice_to_vec(v.as_slice())),
            Option::None => Option::None,
        };
        match cached {
            Some(v) => {
                proof {
                    assert(self.cache.fragment_cache@.dom().contains(entry.start));
                }
                Ok(v)
            },
            Option::None => {
                let on_disk: u32 = entry.size % 0x100_0000;
                let uncompressed: bool = (entry.size / 0x100_0000) % 2 == 1;
                let bytes = match self.stored_block(
                    entry.start,
                    on_disk as usize,
                    uncompressed,
                    self.block_size as usize,
                ) {
                    Ok(v) => v,
                    Err(e) => {
                        return Err(e);
                    },
                };
                let copy = slice_to_vec(bytes.as_slice());
                let ghost pre_cache = self.cache.fragment_cache@;
                proof {
                    match crate::squashfs::frag_view(self.fragments) {
                        Option::Some(tbl) => {
                            assert(tbl[idx as int].start == entry.start);
                            assert(spec_frag_entry_bytes(
                                self.data@,
                                tbl[idx as int],
                                self.compressor,
                                self.block_size as int,
                            ) == Some(bytes@));
                        },
                        Option::None => {
                            assert(false);
                        },
                    }
                }
                self.cache.fragment_cache.insert(entry.start, copy);
                proof {
                    assert forall|k: u64| #[trigger]
                        self.cache.fragment_cache@.dom().contains(k) implies match crate::squashfs::frag_view(
                        self.fragments,
                    ) {
                        Option::Some(tbl) => spec_cached_ok(
                            self.data@,
                            tbl,
                            self.compressor,
                            self.block_size as int,
                            k,
                            self.cache.fragment_cache@[k]@,
                        ),
                        Option::None => false,
                    } by {
                        if k != entry.start {
                            assert(pre_cache.dom().contains(k));
                            assert(self.cache.fragment_cache@[k] == pre_cache[k]);
                        }
                    }
                }
                Ok(bytes)
            },
        }
    }
}

} // verus!
