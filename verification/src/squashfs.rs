//! The in-memory archive: the parsed superblock and tables, and the parse
//! pipeline that builds them from an image.

use crate::compressor::parse_compression_options;
use crate::compressor::spec_options;
use crate::compressor::CompressionOptions;
use crate::compressor::Compressor;
use crate::dir::parse_dir_list;
use crate::dir::spec_dir_list;
use crate::dir::Dir;
use crate::dir::DirEntry;
use crate::dir::DirV;
use crate::inode::BasicFile;
use crate::inode::InodeInner;
use crate::error::SquashfsError;
use crate::fragment::spec_fragment_table;
use crate::fragment::Fragment;
use crate::inode::Inode;
use crate::inode::InodeV;
use crate::le::le32;
use crate::le::le64;
use crate::le::read_u32;
use crate::le::read_u64;
use crate::metadata::append_bytes;
use crate::metadata::spec_blocks_count;
use crate::metadata::spec_blocks_range;
use crate::metadata::spec_read_block;
use crate::reader::spec_block_runs;
use crate::reader::spec_lookup_block_count;
use crate::reader::spec_lookup_ptr;
use crate::reader::spec_root_inode;
use crate::reader::DirBlock;
use crate::reader::DirBlockV;
use crate::reader::SquashfsReader;
use crate::superblock::spec_parse_superblock;
use crate::superblock::SuperBlock;
use std::collections::HashMap;
use vstd::prelude::*;

verus! {

broadcast use vstd::std_specs::hash::group_hash_axioms;

/// NFS export support: one inode reference.
#[derive(Clone, Copy, Debug, PartialEq, Eq, Structural)]
pub struct Export(pub u64);

/// One 32-bit user or group id.
#[derive(Clone, Copy, Debug, PartialEq, Eq, Structural)]
pub struct Id(pub u32);

/// The first `n` export entries of the concatenated table bytes.
pub open spec fn spec_export_table(b: Seq<u8>, n: int) -> Seq<Export> {
    Seq::new(n as nat, |k: int| Export(le64(b, 8 * k)))
}

/// The first `n` id entries of the concatenated table bytes.
pub open spec fn spec_id_table(b: Seq<u8>, n: int) -> Seq<Id> {
    Seq::new(n as nat, |k: int| Id(le32(b, 4 * k)))
}

/// Decode `n` export entries from the concatenated table bytes `b`.
pub fn parse_export_table(b: &[u8], n: usize) -> (r: Result<Vec<Export>, SquashfsError>)
    ensures
        r matches Ok(v) ==> 8 * n <= b@.len() && v@ == spec_export_table(b@, n as int),
        r matches Err(e) ==> 8 * n > b@.len() && e == SquashfsError::Truncated,
{
    let blen: usize = b.len();
    proof {
        assert(8 * ((blen as int) / 8) <= blen as int);
        assert((blen as int) < 8 * ((blen as int) / 8) + 8);
    }
    if n > blen / 8 {
        return Err(SquashfsError::Truncated);
    }
    let mut v: Vec<Export> = Vec::new();
    let mut k: usize = 0;
    while k < n
        invariant
            k <= n,
            8 * n <= blen,
            blen == b@.len(),
            v@.len() == k,
            forall|q: int| 0 <= q < k ==> v@[q] == Export(le64(b@, 8 * q)),
        decreases n - k,
    {
        v.push(Export(read_u64(b, 8 * k)));
        k = k + 1;
    }
    proof {
        assert(v@ =~= spec_export_table(b@, n as int));
    }
    Ok(v)
}

/// Decode `n` id entries from the concatenated table bytes `b`.
pub fn parse_id_table(b: &[u8], n: usize) -> (r: Result<Vec<Id>, SquashfsError>)
    ensures
        r matches Ok(v) ==> 4 * n <= b@.len() && v@ == spec_id_table(b@, n as int),
        r matches Err(e) ==> 4 * n > b@.len() && e == SquashfsError::Truncated,
{
    let blen: usize = b.len();
    proof {
        assert(4 * ((blen as int) / 4) <= blen as int);
        assert((blen as int) < 4 * ((blen as int) / 4) + 4);
    }
    if n > blen / 4 {
        return Err(SquashfsError::Truncated);
    }
    let mut v: Vec<Id> = Vec::new();
    let mut k: usize = 0;
    while k < n
        invariant
            k <= n,
            4 * n <= blen,
            blen == b@.len(),
            v@.len() == k,
            forall|q: int| 0 <= q < k ==> v@[q] == Id(le32(b@, 4 * q)),
        decreases n - k,
    {
        v.push(Id(read_u32(b, 4 * k)));
        k = k + 1;
    }
    proof {
        assert(v@ =~= spec_id_table(b@, n as int));
    }
    Ok(v)
}

/// The inode-number sequence of a decoded inode table.
pub open spec fn spec_inode_numbers(inos: Seq<InodeV>) -> Seq<u32> {
    inos.map_values(|i: InodeV| i.header.inode_number)
}

/// The numbering discipline the format requires of an inode table with
/// `count` inodes: exactly `count` inodes, all numbered within
/// `[1, count]`, no number repeated.
pub open spec fn spec_numbers_ok(inos: Seq<InodeV>, count: u32) -> bool {
    &&& inos.len() == count
    &&& forall|i: int|
        0 <= i < inos.len() ==> 1 <= #[trigger] inos[i].header.inode_number <= count
    &&& spec_inode_numbers(inos).no_duplicates()
}

/// The map an inode table builds: each inode keyed by its number.
pub open spec fn spec_map_suffix(v: Seq<Inode>, k: int) -> Map<u32, Inode>
    decreases v.len() - k,
{
    if k < 0 || k >= v.len() {
        Map::empty()
    } else {
        spec_map_suffix(v, k + 1).insert(v[k].header.inode_number, v[k])
    }
}

/// The domain of `spec_map_suffix(v, k)` is exactly the set of inode
/// numbers occurring at indexes `k` and beyond.
pub proof fn lemma_map_suffix_dom(v: Seq<Inode>, k: int)
    requires
        0 <= k <= v.len(),
    ensures
        forall|x: u32|
            spec_map_suffix(v, k).dom().contains(x) <==> exists|i: int|
                k <= i < v.len() && #[trigger] v[i].header.inode_number == x,
    decreases v.len() - k,
{
    if k < v.len() {
        lemma_map_suffix_dom(v, k + 1);
        let m = spec_map_suffix(v, k);
        let mrest = spec_map_suffix(v, k + 1);
        assert forall|x: u32| #[trigger] m.dom().contains(x) implies exists|i: int|
            k <= i < v.len() && #[trigger] v[i].header.inode_number == x by {
            if x == v[k].header.inode_number {
                assert(v[k].header.inode_number == x);
            } else {
                assert(mrest.dom().contains(x));
            }
        }
        assert forall|x: u32|
            (exists|i: int| k <= i < v.len() && #[trigger] v[i].header.inode_number == x) implies #[trigger] m.dom().contains(x) by {
            let i = choose|i: int| k <= i < v.len() && #[trigger] v[i].header.inode_number == x;
            if i != k {
                assert(mrest.dom().contains(x));
            }
        }
    }
}

/// Check the numbering discipline of a decoded inode table: exactly
/// `count` inodes, all numbered within `[1, count]`, no number repeated.
pub fn check_numbers(v: &Vec<Inode>, count: u32) -> (r: bool)
    ensures
        r == spec_numbers_ok(v@.map_values(|x: Inode| x@), count),
{
    let ghost inos = v@.map_values(|x: Inode| x@);
    let ghost nums = spec_inode_numbers(inos);
    let n: usize = v.len();
    if n as u64 != count as u64 {
        return false;
    }
    let mut i: usize = 0;
    while i < n
        invariant
            i <= n,
            n == v@.len(),
            inos == v@.map_values(|x: Inode| x@),
            count == count,
            forall|q: int| 0 <= q < i ==> 1 <= #[trigger] inos[q].header.inode_number <= count,
        decreases n - i,
    {
        let num = v[i].header.inode_number;
        if num < 1 || num > count {
            proof {
                assert(inos[i as int].header.inode_number == num);
            }
            return false;
        }
        i = i + 1;
    }
    let mut a: usize = 0;
    while a < n
        invariant
            a <= n,
            n == v@.len(),
            inos == v@.map_values(|x: Inode| x@),
            nums == spec_inode_numbers(inos),
            forall|p: int, q: int| 0 <= p < a && p < q < n ==> nums[p] != nums[q],
        decreases n - a,
    {
        let na = v[a].header.inode_number;
        proof {
            assert(nums[a as int] == na);
        }
        let mut bq: usize = a + 1;
        while bq < n
            invariant
                a < n,
                a + 1 <= bq <= n,
                n == v@.len(),
                inos == v@.map_values(|x: Inode| x@),
                nums == spec_inode_numbers(inos),
                na == nums[a as int],
                forall|q: int| a < q < bq ==> nums[a as int] != nums[q],
            decreases n - bq,
        {
            if v[bq].header.inode_number == na {
                proof {
                    assert(nums[bq as int] == na);
                    assert(!nums.no_duplicates());
                }
                return false;
            }
            bq = bq + 1;
        }
        a = a + 1;
    }
    proof {
        assert forall|p: int, q: int|
            0 <= p < nums.len() && 0 <= q < nums.len() && p != q implies nums[p] != nums[q] by {
            if p < q {
            } else {
                assert(nums[q] != nums[p]);
            }
        }
        assert(nums.no_duplicates());
    }
    true
}

/// Build the `inode_number -> inode` map from a decoded inode table,
/// enforcing the numbering discipline: a number outside `[1, inode_count]`,
/// a repeated number, or a table whose size is not `inode_count` is
/// `CorruptInodeTable`.
pub fn build_inode_map(inodes: Vec<Inode>, inode_count: u32) -> (r: Result<
    HashMap<u32, Inode>,
    SquashfsError,
>)
    ensures
        r matches Ok(m) ==> {
            let inos = inodes@.map_values(|x: Inode| x@);
            &&& spec_numbers_ok(inos, inode_count)
            &&& m@.dom().len() == inode_count
            &&& forall|i: int|
                0 <= i < inos.len() ==> m@.dom().contains(
                    #[trigger] inos[i].header.inode_number,
                ) && m@[inos[i].header.inode_number]@ == inos[i]
            &&& forall|x: u32| #[trigger]
                m@.dom().contains(x) ==> 1 <= x <= inode_count && m@[x]@.header.inode_number == x
        },
        r matches Err(e) ==> e == SquashfsError::CorruptInodeTable && !spec_numbers_ok(
            inodes@.map_values(|x: Inode| x@),
            inode_count,
        ),
{
    let ghost orig = inodes@;
    let ghost inos = inodes@.map_values(|x: Inode| x@);
    let n: usize = inodes.len();
    if n as u64 != inode_count as u64 {
        return Err(SquashfsError::CorruptInodeTable);
    }
    let mut rest = inodes;
    let mut m: HashMap<u32, Inode> = HashMap::new();
    proof {
        assert(spec_map_suffix(orig, n as int) =~= Map::<u32, Inode>::empty());
    }
    while rest.len() > 0
        invariant
            orig == inodes@,
            rest@ == orig.subrange(0, rest@.len() as int),
            rest@.len() <= n == orig.len(),
            inos == orig.map_values(|x: Inode| x@),
            m@ == spec_map_suffix(orig, rest@.len() as int),
            forall|i: int|
                rest@.len() <= i < orig.len() ==> 1 <= #[trigger] orig[i].header.inode_number
                    <= inode_count,
            forall|i: int, j: int|
                rest@.len() <= i < j < orig.len() ==> orig[i].header.inode_number
                    != orig[j].header.inode_number,
        decreases rest@.len(),
    {
        let ghost k = rest@.len() - 1;
        let ino = match rest.pop() {
            Some(x) => x,
            Option::None => {
                proof {
                    assert(false);
                }
                return Err(SquashfsError::CorruptInodeTable);
            },
        };
        proof {
            assert(orig.subrange(0, k + 1).subrange(0, k) =~= orig.subrange(0, k));
            assert(ino == orig[k]);
        }
        let num = ino.header.inode_number;
        if num < 1 || num > inode_count {
            proof {
                assert(inos[k].header.inode_number == orig[k].header.inode_number);
                assert(!spec_numbers_ok(inos, inode_count));
            }
            return Err(SquashfsError::CorruptInodeTable);
        }
        if m.contains_key(&num) {
            proof {
                lemma_map_suffix_dom(orig, k + 1);
                let i = choose|i: int|
                    k + 1 <= i < orig.len() && #[trigger] orig[i].header.inode_number == num;
                assert(spec_inode_numbers(inos)[k] == num);
                assert(spec_inode_numbers(inos)[i] == num);
                assert(!spec_inode_numbers(inos).no_duplicates());
            }
            return Err(SquashfsError::CorruptInodeTable);
        }
        proof {
            lemma_map_suffix_dom(orig, k + 1);
            assert forall|i: int| k < i < orig.len() implies orig[i].header.inode_number
                != num by {
                if orig[i].header.inode_number == num {
                    assert(spec_map_suffix(orig, k + 1).dom().contains(num));
                }
            }
        }
        m.insert(num, ino);
    }
    proof {
        assert(rest@.len() == 0);
        lemma_map_suffix_dom(orig, 0);
        assert forall|i: int| 0 <= i < inos.len() implies m@.dom().contains(
            #[trigger] inos[i].header.inode_number,
        ) && m@[inos[i].header.inode_number]@ == inos[i] by {
            lemma_map_suffix_value(orig, 0, i);
        }
        assert forall|x: u32| #[trigger] m@.dom().contains(x) implies 1 <= x <= inode_count
            && m@[x]@.header.inode_number == x by {
            let i = choose|i: int|
                0 <= i < orig.len() && #[trigger] orig[i].header.inode_number == x;
            lemma_map_suffix_value(orig, 0, i);
            assert(orig[i]@.header.inode_number == x);
        }
        let nums = spec_inode_numbers(inos);
        assert(nums.no_duplicates());
        nums.unique_seq_to_set();
        assert forall|x: u32| m@.dom().contains(x) <==> nums.to_set().contains(x) by {
            if nums.to_set().contains(x) {
                let i = choose|i: int| 0 <= i < nums.len() && nums[i] == x;
                assert(orig[i]@.header.inode_number == x);
                assert(orig[i].header.inode_number == x);
            }
            if m@.dom().contains(x) {
                let i = choose|i: int|
                    0 <= i < orig.len() && #[trigger] orig[i].header.inode_number == x;
                assert(nums[i] == x);
            }
        }
        assert(m@.dom() =~= nums.to_set());
    }
    Ok(m)
}

/// In `spec_map_suffix(v, k)`, an index `i` at `k` or beyond whose inode
/// number repeats nowhere later is mapped to `v[i]`.
pub proof fn lemma_map_suffix_value(v: Seq<Inode>, k: int, i: int)
    requires
        0 <= k <= i < v.len(),
        forall|a: int, b: int|
            k <= a < b < v.len() ==> v[a]@.header.inode_number != v[b]@.header.inode_number,
    ensures
        spec_map_suffix(v, k).dom().contains(v[i].header.inode_number),
        spec_map_suffix(v, k)[v[i].header.inode_number] == v[i],
    decreases i - k,
{
    if k < i {
        lemma_map_suffix_value(v, k + 1, i);
        assert(v[k]@.header.inode_number != v[i]@.header.inode_number);
    }
}

/// Representation of a SquashFS image in memory. Tables such as inodes and
/// directories are extracted into struct types, while file data stays
/// compressed inside `data_and_fragments`.
pub struct Squashfs {
    pub superblock: SuperBlock,
    /// Compression options found in the metadata block after the
    /// superblock, when flag bit 10 announces one.
    pub compression_options: Option<CompressionOptions>,
    /// Whether the options payload carried more bytes than the documented
    /// layout; some producers pad it, and a careful caller may warn.
    pub options_oversized: bool,
    /// The leading `inode_table` bytes of the image: superblock, options
    /// block, and the compressed file data and fragments.
    pub data_and_fragments: Vec<u8>,
    /// Every inode, keyed by its inode number.
    pub inodes: HashMap<u32, Inode>,
    /// The root directory's inode.
    pub root_inode: Inode,
    /// The decompressed directory-table blocks with their offsets.
    pub dir_blocks: Vec<DirBlock>,
    /// Fragment lookup table.
    pub fragments: Option<Vec<Fragment>>,
    /// Export lookup table.
    pub export: Option<Vec<Export>>,
    /// Id lookup table.
    pub id: Option<Vec<Id>>,
}

pub open spec fn frag_view(o: Option<Vec<Fragment>>) -> Option<Seq<Fragment>> {
    match o {
        Option::Some(v) => Some(v@),
        Option::None => None,
    }
}

pub open spec fn export_view(o: Option<Vec<Export>>) -> Option<Seq<Export>> {
    match o {
        Option::Some(v) => Some(v@),
        Option::None => None,
    }
}

pub open spec fn id_view(o: Option<Vec<Id>>) -> Option<Seq<Id>> {
    match o {
        Option::Some(v) => Some(v@),
        Option::None => None,
    }
}

/// The relation between an image and the options record parsed out of it:
/// a block follows the superblock exactly when the compressor is real and
/// flag bit 10 is set, and its payload prefix decodes to the record.
pub open spec fn spec_options_state(
    img: Seq<u8>,
    sb: SuperBlock,
    o: Option<CompressionOptions>,
    oversized: bool,
) -> bool {
    if sb.compressor != Compressor::NoCompression && sb.flags & 0x0400u16 != 0 {
        match spec_read_block(img, 96, sb.compressor) {
            Option::Some(p) => o is Some && spec_options(sb.compressor, p.0) == o && oversized == (
            p.0.len() > crate::compressor::spec_options_size(sb.compressor)),
            Option::None => false,
        }
    } else {
        o is None && oversized == false
    }
}

/// The relation between an image and the inode map parsed out of it.
pub open spec fn spec_inodes_state(img: Seq<u8>, sb: SuperBlock, m: Map<u32, Inode>) -> bool {
    match spec_blocks_range(img, sb.inode_table as int, sb.dir_table as int, sb.compressor) {
        Option::Some(bytes) => match crate::inode::spec_inode_list(bytes, 0, sb.block_size as int) {
            Option::Some(inos) => {
                &&& spec_numbers_ok(inos, sb.inode_count)
                &&& m.dom().len() == sb.inode_count
                &&& forall|i: int|
                    0 <= i < inos.len() ==> m.dom().contains(
                        #[trigger] inos[i].header.inode_number,
                    ) && m[inos[i].header.inode_number]@ == inos[i]
                &&& forall|x: u32| #[trigger]
                    m.dom().contains(x) ==> 1 <= x <= sb.inode_count
                        && m[x]@.header.inode_number == x
            },
            Option::None => false,
        },
        Option::None => false,
    }
}

/// The relation between an image and the fragment table parsed out of it.
pub open spec fn spec_frag_state(img: Seq<u8>, sb: SuperBlock, frags: Option<Seq<Fragment>>) -> bool {
    if sb.frag_count == 0 {
        frags is None
    } else {
        match spec_lookup_ptr(img, sb.frag_table as int) {
            Option::Some(ptr) => match spec_blocks_count(
                img,
                ptr as int,
                spec_lookup_block_count(16 * sb.frag_count as int),
                sb.compressor,
            ) {
                Option::Some(bytes) => frags == Some(
                    spec_fragment_table(bytes, sb.frag_count as int),
                ) && 16 * sb.frag_count as int <= bytes.len(),
                Option::None => false,
            },
            Option::None => false,
        }
    }
}

/// The relation between an image and the export table parsed out of it.
pub open spec fn spec_export_state(img: Seq<u8>, sb: SuperBlock, exs: Option<Seq<Export>>) -> bool {
    if sb.flags & 0x0080u16 == 0 {
        exs is None
    } else {
        match spec_lookup_ptr(img, sb.export_table as int) {
            Option::Some(ptr) => match spec_blocks_count(
                img,
                ptr as int,
                spec_lookup_block_count(8 * sb.inode_count as int),
                sb.compressor,
            ) {
                Option::Some(bytes) => exs == Some(spec_export_table(bytes, sb.inode_count as int))
                    && 8 * sb.inode_count as int <= bytes.len(),
                Option::None => false,
            },
            Option::None => false,
        }
    }
}

/// The relation between an image and the id table parsed out of it; the id
/// table is read whenever `id_count > 0`, not gated on any flag.
pub open spec fn spec_id_state(img: Seq<u8>, sb: SuperBlock, ids: Option<Seq<Id>>) -> bool {
    if sb.id_count == 0 {
        ids is None
    } else {
        match spec_lookup_ptr(img, sb.id_table as int) {
            Option::Some(ptr) => match spec_blocks_count(
                img,
                ptr as int,
                spec_lookup_block_count(4 * sb.id_count as int),
                sb.compressor,
            ) {
                Option::Some(bytes) => ids == Some(spec_id_table(bytes, sb.id_count as int)) && 4
                    * sb.id_count as int <= bytes.len(),
                Option::None => false,
            },
            Option::None => false,
        }
    }
}

/// Where the directory table ends: the indirection target of the first
/// lookup table that exists, else the whole archive's byte count.
pub open spec fn spec_dir_end(img: Seq<u8>, sb: SuperBlock) -> Option<u64> {
    if sb.frag_count > 0 {
        spec_lookup_ptr(img, sb.frag_table as int)
    } else if sb.flags & 0x0080u16 != 0 {
        spec_lookup_ptr(img, sb.export_table as int)
    } else if sb.id_count > 0 {
        spec_lookup_ptr(img, sb.id_table as int)
    } else {
        Some(sb.bytes_used)
    }
}

/// The relation between an image and the directory blocks parsed out of it.
pub open spec fn spec_dirs_state(img: Seq<u8>, sb: SuperBlock, blocks: Seq<DirBlockV>) -> bool {
    match spec_dir_end(img, sb) {
        Option::Some(end) => spec_block_runs(
            img,
            sb.dir_table as int,
            sb.dir_table as int,
            end as int,
            sb.compressor,
        ) == Some(blocks),
        Option::None => false,
    }
}

/// Whether the options stage of image `img` parses: when a real compressor
/// and flag bit 10 call for an options block, it must read and decode.
pub open spec fn spec_options_parses(img: Seq<u8>, sb: SuperBlock) -> bool {
    if sb.compressor != Compressor::NoCompression && sb.flags & 0x0400u16 != 0 {
        match spec_read_block(img, 96, sb.compressor) {
            Option::Some(p) => spec_options(sb.compressor, p.0) is Some,
            Option::None => false,
        }
    } else {
        true
    }
}

/// Whether the inode-table stage of image `img` parses: blocks readable,
/// records decodable, numbering discipline met.
pub open spec fn spec_inodes_parse(img: Seq<u8>, sb: SuperBlock) -> bool {
    match spec_blocks_range(img, sb.inode_table as int, sb.dir_table as int, sb.compressor) {
        Option::Some(bytes) => match crate::inode::spec_inode_list(bytes, 0, sb.block_size as int) {
            Option::Some(inos) => spec_numbers_ok(inos, sb.inode_count),
            Option::None => false,
        },
        Option::None => false,
    }
}

/// Whether one lookup table of `size` bytes and `width`-byte entries
/// parses at `table` of image `img`.
pub open spec fn spec_lookup_parses(img: Seq<u8>, table: int, size: int, c: Compressor) -> bool {
    match crate::reader::spec_lookup_bytes(img, table, size, c) {
        Option::Some(bytes) => size <= bytes.len(),
        Option::None => false,
    }
}

/// Whether the whole image parses: every stage of the pipeline is defined,
/// as a function of the image bytes alone (through the codec's named
/// result). Exactly the images on which the parser owes an archive.
pub open spec fn spec_archive_parses(img: Seq<u8>) -> bool {
    match spec_parse_superblock(img) {
        Result::Ok(sb) => {
            &&& spec_options_parses(img, sb)
            &&& sb.inode_table <= img.len()
            &&& spec_inodes_parse(img, sb)
            &&& spec_root_inode(img, sb) is Some
            &&& (sb.frag_count > 0 ==> spec_lookup_parses(
                img,
                sb.frag_table as int,
                16 * sb.frag_count as int,
                sb.compressor,
            ))
            &&& (sb.flags & 0x0080u16 != 0 ==> spec_lookup_parses(
                img,
                sb.export_table as int,
                8 * sb.inode_count as int,
                sb.compressor,
            ))
            &&& (sb.id_count > 0 ==> spec_lookup_parses(
                img,
                sb.id_table as int,
                4 * sb.id_count as int,
                sb.compressor,
            ))
            &&& (match spec_dir_end(img, sb) {
                Option::Some(end) => spec_block_runs(
                    img,
                    sb.dir_table as int,
                    sb.dir_table as int,
                    end as int,
                    sb.compressor,
                ) is Some,
                Option::None => false,
            })
        },
        Result::Err(_) => false,
    }
}

/// What it means for archive `a` to be a correct parse of image `img`:
/// every section of `a` is the one the on-disk format denotes, stage by
/// stage. Decompression is interpreted through the named result of the
/// linked codec, so two archives satisfying this for one image agree.
pub open spec fn spec_archive_ok(img: Seq<u8>, a: Squashfs) -> bool {
    &&& spec_parse_superblock(img) == Ok::<SuperBlock, SquashfsError>(a.superblock)
    &&& a.superblock.spec_valid()
    &&& spec_options_state(img, a.superblock, a.compression_options, a.options_oversized)
    &&& a.superblock.inode_table <= img.len()
    &&& a.data_and_fragments@ == img.subrange(0, a.superblock.inode_table as int)
    &&& spec_inodes_state(img, a.superblock, a.inodes@)
    &&& spec_root_inode(img, a.superblock) == Some(a.root_inode@)
    &&& a.root_inode@.is_dir()
    &&& spec_frag_state(img, a.superblock, frag_view(a.fragments))
    &&& spec_export_state(img, a.superblock, export_view(a.export))
    &&& spec_id_state(img, a.superblock, id_view(a.id))
    &&& spec_dirs_state(img, a.superblock, a.dir_blocks@.map_values(|x: DirBlock| x@))
}

impl Squashfs {
    /// Parse a whole image from a positioned reader: superblock, options,
    /// data capture, inode table, root inode, lookup tables, directory
    /// blocks, in that order.
    ///
    /// The superblock stage is exact: whatever `spec_parse_superblock`
    /// rejects the image with is returned unchanged, so a corrupted magic
    /// is `BadMagic` with no partial state.
    pub fn inner_from_reader(reader: SquashfsReader) -> (r: Result<Squashfs, SquashfsError>)
        ensures
            r matches Ok(a) ==> spec_archive_ok(reader.spec_image(), a),
            spec_parse_superblock(reader.spec_image()) matches Err(e) ==> r == Err::<
                Squashfs,
                SquashfsError,
            >(e),
            r is Ok <==> spec_archive_parses(reader.spec_image()),
    {
        let mut reader = reader;
        match reader.seek_from_start(0) {
            Ok(_) => (),
            Err(e) => {
                return Err(e);
            },
        };
        let superblock = match reader.superblock() {
            Ok(sb) => sb,
            Err(e) => {
                return Err(e);
            },
        };
        let mut options_oversized = false;
        let compression_options: Option<CompressionOptions> = if superblock.compressor
            != Compressor::NoCompression {
            match superblock.compression_options_size() {
                Some(size) => {
                    let bytes = match reader.options_block(&superblock) {
                        Ok(b) => b,
                        Err(e) => {
                            return Err(e);
                        },
                    };
                    if bytes.len() != size {
                        options_oversized = bytes.len() > size;
                    }
                    match parse_compression_options(superblock.compressor, bytes.as_slice()) {
                        Ok(o) => Some(o),
                        Err(e) => {
                            return Err(e);
                        },
                    }
                },
                Option::None => Option::None,
            }
        } else {
            Option::None
        };
        let data_and_fragments = match reader.data_and_fragments(&superblock) {
            Ok(v) => v,
            Err(e) => {
                return Err(e);
            },
        };
        let inode_list = match reader.inodes(&superblock) {
            Ok(v) => v,
            Err(e) => {
                return Err(e);
            },
        };
        let inodes = match build_inode_map(inode_list, superblock.inode_count) {
            Ok(m) => m,
            Err(e) => {
                return Err(e);
            },
        };
        let root_inode = match reader.root_inode(&superblock) {
            Ok(i) => i,
            Err(e) => {
                return Err(e);
            },
        };
        let fragments_r = match reader.fragments(&superblock) {
            Ok(o) => o,
            Err(e) => {
                return Err(e);
            },
        };
        let export_r = match reader.export(&superblock) {
            Ok(o) => o,
            Err(e) => {
                return Err(e);
            },
        };
        let id_r = match reader.id(&superblock) {
            Ok(o) => o,
            Err(e) => {
                return Err(e);
            },
        };
        let (fragment_ptr, fragments) = match fragments_r {
            Some(p) => (Some(p.0), Some(p.1)),
            Option::None => (Option::None, Option::None),
        };
        let (export_ptr, export) = match export_r {
            Some(p) => (Some(p.0), Some(p.1)),
            Option::None => (Option::None, Option::None),
        };
        let (id_ptr, id) = match id_r {
            Some(p) => (Some(p.0), Some(p.1)),
            Option::None => (Option::None, Option::None),
        };
        let last_dir_position: u64 = match fragment_ptr {
            Some(p) => p,
            Option::None => match export_ptr {
                Some(p) => p,
                Option::None => match id_ptr {
                    Some(p) => p,
                    Option::None => superblock.bytes_used,
                },
            },
        };
        let dir_blocks = match reader.dir_blocks(&superblock, last_dir_position) {
            Ok(v) => v,
            Err(e) => {
                return Err(e);
            },
        };
        Ok(
            Squashfs {
                superblock,
                compression_options,
                options_oversized,
                data_and_fragments,
                inodes,
                root_inode,
                dir_blocks,
                fragments,
                export,
                id,
            },
        )
    }

    /// Parse an image that starts at the beginning of `data`.
    pub fn from_reader(data: Vec<u8>) -> (r: Result<Squashfs, SquashfsError>)
        ensures
            r matches Ok(a) ==> spec_archive_ok(data@, a),
            spec_parse_superblock(data@) matches Err(e) ==> r == Err::<Squashfs, SquashfsError>(e),
            r is Ok <==> spec_archive_parses(data@),
    {
        let reader = SquashfsReader::new(data, 0);
        proof {
            assert(reader.spec_image() =~= data@);
        }
        Self::inner_from_reader(reader)
    }

    /// Same as `from_reader`, but for an image that starts `offset` bytes
    /// into `data`.
    pub fn from_reader_with_offset(data: Vec<u8>, offset: u64) -> (r: Result<
        Squashfs,
        SquashfsError,
    >)
        ensures
            r matches Ok(a) ==> spec_archive_ok(SquashfsReader::new_image(data@, offset), a),
            spec_parse_superblock(SquashfsReader::new_image(data@, offset)) matches Err(e) ==> r
                == Err::<Squashfs, SquashfsError>(e),
            r is Ok <==> spec_archive_parses(SquashfsReader::new_image(data@, offset)),
    {
        let reader = SquashfsReader::new(data, offset);
        Self::inner_from_reader(reader)
    }
}

/// The concatenated bytes of a run of decompressed directory blocks.
pub open spec fn spec_concat_blocks(blocks: Seq<DirBlockV>) -> Seq<u8> {
    blocks.map_values(|b: DirBlockV| b.bytes).flatten()
}

/// The concatenated bytes of the directory blocks whose recorded start
/// offset is at least `idx`, in order.
pub open spec fn spec_select_blocks(blocks: Seq<DirBlockV>, idx: u64) -> Seq<u8>
    decreases blocks.len(),
{
    if blocks.len() == 0 {
        Seq::empty()
    } else {
        (if blocks[0].offset >= idx {
            blocks[0].bytes
        } else {
            Seq::empty()
        }) + spec_select_blocks(blocks.drop_first(), idx)
    }
}

impl Squashfs {
    /// Decode every directory run held in `dir_blocks`, in stream order.
    pub fn all_dirs(&self) -> (r: Result<Vec<Dir>, SquashfsError>)
        ensures
            r matches Ok(v) ==> spec_dir_list(
                spec_concat_blocks(self.dir_blocks@.map_values(|x: DirBlock| x@)),
                0,
            ) == Some(v@.map_values(|x: Dir| x@)),
            r matches Err(e) ==> spec_dir_list(
                spec_concat_blocks(self.dir_blocks@.map_values(|x: DirBlock| x@)),
                0,
            ) is None && e == SquashfsError::CorruptDirTable,
    {
        let ghost blocks = self.dir_blocks@.map_values(|x: DirBlock| x@);
        let n: usize = self.dir_blocks.len();
        let mut bytes: Vec<u8> = Vec::new();
        let mut i: usize = 0;
        proof {
            assert(blocks.subrange(0, 0).map_values(|b: DirBlockV| b.bytes)
                =~= Seq::<Seq<u8>>::empty());
            assert(Seq::<Seq<u8>>::empty().flatten() =~= Seq::<u8>::empty());
            assert(bytes@ =~= Seq::<u8>::empty());
        }
        while i < n
            invariant
                i <= n,
                n == self.dir_blocks@.len(),
                blocks == self.dir_blocks@.map_values(|x: DirBlock| x@),
                bytes@ == blocks.subrange(0, i as int).map_values(|b: DirBlockV| b.bytes).flatten(),
            decreases n - i,
        {
            proof {
                let pre = blocks.subrange(0, i as int).map_values(|b: DirBlockV| b.bytes);
                assert(blocks.subrange(0, i as int + 1).map_values(|b: DirBlockV| b.bytes)
                    =~= pre.push(blocks[i as int].bytes));
                pre.lemma_flatten_push(blocks[i as int].bytes);
            }
            append_bytes(&mut bytes, &self.dir_blocks[i].bytes);
            i = i + 1;
        }
        proof {
            assert(blocks.subrange(0, n as int) =~= blocks);
        }
        parse_dir_list(bytes.as_slice())
    }

    /// Decode the directory listing of one directory inode.
    ///
    /// Selects the directory blocks whose recorded offset is at least
    /// `block_index`, skips `block_offset` bytes into their concatenation,
    /// and decodes exactly `file_size - 3` bytes of runs (the on-disk
    /// `file_size` counts a 3-byte phantom terminator).
    ///
    /// Returns `Ok(None)` exactly when `file_size < 4`: such a directory
    /// is empty.
    pub fn dir_from_index(&self, block_index: u64, file_size: u32, block_offset: usize) -> (r:
        Result<Option<Vec<Dir>>, SquashfsError>)
        ensures
            r == Ok::<Option<Vec<Dir>>, SquashfsError>(Option::None) <==> file_size < 4,
            r matches Ok(o) ==> o matches Some(v) ==> spec_dir_lookup(
                self.dir_blocks@.map_values(|x: DirBlock| x@),
                block_index,
                file_size,
                block_offset as int,
            ) == Some(Some(v@.map_values(|x: Dir| x@))),
            r matches Err(e) ==> spec_dir_lookup(
                self.dir_blocks@.map_values(|x: DirBlock| x@),
                block_index,
                file_size,
                block_offset as int,
            ) is None && e == SquashfsError::CorruptDirTable,
    {
        if file_size < 4 {
            return Ok(Option::None);
        }
        let ghost blocks = self.dir_blocks@.map_values(|x: DirBlock| x@);
        let n: usize = self.dir_blocks.len();
        let mut bytes: Vec<u8> = Vec::new();
        let mut i: usize = 0;
        proof {
            assert(blocks.skip(0) =~= blocks);
            assert(bytes@ + spec_select_blocks(blocks.skip(0), block_index) =~= spec_select_blocks(
                blocks,
                block_index,
            ));
        }
        while i < n
            invariant
                i <= n,
                n == self.dir_blocks@.len(),
                blocks == self.dir_blocks@.map_values(|x: DirBlock| x@),
                bytes@ + spec_select_blocks(blocks.skip(i as int), block_index)
                    == spec_select_blocks(blocks, block_index),
            decreases n - i,
        {
            let ghost before = bytes@;
            proof {
                let tail = blocks.skip(i as int);
                assert(tail.drop_first() =~= blocks.skip(i as int + 1));
                assert(tail[0] == blocks[i as int]);
                if blocks[i as int].offset >= block_index {
                    assert(before + (tail[0].bytes + spec_select_blocks(
                        tail.drop_first(),
                        block_index,
                    )) =~= (before + tail[0].bytes) + spec_select_blocks(
                        tail.drop_first(),
                        block_index,
                    ));
                } else {
                    assert(Seq::<u8>::empty() + spec_select_blocks(tail.drop_first(), block_index)
                        =~= spec_select_blocks(tail.drop_first(), block_index));
                }
            }
            if self.dir_blocks[i].offset >= block_index {
                append_bytes(&mut bytes, &self.dir_blocks[i].bytes);
            }
            i = i + 1;
        }
        proof {
            assert(blocks.skip(n as int) =~= Seq::<DirBlockV>::empty());
            assert(spec_select_blocks(Seq::<DirBlockV>::empty(), block_index) =~= Seq::<
                u8,
            >::empty());
            assert(bytes@ + Seq::<u8>::empty() =~= bytes@);
        }
        let want: usize = (file_size - 3) as usize;
        let blen: usize = bytes.len();
        if block_offset > blen || blen - block_offset < want {
            return Err(SquashfsError::CorruptDirTable);
        }
        let window = vstd::slice::slice_subrange(bytes.as_slice(), block_offset, block_offset
            + want);
        match parse_dir_list(window) {
            Ok(v) => Ok(Some(v)),
            Err(e) => Err(e),
        }
    }
}

/// Whether node payload `inner` faithfully reflects inode `i`: same kind,
/// same header, and the same type-specific fields the walker copies over.
pub open spec fn spec_inode_matches_node(
    i: InodeV,
    inner: crate::filesystem::InnerNodeV,
) -> bool {
    match inner {
        crate::filesystem::InnerNodeV::Dir(d) => i.is_dir() && d.header
            == crate::filesystem::spec_node_header(i.header),
        crate::filesystem::InnerNodeV::File(f) => f.header == crate::filesystem::spec_node_header(
            i.header,
        ) && (match i.inner {
            crate::inode::InodeInnerV::BasicFile(bf) => f.basic == bf,
            crate::inode::InodeInnerV::ExtendedFile(ef) => crate::filesystem::spec_basic_of_extended(
                ef,
            ) == Some(f.basic),
            _ => false,
        }),
        crate::filesystem::InnerNodeV::Symlink(s) => s.header
            == crate::filesystem::spec_node_header(i.header) && (match i.inner {
            crate::inode::InodeInnerV::BasicSymlink(bs) => s.link == bs.target_path,
            _ => false,
        }),
        crate::filesystem::InnerNodeV::CharacterDevice(c) => c.header
            == crate::filesystem::spec_node_header(i.header) && (match i.inner {
            crate::inode::InodeInnerV::BasicCharacterDevice(d) => c.device_number
                == d.device_number,
            _ => false,
        }),
        crate::filesystem::InnerNodeV::BlockDevice(b) => b.header
            == crate::filesystem::spec_node_header(i.header) && (match i.inner {
            crate::inode::InodeInnerV::BasicBlockDevice(d) => b.device_number == d.device_number,
            _ => false,
        }),
        crate::filesystem::InnerNodeV::Fifo(f) => f.header == crate::filesystem::spec_node_header(
            i.header,
        ) && (i.inner is BasicFifo || i.inner is ExtendedFifo),
        crate::filesystem::InnerNodeV::Socket(s) => s.header
            == crate::filesystem::spec_node_header(i.header) && (i.inner is BasicSocket
            || i.inner is ExtendedSocket),
    }
}

/// Whether node `n` was drawn from some inode of the map: there is an
/// inode whose kind and fields the node reflects.
pub open spec fn spec_node_from(m: Map<u32, Inode>, n: crate::filesystem::NodeV) -> bool {
    exists|k: u32| #[trigger] m.dom().contains(k) && spec_inode_matches_node(m[k]@, n.inner)
}

/// What one directory-listing lookup yields: `Some(None)` for an empty
/// directory (`file_size < 4`), `Some(Some(runs))` for a decoded listing,
/// `None` when the listing window is out of bounds or undecodable.
pub open spec fn spec_dir_lookup(
    blocks: Seq<DirBlockV>,
    block_index: u64,
    file_size: u32,
    block_offset: int,
) -> Option<Option<Seq<DirV>>> {
    if file_size < 4 {
        Some(Option::None)
    } else {
        let sel = spec_select_blocks(blocks, block_index);
        if block_offset < 0 || block_offset + file_size - 3 > sel.len() {
            None
        } else {
            match spec_dir_list(sel.subrange(block_offset, block_offset + file_size - 3), 0) {
                Option::Some(ds) => Some(Some(ds)),
                Option::None => None,
            }
        }
    }
}

/// The walk budget: enough for any acyclic image (`inode_count + 1`
/// directory descents), capped at the machine word.
pub open spec fn spec_budget(count: u32) -> nat {
    if count as int + 1 > usize::MAX as int {
        usize::MAX as nat
    } else {
        (count + 1) as nat
    }
}

/// The node a non-directory entry of type `t` emits for inode `fi`, if the
/// inode's body suits the entry: files carry the basic record (an extended
/// record's wide fields must fit), symlinks their name and target, devices
/// their device number; an unsuited body yields nothing.
pub open spec fn spec_entry_node(
    fi: InodeV,
    t: u16,
    header: crate::filesystem::NodeHeader,
    name: Seq<u8>,
) -> Option<crate::filesystem::InnerNodeV> {
    if t == 2 {
        match fi.inner {
            crate::inode::InodeInnerV::BasicFile(bf) => Some(
                crate::filesystem::InnerNodeV::File(
                    crate::filesystem::SquashfsFileReaderV { header, basic: bf },
                ),
            ),
            crate::inode::InodeInnerV::ExtendedFile(ef) => match crate::filesystem::spec_basic_of_extended(
                ef,
            ) {
                Option::Some(b) => Some(
                    crate::filesystem::InnerNodeV::File(
                        crate::filesystem::SquashfsFileReaderV { header, basic: b },
                    ),
                ),
                Option::None => None,
            },
            _ => None,
        }
    } else if t == 3 {
        match fi.inner {
            crate::inode::InodeInnerV::BasicSymlink(bs) => Some(
                crate::filesystem::InnerNodeV::Symlink(
                    crate::filesystem::SquashfsSymlinkV {
                        header,
                        original: name,
                        link: bs.target_path,
                    },
                ),
            ),
            _ => None,
        }
    } else if t == 4 {
        match fi.inner {
            crate::inode::InodeInnerV::BasicBlockDevice(d) => Some(
                crate::filesystem::InnerNodeV::BlockDevice(
                    crate::filesystem::SquashfsBlockDevice {
                        header,
                        device_number: d.device_number,
                    },
                ),
            ),
            _ => None,
        }
    } else if t == 5 {
        match fi.inner {
            crate::inode::InodeInnerV::BasicCharacterDevice(d) => Some(
                crate::filesystem::InnerNodeV::CharacterDevice(
                    crate::filesystem::SquashfsCharacterDevice {
                        header,
                        device_number: d.device_number,
                    },
                ),
            ),
            _ => None,
        }
    } else if t == 6 {
        Some(crate::filesystem::InnerNodeV::Fifo(crate::filesystem::SquashfsFifo { header }))
    } else if t == 7 {
        Some(crate::filesystem::InnerNodeV::Socket(crate::filesystem::SquashfsSocket { header }))
    } else {
        None
    }
}

/// Glue for walk proofs: prepend already-emitted nodes to the outcome of
/// walking the rest.
pub open spec fn wk_completion(
    pre: Seq<crate::filesystem::NodeV>,
    o: Option<(Seq<crate::filesystem::NodeV>, Seq<u32>)>,
) -> Option<(Seq<crate::filesystem::NodeV>, Seq<u32>)> {
    match o {
        Option::Some(p) => Some((pre + p.0, p.1)),
        Option::None => None,
    }
}

/// The pre-order walk of one directory inode: its listing's entries in
/// on-disk order, each resolved against the inode map, subdirectories
/// descended into immediately after their own node. Yields the emitted
/// nodes and the grown visited set, or nothing on a dangling or mistyped
/// entry, an undecodable listing, a revisited directory, or an exhausted
/// budget.
pub open spec fn spec_walk_inode(
    m: Map<u32, Inode>,
    blocks: Seq<DirBlockV>,
    ino: InodeV,
    path: Seq<u8>,
    visited: Seq<u32>,
    budget: nat,
) -> Option<(Seq<crate::filesystem::NodeV>, Seq<u32>)>
    decreases budget, 2int, 0int, 0int, 0int,
{
    let params = match ino.inner {
        crate::inode::InodeInnerV::BasicDirectory(b) => Some(
            ((b.block_index as u64, b.file_size as u32), b.block_offset as int),
        ),
        crate::inode::InodeInnerV::ExtendedDirectory(e) => Some(
            ((e.block_index as u64, e.file_size), e.block_offset as int),
        ),
        _ => None,
    };
    match params {
        Option::Some(p) => match spec_dir_lookup(blocks, p.0.0, p.0.1, p.1) {
            Option::Some(o) => match o {
                Option::Some(dirs) => spec_walk_dirs(m, blocks, dirs, 0, path, visited, budget),
                Option::None => Some((Seq::empty(), visited)),
            },
            Option::None => None,
        },
        Option::None => None,
    }
}

/// The walk of the directory runs of one listing, from run `di` on.
pub open spec fn spec_walk_dirs(
    m: Map<u32, Inode>,
    blocks: Seq<DirBlockV>,
    dirs: Seq<DirV>,
    di: int,
    path: Seq<u8>,
    visited: Seq<u32>,
    budget: nat,
) -> Option<(Seq<crate::filesystem::NodeV>, Seq<u32>)>
    decreases budget, 1int, dirs.len() - di, 1int, 0int,
{
    if di < 0 || di >= dirs.len() {
        Some((Seq::empty(), visited))
    } else {
        match spec_walk_entries(m, blocks, dirs, di, 0, path, visited, budget) {
            Option::Some(p) => match spec_walk_dirs(m, blocks, dirs, di + 1, path, p.1, budget) {
                Option::Some(q) => Some((p.0 + q.0, q.1)),
                Option::None => None,
            },
            Option::None => None,
        }
    }
}

/// The walk of one directory run's entries, from entry `ei` on.
pub open spec fn spec_walk_entries(
    m: Map<u32, Inode>,
    blocks: Seq<DirBlockV>,
    dirs: Seq<DirV>,
    di: int,
    ei: int,
    path: Seq<u8>,
    visited: Seq<u32>,
    budget: nat,
) -> Option<(Seq<crate::filesystem::NodeV>, Seq<u32>)>
    decreases budget, 1int, dirs.len() - di, 0int, dirs[di].dir_entries.len() - ei,
{
    if di < 0 || di >= dirs.len() || ei < 0 {
        None
    } else {
        let d = dirs[di];
        if ei >= d.dir_entries.len() {
            Some((Seq::empty(), visited))
        } else {
            let e = d.dir_entries[ei];
            let kw = d.inode_num + e.inode_offset;
            if kw < 1 || kw > 0xffff_ffff {
                None
            } else {
                let key = kw as u32;
                if !m.dom().contains(key) {
                    None
                } else {
                    let fi = m[key]@;
                    let ft = fi.type_id();
                    let bt: u16 = if ft >= 8 {
                        (ft - 7) as u16
                    } else {
                        ft
                    };
                    if e.t != bt {
                        None
                    } else {
                        let new_path = crate::filesystem::spec_join(path, e.name);
                        let header = crate::filesystem::spec_node_header(fi.header);
                        if e.t == 1 {
                            if budget == 0 || visited.contains(key) {
                                None
                            } else {
                                let node = crate::filesystem::NodeV {
                                    path: new_path,
                                    inner: crate::filesystem::InnerNodeV::Dir(
                                        crate::filesystem::SquashfsDir { header },
                                    ),
                                };
                                match spec_walk_inode(
                                    m,
                                    blocks,
                                    fi,
                                    new_path,
                                    visited.push(key),
                                    (budget - 1) as nat,
                                ) {
                                    Option::Some(p) => match spec_walk_entries(
                                        m,
                                        blocks,
                                        dirs,
                                        di,
                                        ei + 1,
                                        path,
                                        p.1,
                                        budget,
                                    ) {
                                        Option::Some(q) => Some((seq![node] + p.0 + q.0, q.1)),
                                        Option::None => None,
                                    },
                                    Option::None => None,
                                }
                            }
                        } else {
                            match spec_entry_node(fi, e.t, header, e.name) {
                                Option::Some(innv) => {
                                    let node = crate::filesystem::NodeV {
                                        path: new_path,
                                        inner: innv,
                                    };
                                    match spec_walk_entries(
                                        m,
                                        blocks,
                                        dirs,
                                        di,
                                        ei + 1,
                                        path,
                                        visited,
                                        budget,
                                    ) {
                                        Option::Some(q) => Some((seq![node] + q.0, q.1)),
                                        Option::None => None,
                                    }
                                },
                                Option::None => None,
                            }
                        }
                    }
                }
            }
        }
    }
}

impl Squashfs {
    /// Symlink details of an inode reached through a directory entry.
    ///
    /// Returns the pair `(name, target)`; an inode that is not a basic
    /// symlink is `FileNotFound`.
    pub fn symlink(&self, inode: &Inode, entry: &DirEntry) -> (r: Result<
        (Vec<u8>, Vec<u8>),
        SquashfsError,
    >)
        ensures
            r matches Ok(p) ==> (inode@.inner matches crate::inode::InodeInnerV::BasicSymlink(s)
                && p.0@ == entry.name@ && p.1@ == s.target_path),
            r matches Err(e) ==> !(inode@.inner is BasicSymlink) && e
                == SquashfsError::FileNotFound,
    {
        match &inode.inner {
            InodeInner::BasicSymlink(basic_sym) => Ok(
                (
                    vstd::slice::slice_to_vec(entry.name.as_slice()),
                    vstd::slice::slice_to_vec(basic_sym.target_path.as_slice()),
                ),
            ),
            _ => Err(SquashfsError::FileNotFound),
        }
    }

    /// Character-device number of an inode reached through a directory
    /// entry; an inode that is not a basic character device is
    /// `FileNotFound`.
    pub fn char_device(&self, inode: &Inode) -> (r: Result<u32, SquashfsError>)
        ensures
            r matches Ok(d) ==> (inode@.inner
                matches crate::inode::InodeInnerV::BasicCharacterDevice(c) && d
                == c.device_number),
            r matches Err(e) ==> !(inode@.inner is BasicCharacterDevice) && e
                == SquashfsError::FileNotFound,
    {
        match &inode.inner {
            InodeInner::BasicCharacterDevice(spc) => Ok(spc.device_number),
            _ => Err(SquashfsError::FileNotFound),
        }
    }

    /// Block-device number of an inode reached through a directory entry;
    /// an inode that is not a basic block device is `FileNotFound`.
    pub fn block_device(&self, inode: &Inode) -> (r: Result<u32, SquashfsError>)
        ensures
            r matches Ok(d) ==> (inode@.inner matches crate::inode::InodeInnerV::BasicBlockDevice(
                c,
            ) && d == c.device_number),
            r matches Err(e) ==> !(inode@.inner is BasicBlockDevice) && e
                == SquashfsError::FileNotFound,
    {
        match &inode.inner {
            InodeInner::BasicBlockDevice(spc) => Ok(spc.device_number),
            _ => Err(SquashfsError::FileNotFound),
        }
    }
}

/// Copy a basic-file record.
fn copy_basic_file(f: &BasicFile) -> (r: BasicFile)
    ensures
        r.blocks_start == f.blocks_start,
        r.frag == f.frag,
        r.block_offset == f.block_offset,
        r.file_size == f.file_size,
        r.block_sizes@ == f.block_sizes@,
{
    BasicFile {
        blocks_start: f.blocks_start,
        frag: f.frag,
        block_offset: f.block_offset,
        file_size: f.file_size,
        block_sizes: vstd::slice::slice_to_vec(f.block_sizes.as_slice()),
    }
}

impl Squashfs {
    /// Walk one directory inode: decode its listing, emit a node for each
    /// entry (pre-order, siblings in on-disk order), and recurse into
    /// subdirectories.
    ///
    /// Every emitted node reflects an inode of the archive's map; an entry
    /// whose inode is missing, or whose type disagrees with the inode, is
    /// `DanglingInodeReference`; a directory reached twice is
    /// `CyclicDirectory`.
    #[verifier::rlimit(100)]
    #[verifier::spinoff_prover]
    fn extract_dir(
        &self,
        nodes: &mut Vec<crate::filesystem::Node>,
        dir_inode: &Inode,
        path: &Vec<u8>,
        visited: &mut Vec<u32>,
        budget: usize,
    ) -> (r: Result<(), SquashfsError>)
        requires
            dir_inode@.is_dir(),
        ensures
            old(nodes)@.len() <= final(nodes)@.len(),
            forall|q: int|
                0 <= q < old(nodes)@.len() ==> final(nodes)@[q] == old(nodes)@[q],
            r matches Ok(u) ==> forall|q: int|
                old(nodes)@.len() <= q < final(nodes)@.len() ==> spec_node_from(
                    self.inodes@,
                    #[trigger] final(nodes)@[q]@,
                ),
            r matches Ok(u) ==> spec_walk_inode(
                self.inodes@,
                self.dir_blocks@.map_values(|x: DirBlock| x@),
                dir_inode@,
                path@,
                old(visited)@,
                budget as nat,
            ) == Some(
                (
                    final(nodes)@.subrange(
                        old(nodes)@.len() as int,
                        final(nodes)@.len() as int,
                    ).map_values(|n: crate::filesystem::Node| n@),
                    final(visited)@,
                ),
            ),
            r matches Err(e) ==> spec_walk_inode(
                self.inodes@,
                self.dir_blocks@.map_values(|x: DirBlock| x@),
                dir_inode@,
                path@,
                old(visited)@,
                budget as nat,
            ) is None,
        decreases budget,
    {
        let ghost m = self.inodes@;
        let ghost blocks = self.dir_blocks@.map_values(|x: DirBlock| x@);
        let ghost path_v = path@;
        let ghost vis0 = old(visited)@;
        let ghost b = budget as nat;
        let ghost base = old(nodes)@.len() as int;
        let (block_index, file_size, block_offset): (u64, u32, usize) = match &dir_inode.inner {
            InodeInner::BasicDirectory(bd) => (
                bd.block_index as u64,
                bd.file_size as u32,
                bd.block_offset as usize,
            ),
            InodeInner::ExtendedDirectory(ed) => (
                ed.block_index as u64,
                ed.file_size,
                ed.block_offset as usize,
            ),
            _ => {
                proof {
                    assert(false);
                }
                return Err(SquashfsError::FileNotFound);
            },
        };
        let dirs = match self.dir_from_index(block_index, file_size, block_offset) {
            Ok(Some(d)) => d,
            Ok(Option::None) => {
                proof {
                    assert(spec_walk_inode(m, blocks, dir_inode@, path_v, vis0, b) == Some(
                        (Seq::<crate::filesystem::NodeV>::empty(), vis0),
                    ));
                    assert(nodes@.subrange(base, nodes@.len() as int).map_values(
                        |n: crate::filesystem::Node| n@,
                    ) =~= Seq::<crate::filesystem::NodeV>::empty());
                }
                return Ok(());
            },
            Err(e) => {
                proof {
                    assert(spec_walk_inode(m, blocks, dir_inode@, path_v, vis0, b) is None);
                }
                return Err(e);
            },
        };
        let ghost dirs_v = dirs@.map_values(|x: Dir| x@);
        proof {
            assert(spec_dir_lookup(blocks, block_index, file_size, block_offset as int) == Some(
                Some(dirs_v),
            ));
            assert(spec_walk_inode(m, blocks, dir_inode@, path_v, vis0, b) == spec_walk_dirs(
                m,
                blocks,
                dirs_v,
                0,
                path_v,
                vis0,
                b,
            ));
        }
        let dn: usize = dirs.len();
        let mut di: usize = 0;
        proof {
            let x = spec_walk_dirs(m, blocks, dirs_v, 0, path_v, vis0, b);
            match x {
                Option::Some(p) => {
                    assert(Seq::<crate::filesystem::NodeV>::empty() + p.0 =~= p.0);
                },
                Option::None => {},
            }
            assert(nodes@.subrange(base, nodes@.len() as int).map_values(
                |n: crate::filesystem::Node| n@,
            ) =~= Seq::<crate::filesystem::NodeV>::empty());
            assert(nodes@.subrange(0, base) =~= old(nodes)@);
        }
        while di < dn
            invariant
                di <= dn,
                dn == dirs@.len(),
                m == self.inodes@,
                blocks == self.dir_blocks@.map_values(|x: DirBlock| x@),
                dirs_v == dirs@.map_values(|x: Dir| x@),
                path_v == path@,
                b == budget as nat,
                vis0 == old(visited)@,
                base == old(nodes)@.len() as int,
                base <= nodes@.len(),
                nodes@.subrange(0, base) == old(nodes)@,
                spec_walk_inode(m, blocks, dir_inode@, path_v, vis0, b) == spec_walk_dirs(
                    m,
                    blocks,
                    dirs_v,
                    0,
                    path_v,
                    vis0,
                    b,
                ),
                forall|q: int|
                    base <= q < nodes@.len() ==> spec_node_from(m, #[trigger] nodes@[q]@),
                spec_walk_dirs(m, blocks, dirs_v, 0, path_v, vis0, b) == wk_completion(
                    nodes@.subrange(base, nodes@.len() as int).map_values(
                        |n: crate::filesystem::Node| n@,
                    ),
                    spec_walk_dirs(m, blocks, dirs_v, di as int, path_v, visited@, b),
                ),
            decreases dn - di,
        {
            let ghost base2 = nodes@.len() as int;
            let ghost vis1 = visited@;
            let ghost snap = nodes@;
            let ghost pre_outer = snap.subrange(base, base2).map_values(
                |n: crate::filesystem::Node| n@,
            );
            let d = &dirs[di];
            let en: usize = d.dir_entries.len();
            let mut ei: usize = 0;
            proof {
                assert(dirs_v[di as int] == dirs@[di as int]@);
                let y = spec_walk_entries(m, blocks, dirs_v, di as int, 0, path_v, vis1, b);
                match y {
                    Option::Some(p) => {
                        assert(Seq::<crate::filesystem::NodeV>::empty() + p.0 =~= p.0);
                    },
                    Option::None => {},
                }
                assert(nodes@.subrange(base2, nodes@.len() as int).map_values(
                    |n: crate::filesystem::Node| n@,
                ) =~= Seq::<crate::filesystem::NodeV>::empty());
                assert(nodes@.subrange(0, base2) =~= snap);
            }
            while ei < en
                invariant
                    ei <= en,
                    di < dn,
                    dn == dirs@.len(),
                    en == dirs@[di as int].dir_entries@.len(),
                    m == self.inodes@,
                    blocks == self.dir_blocks@.map_values(|x: DirBlock| x@),
                    dirs_v == dirs@.map_values(|x: Dir| x@),
                    path_v == path@,
                    b == budget as nat,
                    vis0 == old(visited)@,
                    base == old(nodes)@.len() as int,
                    base <= base2 <= nodes@.len(),
                    snap.len() == base2,
                    nodes@.subrange(0, base2) == snap,
                    nodes@.subrange(0, base) == old(nodes)@,
                    pre_outer == snap.subrange(base, base2).map_values(
                        |n: crate::filesystem::Node| n@,
                    ),
                    spec_walk_inode(m, blocks, dir_inode@, path_v, vis0, b) == spec_walk_dirs(
                        m,
                        blocks,
                        dirs_v,
                        0,
                        path_v,
                        vis0,
                        b,
                    ),
                    forall|q: int|
                        base <= q < nodes@.len() ==> spec_node_from(m, #[trigger] nodes@[q]@),
                    spec_walk_dirs(m, blocks, dirs_v, 0, path_v, vis0, b) == wk_completion(
                        pre_outer,
                        spec_walk_dirs(m, blocks, dirs_v, di as int, path_v, vis1, b),
                    ),
                    spec_walk_entries(m, blocks, dirs_v, di as int, 0, path_v, vis1, b)
                        == wk_completion(
                        nodes@.subrange(base2, nodes@.len() as int).map_values(
                            |n: crate::filesystem::Node| n@,
                        ),
                        spec_walk_entries(
                            m,
                            blocks,
                            dirs_v,
                            di as int,
                            ei as int,
                            path_v,
                            visited@,
                            b,
                        ),
                    ),
                decreases en - ei,
            {
                let ghost emitted_inner = nodes@.subrange(base2, nodes@.len() as int).map_values(
                    |n: crate::filesystem::Node| n@,
                );
                let ghost vis_cur = visited@;
                let d = &dirs[di];
                let entry = &d.dir_entries[ei];
                let ghost e_v = dirs_v[di as int].dir_entries[ei as int];
                proof {
                    assert(dirs_v[di as int] == dirs@[di as int]@);
                    assert(e_v == entry@);
                }
                let key_wide: i64 = (d.inode_num as i64) + (entry.inode_offset as i64);
                if key_wide < 1 || key_wide > u32::MAX as i64 {
                    proof {
                        assert(spec_walk_entries(
                            m,
                            blocks,
                            dirs_v,
                            di as int,
                            ei as int,
                            path_v,
                            vis_cur,
                            b,
                        ) is None);
                        assert(spec_walk_dirs(m, blocks, dirs_v, di as int, path_v, vis1, b) is None);
                        assert(spec_walk_dirs(m, blocks, dirs_v, 0, path_v, vis0, b) is None);
                    }
                    return Err(SquashfsError::DanglingInodeReference);
                }
                let inode_key: u32 = key_wide as u32;
                let found_inode: &Inode = match self.inodes.get(&inode_key) {
                    Some(i) => i,
                    Option::None => {
                        proof {
                            assert(!m.dom().contains(inode_key));
                            assert(spec_walk_entries(
                                m,
                                blocks,
                                dirs_v,
                                di as int,
                                ei as int,
                                path_v,
                                vis_cur,
                                b,
                            ) is None);
                            assert(spec_walk_dirs(m, blocks, dirs_v, di as int, path_v, vis1, b)
                                is None);
                            assert(spec_walk_dirs(m, blocks, dirs_v, 0, path_v, vis0, b) is None);
                        }
                        return Err(SquashfsError::DanglingInodeReference);
                    },
                };
                let ghost fi = m[inode_key]@;
                proof {
                    assert(m.dom().contains(inode_key));
                    assert(found_inode@ == fi);
                }
                let ft = found_inode.type_id();
                let bt: u16 = if ft >= 8 {
                    ft - 7
                } else {
                    ft
                };
                if entry.t != bt {
                    proof {
                        assert(spec_walk_entries(
                            m,
                            blocks,
                            dirs_v,
                            di as int,
                            ei as int,
                            path_v,
                            vis_cur,
                            b,
                        ) is None);
                        assert(spec_walk_dirs(m, blocks, dirs_v, di as int, path_v, vis1, b) is None);
                        assert(spec_walk_dirs(m, blocks, dirs_v, 0, path_v, vis0, b) is None);
                    }
                    return Err(SquashfsError::DanglingInodeReference);
                }
                let new_path = crate::filesystem::join_path(path, &entry.name);
                let header = crate::filesystem::node_header(&found_inode.header);
                if entry.t == 1 {
                    let inner = crate::filesystem::InnerNode::Dir(
                        crate::filesystem::SquashfsDir { header },
                    );
                    let node = crate::filesystem::Node { path: new_path, inner };
                    let ghost node_v = node@;
                    proof {
                        assert(spec_inode_matches_node(fi, node_v.inner));
                    }
                    nodes.push(node);
                    proof {
                        assert(nodes@.subrange(0, base2) =~= snap);
                        assert(nodes@.subrange(0, base) =~= old(nodes)@);
                    }
                    if budget == 0 {
                        proof {
                            assert(spec_walk_entries(
                                m,
                                blocks,
                                dirs_v,
                                di as int,
                                ei as int,
                                path_v,
                                vis_cur,
                                b,
                            ) is None);
                            assert(spec_walk_dirs(m, blocks, dirs_v, di as int, path_v, vis1, b)
                                is None);
                            assert(spec_walk_dirs(m, blocks, dirs_v, 0, path_v, vis0, b) is None);
                        }
                        return Err(SquashfsError::CyclicDirectory);
                    }
                    if contains_u32(visited, inode_key) {
                        proof {
                            assert(vis_cur.contains(inode_key));
                            assert(spec_walk_entries(
                                m,
                                blocks,
                                dirs_v,
                                di as int,
                                ei as int,
                                path_v,
                                vis_cur,
                                b,
                            ) is None);
                            assert(spec_walk_dirs(m, blocks, dirs_v, di as int, path_v, vis1, b)
                                is None);
                            assert(spec_walk_dirs(m, blocks, dirs_v, 0, path_v, vis0, b) is None);
                        }
                        return Err(SquashfsError::CyclicDirectory);
                    }
                    visited.push(inode_key);
                    let sub_path = crate::filesystem::join_path(path, &entry.name);
                    let ghost call_base = nodes@.len() as int;
                    let ghost call_vis = visited@;
                    proof {
                        assert(call_vis == vis_cur.push(inode_key));
                        assert(fi.type_id() == 1 || fi.type_id() == 8);
                        assert(fi.is_dir());
                        assert((budget - 1) as nat == (b - 1) as nat);
                    }
                    match self.extract_dir(nodes, found_inode, &sub_path, visited, budget - 1) {
                        Ok(_) => {
                            proof {
                                let sub = nodes@.subrange(call_base, nodes@.len() as int).map_values(
                                    |n: crate::filesystem::Node| n@,
                                );
                                let vis2 = visited@;
                                assert(spec_walk_inode(
                                    m,
                                    blocks,
                                    fi,
                                    crate::filesystem::spec_join(path_v, e_v.name),
                                    vis_cur.push(inode_key),
                                    (b - 1) as nat,
                                ) == Some((sub, vis2)));
                                let y = spec_walk_entries(
                                    m,
                                    blocks,
                                    dirs_v,
                                    di as int,
                                    ei as int + 1,
                                    path_v,
                                    vis2,
                                    b,
                                );
                                assert(spec_walk_entries(
                                    m,
                                    blocks,
                                    dirs_v,
                                    di as int,
                                    ei as int,
                                    path_v,
                                    vis_cur,
                                    b,
                                ) == wk_completion(seq![node_v] + sub, y));
                                match y {
                                    Option::Some(q) => {
                                        assert(emitted_inner + ((seq![node_v] + sub) + q.0)
                                            =~= (emitted_inner + (seq![node_v] + sub)) + q.0);
                                    },
                                    Option::None => {},
                                }
                                assert(nodes@.subrange(base2, call_base).map_values(
                                    |n: crate::filesystem::Node| n@,
                                ) =~= emitted_inner + seq![node_v]);
                                assert(nodes@.subrange(base2, nodes@.len() as int) =~= nodes@
                                    .subrange(base2, call_base) + nodes@.subrange(
                                    call_base,
                                    nodes@.len() as int,
                                ));
                                assert(nodes@.subrange(base2, nodes@.len() as int).map_values(
                                    |n: crate::filesystem::Node| n@,
                                ) =~= (emitted_inner + seq![node_v]) + sub);
                                assert((emitted_inner + seq![node_v]) + sub =~= emitted_inner + (
                                seq![node_v] + sub));
                                assert(nodes@.subrange(0, base2) =~= snap);
                                assert(nodes@.subrange(0, base) =~= old(nodes)@);
                            }
                        },
                        Err(e) => {
                            proof {
                                assert(spec_walk_inode(
                                    m,
                                    blocks,
                                    fi,
                                    crate::filesystem::spec_join(path_v, e_v.name),
                                    vis_cur.push(inode_key),
                                    (b - 1) as nat,
                                ) is None);
                                assert(spec_walk_entries(
                                    m,
                                    blocks,
                                    dirs_v,
                                    di as int,
                                    ei as int,
                                    path_v,
                                    vis_cur,
                                    b,
                                ) is None);
                                assert(spec_walk_dirs(m, blocks, dirs_v, di as int, path_v, vis1, b)
                                    is None);
                                assert(spec_walk_dirs(m, blocks, dirs_v, 0, path_v, vis0, b)
                                    is None);
                            }
                            return Err(e);
                        },
                    }
                } else {
                    let inner: crate::filesystem::InnerNode = if entry.t == 2 {
                        let basic = match &found_inode.inner {
                            InodeInner::BasicFile(file) => copy_basic_file(file),
                            InodeInner::ExtendedFile(file) => {
                                if file.blocks_start > u32::MAX as u64 || file.file_size
                                    > u32::MAX as u64 {
                                    proof {
                                        assert(spec_entry_node(
                                            fi,
                                            e_v.t,
                                            crate::filesystem::spec_node_header(fi.header),
                                            e_v.name,
                                        ) is None);
                                        assert(spec_walk_entries(
                                            m,
                                            blocks,
                                            dirs_v,
                                            di as int,
                                            ei as int,
                                            path_v,
                                            vis_cur,
                                            b,
                                        ) is None);
                                        assert(spec_walk_dirs(
                                            m,
                                            blocks,
                                            dirs_v,
                                            di as int,
                                            path_v,
                                            vis1,
                                            b,
                                        ) is None);
                                        assert(spec_walk_dirs(m, blocks, dirs_v, 0, path_v, vis0, b)
                                            is None);
                                    }
                                    return Err(SquashfsError::CorruptInodeTable);
                                }
                                BasicFile {
                                    blocks_start: file.blocks_start as u32,
                                    frag: file.frag,
                                    block_offset: file.block_offset,
                                    file_size: file.file_size as u32,
                                    block_sizes: vstd::slice::slice_to_vec(
                                        file.block_sizes.as_slice(),
                                    ),
                                }
                            },
                            _ => {
                                proof {
                                    assert(false);
                                }
                                return Err(SquashfsError::CorruptInodeTable);
                            },
                        };
                        crate::filesystem::InnerNode::File(
                            crate::filesystem::SquashfsFileReader { header, basic },
                        )
                    } else if entry.t == 3 {
                        let (original, link) = match self.symlink(found_inode, entry) {
                            Ok(p) => p,
                            Err(e) => {
                                proof {
                                    assert(spec_entry_node(
                                        fi,
                                        e_v.t,
                                        crate::filesystem::spec_node_header(fi.header),
                                        e_v.name,
                                    ) is None);
                                    assert(spec_walk_entries(
                                        m,
                                        blocks,
                                        dirs_v,
                                        di as int,
                                        ei as int,
                                        path_v,
                                        vis_cur,
                                        b,
                                    ) is None);
                                    assert(spec_walk_dirs(
                                        m,
                                        blocks,
                                        dirs_v,
                                        di as int,
                                        path_v,
                                        vis1,
                                        b,
                                    ) is None);
                                    assert(spec_walk_dirs(m, blocks, dirs_v, 0, path_v, vis0, b)
                                        is None);
                                }
                                return Err(e);
                            },
                        };
                        crate::filesystem::InnerNode::Symlink(
                            crate::filesystem::SquashfsSymlink { header, original, link },
                        )
                    } else if entry.t == 4 {
                        let device_number = match self.block_device(found_inode) {
                            Ok(dv) => dv,
                            Err(e) => {
                                proof {
                                    assert(spec_entry_node(
                                        fi,
                                        e_v.t,
                                        crate::filesystem::spec_node_header(fi.header),
                                        e_v.name,
                                    ) is None);
                                    assert(spec_walk_entries(
                                        m,
                                        blocks,
                                        dirs_v,
                                        di as int,
                                        ei as int,
                                        path_v,
                                        vis_cur,
                                        b,
                                    ) is None);
                                    assert(spec_walk_dirs(
                                        m,
                                        blocks,
                                        dirs_v,
                                        di as int,
                                        path_v,
                                        vis1,
                                        b,
                                    ) is None);
                                    assert(spec_walk_dirs(m, blocks, dirs_v, 0, path_v, vis0, b)
                                        is None);
                                }
                                return Err(e);
                            },
                        };
                        crate::filesystem::InnerNode::BlockDevice(
                            crate::filesystem::SquashfsBlockDevice { header, device_number },
                        )
                    } else if entry.t == 5 {
                        let device_number = match self.char_device(found_inode) {
                            Ok(dv) => dv,
                            Err(e) => {
                                proof {
                                    assert(spec_entry_node(
                                        fi,
                                        e_v.t,
                                        crate::filesystem::spec_node_header(fi.header),
                                        e_v.name,
                                    ) is None);
                                    assert(spec_walk_entries(
                                        m,
                                        blocks,
                                        dirs_v,
                                        di as int,
                                        ei as int,
                                        path_v,
                                        vis_cur,
                                        b,
                                    ) is None);
                                    assert(spec_walk_dirs(
                                        m,
                                        blocks,
                                        dirs_v,
                                        di as int,
                                        path_v,
                                        vis1,
                                        b,
                                    ) is None);
                                    assert(spec_walk_dirs(m, blocks, dirs_v, 0, path_v, vis0, b)
                                        is None);
                                }
                                return Err(e);
                            },
                        };
                        crate::filesystem::InnerNode::CharacterDevice(
                            crate::filesystem::SquashfsCharacterDevice { header, device_number },
                        )
                    } else if entry.t == 6 {
                        crate::filesystem::InnerNode::Fifo(
                            crate::filesystem::SquashfsFifo { header },
                        )
                    } else if entry.t == 7 {
                        crate::filesystem::InnerNode::Socket(
                            crate::filesystem::SquashfsSocket { header },
                        )
                    } else {
                        proof {
                            assert(false);
                        }
                        return Err(SquashfsError::UnknownInodeType);
                    };
                    let node = crate::filesystem::Node { path: new_path, inner };
                    let ghost node_v = node@;
                    proof {
                        assert(spec_entry_node(
                            fi,
                            e_v.t,
                            crate::filesystem::spec_node_header(fi.header),
                            e_v.name,
                        ) == Some(node_v.inner));
                        assert(node_v.path == crate::filesystem::spec_join(path_v, e_v.name));
                        assert(spec_inode_matches_node(fi, node_v.inner));
                        let y = spec_walk_entries(
                            m,
                            blocks,
                            dirs_v,
                            di as int,
                            ei as int + 1,
                            path_v,
                            vis_cur,
                            b,
                        );
                        assert(spec_walk_entries(
                            m,
                            blocks,
                            dirs_v,
                            di as int,
                            ei as int,
                            path_v,
                            vis_cur,
                            b,
                        ) == wk_completion(seq![node_v], y));
                        match y {
                            Option::Some(q) => {
                                assert(emitted_inner + (seq![node_v] + q.0) =~= (emitted_inner
                                    + seq![node_v]) + q.0);
                            },
                            Option::None => {},
                        }
                    }
                    nodes.push(node);
                    proof {
                        assert(nodes@.subrange(base2, nodes@.len() as int).map_values(
                            |n: crate::filesystem::Node| n@,
                        ) =~= emitted_inner + seq![node_v]);
                        assert(nodes@.subrange(0, base2) =~= snap);
                        assert(nodes@.subrange(0, base) =~= old(nodes)@);
                    }
                }
                ei = ei + 1;
            }
            proof {
                let vis_now = visited@;
                let p0 = nodes@.subrange(base2, nodes@.len() as int).map_values(
                    |n: crate::filesystem::Node| n@,
                );
                assert(spec_walk_entries(m, blocks, dirs_v, di as int, ei as int, path_v, vis_now, b)
                    == Some((Seq::<crate::filesystem::NodeV>::empty(), vis_now)));
                assert(p0 + Seq::<crate::filesystem::NodeV>::empty() =~= p0);
                assert(spec_walk_entries(m, blocks, dirs_v, di as int, 0, path_v, vis1, b) == Some(
                    (p0, vis_now),
                ));
                assert(spec_walk_dirs(m, blocks, dirs_v, di as int, path_v, vis1, b)
                    == wk_completion(
                    p0,
                    spec_walk_dirs(m, blocks, dirs_v, di as int + 1, path_v, vis_now, b),
                ));
                let z = spec_walk_dirs(m, blocks, dirs_v, di as int + 1, path_v, vis_now, b);
                match z {
                    Option::Some(q) => {
                        assert(pre_outer + (p0 + q.0) =~= (pre_outer + p0) + q.0);
                    },
                    Option::None => {},
                }
                assert(nodes@.subrange(base, nodes@.len() as int) =~= nodes@.subrange(base, base2)
                    + nodes@.subrange(base2, nodes@.len() as int));
                assert(nodes@.subrange(base, base2) =~= snap.subrange(base, base2));
                assert(nodes@.subrange(base, nodes@.len() as int).map_values(
                    |n: crate::filesystem::Node| n@,
                ) =~= pre_outer + p0);
            }
            di = di + 1;
        }
        proof {
            assert(spec_walk_dirs(m, blocks, dirs_v, di as int, path_v, visited@, b) == Some(
                (Seq::<crate::filesystem::NodeV>::empty(), visited@),
            ));
            let emitted = nodes@.subrange(base, nodes@.len() as int).map_values(
                |n: crate::filesystem::Node| n@,
            );
            assert(emitted + Seq::<crate::filesystem::NodeV>::empty() =~= emitted);
        }
        Ok(())
    }

    /// Convert into a `FilesystemReader` by walking the whole tree from
    /// the root inode.
    pub fn into_filesystem_reader(self) -> (r: Result<
        crate::filesystem::FilesystemReader,
        SquashfsError,
    >)
        ensures
            r matches Ok(fr) ==> {
                &&& fr.block_size == self.superblock.block_size
                &&& fr.block_log == self.superblock.block_log
                &&& fr.compressor == self.superblock.compressor
                &&& fr.compression_options == self.compression_options
                &&& fr.mod_time == self.superblock.mod_time
                &&& id_view(fr.id_table) == id_view(self.id)
                &&& frag_view(fr.fragments) == frag_view(self.fragments)
                &&& fr.root_inode.header == crate::filesystem::spec_node_header(
                    self.root_inode.header,
                )
                &&& fr.data@ == self.data_and_fragments@
                &&& fr.frag_cache_wf()
                &&& forall|q: int|
                    0 <= q < fr.nodes@.len() ==> spec_node_from(
                        self.inodes@,
                        #[trigger] fr.nodes@[q]@,
                    )
                &&& (match spec_walk_inode(
                    self.inodes@,
                    self.dir_blocks@.map_values(|x: DirBlock| x@),
                    self.root_inode@,
                    seq![47u8],
                    Seq::<u32>::empty(),
                    spec_budget(self.superblock.inode_count),
                ) {
                    Option::Some(p) => fr.nodes@.map_values(|n: crate::filesystem::Node| n@)
                        == p.0,
                    Option::None => false,
                })
            },
            r is Ok <==> (self.root_inode@.is_dir() && spec_walk_inode(
                self.inodes@,
                self.dir_blocks@.map_values(|x: DirBlock| x@),
                self.root_inode@,
                seq![47u8],
                Seq::<u32>::empty(),
                spec_budget(self.superblock.inode_count),
            ) is Some),
    {
        let mut nodes: Vec<crate::filesystem::Node> = Vec::new();
        let mut path: Vec<u8> = Vec::new();
        path.push(47u8);
        let mut visited: Vec<u32> = Vec::new();
        let budget: usize = if self.superblock.inode_count as u64 >= usize::MAX as u64 {
            usize::MAX
        } else {
            (self.superblock.inode_count as usize) + 1
        };
        proof {
            assert(path@ =~= seq![47u8]);
            assert(visited@ =~= Seq::<u32>::empty());
            assert(budget as nat == spec_budget(self.superblock.inode_count));
        }
        let root = &self.root_inode;
        let t = root.type_id();
        if !(t == 1 || t == 8) {
            proof {
                assert(!self.root_inode@.is_dir());
            }
            return Err(SquashfsError::CorruptInodeTable);
        }
        match self.extract_dir(&mut nodes, root, &path, &mut visited, budget) {
            Ok(_) => (),
            Err(e) => {
                return Err(e);
            },
        }
        proof {
            assert(nodes@.subrange(0, nodes@.len() as int) =~= nodes@);
        }
        let root_inode = crate::filesystem::SquashfsDir {
            header: crate::filesystem::node_header(&self.root_inode.header),
        };
        let fr = crate::filesystem::FilesystemReader {
            block_size: self.superblock.block_size,
                block_log: self.superblock.block_log,
                compressor: self.superblock.compressor,
                compression_options: self.compression_options,
                mod_time: self.superblock.mod_time,
                id_table: self.id,
                fragments: self.fragments,
            root_inode,
            nodes,
            data: self.data_and_fragments,
            cache: crate::filesystem::Cache {
                fragment_cache: std::collections::HashMap::new(),
            },
        };
        proof {
            assert(fr.frag_cache_wf());
        }
        Ok(fr)
    }
}

/// Whether `x` occurs in `v`.
fn contains_u32(v: &Vec<u32>, x: u32) -> (r: bool)
    ensures
        r == v@.contains(x),
{
    let n: usize = v.len();
    let mut k: usize = 0;
    while k < n
        invariant
            k <= n,
            n == v@.len(),
            forall|q: int| 0 <= q < k ==> v@[q] != x,
        decreases n - k,
    {
        if v[k] == x {
            return true;
        }
        k = k + 1;
    }
    proof {
        assert(!v@.contains(x));
    }
    false
}

/// The set of `u32` values from 1 through `n` is finite and has `n`
/// elements.
proof fn lemma_u32_range_len(n: u32)
    ensures
        Set::new(|x: u32| 1 <= x <= n).finite(),
        Set::new(|x: u32| 1 <= x <= n).len() == n,
    decreases n,
{
    broadcast use vstd::set::group_set_axioms;

    let s = Set::new(|x: u32| 1 <= x <= n);
    if n == 0 {
        assert(s =~= Set::<u32>::empty());
    } else {
        lemma_u32_range_len((n - 1) as u32);
        let s0 = Set::new(|x: u32| 1 <= x <= (n - 1) as u32);
        assert(s =~= s0.insert(n));
        assert(!s0.contains(n));
    }
}

/// A set of `n` distinct values drawn from `[1, n]` must contain every
/// value of `[1, n]`.
proof fn lemma_u32_bounded_full(s: Set<u32>, n: u32)
    requires
        s.finite(),
        forall|x: u32| #[trigger] s.contains(x) ==> 1 <= x <= n,
        s.len() == n,
    ensures
        forall|x: u32| 1 <= x <= n ==> s.contains(x),
{
    broadcast use vstd::set::group_set_axioms;

    let range = Set::new(|x: u32| 1 <= x <= n);
    lemma_u32_range_len(n);
    assert(s.subset_of(range));
    assert forall|x: u32| 1 <= x <= n implies s.contains(x) by {
        if !s.contains(x) {
            let smaller = range.remove(x);
            assert(s.subset_of(smaller));
            assert(range.contains(x));
            assert(smaller.len() == n - 1);
            vstd::set_lib::lemma_len_subset(s, smaller);
        }
    }
}

/// The inode numbers of a parsed archive are exactly `1` through
/// `inode_count`: every number of that range keys an inode of the map,
/// and nothing else does.
pub proof fn lemma_inode_numbers_complete(img: Seq<u8>, a: Squashfs)
    requires
        spec_archive_ok(img, a),
    ensures
        forall|x: u32|
            a.inodes@.dom().contains(x) <==> 1 <= x <= a.superblock.inode_count,
{
    let m = a.inodes@;
    let count = a.superblock.inode_count;
    lemma_u32_bounded_full(m.dom(), count);
}

/// Parsing is deterministic: two archives that both stand in the parse
/// relation to one image agree on every component, view for view. Together
/// with the parser's contract — `spec_archive_ok` on success, and success
/// exactly when `spec_archive_parses` holds of the bytes — parsing one
/// stream twice yields structurally identical archives, and the two runs
/// agree on whether they fail at all.
pub proof fn lemma_parse_deterministic(img: Seq<u8>, a1: Squashfs, a2: Squashfs)
    requires
        spec_archive_ok(img, a1),
        spec_archive_ok(img, a2),
    ensures
        a1.superblock == a2.superblock,
        a1.compression_options == a2.compression_options,
        a1.options_oversized == a2.options_oversized,
        a1.data_and_fragments@ == a2.data_and_fragments@,
        a1.root_inode@ == a2.root_inode@,
        frag_view(a1.fragments) == frag_view(a2.fragments),
        export_view(a1.export) == export_view(a2.export),
        id_view(a1.id) == id_view(a2.id),
        a1.dir_blocks@.map_values(|x: DirBlock| x@) == a2.dir_blocks@.map_values(
            |x: DirBlock| x@,
        ),
        a1.inodes@.dom() == a2.inodes@.dom(),
        forall|x: u32|
            a1.inodes@.dom().contains(x) ==> a1.inodes@[x]@ == a2.inodes@[x]@,
{
    let sb = a1.superblock;
    let count = sb.inode_count;
    lemma_inode_numbers_complete(img, a1);
    lemma_inode_numbers_complete(img, a2);
    assert(a1.inodes@.dom() =~= a2.inodes@.dom());
    match spec_blocks_range(img, sb.inode_table as int, sb.dir_table as int, sb.compressor) {
        Option::Some(bytes) => {
            match crate::inode::spec_inode_list(bytes, 0, sb.block_size as int) {
                Option::Some(inos) => {
                    let nums = spec_inode_numbers(inos);
                    nums.unique_seq_to_set();
                    assert forall|x: u32| #[trigger] nums.to_set().contains(x) implies 1 <= x
                        <= count by {
                        let i = choose|i: int| 0 <= i < nums.len() && nums[i] == x;
                        assert(inos[i].header.inode_number == x);
                    }
                    lemma_u32_bounded_full(nums.to_set(), count);
                    assert forall|x: u32| a1.inodes@.dom().contains(x) implies a1.inodes@[x]@
                        == a2.inodes@[x]@ by {
                        assert(nums.to_set().contains(x));
                        let i = choose|i: int| 0 <= i < nums.len() && nums[i] == x;
                        assert(inos[i].header.inode_number == x);
                        assert(a1.inodes@[x]@ == inos[i]);
                        assert(a2.inodes@[x]@ == inos[i]);
                    }
                },
                Option::None => {
                    assert(false);
                },
            }
        },
        Option::None => {
            assert(false);
        },
    }
}

} // verus!
