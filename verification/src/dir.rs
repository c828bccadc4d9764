//! Directory listings: headers of runs of entries, decoded from the
//! decompressed directory-table byte stream.

use crate::error::SquashfsError;
use crate::le::le16;
use crate::le::le32;
use crate::le::read_u16;
use crate::le::read_u32;
use vstd::prelude::*;
use vstd::slice::slice_subrange;
use vstd::slice::slice_to_vec;

verus! {

/// One directory entry: its location in the inode stream, its type, and
/// its name.
pub struct DirEntry {
    /// Byte offset of the entry's inode within its metadata block.
    pub offset: u16,
    /// Signed difference between the entry's inode number and the run
    /// header's base inode number.
    pub inode_offset: i16,
    /// The entry's type, in the basic-tag numbering.
    pub t: u16,
    /// One less than the length of `name`.
    pub name_size: u16,
    /// The file name, not NUL-terminated.
    pub name: Vec<u8>,
}

/// A run header and the entries that follow it.
pub struct Dir {
    /// One less than the number of entries in the run.
    pub count: u32,
    /// Start, relative to the inode table, of the metadata block the run's
    /// entries share.
    pub start: u32,
    /// Base inode number the entries' signed offsets are relative to.
    pub inode_num: u32,
    pub dir_entries: Vec<DirEntry>,
}

pub struct DirEntryV {
    pub offset: u16,
    pub inode_offset: i16,
    pub t: u16,
    pub name_size: u16,
    pub name: Seq<u8>,
}

pub struct DirV {
    pub count: u32,
    pub start: u32,
    pub inode_num: u32,
    pub dir_entries: Seq<DirEntryV>,
}

impl View for DirEntry {
    type V = DirEntryV;

    open spec fn view(&self) -> DirEntryV {
        DirEntryV {
            offset: self.offset,
            inode_offset: self.inode_offset,
            t: self.t,
            name_size: self.name_size,
            name: self.name@,
        }
    }
}

impl View for Dir {
    type V = DirV;

    open spec fn view(&self) -> DirV {
        DirV {
            count: self.count,
            start: self.start,
            inode_num: self.inode_num,
            dir_entries: self.dir_entries@.map_values(|e: DirEntry| e@),
        }
    }
}

/// The signed 16-bit value whose two's-complement bits are `u`.
pub open spec fn spec_i16(u: u16) -> i16 {
    if u < 0x8000 {
        u as i16
    } else {
        (u - 0x10000) as i16
    }
}

/// What decoding one directory entry at byte `j` of `b` yields.
pub open spec fn spec_dir_entry(b: Seq<u8>, j: int) -> Option<(DirEntryV, int)> {
    if j < 0 || j + 8 > b.len() {
        None
    } else {
        let name_size = le16(b, j + 6) as int;
        if j + 8 + name_size + 1 > b.len() {
            None
        } else {
            Some(
                (
                    DirEntryV {
                        offset: le16(b, j),
                        inode_offset: spec_i16(le16(b, j + 2)),
                        t: le16(b, j + 4),
                        name_size: le16(b, j + 6),
                        name: b.subrange(j + 8, j + 8 + name_size + 1),
                    },
                    j + 8 + name_size + 1,
                ),
            )
        }
    }
}

/// What decoding a run of `n` directory entries at byte `j` of `b` yields.
pub open spec fn spec_dir_entry_list(b: Seq<u8>, j: int, n: int) -> Option<(Seq<DirEntryV>, int)>
    decreases n,
{
    if n <= 0 {
        Some((Seq::empty(), j))
    } else {
        match spec_dir_entry(b, j) {
            Option::Some(p) => match spec_dir_entry_list(b, p.1, n - 1) {
                Option::Some(q) => Some((seq![p.0] + q.0, q.1)),
                Option::None => None,
            },
            Option::None => None,
        }
    }
}

/// What decoding one directory run (header plus `count + 1` entries) at
/// byte `j` of `b` yields.
pub open spec fn spec_dir(b: Seq<u8>, j: int) -> Option<(DirV, int)> {
    if j < 0 || j + 12 > b.len() {
        None
    } else {
        let count = le32(b, j) as int;
        match spec_dir_entry_list(b, j + 12, count + 1) {
            Option::Some(p) => Some(
                (
                    DirV {
                        count: le32(b, j),
                        start: le32(b, j + 4),
                        inode_num: le32(b, j + 8),
                        dir_entries: p.0,
                    },
                    p.1,
                ),
            ),
            Option::None => None,
        }
    }
}

/// What decoding directory runs from byte `j` to the end of `b` yields.
pub open spec fn spec_dir_list(b: Seq<u8>, j: int) -> Option<Seq<DirV>>
    decreases b.len() - j,
{
    if j >= b.len() {
        Some(Seq::empty())
    } else {
        match spec_dir(b, j) {
            Option::Some(p) => if p.1 <= j || p.1 > b.len() {
                None
            } else {
                match spec_dir_list(b, p.1) {
                    Option::Some(rest) => Some(seq![p.0] + rest),
                    Option::None => None,
                }
            },
            Option::None => None,
        }
    }
}

/// Glue for loop proofs over entry runs.
pub open spec fn de_completion(pre: Seq<DirEntryV>, o: Option<(Seq<DirEntryV>, int)>) -> Option<
    (Seq<DirEntryV>, int),
> {
    match o {
        Option::Some(p) => Some((pre + p.0, p.1)),
        Option::None => None,
    }
}

/// Glue for loop proofs over run lists.
pub open spec fn dl_completion(pre: Seq<DirV>, o: Option<Seq<DirV>>) -> Option<Seq<DirV>> {
    match o {
        Option::Some(rest) => Some(pre + rest),
        Option::None => None,
    }
}

/// Decode one directory entry at byte `j` of `s`.
pub fn parse_dir_entry(s: &[u8], j: usize) -> (r: Result<(DirEntry, usize), SquashfsError>)
    ensures
        r matches Ok(p) ==> spec_dir_entry(s@, j as int) == Some((p.0@, p.1 as int)) && j < p.1
            <= s@.len(),
        r matches Err(e) ==> spec_dir_entry(s@, j as int) is None && e
            == SquashfsError::CorruptDirTable,
{
    let slen: usize = s.len();
    if j >= slen || slen - j < 8 {
        return Err(SquashfsError::CorruptDirTable);
    }
    let name_size = read_u16(s, j + 6);
    let rem: usize = slen - (j + 8);
    if (name_size as u64) + 1 > (rem as u64) {
        return Err(SquashfsError::CorruptDirTable);
    }
    let raw_off = read_u16(s, j + 2);
    let inode_offset: i16 = if raw_off < 0x8000 {
        raw_off as i16
    } else {
        ((raw_off as i32) - 0x10000) as i16
    };
    let name_len: usize = (name_size as usize) + 1;
    let e = DirEntry {
        offset: read_u16(s, j),
        inode_offset,
        t: read_u16(s, j + 4),
        name_size,
        name: slice_to_vec(slice_subrange(s, j + 8, j + 8 + name_len)),
    };
    Ok((e, j + 8 + name_len))
}

/// Decode one directory run (header plus `count + 1` entries) at byte `j`
/// of `s`.
pub fn parse_dir(s: &[u8], j: usize) -> (r: Result<(Dir, usize), SquashfsError>)
    ensures
        r matches Ok(p) ==> spec_dir(s@, j as int) == Some((p.0@, p.1 as int)) && j < p.1
            <= s@.len(),
        r matches Err(e) ==> spec_dir(s@, j as int) is None && e == SquashfsError::CorruptDirTable,
{
    let slen: usize = s.len();
    if j >= slen || slen - j < 12 {
        return Err(SquashfsError::CorruptDirTable);
    }
    let count = read_u32(s, j);
    let start = read_u32(s, j + 4);
    let inode_num = read_u32(s, j + 8);
    let n64: u64 = (count as u64) + 1;
    let mut acc: Vec<DirEntry> = Vec::new();
    let mut cur: usize = j + 12;
    let mut k: u64 = 0;
    proof {
        let x = spec_dir_entry_list(s@, (j + 12) as int, n64 as int);
        match x {
            Option::Some(p) => {
                assert(Seq::<DirEntryV>::empty() + p.0 =~= p.0);
            },
            Option::None => {},
        }
        assert(acc@.map_values(|x: DirEntry| x@) =~= Seq::<DirEntryV>::empty());
    }
    while k < n64
        invariant
            k <= n64,
            j + 12 <= cur <= slen,
            slen == s@.len(),
            count == le32(s@, j as int),
            start == le32(s@, j as int + 4),
            inode_num == le32(s@, j as int + 8),
            n64 == (count as u64) + 1,
            spec_dir_entry_list(s@, (j + 12) as int, n64 as int) == de_completion(
                acc@.map_values(|x: DirEntry| x@),
                spec_dir_entry_list(s@, cur as int, n64 - k),
            ),
        decreases n64 - k,
    {
        let ghost acc_v = acc@.map_values(|x: DirEntry| x@);
        match parse_dir_entry(s, cur) {
            Ok(p) => {
                let (e, next) = p;
                proof {
                    let e_v = e@;
                    let y = spec_dir_entry_list(s@, next as int, n64 - k - 1);
                    assert(spec_dir_entry_list(s@, cur as int, n64 - k) == de_completion(
                        seq![e_v],
                        y,
                    ));
                    match y {
                        Option::Some(q) => {
                            assert(acc_v + (seq![e_v] + q.0) =~= (acc_v + seq![e_v]) + q.0);
                        },
                        Option::None => {},
                    }
                    assert(acc@.push(e).map_values(|x: DirEntry| x@) =~= acc_v + seq![e_v]);
                }
                acc.push(e);
                cur = next;
                k = k + 1;
            },
            Err(e) => {
                proof {
                    assert(spec_dir_entry_list(s@, cur as int, n64 - k) is None);
                    assert(spec_dir_entry_list(s@, (j + 12) as int, n64 as int) is None);
                    assert(le32(s@, j as int) == count);
                    assert(n64 as int == le32(s@, j as int) as int + 1);
                    assert(spec_dir(s@, j as int) is None);
                }
                return Err(e);
            },
        }
    }
    proof {
        let acc_v = acc@.map_values(|x: DirEntry| x@);
        assert(spec_dir_entry_list(s@, cur as int, 0) == Some(
            (Seq::<DirEntryV>::empty(), cur as int),
        ));
        assert(acc_v + Seq::<DirEntryV>::empty() =~= acc_v);
    }
    Ok((Dir { count, start, inode_num, dir_entries: acc }, cur))
}

/// Decode directory runs from the whole of `s`, in stream order.
pub fn parse_dir_list(s: &[u8]) -> (r: Result<Vec<Dir>, SquashfsError>)
    ensures
        r matches Ok(v) ==> spec_dir_list(s@, 0) == Some(v@.map_values(|x: Dir| x@)),
        r matches Err(e) ==> spec_dir_list(s@, 0) is None && e == SquashfsError::CorruptDirTable,
{
    let slen: usize = s.len();
    let mut acc: Vec<Dir> = Vec::new();
    let mut cur: usize = 0;
    proof {
        let x = spec_dir_list(s@, 0);
        match x {
            Option::Some(rest) => {
                assert(Seq::<DirV>::empty() + rest =~= rest);
            },
            Option::None => {},
        }
        assert(acc@.map_values(|x: Dir| x@) =~= Seq::<DirV>::empty());
    }
    while cur < slen
        invariant
            cur <= slen,
            slen == s@.len(),
            spec_dir_list(s@, 0) == dl_completion(
                acc@.map_values(|x: Dir| x@),
                spec_dir_list(s@, cur as int),
            ),
        decreases slen - cur,
    {
        let ghost acc_v = acc@.map_values(|x: Dir| x@);
        match parse_dir(s, cur) {
            Ok(p) => {
                let (d, next) = p;
                proof {
                    let d_v = d@;
                    let y = spec_dir_list(s@, next as int);
                    assert(spec_dir_list(s@, cur as int) == dl_completion(seq![d_v], y));
                    match y {
                        Option::Some(rest) => {
                            assert(acc_v + (seq![d_v] + rest) =~= (acc_v + seq![d_v]) + rest);
                        },
                        Option::None => {},
                    }
                    assert(acc@.push(d).map_values(|x: Dir| x@) =~= acc_v + seq![d_v]);
                }
                acc.push(d);
                cur = next;
            },
            Err(e) => {
                return Err(e);
            },
        }
    }
    proof {
        let acc_v = acc@.map_values(|x: Dir| x@);
        assert(spec_dir_list(s@, cur as int) == Some(Seq::<DirV>::empty()));
        assert(acc_v + Seq::<DirV>::empty() =~= acc_v);
    }
    Ok(acc)
}

} // verus!
