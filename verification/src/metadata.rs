//! The metadata-block codec: a 2-byte little-endian header whose low 15 bits
//! give the payload length and whose bit 15, when set, marks the payload as
//! stored uncompressed.

use crate::compressor::decompress;
use crate::compressor::spec_decompress;
use crate::compressor::Compressor;
use crate::error::SquashfsError;
use crate::le::le16;
use crate::le::read_u16;
use crate::superblock::METADATA_MAX;
use vstd::prelude::*;
use vstd::slice::slice_subrange;
use vstd::slice::slice_to_vec;

verus! {

/// What reading one metadata block at byte `pos` of `s` yields: the
/// decompressed payload and the position just past the block, or nothing
/// when the image is truncated there, the header declares an impossible
/// payload, or the payload does not decode to at most `METADATA_MAX` bytes.
pub open spec fn spec_read_block(s: Seq<u8>, pos: int, c: Compressor) -> Option<(Seq<u8>, int)> {
    if pos < 0 || pos + 2 > s.len() {
        None
    } else {
        let h = le16(s, pos);
        let len = (h % 0x8000) as int;
        let stored_uncompressed = h >= 0x8000;
        if len == 0 || (stored_uncompressed && len > METADATA_MAX) {
            None
        } else if pos + 2 + len > s.len() {
            None
        } else {
            let raw = s.subrange(pos + 2, pos + 2 + len);
            if stored_uncompressed {
                Some((raw, pos + 2 + len))
            } else {
                match spec_decompress(c, raw) {
                    Option::Some(payload) => if payload.len() <= METADATA_MAX {
                        Some((payload, pos + 2 + len))
                    } else {
                        None
                    },
                    Option::None => None,
                }
            }
        }
    }
}

/// The error a failed metadata-block read reports: `Truncated` when the
/// header or payload runs past the end, `InvalidMetadataHeader` when the
/// header declares an impossible payload, else `DecompressError` (the codec
/// is the only remaining way to fail).
pub open spec fn spec_read_block_err(s: Seq<u8>, pos: int, c: Compressor) -> SquashfsError {
    if pos < 0 || pos + 2 > s.len() {
        SquashfsError::Truncated
    } else {
        let h = le16(s, pos);
        let len = (h % 0x8000) as int;
        if len == 0 || (h >= 0x8000 && len > METADATA_MAX) {
            SquashfsError::InvalidMetadataHeader
        } else if pos + 2 + len > s.len() {
            SquashfsError::Truncated
        } else {
            SquashfsError::DecompressError
        }
    }
}

/// Read one metadata block at byte `pos` of `s`, decompressing with `c`
/// when the header's bit 15 is clear.
///
/// Fails with `Truncated` when the header or payload runs past the end of
/// `s`, with `InvalidMetadataHeader` when the header declares a zero-length
/// payload or an uncompressed payload over `METADATA_MAX` bytes, and with
/// `DecompressError` when the codec rejects a compressed payload.
pub fn read_block(s: &[u8], pos: usize, c: Compressor) -> (r: Result<
    (Vec<u8>, usize),
    SquashfsError,
>)
    ensures
        r matches Ok(p) ==> spec_read_block(s@, pos as int, c) == Some((p.0@, p.1 as int)) && pos
            < p.1 <= s@.len(),
        r matches Err(e) ==> spec_read_block(s@, pos as int, c) is None && e
            == spec_read_block_err(s@, pos as int, c),
{
    let slen: usize = s.len();
    if pos >= slen || slen - pos < 2 {
        return Err(SquashfsError::Truncated);
    }
    let h = read_u16(s, pos);
    let len = (h % 0x8000) as usize;
    let stored_uncompressed = h >= 0x8000;
    if len == 0 || (stored_uncompressed && len > METADATA_MAX) {
        return Err(SquashfsError::InvalidMetadataHeader);
    }
    if slen - (pos + 2) < len {
        return Err(SquashfsError::Truncated);
    }
    let raw = slice_subrange(s, pos + 2, pos + 2 + len);
    let next = pos + 2 + len;
    if stored_uncompressed {
        Ok((slice_to_vec(raw), next))
    } else {
        match decompress(c, raw, METADATA_MAX) {
            Ok(payload) => Ok((payload, next)),
            Err(e) => Err(e),
        }
    }
}

/// Glue for loop proofs: prepend already-read payload bytes to the outcome
/// of reading the remaining blocks.
pub open spec fn bytes_completion(pre: Seq<u8>, o: Option<Seq<u8>>) -> Option<Seq<u8>> {
    match o {
        Option::Some(rest) => Some(pre + rest),
        Option::None => None,
    }
}

/// The concatenated payloads of the metadata blocks that start in
/// `[pos, end)` of `s`, reading each block in full even when it straddles
/// `end`.
pub open spec fn spec_blocks_range(s: Seq<u8>, pos: int, end: int, c: Compressor) -> Option<Seq<u8>>
    decreases end - pos,
{
    if pos >= end {
        Some(Seq::empty())
    } else {
        match spec_read_block(s, pos, c) {
            Option::Some(p) => {
                let next = if p.1 > end {
                    end
                } else {
                    p.1
                };
                if next <= pos {
                    None
                } else {
                    match spec_blocks_range(s, next, end, c) {
                        Option::Some(rest) => Some(p.0 + rest),
                        Option::None => None,
                    }
                }
            },
            Option::None => None,
        }
    }
}

/// The concatenated payloads of `n` consecutive metadata blocks starting
/// at `pos` of `s`.
pub open spec fn spec_blocks_count(s: Seq<u8>, pos: int, n: int, c: Compressor) -> Option<Seq<u8>>
    decreases n,
{
    if n <= 0 {
        Some(Seq::empty())
    } else {
        match spec_read_block(s, pos, c) {
            Option::Some(p) => match spec_blocks_count(s, p.1, n - 1, c) {
                Option::Some(rest) => Some(p.0 + rest),
                Option::None => None,
            },
            Option::None => None,
        }
    }
}

/// The error the first failing block of `[pos, end)` reports.
pub open spec fn spec_blocks_range_err(s: Seq<u8>, pos: int, end: int, c: Compressor) -> SquashfsError
    decreases end - pos,
{
    if pos >= end {
        SquashfsError::Truncated
    } else {
        match spec_read_block(s, pos, c) {
            Option::Some(p) => {
                let next = if p.1 > end {
                    end
                } else {
                    p.1
                };
                if next <= pos {
                    SquashfsError::Truncated
                } else {
                    spec_blocks_range_err(s, next, end, c)
                }
            },
            Option::None => spec_read_block_err(s, pos, c),
        }
    }
}

/// The error the first failing block of a run of `n` reports.
pub open spec fn spec_blocks_count_err(s: Seq<u8>, pos: int, n: int, c: Compressor) -> SquashfsError
    decreases n,
{
    if n <= 0 {
        SquashfsError::Truncated
    } else {
        match spec_read_block(s, pos, c) {
            Option::Some(p) => spec_blocks_count_err(s, p.1, n - 1, c),
            Option::None => spec_read_block_err(s, pos, c),
        }
    }
}

/// Append the contents of `src` to `dst`.
pub fn append_bytes(dst: &mut Vec<u8>, src: &Vec<u8>)
    ensures
        final(dst)@ == old(dst)@ + src@,
{
    let n: usize = src.len();
    let mut k: usize = 0;
    while k < n
        invariant
            k <= n,
            n == src@.len(),
            dst@ == old(dst)@ + src@.subrange(0, k as int),
        decreases n - k,
    {
        let b = src[k];
        proof {
            assert(old(dst)@ + src@.subrange(0, k as int + 1) =~= (old(dst)@ + src@.subrange(
                0,
                k as int,
            )).push(src@[k as int]));
        }
        dst.push(b);
        k = k + 1;
    }
    proof {
        assert(src@.subrange(0, n as int) =~= src@);
    }
}

/// Read every metadata block that starts in `[pos0, end)` of `s` and
/// concatenate the decompressed payloads.
pub fn read_blocks_range(s: &[u8], pos0: u64, end: u64, c: Compressor) -> (r: Result<
    Vec<u8>,
    SquashfsError,
>)
    ensures
        r matches Ok(v) ==> spec_blocks_range(s@, pos0 as int, end as int, c) == Some(v@),
        r matches Err(e) ==> spec_blocks_range(s@, pos0 as int, end as int, c) is None && e
            == spec_blocks_range_err(s@, pos0 as int, end as int, c),
{
    let slen: usize = s.len();
    let mut acc: Vec<u8> = Vec::new();
    if pos0 >= end {
        proof {
            assert(acc@ =~= Seq::<u8>::empty());
        }
        return Ok(acc);
    }
    let mut cur: u64 = pos0;
    proof {
        let x = spec_blocks_range(s@, pos0 as int, end as int, c);
        match x {
            Option::Some(rest) => {
                assert(Seq::<u8>::empty() + rest =~= rest);
            },
            Option::None => {},
        }
        assert(acc@ =~= Seq::<u8>::empty());
    }
    while cur < end
        invariant
            cur <= end,
            slen == s@.len(),
            spec_blocks_range(s@, pos0 as int, end as int, c) == bytes_completion(
                acc@,
                spec_blocks_range(s@, cur as int, end as int, c),
            ),
            spec_blocks_range_err(s@, pos0 as int, end as int, c) == spec_blocks_range_err(
                s@,
                cur as int,
                end as int,
                c,
            ),
        decreases end - cur,
    {
        let ghost acc_v = acc@;
        if cur >= slen as u64 {
            proof {
                assert(spec_read_block(s@, cur as int, c) is None);
            }
            return Err(SquashfsError::Truncated);
        }
        match read_block(s, cur as usize, c) {
            Ok(p) => {
                let (payload, next) = p;
                proof {
                    let next_c = if next as int > end as int {
                        end as int
                    } else {
                        next as int
                    };
                    assert(spec_blocks_range(s@, cur as int, end as int, c) == bytes_completion(
                        payload@,
                        spec_blocks_range(s@, next_c, end as int, c),
                    ));
                    if next as int > end as int {
                        assert(spec_blocks_range(s@, next_c, end as int, c) == Some(
                            Seq::<u8>::empty(),
                        ));
                        assert(spec_blocks_range(s@, next as int, end as int, c) == Some(
                            Seq::<u8>::empty(),
                        ));
                    }
                    let y = spec_blocks_range(s@, next as int, end as int, c);
                    match y {
                        Option::Some(rest) => {
                            assert(acc_v + (payload@ + rest) =~= (acc_v + payload@) + rest);
                        },
                        Option::None => {},
                    }
                }
                append_bytes(&mut acc, &payload);
                cur = if (next as u64) > end {
                    end
                } else {
                    next as u64
                };
            },
            Err(e) => {
                return Err(e);
            },
        }
    }
    proof {
        assert(spec_blocks_range(s@, cur as int, end as int, c) == Some(Seq::<u8>::empty()));
        assert(acc@ + Seq::<u8>::empty() =~= acc@);
    }
    Ok(acc)
}

/// Read `n` consecutive metadata blocks starting at `pos0` of `s` and
/// concatenate the decompressed payloads.
pub fn read_blocks_count(s: &[u8], pos0: u64, n: u64, c: Compressor) -> (r: Result<
    Vec<u8>,
    SquashfsError,
>)
    ensures
        r matches Ok(v) ==> spec_blocks_count(s@, pos0 as int, n as int, c) == Some(v@),
        r matches Err(e) ==> spec_blocks_count(s@, pos0 as int, n as int, c) is None && e
            == spec_blocks_count_err(s@, pos0 as int, n as int, c),
{
    let slen: usize = s.len();
    let mut acc: Vec<u8> = Vec::new();
    let mut cur: u64 = pos0;
    let mut k: u64 = 0;
    proof {
        let x = spec_blocks_count(s@, pos0 as int, n as int, c);
        match x {
            Option::Some(rest) => {
                assert(Seq::<u8>::empty() + rest =~= rest);
            },
            Option::None => {},
        }
        assert(acc@ =~= Seq::<u8>::empty());
    }
    while k < n
        invariant
            k <= n,
            slen == s@.len(),
            spec_blocks_count(s@, pos0 as int, n as int, c) == bytes_completion(
                acc@,
                spec_blocks_count(s@, cur as int, (n - k) as int, c),
            ),
            spec_blocks_count_err(s@, pos0 as int, n as int, c) == spec_blocks_count_err(
                s@,
                cur as int,
                (n - k) as int,
                c,
            ),
        decreases n - k,
    {
        let ghost acc_v = acc@;
        if cur >= slen as u64 {
            proof {
                assert(spec_read_block(s@, cur as int, c) is None);
            }
            return Err(SquashfsError::Truncated);
        }
        match read_block(s, cur as usize, c) {
            Ok(p) => {
                let (payload, next) = p;
                proof {
                    assert(spec_blocks_count(s@, cur as int, (n - k) as int, c)
                        == bytes_completion(
                        payload@,
                        spec_blocks_count(s@, next as int, (n - k - 1) as int, c),
                    ));
                    let y = spec_blocks_count(s@, next as int, (n - k - 1) as int, c);
                    match y {
                        Option::Some(rest) => {
                            assert(acc_v + (payload@ + rest) =~= (acc_v + payload@) + rest);
                        },
                        Option::None => {},
                    }
                }
                append_bytes(&mut acc, &payload);
                cur = next as u64;
                k = k + 1;
            },
            Err(e) => {
                return Err(e);
            },
        }
    }
    proof {
        assert(spec_blocks_count(s@, cur as int, 0, c) == Some(Seq::<u8>::empty()));
        assert(acc@ + Seq::<u8>::empty() =~= acc@);
    }
    Ok(acc)
}

} // verus!
