//! The image-wide compressor: its superblock tag, its optional parameter
//! block, and the one decompression primitive the core delegates to.

use crate::error::SquashfsError;
use crate::le::le16;
use crate::le::le32;
use crate::le::read_u16;
use crate::le::read_u32;
use vstd::prelude::*;

verus! {

/// The compressor tag stored in the superblock.
///
/// `NoCompression` is tag 0 (an image whose payloads are all stored raw).
#[derive(Clone, Copy, Debug, PartialEq, Eq, Structural)]
pub enum Compressor {
    NoCompression,
    Gzip,
    Lzma,
    Lzo,
    Xz,
    Lz4,
    Zstd,
}

/// The compressor denoted by superblock tag `t`, if `t` is defined.
pub open spec fn compressor_of_tag(t: u16) -> Option<Compressor> {
    if t == 0 {
        Some(Compressor::NoCompression)
    } else if t == 1 {
        Some(Compressor::Gzip)
    } else if t == 2 {
        Some(Compressor::Lzma)
    } else if t == 3 {
        Some(Compressor::Lzo)
    } else if t == 4 {
        Some(Compressor::Xz)
    } else if t == 5 {
        Some(Compressor::Lz4)
    } else if t == 6 {
        Some(Compressor::Zstd)
    } else {
        None
    }
}

/// Decode a superblock compressor tag.
pub fn parse_compressor(t: u16) -> (r: Option<Compressor>)
    ensures
        r == compressor_of_tag(t),
{
    match t {
        0 => Some(Compressor::NoCompression),
        1 => Some(Compressor::Gzip),
        2 => Some(Compressor::Lzma),
        3 => Some(Compressor::Lzo),
        4 => Some(Compressor::Xz),
        5 => Some(Compressor::Lz4),
        6 => Some(Compressor::Zstd),
        _ => None,
    }
}

/// Compressor-specific parameters stored in the metadata block that follows
/// the superblock when flag bit 10 is set.
#[derive(Clone, Copy, Debug, PartialEq, Eq, Structural)]
pub enum CompressionOptions {
    Gzip { compression_level: u32, window_size: u16, strategies: u16 },
    Lzo { algorithm: u32, compression_level: u32 },
    Xz { dictionary_size: u32, filters: u32 },
    Lz4 { version: u32, flags: u32 },
    Zstd { compression_level: u32 },
    Lzma,
}

/// The nominal byte length of the options payload for compressor `c`.
pub open spec fn spec_options_size(c: Compressor) -> int {
    match c {
        Compressor::NoCompression => 0,
        Compressor::Gzip => 8,
        Compressor::Lzma => 0,
        Compressor::Lzo => 8,
        Compressor::Xz => 8,
        Compressor::Lz4 => 8,
        Compressor::Zstd => 4,
    }
}

/// The options record denoted by the leading bytes of payload `s`, for
/// compressor `c`, if `s` is long enough to hold the documented layout.
pub open spec fn spec_options(c: Compressor, s: Seq<u8>) -> Option<CompressionOptions> {
    if s.len() < spec_options_size(c) {
        None
    } else {
        match c {
            Compressor::NoCompression => None,
            Compressor::Lzma => Some(CompressionOptions::Lzma),
            Compressor::Gzip => Some(
                CompressionOptions::Gzip {
                    compression_level: le32(s, 0),
                    window_size: le16(s, 4),
                    strategies: le16(s, 6),
                },
            ),
            Compressor::Lzo => Some(
                CompressionOptions::Lzo { algorithm: le32(s, 0), compression_level: le32(s, 4) },
            ),
            Compressor::Xz => Some(
                CompressionOptions::Xz { dictionary_size: le32(s, 0), filters: le32(s, 4) },
            ),
            Compressor::Lz4 => Some(
                CompressionOptions::Lz4 { version: le32(s, 0), flags: le32(s, 4) },
            ),
            Compressor::Zstd => Some(CompressionOptions::Zstd { compression_level: le32(s, 0) }),
        }
    }
}

/// Decode the compressor-options payload `s` for compressor `c`.
///
/// Producers sometimes append trailing bytes beyond the documented layout;
/// only the documented prefix is consumed. A payload shorter than the
/// documented layout is `Truncated`; an options payload for
/// `NoCompression` is undefined and rejected as `DecompressError`.
pub fn parse_compression_options(c: Compressor, s: &[u8]) -> (r: Result<
    CompressionOptions,
    SquashfsError,
>)
    ensures
        match r {
            Ok(o) => spec_options(c, s@) == Some(o),
            Err(e) => spec_options(c, s@) is None && (e == SquashfsError::Truncated || (e
                == SquashfsError::DecompressError && c == Compressor::NoCompression)),
        },
{
    match c {
        Compressor::NoCompression => Err(SquashfsError::DecompressError),
        Compressor::Lzma => Ok(CompressionOptions::Lzma),
        Compressor::Gzip => {
            if s.len() < 8 {
                Err(SquashfsError::Truncated)
            } else {
                Ok(
                    CompressionOptions::Gzip {
                        compression_level: read_u32(s, 0),
                        window_size: read_u16(s, 4),
                        strategies: read_u16(s, 6),
                    },
                )
            }
        },
        Compressor::Lzo => {
            if s.len() < 8 {
                Err(SquashfsError::Truncated)
            } else {
                Ok(
                    CompressionOptions::Lzo {
                        algorithm: read_u32(s, 0),
                        compression_level: read_u32(s, 4),
                    },
                )
            }
        },
        Compressor::Xz => {
            if s.len() < 8 {
                Err(SquashfsError::Truncated)
            } else {
                Ok(
                    CompressionOptions::Xz {
                        dictionary_size: read_u32(s, 0),
                        filters: read_u32(s, 4),
                    },
                )
            }
        },
        Compressor::Lz4 => {
            if s.len() < 8 {
                Err(SquashfsError::Truncated)
            } else {
                Ok(CompressionOptions::Lz4 { version: read_u32(s, 0), flags: read_u32(s, 4) })
            }
        },
        Compressor::Zstd => {
            if s.len() < 4 {
                Err(SquashfsError::Truncated)
            } else {
                Ok(CompressionOptions::Zstd { compression_level: read_u32(s, 0) })
            }
        },
    }
}

/// What flate2's zlib decoder yields on an input, when it accepts it: the
/// decoded stream is a function of the input bytes alone.
pub uninterp spec fn zlib_inflate(s: Seq<u8>) -> Option<Seq<u8>>;

/// Relies on flate2's `Decompress::decompress_vec` (zlib framing, flush mode
/// `Finish`): when it reports `StreamEnd`, the vector holds the full decoded
/// stream, which is a deterministic function of the input bytes; the body
/// checks the length bound itself, since the vector may have spare capacity
/// beyond `limit`. At least `limit` bytes of capacity are reserved, so the
/// call fails only on an input whose decoded stream does not exist or does
/// not fit in `limit` bytes.
#[verifier::external_body]
pub(crate) fn zlib_decompress(input: &[u8], limit: usize) -> (r: Result<Vec<u8>, SquashfsError>)
    ensures
        match r {
            Ok(v) => zlib_inflate(input@) == Some(v@) && v@.len() <= limit,
            Err(e) => e == SquashfsError::DecompressError && (match zlib_inflate(input@) {
                Option::Some(o) => o.len() > limit,
                Option::None => true,
            }),
        },
{
    let mut out: Vec<u8> = Vec::with_capacity(limit);
    let mut dec = flate2::Decompress::new(true);
    match dec.decompress_vec(input, &mut out, flate2::FlushDecompress::Finish) {
        Ok(flate2::Status::StreamEnd) if out.len() <= limit => Ok(out),
        _ => Err(SquashfsError::DecompressError),
    }
}

/// What a compressed payload decodes to under compressor `c`: the zlib
/// stream for `Gzip`, nothing for the codecs this core does not link.
pub open spec fn spec_decompress(c: Compressor, s: Seq<u8>) -> Option<Seq<u8>> {
    match c {
        Compressor::Gzip => zlib_inflate(s),
        _ => None,
    }
}

/// Decompress a payload stored under compressor `c` into at most `limit`
/// bytes. Only `Gzip` is linked as a codec here; a compressed payload under
/// any other tag is a `DecompressError`.
pub fn decompress(c: Compressor, input: &[u8], limit: usize) -> (r: Result<Vec<u8>, SquashfsError>)
    ensures
        match r {
            Ok(v) => spec_decompress(c, input@) == Some(v@) && v@.len() <= limit,
            Err(e) => e == SquashfsError::DecompressError && (match spec_decompress(c, input@) {
                Option::Some(o) => o.len() > limit,
                Option::None => true,
            }),
        },
{
    match c {
        Compressor::Gzip => zlib_decompress(input, limit),
        _ => Err(SquashfsError::DecompressError),
    }
}

} // verus!
