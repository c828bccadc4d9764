//! Error taxonomy for the SquashFS read core.

use vstd::prelude::*;

verus! {

/// Everything that can go wrong while parsing an image or reading a file
/// out of it.
///
/// `Io` is never produced by the verified core itself (which works on an
/// in-memory image); it is reserved for callers that feed the core from a
/// real stream.
#[derive(Clone, Copy, Debug, PartialEq, Eq, Structural)]
pub enum SquashfsError {
    /// Underlying stream failure (reserved for callers doing real I/O).
    Io,
    /// The superblock magic is not `"hsqs"`.
    BadMagic,
    /// The superblock version is not 4.0.
    WrongVersion,
    /// `block_size` is not a power of two in `[4096, 1048576]`, or does not
    /// agree with `block_log`.
    InconsistentBlockSize,
    /// A metadata-block header declared a zero-length payload.
    InvalidMetadataHeader,
    /// The image ended before a structure could be read in full.
    Truncated,
    /// The external decompressor rejected a compressed payload, or the
    /// payload decoded to more bytes than the format allows, or the image
    /// uses a compressor this core has no codec for.
    DecompressError,
    /// The inode table did not decode to exactly `inode_count` well-formed
    /// inodes with the inode numbers `1..=inode_count`.
    CorruptInodeTable,
    /// The directory table did not decode to well-formed headers and entries.
    CorruptDirTable,
    /// An inode record carried a type tag outside the defined range.
    UnknownInodeType,
    /// A directory entry referenced an inode number that is absent from the
    /// inode table, or whose type disagrees with the entry's type.
    DanglingInodeReference,
    /// The directory walk revisited an inode: the image is not a tree.
    CyclicDirectory,
    /// A requested path or record is absent.
    FileNotFound,
    /// File content reconstruction disagreed with the inode's `file_size`.
    FileSizeMismatch,
    /// A caller-imposed resource bound was exceeded.
    ResourceLimit,
}

} // verus!
