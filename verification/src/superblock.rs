//! The fixed 96-byte superblock at the start of every image.

use crate::compressor::compressor_of_tag;
use crate::compressor::parse_compressor;
use crate::compressor::spec_options_size;
use crate::compressor::Compressor;
use crate::error::SquashfsError;
use crate::le::le16;
use crate::le::le32;
use crate::le::le64;
use crate::le::read_u16;
use crate::le::read_u32;
use crate::le::read_u64;
use vstd::prelude::*;

verus! {

/// The on-disk magic, `"hsqs"` read as a little-endian 32-bit integer.
pub const MAGIC: u32 = 0x73717368;

/// The value of an unused table pointer.
pub const NOT_SET: u64 = 0xffff_ffff_ffff_ffff;

/// Block size of a freshly built superblock.
pub const DEFAULT_BLOCK_SIZE: u32 = 0x20000;

/// `log2` of `DEFAULT_BLOCK_SIZE`.
pub const DEFAULT_BLOCK_LOG: u16 = 0x11;

/// The only supported major version.
pub const VERSION_MAJ: u16 = 4;

/// The only supported minor version.
pub const VERSION_MIN: u16 = 0;

/// An uncompressed metadata payload is at most this long.
pub const METADATA_MAX: usize = 8192;

/// Contains important information about the archive, including the locations
/// of other sections.
#[derive(Clone, Copy, Debug, PartialEq, Eq, Structural)]
pub struct SuperBlock {
    /// Must be `MAGIC` (`"hsqs"` on disk).
    pub magic: u32,
    /// The number of inodes stored in the archive.
    pub inode_count: u32,
    /// Last modification time of the archive, in seconds since the epoch.
    pub mod_time: u32,
    /// The size of a data block in bytes: a power of two in `[4096, 1048576]`.
    pub block_size: u32,
    /// The number of entries in the fragment table.
    pub frag_count: u32,
    /// Compressor used for data.
    pub compressor: Compressor,
    /// The log2 of the block size; disagreement with `block_size` means the
    /// archive is corrupt.
    pub block_log: u16,
    /// Bit-wise OR of the flag bits.
    pub flags: u16,
    /// The number of entries in the id lookup table.
    pub id_count: u16,
    /// Major version of the format; must be 4.
    pub version_major: u16,
    /// Minor version of the format; must be 0.
    pub version_minor: u16,
    /// A reference to the inode of the root directory, packed as
    /// `(metadata_block_start << 16) | offset_in_block`.
    pub root_inode: u64,
    /// The number of bytes used by the archive.
    pub bytes_used: u64,
    pub id_table: u64,
    pub xattr_table: u64,
    pub inode_table: u64,
    pub dir_table: u64,
    pub frag_table: u64,
    pub export_table: u64,
}

/// The superblock record denoted by the first 96 bytes of `s`, when the
/// compressor tag is defined.
pub open spec fn spec_superblock_fields(s: Seq<u8>, c: Compressor) -> SuperBlock {
    SuperBlock {
        magic: le32(s, 0),
        inode_count: le32(s, 4),
        mod_time: le32(s, 8),
        block_size: le32(s, 12),
        frag_count: le32(s, 16),
        compressor: c,
        block_log: le16(s, 22),
        flags: le16(s, 24),
        id_count: le16(s, 26),
        version_major: le16(s, 28),
        version_minor: le16(s, 30),
        root_inode: le64(s, 32),
        bytes_used: le64(s, 40),
        id_table: le64(s, 48),
        xattr_table: le64(s, 56),
        inode_table: le64(s, 64),
        dir_table: le64(s, 72),
        frag_table: le64(s, 80),
        export_table: le64(s, 88),
    }
}

impl SuperBlock {
    /// The invariant the parser enforces before handing a superblock out.
    pub open spec fn spec_valid(self) -> bool {
        &&& self.magic == MAGIC
    &&& self.version_major == VERSION_MAJ
        &&& self.version_minor == VERSION_MIN
        &&& 12 <= self.block_log <= 20
        &&& self.block_size == (1u32 << (self.block_log as u32))
    }
}

/// A validated superblock's block size is a power of two in the documented
/// range.
pub proof fn lemma_valid_block_size(sb: SuperBlock)
    requires
        sb.spec_valid(),
    ensures
        4096 <= sb.block_size <= 1048576,
{
    let l = sb.block_log;
    assert(12 <= l && l <= 20 ==> 4096 <= (1u32 << (l as u32)) && (1u32 << (l as u32))
        <= 1048576) by (bit_vector);
}

/// For every superblock the parser accepts, the block size is exactly two
/// to the power of `block_log`.
pub proof fn lemma_block_size_matches_log(sb: SuperBlock)
    requires
        sb.spec_valid(),
    ensures
        sb.block_size as nat == vstd::arithmetic::power2::pow2(sb.block_log as nat),
{
    let l: u32 = sb.block_log as u32;
    if (l as nat) < 20 {
        vstd::arithmetic::power2::lemma_pow2_strictly_increases(l as nat, 20);
    }
    vstd::arithmetic::power2::lemma2_to64();
    vstd::bits::lemma_u32_shl_is_mul(1u32, l);
}

/// What parsing the leading 96 bytes of `s` yields: the checks run in the
/// order truncation, magic, version, compressor tag, block-size consistency.
pub open spec fn spec_parse_superblock(s: Seq<u8>) -> Result<SuperBlock, SquashfsError> {
    if s.len() < 96 {
        Err(SquashfsError::Truncated)
    } else if le32(s, 0) != MAGIC {
        Err(SquashfsError::BadMagic)
    } else if le16(s, 28) != VERSION_MAJ || le16(s, 30) != VERSION_MIN {
        Err(SquashfsError::WrongVersion)
    } else {
        match compressor_of_tag(le16(s, 20)) {
            Option::None => Err(SquashfsError::DecompressError),
            Option::Some(c) => {
                let log = le16(s, 22);
                if 12 <= log && log <= 20 && le32(s, 12) == (1u32 << (log as u32)) {
                    Ok(spec_superblock_fields(s, c))
                } else {
                    Err(SquashfsError::InconsistentBlockSize)
                }
            },
        }
    }
}

impl SuperBlock {
    /// Decode and validate a superblock from the start of `s`.
    ///
    /// Rejects, in this order: an image shorter than 96 bytes (`Truncated`),
    /// a wrong magic (`BadMagic`), a version other than 4.0 (`WrongVersion`),
    /// an undefined compressor tag (`DecompressError`), and a `block_size`
    /// that is not the power of two named by `block_log` within
    /// `[4096, 1048576]` (`InconsistentBlockSize`).
    pub fn parse(s: &[u8]) -> (r: Result<SuperBlock, SquashfsError>)
        ensures
            r == spec_parse_superblock(s@),
            r matches Ok(sb) ==> sb.spec_valid(),
    {
        if s.len() < 96 {
            return Err(SquashfsError::Truncated);
        }
        let magic = read_u32(s, 0);
        if magic != MAGIC {
            return Err(SquashfsError::BadMagic);
        }
        let version_major = read_u16(s, 28);
        let version_minor = read_u16(s, 30);
        if version_major != VERSION_MAJ || version_minor != VERSION_MIN {
            return Err(SquashfsError::WrongVersion);
        }
        let compressor = match parse_compressor(read_u16(s, 20)) {
            Option::Some(c) => c,
            Option::None => {
                return Err(SquashfsError::DecompressError);
            },
        };
        let block_log = read_u16(s, 22);
        let block_size = read_u32(s, 12);
        if !(12 <= block_log && block_log <= 20 && block_size == (1u32 << (block_log as u32))) {
            return Err(SquashfsError::InconsistentBlockSize);
        }
        Ok(
            SuperBlock {
                magic,
                inode_count: read_u32(s, 4),
                mod_time: read_u32(s, 8),
                block_size,
                frag_count: read_u32(s, 16),
                compressor,
                block_log,
                flags: read_u16(s, 24),
                id_count: read_u16(s, 26),
                version_major,
                version_minor,
                root_inode: read_u64(s, 32),
                bytes_used: read_u64(s, 40),
                id_table: read_u64(s, 48),
                xattr_table: read_u64(s, 56),
                inode_table: read_u64(s, 64),
                dir_table: read_u64(s, 72),
                frag_table: read_u64(s, 80),
                export_table: read_u64(s, 88),
            },
        )
    }

    /// A fresh superblock with the default geometry, as a builder would
    /// start one.
    pub fn new(compressor: Compressor) -> (r: SuperBlock)
        ensures
            r == (SuperBlock {
                magic: MAGIC,
                inode_count: 0,
                mod_time: 0,
                block_size: DEFAULT_BLOCK_SIZE,
                frag_count: 0,
                compressor,
                block_log: DEFAULT_BLOCK_LOG,
                flags: 0,
                id_count: 0,
                version_major: VERSION_MAJ,
                version_minor: VERSION_MIN,
                root_inode: 0,
                bytes_used: 0,
                id_table: 0,
                xattr_table: NOT_SET,
                inode_table: 0,
                dir_table: 0,
                frag_table: NOT_SET,
                export_table: NOT_SET,
            }),
    {
        SuperBlock {
            magic: MAGIC,
            inode_count: 0,
            mod_time: 0,
            block_size: DEFAULT_BLOCK_SIZE,
            frag_count: 0,
            compressor,
            block_log: DEFAULT_BLOCK_LOG,
            flags: 0,
            id_count: 0,
            version_major: VERSION_MAJ,
            version_minor: VERSION_MIN,
            root_inode: 0,
            bytes_used: 0,
            id_table: 0,
            xattr_table: NOT_SET,
            inode_table: 0,
            dir_table: 0,
            frag_table: NOT_SET,
            export_table: NOT_SET,
        }
    }

    /// Size of the optional compression-options payload, when flag bit 10
    /// announces one.
    pub fn compression_options_size(&self) -> (r: Option<usize>)
        ensures
            r == (if self.flags & 0x0400u16 != 0 {
                Some(spec_options_size(self.compressor) as usize)
            } else {
                Option::<usize>::None
            }),
    {
        if self.compressor_options_are_present() {
            let size: usize = match self.compressor {
                Compressor::Lzma => 0,
                Compressor::Gzip => 8,
                Compressor::Lzo => 8,
                Compressor::Xz => 8,
                Compressor::Lz4 => 8,
                Compressor::Zstd => 4,
                Compressor::NoCompression => 0,
            };
            Some(size)
        } else {
            Option::None
        }
    }

    pub fn inodes_uncompressed(&self) -> (r: bool)
        ensures
            r == (self.flags & 0x0001u16 != 0),
    {
        self.flags & 0x0001u16 != 0
    }

    pub fn data_block_stored_uncompressed(&self) -> (r: bool)
        ensures
            r == (self.flags & 0x0002u16 != 0),
    {
        self.flags & 0x0002u16 != 0
    }

    pub fn fragments_stored_uncompressed(&self) -> (r: bool)
        ensures
            r == (self.flags & 0x0008u16 != 0),
    {
        self.flags & 0x0008u16 != 0
    }

    pub fn fragments_are_not_used(&self) -> (r: bool)
        ensures
            r == (self.flags & 0x0010u16 != 0),
    {
        self.flags & 0x0010u16 != 0
    }

    pub fn fragments_are_always_generated(&self) -> (r: bool)
        ensures
            r == (self.flags & 0x0020u16 != 0),
    {
        self.flags & 0x0020u16 != 0
    }

    pub fn data_has_been_duplicated(&self) -> (r: bool)
        ensures
            r == (self.flags & 0x0040u16 != 0),
    {
        self.flags & 0x0040u16 != 0
    }

    pub fn nfs_export_table_exists(&self) -> (r: bool)
        ensures
            r == (self.flags & 0x0080u16 != 0),
    {
        self.flags & 0x0080u16 != 0
    }

    pub fn xattrs_are_stored_uncompressed(&self) -> (r: bool)
        ensures
            r == (self.flags & 0x0100u16 != 0),
    {
        self.flags & 0x0100u16 != 0
    }

    pub fn no_xattrs_in_archive(&self) -> (r: bool)
        ensures
            r == (self.flags & 0x0200u16 != 0),
    {
        self.flags & 0x0200u16 != 0
    }

    pub fn compressor_options_are_present(&self) -> (r: bool)
        ensures
            r == (self.flags & 0x0400u16 != 0),
    {
        self.flags & 0x0400u16 != 0
    }
}

/// The flag bits of the superblock `flags` field, in bit order starting at
/// bit 0.
#[derive(Clone, Copy, Debug, PartialEq, Eq, Structural)]
pub enum Flags {
    InodesStoredUncompressed,
    DataBlockStoredUncompressed,
    Unused,
    FragmentsStoredUncompressed,
    FragmentsAreNotUsed,
    FragmentsAreAlwaysGenerated,
    DataHasBeenDeduplicated,
    NFSExportTableExists,
    XattrsAreStoredUncompressed,
    NoXattrsInArchive,
    CompressorOptionsArePresent,
}

impl Flags {
    /// The single-bit mask this flag occupies in the superblock.
    pub open spec fn spec_mask(self) -> u16 {
        match self {
            Flags::InodesStoredUncompressed => 0x0001,
            Flags::DataBlockStoredUncompressed => 0x0002,
            Flags::Unused => 0x0004,
            Flags::FragmentsStoredUncompressed => 0x0008,
            Flags::FragmentsAreNotUsed => 0x0010,
            Flags::FragmentsAreAlwaysGenerated => 0x0020,
            Flags::DataHasBeenDeduplicated => 0x0040,
            Flags::NFSExportTableExists => 0x0080,
            Flags::XattrsAreStoredUncompressed => 0x0100,
            Flags::NoXattrsInArchive => 0x0200,
            Flags::CompressorOptionsArePresent => 0x0400,
        }
    }

    /// The single-bit mask this flag occupies in the superblock.
    pub fn mask(self) -> (r: u16)
        ensures
            r == self.spec_mask(),
    {
        match self {
            Flags::InodesStoredUncompressed => 0x0001,
            Flags::DataBlockStoredUncompressed => 0x0002,
            Flags::Unused => 0x0004,
            Flags::FragmentsStoredUncompressed => 0x0008,
            Flags::FragmentsAreNotUsed => 0x0010,
            Flags::FragmentsAreAlwaysGenerated => 0x0020,
            Flags::DataHasBeenDeduplicated => 0x0040,
            Flags::NFSExportTableExists => 0x0080,
            Flags::XattrsAreStoredUncompressed => 0x0100,
            Flags::NoXattrsInArchive => 0x0200,
            Flags::CompressorOptionsArePresent => 0x0400,
        }
    }
}

} // verus!
