//! Read-side core of a parser for SquashFS v4.0 compressed read-only
//! filesystem images, operating on an in-memory byte image.

pub mod compressor;
pub mod dir;
pub mod error;
pub mod filesystem;
pub mod fragment;
pub mod inode;
pub mod le;
pub mod metadata;
pub mod reader;
pub mod squashfs;
pub mod superblock;

use vstd::prelude::*;

verus! {

} // verus!
