//! One content-addressed block of a file.

use crate::hashes::{content_digest, content_digest_of};
use vstd::prelude::*;

verus! {

/// A content-addressed, offset-bounded slice of one file: its starting
/// offset within the file, its length in bytes, and the content digest of
/// exactly those bytes.
#[derive(Debug, PartialEq, Eq, Structural, Clone, Copy)]
pub struct BlockInfo {
    pub offset: u64,
    pub block_size: u32,
    pub hash: u128,
}

impl BlockInfo {
    /// Assembles a block record from its parts.
    pub fn new(offset: u64, block_size: u32, hash: u128) -> (r: BlockInfo)
        ensures
            r == (BlockInfo { offset, block_size, hash }),
    {
        BlockInfo { offset, block_size, hash }
    }

    /// Fingerprints one block read from a file: `buffer` holds the block's
    /// bytes and `offset` its logical starting position within the file.
    /// Safe to call concurrently on independent buffers.
    pub fn with_buffer(offset: u64, buffer: &[u8]) -> (r: BlockInfo)
        requires
            buffer@.len() <= u32::MAX,
        ensures
            r == (BlockInfo {
                offset,
                block_size: buffer@.len() as u32,
                hash: content_digest_of(buffer@),
            }),
    {
        BlockInfo { offset, block_size: buffer.len() as u32, hash: content_digest(buffer) }
    }

    /// The block's starting offset within its file.
    pub fn offset(&self) -> (r: u64)
        ensures
            r == self.offset,
    {
        self.offset
    }

    /// The block's length in bytes.
    pub fn block_size(&self) -> (r: u32)
        ensures
            r == self.block_size,
    {
        self.block_size
    }

    /// The content digest of the block's bytes.
    pub fn hash(&self) -> (r: u128)
        ensures
            r == self.hash,
    {
        self.hash
    }
}

} // verus!
