//! Block-streaming message: one content-addressed block, addressed by the
//! fingerprint of the file it belongs to.
//!
//! Wire layout: `pathId(32)` · `offset(8 LE)` · `blockSize(4 LE)` ·
//! `hash(16 LE)`.

use crate::hashes::{content_digest, content_digest_of};
use crate::index::file_info::FileInfo;
use crate::messages::wire::{
    append_u128, append_u32, append_u64, decoded_matches_view, lemma_parse_u128_encoding,
    lemma_parse_u32_encoding, lemma_parse_u64_encoding, lemma_subrange_within, parse_bytes,
    parse_u128, parse_u32, parse_u64, spec_parse_bytes, spec_parse_u128, spec_parse_u32,
    spec_parse_u64, Decoded, SpecDecoded,
};
use vstd::bytes::{
    spec_u128_to_le_bytes, spec_u32_to_le_bytes, spec_u64_to_le_bytes,
};
use vstd::prelude::*;

verus! {

/// Content-derived identifier of a file's path: its 32-byte path
/// fingerprint.
pub type PathId = Vec<u8>;

/// Width of a path identifier in bytes.
pub const PATH_ID_SIZE: usize = 32;

/// One block of file content on the wire, addressed by the owning file's
/// path identifier rather than its full path.
#[derive(Debug, PartialEq, Eq)]
pub struct BlockInfo {
    pub path_id: PathId,
    pub offset: u64,
    pub block_size: u32,
    pub hash: u128,
}

/// Mathematical value of a block-streaming message.
pub struct BlockInfoSpec {
    pub path_id: Seq<u8>,
    pub offset: u64,
    pub block_size: u32,
    pub hash: u128,
}

impl View for BlockInfo {
    type V = BlockInfoSpec;

    open spec fn view(&self) -> BlockInfoSpec {
        BlockInfoSpec {
            path_id: self.path_id@,
            offset: self.offset,
            block_size: self.block_size,
            hash: self.hash,
        }
    }
}

impl BlockInfoSpec {
    /// The path identifier has its fixed width.
    pub open spec fn wf(self) -> bool {
        self.path_id.len() == PATH_ID_SIZE
    }
}

impl BlockInfo {
    /// Assembles a block message from its parts.
    pub fn new(path_id: PathId, offset: u64, block_size: u32, hash: u128) -> (r: BlockInfo)
        ensures
            r@ == (BlockInfoSpec { path_id: path_id@, offset, block_size, hash }),
    {
        BlockInfo { path_id, offset, block_size, hash }
    }

    /// Fingerprints one block read from the file `path_id` stands for:
    /// `buffer` holds the block's bytes and `offset` its logical starting
    /// position within the file.
    pub fn from_buffer(buffer: &[u8], path_id: PathId, offset: u64) -> (r: BlockInfo)
        requires
            buffer@.len() <= u32::MAX,
        ensures
            r@ == (BlockInfoSpec {
                path_id: path_id@,
                offset,
                block_size: buffer@.len() as u32,
                hash: content_digest_of(buffer@),
            }),
    {
        let hash = content_digest(buffer);
        BlockInfo { path_id, offset, block_size: buffer.len() as u32, hash }
    }

    /// The owning file's path identifier.
    pub fn path_id(&self) -> (r: &PathId)
        ensures
            r@ == self@.path_id,
    {
        &self.path_id
    }

    /// The block's starting offset within its file.
    pub fn offset(&self) -> (r: u64)
        ensures
            r == self@.offset,
    {
        self.offset
    }

    /// The block's length in bytes.
    pub fn block_size(&self) -> (r: u32)
        ensures
            r == self@.block_size,
    {
        self.block_size
    }

    /// The content digest of the block's bytes.
    pub fn hash(&self) -> (r: u128)
        ensures
            r == self@.hash,
    {
        self.hash
    }

    /// See [`BlockInfoSpec::wf`].
    pub open spec fn wf(self) -> bool {
        self@.wf()
    }
}

/// The block-streaming messages for one indexed file, in the order its
/// blocks stand in the entry: for a well-formed entry that is strictly
/// increasing offset order, as block-level streaming requires.
pub fn block_messages(path_id: &PathId, entry: &FileInfo) -> (r: Vec<BlockInfo>)
    ensures
        r@.len() == entry@.blocks.len(),
        forall|i: int|
            0 <= i < r@.len() ==> (#[trigger] r@[i])@ == (BlockInfoSpec {
                path_id: path_id@,
                offset: entry@.blocks[i].offset,
                block_size: entry@.blocks[i].block_size,
                hash: entry@.blocks[i].hash,
            }),
{
    let mut r: Vec<BlockInfo> = Vec::new();
    let mut k: usize = 0;
    while k < entry.blocks.len()
        invariant
            k <= entry@.blocks.len(),
            entry@.blocks.len() == entry.blocks@.len(),
            r@.len() == k,
            forall|i: int|
                0 <= i < k ==> (#[trigger] r@[i])@ == (BlockInfoSpec {
                    path_id: path_id@,
                    offset: entry@.blocks[i].offset,
                    block_size: entry@.blocks[i].block_size,
                    hash: entry@.blocks[i].hash,
                }),
        decreases entry.blocks@.len() - k,
    {
        let block = &entry.blocks[k];
        let mut id: Vec<u8> = Vec::new();
        id.extend_from_slice(path_id.as_slice());
        proof {
            assert(id@ =~= path_id@);
        }
        r.push(BlockInfo {
            path_id: id,
            offset: block.offset,
            block_size: block.block_size,
            hash: block.hash,
        });
        k = k + 1;
    }
    r
}

/// Wire form of a block-streaming message.
pub open spec fn spec_encode_block_info(m: BlockInfoSpec) -> Seq<u8> {
    m.path_id + spec_u64_to_le_bytes(m.offset) + spec_u32_to_le_bytes(m.block_size)
        + spec_u128_to_le_bytes(m.hash)
}

/// A block-streaming message at position `i`.
pub open spec fn spec_parse_block_info(b: Seq<u8>, i: int) -> SpecDecoded<BlockInfoSpec> {
    match spec_parse_bytes(b, i, PATH_ID_SIZE as int) {
        SpecDecoded::Parsed { value: path_id, next: j } => match spec_parse_u64(b, j) {
            SpecDecoded::Parsed { value: offset, next: k } => match spec_parse_u32(b, k) {
                SpecDecoded::Parsed { value: block_size, next: l } => match spec_parse_u128(
                    b,
                    l,
                ) {
                    SpecDecoded::Parsed { value: hash, next: end } => SpecDecoded::Parsed {
                        value: BlockInfoSpec { path_id, offset, block_size, hash },
                        next: end,
                    },
                    SpecDecoded::Incomplete => SpecDecoded::Incomplete,
                    SpecDecoded::Fatal(e) => SpecDecoded::Fatal(e),
                },
                SpecDecoded::Incomplete => SpecDecoded::Incomplete,
                SpecDecoded::Fatal(e) => SpecDecoded::Fatal(e),
            },
            SpecDecoded::Incomplete => SpecDecoded::Incomplete,
            SpecDecoded::Fatal(e) => SpecDecoded::Fatal(e),
        },
        SpecDecoded::Incomplete => SpecDecoded::Incomplete,
        SpecDecoded::Fatal(e) => SpecDecoded::Fatal(e),
    }
}

/// Appends the wire form of `m` to `out`.
pub fn encode_block_info(m: &BlockInfo, out: &mut Vec<u8>)
    requires
        m.wf(),
    ensures
        final(out)@ == old(out)@ + spec_encode_block_info(m@),
{
    out.extend_from_slice(m.path_id.as_slice());
    append_u64(out, m.offset);
    append_u32(out, m.block_size);
    append_u128(out, m.hash);
    proof {
        assert(out@ =~= old(out)@ + spec_encode_block_info(m@));
    }
}

/// Reads one block-streaming message.
pub fn decode_block_info(buf: &[u8], start: usize) -> (r: Decoded<BlockInfo>)
    requires
        start <= buf@.len(),
    ensures
        decoded_matches_view(r, spec_parse_block_info(buf@, start as int)),
{
    let (path_id, after_id) = match parse_bytes(buf, start, PATH_ID_SIZE) {
        Decoded::Parsed { value, next } => (value, next),
        Decoded::Incomplete => {
            return Decoded::Incomplete;
        },
        Decoded::Fatal(e) => {
            return Decoded::Fatal(e);
        },
    };
    let (offset, after_offset) = match parse_u64(buf, after_id) {
        Decoded::Parsed { value, next } => (value, next),
        Decoded::Incomplete => {
            return Decoded::Incomplete;
        },
        Decoded::Fatal(e) => {
            return Decoded::Fatal(e);
        },
    };
    let (block_size, after_size) = match parse_u32(buf, after_offset) {
        Decoded::Parsed { value, next } => (value, next),
        Decoded::Incomplete => {
            return Decoded::Incomplete;
        },
        Decoded::Fatal(e) => {
            return Decoded::Fatal(e);
        },
    };
    let (hash, end) = match parse_u128(buf, after_size) {
        Decoded::Parsed { value, next } => (value, next),
        Decoded::Incomplete => {
            return Decoded::Incomplete;
        },
        Decoded::Fatal(e) => {
            return Decoded::Fatal(e);
        },
    };
    Decoded::Parsed { value: BlockInfo { path_id, offset, block_size, hash }, next: end }
}

/// Round-trip law for block-streaming messages: decoding any buffer that
/// carries the encoding of a well-formed message at position `i` yields
/// exactly that message and consumes exactly its encoding.
pub proof fn lemma_block_info_round_trip(m: BlockInfoSpec, b: Seq<u8>, i: int)
    requires
        m.wf(),
        0 <= i,
        i + spec_encode_block_info(m).len() <= b.len(),
        b.subrange(i, i + spec_encode_block_info(m).len() as int) == spec_encode_block_info(m),
    ensures
        spec_parse_block_info(b, i) == (SpecDecoded::Parsed {
            value: m,
            next: i + spec_encode_block_info(m).len(),
        }),
{
    let e = spec_encode_block_info(m);
    vstd::bytes::lemma_auto_spec_u64_to_from_le_bytes();
    vstd::bytes::lemma_auto_spec_u32_to_from_le_bytes();
    vstd::bytes::lemma_auto_spec_u128_to_from_le_bytes();
    assert(e.len() == 60);
    assert(e.subrange(0, 32) =~= m.path_id);
    lemma_subrange_within(b, i, e, 0, 32);
    assert(e.subrange(32, 40) =~= spec_u64_to_le_bytes(m.offset));
    lemma_subrange_within(b, i, e, 32, 40);
    lemma_parse_u64_encoding(b, i + 32, m.offset);
    assert(e.subrange(40, 44) =~= spec_u32_to_le_bytes(m.block_size));
    lemma_subrange_within(b, i, e, 40, 44);
    lemma_parse_u32_encoding(b, i + 40, m.block_size);
    assert(e.subrange(44, 60) =~= spec_u128_to_le_bytes(m.hash));
    lemma_subrange_within(b, i, e, 44, 60);
    lemma_parse_u128_encoding(b, i + 44, m.hash);
}

} // verus!
