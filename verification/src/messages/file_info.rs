//! File-metadata message: everything a peer needs to decide the transfer
//! direction for one file, without the block list.
//!
//! Wire layout: `pathLen(4 LE)` + path UTF-8 bytes · `size(8 LE)` ·
//! `numberBlocks(4 LE)` · `blockSize(4 LE)` · `lastModified(8 LE)`, the
//! modification time carried as nanoseconds since the epoch.

use crate::hashes::{path_digest, path_digest_of};
use crate::messages::block_info::PathId;
use crate::messages::wire::{
    append_u32, append_u64, decoded_matches_view, encode_string, lemma_parse_string_encoding,
    lemma_parse_u32_encoding, lemma_parse_u64_encoding, lemma_subrange_within, parse_string,
    parse_u32, parse_u64, spec_encode_string, spec_parse_string, spec_parse_u32, spec_parse_u64,
    Decoded, EncodeError, SpecDecoded, MAX_FRAME_SIZE,
};
use crate::policy::{block_count, block_size_policy, spec_block_count, spec_block_size_policy};
use vstd::bytes::{spec_u32_to_le_bytes, spec_u64_to_le_bytes};
use vstd::prelude::*;
use vstd::utf8::encode_utf8;

verus! {

/// Metadata of one file: path, size, how the file splits into blocks, and
/// when it was last modified (nanoseconds since the epoch).
#[derive(Debug, PartialEq, Eq, Clone)]
pub struct FileInfo {
    pub path: String,
    pub size: u64,
    pub number_blocks: u32,
    pub block_size: u32,
    pub last_modified: u64,
}

/// Mathematical value of a [`FileInfo`] message.
pub struct FileInfoSpec {
    pub path: Seq<char>,
    pub size: u64,
    pub number_blocks: u32,
    pub block_size: u32,
    pub last_modified: u64,
}

impl View for FileInfo {
    type V = FileInfoSpec;

    open spec fn view(&self) -> FileInfoSpec {
        FileInfoSpec {
            path: self.path@,
            size: self.size,
            number_blocks: self.number_blocks,
            block_size: self.block_size,
            last_modified: self.last_modified,
        }
    }
}

impl FileInfoSpec {
    /// The path fits its 4-byte length field and the frame-size bound.
    pub open spec fn wf(self) -> bool {
        encode_utf8(self.path).len() <= MAX_FRAME_SIZE
    }
}

impl FileInfo {
    /// Assembles a metadata message from its parts.
    pub fn new(
        path: String,
        size: u64,
        number_blocks: u32,
        block_size: u32,
        last_modified: u64,
    ) -> (r: FileInfo)
        ensures
            r@ == (FileInfoSpec {
                path: path@,
                size,
                number_blocks,
                block_size,
                last_modified,
            }),
    {
        FileInfo { path, size, number_blocks, block_size, last_modified }
    }

    /// Builds the metadata for a file of the given size and modification
    /// time: the block size comes from the policy and the block count is
    /// exactly `ceil(size / blockSize)`.
    pub fn with_metadata(path: String, size: u64, last_modified: u64) -> (r: FileInfo)
        requires
            spec_block_count(size, spec_block_size_policy(size)) <= u32::MAX,
        ensures
            r@ == (FileInfoSpec {
                path: path@,
                size,
                number_blocks: spec_block_count(size, spec_block_size_policy(size)) as u32,
                block_size: spec_block_size_policy(size),
                last_modified,
            }),
    {
        let block_size = block_size_policy(size);
        let number_blocks = block_count(size, block_size) as u32;
        FileInfo { path, size, number_blocks, block_size, last_modified }
    }

    /// The file's canonical path.
    pub fn path(&self) -> (r: &str)
        ensures
            r@ == self@.path,
    {
        self.path.as_str()
    }

    /// The file's total size in bytes.
    pub fn size(&self) -> (r: u64)
        ensures
            r == self@.size,
    {
        self.size
    }

    /// How many blocks the file splits into.
    pub fn number_blocks(&self) -> (r: u32)
        ensures
            r == self@.number_blocks,
    {
        self.number_blocks
    }

    /// The block size the policy chose for this file.
    pub fn block_size(&self) -> (r: u32)
        ensures
            r == self@.block_size,
    {
        self.block_size
    }

    /// When the file was last modified, in nanoseconds since the epoch.
    pub fn last_modified(&self) -> (r: u64)
        ensures
            r == self@.last_modified,
    {
        self.last_modified
    }

    /// The file's path identifier: the 32-byte path fingerprint of the
    /// path's UTF-8 bytes.
    pub fn calculate_hash_path(&self) -> (r: PathId)
        ensures
            r@ == path_digest_of(encode_utf8(self@.path)),
            r@.len() == 32,
    {
        path_digest(self.path.as_str().as_bytes())
    }

    /// See [`FileInfoSpec::wf`].
    pub open spec fn wf(self) -> bool {
        self@.wf()
    }
}

/// Wire form of a file-metadata message.
pub open spec fn spec_encode_file_info(m: FileInfoSpec) -> Seq<u8> {
    spec_encode_string(m.path) + spec_u64_to_le_bytes(m.size) + spec_u32_to_le_bytes(
        m.number_blocks,
    ) + spec_u32_to_le_bytes(m.block_size) + spec_u64_to_le_bytes(m.last_modified)
}

/// A file-metadata message at position `i`.
pub open spec fn spec_parse_file_info(b: Seq<u8>, i: int) -> SpecDecoded<FileInfoSpec> {
    match spec_parse_string(b, i) {
        SpecDecoded::Parsed { value: path, next: j } => match spec_parse_u64(b, j) {
            SpecDecoded::Parsed { value: size, next: k } => match spec_parse_u32(b, k) {
                SpecDecoded::Parsed { value: number_blocks, next: l } => match spec_parse_u32(
                    b,
                    l,
                ) {
                    SpecDecoded::Parsed { value: block_size, next: n } => match spec_parse_u64(
                        b,
                        n,
                    ) {
                        SpecDecoded::Parsed { value: last_modified, next: end } => {
                            SpecDecoded::Parsed {
                                value: FileInfoSpec {
                                    path,
                                    size,
                                    number_blocks,
                                    block_size,
                                    last_modified,
                                },
                                next: end,
                            }
                        },
                        SpecDecoded::Incomplete => SpecDecoded::Incomplete,
                        SpecDecoded::Fatal(e) => SpecDecoded::Fatal(e),
                    },
                    SpecDecoded::Incomplete => SpecDecoded::Incomplete,
                    SpecDecoded::Fatal(e) => SpecDecoded::Fatal(e),
                },
                SpecDecoded::Incomplete => SpecDecoded::Incomplete,
                SpecDecoded::Fatal(e) => SpecDecoded::Fatal(e),
            },
            SpecDecoded::Incomplete => SpecDecoded::Incomplete,
            SpecDecoded::Fatal(e) => SpecDecoded::Fatal(e),
        },
        SpecDecoded::Incomplete => SpecDecoded::Incomplete,
        SpecDecoded::Fatal(e) => SpecDecoded::Fatal(e),
    }
}

/// Appends the wire form of `m` to `out`. Fails, appending nothing, exactly
/// when the path exceeds the frame-size bound.
pub fn encode_file_info(m: &FileInfo, out: &mut Vec<u8>) -> (r: Result<(), EncodeError>)
    ensures
        r is Ok <==> m.wf(),
        r is Ok ==> final(out)@ == old(out)@ + spec_encode_file_info(m@),
        r is Err ==> final(out)@ == old(out)@,
{
    if m.path.as_str().as_bytes().len() > MAX_FRAME_SIZE {
        return Err(EncodeError::FrameTooLarge);
    }
    let _path_written = encode_string(out, m.path.as_str());
    append_u64(out, m.size);
    append_u32(out, m.number_blocks);
    append_u32(out, m.block_size);
    append_u64(out, m.last_modified);
    proof {
        assert(out@ =~= old(out)@ + spec_encode_file_info(m@));
    }
    Ok(())
}

/// Reads one file-metadata message.
pub fn decode_file_info(buf: &[u8], start: usize) -> (r: Decoded<FileInfo>)
    requires
        start <= buf@.len(),
    ensures
        decoded_matches_view(r, spec_parse_file_info(buf@, start as int)),
{
    let (path, after_path) = match parse_string(buf, start) {
        Decoded::Parsed { value, next } => (value, next),
        Decoded::Incomplete => {
            return Decoded::Incomplete;
        },
        Decoded::Fatal(e) => {
            return Decoded::Fatal(e);
        },
    };
    let (size, after_size) = match parse_u64(buf, after_path) {
        Decoded::Parsed { value, next } => (value, next),
        Decoded::Incomplete => {
            return Decoded::Incomplete;
        },
        Decoded::Fatal(e) => {
            return Decoded::Fatal(e);
        },
    };
    let (number_blocks, after_count) = match parse_u32(buf, after_size) {
        Decoded::Parsed { value, next } => (value, next),
        Decoded::Incomplete => {
            return Decoded::Incomplete;
        },
        Decoded::Fatal(e) => {
            return Decoded::Fatal(e);
        },
    };
    let (block_size, after_block_size) = match parse_u32(buf, after_count) {
        Decoded::Parsed { value, next } => (value, next),
        Decoded::Incomplete => {
            return Decoded::Incomplete;
        },
        Decoded::Fatal(e) => {
            return Decoded::Fatal(e);
        },
    };
    let (last_modified, end) = match parse_u64(buf, after_block_size) {
        Decoded::Parsed { value, next } => (value, next),
        Decoded::Incomplete => {
            return Decoded::Incomplete;
        },
        Decoded::Fatal(e) => {
            return Decoded::Fatal(e);
        },
    };
    Decoded::Parsed {
        value: FileInfo { path, size, number_blocks, block_size, last_modified },
        next: end,
    }
}

/// Round-trip law for file-metadata messages: decoding any buffer that
/// carries the encoding of a well-formed message at position `i` yields
/// exactly that message and consumes exactly its encoding.
pub proof fn lemma_file_info_round_trip(m: FileInfoSpec, b: Seq<u8>, i: int)
    requires
        m.wf(),
        0 <= i,
        i + spec_encode_file_info(m).len() <= b.len(),
        b.subrange(i, i + spec_encode_file_info(m).len() as int) == spec_encode_file_info(m),
    ensures
        spec_parse_file_info(b, i) == (SpecDecoded::Parsed {
            value: m,
            next: i + spec_encode_file_info(m).len(),
        }),
{
    let e = spec_encode_file_info(m);
    let p = spec_encode_string(m.path).len() as int;
    vstd::bytes::lemma_auto_spec_u64_to_from_le_bytes();
    vstd::bytes::lemma_auto_spec_u32_to_from_le_bytes();
    assert(e.len() == p + 24);
    assert(e.subrange(0, p) =~= spec_encode_string(m.path));
    lemma_subrange_within(b, i, e, 0, p);
    lemma_parse_string_encoding(b, i, m.path);
    assert(e.subrange(p, p + 8) =~= spec_u64_to_le_bytes(m.size));
    lemma_subrange_within(b, i, e, p, p + 8);
    lemma_parse_u64_encoding(b, i + p, m.size);
    assert(e.subrange(p + 8, p + 12) =~= spec_u32_to_le_bytes(m.number_blocks));
    lemma_subrange_within(b, i, e, p + 8, p + 12);
    lemma_parse_u32_encoding(b, i + p + 8, m.number_blocks);
    assert(e.subrange(p + 12, p + 16) =~= spec_u32_to_le_bytes(m.block_size));
    lemma_subrange_within(b, i, e, p + 12, p + 16);
    lemma_parse_u32_encoding(b, i + p + 12, m.block_size);
    assert(e.subrange(p + 16, p + 24) =~= spec_u64_to_le_bytes(m.last_modified));
    lemma_subrange_within(b, i, e, p + 16, p + 24);
    lemma_parse_u64_encoding(b, i + p + 16, m.last_modified);
}

} // verus!
