//! Wire codec for one folder-index entry and its block list.
//!
//! Wire layout of one block: `offset(8 LE)` · `size(4 LE)` · `hash(16 LE)`.
//! Wire layout of one entry: `pathLen(4 LE)` + path UTF-8 bytes ·
//! `size(8 LE)` · `blockSize(4 LE)` · `blockCount(4 LE)` · blocks.

use crate::index::block_info::BlockInfo;
use crate::index::file_info::{FileInfo, FileInfoSpec};
use crate::messages::wire::{
    append_u128, append_u32, append_u64, decoded_matches, decoded_matches_view, encode_string,
    lemma_compose_assoc, lemma_compose_empty, lemma_parse_string_encoding,
    lemma_parse_u128_encoding, lemma_parse_u32_encoding, lemma_parse_u64_encoding,
    lemma_subrange_within, parse_string, parse_u128, parse_u32, parse_u64, spec_compose,
    spec_encode_string, spec_parse_string, spec_parse_u128, spec_parse_u32, spec_parse_u64,
    Decoded, EncodeError, SpecDecoded, MAX_FRAME_SIZE,
};
use vstd::bytes::{
    spec_u128_to_le_bytes, spec_u32_to_le_bytes, spec_u64_to_le_bytes,
};
use vstd::prelude::*;
use vstd::utf8::encode_utf8;

verus! {

/// Wire form of one block record.
pub open spec fn spec_encode_block(blk: BlockInfo) -> Seq<u8> {
    spec_u64_to_le_bytes(blk.offset) + spec_u32_to_le_bytes(blk.block_size)
        + spec_u128_to_le_bytes(blk.hash)
}

/// A block record at position `i`.
pub open spec fn spec_parse_block(b: Seq<u8>, i: int) -> SpecDecoded<BlockInfo> {
    match spec_parse_u64(b, i) {
        SpecDecoded::Parsed { value: offset, next: j } => match spec_parse_u32(b, j) {
            SpecDecoded::Parsed { value: block_size, next: k } => match spec_parse_u128(b, k) {
                SpecDecoded::Parsed { value: hash, next: end } => SpecDecoded::Parsed {
                    value: BlockInfo { offset, block_size, hash },
                    next: end,
                },
                SpecDecoded::Incomplete => SpecDecoded::Incomplete,
                SpecDecoded::Fatal(e) => SpecDecoded::Fatal(e),
            },
            SpecDecoded::Incomplete => SpecDecoded::Incomplete,
            SpecDecoded::Fatal(e) => SpecDecoded::Fatal(e),
        },
        SpecDecoded::Incomplete => SpecDecoded::Incomplete,
        SpecDecoded::Fatal(e) => SpecDecoded::Fatal(e),
    }
}

/// Appends the wire form of one block record to `out`.
pub fn encode_block(blk: &BlockInfo, out: &mut Vec<u8>)
    ensures
        final(out)@ == old(out)@ + spec_encode_block(*blk),
{
    append_u64(out, blk.offset);
    append_u32(out, blk.block_size);
    append_u128(out, blk.hash);
    proof {
        assert(out@ =~= old(out)@ + spec_encode_block(*blk));
    }
}

/// Reads one block record.
pub fn decode_block(buf: &[u8], start: usize) -> (r: Decoded<BlockInfo>)
    requires
        start <= buf@.len(),
    ensures
        decoded_matches(r, spec_parse_block(buf@, start as int)),
{
    let (offset, after_offset) = match parse_u64(buf, start) {
        Decoded::Parsed { value, next } => (value, next),
        Decoded::Incomplete => {
            return Decoded::Incomplete;
        },
        Decoded::Fatal(e) => {
            return Decoded::Fatal(e);
        },
    };
    let (block_size, after_size) = match parse_u32(buf, after_offset) {
        Decoded::Parsed { value, next } => (value, next),
        Decoded::Incomplete => {
            return Decoded::Incomplete;
        },
        Decoded::Fatal(e) => {
            return Decoded::Fatal(e);
        },
    };
    let (hash, end) = match parse_u128(buf, after_size) {
        Decoded::Parsed { value, next } => (value, next),
        Decoded::Incomplete => {
            return Decoded::Incomplete;
        },
        Decoded::Fatal(e) => {
            return Decoded::Fatal(e);
        },
    };
    Decoded::Parsed { value: BlockInfo { offset, block_size, hash }, next: end }
}

/// Round-trip law for one block record.
pub proof fn lemma_block_round_trip(blk: BlockInfo, b: Seq<u8>, i: int)
    requires
        0 <= i,
        i + spec_encode_block(blk).len() <= b.len(),
        b.subrange(i, i + spec_encode_block(blk).len() as int) == spec_encode_block(blk),
    ensures
        spec_parse_block(b, i) == (SpecDecoded::Parsed {
            value: blk,
            next: i + spec_encode_block(blk).len(),
        }),
{
    let e = spec_encode_block(blk);
    vstd::bytes::lemma_auto_spec_u64_to_from_le_bytes();
    vstd::bytes::lemma_auto_spec_u32_to_from_le_bytes();
    vstd::bytes::lemma_auto_spec_u128_to_from_le_bytes();
    assert(e.len() == 28);
    assert(e.subrange(0, 8) =~= spec_u64_to_le_bytes(blk.offset));
    lemma_subrange_within(b, i, e, 0, 8);
    lemma_parse_u64_encoding(b, i, blk.offset);
    assert(e.subrange(8, 12) =~= spec_u32_to_le_bytes(blk.block_size));
    lemma_subrange_within(b, i, e, 8, 12);
    lemma_parse_u32_encoding(b, i + 8, blk.block_size);
    assert(e.subrange(12, 28) =~= spec_u128_to_le_bytes(blk.hash));
    lemma_subrange_within(b, i, e, 12, 28);
    lemma_parse_u128_encoding(b, i + 12, blk.hash);
}

/// Wire form of a block list, blocks in order.
pub open spec fn spec_encode_blocks(blocks: Seq<BlockInfo>) -> Seq<u8>
    decreases blocks.len(),
{
    if blocks.len() == 0 {
        Seq::empty()
    } else {
        spec_encode_block(blocks.first()) + spec_encode_blocks(blocks.drop_first())
    }
}

/// Exactly `count` block records at position `i`.
pub open spec fn spec_parse_blocks(b: Seq<u8>, i: int, count: int) -> SpecDecoded<
    Seq<BlockInfo>,
>
    decreases count,
{
    if count <= 0 {
        SpecDecoded::Parsed { value: Seq::empty(), next: i }
    } else {
        match spec_parse_block(b, i) {
            SpecDecoded::Parsed { value: blk, next: j } => spec_compose(
                seq![blk],
                spec_parse_blocks(b, j, count - 1),
            ),
            SpecDecoded::Incomplete => SpecDecoded::Incomplete,
            SpecDecoded::Fatal(e) => SpecDecoded::Fatal(e),
        }
    }
}

/// Appends the wire form of every block, in order, to `out`.
pub fn encode_blocks(blocks: &Vec<BlockInfo>, out: &mut Vec<u8>)
    ensures
        final(out)@ == old(out)@ + spec_encode_blocks(blocks@),
{
    let mut k: usize = 0;
    while k < blocks.len()
        invariant
            k <= blocks@.len(),
            out@ == old(out)@ + spec_encode_blocks(blocks@.take(k as int)),
        decreases blocks@.len() - k,
    {
        encode_block(&blocks[k], out);
        proof {
            lemma_encode_blocks_push(blocks@.take(k as int), blocks@[k as int]);
            assert(blocks@.take(k as int).push(blocks@[k as int]) =~= blocks@.take(k + 1));
            assert(out@ =~= old(out)@ + spec_encode_blocks(blocks@.take(k + 1)));
        }
        k = k + 1;
    }
    proof {
        assert(blocks@.take(blocks@.len() as int) =~= blocks@);
    }
}

/// Appending one block to a list appends its wire form to the list's.
proof fn lemma_encode_blocks_push(s: Seq<BlockInfo>, blk: BlockInfo)
    ensures
        spec_encode_blocks(s.push(blk)) == spec_encode_blocks(s) + spec_encode_block(blk),
    decreases s.len(),
{
    let t = s.push(blk);
    assert(t.first() == if s.len() == 0 {
        blk
    } else {
        s.first()
    });
    if s.len() == 0 {
        assert(t.drop_first() =~= Seq::<BlockInfo>::empty());
        assert(spec_encode_blocks(t.drop_first()) == Seq::<u8>::empty());
        assert(spec_encode_blocks(t) =~= spec_encode_blocks(s) + spec_encode_block(blk));
    } else {
        lemma_encode_blocks_push(s.drop_first(), blk);
        assert(t.drop_first() =~= s.drop_first().push(blk));
        assert(spec_encode_blocks(t) == spec_encode_block(s.first()) + (spec_encode_blocks(
            s.drop_first(),
        ) + spec_encode_block(blk)));
        assert(spec_encode_block(s.first()) + (spec_encode_blocks(s.drop_first())
            + spec_encode_block(blk)) =~= (spec_encode_block(s.first()) + spec_encode_blocks(
            s.drop_first(),
        )) + spec_encode_block(blk));
    }
}

/// Reads exactly `count` block records.
pub fn parse_blocks(buf: &[u8], start: usize, count: u32) -> (r: Decoded<Vec<BlockInfo>>)
    requires
        start <= buf@.len(),
    ensures
        decoded_matches_view(r, spec_parse_blocks(buf@, start as int, count as int)),
        r matches Decoded::Parsed { value, next } ==> next <= buf@.len(),
{
    let mut acc: Vec<BlockInfo> = Vec::new();
    let mut cur = start;
    let mut k: u32 = 0;
    while k < count
        invariant
            k <= count,
            cur <= buf@.len(),
            spec_parse_blocks(buf@, start as int, count as int) == spec_compose(
                acc@,
                spec_parse_blocks(buf@, cur as int, count - k),
            ),
        decreases count - k,
    {
        let ghost pending = spec_parse_blocks(buf@, cur as int, count - k);
        let (blk, j) = match decode_block(buf, cur) {
            Decoded::Parsed { value, next } => (value, next),
            Decoded::Incomplete => {
                return Decoded::Incomplete;
            },
            Decoded::Fatal(e) => {
                return Decoded::Fatal(e);
            },
        };
        proof {
            assert(pending == spec_compose(
                seq![blk],
                spec_parse_blocks(buf@, j as int, count - k - 1),
            ));
            lemma_compose_assoc(
                acc@,
                seq![blk],
                spec_parse_blocks(buf@, j as int, count - k - 1),
            );
            assert(acc@ + seq![blk] =~= acc@.push(blk));
        }
        acc.push(blk);
        cur = j;
        k = k + 1;
    }
    proof {
        lemma_compose_empty(acc@, cur as int);
    }
    Decoded::Parsed { value: acc, next: cur }
}

/// Round-trip law for block lists: decoding `count == blocks.len()` records
/// from any buffer that carries the list's encoding yields exactly the list.
pub proof fn lemma_blocks_round_trip(blocks: Seq<BlockInfo>, b: Seq<u8>, i: int)
    requires
        0 <= i,
        i + spec_encode_blocks(blocks).len() <= b.len(),
        b.subrange(i, i + spec_encode_blocks(blocks).len() as int) == spec_encode_blocks(blocks),
    ensures
        spec_parse_blocks(b, i, blocks.len() as int) == (SpecDecoded::Parsed {
            value: blocks,
            next: i + spec_encode_blocks(blocks).len(),
        }),
    decreases blocks.len(),
{
    let e = spec_encode_blocks(blocks);
    vstd::bytes::lemma_auto_spec_u64_to_from_le_bytes();
    vstd::bytes::lemma_auto_spec_u32_to_from_le_bytes();
    vstd::bytes::lemma_auto_spec_u128_to_from_le_bytes();
    if blocks.len() == 0 {
        assert(e.len() == 0);
        assert(blocks =~= Seq::<BlockInfo>::empty());
    } else {
        let first = spec_encode_block(blocks.first());
        let rest = spec_encode_blocks(blocks.drop_first());
        assert(first.len() == 28);
        assert(e.subrange(0, 28) =~= first);
        lemma_subrange_within(b, i, e, 0, 28);
        lemma_block_round_trip(blocks.first(), b, i);
        assert(e.subrange(28, e.len() as int) =~= rest);
        lemma_subrange_within(b, i, e, 28, e.len() as int);
        lemma_blocks_round_trip(blocks.drop_first(), b, i + 28);
        assert(seq![blocks.first()] + blocks.drop_first() =~= blocks);
    }
}

/// An entry can be carried on the wire: the path fits the frame-size bound
/// and the block count fits its 4-byte field.
pub open spec fn entry_encodable(f: FileInfoSpec) -> bool {
    &&& encode_utf8(f.path).len() <= MAX_FRAME_SIZE
    &&& f.blocks.len() <= u32::MAX
}

/// Wire form of one folder-index entry.
pub open spec fn spec_encode_file_entry(f: FileInfoSpec) -> Seq<u8> {
    spec_encode_string(f.path) + spec_u64_to_le_bytes(f.size) + spec_u32_to_le_bytes(
        f.block_size,
    ) + spec_u32_to_le_bytes(f.blocks.len() as u32) + spec_encode_blocks(f.blocks)
}

/// A folder-index entry at position `i`.
pub open spec fn spec_parse_file_entry(b: Seq<u8>, i: int) -> SpecDecoded<FileInfoSpec> {
    match spec_parse_string(b, i) {
        SpecDecoded::Parsed { value: path, next: j } => match spec_parse_u64(b, j) {
            SpecDecoded::Parsed { value: size, next: k } => match spec_parse_u32(b, k) {
                SpecDecoded::Parsed { value: block_size, next: l } => match spec_parse_u32(b, l) {
                    SpecDecoded::Parsed { value: count, next: n } => match spec_parse_blocks(
                        b,
                        n,
                        count as int,
                    ) {
                        SpecDecoded::Parsed { value: blocks, next: end } => SpecDecoded::Parsed {
                            value: FileInfoSpec { path, size, block_size, blocks },
                            next: end,
                        },
                        SpecDecoded::Incomplete => SpecDecoded::Incomplete,
                        SpecDecoded::Fatal(e) => SpecDecoded::Fatal(e),
                    },
                    SpecDecoded::Incomplete => SpecDecoded::Incomplete,
                    SpecDecoded::Fatal(e) => SpecDecoded::Fatal(e),
                },
                SpecDecoded::Incomplete => SpecDecoded::Incomplete,
                SpecDecoded::Fatal(e) => SpecDecoded::Fatal(e),
            },
            SpecDecoded::Incomplete => SpecDecoded::Incomplete,
            SpecDecoded::Fatal(e) => SpecDecoded::Fatal(e),
        },
        SpecDecoded::Incomplete => SpecDecoded::Incomplete,
        SpecDecoded::Fatal(e) => SpecDecoded::Fatal(e),
    }
}

/// Appends the wire form of one entry to `out`. Fails, appending nothing,
/// exactly when the path exceeds the frame-size bound or the block count
/// does not fit its 4-byte field.
pub fn encode_file_entry(f: &FileInfo, out: &mut Vec<u8>) -> (r: Result<(), EncodeError>)
    ensures
        r is Ok <==> entry_encodable(f@),
        r is Ok ==> final(out)@ == old(out)@ + spec_encode_file_entry(f@),
        r is Err ==> final(out)@ == old(out)@,
{
    if f.path.as_str().as_bytes().len() > MAX_FRAME_SIZE {
        return Err(EncodeError::FrameTooLarge);
    }
    if f.blocks.len() > u32::MAX as usize {
        return Err(EncodeError::TooManyItems);
    }
    let _path_written = encode_string(out, f.path.as_str());
    append_u64(out, f.size);
    append_u32(out, f.block_size);
    append_u32(out, f.blocks.len() as u32);
    encode_blocks(&f.blocks, out);
    proof {
        assert(out@ =~= old(out)@ + spec_encode_file_entry(f@));
    }
    Ok(())
}

/// Reads one folder-index entry.
pub fn decode_file_entry(buf: &[u8], start: usize) -> (r: Decoded<FileInfo>)
    requires
        start <= buf@.len(),
    ensures
        decoded_matches_view(r, spec_parse_file_entry(buf@, start as int)),
        r matches Decoded::Parsed { value, next } ==> next <= buf@.len(),
{
    let (path, after_path) = match parse_string(buf, start) {
        Decoded::Parsed { value, next } => (value, next),
        Decoded::Incomplete => {
            return Decoded::Incomplete;
        },
        Decoded::Fatal(e) => {
            return Decoded::Fatal(e);
        },
    };
    let (size, after_size) = match parse_u64(buf, after_path) {
        Decoded::Parsed { value, next } => (value, next),
        Decoded::Incomplete => {
            return Decoded::Incomplete;
        },
        Decoded::Fatal(e) => {
            return Decoded::Fatal(e);
        },
    };
    let (block_size, after_block_size) = match parse_u32(buf, after_size) {
        Decoded::Parsed { value, next } => (value, next),
        Decoded::Incomplete => {
            return Decoded::Incomplete;
        },
        Decoded::Fatal(e) => {
            return Decoded::Fatal(e);
        },
    };
    let (count, after_count) = match parse_u32(buf, after_block_size) {
        Decoded::Parsed { value, next } => (value, next),
        Decoded::Incomplete => {
            return Decoded::Incomplete;
        },
        Decoded::Fatal(e) => {
            return Decoded::Fatal(e);
        },
    };
    let (blocks, end) = match parse_blocks(buf, after_count, count) {
        Decoded::Parsed { value, next } => (value, next),
        Decoded::Incomplete => {
            return Decoded::Incomplete;
        },
        Decoded::Fatal(e) => {
            return Decoded::Fatal(e);
        },
    };
    Decoded::Parsed { value: FileInfo { path, size, block_size, blocks }, next: end }
}

/// Round-trip law for folder-index entries: decoding any buffer that
/// carries the encoding of an encodable entry at position `i` yields
/// exactly that entry and consumes exactly its encoding.
pub proof fn lemma_file_entry_round_trip(f: FileInfoSpec, b: Seq<u8>, i: int)
    requires
        entry_encodable(f),
        0 <= i,
        i + spec_encode_file_entry(f).len() <= b.len(),
        b.subrange(i, i + spec_encode_file_entry(f).len() as int) == spec_encode_file_entry(f),
    ensures
        spec_parse_file_entry(b, i) == (SpecDecoded::Parsed {
            value: f,
            next: i + spec_encode_file_entry(f).len(),
        }),
{
    let e = spec_encode_file_entry(f);
    let p = spec_encode_string(f.path).len() as int;
    let blocks = spec_encode_blocks(f.blocks);
    vstd::bytes::lemma_auto_spec_u64_to_from_le_bytes();
    vstd::bytes::lemma_auto_spec_u32_to_from_le_bytes();
    assert(e.len() == p + 16 + blocks.len());
    assert(e.subrange(0, p) =~= spec_encode_string(f.path));
    lemma_subrange_within(b, i, e, 0, p);
    lemma_parse_string_encoding(b, i, f.path);
    assert(e.subrange(p, p + 8) =~= spec_u64_to_le_bytes(f.size));
    lemma_subrange_within(b, i, e, p, p + 8);
    lemma_parse_u64_encoding(b, i + p, f.size);
    assert(e.subrange(p + 8, p + 12) =~= spec_u32_to_le_bytes(f.block_size));
    lemma_subrange_within(b, i, e, p + 8, p + 12);
    lemma_parse_u32_encoding(b, i + p + 8, f.block_size);
    assert(e.subrange(p + 12, p + 16) =~= spec_u32_to_le_bytes(f.blocks.len() as u32));
    lemma_subrange_within(b, i, e, p + 12, p + 16);
    lemma_parse_u32_encoding(b, i + p + 12, f.blocks.len() as u32);
    assert(e.subrange(p + 16, e.len() as int) =~= blocks);
    lemma_subrange_within(b, i, e, p + 16, e.len() as int);
    lemma_blocks_round_trip(f.blocks, b, i + p + 16);
}

} // verus!
