//! Wire codec for the folder-index snapshot.
//!
//! Wire layout: `entryCount(8 LE)` · entries (entryCount × entry), each
//! entry as laid out in the entry codec.

use crate::index::file_info::{FileInfo, FileInfoSpec};
use crate::index::folder_index::FolderIndex;
use crate::messages::file_entry::{
    decode_file_entry, encode_file_entry, entry_encodable, lemma_file_entry_round_trip,
    spec_encode_file_entry, spec_parse_file_entry,
};
use crate::messages::wire::{
    append_u64, decoded_matches_view, lemma_compose_assoc, lemma_compose_empty,
    lemma_parse_u64_encoding, lemma_subrange_within, parse_u64, spec_compose, spec_parse_u64,
    Decoded, EncodeError, SpecDecoded,
};
use vstd::bytes::spec_u64_to_le_bytes;
use vstd::prelude::*;

verus! {

/// Wire form of an entry list, entries in order.
pub open spec fn spec_encode_entries(entries: Seq<FileInfoSpec>) -> Seq<u8>
    decreases entries.len(),
{
    if entries.len() == 0 {
        Seq::empty()
    } else {
        spec_encode_file_entry(entries.first()) + spec_encode_entries(entries.drop_first())
    }
}

/// Exactly `count` entries at position `i`.
pub open spec fn spec_parse_entries(b: Seq<u8>, i: int, count: int) -> SpecDecoded<
    Seq<FileInfoSpec>,
>
    decreases count,
{
    if count <= 0 {
        SpecDecoded::Parsed { value: Seq::empty(), next: i }
    } else {
        match spec_parse_file_entry(b, i) {
            SpecDecoded::Parsed { value: f, next: j } => spec_compose(
                seq![f],
                spec_parse_entries(b, j, count - 1),
            ),
            SpecDecoded::Incomplete => SpecDecoded::Incomplete,
            SpecDecoded::Fatal(e) => SpecDecoded::Fatal(e),
        }
    }
}

/// Wire form of the whole snapshot.
pub open spec fn spec_encode_folder_index(entries: Seq<FileInfoSpec>) -> Seq<u8> {
    spec_u64_to_le_bytes(entries.len() as u64) + spec_encode_entries(entries)
}

/// A snapshot at position `i`: the declared number of entries, then exactly
/// that many entries.
pub open spec fn spec_parse_folder_index(b: Seq<u8>, i: int) -> SpecDecoded<Seq<FileInfoSpec>> {
    match spec_parse_u64(b, i) {
        SpecDecoded::Parsed { value: count, next: j } => spec_parse_entries(b, j, count as int),
        SpecDecoded::Incomplete => SpecDecoded::Incomplete,
        SpecDecoded::Fatal(e) => SpecDecoded::Fatal(e),
    }
}

/// Appending one entry to a list appends its wire form to the list's.
proof fn lemma_encode_entries_push(s: Seq<FileInfoSpec>, f: FileInfoSpec)
    ensures
        spec_encode_entries(s.push(f)) == spec_encode_entries(s) + spec_encode_file_entry(f),
    decreases s.len(),
{
    let t = s.push(f);
    assert(t.first() == if s.len() == 0 {
        f
    } else {
        s.first()
    });
    if s.len() == 0 {
        assert(t.drop_first() =~= Seq::<FileInfoSpec>::empty());
        assert(spec_encode_entries(t.drop_first()) == Seq::<u8>::empty());
        assert(spec_encode_entries(t) =~= spec_encode_entries(s) + spec_encode_file_entry(f));
    } else {
        lemma_encode_entries_push(s.drop_first(), f);
        assert(t.drop_first() =~= s.drop_first().push(f));
        assert(spec_encode_entries(t) == spec_encode_file_entry(s.first()) + (
        spec_encode_entries(s.drop_first()) + spec_encode_file_entry(f)));
        assert(spec_encode_file_entry(s.first()) + (spec_encode_entries(s.drop_first())
            + spec_encode_file_entry(f)) =~= (spec_encode_file_entry(s.first())
            + spec_encode_entries(s.drop_first())) + spec_encode_file_entry(f));
    }
}

/// Appends the wire form of the snapshot to `out`. Fails, appending
/// nothing, exactly when some entry cannot be carried on the wire.
pub fn encode_folder_index(idx: &FolderIndex, out: &mut Vec<u8>) -> (r: Result<
    (),
    EncodeError,
>)
    ensures
        r is Ok <==> (forall|j: int| 0 <= j < idx@.len() ==> entry_encodable(#[trigger] idx@[j])),
        r is Ok ==> final(out)@ == old(out)@ + spec_encode_folder_index(idx@),
        r is Err ==> final(out)@ == old(out)@,
{
    let mut body: Vec<u8> = Vec::new();
    let mut k: usize = 0;
    while k < idx.entries.len()
        invariant
            k <= idx.entries@.len(),
            idx@.len() == idx.entries@.len(),
            forall|j: int| 0 <= j < k ==> entry_encodable(#[trigger] idx@[j]),
            body@ == spec_encode_entries(idx@.take(k as int)),
        decreases idx.entries@.len() - k,
    {
        proof {
            assert(idx@[k as int] == idx.entries@[k as int]@);
        }
        match encode_file_entry(&idx.entries[k], &mut body) {
            Ok(u) => {},
            Err(e) => {
                return Err(e);
            },
        }
        proof {
            lemma_encode_entries_push(idx@.take(k as int), idx@[k as int]);
            assert(idx@.take(k as int).push(idx@[k as int]) =~= idx@.take(k + 1));
        }
        k = k + 1;
    }
    append_u64(out, idx.entries.len() as u64);
    let mut body_tail = body;
    out.append(&mut body_tail);
    proof {
        assert(idx@.take(idx@.len() as int) =~= idx@);
        assert(out@ =~= old(out)@ + spec_encode_folder_index(idx@));
    }
    Ok(())
}

/// Reads one snapshot. The decoded snapshot holds exactly the entries the
/// peer sent, in the order it sent them.
pub fn decode_folder_index(buf: &[u8], start: usize) -> (r: Decoded<FolderIndex>)
    requires
        start <= buf@.len(),
    ensures
        decoded_matches_view(r, spec_parse_folder_index(buf@, start as int)),
        r matches Decoded::Parsed { value, next } ==> next <= buf@.len(),
{
    let (count, after_count) = match parse_u64(buf, start) {
        Decoded::Parsed { value, next } => (value, next),
        Decoded::Incomplete => {
            return Decoded::Incomplete;
        },
        Decoded::Fatal(e) => {
            return Decoded::Fatal(e);
        },
    };
    let mut acc: Vec<FileInfo> = Vec::new();
    let mut cur = after_count;
    let mut k: u64 = 0;
    while k < count
        invariant
            k <= count,
            cur <= buf@.len(),
            spec_parse_folder_index(buf@, start as int) == spec_parse_entries(
                buf@,
                after_count as int,
                count as int,
            ),
            spec_parse_entries(buf@, after_count as int, count as int) == spec_compose(
                acc@.map_values(|f: FileInfo| f@),
                spec_parse_entries(buf@, cur as int, count - k),
            ),
        decreases count - k,
    {
        let ghost pending = spec_parse_entries(buf@, cur as int, count - k);
        let (f, j) = match decode_file_entry(buf, cur) {
            Decoded::Parsed { value, next } => (value, next),
            Decoded::Incomplete => {
                return Decoded::Incomplete;
            },
            Decoded::Fatal(e) => {
                return Decoded::Fatal(e);
            },
        };
        proof {
            assert(pending == spec_compose(
                seq![f@],
                spec_parse_entries(buf@, j as int, count - k - 1),
            ));
            lemma_compose_assoc(
                acc@.map_values(|f: FileInfo| f@),
                seq![f@],
                spec_parse_entries(buf@, j as int, count - k - 1),
            );
            assert(acc@.map_values(|f: FileInfo| f@) + seq![f@] =~= acc@.push(f).map_values(
                |f: FileInfo| f@,
            ));
        }
        acc.push(f);
        cur = j;
        k = k + 1;
    }
    proof {
        lemma_compose_empty(acc@.map_values(|f: FileInfo| f@), cur as int);
    }
    Decoded::Parsed { value: FolderIndex { entries: acc }, next: cur }
}

/// Round-trip law for entry lists: decoding `count == entries.len()`
/// entries from any buffer that carries the list's encoding yields exactly
/// the list.
pub proof fn lemma_entries_round_trip(entries: Seq<FileInfoSpec>, b: Seq<u8>, i: int)
    requires
        0 <= i,
        forall|j: int| 0 <= j < entries.len() ==> entry_encodable(#[trigger] entries[j]),
        i + spec_encode_entries(entries).len() <= b.len(),
        b.subrange(i, i + spec_encode_entries(entries).len() as int) == spec_encode_entries(
            entries,
        ),
    ensures
        spec_parse_entries(b, i, entries.len() as int) == (SpecDecoded::Parsed {
            value: entries,
            next: i + spec_encode_entries(entries).len(),
        }),
    decreases entries.len(),
{
    let e = spec_encode_entries(entries);
    if entries.len() == 0 {
        assert(e.len() == 0);
        assert(entries =~= Seq::<FileInfoSpec>::empty());
    } else {
        let first = spec_encode_file_entry(entries.first());
        let fl = first.len() as int;
        let rest = spec_encode_entries(entries.drop_first());
        assert(e.subrange(0, fl) =~= first);
        lemma_subrange_within(b, i, e, 0, fl);
        assert(entries[0] == entries.first());
        lemma_file_entry_round_trip(entries.first(), b, i);
        assert(e.subrange(fl, e.len() as int) =~= rest);
        lemma_subrange_within(b, i, e, fl, e.len() as int);
        assert(forall|j: int|
            0 <= j < entries.drop_first().len() ==> entry_encodable(
                #[trigger] entries.drop_first()[j],
            ));
        lemma_entries_round_trip(entries.drop_first(), b, i + fl);
        let n = entries.len() as int;
        assert(spec_parse_entries(b, i, n) == spec_compose(
            seq![entries.first()],
            spec_parse_entries(b, i + fl, n - 1),
        ));
        assert(seq![entries.first()] + entries.drop_first() =~= entries);
    }
}

/// Round-trip law for the snapshot: decoding any buffer that carries the
/// encoding of a snapshot whose entries all fit the wire yields exactly
/// those entries, in order, and consumes exactly the encoding.
pub proof fn lemma_folder_index_round_trip(entries: Seq<FileInfoSpec>, b: Seq<u8>, i: int)
    requires
        0 <= i,
        entries.len() <= u64::MAX,
        forall|j: int| 0 <= j < entries.len() ==> entry_encodable(#[trigger] entries[j]),
        i + spec_encode_folder_index(entries).len() <= b.len(),
        b.subrange(i, i + spec_encode_folder_index(entries).len() as int)
            == spec_encode_folder_index(entries),
    ensures
        spec_parse_folder_index(b, i) == (SpecDecoded::Parsed {
            value: entries,
            next: i + spec_encode_folder_index(entries).len(),
        }),
{
    let e = spec_encode_folder_index(entries);
    let body = spec_encode_entries(entries);
    vstd::bytes::lemma_auto_spec_u64_to_from_le_bytes();
    assert(e.len() == 8 + body.len());
    assert(e.subrange(0, 8) =~= spec_u64_to_le_bytes(entries.len() as u64));
    lemma_subrange_within(b, i, e, 0, 8);
    lemma_parse_u64_encoding(b, i, entries.len() as u64);
    assert(e.subrange(8, e.len() as int) =~= body);
    lemma_subrange_within(b, i, e, 8, e.len() as int);
    lemma_entries_round_trip(entries, b, i + 8);
}

} // verus!
