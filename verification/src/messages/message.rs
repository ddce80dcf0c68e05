//! Top-level protocol message: one discriminant byte selects the payload,
//! then the payload in its own wire form.

use crate::index::file_info::FileInfoSpec as EntrySpec;
use crate::index::folder_index::FolderIndex;
use crate::messages::block_info::{
    decode_block_info, encode_block_info, lemma_block_info_round_trip, spec_encode_block_info,
    spec_parse_block_info, BlockInfo, BlockInfoSpec, PATH_ID_SIZE,
};
use crate::messages::file_entry::entry_encodable;
use crate::messages::file_info::{
    decode_file_info, encode_file_info, lemma_file_info_round_trip, spec_encode_file_info,
    spec_parse_file_info, FileInfo, FileInfoSpec,
};
use crate::messages::folder_index::{
    decode_folder_index, encode_folder_index, lemma_folder_index_round_trip,
    spec_encode_folder_index, spec_parse_folder_index,
};
use crate::messages::hello::{
    decode_hello, encode_hello, lemma_hello_round_trip, spec_encode_hello, spec_parse_hello,
    HelloMessage, HelloSpec,
};
use crate::messages::watcher::{
    decode_change_event, encode_change_event, lemma_change_event_round_trip,
    spec_encode_change_event, spec_parse_change_event, ChangeEvent, ChangeEventSpec,
};
use crate::messages::wire::{
    append_u8, decoded_matches_view, lemma_subrange_within, parse_u8, spec_parse_u8, Decoded,
    DecodeError, EncodeError, SpecDecoded,
};
use vstd::prelude::*;

verus! {

/// One protocol message.
#[derive(Debug, PartialEq, Eq)]
pub enum Message {
    /// Handshake payload; discriminant byte 0.
    Hello(HelloMessage),
    /// Folder-index snapshot; discriminant byte 1.
    FolderIndex(FolderIndex),
    /// File metadata; discriminant byte 2.
    FileInfo(FileInfo),
    /// One content block; discriminant byte 3.
    BlockInfo(BlockInfo),
    /// File-change event; discriminant byte 4.
    WatcherEvent(ChangeEvent),
}

/// Mathematical value of a [`Message`].
pub enum MessageSpec {
    Hello(HelloSpec),
    FolderIndex(Seq<EntrySpec>),
    FileInfo(FileInfoSpec),
    BlockInfo(BlockInfoSpec),
    WatcherEvent(ChangeEventSpec),
}

impl View for Message {
    type V = MessageSpec;

    open spec fn view(&self) -> MessageSpec {
        match self {
            Message::Hello(h) => MessageSpec::Hello(h@),
            Message::FolderIndex(idx) => MessageSpec::FolderIndex(idx@),
            Message::FileInfo(f) => MessageSpec::FileInfo(f@),
            Message::BlockInfo(bi) => MessageSpec::BlockInfo(bi@),
            Message::WatcherEvent(ev) => MessageSpec::WatcherEvent(ev@),
        }
    }
}

impl MessageSpec {
    /// The payload can be carried on the wire.
    pub open spec fn wf(self) -> bool {
        match self {
            MessageSpec::Hello(h) => h.wf(),
            MessageSpec::FolderIndex(entries) => entries.len() <= u64::MAX && forall|j: int|
                0 <= j < entries.len() ==> entry_encodable(#[trigger] entries[j]),
            MessageSpec::FileInfo(f) => f.wf(),
            MessageSpec::BlockInfo(bi) => bi.wf(),
            MessageSpec::WatcherEvent(ev) => ev.wf(),
        }
    }
}

/// Wire form of a message: its discriminant byte, then its payload.
pub open spec fn spec_encode_message(m: MessageSpec) -> Seq<u8> {
    match m {
        MessageSpec::Hello(h) => seq![0u8] + spec_encode_hello(h),
        MessageSpec::FolderIndex(entries) => seq![1u8] + spec_encode_folder_index(entries),
        MessageSpec::FileInfo(f) => seq![2u8] + spec_encode_file_info(f),
        MessageSpec::BlockInfo(bi) => seq![3u8] + spec_encode_block_info(bi),
        MessageSpec::WatcherEvent(ev) => seq![4u8] + spec_encode_change_event(ev),
    }
}

/// A message at position `i`: the discriminant byte selects the payload
/// decoder; an unknown discriminant is fatal.
pub open spec fn spec_parse_message(b: Seq<u8>, i: int) -> SpecDecoded<MessageSpec> {
    match spec_parse_u8(b, i) {
        SpecDecoded::Parsed { value: tag, next: j } => {
            if tag == 0 {
                match spec_parse_hello(b, j) {
                    SpecDecoded::Parsed { value, next } => SpecDecoded::Parsed {
                        value: MessageSpec::Hello(value),
                        next,
                    },
                    SpecDecoded::Incomplete => SpecDecoded::Incomplete,
                    SpecDecoded::Fatal(e) => SpecDecoded::Fatal(e),
                }
            } else if tag == 1 {
                match spec_parse_folder_index(b, j) {
                    SpecDecoded::Parsed { value, next } => SpecDecoded::Parsed {
                        value: MessageSpec::FolderIndex(value),
                        next,
                    },
                    SpecDecoded::Incomplete => SpecDecoded::Incomplete,
                    SpecDecoded::Fatal(e) => SpecDecoded::Fatal(e),
                }
            } else if tag == 2 {
                match spec_parse_file_info(b, j) {
                    SpecDecoded::Parsed { value, next } => SpecDecoded::Parsed {
                        value: MessageSpec::FileInfo(value),
                        next,
                    },
                    SpecDecoded::Incomplete => SpecDecoded::Incomplete,
                    SpecDecoded::Fatal(e) => SpecDecoded::Fatal(e),
                }
            } else if tag == 3 {
                match spec_parse_block_info(b, j) {
                    SpecDecoded::Parsed { value, next } => SpecDecoded::Parsed {
                        value: MessageSpec::BlockInfo(value),
                        next,
                    },
                    SpecDecoded::Incomplete => SpecDecoded::Incomplete,
                    SpecDecoded::Fatal(e) => SpecDecoded::Fatal(e),
                }
            } else if tag == 4 {
                match spec_parse_change_event(b, j) {
                    SpecDecoded::Parsed { value, next } => SpecDecoded::Parsed {
                        value: MessageSpec::WatcherEvent(value),
                        next,
                    },
                    SpecDecoded::Incomplete => SpecDecoded::Incomplete,
                    SpecDecoded::Fatal(e) => SpecDecoded::Fatal(e),
                }
            } else {
                SpecDecoded::Fatal(DecodeError::UnknownTag)
            }
        },
        SpecDecoded::Incomplete => SpecDecoded::Incomplete,
        SpecDecoded::Fatal(e) => SpecDecoded::Fatal(e),
    }
}

/// Appends the wire form of `m` to `out`. Fails, appending nothing, exactly
/// when the payload cannot be carried on the wire.
pub fn encode_message(m: &Message, out: &mut Vec<u8>) -> (r: Result<(), EncodeError>)
    ensures
        r is Ok <==> m@.wf(),
        r is Ok ==> final(out)@ == old(out)@ + spec_encode_message(m@),
        r is Err ==> final(out)@ == old(out)@,
{
    let mut body: Vec<u8> = Vec::new();
    let tag: u8 = match m {
        Message::Hello(h) => {
            match encode_hello(h, &mut body) {
                Ok(()) => {},
                Err(e) => {
                    return Err(e);
                },
            }
            0
        },
        Message::FolderIndex(idx) => {
            proof {
                vstd::std_specs::vec::axiom_spec_len(&idx.entries);
                assert(idx@.len() == idx.entries@.len());
            }
            match encode_folder_index(idx, &mut body) {
                Ok(()) => {},
                Err(e) => {
                    return Err(e);
                },
            }
            1
        },
        Message::FileInfo(f) => {
            match encode_file_info(f, &mut body) {
                Ok(()) => {},
                Err(e) => {
                    return Err(e);
                },
            }
            2
        },
        Message::BlockInfo(bi) => {
            if bi.path_id.len() != PATH_ID_SIZE {
                return Err(EncodeError::InvalidPathId);
            }
            encode_block_info(bi, &mut body);
            3
        },
        Message::WatcherEvent(ev) => {
            match encode_change_event(ev, &mut body) {
                Ok(()) => {},
                Err(e) => {
                    return Err(e);
                },
            }
            4
        },
    };
    append_u8(out, tag);
    let mut body_tail = body;
    out.append(&mut body_tail);
    proof {
        assert(out@ =~= old(out)@ + spec_encode_message(m@));
    }
    Ok(())
}

/// Reads one message.
pub fn decode_message(buf: &[u8], start: usize) -> (r: Decoded<Message>)
    requires
        start <= buf@.len(),
    ensures
        decoded_matches_view(r, spec_parse_message(buf@, start as int)),
        r matches Decoded::Parsed { value, next } ==> next <= buf@.len(),
{
    let (tag, j) = match parse_u8(buf, start) {
        Decoded::Parsed { value, next } => (value, next),
        Decoded::Incomplete => {
            return Decoded::Incomplete;
        },
        Decoded::Fatal(e) => {
            return Decoded::Fatal(e);
        },
    };
    if tag == 0 {
        match decode_hello(buf, j) {
            Decoded::Parsed { value, next } => Decoded::Parsed {
                value: Message::Hello(value),
                next,
            },
            Decoded::Incomplete => Decoded::Incomplete,
            Decoded::Fatal(e) => Decoded::Fatal(e),
        }
    } else if tag == 1 {
        match decode_folder_index(buf, j) {
            Decoded::Parsed { value, next } => Decoded::Parsed {
                value: Message::FolderIndex(value),
                next,
            },
            Decoded::Incomplete => Decoded::Incomplete,
            Decoded::Fatal(e) => Decoded::Fatal(e),
        }
    } else if tag == 2 {
        match decode_file_info(buf, j) {
            Decoded::Parsed { value, next } => Decoded::Parsed {
                value: Message::FileInfo(value),
                next,
            },
            Decoded::Incomplete => Decoded::Incomplete,
            Decoded::Fatal(e) => Decoded::Fatal(e),
        }
    } else if tag == 3 {
        match decode_block_info(buf, j) {
            Decoded::Parsed { value, next } => Decoded::Parsed {
                value: Message::BlockInfo(value),
                next,
            },
            Decoded::Incomplete => Decoded::Incomplete,
            Decoded::Fatal(e) => Decoded::Fatal(e),
        }
    } else if tag == 4 {
        match decode_change_event(buf, j) {
            Decoded::Parsed { value, next } => Decoded::Parsed {
                value: Message::WatcherEvent(value),
                next,
            },
            Decoded::Incomplete => Decoded::Incomplete,
            Decoded::Fatal(e) => Decoded::Fatal(e),
        }
    } else {
        Decoded::Fatal(DecodeError::UnknownTag)
    }
}

/// Round-trip law for protocol messages: decoding any buffer that carries
/// the encoding of a well-formed message at position `i` yields exactly
/// that message and consumes exactly its encoding, whatever bytes follow.
pub proof fn lemma_message_round_trip(m: MessageSpec, b: Seq<u8>, i: int)
    requires
        m.wf(),
        0 <= i,
        i + spec_encode_message(m).len() <= b.len(),
        b.subrange(i, i + spec_encode_message(m).len() as int) == spec_encode_message(m),
    ensures
        spec_parse_message(b, i) == (SpecDecoded::Parsed {
            value: m,
            next: i + spec_encode_message(m).len(),
        }),
{
    let e = spec_encode_message(m);
    assert(b[i] == b.subrange(i, i + e.len() as int)[0]);
    match m {
        MessageSpec::Hello(h) => {
            let body = spec_encode_hello(h);
            assert(e.subrange(1, e.len() as int) =~= body);
            lemma_subrange_within(b, i, e, 1, e.len() as int);
            lemma_hello_round_trip(h, b, i + 1);
        },
        MessageSpec::FolderIndex(entries) => {
            let body = spec_encode_folder_index(entries);
            assert(e.subrange(1, e.len() as int) =~= body);
            lemma_subrange_within(b, i, e, 1, e.len() as int);
            lemma_folder_index_round_trip(entries, b, i + 1);
        },
        MessageSpec::FileInfo(f) => {
            let body = spec_encode_file_info(f);
            assert(e.subrange(1, e.len() as int) =~= body);
            lemma_subrange_within(b, i, e, 1, e.len() as int);
            lemma_file_info_round_trip(f, b, i + 1);
        },
        MessageSpec::BlockInfo(bi) => {
            let body = spec_encode_block_info(bi);
            assert(e.subrange(1, e.len() as int) =~= body);
            lemma_subrange_within(b, i, e, 1, e.len() as int);
            lemma_block_info_round_trip(bi, b, i + 1);
        },
        MessageSpec::WatcherEvent(ev) => {
            let body = spec_encode_change_event(ev);
            assert(e.subrange(1, e.len() as int) =~= body);
            lemma_subrange_within(b, i, e, 1, e.len() as int);
            lemma_change_event_round_trip(ev, b, i + 1);
        },
    }
}

} // verus!
