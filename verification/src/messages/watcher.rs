//! File-change events and their wire codec.
//!
//! The watcher's event kinds form a small tree of discriminated variants,
//! one type per level, so the codec stays exhaustive and symmetric.
//!
//! Wire layout: `kind(1)` · kind-specific sub-discriminant (1, where the
//! kind carries one) · `pathCount(1)` · paths (each `len(4 LE)` + UTF-8
//! bytes).

use crate::messages::wire::{
    append_u8, decoded_matches, decoded_matches_view, encode_string, lemma_compose_assoc,
    lemma_compose_empty, lemma_parse_string_encoding, lemma_parse_u8_encoding,
    lemma_subrange_within, parse_string, parse_u8, spec_compose, spec_encode_string,
    spec_parse_string, spec_parse_u8, Decoded, DecodeError, EncodeError, SpecDecoded,
    MAX_FRAME_SIZE,
};
use vstd::prelude::*;
use vstd::utf8::encode_utf8;

verus! {

/// How a watched file was accessed.
#[derive(Debug, PartialEq, Eq, Structural, Clone, Copy)]
pub enum AccessMode {
    Any,
    Execute,
    Read,
    Write,
    Other,
}

/// Access-event detail.
#[derive(Debug, PartialEq, Eq, Structural, Clone, Copy)]
pub enum AccessKind {
    Any,
    Read,
    Open(AccessMode),
    Close(AccessMode),
    Other,
}

/// Creation-event detail.
#[derive(Debug, PartialEq, Eq, Structural, Clone, Copy)]
pub enum CreateKind {
    Any,
    File,
    Folder,
    Other,
}

/// What part of a file's data changed.
#[derive(Debug, PartialEq, Eq, Structural, Clone, Copy)]
pub enum DataChange {
    Any,
    Size,
    Content,
    Other,
}

/// What part of a file's metadata changed.
#[derive(Debug, PartialEq, Eq, Structural, Clone, Copy)]
pub enum MetadataKind {
    Any,
    AccessTime,
    WriteTime,
    Permissions,
    Ownership,
    Extended,
    Other,
}

/// How a rename touched the watched path.
#[derive(Debug, PartialEq, Eq, Structural, Clone, Copy)]
pub enum RenameMode {
    Any,
    To,
    From,
    Both,
    Other,
}

/// Modification-event detail.
#[derive(Debug, PartialEq, Eq, Structural, Clone, Copy)]
pub enum ModifyKind {
    Any,
    Data(DataChange),
    Metadata(MetadataKind),
    Name(RenameMode),
    Other,
}

/// Removal-event detail.
#[derive(Debug, PartialEq, Eq, Structural, Clone, Copy)]
pub enum RemoveKind {
    Any,
    File,
    Folder,
    Other,
}

/// Top-level kind of a file-change event.
#[derive(Debug, PartialEq, Eq, Structural, Clone, Copy)]
pub enum EventKind {
    Any,
    Access(AccessKind),
    Create(CreateKind),
    Modify(ModifyKind),
    Remove(RemoveKind),
    Other,
}

/// One file-change event: its kind and the affected paths. Produced by the
/// watcher collaborator, processed and discarded.
#[derive(Debug, PartialEq, Eq, Clone)]
pub struct ChangeEvent {
    pub kind: EventKind,
    pub paths: Vec<String>,
}

/// Mathematical value of a [`ChangeEvent`].
pub struct ChangeEventSpec {
    pub kind: EventKind,
    pub paths: Seq<Seq<char>>,
}

impl View for ChangeEvent {
    type V = ChangeEventSpec;

    open spec fn view(&self) -> ChangeEventSpec {
        ChangeEventSpec { kind: self.kind, paths: self.paths@.map_values(|p: String| p@) }
    }
}

impl ChangeEventSpec {
    /// The path count fits its single byte, and every path fits its 4-byte
    /// length field and the frame-size bound.
    pub open spec fn wf(self) -> bool {
        &&& self.paths.len() <= 255
        &&& forall|j: int|
            0 <= j < self.paths.len() ==> encode_utf8(#[trigger] self.paths[j]).len()
                <= MAX_FRAME_SIZE
    }
}

impl ChangeEvent {
    /// Builds an event from its parts.
    pub fn new(kind: EventKind, paths: Vec<String>) -> (r: ChangeEvent)
        ensures
            r@ == (ChangeEventSpec { kind, paths: paths@.map_values(|p: String| p@) }),
    {
        ChangeEvent { kind, paths }
    }

    /// The event's kind.
    pub fn kind(&self) -> (r: EventKind)
        ensures
            r == self@.kind,
    {
        self.kind
    }

    /// The affected paths.
    pub fn paths(&self) -> (r: &Vec<String>)
        ensures
            r@.map_values(|p: String| p@) == self@.paths,
    {
        &self.paths
    }

    /// See [`ChangeEventSpec::wf`].
    pub open spec fn wf(self) -> bool {
        self@.wf()
    }
}

/// Wire form of an event kind: its discriminant byte, then the
/// sub-discriminant byte where the kind carries one.
pub open spec fn spec_encode_kind(kind: EventKind) -> Seq<u8> {
    match kind {
        EventKind::Any => seq![0u8],
        EventKind::Access(a) => seq![1u8] + match a {
            AccessKind::Any => seq![0u8],
            AccessKind::Read => seq![1u8],
            AccessKind::Open(m) => seq![2u8, spec_access_mode_byte(m)],
            AccessKind::Close(m) => seq![3u8, spec_access_mode_byte(m)],
            AccessKind::Other => seq![4u8],
        },
        EventKind::Create(c) => seq![
            2u8,
            match c {
                CreateKind::Any => 0u8,
                CreateKind::File => 1u8,
                CreateKind::Folder => 2u8,
                CreateKind::Other => 3u8,
            },
        ],
        EventKind::Modify(m) => seq![3u8] + match m {
            ModifyKind::Any => seq![0u8],
            ModifyKind::Data(d) => seq![
                1u8,
                match d {
                    DataChange::Any => 0u8,
                    DataChange::Size => 1u8,
                    DataChange::Content => 2u8,
                    DataChange::Other => 3u8,
                },
            ],
            ModifyKind::Metadata(md) => seq![
                2u8,
                match md {
                    MetadataKind::Any => 0u8,
                    MetadataKind::AccessTime => 1u8,
                    MetadataKind::WriteTime => 2u8,
                    MetadataKind::Permissions => 3u8,
                    MetadataKind::Ownership => 4u8,
                    MetadataKind::Extended => 5u8,
                    MetadataKind::Other => 6u8,
                },
            ],
            ModifyKind::Name(rm) => seq![
                3u8,
                match rm {
                    RenameMode::Any => 0u8,
                    RenameMode::To => 1u8,
                    RenameMode::From => 2u8,
                    RenameMode::Both => 3u8,
                    RenameMode::Other => 4u8,
                },
            ],
            ModifyKind::Other => seq![4u8],
        },
        EventKind::Remove(rk) => seq![
            4u8,
            match rk {
                RemoveKind::Any => 0u8,
                RemoveKind::File => 1u8,
                RemoveKind::Folder => 2u8,
                RemoveKind::Other => 3u8,
            },
        ],
        EventKind::Other => seq![5u8],
    }
}

/// Wire byte of an access mode.
pub open spec fn spec_access_mode_byte(m: AccessMode) -> u8 {
    match m {
        AccessMode::Any => 0u8,
        AccessMode::Execute => 1u8,
        AccessMode::Read => 2u8,
        AccessMode::Write => 3u8,
        AccessMode::Other => 4u8,
    }
}

/// An access mode at position `i`.
pub open spec fn spec_parse_access_mode(b: Seq<u8>, i: int) -> SpecDecoded<AccessMode> {
    match spec_parse_u8(b, i) {
        SpecDecoded::Parsed { value, next } => {
            if value == 0 {
                SpecDecoded::Parsed { value: AccessMode::Any, next }
            } else if value == 1 {
                SpecDecoded::Parsed { value: AccessMode::Execute, next }
            } else if value == 2 {
                SpecDecoded::Parsed { value: AccessMode::Read, next }
            } else if value == 3 {
                SpecDecoded::Parsed { value: AccessMode::Write, next }
            } else if value == 4 {
                SpecDecoded::Parsed { value: AccessMode::Other, next }
            } else {
                SpecDecoded::Fatal(DecodeError::UnknownTag)
            }
        },
        SpecDecoded::Incomplete => SpecDecoded::Incomplete,
        SpecDecoded::Fatal(e) => SpecDecoded::Fatal(e),
    }
}

/// An event kind at position `i`: the discriminant byte, then the
/// sub-discriminant where the kind carries one. An unknown discriminant is
/// fatal.
pub open spec fn spec_parse_kind(b: Seq<u8>, i: int) -> SpecDecoded<EventKind> {
    match spec_parse_u8(b, i) {
        SpecDecoded::Parsed { value: tag, next: j } => {
            if tag == 0 {
                SpecDecoded::Parsed { value: EventKind::Any, next: j }
            } else if tag == 1 {
                match spec_parse_u8(b, j) {
                    SpecDecoded::Parsed { value: sub, next: k } => {
                        if sub == 0 {
                            SpecDecoded::Parsed { value: EventKind::Access(AccessKind::Any), next: k }
                        } else if sub == 1 {
                            SpecDecoded::Parsed {
                                value: EventKind::Access(AccessKind::Read),
                                next: k,
                            }
                        } else if sub == 2 {
                            match spec_parse_access_mode(b, k) {
                                SpecDecoded::Parsed { value: m, next: l } => SpecDecoded::Parsed {
                                    value: EventKind::Access(AccessKind::Open(m)),
                                    next: l,
                                },
                                SpecDecoded::Incomplete => SpecDecoded::Incomplete,
                                SpecDecoded::Fatal(e) => SpecDecoded::Fatal(e),
                            }
                        } else if sub == 3 {
                            match spec_parse_access_mode(b, k) {
                                SpecDecoded::Parsed { value: m, next: l } => SpecDecoded::Parsed {
                                    value: EventKind::Access(AccessKind::Close(m)),
                                    next: l,
                                },
                                SpecDecoded::Incomplete => SpecDecoded::Incomplete,
                                SpecDecoded::Fatal(e) => SpecDecoded::Fatal(e),
                            }
                        } else if sub == 4 {
                            SpecDecoded::Parsed {
                                value: EventKind::Access(AccessKind::Other),
                                next: k,
                            }
                        } else {
                            SpecDecoded::Fatal(DecodeError::UnknownTag)
                        }
                    },
                    SpecDecoded::Incomplete => SpecDecoded::Incomplete,
                    SpecDecoded::Fatal(e) => SpecDecoded::Fatal(e),
                }
            } else if tag == 2 {
                match spec_parse_u8(b, j) {
                    SpecDecoded::Parsed { value: sub, next: k } => {
                        if sub == 0 {
                            SpecDecoded::Parsed { value: EventKind::Create(CreateKind::Any), next: k }
                        } else if sub == 1 {
                            SpecDecoded::Parsed {
                                value: EventKind::Create(CreateKind::File),
                                next: k,
                            }
                        } else if sub == 2 {
                            SpecDecoded::Parsed {
                                value: EventKind::Create(CreateKind::Folder),
                                next: k,
                            }
                        } else if sub == 3 {
                            SpecDecoded::Parsed {
                                value: EventKind::Create(CreateKind::Other),
                                next: k,
                            }
                        } else {
                            SpecDecoded::Fatal(DecodeError::UnknownTag)
                        }
                    },
                    SpecDecoded::Incomplete => SpecDecoded::Incomplete,
                    SpecDecoded::Fatal(e) => SpecDecoded::Fatal(e),
                }
            } else if tag == 3 {
                match spec_parse_u8(b, j) {
                    SpecDecoded::Parsed { value: sub, next: k } => {
                        if sub == 0 {
                            SpecDecoded::Parsed { value: EventKind::Modify(ModifyKind::Any), next: k }
                        } else if sub == 1 {
                            match spec_parse_u8(b, k) {
                                SpecDecoded::Parsed { value: d, next: l } => {
                                    if d == 0 {
                                        SpecDecoded::Parsed {
                                            value: EventKind::Modify(ModifyKind::Data(DataChange::Any)),
                                            next: l,
                                        }
                                    } else if d == 1 {
                                        SpecDecoded::Parsed {
                                            value: EventKind::Modify(ModifyKind::Data(DataChange::Size)),
                                            next: l,
                                        }
                                    } else if d == 2 {
                                        SpecDecoded::Parsed {
                                            value: EventKind::Modify(
                                                ModifyKind::Data(DataChange::Content),
                                            ),
                                            next: l,
                                        }
                                    } else if d == 3 {
                                        SpecDecoded::Parsed {
                                            value: EventKind::Modify(ModifyKind::Data(DataChange::Other)),
                                            next: l,
                                        }
                                    } else {
                                        SpecDecoded::Fatal(DecodeError::UnknownTag)
                                    }
                                },
                                SpecDecoded::Incomplete => SpecDecoded::Incomplete,
                                SpecDecoded::Fatal(e) => SpecDecoded::Fatal(e),
                            }
                        } else if sub == 2 {
                            match spec_parse_u8(b, k) {
                                SpecDecoded::Parsed { value: md, next: l } => {
                                    if md == 0 {
                                        SpecDecoded::Parsed {
                                            value: EventKind::Modify(
                                                ModifyKind::Metadata(MetadataKind::Any),
                                            ),
                                            next: l,
                                        }
                                    } else if md == 1 {
                                        SpecDecoded::Parsed {
                                            value: EventKind::Modify(
                                                ModifyKind::Metadata(MetadataKind::AccessTime),
                                            ),
                                            next: l,
                                        }
                                    } else if md == 2 {
                                        SpecDecoded::Parsed {
                                            value: EventKind::Modify(
                                                ModifyKind::Metadata(MetadataKind::WriteTime),
                                            ),
                                            next: l,
                                        }
                                    } else if md == 3 {
                                        SpecDecoded::Parsed {
                                            value: EventKind::Modify(
                                                ModifyKind::Metadata(MetadataKind::Permissions),
                                            ),
                                            next: l,
                                        }
                                    } else if md == 4 {
                                        SpecDecoded::Parsed {
                                            value: EventKind::Modify(
                                                ModifyKind::Metadata(MetadataKind::Ownership),
                                            ),
                                            next: l,
                                        }
                                    } else if md == 5 {
                                        SpecDecoded::Parsed {
                                            value: EventKind::Modify(
                                                ModifyKind::Metadata(MetadataKind::Extended),
                                            ),
                                            next: l,
                                        }
                                    } else if md == 6 {
                                        SpecDecoded::Parsed {
                                            value: EventKind::Modify(
                                                ModifyKind::Metadata(MetadataKind::Other),
                                            ),
                                            next: l,
                                        }
                                    } else {
                                        SpecDecoded::Fatal(DecodeError::UnknownTag)
                                    }
                                },
                                SpecDecoded::Incomplete => SpecDecoded::Incomplete,
                                SpecDecoded::Fatal(e) => SpecDecoded::Fatal(e),
                            }
                        } else if sub == 3 {
                            match spec_parse_u8(b, k) {
                                SpecDecoded::Parsed { value: rm, next: l } => {
                                    if rm == 0 {
                                        SpecDecoded::Parsed {
                                            value: EventKind::Modify(ModifyKind::Name(RenameMode::Any)),
                                            next: l,
                                        }
                                    } else if rm == 1 {
                                        SpecDecoded::Parsed {
                                            value: EventKind::Modify(ModifyKind::Name(RenameMode::To)),
                                            next: l,
                                        }
                                    } else if rm == 2 {
                                        SpecDecoded::Parsed {
                                            value: EventKind::Modify(ModifyKind::Name(RenameMode::From)),
                                            next: l,
                                        }
                                    } else if rm == 3 {
                                        SpecDecoded::Parsed {
                                            value: EventKind::Modify(ModifyKind::Name(RenameMode::Both)),
                                            next: l,
                                        }
                                    } else if rm == 4 {
                                        SpecDecoded::Parsed {
                                            value: EventKind::Modify(ModifyKind::Name(RenameMode::Other)),
                                            next: l,
                                        }
                                    } else {
                                        SpecDecoded::Fatal(DecodeError::UnknownTag)
                                    }
                                },
                                SpecDecoded::Incomplete => SpecDecoded::Incomplete,
                                SpecDecoded::Fatal(e) => SpecDecoded::Fatal(e),
                            }
                        } else if sub == 4 {
                            SpecDecoded::Parsed {
                                value: EventKind::Modify(ModifyKind::Other),
                                next: k,
                            }
                        } else {
                            SpecDecoded::Fatal(DecodeError::UnknownTag)
                        }
                    },
                    SpecDecoded::Incomplete => SpecDecoded::Incomplete,
                    SpecDecoded::Fatal(e) => SpecDecoded::Fatal(e),
                }
            } else if tag == 4 {
                match spec_parse_u8(b, j) {
                    SpecDecoded::Parsed { value: sub, next: k } => {
                        if sub == 0 {
                            SpecDecoded::Parsed { value: EventKind::Remove(RemoveKind::Any), next: k }
                        } else if sub == 1 {
                            SpecDecoded::Parsed {
                                value: EventKind::Remove(RemoveKind::File),
                                next: k,
                            }
                        } else if sub == 2 {
                            SpecDecoded::Parsed {
                                value: EventKind::Remove(RemoveKind::Folder),
                                next: k,
                            }
                        } else if sub == 3 {
                            SpecDecoded::Parsed {
                                value: EventKind::Remove(RemoveKind::Other),
                                next: k,
                            }
                        } else {
                            SpecDecoded::Fatal(DecodeError::UnknownTag)
                        }
                    },
                    SpecDecoded::Incomplete => SpecDecoded::Incomplete,
                    SpecDecoded::Fatal(e) => SpecDecoded::Fatal(e),
                }
            } else if tag == 5 {
                SpecDecoded::Parsed { value: EventKind::Other, next: j }
            } else {
                SpecDecoded::Fatal(DecodeError::UnknownTag)
            }
        },
        SpecDecoded::Incomplete => SpecDecoded::Incomplete,
        SpecDecoded::Fatal(e) => SpecDecoded::Fatal(e),
    }
}

/// Appends the wire form of an access mode to `out`.
fn encode_access_mode(m: AccessMode, out: &mut Vec<u8>)
    ensures
        final(out)@ == old(out)@ + seq![spec_access_mode_byte(m)],
{
    match m {
        AccessMode::Any => append_u8(out, 0),
        AccessMode::Execute => append_u8(out, 1),
        AccessMode::Read => append_u8(out, 2),
        AccessMode::Write => append_u8(out, 3),
        AccessMode::Other => append_u8(out, 4),
    }
}

/// Appends the wire form of an event kind to `out`.
pub fn encode_kind(kind: EventKind, out: &mut Vec<u8>)
    ensures
        final(out)@ == old(out)@ + spec_encode_kind(kind),
{
    match kind {
        EventKind::Any => append_u8(out, 0),
        EventKind::Access(a) => {
            append_u8(out, 1);
            match a {
                AccessKind::Any => append_u8(out, 0),
                AccessKind::Read => append_u8(out, 1),
                AccessKind::Open(m) => {
                    append_u8(out, 2);
                    encode_access_mode(m, out);
                },
                AccessKind::Close(m) => {
                    append_u8(out, 3);
                    encode_access_mode(m, out);
                },
                AccessKind::Other => append_u8(out, 4),
            }
        },
        EventKind::Create(c) => {
            append_u8(out, 2);
            match c {
                CreateKind::Any => append_u8(out, 0),
                CreateKind::File => append_u8(out, 1),
                CreateKind::Folder => append_u8(out, 2),
                CreateKind::Other => append_u8(out, 3),
            }
        },
        EventKind::Modify(m) => {
            append_u8(out, 3);
            match m {
                ModifyKind::Any => append_u8(out, 0),
                ModifyKind::Data(d) => {
                    append_u8(out, 1);
                    match d {
                        DataChange::Any => append_u8(out, 0),
                        DataChange::Size => append_u8(out, 1),
                        DataChange::Content => append_u8(out, 2),
                        DataChange::Other => append_u8(out, 3),
                    }
                },
                ModifyKind::Metadata(md) => {
                    append_u8(out, 2);
                    match md {
                        MetadataKind::Any => append_u8(out, 0),
                        MetadataKind::AccessTime => append_u8(out, 1),
                        MetadataKind::WriteTime => append_u8(out, 2),
                        MetadataKind::Permissions => append_u8(out, 3),
                        MetadataKind::Ownership => append_u8(out, 4),
                        MetadataKind::Extended => append_u8(out, 5),
                        MetadataKind::Other => append_u8(out, 6),
                    }
                },
                ModifyKind::Name(rm) => {
                    append_u8(out, 3);
                    match rm {
                        RenameMode::Any => append_u8(out, 0),
                        RenameMode::To => append_u8(out, 1),
                        RenameMode::From => append_u8(out, 2),
                        RenameMode::Both => append_u8(out, 3),
                        RenameMode::Other => append_u8(out, 4),
                    }
                },
                ModifyKind::Other => append_u8(out, 4),
            }
        },
        EventKind::Remove(rk) => {
            append_u8(out, 4);
            match rk {
                RemoveKind::Any => append_u8(out, 0),
                RemoveKind::File => append_u8(out, 1),
                RemoveKind::Folder => append_u8(out, 2),
                RemoveKind::Other => append_u8(out, 3),
            }
        },
        EventKind::Other => append_u8(out, 5),
    }
    proof {
        assert(out@ =~= old(out)@ + spec_encode_kind(kind));
    }
}

/// Reads an access mode.
fn parse_access_mode(buf: &[u8], start: usize) -> (r: Decoded<AccessMode>)
    requires
        start <= buf@.len(),
    ensures
        decoded_matches(r, spec_parse_access_mode(buf@, start as int)),
{
    let (tag, next) = match parse_u8(buf, start) {
        Decoded::Parsed { value, next } => (value, next),
        Decoded::Incomplete => {
            return Decoded::Incomplete;
        },
        Decoded::Fatal(e) => {
            return Decoded::Fatal(e);
        },
    };
    if tag == 0 {
        Decoded::Parsed { value: AccessMode::Any, next }
    } else if tag == 1 {
        Decoded::Parsed { value: AccessMode::Execute, next }
    } else if tag == 2 {
        Decoded::Parsed { value: AccessMode::Read, next }
    } else if tag == 3 {
        Decoded::Parsed { value: AccessMode::Write, next }
    } else if tag == 4 {
        Decoded::Parsed { value: AccessMode::Other, next }
    } else {
        Decoded::Fatal(DecodeError::UnknownTag)
    }
}

/// Reads an event kind.
pub fn parse_kind(buf: &[u8], start: usize) -> (r: Decoded<EventKind>)
    requires
        start <= buf@.len(),
    ensures
        decoded_matches(r, spec_parse_kind(buf@, start as int)),
{
    let (tag, j) = match parse_u8(buf, start) {
        Decoded::Parsed { value, next } => (value, next),
        Decoded::Incomplete => {
            return Decoded::Incomplete;
        },
        Decoded::Fatal(e) => {
            return Decoded::Fatal(e);
        },
    };
    if tag == 0 {
        return Decoded::Parsed { value: EventKind::Any, next: j };
    }
    if tag == 5 {
        return Decoded::Parsed { value: EventKind::Other, next: j };
    }
    if tag > 5 {
        return Decoded::Fatal(DecodeError::UnknownTag);
    }
    let (sub, k) = match parse_u8(buf, j) {
        Decoded::Parsed { value, next } => (value, next),
        Decoded::Incomplete => {
            return Decoded::Incomplete;
        },
        Decoded::Fatal(e) => {
            return Decoded::Fatal(e);
        },
    };
    if tag == 1 {
        if sub == 0 {
            Decoded::Parsed { value: EventKind::Access(AccessKind::Any), next: k }
        } else if sub == 1 {
            Decoded::Parsed { value: EventKind::Access(AccessKind::Read), next: k }
        } else if sub == 2 || sub == 3 {
            let (m, l) = match parse_access_mode(buf, k) {
                Decoded::Parsed { value, next } => (value, next),
                Decoded::Incomplete => {
                    return Decoded::Incomplete;
                },
                Decoded::Fatal(e) => {
                    return Decoded::Fatal(e);
                },
            };
            if sub == 2 {
                Decoded::Parsed { value: EventKind::Access(AccessKind::Open(m)), next: l }
            } else {
                Decoded::Parsed { value: EventKind::Access(AccessKind::Close(m)), next: l }
            }
        } else if sub == 4 {
            Decoded::Parsed { value: EventKind::Access(AccessKind::Other), next: k }
        } else {
            Decoded::Fatal(DecodeError::UnknownTag)
        }
    } else if tag == 2 {
        if sub == 0 {
            Decoded::Parsed { value: EventKind::Create(CreateKind::Any), next: k }
        } else if sub == 1 {
            Decoded::Parsed { value: EventKind::Create(CreateKind::File), next: k }
        } else if sub == 2 {
            Decoded::Parsed { value: EventKind::Create(CreateKind::Folder), next: k }
        } else if sub == 3 {
            Decoded::Parsed { value: EventKind::Create(CreateKind::Other), next: k }
        } else {
            Decoded::Fatal(DecodeError::UnknownTag)
        }
    } else if tag == 3 {
        if sub == 0 {
            Decoded::Parsed { value: EventKind::Modify(ModifyKind::Any), next: k }
        } else if sub == 4 {
            Decoded::Parsed { value: EventKind::Modify(ModifyKind::Other), next: k }
        } else if sub == 1 || sub == 2 || sub == 3 {
            let (detail, l) = match parse_u8(buf, k) {
                Decoded::Parsed { value, next } => (value, next),
                Decoded::Incomplete => {
                    return Decoded::Incomplete;
                },
                Decoded::Fatal(e) => {
                    return Decoded::Fatal(e);
                },
            };
            if sub == 1 {
                if detail == 0 {
                    Decoded::Parsed { value: EventKind::Modify(ModifyKind::Data(DataChange::Any)), next: l }
                } else if detail == 1 {
                    Decoded::Parsed {
                        value: EventKind::Modify(ModifyKind::Data(DataChange::Size)),
                        next: l,
                    }
                } else if detail == 2 {
                    Decoded::Parsed {
                        value: EventKind::Modify(ModifyKind::Data(DataChange::Content)),
                        next: l,
                    }
                } else if detail == 3 {
                    Decoded::Parsed {
                        value: EventKind::Modify(ModifyKind::Data(DataChange::Other)),
                        next: l,
                    }
                } else {
                    Decoded::Fatal(DecodeError::UnknownTag)
                }
            } else if sub == 2 {
                if detail == 0 {
                    Decoded::Parsed {
                        value: EventKind::Modify(ModifyKind::Metadata(MetadataKind::Any)),
                        next: l,
                    }
                } else if detail == 1 {
                    Decoded::Parsed {
                        value: EventKind::Modify(ModifyKind::Metadata(MetadataKind::AccessTime)),
                        next: l,
                    }
                } else if detail == 2 {
                    Decoded::Parsed {
                        value: EventKind::Modify(ModifyKind::Metadata(MetadataKind::WriteTime)),
                        next: l,
                    }
                } else if detail == 3 {
                    Decoded::Parsed {
                        value: EventKind::Modify(ModifyKind::Metadata(MetadataKind::Permissions)),
                        next: l,
                    }
                } else if detail == 4 {
                    Decoded::Parsed {
                        value: EventKind::Modify(ModifyKind::Metadata(MetadataKind::Ownership)),
                        next: l,
                    }
                } else if detail == 5 {
                    Decoded::Parsed {
                        value: EventKind::Modify(ModifyKind::Metadata(MetadataKind::Extended)),
                        next: l,
                    }
                } else if detail == 6 {
                    Decoded::Parsed {
                        value: EventKind::Modify(ModifyKind::Metadata(MetadataKind::Other)),
                        next: l,
                    }
                } else {
                    Decoded::Fatal(DecodeError::UnknownTag)
                }
            } else {
                if detail == 0 {
                    Decoded::Parsed { value: EventKind::Modify(ModifyKind::Name(RenameMode::Any)), next: l }
                } else if detail == 1 {
                    Decoded::Parsed {
                        value: EventKind::Modify(ModifyKind::Name(RenameMode::To)),
                        next: l,
                    }
                } else if detail == 2 {
                    Decoded::Parsed {
                        value: EventKind::Modify(ModifyKind::Name(RenameMode::From)),
                        next: l,
                    }
                } else if detail == 3 {
                    Decoded::Parsed {
                        value: EventKind::Modify(ModifyKind::Name(RenameMode::Both)),
                        next: l,
                    }
                } else if detail == 4 {
                    Decoded::Parsed {
                        value: EventKind::Modify(ModifyKind::Name(RenameMode::Other)),
                        next: l,
                    }
                } else {
                    Decoded::Fatal(DecodeError::UnknownTag)
                }
            }
        } else {
            Decoded::Fatal(DecodeError::UnknownTag)
        }
    } else {
        if sub == 0 {
            Decoded::Parsed { value: EventKind::Remove(RemoveKind::Any), next: k }
        } else if sub == 1 {
            Decoded::Parsed { value: EventKind::Remove(RemoveKind::File), next: k }
        } else if sub == 2 {
            Decoded::Parsed { value: EventKind::Remove(RemoveKind::Folder), next: k }
        } else if sub == 3 {
            Decoded::Parsed { value: EventKind::Remove(RemoveKind::Other), next: k }
        } else {
            Decoded::Fatal(DecodeError::UnknownTag)
        }
    }
}

/// Round-trip law for event kinds.
pub proof fn lemma_kind_round_trip(kind: EventKind, b: Seq<u8>, i: int)
    requires
        0 <= i,
        i + spec_encode_kind(kind).len() <= b.len(),
        b.subrange(i, i + spec_encode_kind(kind).len() as int) == spec_encode_kind(kind),
    ensures
        spec_parse_kind(b, i) == (SpecDecoded::Parsed {
            value: kind,
            next: i + spec_encode_kind(kind).len(),
        }),
{
    let e = spec_encode_kind(kind);
    assert(b[i] == b.subrange(i, i + e.len() as int)[0]);
    if e.len() >= 2 {
        assert(b[i + 1] == b.subrange(i, i + e.len() as int)[1]);
    }
    if e.len() >= 3 {
        assert(b[i + 2] == b.subrange(i, i + e.len() as int)[2]);
    }
}


/// Wire form of a path list, paths in order, each length-prefixed.
pub open spec fn spec_encode_paths(paths: Seq<Seq<char>>) -> Seq<u8>
    decreases paths.len(),
{
    if paths.len() == 0 {
        Seq::empty()
    } else {
        spec_encode_string(paths.first()) + spec_encode_paths(paths.drop_first())
    }
}

/// Exactly `count` length-prefixed paths at position `i`.
pub open spec fn spec_parse_paths(b: Seq<u8>, i: int, count: int) -> SpecDecoded<Seq<Seq<char>>>
    decreases count,
{
    if count <= 0 {
        SpecDecoded::Parsed { value: Seq::empty(), next: i }
    } else {
        match spec_parse_string(b, i) {
            SpecDecoded::Parsed { value: p, next: j } => spec_compose(
                seq![p],
                spec_parse_paths(b, j, count - 1),
            ),
            SpecDecoded::Incomplete => SpecDecoded::Incomplete,
            SpecDecoded::Fatal(e) => SpecDecoded::Fatal(e),
        }
    }
}

/// Wire form of a file-change event.
pub open spec fn spec_encode_change_event(ev: ChangeEventSpec) -> Seq<u8> {
    spec_encode_kind(ev.kind) + seq![ev.paths.len() as u8] + spec_encode_paths(ev.paths)
}

/// Wraps the outcome of parsing an event's paths into the outcome of
/// parsing the whole event.
pub open spec fn finish_event(kind: EventKind, r: SpecDecoded<Seq<Seq<char>>>) -> SpecDecoded<
    ChangeEventSpec,
> {
    match r {
        SpecDecoded::Parsed { value: paths, next } => SpecDecoded::Parsed {
            value: ChangeEventSpec { kind, paths },
            next,
        },
        SpecDecoded::Incomplete => SpecDecoded::Incomplete,
        SpecDecoded::Fatal(e) => SpecDecoded::Fatal(e),
    }
}

/// A file-change event at position `i`.
pub open spec fn spec_parse_change_event(b: Seq<u8>, i: int) -> SpecDecoded<ChangeEventSpec> {
    match spec_parse_kind(b, i) {
        SpecDecoded::Parsed { value: kind, next: j } => match spec_parse_u8(b, j) {
            SpecDecoded::Parsed { value: count, next: k } => finish_event(
                kind,
                spec_parse_paths(b, k, count as int),
            ),
            SpecDecoded::Incomplete => SpecDecoded::Incomplete,
            SpecDecoded::Fatal(e) => SpecDecoded::Fatal(e),
        },
        SpecDecoded::Incomplete => SpecDecoded::Incomplete,
        SpecDecoded::Fatal(e) => SpecDecoded::Fatal(e),
    }
}

/// Appending one path to a list appends its wire form to the list's.
proof fn lemma_encode_paths_push(s: Seq<Seq<char>>, p: Seq<char>)
    ensures
        spec_encode_paths(s.push(p)) == spec_encode_paths(s) + spec_encode_string(p),
    decreases s.len(),
{
    let t = s.push(p);
    assert(t.first() == if s.len() == 0 {
        p
    } else {
        s.first()
    });
    if s.len() == 0 {
        assert(t.drop_first() =~= Seq::<Seq<char>>::empty());
        assert(spec_encode_paths(t.drop_first()) == Seq::<u8>::empty());
        assert(spec_encode_paths(t) =~= spec_encode_paths(s) + spec_encode_string(p));
    } else {
        lemma_encode_paths_push(s.drop_first(), p);
        assert(t.drop_first() =~= s.drop_first().push(p));
        assert(spec_encode_paths(t) == spec_encode_string(s.first()) + (spec_encode_paths(
            s.drop_first(),
        ) + spec_encode_string(p)));
        assert(spec_encode_string(s.first()) + (spec_encode_paths(s.drop_first())
            + spec_encode_string(p)) =~= (spec_encode_string(s.first()) + spec_encode_paths(
            s.drop_first(),
        )) + spec_encode_string(p));
    }
}

/// Appends the wire form of `ev` to `out`. Fails, appending nothing,
/// exactly when the event holds more than 255 paths or some path exceeds
/// the frame-size bound.
pub fn encode_change_event(ev: &ChangeEvent, out: &mut Vec<u8>) -> (r: Result<(), EncodeError>)
    ensures
        r is Ok <==> ev.wf(),
        r is Ok ==> final(out)@ == old(out)@ + spec_encode_change_event(ev@),
        r is Err ==> final(out)@ == old(out)@,
{
    if ev.paths.len() > 255 {
        return Err(EncodeError::TooManyItems);
    }
    let mut k: usize = 0;
    while k < ev.paths.len()
        invariant
            k <= ev.paths@.len(),
            ev@.paths.len() == ev.paths@.len(),
            forall|j: int|
                0 <= j < k ==> encode_utf8(#[trigger] ev@.paths[j]).len() <= MAX_FRAME_SIZE,
        decreases ev.paths@.len() - k,
    {
        proof {
            assert(ev@.paths[k as int] == ev.paths@[k as int]@);
        }
        if ev.paths[k].as_str().as_bytes().len() > MAX_FRAME_SIZE {
            return Err(EncodeError::FrameTooLarge);
        }
        k = k + 1;
    }
    encode_kind(ev.kind, out);
    append_u8(out, ev.paths.len() as u8);
    let ghost mid = out@;
    let mut k2: usize = 0;
    while k2 < ev.paths.len()
        invariant
            k2 <= ev.paths@.len(),
            ev@.paths.len() == ev.paths@.len(),
            forall|j: int|
                0 <= j < ev@.paths.len() ==> encode_utf8(#[trigger] ev@.paths[j]).len()
                    <= MAX_FRAME_SIZE,
            out@ == mid + spec_encode_paths(ev@.paths.take(k2 as int)),
        decreases ev.paths@.len() - k2,
    {
        proof {
            assert(ev@.paths[k2 as int] == ev.paths@[k2 as int]@);
        }
        let _path_written = encode_string(out, ev.paths[k2].as_str());
        proof {
            lemma_encode_paths_push(ev@.paths.take(k2 as int), ev@.paths[k2 as int]);
            assert(ev@.paths.take(k2 as int).push(ev@.paths[k2 as int]) =~= ev@.paths.take(
                k2 + 1,
            ));
            assert(out@ =~= mid + spec_encode_paths(ev@.paths.take(k2 + 1)));
        }
        k2 = k2 + 1;
    }
    proof {
        assert(ev@.paths.take(ev@.paths.len() as int) =~= ev@.paths);
        assert(out@ =~= old(out)@ + spec_encode_change_event(ev@));
    }
    Ok(())
}

/// Reads one file-change event.
pub fn decode_change_event(buf: &[u8], start: usize) -> (r: Decoded<ChangeEvent>)
    requires
        start <= buf@.len(),
    ensures
        decoded_matches_view(r, spec_parse_change_event(buf@, start as int)),
        r matches Decoded::Parsed { value, next } ==> next <= buf@.len(),
{
    let (kind, after_kind) = match parse_kind(buf, start) {
        Decoded::Parsed { value, next } => (value, next),
        Decoded::Incomplete => {
            return Decoded::Incomplete;
        },
        Decoded::Fatal(e) => {
            return Decoded::Fatal(e);
        },
    };
    let (count, after_count) = match parse_u8(buf, after_kind) {
        Decoded::Parsed { value, next } => (value, next),
        Decoded::Incomplete => {
            return Decoded::Incomplete;
        },
        Decoded::Fatal(e) => {
            return Decoded::Fatal(e);
        },
    };
    let mut acc: Vec<String> = Vec::new();
    let mut cur = after_count;
    let mut k: u8 = 0;
    while k < count
        invariant
            k <= count,
            cur <= buf@.len(),
            spec_parse_change_event(buf@, start as int) == finish_event(
                kind,
                spec_parse_paths(buf@, after_count as int, count as int),
            ),
            spec_parse_paths(buf@, after_count as int, count as int) == spec_compose(
                acc@.map_values(|p: String| p@),
                spec_parse_paths(buf@, cur as int, count - k),
            ),
        decreases count - k,
    {
        let ghost pending = spec_parse_paths(buf@, cur as int, count - k);
        let (p, j) = match parse_string(buf, cur) {
            Decoded::Parsed { value, next } => (value, next),
            Decoded::Incomplete => {
                return Decoded::Incomplete;
            },
            Decoded::Fatal(e) => {
                return Decoded::Fatal(e);
            },
        };
        proof {
            assert(pending == spec_compose(
                seq![p@],
                spec_parse_paths(buf@, j as int, count - k - 1),
            ));
            lemma_compose_assoc(
                acc@.map_values(|p: String| p@),
                seq![p@],
                spec_parse_paths(buf@, j as int, count - k - 1),
            );
            assert(acc@.map_values(|p: String| p@) + seq![p@] =~= acc@.push(p).map_values(
                |p: String| p@,
            ));
        }
        acc.push(p);
        cur = j;
        k = k + 1;
    }
    proof {
        lemma_compose_empty(acc@.map_values(|p: String| p@), cur as int);
    }
    Decoded::Parsed { value: ChangeEvent { kind, paths: acc }, next: cur }
}

/// Round-trip law for path lists.
proof fn lemma_paths_round_trip(paths: Seq<Seq<char>>, b: Seq<u8>, i: int)
    requires
        0 <= i,
        forall|j: int|
            0 <= j < paths.len() ==> encode_utf8(#[trigger] paths[j]).len() <= MAX_FRAME_SIZE,
        i + spec_encode_paths(paths).len() <= b.len(),
        b.subrange(i, i + spec_encode_paths(paths).len() as int) == spec_encode_paths(paths),
    ensures
        spec_parse_paths(b, i, paths.len() as int) == (SpecDecoded::Parsed {
            value: paths,
            next: i + spec_encode_paths(paths).len(),
        }),
    decreases paths.len(),
{
    let e = spec_encode_paths(paths);
    if paths.len() == 0 {
        assert(e.len() == 0);
        assert(paths =~= Seq::<Seq<char>>::empty());
    } else {
        let first = spec_encode_string(paths.first());
        let fl = first.len() as int;
        let rest = spec_encode_paths(paths.drop_first());
        assert(e.subrange(0, fl) =~= first);
        lemma_subrange_within(b, i, e, 0, fl);
        assert(paths[0] == paths.first());
        lemma_parse_string_encoding(b, i, paths.first());
        assert(e.subrange(fl, e.len() as int) =~= rest);
        lemma_subrange_within(b, i, e, fl, e.len() as int);
        assert(forall|j: int|
            0 <= j < paths.drop_first().len() ==> encode_utf8(
                #[trigger] paths.drop_first()[j],
            ).len() <= MAX_FRAME_SIZE);
        lemma_paths_round_trip(paths.drop_first(), b, i + fl);
        let n = paths.len() as int;
        assert(spec_parse_paths(b, i, n) == spec_compose(
            seq![paths.first()],
            spec_parse_paths(b, i + fl, n - 1),
        ));
        assert(seq![paths.first()] + paths.drop_first() =~= paths);
    }
}

/// Round-trip law for file-change events: decoding any buffer that carries
/// the encoding of a well-formed event at position `i` yields exactly that
/// event and consumes exactly its encoding.
pub proof fn lemma_change_event_round_trip(ev: ChangeEventSpec, b: Seq<u8>, i: int)
    requires
        ev.wf(),
        0 <= i,
        i + spec_encode_change_event(ev).len() <= b.len(),
        b.subrange(i, i + spec_encode_change_event(ev).len() as int) == spec_encode_change_event(
            ev,
        ),
    ensures
        spec_parse_change_event(b, i) == (SpecDecoded::Parsed {
            value: ev,
            next: i + spec_encode_change_event(ev).len(),
        }),
{
    let e = spec_encode_change_event(ev);
    let kind = spec_encode_kind(ev.kind);
    let kl = kind.len() as int;
    let paths = spec_encode_paths(ev.paths);
    assert(e.len() == kl + 1 + paths.len());
    assert(e.subrange(0, kl) =~= kind);
    lemma_subrange_within(b, i, e, 0, kl);
    lemma_kind_round_trip(ev.kind, b, i);
    assert(e.subrange(kl, kl + 1) =~= seq![ev.paths.len() as u8]);
    lemma_subrange_within(b, i, e, kl, kl + 1);
    lemma_parse_u8_encoding(b, i + kl, ev.paths.len() as u8);
    assert(e.subrange(kl + 1, e.len() as int) =~= paths);
    lemma_subrange_within(b, i, e, kl + 1, e.len() as int);
    lemma_paths_round_trip(ev.paths, b, i + kl + 1);
    assert(ev.paths.len() as u8 as int == ev.paths.len());
}

} // verus!
