//! Identity and version handshake payload, and its wire codec.
//!
//! Wire layout: `magicNumber(4 LE)` · `nameLen(4 LE)` + name UTF-8 bytes ·
//! `versionLen(4 LE)` + version UTF-8 bytes.

use crate::messages::wire::{
    append_u32, decoded_matches_view, encode_string, lemma_parse_string_encoding,
    lemma_parse_u32_encoding, lemma_subrange_within, parse_string, parse_u32, spec_encode_string,
    spec_parse_string, spec_parse_u32, Decoded, EncodeError, SpecDecoded, MAX_FRAME_SIZE,
};
use vstd::bytes::*;
use vstd::prelude::*;
use vstd::utf8::encode_utf8;

verus! {

/// Handshake payload: the protocol magic number both peers must agree on,
/// the peer's display name and its protocol version string. Constructed
/// fresh per connection; stateless.
#[derive(Debug, PartialEq, Eq, Clone)]
pub struct HelloMessage {
    pub magic_number: u32,
    pub name: String,
    pub version: String,
}

/// Mathematical value of a [`HelloMessage`].
pub struct HelloSpec {
    pub magic_number: u32,
    pub name: Seq<char>,
    pub version: Seq<char>,
}

impl View for HelloMessage {
    type V = HelloSpec;

    open spec fn view(&self) -> HelloSpec {
        HelloSpec { magic_number: self.magic_number, name: self.name@, version: self.version@ }
    }
}

impl HelloSpec {
    /// Both strings fit their 4-byte length fields and the frame-size bound.
    pub open spec fn wf(self) -> bool {
        &&& encode_utf8(self.name).len() <= MAX_FRAME_SIZE
        &&& encode_utf8(self.version).len() <= MAX_FRAME_SIZE
    }
}

impl HelloMessage {
    /// Builds the handshake payload from its parts.
    pub fn new(magic_number: u32, name: String, version: String) -> (r: HelloMessage)
        ensures
            r@ == (HelloSpec { magic_number, name: name@, version: version@ }),
    {
        HelloMessage { magic_number, name, version }
    }

    /// The protocol magic number this peer expects.
    pub fn magic_number(&self) -> (r: u32)
        ensures
            r == self@.magic_number,
    {
        self.magic_number
    }

    /// The peer's display name.
    pub fn name(&self) -> (r: &str)
        ensures
            r@ == self@.name,
    {
        self.name.as_str()
    }

    /// The peer's protocol version string.
    pub fn version(&self) -> (r: &str)
        ensures
            r@ == self@.version,
    {
        self.version.as_str()
    }

    /// Whether this message can be encoded: see [`HelloSpec::wf`].
    pub open spec fn wf(self) -> bool {
        self@.wf()
    }
}

/// Wire form of a hello message.
pub open spec fn spec_encode_hello(m: HelloSpec) -> Seq<u8> {
    spec_u32_to_le_bytes(m.magic_number) + spec_encode_string(m.name) + spec_encode_string(
        m.version,
    )
}

/// A hello message at position `i`.
pub open spec fn spec_parse_hello(b: Seq<u8>, i: int) -> SpecDecoded<HelloSpec> {
    match spec_parse_u32(b, i) {
        SpecDecoded::Parsed { value: magic_number, next: j } => match spec_parse_string(b, j) {
            SpecDecoded::Parsed { value: name, next: k } => match spec_parse_string(b, k) {
                SpecDecoded::Parsed { value: version, next: end } => SpecDecoded::Parsed {
                    value: HelloSpec { magic_number, name, version },
                    next: end,
                },
                SpecDecoded::Incomplete => SpecDecoded::Incomplete,
                SpecDecoded::Fatal(e) => SpecDecoded::Fatal(e),
            },
            SpecDecoded::Incomplete => SpecDecoded::Incomplete,
            SpecDecoded::Fatal(e) => SpecDecoded::Fatal(e),
        },
        SpecDecoded::Incomplete => SpecDecoded::Incomplete,
        SpecDecoded::Fatal(e) => SpecDecoded::Fatal(e),
    }
}

/// Appends the wire form of `m` to `out`. Fails, appending nothing, exactly
/// when one of the strings exceeds the frame-size bound.
pub fn encode_hello(m: &HelloMessage, out: &mut Vec<u8>) -> (r: Result<(), EncodeError>)
    ensures
        r is Ok <==> m.wf(),
        r is Ok ==> final(out)@ == old(out)@ + spec_encode_hello(m@),
        r is Err ==> final(out)@ == old(out)@,
{
    if m.name.as_str().as_bytes().len() > MAX_FRAME_SIZE || m.version.as_str().as_bytes().len()
        > MAX_FRAME_SIZE {
        return Err(EncodeError::FrameTooLarge);
    }
    append_u32(out, m.magic_number);
    let _name_written = encode_string(out, m.name.as_str());
    let _version_written = encode_string(out, m.version.as_str());
    proof {
        assert(out@ =~= old(out)@ + spec_encode_hello(m@));
    }
    Ok(())
}

/// Reads one hello message.
pub fn decode_hello(buf: &[u8], start: usize) -> (r: Decoded<HelloMessage>)
    requires
        start <= buf@.len(),
    ensures
        decoded_matches_view(r, spec_parse_hello(buf@, start as int)),
{
    let (magic_number, after_magic) = match parse_u32(buf, start) {
        Decoded::Parsed { value, next } => (value, next),
        Decoded::Incomplete => {
            return Decoded::Incomplete;
        },
        Decoded::Fatal(e) => {
            return Decoded::Fatal(e);
        },
    };
    let (name, after_name) = match parse_string(buf, after_magic) {
        Decoded::Parsed { value, next } => (value, next),
        Decoded::Incomplete => {
            return Decoded::Incomplete;
        },
        Decoded::Fatal(e) => {
            return Decoded::Fatal(e);
        },
    };
    let (version, end) = match parse_string(buf, after_name) {
        Decoded::Parsed { value, next } => (value, next),
        Decoded::Incomplete => {
            return Decoded::Incomplete;
        },
        Decoded::Fatal(e) => {
            return Decoded::Fatal(e);
        },
    };
    Decoded::Parsed { value: HelloMessage { magic_number, name, version }, next: end }
}

/// Round-trip law for hello messages: decoding any buffer that carries the
/// encoding of a well-formed message at position `i` yields exactly that
/// message and consumes exactly its encoding, whatever bytes follow.
pub proof fn lemma_hello_round_trip(m: HelloSpec, b: Seq<u8>, i: int)
    requires
        m.wf(),
        0 <= i,
        i + spec_encode_hello(m).len() <= b.len(),
        b.subrange(i, i + spec_encode_hello(m).len() as int) == spec_encode_hello(m),
    ensures
        spec_parse_hello(b, i) == (SpecDecoded::Parsed {
            value: m,
            next: i + spec_encode_hello(m).len(),
        }),
{
    let e = spec_encode_hello(m);
    let magic = spec_u32_to_le_bytes(m.magic_number);
    let name = spec_encode_string(m.name);
    let version = spec_encode_string(m.version);
    lemma_auto_spec_u32_to_from_le_bytes();
    assert(e.subrange(0, 4) =~= magic);
    lemma_subrange_within(b, i, e, 0, 4);
    lemma_parse_u32_encoding(b, i, m.magic_number);
    assert(e.subrange(4, 4 + name.len() as int) =~= name);
    lemma_subrange_within(b, i, e, 4, 4 + name.len() as int);
    lemma_parse_string_encoding(b, i + 4, m.name);
    let k = i + 4 + name.len() as int;
    assert(e.subrange(4 + name.len() as int, e.len() as int) =~= version);
    lemma_subrange_within(b, i, e, 4 + name.len() as int, e.len() as int);
    lemma_parse_string_encoding(b, k, m.version);
}

} // verus!
