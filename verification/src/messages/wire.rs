//! Primitive wire encodings: little-endian integer fields, raw byte runs and
//! length-prefixed UTF-8 strings, together with the outcome types shared by
//! all decoders.
//!
//! Each decoder comes in two layers: a `spec` function that defines the
//! parse mathematically over a byte sequence, and an executable function
//! proved to return exactly what the `spec` function says. Decoders never
//! mutate the buffer; callers advance past a message only once it has been
//! parsed completely.

use vstd::bytes::*;
use vstd::prelude::*;
use vstd::slice::{slice_index_get, slice_subrange, slice_to_vec};
use vstd::utf8::{decode_utf8, encode_utf8, valid_utf8};

verus! {

/// Upper bound, in bytes, on any declared length field: a safety bound
/// against unbounded memory growth from a malicious or corrupted peer.
pub const MAX_FRAME_SIZE: usize = 8 * 1024 * 1024;

/// Fatal decoding failures. A fatal error means the byte stream can never
/// again be parsed from its current position; the connection must be closed.
#[derive(Debug, PartialEq, Eq, Clone, Copy, Structural)]
pub enum DecodeError {
    /// A declared length field exceeds [`MAX_FRAME_SIZE`].
    FrameTooLarge,
    /// A length-prefixed string holds bytes that are not valid UTF-8.
    InvalidUtf8,
    /// A discriminant byte names no known message or event variant.
    UnknownTag,
}

/// Failures when encoding a message.
#[derive(Debug, PartialEq, Eq, Clone, Copy, Structural)]
pub enum EncodeError {
    /// A string's UTF-8 encoding exceeds [`MAX_FRAME_SIZE`] bytes.
    FrameTooLarge,
    /// A collection holds more items than its wire count field can carry.
    TooManyItems,
    /// A path identifier does not have its fixed 32-byte width.
    InvalidPathId,
}

/// Outcome of one executable decode attempt. `Parsed` carries the decoded
/// value and the buffer position just past the bytes it consumed.
pub enum Decoded<T> {
    Parsed { value: T, next: usize },
    Incomplete,
    Fatal(DecodeError),
}

/// Specification-level decode outcome; positions are unbounded integers so
/// that the parse is defined over arbitrary byte sequences.
pub enum SpecDecoded<T> {
    Parsed { value: T, next: int },
    Incomplete,
    Fatal(DecodeError),
}

/// Relates an executable decode outcome to its specification-level outcome,
/// comparing decoded values directly.
pub open spec fn decoded_matches<T>(r: Decoded<T>, s: SpecDecoded<T>) -> bool {
    match r {
        Decoded::Parsed { value, next } => s matches SpecDecoded::Parsed {
            value: sv,
            next: sn,
        } && sv == value && sn == next as int,
        Decoded::Incomplete => s is Incomplete,
        Decoded::Fatal(e) => s matches SpecDecoded::Fatal(se) && se == e,
    }
}

/// Relates an executable decode outcome to its specification-level outcome,
/// comparing decoded values through their views.
pub open spec fn decoded_matches_view<T: View>(r: Decoded<T>, s: SpecDecoded<T::V>) -> bool {
    match r {
        Decoded::Parsed { value, next } => s matches SpecDecoded::Parsed {
            value: sv,
            next: sn,
        } && sv == value@ && sn == next as int,
        Decoded::Incomplete => s is Incomplete,
        Decoded::Fatal(e) => s matches SpecDecoded::Fatal(se) && se == e,
    }
}


/// Prepends already-parsed items to the outcome of parsing the remaining
/// items of a list.
pub open spec fn spec_compose<T>(prefix: Seq<T>, r: SpecDecoded<Seq<T>>) -> SpecDecoded<Seq<T>> {
    match r {
        SpecDecoded::Parsed { value, next } => SpecDecoded::Parsed { value: prefix + value, next },
        SpecDecoded::Incomplete => SpecDecoded::Incomplete,
        SpecDecoded::Fatal(e) => SpecDecoded::Fatal(e),
    }
}

/// Prefix composition is associative.
pub proof fn lemma_compose_assoc<T>(p1: Seq<T>, p2: Seq<T>, r: SpecDecoded<Seq<T>>)
    ensures
        spec_compose(p1, spec_compose(p2, r)) == spec_compose(p1 + p2, r),
{
    match r {
        SpecDecoded::Parsed { value, next } => {
            assert(p1 + (p2 + value) =~= (p1 + p2) + value);
        },
        SpecDecoded::Incomplete => {},
        SpecDecoded::Fatal(e) => {},
    }
}

/// Composing onto a finished parse of nothing leaves the prefix.
pub proof fn lemma_compose_empty<T>(prefix: Seq<T>, next: int)
    ensures
        spec_compose(prefix, SpecDecoded::Parsed { value: Seq::<T>::empty(), next })
            == (SpecDecoded::Parsed { value: prefix, next }),
{
    assert(prefix + Seq::<T>::empty() =~= prefix);
}

/// A single byte at position `i`.
pub open spec fn spec_parse_u8(b: Seq<u8>, i: int) -> SpecDecoded<u8> {
    if i + 1 <= b.len() {
        SpecDecoded::Parsed { value: b[i], next: i + 1 }
    } else {
        SpecDecoded::Incomplete
    }
}

/// Reads one byte.
pub fn parse_u8(buf: &[u8], start: usize) -> (r: Decoded<u8>)
    requires
        start <= buf@.len(),
    ensures
        decoded_matches(r, spec_parse_u8(buf@, start as int)),
{
    if buf.len() - start >= 1 {
        let value = *slice_index_get(buf, start);
        Decoded::Parsed { value, next: start + 1 }
    } else {
        Decoded::Incomplete
    }
}

/// A little-endian `u32` at position `i`.
pub open spec fn spec_parse_u32(b: Seq<u8>, i: int) -> SpecDecoded<u32> {
    if i + 4 <= b.len() {
        SpecDecoded::Parsed { value: spec_u32_from_le_bytes(b.subrange(i, i + 4)), next: i + 4 }
    } else {
        SpecDecoded::Incomplete
    }
}

/// Reads a little-endian `u32`.
pub fn parse_u32(buf: &[u8], start: usize) -> (r: Decoded<u32>)
    requires
        start <= buf@.len(),
    ensures
        decoded_matches(r, spec_parse_u32(buf@, start as int)),
{
    if buf.len() - start >= 4 {
        let value = u32_from_le_bytes(slice_subrange(buf, start, start + 4));
        Decoded::Parsed { value, next: start + 4 }
    } else {
        Decoded::Incomplete
    }
}

/// A little-endian `u64` at position `i`.
pub open spec fn spec_parse_u64(b: Seq<u8>, i: int) -> SpecDecoded<u64> {
    if i + 8 <= b.len() {
        SpecDecoded::Parsed { value: spec_u64_from_le_bytes(b.subrange(i, i + 8)), next: i + 8 }
    } else {
        SpecDecoded::Incomplete
    }
}

/// Reads a little-endian `u64`.
pub fn parse_u64(buf: &[u8], start: usize) -> (r: Decoded<u64>)
    requires
        start <= buf@.len(),
    ensures
        decoded_matches(r, spec_parse_u64(buf@, start as int)),
{
    if buf.len() - start >= 8 {
        let value = u64_from_le_bytes(slice_subrange(buf, start, start + 8));
        Decoded::Parsed { value, next: start + 8 }
    } else {
        Decoded::Incomplete
    }
}

/// A little-endian `u128` at position `i`.
pub open spec fn spec_parse_u128(b: Seq<u8>, i: int) -> SpecDecoded<u128> {
    if i + 16 <= b.len() {
        SpecDecoded::Parsed { value: spec_u128_from_le_bytes(b.subrange(i, i + 16)), next: i + 16 }
    } else {
        SpecDecoded::Incomplete
    }
}

/// Reads a little-endian `u128`.
pub fn parse_u128(buf: &[u8], start: usize) -> (r: Decoded<u128>)
    requires
        start <= buf@.len(),
    ensures
        decoded_matches(r, spec_parse_u128(buf@, start as int)),
{
    if buf.len() - start >= 16 {
        let value = u128_from_le_bytes(slice_subrange(buf, start, start + 16));
        Decoded::Parsed { value, next: start + 16 }
    } else {
        Decoded::Incomplete
    }
}

/// A run of exactly `count` raw bytes at position `i`.
pub open spec fn spec_parse_bytes(b: Seq<u8>, i: int, count: int) -> SpecDecoded<Seq<u8>> {
    if i + count <= b.len() {
        SpecDecoded::Parsed { value: b.subrange(i, i + count), next: i + count }
    } else {
        SpecDecoded::Incomplete
    }
}

/// Reads exactly `count` raw bytes.
pub fn parse_bytes(buf: &[u8], start: usize, count: usize) -> (r: Decoded<Vec<u8>>)
    requires
        start <= buf@.len(),
    ensures
        decoded_matches_view(r, spec_parse_bytes(buf@, start as int, count as int)),
{
    if buf.len() - start >= count {
        let value = slice_to_vec(slice_subrange(buf, start, start + count));
        Decoded::Parsed { value, next: start + count }
    } else {
        Decoded::Incomplete
    }
}

/// Wire form of a string: a 4-byte little-endian byte count followed by the
/// string's UTF-8 bytes.
pub open spec fn spec_encode_string(s: Seq<char>) -> Seq<u8> {
    spec_u32_to_le_bytes(encode_utf8(s).len() as u32) + encode_utf8(s)
}

/// A length-prefixed UTF-8 string at position `i`. Fails fatally when the
/// declared byte count exceeds [`MAX_FRAME_SIZE`] or the bytes are not valid
/// UTF-8.
pub open spec fn spec_parse_string(b: Seq<u8>, i: int) -> SpecDecoded<Seq<char>> {
    match spec_parse_u32(b, i) {
        SpecDecoded::Parsed { value: len, next: j } => {
            if len > MAX_FRAME_SIZE {
                SpecDecoded::Fatal(DecodeError::FrameTooLarge)
            } else if j + len <= b.len() {
                let bytes = b.subrange(j, j + len);
                if valid_utf8(bytes) {
                    SpecDecoded::Parsed { value: decode_utf8(bytes), next: j + len }
                } else {
                    SpecDecoded::Fatal(DecodeError::InvalidUtf8)
                }
            } else {
                SpecDecoded::Incomplete
            }
        },
        SpecDecoded::Incomplete => SpecDecoded::Incomplete,
        SpecDecoded::Fatal(e) => SpecDecoded::Fatal(e),
    }
}

/// Appends the wire form of `value` to `out`.
pub fn append_u8(out: &mut Vec<u8>, value: u8)
    ensures
        final(out)@ == old(out)@ + seq![value],
{
    out.push(value);
    proof {
        assert(out@ =~= old(out)@ + seq![value]);
    }
}

/// Appends the 4-byte little-endian form of `value` to `out`.
pub fn append_u32(out: &mut Vec<u8>, value: u32)
    ensures
        final(out)@ == old(out)@ + spec_u32_to_le_bytes(value),
{
    let mut bytes = u32_to_le_bytes(value);
    out.append(&mut bytes);
}

/// Appends the 8-byte little-endian form of `value` to `out`.
pub fn append_u64(out: &mut Vec<u8>, value: u64)
    ensures
        final(out)@ == old(out)@ + spec_u64_to_le_bytes(value),
{
    let mut bytes = u64_to_le_bytes(value);
    out.append(&mut bytes);
}

/// Appends the 16-byte little-endian form of `value` to `out`.
pub fn append_u128(out: &mut Vec<u8>, value: u128)
    ensures
        final(out)@ == old(out)@ + spec_u128_to_le_bytes(value),
{
    let mut bytes = u128_to_le_bytes(value);
    out.append(&mut bytes);
}

/// Appends the length-prefixed UTF-8 form of `s` to `out`. Fails, appending
/// nothing, exactly when the string's UTF-8 encoding exceeds
/// [`MAX_FRAME_SIZE`] bytes.
pub fn encode_string(out: &mut Vec<u8>, s: &str) -> (r: Result<(), EncodeError>)
    ensures
        r is Ok <==> encode_utf8(s@).len() <= MAX_FRAME_SIZE,
        r is Ok ==> final(out)@ == old(out)@ + spec_encode_string(s@),
        r is Err ==> final(out)@ == old(out)@,
{
    let bytes: &[u8] = s.as_bytes();
    if bytes.len() > MAX_FRAME_SIZE {
        return Err(EncodeError::FrameTooLarge);
    }
    append_u32(out, bytes.len() as u32);
    out.extend_from_slice(bytes);
    Ok(())
}

/// Reads a length-prefixed UTF-8 string.
pub fn parse_string(buf: &[u8], start: usize) -> (r: Decoded<String>)
    requires
        start <= buf@.len(),
    ensures
        decoded_matches_view(r, spec_parse_string(buf@, start as int)),
{
    let len = match parse_u32(buf, start) {
        Decoded::Parsed { value, next } => (value, next),
        Decoded::Incomplete => {
            return Decoded::Incomplete;
        },
        Decoded::Fatal(e) => {
            return Decoded::Fatal(e);
        },
    };
    let (byte_count, body_start) = len;
    if byte_count as usize > MAX_FRAME_SIZE {
        return Decoded::Fatal(DecodeError::FrameTooLarge);
    }
    let bytes = match parse_bytes(buf, body_start, byte_count as usize) {
        Decoded::Parsed { value, next } => (value, next),
        Decoded::Incomplete => {
            return Decoded::Incomplete;
        },
        Decoded::Fatal(e) => {
            return Decoded::Fatal(e);
        },
    };
    let (body, next) = bytes;
    match string_from_utf8(body) {
        Some(value) => {
            proof {
                vstd::utf8::encode_utf8_valid_utf8(value@);
                vstd::utf8::encode_utf8_decode_utf8(value@);
            }
            Decoded::Parsed { value, next }
        },
        None => Decoded::Fatal(DecodeError::InvalidUtf8),
    }
}


/// Two sub-ranges of a buffer agree with the matching sub-ranges of a
/// sequence known to lie at position `i`.
pub proof fn lemma_subrange_within(b: Seq<u8>, i: int, e: Seq<u8>, a: int, c: int)
    requires
        0 <= i,
        i + e.len() <= b.len(),
        b.subrange(i, i + e.len() as int) == e,
        0 <= a <= c <= e.len(),
    ensures
        b.subrange(i + a, i + c) == e.subrange(a, c),
{
    assert(b.subrange(i + a, i + c) =~= e.subrange(a, c));
}

/// Parsing at a position holding the little-endian encoding of `x` yields
/// exactly `x`.
pub proof fn lemma_parse_u8_encoding(b: Seq<u8>, i: int, x: u8)
    requires
        0 <= i,
        i + 1 <= b.len(),
        b.subrange(i, i + 1) == seq![x],
    ensures
        spec_parse_u8(b, i) == (SpecDecoded::Parsed { value: x, next: i + 1 }),
{
    assert(b[i] == b.subrange(i, i + 1)[0]);
}

/// Parsing at a position holding the little-endian encoding of `x` yields
/// exactly `x`.
pub proof fn lemma_parse_u32_encoding(b: Seq<u8>, i: int, x: u32)
    requires
        0 <= i,
        i + 4 <= b.len(),
        b.subrange(i, i + 4) == spec_u32_to_le_bytes(x),
    ensures
        spec_parse_u32(b, i) == (SpecDecoded::Parsed { value: x, next: i + 4 }),
{
    lemma_auto_spec_u32_to_from_le_bytes();
    assert(spec_u32_to_le_bytes(x).len() == 4);
}

/// Parsing at a position holding the little-endian encoding of `x` yields
/// exactly `x`.
pub proof fn lemma_parse_u64_encoding(b: Seq<u8>, i: int, x: u64)
    requires
        0 <= i,
        i + 8 <= b.len(),
        b.subrange(i, i + 8) == spec_u64_to_le_bytes(x),
    ensures
        spec_parse_u64(b, i) == (SpecDecoded::Parsed { value: x, next: i + 8 }),
{
    lemma_auto_spec_u64_to_from_le_bytes();
    assert(spec_u64_to_le_bytes(x).len() == 8);
}

/// Parsing at a position holding the little-endian encoding of `x` yields
/// exactly `x`.
pub proof fn lemma_parse_u128_encoding(b: Seq<u8>, i: int, x: u128)
    requires
        0 <= i,
        i + 16 <= b.len(),
        b.subrange(i, i + 16) == spec_u128_to_le_bytes(x),
    ensures
        spec_parse_u128(b, i) == (SpecDecoded::Parsed { value: x, next: i + 16 }),
{
    lemma_auto_spec_u128_to_from_le_bytes();
    assert(spec_u128_to_le_bytes(x).len() == 16);
}

/// Parsing at a position holding the length-prefixed UTF-8 encoding of `s`
/// yields exactly `s` and consumes exactly that encoding.
pub proof fn lemma_parse_string_encoding(b: Seq<u8>, i: int, s: Seq<char>)
    requires
        0 <= i,
        encode_utf8(s).len() <= MAX_FRAME_SIZE,
        i + spec_encode_string(s).len() <= b.len(),
        b.subrange(i, i + spec_encode_string(s).len() as int) == spec_encode_string(s),
    ensures
        spec_parse_string(b, i) == (SpecDecoded::Parsed {
            value: s,
            next: i + spec_encode_string(s).len(),
        }),
{
    let bytes = encode_utf8(s);
    let n = bytes.len() as int;
    let e = spec_encode_string(s);
    lemma_auto_spec_u32_to_from_le_bytes();
    assert(e.len() == 4 + n);
    assert(e.subrange(0, 4) =~= spec_u32_to_le_bytes(bytes.len() as u32));
    lemma_subrange_within(b, i, e, 0, 4);
    lemma_parse_u32_encoding(b, i, bytes.len() as u32);
    assert(e.subrange(4, 4 + n) =~= bytes);
    lemma_subrange_within(b, i, e, 4, 4 + n);
    vstd::utf8::encode_utf8_valid_utf8(s);
    vstd::utf8::encode_utf8_decode_utf8(s);
    assert(b.subrange(i + 4, i + 4 + n) == bytes);
}


/// Oversized-frame law: whenever the 4-byte length field at position `i`
/// declares more than [`MAX_FRAME_SIZE`] bytes, the string parse fails
/// fatally, whatever bytes follow and however many of them have arrived.
pub proof fn lemma_oversized_frame_fatal(b: Seq<u8>, i: int)
    requires
        0 <= i,
        i + 4 <= b.len(),
        spec_u32_from_le_bytes(b.subrange(i, i + 4)) > MAX_FRAME_SIZE,
    ensures
        spec_parse_string(b, i) == SpecDecoded::<Seq<char>>::Fatal(DecodeError::FrameTooLarge),
{
}

/// Relies on `String::from_utf8`: succeeds exactly on valid UTF-8 input and
/// returns the string whose UTF-8 encoding is that input.
#[verifier::external_body]
fn string_from_utf8(bytes: Vec<u8>) -> (r: Option<String>)
    ensures
        r matches Some(s) ==> encode_utf8(s@) == bytes@,
        valid_utf8(bytes@) ==> r is Some,
{
    String::from_utf8(bytes).ok()
}

} // verus!
