//! Accumulating decode buffer: the resumable framing surface.
//!
//! Bytes read from the transport are fed in as they arrive; each decode
//! attempt either consumes exactly one complete message, reports that the
//! buffered bytes are still incomplete while consuming nothing, or fails
//! fatally, also consuming nothing, after which the connection must close.

use crate::messages::message::{decode_message, spec_parse_message, Message};
use crate::messages::wire::{Decoded, SpecDecoded};
use vstd::prelude::*;

verus! {

/// Holds the bytes received so far that no decoded message has consumed yet.
pub struct DecodeBuffer {
    data: Vec<u8>,
}

impl View for DecodeBuffer {
    type V = Seq<u8>;

    closed spec fn view(&self) -> Seq<u8> {
        self.data@
    }
}

impl DecodeBuffer {
    /// An empty buffer.
    pub fn new() -> (r: DecodeBuffer)
        ensures
            r@ == Seq::<u8>::empty(),
    {
        DecodeBuffer { data: Vec::new() }
    }

    /// How many undecoded bytes the buffer holds.
    pub fn len(&self) -> (r: usize)
        ensures
            r == self@.len(),
    {
        self.data.len()
    }

    /// Appends newly received bytes.
    pub fn feed(&mut self, bytes: &[u8])
        ensures
            final(self)@ == old(self)@ + bytes@,
    {
        self.data.extend_from_slice(bytes);
    }

    /// Attempts to decode one message from the front of the buffer.
    ///
    /// On success the buffer advances past exactly the consumed bytes. On
    /// "insufficient data" and on a fatal error the buffer's consumable
    /// content is left exactly as it was: no decode attempt ever consumes a
    /// partial message.
    pub fn next_message(&mut self) -> (r: Decoded<Message>)
        ensures
            match spec_parse_message(old(self)@, 0) {
                SpecDecoded::Parsed { value, next } => {
                    &&& r matches Decoded::Parsed { value: v, next: n } && v@ == value && n
                        as int == next
                    &&& final(self)@ == old(self)@.skip(next)
                },
                SpecDecoded::Incomplete => r is Incomplete && final(self)@ == old(self)@,
                SpecDecoded::Fatal(e) => {
                    &&& r matches Decoded::Fatal(e2) && e2 == e
                    &&& final(self)@ == old(self)@
                },
            },
    {
        match decode_message(self.data.as_slice(), 0) {
            Decoded::Parsed { value, next } => {
                let rest = self.data.split_off(next);
                self.data = rest;
                Decoded::Parsed { value, next }
            },
            Decoded::Incomplete => Decoded::Incomplete,
            Decoded::Fatal(e) => Decoded::Fatal(e),
        }
    }
}

} // verus!
