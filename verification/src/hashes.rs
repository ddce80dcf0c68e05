//! Content and path fingerprints.
//!
//! The engine uses one fixed-width content hash uniformly, for both indexing
//! and wire comparison: the 128-bit MD5 digest, carried as a `u128`. Paths
//! are identified by a 256-bit SHA3-256 fingerprint of their UTF-8 bytes.
//! Both digests are computed by outside crates; the library names their
//! results and builds every contract on those names.

use md5::Digest;
use vstd::prelude::*;

verus! {

/// Abstract value of the 128-bit content digest of a byte sequence. The
/// digest is a pure function of the bytes alone, so both peers compute the
/// same fingerprint for the same block content.
pub uninterp spec fn content_digest_of(bytes: Seq<u8>) -> u128;

/// Abstract value of the 32-byte path fingerprint of a byte sequence; a
/// pure function of the bytes alone.
pub uninterp spec fn path_digest_of(bytes: Seq<u8>) -> Seq<u8>;

/// Relies on `md5::Md5` of the `md-5` crate: returns the 128-bit MD5 digest
/// of the buffer, read as one little-endian integer. The digest depends on
/// the buffer's bytes alone.
#[verifier::external_body]
pub(crate) fn content_digest(buffer: &[u8]) -> (digest: u128)
    ensures
        digest == content_digest_of(buffer@),
{
    let mut hasher = md5::Md5::new();
    hasher.update(buffer);
    let bytes: [u8; 16] = hasher.finalize().into();
    u128::from_le_bytes(bytes)
}

/// Relies on `sha3::Sha3_256`: returns the SHA3-256 digest of the buffer,
/// which is always 32 bytes and depends on the buffer's bytes alone.
#[verifier::external_body]
pub(crate) fn path_digest(buffer: &[u8]) -> (digest: Vec<u8>)
    ensures
        digest@ == path_digest_of(buffer@),
        digest@.len() == 32,
{
    let mut hasher = sha3::Sha3_256::new();
    hasher.update(buffer);
    hasher.finalize().to_vec()
}

} // verus!
