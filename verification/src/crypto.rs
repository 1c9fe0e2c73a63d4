//! BLAKE3 digests used throughout the engine.
use vstd::prelude::*;

verus! {

/// The BLAKE3 digest (32 bytes) of a byte string.
pub uninterp spec fn blake3_digest(input: Seq<u8>) -> Seq<u8>;

/// Calls `blake3::hash` on `input` and returns the 32 digest bytes.
///
/// Trusted: the result is the BLAKE3 digest of exactly the given bytes; its
/// value is named, not described.
#[verifier::external_body]
pub fn blake3_hash(input: &[u8]) -> (out: [u8; 32])
    ensures
        out@ == blake3_digest(input@),
{
    *blake3::hash(input).as_bytes()
}

} // verus!
