//! Canonical digests and constants used across the engine.
use vstd::prelude::*;
use vstd::bytes::spec_u64_to_le_bytes;
use crate::crypto::{blake3_digest, blake3_hash};
use crate::encoding::push_u64_le;

verus! {

/// Policy identifier committed while no policy semantics apply: the ASCII
/// bytes `NOP0` read as a little-endian `u32`. It is deliberately non-zero.
pub const POLICY_ID_NO_POLICY_V0: u32 = 0x3050_4F4Eu32;

/// BLAKE3 digest of an empty byte string.
pub fn blake3_empty() -> (r: crate::ident::Hash)
    ensures
        r@ == blake3_digest(Seq::<u8>::empty()),
{
    let empty: Vec<u8> = Vec::new();
    assert(empty@ =~= Seq::<u8>::empty());
    blake3_hash(empty.as_slice())
}

/// Digest of an empty length-prefixed list: BLAKE3 of the little-endian
/// bytes of a zero count.
pub fn digest_len0_u64() -> (r: crate::ident::Hash)
    ensures
        r@ == blake3_digest(spec_u64_to_le_bytes(0)),
{
    let mut input: Vec<u8> = Vec::new();
    push_u64_le(&mut input, 0);
    assert(input@ =~= spec_u64_to_le_bytes(0));
    blake3_hash(input.as_slice())
}

} // verus!
