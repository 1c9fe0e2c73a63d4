//! References into worldline provenance.
use vstd::prelude::*;
use vstd::bytes::*;
use crate::encoding::{push_hash, push_u64_le};
use crate::ident::{hash_eq, WorldlineId, WorldlineTick};

verus! {

/// Reference to one committed worldline tick.
#[derive(Clone, Copy, Debug, PartialEq, Eq, Hash, PartialOrd, Ord)]
pub struct ProvenanceRef {
    /// Worldline the tick belongs to.
    pub worldline_id: WorldlineId,
    /// Tick along the worldline.
    pub worldline_tick: WorldlineTick,
    /// Commit hash of the tick.
    pub commit_hash: crate::ident::Hash,
}

/// Canonical bytes: worldline id, little-endian tick, commit hash.
pub open spec fn provenance_ref_bytes(p: ProvenanceRef) -> Seq<u8> {
    p.worldline_id.0@ + spec_u64_to_le_bytes(p.worldline_tick.0) + p.commit_hash@
}

/// Appends the canonical bytes of a provenance reference.
pub fn push_provenance_ref(out: &mut Vec<u8>, p: &ProvenanceRef)
    ensures
        final(out)@ == old(out)@ + provenance_ref_bytes(*p),
{
    push_hash(out, &p.worldline_id.0);
    push_u64_le(out, p.worldline_tick.0);
    push_hash(out, &p.commit_hash);
    assert(out@ =~= old(out)@ + provenance_ref_bytes(*p));
}

/// Exact equality of provenance references.
pub fn provenance_ref_eq(a: &ProvenanceRef, b: &ProvenanceRef) -> (r: bool)
    ensures
        r == (*a == *b),
{
    hash_eq(&a.worldline_id.0, &b.worldline_id.0) && a.worldline_tick.0 == b.worldline_tick.0 && hash_eq(
        &a.commit_hash,
        &b.commit_hash,
    )
}

} // verus!
