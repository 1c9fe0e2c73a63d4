//! Writer heads of a worldline.
use vstd::prelude::*;
use crate::encoding::push_hash;
use crate::ident::WorldlineId;
use crate::order::{CanonicalKey, SortKey};

verus! {

/// Identifier of a writer head.
#[derive(Clone, Copy, Debug, PartialEq, Eq, Hash, PartialOrd, Ord)]
pub struct HeadId(pub crate::ident::Hash);

impl HeadId {
    /// Wraps raw head id bytes.
    pub fn from_bytes(bytes: crate::ident::Hash) -> (r: Self)
        ensures
            r.0 == bytes,
    {
        HeadId(bytes)
    }
}

/// A writer head of a worldline.
#[derive(Clone, Copy, Debug, PartialEq, Eq, Hash, PartialOrd, Ord)]
pub struct WriterHeadKey {
    /// Worldline the head writes.
    pub worldline_id: WorldlineId,
    /// Head id within the worldline.
    pub head_id: HeadId,
}

/// Writer heads order by worldline id, then head id.
impl SortKey for WriterHeadKey {
    open spec fn key(&self) -> Seq<u8> {
        self.worldline_id.0@ + self.head_id.0@
    }

    fn key_bytes(&self) -> (k: Vec<u8>) {
        let mut k: Vec<u8> = Vec::new();
        push_hash(&mut k, &self.worldline_id.0);
        push_hash(&mut k, &self.head_id.0);
        k
    }
}

impl CanonicalKey for WriterHeadKey {
    proof fn lemma_key_injective(a: Self, b: Self) {
        if a.key() == b.key() {
            assert(a.key().subrange(0, 32) =~= a.worldline_id.0@);
            assert(b.key().subrange(0, 32) =~= b.worldline_id.0@);
            assert(a.key().subrange(32, 64) =~= a.head_id.0@);
            assert(b.key().subrange(32, 64) =~= b.head_id.0@);
            assert(a.worldline_id.0 =~= b.worldline_id.0);
            assert(a.head_id.0 =~= b.head_id.0);
        }
    }
}

} // verus!
