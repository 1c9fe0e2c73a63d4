//! Identifier newtypes over 32-byte digests, logical clocks, and authority
//! references shared across the engine.
use vstd::prelude::*;
use vstd::string::*;
use crate::crypto::{blake3_digest, blake3_hash};
use crate::encoding::{push_hash, push_slice};
use crate::order::{bytes_le, lex_le, CanonicalKey, SortKey};

verus! {

/// 32-byte canonical digest.
pub type Hash = [u8; 32];

/// Exact byte equality of two digests.
pub fn hash_eq(a: &Hash, b: &Hash) -> (r: bool)
    ensures
        r == (*a == *b),
        r == (a@ == b@),
{
    let mut i: usize = 0;
    while i < 32
        invariant
            i <= 32,
            forall|j: int| 0 <= j < i ==> a[j] == b[j],
        decreases 32 - i,
    {
        if a[i] != b[i] {
            assert(a@[i as int] != b@[i as int]);
            return false;
        }
        i += 1;
    }
    assert(*a =~= *b);
    assert(a@ =~= b@);
    true
}

/// Lexicographic order of two digests (`a <= b`).
pub fn hash_le(a: &Hash, b: &Hash) -> (r: bool)
    ensures
        r == lex_le(a@, b@),
{
    bytes_le(a.as_slice(), b.as_slice())
}

/// `true` when every byte of the digest is zero.
pub open spec fn is_zero_hash(h: Hash) -> bool {
    forall|i: int| 0 <= i < 32 ==> h[i] == 0u8
}

/// The all-zero digest.
pub open spec fn zero_hash() -> Hash {
    choose|h: Hash| is_zero_hash(h)
}

/// Returns the all-zero digest.
pub fn zero_hash_value() -> (r: Hash)
    ensures
        r == zero_hash(),
        is_zero_hash(r),
{
    let r = [0u8; 32];
    assert(is_zero_hash(r));
    let ghost c = zero_hash();
    assert(is_zero_hash(c));
    assert(c =~= r);
    r
}

/// Tests whether every byte of a digest is zero.
pub fn hash_is_zero(h: &Hash) -> (r: bool)
    ensures
        r == is_zero_hash(*h),
{
    let mut i: usize = 0;
    while i < 32
        invariant
            i <= 32,
            forall|j: int| 0 <= j < i ==> h[j] == 0u8,
        decreases 32 - i,
    {
        if h[i] != 0 {
            return false;
        }
        i += 1;
    }
    true
}

/// Copies a digest into a fresh byte vector.
pub fn hash_to_vec(h: &Hash) -> (v: Vec<u8>)
    ensures
        v@ == h@,
{
    let mut v = Vec::new();
    push_hash(&mut v, h);
    assert(v@ =~= h@);
    v
}

impl SortKey for [u8; 32] {
    open spec fn key(&self) -> Seq<u8> {
        self@
    }

    fn key_bytes(&self) -> (k: Vec<u8>) {
        hash_to_vec(self)
    }
}

impl CanonicalKey for [u8; 32] {
    proof fn lemma_key_injective(a: Self, b: Self) {
        if a@ == b@ {
            assert(a =~= b);
        }
    }}

/// Labelled identifier digest: BLAKE3 of the domain prefix followed by the label bytes.
pub open spec fn labelled_digest(prefix: Seq<u8>, label: Seq<u8>) -> Seq<u8> {
    blake3_digest(prefix + label)
}

fn labelled_hash(prefix: &str, label: &str) -> (h: Hash)
    ensures
        h@ == labelled_digest(prefix.spec_bytes(), label.spec_bytes()),
{
    let mut input = Vec::new();
    push_slice(&mut input, prefix.as_bytes());
    push_slice(&mut input, label.as_bytes());
    blake3_hash(input.as_slice())
}

/// Identifier of a graph node.
#[derive(Clone, Copy, Debug, PartialEq, Eq, Hash, PartialOrd, Ord)]
pub struct NodeId(pub Hash);

impl NodeId {
    /// Returns the raw identifier bytes.
    pub fn as_bytes(&self) -> (r: &Hash)
        ensures
            *r == self.0,
    {
        &self.0
    }
}

impl SortKey for NodeId {
    open spec fn key(&self) -> Seq<u8> {
        self.0@
    }

    fn key_bytes(&self) -> (k: Vec<u8>) {
        hash_to_vec(&self.0)
    }
}

impl CanonicalKey for NodeId {
    proof fn lemma_key_injective(a: Self, b: Self) {
        if a.0@ == b.0@ {
            assert(a.0 =~= b.0);
        }
    }}

/// Identifier of a graph edge.
#[derive(Clone, Copy, Debug, PartialEq, Eq, Hash, PartialOrd, Ord)]
pub struct EdgeId(pub Hash);

impl SortKey for EdgeId {
    open spec fn key(&self) -> Seq<u8> {
        self.0@
    }

    fn key_bytes(&self) -> (k: Vec<u8>) {
        hash_to_vec(&self.0)
    }
}

impl CanonicalKey for EdgeId {
    proof fn lemma_key_injective(a: Self, b: Self) {
        if a.0@ == b.0@ {
            assert(a.0 =~= b.0);
        }
    }}

/// Identifier of a WARP instance.
#[derive(Clone, Copy, Debug, PartialEq, Eq, Hash, PartialOrd, Ord)]
pub struct WarpId(pub Hash);

impl WarpId {
    /// Returns the raw identifier bytes.
    pub fn as_bytes(&self) -> (r: &Hash)
        ensures
            *r == self.0,
    {
        &self.0
    }
}

/// Identifier of a payload or record type.
#[derive(Clone, Copy, Debug, PartialEq, Eq, Hash, PartialOrd, Ord)]
pub struct TypeId(pub Hash);

/// Node identity within one WARP instance.
#[derive(Clone, Copy, Debug, PartialEq, Eq, Hash, PartialOrd, Ord)]
pub struct NodeKey {
    /// Owning instance.
    pub warp_id: WarpId,
    /// Local node id.
    pub local_id: NodeId,
}

/// Edge identity within one WARP instance.
#[derive(Clone, Copy, Debug, PartialEq, Eq, Hash, PartialOrd, Ord)]
pub struct EdgeKey {
    /// Owning instance.
    pub warp_id: WarpId,
    /// Local edge id.
    pub local_id: EdgeId,
}

/// Exact equality of two WARP ids.
pub fn warp_eq(a: &WarpId, b: &WarpId) -> (r: bool)
    ensures
        r == (*a == *b),
{
    hash_eq(&a.0, &b.0)
}

/// Derives a node id from a label: BLAKE3 of `"node:"` followed by the label.
pub fn make_node_id(label: &str) -> (id: NodeId)
    ensures
        id.0@ == labelled_digest("node:".spec_bytes(), label.spec_bytes()),
{
    NodeId(labelled_hash("node:", label))
}

/// Derives an edge id from a label: BLAKE3 of `"edge:"` followed by the label.
pub fn make_edge_id(label: &str) -> (id: EdgeId)
    ensures
        id.0@ == labelled_digest("edge:".spec_bytes(), label.spec_bytes()),
{
    EdgeId(labelled_hash("edge:", label))
}

/// Derives a WARP id from a label: BLAKE3 of `"warp:"` followed by the label.
pub fn make_warp_id(label: &str) -> (id: WarpId)
    ensures
        id.0@ == labelled_digest("warp:".spec_bytes(), label.spec_bytes()),
{
    WarpId(labelled_hash("warp:", label))
}

/// Derives a type id from a label: BLAKE3 of `"type:"` followed by the label.
pub fn make_type_id(label: &str) -> (id: TypeId)
    ensures
        id.0@ == labelled_digest("type:".spec_bytes(), label.spec_bytes()),
{
    TypeId(labelled_hash("type:", label))
}

/// Identifier of a strand.
#[derive(Clone, Copy, Debug, PartialEq, Eq, Hash, PartialOrd, Ord)]
pub struct StrandId(pub Hash);

impl StrandId {
    /// Builds a strand id from raw bytes.
    pub fn from_bytes(bytes: Hash) -> (r: Self)
        ensures
            r.0 == bytes,
    {
        StrandId(bytes)
    }

    /// Returns the raw identifier bytes.
    pub fn as_bytes(&self) -> (r: &Hash)
        ensures
            *r == self.0,
    {
        &self.0
    }
}

/// Derives a strand id from a label: BLAKE3 of `"strand:"` followed by the label.
pub fn make_strand_id(label: &str) -> (id: StrandId)
    ensures
        id.0@ == labelled_digest("strand:".spec_bytes(), label.spec_bytes()),
{
    StrandId(labelled_hash("strand:", label))
}

/// Identifier of a worldline.
#[derive(Clone, Copy, Debug, PartialEq, Eq, Hash, PartialOrd, Ord)]
pub struct WorldlineId(pub Hash);

impl WorldlineId {
    /// Builds a worldline id from raw bytes.
    pub fn from_bytes(bytes: Hash) -> (r: Self)
        ensures
            r.0 == bytes,
    {
        WorldlineId(bytes)
    }

    /// Returns the raw identifier bytes.
    pub fn as_bytes(&self) -> (r: &Hash)
        ensures
            *r == self.0,
    {
        &self.0
    }
}

/// Logical tick along one worldline (a monotone counter, not wall time).
#[derive(Clone, Copy, Debug, Default, PartialEq, Eq, Hash, PartialOrd, Ord)]
pub struct WorldlineTick(pub u64);

impl WorldlineTick {
    /// Builds a tick from its raw counter.
    pub fn from_raw(raw: u64) -> (r: Self)
        ensures
            r.0 == raw,
    {
        WorldlineTick(raw)
    }

    /// Returns the raw counter.
    pub fn as_u64(self) -> (r: u64)
        ensures
            r == self.0,
    {
        self.0
    }
}

/// Runtime-global logical cycle counter.
#[derive(Clone, Copy, Debug, Default, PartialEq, Eq, Hash, PartialOrd, Ord)]
pub struct GlobalTick(pub u64);

impl GlobalTick {
    /// Builds a global tick from its raw counter.
    pub fn from_raw(raw: u64) -> (r: Self)
        ensures
            r.0 == raw,
    {
        GlobalTick(raw)
    }

    /// Returns the raw counter.
    pub fn as_u64(self) -> (r: u64)
        ensures
            r == self.0,
    {
        self.0
    }
}

/// Identifier of an authority origin.
#[derive(Clone, Copy, Debug, PartialEq, Eq, Hash, PartialOrd, Ord)]
pub struct OriginId(pub Hash);

impl OriginId {
    /// Builds an origin id from raw bytes.
    pub fn from_bytes(bytes: Hash) -> (r: Self)
        ensures
            r.0 == bytes,
    {
        OriginId(bytes)
    }

    /// Returns the raw identifier bytes.
    pub fn as_bytes(&self) -> (r: &Hash)
        ensures
            *r == self.0,
    {
        &self.0
    }
}

/// Identifier of an authority domain.
#[derive(Clone, Copy, Debug, PartialEq, Eq, Hash, PartialOrd, Ord)]
pub struct AuthorityDomainId(pub Hash);

impl AuthorityDomainId {
    /// Builds a domain id from raw bytes.
    pub fn from_bytes(bytes: Hash) -> (r: Self)
        ensures
            r.0 == bytes,
    {
        AuthorityDomainId(bytes)
    }

    /// Returns the raw identifier bytes.
    pub fn as_bytes(&self) -> (r: &Hash)
        ensures
            *r == self.0,
    {
        &self.0
    }
}

/// Causal authority domain reference: origin plus domain.
#[derive(Clone, Copy, Debug, PartialEq, Eq, Hash, PartialOrd, Ord)]
pub struct AuthorityDomainRef {
    /// Authority origin.
    pub origin_id: OriginId,
    /// Authority domain.
    pub domain_id: AuthorityDomainId,
}

impl AuthorityDomainRef {
    /// Builds an authority domain reference.
    pub fn new(origin_id: OriginId, domain_id: AuthorityDomainId) -> (r: Self)
        ensures
            r.origin_id == origin_id,
            r.domain_id == domain_id,
    {
        AuthorityDomainRef { origin_id, domain_id }
    }
}

/// Exact equality of two authority references.
pub fn authority_eq(a: &AuthorityDomainRef, b: &AuthorityDomainRef) -> (r: bool)
    ensures
        r == (*a == *b),
{
    hash_eq(&a.origin_id.0, &b.origin_id.0) && hash_eq(&a.domain_id.0, &b.domain_id.0)
}

} // verus!
