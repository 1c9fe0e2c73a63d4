//! Attachment-plane identities: which slot of which node or edge carries a
//! payload, and the typed atom payloads themselves.
use vstd::prelude::*;
use crate::encoding::push_hash;
use crate::ident::{hash_eq, EdgeKey, NodeKey, TypeId, WarpId};
use crate::order::{CanonicalKey, SortKey};

verus! {

/// Attachment plane selector: vertex attachments are `α`, edge attachments `β`.
#[derive(Debug, Clone, Copy, PartialEq, Eq, PartialOrd, Ord, Hash, Structural)]
pub enum AttachmentPlane {
    /// Vertex/node attachment plane (`α`).
    Alpha,
    /// Edge attachment plane (`β`).
    Beta,
}

impl AttachmentPlane {
    /// Persisted tag of the plane.
    pub open spec fn tag_spec(self) -> u8 {
        match self {
            AttachmentPlane::Alpha => 1,
            AttachmentPlane::Beta => 2,
        }
    }

    /// Returns the persisted tag of the plane.
    pub fn tag(self) -> (r: u8)
        ensures
            r == self.tag_spec(),
    {
        match self {
            AttachmentPlane::Alpha => 1,
            AttachmentPlane::Beta => 2,
        }
    }
}

/// Owner identity for an attachment slot.
#[derive(Debug, Clone, Copy, PartialEq, Eq, PartialOrd, Ord, Hash)]
pub enum AttachmentOwner {
    /// Attachment owned by a node.
    Node(NodeKey),
    /// Attachment owned by an edge.
    Edge(EdgeKey),
}

impl AttachmentOwner {
    /// Persisted tag of the owner kind.
    pub open spec fn tag_spec(self) -> u8 {
        match self {
            AttachmentOwner::Node(_) => 1,
            AttachmentOwner::Edge(_) => 2,
        }
    }

    /// Instance owning the node or edge.
    pub open spec fn warp_id_spec(self) -> WarpId {
        match self {
            AttachmentOwner::Node(nk) => nk.warp_id,
            AttachmentOwner::Edge(ek) => ek.warp_id,
        }
    }

    /// Returns the persisted tag of the owner kind.
    pub fn tag(self) -> (r: u8)
        ensures
            r == self.tag_spec(),
    {
        match self {
            AttachmentOwner::Node(_) => 1,
            AttachmentOwner::Edge(_) => 2,
        }
    }

    /// Returns the instance of the owner (node or edge).
    pub fn warp_id(self) -> (r: WarpId)
        ensures
            r == self.warp_id_spec(),
    {
        match self {
            AttachmentOwner::Node(nk) => nk.warp_id,
            AttachmentOwner::Edge(ek) => ek.warp_id,
        }
    }
}

/// First-class identity for an attachment slot.
#[derive(Debug, Clone, Copy, PartialEq, Eq, PartialOrd, Ord, Hash)]
pub struct AttachmentKey {
    /// Owner of the slot.
    pub owner: AttachmentOwner,
    /// Attachment plane selector.
    pub plane: AttachmentPlane,
}

impl AttachmentKey {
    /// Constructs a node-owned attachment key in the vertex/α plane.
    pub fn node_alpha(node: NodeKey) -> (r: Self)
        ensures
            r.owner == AttachmentOwner::Node(node),
            r.plane == AttachmentPlane::Alpha,
    {
        AttachmentKey { owner: AttachmentOwner::Node(node), plane: AttachmentPlane::Alpha }
    }

    /// Constructs an edge-owned attachment key in the edge/β plane.
    pub fn edge_beta(edge: EdgeKey) -> (r: Self)
        ensures
            r.owner == AttachmentOwner::Edge(edge),
            r.plane == AttachmentPlane::Beta,
    {
        AttachmentKey { owner: AttachmentOwner::Edge(edge), plane: AttachmentPlane::Beta }
    }

    /// Returns the owner and plane tags.
    pub fn tag(self) -> (r: (u8, u8))
        ensures
            r == (self.owner.tag_spec(), self.plane.tag_spec()),
    {
        (self.owner.tag(), self.plane.tag())
    }

    /// Node owners pair with the α plane and edge owners with the β plane.
    pub open spec fn plane_valid_spec(&self) -> bool {
        match self.owner {
            AttachmentOwner::Node(_) => self.plane == AttachmentPlane::Alpha,
            AttachmentOwner::Edge(_) => self.plane == AttachmentPlane::Beta,
        }
    }

    /// Returns `true` if the plane is valid for the owner type.
    pub fn is_plane_valid(&self) -> (r: bool)
        ensures
            r == self.plane_valid_spec(),
    {
        match self.owner {
            AttachmentOwner::Node(_) => self.plane == AttachmentPlane::Alpha,
            AttachmentOwner::Edge(_) => self.plane == AttachmentPlane::Beta,
        }
    }
}

impl SortKey for AttachmentKey {
    /// Owner tag, owner instance, owner local id, plane tag.
    open spec fn key(&self) -> Seq<u8> {
        match self.owner {
            AttachmentOwner::Node(nk) => seq![1u8] + nk.warp_id.0@ + nk.local_id.0@ + seq![self.plane.tag_spec()],
            AttachmentOwner::Edge(ek) => seq![2u8] + ek.warp_id.0@ + ek.local_id.0@ + seq![self.plane.tag_spec()],
        }
    }

    fn key_bytes(&self) -> (k: Vec<u8>) {
        let mut out: Vec<u8> = Vec::new();
        match self.owner {
            AttachmentOwner::Node(nk) => {
                out.push(1);
                push_hash(&mut out, &nk.warp_id.0);
                push_hash(&mut out, &nk.local_id.0);
            },
            AttachmentOwner::Edge(ek) => {
                out.push(2);
                push_hash(&mut out, &ek.warp_id.0);
                push_hash(&mut out, &ek.local_id.0);
            },
        }
        out.push(self.plane.tag());
        assert(out@ =~= self.key());
        out
    }
}

impl CanonicalKey for AttachmentKey {
    proof fn lemma_key_injective(a: Self, b: Self) {
        if a.key() == b.key() {
            let k = a.key();
            assert(k.len() == 66);
            assert(a.owner.tag_spec() == k[0] && b.owner.tag_spec() == k[0]);
            match (a.owner, b.owner) {
                (AttachmentOwner::Node(x), AttachmentOwner::Node(y)) => {
                    assert(x.warp_id.0@ =~= k.subrange(1, 33));
                    assert(y.warp_id.0@ =~= k.subrange(1, 33));
                    assert(x.local_id.0@ =~= k.subrange(33, 65));
                    assert(y.local_id.0@ =~= k.subrange(33, 65));
                    assert(x.warp_id.0 =~= y.warp_id.0);
                    assert(x.local_id.0 =~= y.local_id.0);
                },
                (AttachmentOwner::Edge(x), AttachmentOwner::Edge(y)) => {
                    assert(x.warp_id.0@ =~= k.subrange(1, 33));
                    assert(y.warp_id.0@ =~= k.subrange(1, 33));
                    assert(x.local_id.0@ =~= k.subrange(33, 65));
                    assert(y.local_id.0@ =~= k.subrange(33, 65));
                    assert(x.warp_id.0 =~= y.warp_id.0);
                    assert(x.local_id.0 =~= y.local_id.0);
                },
                _ => {},
            }
            assert(a.plane.tag_spec() == k[65] && b.plane.tag_spec() == k[65]);
        }
    }
}

/// Immutable shared byte buffer of the `bytes` crate, carried opaquely.
#[verifier::external_type_specification]
#[verifier::external_body]
pub struct ExBytes(bytes::Bytes);

/// Typed, opaque payload attached to a node or edge: `Atom(TypeId, Bytes)`.
///
/// The type id is part of the deterministic boundary; the bytes are opaque
/// to the core store.
#[derive(Debug, PartialEq, Eq)]
pub struct AtomPayload {
    /// Type identifier describing how to interpret `bytes`.
    pub type_id: TypeId,
    /// Opaque payload bytes.
    pub bytes: bytes::Bytes,
}

impl AtomPayload {
    /// Constructs a new typed atom payload.
    pub fn new(type_id: TypeId, bytes: bytes::Bytes) -> (r: Self)
        ensures
            r.type_id == type_id,
            r.bytes == bytes,
    {
        AtomPayload { type_id, bytes }
    }

    /// Decodes the payload strictly with codec `C`: a payload of another type
    /// is refused with both type ids; otherwise the codec decides.
    pub fn decode_with<C: Codec<T>, T>(&self) -> (r: Result<T, DecodeError>)
        ensures
            self.type_id != C::TYPE_ID ==> r == Err::<T, DecodeError>(
                DecodeError::TypeMismatch { expected: C::TYPE_ID, found: self.type_id },
            ),
    {
        if !hash_eq(&self.type_id.0, &C::TYPE_ID.0) {
            proof {
                if self.type_id.0 == C::TYPE_ID.0 {
                    assert(self.type_id == C::TYPE_ID);
                }
            }
            return Err(DecodeError::TypeMismatch { expected: C::TYPE_ID, found: self.type_id });
        }
        C::decode_strict(&self.bytes)
    }

    /// Decodes the payload for a rule matcher: a type mismatch or a decode
    /// failure means the rule does not apply (`None`).
    pub fn decode_for_match<C: Codec<T>, T>(&self) -> (r: Option<T>)
        ensures
            self.type_id != C::TYPE_ID ==> r is None,
    {
        match self.decode_with::<C, T>() {
            Ok(v) => Some(v),
            Err(_) => None,
        }
    }
}

/// Error returned by strict payload decoding.
#[derive(Debug, Clone, PartialEq, Eq)]
pub enum DecodeError {
    /// The payload type id did not match the codec's expected type id.
    TypeMismatch {
        /// Expected type identifier.
        expected: TypeId,
        /// Found type identifier.
        found: TypeId,
    },
    /// No codec was registered for the payload type id.
    UnknownTypeId(TypeId),
    /// The byte content was invalid for the expected type.
    InvalidBytes,
}

/// Canonical encoder and strict decoder for one payload type, implemented
/// by users of the attachment plane. Decoding must be deterministic and must
/// not consult ambient state.
pub trait Codec<T> {
    /// Type id committed into the attachment atom.
    const TYPE_ID: TypeId;

    /// Encodes `value` into a canonical byte representation.
    fn encode_canon(value: &T) -> bytes::Bytes;

    /// Decodes bytes strictly into `T`, refusing anything that is not a
    /// canonical encoding.
    fn decode_strict(bytes: &bytes::Bytes) -> Result<T, DecodeError>;
}

/// Attachment value stored in the attachment plane.
#[derive(Debug, PartialEq, Eq)]
pub enum AttachmentValue {
    /// Depth-0 atom payload.
    Atom(AtomPayload),
    /// Flattened indirection to a descendant instance.
    Descend(WarpId),
}

} // verus!
