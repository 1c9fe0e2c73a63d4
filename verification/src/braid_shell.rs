//! Retained braid-scale settlement boundary shells.
use vstd::prelude::*;
use vstd::string::*;
use crate::crypto::{blake3_digest, blake3_hash};
use crate::encoding::{push_hash, push_slice};
use crate::ident::{authority_eq, hash_eq, AuthorityDomainRef, StrandId, WorldlineId};
use crate::order::{CanonicalKey, SortKey};

pub mod model;
pub mod checks;
pub mod replay;

pub use crate::braid_shell::replay::{
    audit_braid_shell, replay_braid_shell, BraidProofBinding, BraidShellAudit, BraidShellMemberAuditFact,
    BraidShellMemberQuery, BraidShellQuery, BraidShellRecords, BraidShellReplay, BraidWitnessPosture,
    RetainedBoundaryKind, RetainedBoundaryRecord, collapse_braid_shell, CollapsePolicy, CollapseResult,
    COLLAPSE_WITHOUT_POLICY_REASON,
};
pub use crate::braid_shell::model::{
    BraidCoordinate, BraidShell, BraidShellError, BraidShellMember, BraidShellOutcome, MemberVerdict,
    BRAID_SHELL_VERSION,
};

verus! {

/// Reference to a braid member, revealed or sealed.
#[derive(Clone, Copy, Debug, PartialEq, Eq, Hash, PartialOrd, Ord)]
pub enum BraidMemberRef {
    /// Publicly revealed strand identity.
    Revealed(StrandId),
    /// Sealed member reference.
    Sealed {
        /// Domain-separated commitment digest of the member's identity.
        blinded_commitment: crate::ident::Hash,
        /// Causal authority domain controlling the private history.
        authority: AuthorityDomainRef,
    },
}

impl BraidMemberRef {
    /// Stable wire tag for canonical serialization.
    pub open spec fn spec_tag(self) -> u8 {
        match self {
            BraidMemberRef::Revealed(_) => 1u8,
            BraidMemberRef::Sealed { .. } => 2u8,
        }
    }

    /// Canonical bytes: tag, then the identity bytes.
    pub open spec fn spec_canonical_bytes(self) -> Seq<u8> {
        match self {
            BraidMemberRef::Revealed(id) => seq![1u8] + id.0@,
            BraidMemberRef::Sealed { blinded_commitment, authority } => seq![2u8]
                + blinded_commitment@ + authority.origin_id.0@ + authority.domain_id.0@,
        }
    }

    /// Stable wire tag for canonical serialization.
    pub fn canonical_tag(self) -> (r: u8)
        ensures
            r == self.spec_tag(),
    {
        match self {
            BraidMemberRef::Revealed(_) => 1,
            BraidMemberRef::Sealed { .. } => 2,
        }
    }

    /// Returns `true` for a sealed reference.
    pub fn is_sealed(self) -> (r: bool)
        ensures
            r == (self is Sealed),
    {
        match self {
            BraidMemberRef::Revealed(_) => false,
            BraidMemberRef::Sealed { .. } => true,
        }
    }

    /// Appends the canonical bytes of this reference.
    pub fn push_canonical(self, out: &mut Vec<u8>)
        ensures
            final(out)@ == old(out)@ + self.spec_canonical_bytes(),
    {
        out.push(self.canonical_tag());
        match self {
            BraidMemberRef::Revealed(id) => {
                push_hash(out, &id.0);
            },
            BraidMemberRef::Sealed { blinded_commitment, authority } => {
                push_hash(out, &blinded_commitment);
                push_hash(out, &authority.origin_id.0);
                push_hash(out, &authority.domain_id.0);
            },
        }
        assert(out@ =~= old(out)@ + self.spec_canonical_bytes());
    }
}

/// Domain prefix of sealed member commitments.
pub open spec fn sealed_member_domain() -> Seq<u8> {
    "echo.braid.member.sealed.v1\0".spec_bytes()
}

/// Commitment of a sealed member: domain, blinding secret, child worldline, strand.
pub open spec fn seal_spec(strand_id: StrandId, child_worldline_id: WorldlineId, blinding_secret: crate::ident::Hash) -> Seq<u8> {
    blake3_digest(sealed_member_domain() + blinding_secret@ + child_worldline_id.0@ + strand_id.0@)
}

/// A reference matches a strand when it is sealed under `authority` with the
/// commitment derived from the strand, child worldline and blinding secret.
pub open spec fn matches_strand_spec(
    r: BraidMemberRef,
    strand_id: StrandId,
    child_worldline_id: WorldlineId,
    authority: AuthorityDomainRef,
    blinding_secret: crate::ident::Hash,
) -> bool {
    match r {
        BraidMemberRef::Revealed(_) => false,
        BraidMemberRef::Sealed { blinded_commitment, authority: a } => a == authority && blinded_commitment@ == seal_spec(
            strand_id,
            child_worldline_id,
            blinding_secret,
        ),
    }
}

impl BraidMemberRef {
    /// Computes the commitment for a sealed reference from non-public blinding material.
    pub fn seal(strand_id: StrandId, child_worldline_id: WorldlineId, blinding_secret: crate::ident::Hash) -> (r: crate::ident::Hash)
        ensures
            r@ == seal_spec(strand_id, child_worldline_id, blinding_secret),
    {
        let mut input: Vec<u8> = Vec::new();
        push_slice(&mut input, "echo.braid.member.sealed.v1\0".as_bytes());
        push_hash(&mut input, &blinding_secret);
        push_hash(&mut input, &child_worldline_id.0);
        push_hash(&mut input, &strand_id.0);
        proof {
            reveal_strlit("echo.braid.member.sealed.v1\0");
            assert(input@ =~= sealed_member_domain() + blinding_secret@ + child_worldline_id.0@ + strand_id.0@);
        }
        blake3_hash(input.as_slice())
    }

    /// Whether this sealed reference matches the given strand, child
    /// worldline, authority and blinding material; revealed references never do.
    pub fn matches_strand(
        &self,
        strand_id: &StrandId,
        child_worldline_id: &WorldlineId,
        authority: &AuthorityDomainRef,
        blinding_secret: &crate::ident::Hash,
    ) -> (r: bool)
        ensures
            r == matches_strand_spec(*self, *strand_id, *child_worldline_id, *authority, *blinding_secret),
    {
        match self {
            BraidMemberRef::Revealed(_) => false,
            BraidMemberRef::Sealed { blinded_commitment, authority: member_authority } => {
                let expected = Self::seal(*strand_id, *child_worldline_id, *blinding_secret);
                authority_eq(member_authority, authority) && hash_eq(blinded_commitment, &expected)
            },
        }
    }
}

/// Exact equality of member references.
pub fn member_ref_eq(a: &BraidMemberRef, b: &BraidMemberRef) -> (r: bool)
    ensures
        r == (*a == *b),
{
    match (a, b) {
        (BraidMemberRef::Revealed(x), BraidMemberRef::Revealed(y)) => hash_eq(&x.0, &y.0),
        (
            BraidMemberRef::Sealed { blinded_commitment: c1, authority: a1 },
            BraidMemberRef::Sealed { blinded_commitment: c2, authority: a2 },
        ) => hash_eq(c1, c2) && hash_eq(&a1.origin_id.0, &a2.origin_id.0) && hash_eq(
            &a1.domain_id.0,
            &a2.domain_id.0,
        ),
        _ => false,
    }
}

impl SortKey for BraidMemberRef {
    open spec fn key(&self) -> Seq<u8> {
        self.spec_canonical_bytes()
    }

    fn key_bytes(&self) -> (k: Vec<u8>) {
        let mut k = Vec::new();
        self.push_canonical(&mut k);
        assert(k@ =~= self.spec_canonical_bytes());
        k
    }
}

impl CanonicalKey for BraidMemberRef {
    proof fn lemma_key_injective(a: Self, b: Self) {
        if a.key() == b.key() {
            let k = a.key();
            match (a, b) {
                (BraidMemberRef::Revealed(x), BraidMemberRef::Revealed(y)) => {
                    assert(x.0@ =~= k.subrange(1, 33));
                    assert(y.0@ =~= k.subrange(1, 33));
                    assert(x.0 =~= y.0);
                },
                (
                    BraidMemberRef::Sealed { blinded_commitment: c1, authority: a1 },
                    BraidMemberRef::Sealed { blinded_commitment: c2, authority: a2 },
                ) => {
                    assert(c1@ =~= k.subrange(1, 33));
                    assert(c2@ =~= k.subrange(1, 33));
                    assert(a1.origin_id.0@ =~= k.subrange(33, 65));
                    assert(a2.origin_id.0@ =~= k.subrange(33, 65));
                    assert(a1.domain_id.0@ =~= k.subrange(65, 97));
                    assert(a2.domain_id.0@ =~= k.subrange(65, 97));
                    assert(c1 =~= c2);
                    assert(a1.origin_id.0 =~= a2.origin_id.0);
                    assert(a1.domain_id.0 =~= a2.domain_id.0);
                },
                (BraidMemberRef::Revealed(_), _) => {
                    assert(a.key()[0] == 1u8);
                    assert(b.key()[0] == 2u8);
                },
                (_, _) => {
                    assert(a.key()[0] == 2u8);
                    assert(b.key()[0] == 1u8);
                },
            }
        }
    }}

} // verus!
