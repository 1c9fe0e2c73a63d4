//! Shell members, outcomes, errors, and the canonical digests of a shell body.
use vstd::prelude::*;
use vstd::bytes::*;
use vstd::string::*;
use crate::admission::AdmissionOutcomeKind;
use crate::braid_shell::BraidMemberRef;
use crate::crypto::{blake3_digest, blake3_hash};
use crate::encoding::{optional_hash_bytes, push_hash, push_optional_hash, push_slice, push_u32_le, push_u64_le};
use crate::ident::{hash_to_vec, WorldlineId};
use crate::order::{CanonicalKey, SortKey};
use crate::plurality_law::PluralityLawReadingError;
use crate::proof_envelope::{proof_digest_spec, ProofEnvelope, ProofError};
use crate::provenance_store::{provenance_ref_bytes, push_provenance_ref, ProvenanceRef};
use crate::revelation::{CausalPosture, PostureObstruction};

verus! {

/// Current braid shell body version.
pub const BRAID_SHELL_VERSION: u32 = 2;

/// Compact settlement verdict for one braid member.
#[derive(Clone, Copy, Debug, PartialEq, Eq, Structural)]
pub enum MemberVerdict {
    /// Every claim from this member was imported.
    Derived,
    /// At least one claim from this member remained lawfully plural.
    Plural,
    /// At least one claim became conflict residue and none remained plural.
    Conflict,
    /// The member's claims were obstructed before judgment completed.
    Obstructed,
}

impl MemberVerdict {
    /// Stable wire tag.
    pub open spec fn tag_spec(self) -> u8 {
        match self {
            MemberVerdict::Derived => 1u8,
            MemberVerdict::Plural => 2u8,
            MemberVerdict::Conflict => 3u8,
            MemberVerdict::Obstructed => 4u8,
        }
    }

    /// Stable wire tag.
    pub fn tag(self) -> (r: u8)
        ensures
            r == self.tag_spec(),
    {
        match self {
            MemberVerdict::Derived => 1,
            MemberVerdict::Plural => 2,
            MemberVerdict::Conflict => 3,
            MemberVerdict::Obstructed => 4,
        }
    }
}

/// One member entry in a braid shell: compact replay facts, never history.
#[derive(Clone, Copy, Debug, PartialEq, Eq)]
pub struct BraidShellMember {
    /// Reference to the member strand, revealed or sealed.
    pub member_ref: BraidMemberRef,
    /// Digest over the member's support-pin set.
    pub support_pin_digest: crate::ident::Hash,
    /// Digest over the member's fork basis facts.
    pub basis_digest: crate::ident::Hash,
    /// Digest over the realized parent frontier the member was judged against.
    pub frontier_digest: crate::ident::Hash,
    /// Digest over the contended footprint slots.
    pub footprint_digest: crate::ident::Hash,
    /// Digest over the member's ordered claim identities.
    pub claim_digest: crate::ident::Hash,
    /// Compact settlement verdict for the member.
    pub verdict: MemberVerdict,
    /// Digest over the member's ordered per-claim decisions.
    pub verdict_digest: crate::ident::Hash,
    /// Revelation posture carried by the member's claims.
    pub posture: CausalPosture,
}

/// Domain prefix of member digests.
pub open spec fn member_domain() -> Seq<u8> {
    "echo.braid.member.v1\0".spec_bytes()
}

/// Bytes a member digest is taken over.
pub open spec fn member_digest_input(m: BraidShellMember) -> Seq<u8> {
    member_domain() + m.member_ref.spec_canonical_bytes() + m.support_pin_digest@ + m.basis_digest@
        + m.frontier_digest@ + m.footprint_digest@ + m.claim_digest@ + seq![m.verdict.tag_spec()]
        + m.verdict_digest@ + seq![m.posture.tag_spec()]
}

/// Canonical content digest of a member.
pub open spec fn member_digest_spec(m: BraidShellMember) -> Seq<u8> {
    blake3_digest(member_digest_input(m))
}

impl BraidShellMember {
    /// Canonical content digest for this member.
    pub fn member_digest(&self) -> (r: crate::ident::Hash)
        ensures
            r@ == member_digest_spec(*self),
    {
        let mut input: Vec<u8> = Vec::new();
        push_slice(&mut input, "echo.braid.member.v1\0".as_bytes());
        self.member_ref.push_canonical(&mut input);
        push_hash(&mut input, &self.support_pin_digest);
        push_hash(&mut input, &self.basis_digest);
        push_hash(&mut input, &self.frontier_digest);
        push_hash(&mut input, &self.footprint_digest);
        push_hash(&mut input, &self.claim_digest);
        input.push(self.verdict.tag());
        push_hash(&mut input, &self.verdict_digest);
        input.push(self.posture.canonical_tag());
        proof {
            reveal_strlit("echo.braid.member.v1\0");
            assert(input@ =~= member_digest_input(*self));
        }
        blake3_hash(input.as_slice())
    }
}

impl SortKey for BraidShellMember {
    open spec fn key(&self) -> Seq<u8> {
        member_digest_spec(*self)
    }

    fn key_bytes(&self) -> (k: Vec<u8>) {
        let d = self.member_digest();
        hash_to_vec(&d)
    }
}

/// Concatenated member digests, in order.
pub open spec fn member_digests_concat(ms: Seq<BraidShellMember>) -> Seq<u8>
    decreases ms.len(),
{
    if ms.len() == 0 {
        Seq::empty()
    } else {
        member_digests_concat(ms.drop_last()) + member_digest_spec(ms.last())
    }
}

/// Braid-shell outcome over the shared lawful algebra.
#[derive(Clone, Debug, PartialEq, Eq)]
pub enum BraidShellOutcome {
    /// A single lawful result was derived.
    Derived {
        /// Target-worldline refs realized by the derivation.
        result_refs: Vec<ProvenanceRef>,
        /// Collapse policy when this derivation collapsed retained plurality.
        collapse_policy: Option<crate::ident::Hash>,
        /// Witness for the explicit collapse act, when applicable.
        collapse_witness: Option<crate::ident::Hash>,
        /// Plural parent shell this derivation collapsed, when applicable.
        collapsed_from: Option<crate::ident::Hash>,
    },
    /// Multiple lawful alternatives remain retained.
    Plural {
        /// Stable plural artifact ids of the retained alternatives.
        alternative_ids: Vec<crate::ident::Hash>,
    },
    /// The settlement produced explicit conflict residue.
    Conflict {
        /// Deterministic per-claim conflict reason codes in claim order.
        reason_codes: Vec<u8>,
    },
    /// The settlement act was obstructed before judgment completed.
    Obstruction {
        /// Deterministic obstruction reason code.
        reason_code: u8,
        /// Witness digest for the obstruction.
        witness: crate::ident::Hash,
        /// Shell whose transition this obstruction refused, when applicable.
        obstructed_from: Option<crate::ident::Hash>,
    },
}

/// Mathematical view of an outcome.
pub enum OutcomeView {
    /// Derived outcome.
    Derived {
        /// Result refs.
        result_refs: Seq<ProvenanceRef>,
        /// Collapse policy.
        collapse_policy: Option<crate::ident::Hash>,
        /// Collapse witness.
        collapse_witness: Option<crate::ident::Hash>,
        /// Collapsed parent.
        collapsed_from: Option<crate::ident::Hash>,
    },
    /// Plural outcome.
    Plural {
        /// Alternative ids.
        alternative_ids: Seq<crate::ident::Hash>,
    },
    /// Conflict outcome.
    Conflict {
        /// Reason codes.
        reason_codes: Seq<u8>,
    },
    /// Obstruction outcome.
    Obstruction {
        /// Reason code.
        reason_code: u8,
        /// Witness digest.
        witness: crate::ident::Hash,
        /// Refused parent.
        obstructed_from: Option<crate::ident::Hash>,
    },
}

impl View for BraidShellOutcome {
    type V = OutcomeView;

    open spec fn view(&self) -> OutcomeView {
        match self {
            BraidShellOutcome::Derived { result_refs, collapse_policy, collapse_witness, collapsed_from } =>
                OutcomeView::Derived {
                result_refs: result_refs@,
                collapse_policy: *collapse_policy,
                collapse_witness: *collapse_witness,
                collapsed_from: *collapsed_from,
            },
            BraidShellOutcome::Plural { alternative_ids } => OutcomeView::Plural { alternative_ids: alternative_ids@ },
            BraidShellOutcome::Conflict { reason_codes } => OutcomeView::Conflict { reason_codes: reason_codes@ },
            BraidShellOutcome::Obstruction { reason_code, witness, obstructed_from } => OutcomeView::Obstruction {
                reason_code: *reason_code,
                witness: *witness,
                obstructed_from: *obstructed_from,
            },
        }
    }
}

/// Outcome arm of an outcome view.
pub open spec fn outcome_kind_spec(o: OutcomeView) -> AdmissionOutcomeKind {
    match o {
        OutcomeView::Derived { .. } => AdmissionOutcomeKind::Derived,
        OutcomeView::Plural { .. } => AdmissionOutcomeKind::Plural,
        OutcomeView::Conflict { .. } => AdmissionOutcomeKind::Conflict,
        OutcomeView::Obstruction { .. } => AdmissionOutcomeKind::Obstruction,
    }
}

impl BraidShellOutcome {
    /// Maps the shell outcome onto the shared lawful outcome family.
    pub fn kind(&self) -> (r: AdmissionOutcomeKind)
        ensures
            r == outcome_kind_spec(self@),
    {
        match self {
            BraidShellOutcome::Derived { .. } => AdmissionOutcomeKind::Derived,
            BraidShellOutcome::Plural { .. } => AdmissionOutcomeKind::Plural,
            BraidShellOutcome::Conflict { .. } => AdmissionOutcomeKind::Conflict,
            BraidShellOutcome::Obstruction { .. } => AdmissionOutcomeKind::Obstruction,
        }
    }
}

/// Concatenated canonical bytes of provenance references.
pub open spec fn provenance_refs_concat(rs: Seq<ProvenanceRef>) -> Seq<u8>
    decreases rs.len(),
{
    if rs.len() == 0 {
        Seq::empty()
    } else {
        provenance_refs_concat(rs.drop_last()) + provenance_ref_bytes(rs.last())
    }
}

/// Concatenated digests.
pub open spec fn hashes_concat(hs: Seq<crate::ident::Hash>) -> Seq<u8>
    decreases hs.len(),
{
    if hs.len() == 0 {
        Seq::empty()
    } else {
        hashes_concat(hs.drop_last()) + hs.last()@
    }
}

/// Canonical bytes of an outcome.
pub open spec fn outcome_bytes(o: OutcomeView) -> Seq<u8> {
    match o {
        OutcomeView::Derived { result_refs, collapse_policy, collapse_witness, collapsed_from } => seq![1u8]
            + spec_u64_to_le_bytes(result_refs.len() as u64) + provenance_refs_concat(result_refs)
            + optional_hash_bytes(collapse_policy) + optional_hash_bytes(collapse_witness) + optional_hash_bytes(
            collapsed_from,
        ),
        OutcomeView::Plural { alternative_ids } => seq![2u8] + spec_u64_to_le_bytes(alternative_ids.len() as u64)
            + hashes_concat(alternative_ids),
        OutcomeView::Conflict { reason_codes } => seq![3u8] + spec_u64_to_le_bytes(reason_codes.len() as u64)
            + reason_codes,
        OutcomeView::Obstruction { reason_code, witness, obstructed_from } => seq![4u8, reason_code] + witness@
            + optional_hash_bytes(obstructed_from),
    }
}

fn push_outcome(out: &mut Vec<u8>, o: &BraidShellOutcome)
    ensures
        final(out)@ == old(out)@ + outcome_bytes(o@),
{
    match o {
        BraidShellOutcome::Derived { result_refs, collapse_policy, collapse_witness, collapsed_from } => {
            out.push(1u8);
            push_u64_le(out, result_refs.len() as u64);
            let ghost mid = out@;
            let mut i: usize = 0;
            while i < result_refs.len()
                invariant
                    i <= result_refs@.len(),
                    out@ == mid + provenance_refs_concat(result_refs@.take(i as int)),
                decreases result_refs.len() - i,
            {
                push_provenance_ref(out, &result_refs[i]);
                proof {
                    assert(result_refs@.take(i + 1).drop_last() =~= result_refs@.take(i as int));
                }
                i += 1;
            }
            assert(result_refs@.take(result_refs@.len() as int) =~= result_refs@);
            push_optional_hash(out, *collapse_policy);
            push_optional_hash(out, *collapse_witness);
            push_optional_hash(out, *collapsed_from);
            assert(out@ =~= old(out)@ + outcome_bytes(o@));
        },
        BraidShellOutcome::Plural { alternative_ids } => {
            out.push(2u8);
            push_u64_le(out, alternative_ids.len() as u64);
            let ghost mid = out@;
            let mut i: usize = 0;
            while i < alternative_ids.len()
                invariant
                    i <= alternative_ids@.len(),
                    out@ == mid + hashes_concat(alternative_ids@.take(i as int)),
                decreases alternative_ids.len() - i,
            {
                push_hash(out, &alternative_ids[i]);
                proof {
                    assert(alternative_ids@.take(i + 1).drop_last() =~= alternative_ids@.take(i as int));
                }
                i += 1;
            }
            assert(alternative_ids@.take(alternative_ids@.len() as int) =~= alternative_ids@);
            assert(out@ =~= old(out)@ + outcome_bytes(o@));
        },
        BraidShellOutcome::Conflict { reason_codes } => {
            out.push(3u8);
            push_u64_le(out, reason_codes.len() as u64);
            push_slice(out, reason_codes.as_slice());
            assert(out@ =~= old(out)@ + outcome_bytes(o@));
        },
        BraidShellOutcome::Obstruction { reason_code, witness, obstructed_from } => {
            out.push(4u8);
            out.push(*reason_code);
            push_hash(out, witness);
            push_optional_hash(out, *obstructed_from);
            assert(out@ =~= old(out)@ + outcome_bytes(o@));
        },
    }
}

/// Obstructions raised while assembling, validating, or replaying a shell.
#[derive(Clone, Copy, Debug, PartialEq, Eq)]
pub enum BraidShellError {
    /// A shell must summarize at least one member.
    EmptyMembers,
    /// The shell posture exceeds its least-revealed member.
    PostureExceedsMembers(PostureObstruction),
    /// Outcome arm and member verdicts disagree.
    OutcomeMemberMismatch {
        /// Outcome arm the shell claims.
        outcome: AdmissionOutcomeKind,
    },
    /// The stored digest does not match the recomputed canonical body.
    DigestMismatch {
        /// Digest stored on the shell.
        stored: crate::ident::Hash,
        /// Digest recomputed from the body.
        recomputed: crate::ident::Hash,
    },
    /// The stored witness digest does not match the recomputed body witness.
    WitnessMismatch {
        /// Witness digest stored on the shell.
        stored: crate::ident::Hash,
        /// Witness digest recomputed from the body.
        recomputed: crate::ident::Hash,
    },
    /// The proof shape validation failed.
    ProofShapeValidationFailed {
        /// Reason for shape validation failure.
        reason: ProofError,
    },
    /// Member entries are not in canonical order.
    NonCanonicalMemberOrder,
    /// No shell record exists for the requested digest.
    ShellNotFound {
        /// Digest that resolved to nothing.
        digest: crate::ident::Hash,
    },
    /// A shell with this digest is already retained with different content.
    DuplicateDigestDivergentContent {
        /// Digest both shells claim.
        digest: crate::ident::Hash,
    },
    /// The shell claims a body version this build does not speak.
    UnsupportedVersion {
        /// Version stored on the shell.
        stored: u32,
        /// Version this build supports.
        supported: u32,
    },
    /// Plural alternatives are not in canonical set order.
    NonCanonicalAlternativeOrder,
    /// Collapse lineage fields must be all present or all absent.
    IncoherentCollapseFields,
    /// A witness digest must never be a 32-byte shrug.
    EmptyWitness,
    /// A policy id must name a non-empty law.
    EmptyPolicyId,
    /// A law reading failed validation.
    LawReading(PluralityLawReadingError),
    /// A lineage parent shell is missing or not plural.
    InvalidLineageParent {
        /// Parent shell digest named by a collapse or obstruction lineage.
        parent: crate::ident::Hash,
    },
    /// The stored braid coordinate does not match the recomputed body.
    CoordinateMismatch,
    /// Plural alternatives are a set; duplicates are refused.
    DuplicateAlternativeId {
        /// Alternative id that appeared more than once.
        alternative_id: crate::ident::Hash,
    },
    /// One strand may appear at most once among shell members.
    DuplicateMemberStrand {
        /// Member reference that appeared more than once.
        member_ref: BraidMemberRef,
    },
    /// Revealed and sealed member references may not be mixed in one shell.
    MixedMemberReferencePosture,
    /// A retained plural artifact id may never migrate to a different shell.
    PluralArtifactAlreadyBound {
        /// Plural artifact id being bound.
        plural_id: crate::ident::Hash,
        /// Shell digest the id is already bound to.
        existing_shell: crate::ident::Hash,
        /// Shell digest the rebind attempted.
        attempted_shell: crate::ident::Hash,
    },
}

/// Canonical coordinate of a braid: where the shell lives in braid space.
#[derive(Clone, Copy, Debug, PartialEq, Eq, PartialOrd, Ord)]
pub struct BraidCoordinate(pub crate::ident::Hash);

/// Retained braid-scale settlement boundary.
#[derive(Clone, Debug, PartialEq, Eq)]
pub struct BraidShell {
    /// Shell body version.
    pub version: u32,
    /// Canonical braid coordinate this shell lives at.
    pub coordinate: BraidCoordinate,
    /// Target worldline the settlement judged into.
    pub worldline_id: WorldlineId,
    /// Comparison basis the members were judged against.
    pub basis: ProvenanceRef,
    /// Canonically ordered member entries.
    pub members: Vec<BraidShellMember>,
    /// Settlement policy identity the act ran under.
    pub policy_id: crate::ident::Hash,
    /// Outcome arm over the shared lawful algebra.
    pub outcome: BraidShellOutcome,
    /// Witness digest binding the settlement act (a domain-separated self-witness).
    pub witness_digest: crate::ident::Hash,
    /// Revelation posture of the shell itself.
    pub posture: CausalPosture,
    /// Optional proof-shaped evidence envelope bound into shell identity.
    pub proof: Option<ProofEnvelope>,
    /// Canonical content digest of the full shell body.
    pub digest: crate::ident::Hash,
}

/// Domain prefix of shell digests.
pub open spec fn shell_domain() -> Seq<u8> {
    "echo.shell.braid.v1\0".spec_bytes()
}

/// Domain prefix of witness digests.
pub open spec fn witness_domain() -> Seq<u8> {
    "echo.braid.witness.v1\0".spec_bytes()
}

/// Domain prefix of braid coordinates.
pub open spec fn coordinate_domain() -> Seq<u8> {
    "echo.braid.coordinate.v1\0".spec_bytes()
}

/// Canonical coordinate of a braid: basis, member digests, policy.
pub open spec fn coordinate_spec(
    basis: ProvenanceRef,
    members: Seq<BraidShellMember>,
    policy_id: crate::ident::Hash,
) -> Seq<u8> {
    blake3_digest(coordinate_domain() + provenance_ref_bytes(basis) + spec_u64_to_le_bytes(members.len() as u64)
        + member_digests_concat(members) + policy_id@)
}

/// Canonical shell body shared by the witness and shell digests.
pub open spec fn shell_body(
    version: u32,
    worldline_id: WorldlineId,
    basis: ProvenanceRef,
    members: Seq<BraidShellMember>,
    policy_id: crate::ident::Hash,
    outcome: OutcomeView,
    posture: CausalPosture,
) -> Seq<u8> {
    spec_u32_to_le_bytes(version) + worldline_id.0@ + provenance_ref_bytes(basis) + spec_u64_to_le_bytes(
        members.len() as u64,
    ) + member_digests_concat(members) + policy_id@ + outcome_bytes(outcome) + seq![posture.tag_spec()]
}

/// Self-witness digest of a shell body.
pub open spec fn witness_spec(
    version: u32,
    worldline_id: WorldlineId,
    basis: ProvenanceRef,
    members: Seq<BraidShellMember>,
    policy_id: crate::ident::Hash,
    outcome: OutcomeView,
    posture: CausalPosture,
) -> Seq<u8> {
    blake3_digest(witness_domain() + shell_body(version, worldline_id, basis, members, policy_id, outcome, posture))
}

/// Proof marker: `0`, or `1` then the envelope digest.
pub open spec fn proof_marker(envelope: Option<ProofEnvelope>) -> Seq<u8> {
    match envelope {
        None => seq![0u8],
        Some(p) => seq![1u8] + proof_digest_spec(p),
    }
}

/// Canonical content digest of a shell.
pub open spec fn shell_digest_spec(
    version: u32,
    worldline_id: WorldlineId,
    basis: ProvenanceRef,
    members: Seq<BraidShellMember>,
    policy_id: crate::ident::Hash,
    outcome: OutcomeView,
    witness: crate::ident::Hash,
    posture: CausalPosture,
    envelope: Option<ProofEnvelope>,
) -> Seq<u8> {
    blake3_digest(shell_domain() + shell_body(version, worldline_id, basis, members, policy_id, outcome, posture)
        + witness@ + proof_marker(envelope))
}

/// Member digests of `members`, in order.
pub(crate) fn member_digests(members: &[BraidShellMember]) -> (r: Vec<crate::ident::Hash>)
    ensures
        r@.len() == members@.len(),
        forall|i: int| 0 <= i < members@.len() ==> (#[trigger] r@[i])@ == member_digest_spec(members@[i]),
{
    let mut out: Vec<crate::ident::Hash> = Vec::new();
    let mut i: usize = 0;
    while i < members.len()
        invariant
            i <= members@.len(),
            out@.len() == i,
            forall|j: int| 0 <= j < i ==> (#[trigger] out@[j])@ == member_digest_spec(members@[j]),
        decreases members.len() - i,
    {
        let d = members[i].member_digest();
        out.push(d);
        i += 1;
    }
    out
}

fn push_member_digests(
    out: &mut Vec<u8>,
    digests: &[crate::ident::Hash],
    Ghost(members): Ghost<Seq<BraidShellMember>>,
)
    requires
        digests@.len() == members.len(),
        forall|i: int| 0 <= i < members.len() ==> (#[trigger] digests@[i])@ == member_digest_spec(members[i]),
    ensures
        final(out)@ == old(out)@ + member_digests_concat(members),
{
    let mut i: usize = 0;
    while i < digests.len()
        invariant
            i <= digests@.len(),
            digests@.len() == members.len(),
            forall|k: int| 0 <= k < members.len() ==> (#[trigger] digests@[k])@ == member_digest_spec(members[k]),
            out@ == old(out)@ + member_digests_concat(members.take(i as int)),
        decreases digests.len() - i,
    {
        push_hash(out, &digests[i]);
        proof {
            assert(members.take(i + 1).drop_last() =~= members.take(i as int));
        }
        i += 1;
    }
    assert(members.take(members.len() as int) =~= members);
}

/// Derives the braid coordinate from the basis, member digests, and policy.
pub(crate) fn derive_coordinate(
    basis: &ProvenanceRef,
    digests: &[crate::ident::Hash],
    policy_id: crate::ident::Hash,
    Ghost(members): Ghost<Seq<BraidShellMember>>,
) -> (r: BraidCoordinate)
    requires
        digests@.len() == members.len(),
        forall|i: int| 0 <= i < members.len() ==> (#[trigger] digests@[i])@ == member_digest_spec(members[i]),
    ensures
        r.0@ == coordinate_spec(*basis, members, policy_id),
{
    let mut input: Vec<u8> = Vec::new();
    push_slice(&mut input, "echo.braid.coordinate.v1\0".as_bytes());
    push_provenance_ref(&mut input, basis);
    push_u64_le(&mut input, digests.len() as u64);
    push_member_digests(&mut input, digests, Ghost(members));
    push_hash(&mut input, &policy_id);
    proof {
        reveal_strlit("echo.braid.coordinate.v1\0");
        assert(input@ =~= coordinate_domain() + provenance_ref_bytes(*basis) + spec_u64_to_le_bytes(
            members.len() as u64,
        ) + member_digests_concat(members) + policy_id@);
    }
    BraidCoordinate(blake3_hash(input.as_slice()))
}

fn push_shell_body(
    out: &mut Vec<u8>,
    version: u32,
    worldline_id: WorldlineId,
    basis: &ProvenanceRef,
    digests: &[crate::ident::Hash],
    policy_id: crate::ident::Hash,
    outcome: &BraidShellOutcome,
    posture: CausalPosture,
    Ghost(members): Ghost<Seq<BraidShellMember>>,
)
    requires
        digests@.len() == members.len(),
        forall|i: int| 0 <= i < members.len() ==> (#[trigger] digests@[i])@ == member_digest_spec(members[i]),
    ensures
        final(out)@ == old(out)@ + shell_body(version, worldline_id, *basis, members, policy_id, outcome@, posture),
{
    push_u32_le(out, version);
    push_hash(out, &worldline_id.0);
    push_provenance_ref(out, basis);
    push_u64_le(out, digests.len() as u64);
    push_member_digests(out, digests, Ghost(members));
    push_hash(out, &policy_id);
    push_outcome(out, outcome);
    out.push(posture.canonical_tag());
    assert(out@ =~= old(out)@ + shell_body(version, worldline_id, *basis, members, policy_id, outcome@, posture));
}

/// Computes the self-witness digest of a shell body.
pub(crate) fn compute_witness_digest(
    version: u32,
    worldline_id: WorldlineId,
    basis: &ProvenanceRef,
    digests: &[crate::ident::Hash],
    policy_id: crate::ident::Hash,
    outcome: &BraidShellOutcome,
    posture: CausalPosture,
    Ghost(members): Ghost<Seq<BraidShellMember>>,
) -> (r: crate::ident::Hash)
    requires
        digests@.len() == members.len(),
        forall|i: int| 0 <= i < members.len() ==> (#[trigger] digests@[i])@ == member_digest_spec(members[i]),
    ensures
        r@ == witness_spec(version, worldline_id, *basis, members, policy_id, outcome@, posture),
{
    let mut input: Vec<u8> = Vec::new();
    push_slice(&mut input, "echo.braid.witness.v1\0".as_bytes());
    push_shell_body(&mut input, version, worldline_id, basis, digests, policy_id, outcome, posture, Ghost(members));
    proof {
        reveal_strlit("echo.braid.witness.v1\0");
        assert(input@ =~= witness_domain() + shell_body(version, worldline_id, *basis, members, policy_id, outcome@, posture));
    }
    blake3_hash(input.as_slice())
}

/// Computes the canonical content digest of a shell.
pub(crate) fn compute_shell_digest(
    version: u32,
    worldline_id: WorldlineId,
    basis: &ProvenanceRef,
    digests: &[crate::ident::Hash],
    policy_id: crate::ident::Hash,
    outcome: &BraidShellOutcome,
    witness: crate::ident::Hash,
    posture: CausalPosture,
    envelope: &Option<ProofEnvelope>,
    Ghost(members): Ghost<Seq<BraidShellMember>>,
) -> (r: crate::ident::Hash)
    requires
        digests@.len() == members.len(),
        forall|i: int| 0 <= i < members.len() ==> (#[trigger] digests@[i])@ == member_digest_spec(members[i]),
    ensures
        r@ == shell_digest_spec(version, worldline_id, *basis, members, policy_id, outcome@, witness, posture, *envelope),
{
    let mut input: Vec<u8> = Vec::new();
    push_slice(&mut input, "echo.shell.braid.v1\0".as_bytes());
    push_shell_body(&mut input, version, worldline_id, basis, digests, policy_id, outcome, posture, Ghost(members));
    push_hash(&mut input, &witness);
    match envelope {
        Some(p) => {
            let d = p.digest();
            input.push(1u8);
            push_hash(&mut input, &d);
        },
        None => {
            input.push(0u8);
        },
    }
    proof {
        reveal_strlit("echo.shell.braid.v1\0");
        assert(input@ =~= shell_domain() + shell_body(version, worldline_id, *basis, members, policy_id, outcome@, posture)
            + witness@ + proof_marker(*envelope));
    }
    blake3_hash(input.as_slice())
}

} // verus!
