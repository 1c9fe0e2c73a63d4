//! Replay, audit, collapse and queries over retained braid shells.
use vstd::prelude::*;
use vstd::string::*;
use crate::admission::AdmissionOutcomeKind;
use crate::braid_shell::checks::{assembled_as, assembly_error, shell_valid, validation_matches};
use crate::braid_shell::model::{
    outcome_kind_spec, BraidCoordinate, BraidShell, BraidShellError, BraidShellMember, BraidShellOutcome,
    MemberVerdict, OutcomeView,
};
use crate::braid_shell::{matches_strand_spec, member_ref_eq, BraidMemberRef};
use crate::crypto::{blake3_digest, blake3_hash};
use crate::encoding::{push_hash, push_slice};
use crate::text::string_from_utf8;
use vstd::utf8::{encode_utf8, valid_utf8};
use crate::ident::{hash_eq, is_zero_hash, AuthorityDomainRef, StrandId, WorldlineId};
use crate::plurality_law::{PluralityLawFamily, PluralityLawReading, PluralityLawRef};
use crate::proof_envelope::{proof_digest_spec, ProofKind};
use crate::provenance_store::{provenance_ref_eq, ProvenanceRef};
use crate::revelation::{lemma_posture_floor_is_least, posture_floor, CausalPosture, WitnessDigest};
use crate::sealed_membership::DisclosureBudget;
use crate::witness::{WitnessAttestation, WitnessCompatibilityRule, WitnessKind, WitnessReceipt};
use crate::braid_shell::checks::member_postures;
use crate::causal_wal::digest_map::DigestMap;

verus! {

/// Read access to retained shell records, and nothing else: replay's only
/// window into the world.
pub trait BraidShellRecords {
    /// The shell retained under `digest`, if any.
    spec fn stored(&self, digest: crate::ident::Hash) -> Option<BraidShell>;

    /// Returns the retained shell with the given digest, if any.
    fn shell(&self, digest: &crate::ident::Hash) -> (r: Option<&BraidShell>)
        ensures
            deref_shell(r) == self.stored(*digest),
    ;
}

/// Shells retained in a digest-keyed map.
impl BraidShellRecords for DigestMap<BraidShell> {
    open spec fn stored(&self, digest: crate::ident::Hash) -> Option<BraidShell> {
        if self@.dom().contains(digest) {
            Some(self@[digest])
        } else {
            None
        }
    }

    fn shell(&self, digest: &crate::ident::Hash) -> (r: Option<&BraidShell>) {
        self.lookup(digest)
    }
}

/// The lineage parent retained for `shell`, if it names one.
pub open spec fn stored_parent<R: BraidShellRecords>(records: &R, shell: Option<BraidShell>) -> Option<BraidShell> {
    match shell {
        None => None,
        Some(s) => match lineage_parent(s.outcome@) {
            None => None,
            Some(p) => records.stored(p),
        },
    }
}

/// Outcome reproduced from a retained shell alone.
#[derive(Clone, Debug, PartialEq, Eq)]
pub struct BraidShellReplay {
    /// Outcome arm reproduced from the shell.
    pub outcome_kind: AdmissionOutcomeKind,
    /// Member verdicts in canonical member order.
    pub member_verdicts: Vec<(BraidMemberRef, MemberVerdict)>,
    /// Policy identity the act ran under.
    pub policy_id: crate::ident::Hash,
    /// Named law that interpreted retained plurality or collapse.
    pub law_ref: PluralityLawRef,
    /// Witness digest binding the act.
    pub witness_digest: crate::ident::Hash,
    /// Revelation posture of the shell.
    pub posture: CausalPosture,
}

/// Proof-binding fact for braid shell audit output.
#[derive(Clone, Copy, Debug, PartialEq, Eq)]
pub enum BraidProofBinding {
    /// The audited shell carries no proof envelope.
    Absent,
    /// The audited shell carries a proof envelope that validated against the witness.
    Matched {
        /// Proof envelope kind.
        kind: ProofKind,
        /// Canonical proof-envelope digest.
        envelope_digest: crate::ident::Hash,
        /// Public inputs hash carried by the proof envelope.
        public_inputs_hash: crate::ident::Hash,
    },
}

/// Witness posture surfaced by braid shell audit output.
#[derive(Clone, Copy, Debug, PartialEq, Eq)]
pub enum BraidWitnessPosture {
    /// Self-witness: integrity-only local evidence, not independent attestation.
    SelfWitnessIntegrityOnly {
        /// Witness digest bound into the shell.
        digest: crate::ident::Hash,
    },
}

/// One replay/audit fact for a braid shell member.
#[derive(Clone, Copy, Debug, PartialEq, Eq)]
pub struct BraidShellMemberAuditFact {
    /// Reference to the member strand, revealed or sealed.
    pub member_ref: BraidMemberRef,
    /// Settlement verdict reproduced for this member.
    pub verdict: MemberVerdict,
    /// Member-level causal posture.
    pub posture: CausalPosture,
    /// Digest over the member's support-pin set.
    pub support_pin_digest: crate::ident::Hash,
    /// Digest over the member's fork basis facts.
    pub basis_digest: crate::ident::Hash,
    /// Digest over the realized parent frontier judged for this member.
    pub frontier_digest: crate::ident::Hash,
    /// Digest over contended footprint slots.
    pub footprint_digest: crate::ident::Hash,
    /// Digest over ordered claim identities.
    pub claim_digest: crate::ident::Hash,
    /// Digest over ordered per-claim decisions.
    pub verdict_digest: crate::ident::Hash,
    /// Disclosure budget needed to interpret the member reference.
    pub disclosure_budget: DisclosureBudget,
}

/// Replay/audit facts reproduced from a retained braid shell.
#[derive(Clone, Debug, PartialEq, Eq)]
pub struct BraidShellAudit {
    /// Canonical shell digest audited.
    pub shell_digest: crate::ident::Hash,
    /// Canonical braid coordinate this shell lives at.
    pub coordinate: BraidCoordinate,
    /// Outcome arm reproduced from the shell.
    pub outcome_kind: AdmissionOutcomeKind,
    /// Policy identity the act ran under.
    pub policy_id: crate::ident::Hash,
    /// Witnessed law reading for this shell audit.
    pub law_reading: PluralityLawReading,
    /// Least-revealed member posture across the audited shell.
    pub posture_floor: CausalPosture,
    /// Revelation posture claimed by the shell itself.
    pub shell_posture: CausalPosture,
    /// Member refs in canonical settlement frontier order.
    pub settlement_frontier: Vec<BraidMemberRef>,
    /// Per-member replay/audit facts in canonical member order.
    pub member_facts: Vec<BraidShellMemberAuditFact>,
    /// Proof binding status for the shell.
    pub proof_binding: BraidProofBinding,
    /// Witness posture for the shell.
    pub witness_posture: BraidWitnessPosture,
    /// Typed witness receipt for the shell audit.
    pub witness_receipt: WitnessReceipt,
}

/// The shell a lookup found, by value.
pub open spec fn deref_shell(o: Option<&BraidShell>) -> Option<BraidShell> {
    match o {
        Some(s) => Some(*s),
        None => None,
    }
}

/// Parent shell named by a collapse or obstruction lineage.
pub open spec fn lineage_parent(o: OutcomeView) -> Option<crate::ident::Hash> {
    match o {
        OutcomeView::Derived { collapsed_from: Some(p), .. } => Some(p),
        OutcomeView::Obstruction { obstructed_from: Some(p), .. } => Some(p),
        _ => None,
    }
}

fn lineage_parent_of(o: &BraidShellOutcome) -> (r: Option<crate::ident::Hash>)
    ensures
        r == lineage_parent(o@),
{
    match o {
        BraidShellOutcome::Derived { collapsed_from: Some(p), .. } => Some(*p),
        BraidShellOutcome::Obstruction { obstructed_from: Some(p), .. } => Some(*p),
        _ => None,
    }
}

/// Checks that `shell` (the record found for `digest`) and `parent` (the
/// record found for its lineage parent, when it names one) are fit to replay:
/// the shell exists, validates, lives at `digest`, and its lineage parent
/// exists, validates, and is plural.
pub open spec fn replay_check_matches(
    digest: crate::ident::Hash,
    shell: Option<BraidShell>,
    parent: Option<BraidShell>,
    r: Result<(), BraidShellError>,
) -> bool {
    match shell {
        None => r == Err::<(), BraidShellError>(BraidShellError::ShellNotFound { digest }),
        Some(s) => if !shell_valid(s) {
            r is Err && validation_matches(s, r)
        } else if s.digest != digest {
            r == Err::<(), BraidShellError>(BraidShellError::DigestMismatch { stored: digest, recomputed: s.digest })
        } else {
            match lineage_parent(s.outcome@) {
                None => r is Ok,
                Some(pd) => match parent {
                    None => r == Err::<(), BraidShellError>(BraidShellError::InvalidLineageParent { parent: pd }),
                    Some(p) => if !shell_valid(p) {
                        r is Err && validation_matches(p, r)
                    } else if !(p.outcome@ is Plural) {
                        r == Err::<(), BraidShellError>(BraidShellError::InvalidLineageParent { parent: pd })
                    } else {
                        r is Ok
                    },
                },
            }
        },
    }
}

/// Checks a looked-up shell and its looked-up lineage parent for replay.
pub fn check_replay_records(
    digest: &crate::ident::Hash,
    shell: Option<&BraidShell>,
    parent: Option<&BraidShell>,
) -> (r: Result<(), BraidShellError>)
    ensures
        replay_check_matches(*digest, deref_shell(shell), deref_shell(parent), r),
{
    let s = match shell {
        None => return Err(BraidShellError::ShellNotFound { digest: *digest }),
        Some(s) => s,
    };
    match s.validate() {
        Err(e) => return Err(e),
        Ok(()) => {},
    }
    if !hash_eq(&s.digest, digest) {
        return Err(BraidShellError::DigestMismatch { stored: *digest, recomputed: s.digest });
    }
    match lineage_parent_of(&s.outcome) {
        None => Ok(()),
        Some(pd) => {
            let p = match parent {
                None => return Err(BraidShellError::InvalidLineageParent { parent: pd }),
                Some(p) => p,
            };
            match p.validate() {
                Err(e) => return Err(e),
                Ok(()) => {},
            }
            match &p.outcome {
                BraidShellOutcome::Plural { .. } => Ok(()),
                _ => Err(BraidShellError::InvalidLineageParent { parent: pd }),
            }
        },
    }
}

/// The law a shell was read under: its collapse policy when it collapsed
/// plurality, else its settlement policy.
pub open spec fn shell_law_matches(s: BraidShell, r: Result<PluralityLawRef, BraidShellError>) -> bool {
    match s.outcome@ {
        OutcomeView::Derived { collapse_policy: Some(cp), .. } => if is_zero_hash(cp) {
            r == Err::<PluralityLawRef, BraidShellError>(BraidShellError::EmptyPolicyId)
        } else {
            r matches Ok(l) && l.family_spec() == PluralityLawFamily::Collapse && l.policy_spec() == cp
        },
        _ => if is_zero_hash(s.policy_id) {
            r == Err::<PluralityLawRef, BraidShellError>(BraidShellError::EmptyPolicyId)
        } else {
            r matches Ok(l) && l.family_spec() == PluralityLawFamily::Settlement && l.policy_spec() == s.policy_id
        },
    }
}

fn shell_law_ref(s: &BraidShell) -> (r: Result<PluralityLawRef, BraidShellError>)
    ensures
        shell_law_matches(*s, r),
{
    let law = match &s.outcome {
        BraidShellOutcome::Derived { collapse_policy: Some(cp), .. } => PluralityLawRef::collapse_policy(*cp),
        _ => PluralityLawRef::settlement_policy(s.policy_id),
    };
    match law {
        Ok(l) => Ok(l),
        Err(_) => Err(BraidShellError::EmptyPolicyId),
    }
}

/// `rep` is the replay of `s`.
pub open spec fn replay_of(s: BraidShell, rep: BraidShellReplay) -> bool {
    &&& rep.outcome_kind == outcome_kind_spec(s.outcome@)
    &&& rep.member_verdicts@.len() == s.members@.len()
    &&& forall|i: int| 0 <= i < s.members@.len() ==> #[trigger] rep.member_verdicts@[i] == (
        s.members@[i].member_ref,
        s.members@[i].verdict,
    )
    &&& rep.policy_id == s.policy_id
    &&& shell_law_matches(s, Ok(rep.law_ref))
    &&& rep.witness_digest == s.witness_digest
    &&& rep.posture == s.posture
}

/// `r` is the replay of the looked-up `shell` with lineage parent `parent`:
/// the first failing record check, else the shell's law, else the replay.
pub open spec fn replay_matches(
    digest: crate::ident::Hash,
    shell: Option<BraidShell>,
    parent: Option<BraidShell>,
    r: Result<BraidShellReplay, BraidShellError>,
) -> bool {
    &&& !replay_check_matches(digest, shell, parent, Ok(())) ==> (r is Err && replay_check_matches(
        digest,
        shell,
        parent,
        Err(r->Err_0),
    ))
    &&& replay_check_matches(digest, shell, parent, Ok(())) ==> {
        let s = shell->Some_0;
        &&& shell_law_matches(s, Err(BraidShellError::EmptyPolicyId)) ==> r == Err::<BraidShellReplay, BraidShellError>(
            BraidShellError::EmptyPolicyId,
        )
        &&& !shell_law_matches(s, Err(BraidShellError::EmptyPolicyId)) ==> (r matches Ok(rep) && replay_of(s, rep))
    }
}

/// Replays from looked-up records: the checks of [`check_replay_records`],
/// then the shell's law, then the outcome and member verdicts.
pub fn replay_from_records(
    digest: &crate::ident::Hash,
    shell: Option<&BraidShell>,
    parent: Option<&BraidShell>,
) -> (r: Result<BraidShellReplay, BraidShellError>)
    ensures
        replay_matches(*digest, deref_shell(shell), deref_shell(parent), r),
{
    match check_replay_records(digest, shell, parent) {
        Err(e) => return Err(e),
        Ok(()) => {},
    }
    let s = match shell {
        Some(s) => s,
        None => return Err(BraidShellError::ShellNotFound { digest: *digest }),
    };
    let law_ref = match shell_law_ref(s) {
        Err(e) => return Err(e),
        Ok(l) => l,
    };
    let mut verdicts: Vec<(BraidMemberRef, MemberVerdict)> = Vec::new();
    let mut i: usize = 0;
    while i < s.members.len()
        invariant
            i <= s.members@.len(),
            verdicts@.len() == i,
            forall|k: int| 0 <= k < i ==> #[trigger] verdicts@[k] == (s.members@[k].member_ref, s.members@[k].verdict),
        decreases s.members.len() - i,
    {
        verdicts.push((s.members[i].member_ref, s.members[i].verdict));
        i += 1;
    }
    Ok(BraidShellReplay {
        outcome_kind: s.outcome_kind(),
        member_verdicts: verdicts,
        policy_id: s.policy_id,
        law_ref,
        witness_digest: s.witness_digest,
        posture: s.posture,
    })
}

fn lookup_lineage_parent<'a, R: BraidShellRecords>(records: &'a R, shell: Option<&BraidShell>) -> (r: Option<&'a BraidShell>)
    ensures
        deref_shell(r) == stored_parent(records, deref_shell(shell)),
{
    match shell {
        None => None,
        Some(s) => match lineage_parent_of(&s.outcome) {
            None => None,
            Some(pd) => records.shell(&pd),
        },
    }
}

/// Replays a braid-scope settlement outcome from retained shell records
/// alone: the shell must validate and live at `digest`, and a named lineage
/// parent must be retained and plural.
pub fn replay_braid_shell<R: BraidShellRecords>(digest: &crate::ident::Hash, records: &R) -> (r: Result<
    BraidShellReplay,
    BraidShellError,
>)
    ensures
        replay_matches(*digest, records.stored(*digest), stored_parent(records, records.stored(*digest)), r),
        r matches Ok(rep) ==> exists|s: BraidShell| shell_valid(s) && s.digest == *digest && #[trigger] replay_of(s, rep),
{
    let shell = records.shell(digest);
    let parent = lookup_lineage_parent(records, shell);
    replay_from_records(digest, shell, parent)
}

/// Disclosure budget needed to interpret a member reference.
pub open spec fn member_budget(r: BraidMemberRef) -> DisclosureBudget {
    match r {
        BraidMemberRef::Revealed(_) => DisclosureBudget::Public,
        BraidMemberRef::Sealed { .. } => DisclosureBudget::AuthorityScoped,
    }
}

/// Disclosure budget of a shell: authority-scoped when any member is sealed.
pub open spec fn shell_budget(s: BraidShell) -> DisclosureBudget {
    if exists|i: int| 0 <= i < s.members@.len() && (#[trigger] s.members@[i]).member_ref is Sealed {
        DisclosureBudget::AuthorityScoped
    } else {
        DisclosureBudget::Public
    }
}

/// The audit fact of a member.
pub open spec fn audit_fact_of(m: BraidShellMember) -> BraidShellMemberAuditFact {
    BraidShellMemberAuditFact {
        member_ref: m.member_ref,
        verdict: m.verdict,
        posture: m.posture,
        support_pin_digest: m.support_pin_digest,
        basis_digest: m.basis_digest,
        frontier_digest: m.frontier_digest,
        footprint_digest: m.footprint_digest,
        claim_digest: m.claim_digest,
        verdict_digest: m.verdict_digest,
        disclosure_budget: member_budget(m.member_ref),
    }
}

/// The proof binding reported for a shell.
pub open spec fn binding_matches(s: BraidShell, b: BraidProofBinding) -> bool {
    match s.proof {
        None => b == BraidProofBinding::Absent,
        Some(p) => b matches BraidProofBinding::Matched { kind, envelope_digest, public_inputs_hash } && kind == p.kind
            && envelope_digest@ == proof_digest_spec(p) && public_inputs_hash == p.public_inputs_hash,
    }
}

/// `a` is the audit of `s`.
pub open spec fn audit_of(s: BraidShell, a: BraidShellAudit) -> bool {
    &&& a.shell_digest == s.digest
    &&& a.coordinate == s.coordinate
    &&& a.outcome_kind == outcome_kind_spec(s.outcome@)
    &&& a.policy_id == s.policy_id
    &&& shell_law_matches(s, Ok(a.law_reading.law_spec()))
    &&& a.law_reading.support_spec() == s.digest
    &&& a.law_reading.receipt_spec() == a.witness_receipt
    &&& a.law_reading.budget_spec() == shell_budget(s)
    &&& a.posture_floor == (match posture_floor(member_postures(s.members@)) {
        Some(p) => p,
        None => s.posture,
    })
    &&& a.shell_posture == s.posture
    &&& a.settlement_frontier@.len() == s.members@.len()
    &&& a.member_facts@.len() == s.members@.len()
    &&& forall|i: int| 0 <= i < s.members@.len() ==> #[trigger] a.settlement_frontier@[i] == s.members@[i].member_ref
    &&& forall|i: int| 0 <= i < s.members@.len() ==> #[trigger] a.member_facts@[i] == audit_fact_of(s.members@[i])
    &&& binding_matches(s, a.proof_binding)
    &&& a.witness_posture == (BraidWitnessPosture::SelfWitnessIntegrityOnly { digest: s.witness_digest })
    &&& a.witness_receipt.kind_spec() == WitnessKind::SelfWitness
    &&& a.witness_receipt.subject_spec() == s.digest
    &&& a.witness_receipt.evidence_spec() == s.witness_digest
    &&& a.witness_receipt.compatibility_spec() == WitnessCompatibilityRule::E1Scaffold
    &&& a.witness_receipt.attestation_spec() == WitnessAttestation::IntegrityOnly
}

/// The audit's posture floor is the least-revealed member posture: it is the
/// posture of some member, and no member is less revealed than it.
pub proof fn lemma_audit_posture_floor_is_least(s: BraidShell, a: BraidShellAudit)
    requires
        audit_of(s, a),
        s.members@.len() > 0,
    ensures
        exists|j: int| 0 <= j < s.members@.len() && (#[trigger] s.members@[j]).posture == a.posture_floor,
        forall|i: int|
            0 <= i < s.members@.len() ==> a.posture_floor.tag_spec() <= (#[trigger] s.members@[i]).posture.tag_spec(),
{
    let ps = member_postures(s.members@);
    lemma_posture_floor_is_least(ps);
    let j = choose|j: int| 0 <= j < ps.len() && ps[j] == a.posture_floor;
    assert(s.members@[j].posture == a.posture_floor);
    assert forall|i: int| 0 <= i < s.members@.len() implies a.posture_floor.tag_spec() <= (
    #[trigger] s.members@[i]).posture.tag_spec() by {
        assert(ps[i] == s.members@[i].posture);
    }
}

fn shell_disclosure_budget(s: &BraidShell) -> (r: DisclosureBudget)
    ensures
        r == shell_budget(*s),
{
    let mut i: usize = 0;
    while i < s.members.len()
        invariant
            i <= s.members@.len(),
            forall|k: int| 0 <= k < i ==> !((#[trigger] s.members@[k]).member_ref is Sealed),
        decreases s.members.len() - i,
    {
        if s.members[i].member_ref.is_sealed() {
            return DisclosureBudget::AuthorityScoped;
        }
        i += 1;
    }
    DisclosureBudget::Public
}

fn member_disclosure_budget(r: BraidMemberRef) -> (b: DisclosureBudget)
    ensures
        b == member_budget(r),
{
    match r {
        BraidMemberRef::Revealed(_) => DisclosureBudget::Public,
        BraidMemberRef::Sealed { .. } => DisclosureBudget::AuthorityScoped,
    }
}

fn audit_members(s: &BraidShell) -> (r: (Vec<BraidMemberRef>, Vec<BraidShellMemberAuditFact>, CausalPosture))
    ensures
        r.0@.len() == s.members@.len(),
        r.1@.len() == s.members@.len(),
        forall|i: int| 0 <= i < s.members@.len() ==> #[trigger] r.0@[i] == s.members@[i].member_ref,
        forall|i: int| 0 <= i < s.members@.len() ==> #[trigger] r.1@[i] == audit_fact_of(s.members@[i]),
        r.2 == (match posture_floor(member_postures(s.members@)) {
            Some(p) => p,
            None => s.posture,
        }),
{
    let mut frontier: Vec<BraidMemberRef> = Vec::new();
    let mut facts: Vec<BraidShellMemberAuditFact> = Vec::new();
    let mut floor: Option<CausalPosture> = None;
    let mut i: usize = 0;
    while i < s.members.len()
        invariant
            i <= s.members@.len(),
            frontier@.len() == i,
            facts@.len() == i,
            forall|k: int| 0 <= k < i ==> #[trigger] frontier@[k] == s.members@[k].member_ref,
            forall|k: int| 0 <= k < i ==> #[trigger] facts@[k] == audit_fact_of(s.members@[k]),
            floor == posture_floor(member_postures(s.members@).take(i as int)),
        decreases s.members.len() - i,
    {
        let m = s.members[i];
        frontier.push(m.member_ref);
        facts.push(BraidShellMemberAuditFact {
            member_ref: m.member_ref,
            verdict: m.verdict,
            posture: m.posture,
            support_pin_digest: m.support_pin_digest,
            basis_digest: m.basis_digest,
            frontier_digest: m.frontier_digest,
            footprint_digest: m.footprint_digest,
            claim_digest: m.claim_digest,
            verdict_digest: m.verdict_digest,
            disclosure_budget: member_disclosure_budget(m.member_ref),
        });
        proof {
            let ps = member_postures(s.members@);
            assert(ps.take(i + 1).drop_last() =~= ps.take(i as int));
            assert(ps.take(i + 1).last() == m.posture);
        }
        floor = match floor {
            None => Some(m.posture),
            Some(f) => if m.posture.canonical_tag() < f.canonical_tag() {
                Some(m.posture)
            } else {
                Some(f)
            },
        };
        i += 1;
    }
    assert(member_postures(s.members@).take(s.members@.len() as int) =~= member_postures(s.members@));
    let floor = match floor {
        Some(f) => f,
        None => s.posture,
    };
    (frontier, facts, floor)
}

/// `r` is the audit of the looked-up `shell` with lineage parent `parent`:
/// the first failing record check, else the shell's law, else the law
/// reading, else the audit.
pub open spec fn audit_matches(
    digest: crate::ident::Hash,
    shell: Option<BraidShell>,
    parent: Option<BraidShell>,
    r: Result<BraidShellAudit, BraidShellError>,
) -> bool {
    &&& !replay_check_matches(digest, shell, parent, Ok(())) ==> (r is Err && replay_check_matches(
        digest,
        shell,
        parent,
        Err(r->Err_0),
    ))
    &&& replay_check_matches(digest, shell, parent, Ok(())) ==> {
        let s = shell->Some_0;
        &&& shell_law_matches(s, Err(BraidShellError::EmptyPolicyId)) ==> r == Err::<BraidShellAudit, BraidShellError>(
            BraidShellError::EmptyPolicyId,
        )
        &&& !shell_law_matches(s, Err(BraidShellError::EmptyPolicyId)) && is_zero_hash(s.digest) ==> r == Err::<
            BraidShellAudit,
            BraidShellError,
        >(BraidShellError::LawReading(crate::plurality_law::PluralityLawReadingError::EmptySupportDigest))
        &&& !shell_law_matches(s, Err(BraidShellError::EmptyPolicyId)) && !is_zero_hash(s.digest) ==> (r matches Ok(a)
            && audit_of(s, a))
    }
}

/// Audits from looked-up records: the checks of [`check_replay_records`],
/// then the shell's law and the witnessed law reading, then the audit facts.
pub fn audit_from_records(
    digest: &crate::ident::Hash,
    shell: Option<&BraidShell>,
    parent: Option<&BraidShell>,
) -> (r: Result<BraidShellAudit, BraidShellError>)
    ensures
        audit_matches(*digest, deref_shell(shell), deref_shell(parent), r),
{
    match check_replay_records(digest, shell, parent) {
        Err(e) => return Err(e),
        Ok(()) => {},
    }
    let s = match shell {
        Some(s) => s,
        None => return Err(BraidShellError::ShellNotFound { digest: *digest }),
    };
    let (frontier, facts, floor) = audit_members(s);
    let envelope = &s.proof;
    let proof_binding = match envelope {
        None => BraidProofBinding::Absent,
        Some(p) => BraidProofBinding::Matched {
            kind: p.kind,
            envelope_digest: p.digest(),
            public_inputs_hash: p.public_inputs_hash,
        },
    };
    let receipt = WitnessReceipt::self_witness(s.digest, s.witness_digest);
    let law_ref = match shell_law_ref(s) {
        Err(e) => return Err(e),
        Ok(l) => l,
    };
    let budget = shell_disclosure_budget(s);
    let reading = match PluralityLawReading::new(law_ref, s.digest, receipt, budget) {
        Err(e) => return Err(BraidShellError::LawReading(e)),
        Ok(x) => x,
    };
    Ok(BraidShellAudit {
        shell_digest: s.digest,
        coordinate: s.coordinate,
        outcome_kind: s.outcome_kind(),
        policy_id: s.policy_id,
        law_reading: reading,
        posture_floor: floor,
        shell_posture: s.posture,
        settlement_frontier: frontier,
        member_facts: facts,
        proof_binding,
        witness_posture: BraidWitnessPosture::SelfWitnessIntegrityOnly { digest: s.witness_digest },
        witness_receipt: receipt,
    })
}

/// Returns replay/audit facts from a retained braid shell after the same
/// checks as [`replay_braid_shell`].
pub fn audit_braid_shell<R: BraidShellRecords>(digest: &crate::ident::Hash, records: &R) -> (r: Result<
    BraidShellAudit,
    BraidShellError,
>)
    ensures
        audit_matches(*digest, records.stored(*digest), stored_parent(records, records.stored(*digest)), r),
        r matches Ok(a) ==> exists|s: BraidShell| shell_valid(s) && s.digest == *digest && #[trigger] audit_of(s, a),
{
    let shell = records.shell(digest);
    let parent = lookup_lineage_parent(records, shell);
    audit_from_records(digest, shell, parent)
}

/// Secure member lookup material for sealed braid member references.
#[derive(Clone, Copy, PartialEq, Eq)]
pub struct BraidShellMemberQuery {
    /// Strand identity being matched.
    pub strand_id: StrandId,
    /// Child worldline identity bound into sealed member commitments.
    pub child_worldline_id: WorldlineId,
    /// Causal authority domain bound into the sealed member reference.
    pub authority: AuthorityDomainRef,
    /// Non-public blinding material used to derive sealed member commitments.
    pub blinding_secret: crate::ident::Hash,
}

/// Scan-backed query over retained braid shells.
#[derive(Clone, Copy, PartialEq, Eq)]
pub struct BraidShellQuery {
    /// Match the shell at this braid coordinate.
    pub coordinate: Option<BraidCoordinate>,
    /// Match shells judged against this comparison basis.
    pub basis: Option<ProvenanceRef>,
    /// Match shells summarizing this revealed member strand.
    pub revealed_member_strand: Option<StrandId>,
    /// Match shells summarizing this member using sealed-reference material.
    pub secure_member: Option<BraidShellMemberQuery>,
    /// Match shells with this outcome arm.
    pub outcome: Option<AdmissionOutcomeKind>,
    /// Match shells with this revelation posture.
    pub posture: Option<CausalPosture>,
}

impl Default for BraidShellQuery {
    fn default() -> (r: Self)
        ensures
            r.coordinate is None,
            r.basis is None,
            r.revealed_member_strand is None,
            r.secure_member is None,
            r.outcome is None,
            r.posture is None,
    {
        BraidShellQuery {
            coordinate: None,
            basis: None,
            revealed_member_strand: None,
            secure_member: None,
            outcome: None,
            posture: None,
        }
    }
}

/// Some member of `s` is the revealed strand `id`.
pub open spec fn has_revealed_spec(s: BraidShell, id: StrandId) -> bool {
    exists|i: int| 0 <= i < s.members@.len() && (#[trigger] s.members@[i]).member_ref == BraidMemberRef::Revealed(id)
}

/// Some member of `s` is sealed for the queried strand.
pub open spec fn has_secure_spec(s: BraidShell, q: BraidShellMemberQuery) -> bool {
    exists|i: int| 0 <= i < s.members@.len() && matches_strand_spec(
        (#[trigger] s.members@[i]).member_ref,
        q.strand_id,
        q.child_worldline_id,
        q.authority,
        q.blinding_secret,
    )
}

/// `s` matches every present field of `q`.
pub open spec fn query_matches(s: BraidShell, q: BraidShellQuery) -> bool {
    &&& q.coordinate matches Some(c) ==> s.coordinate == c
    &&& q.basis matches Some(b) ==> s.basis == b
    &&& q.revealed_member_strand matches Some(id) ==> has_revealed_spec(s, id)
    &&& q.secure_member matches Some(m) ==> has_secure_spec(s, m)
    &&& q.outcome matches Some(o) ==> outcome_kind_spec(s.outcome@) == o
    &&& q.posture matches Some(p) ==> s.posture == p
}

impl BraidShell {
    /// Whether the shell summarizes the given revealed member strand.
    pub fn has_revealed_member_strand(&self, strand_id: &StrandId) -> (r: bool)
        ensures
            r == has_revealed_spec(*self, *strand_id),
    {
        let target = BraidMemberRef::Revealed(*strand_id);
        let mut i: usize = 0;
        while i < self.members.len()
            invariant
                i <= self.members@.len(),
                target == BraidMemberRef::Revealed(*strand_id),
                forall|k: int| 0 <= k < i ==> (#[trigger] self.members@[k]).member_ref != target,
            decreases self.members.len() - i,
        {
            if member_ref_eq(&self.members[i].member_ref, &target) {
                return true;
            }
            i += 1;
        }
        false
    }

    /// Whether the shell summarizes the given member strand, using non-public
    /// blinding material for sealed references.
    pub fn has_member_strand_secure(
        &self,
        strand_id: &StrandId,
        child_worldline_id: &WorldlineId,
        authority: &AuthorityDomainRef,
        blinding_secret: &crate::ident::Hash,
    ) -> (r: bool)
        ensures
            r == has_secure_spec(
                *self,
                BraidShellMemberQuery {
                    strand_id: *strand_id,
                    child_worldline_id: *child_worldline_id,
                    authority: *authority,
                    blinding_secret: *blinding_secret,
                },
            ),
    {
        let mut i: usize = 0;
        while i < self.members.len()
            invariant
                i <= self.members@.len(),
                forall|k: int| 0 <= k < i ==> !matches_strand_spec(
                    (#[trigger] self.members@[k]).member_ref,
                    *strand_id,
                    *child_worldline_id,
                    *authority,
                    *blinding_secret,
                ),
            decreases self.members.len() - i,
        {
            if self.members[i].member_ref.matches_strand(strand_id, child_worldline_id, authority, blinding_secret) {
                return true;
            }
            i += 1;
        }
        false
    }

    /// Whether the shell matches every present query field.
    pub fn matches(&self, query: &BraidShellQuery) -> (r: bool)
        ensures
            r == query_matches(*self, *query),
    {
        if let Some(c) = query.coordinate {
            if !hash_eq(&self.coordinate.0, &c.0) {
                return false;
            }
        }
        if let Some(b) = query.basis {
            if !provenance_ref_eq(&self.basis, &b) {
                return false;
            }
        }
        if let Some(id) = query.revealed_member_strand {
            if !self.has_revealed_member_strand(&id) {
                return false;
            }
        }
        if let Some(m) = query.secure_member {
            if !self.has_member_strand_secure(&m.strand_id, &m.child_worldline_id, &m.authority, &m.blinding_secret) {
                return false;
            }
        }
        if let Some(o) = query.outcome {
            if self.outcome_kind() != o {
                return false;
            }
        }
        if let Some(p) = query.posture {
            if self.posture != p {
                return false;
            }
        }
        true
    }
}

/// Kind discriminator for the retained boundary shell family.
#[derive(Clone, Copy, Debug, PartialEq, Eq, Structural)]
pub enum RetainedBoundaryKind {
    /// A contiguous tick-segment boundary record.
    Tick,
    /// A braid-scale settlement boundary shell.
    Braid,
}

/// Shared contract for retained boundary shells of every scale.
pub trait RetainedBoundaryRecord {
    /// Which family member this record is.
    fn boundary_kind(&self) -> RetainedBoundaryKind;
    /// The canonical content digest of the record.
    fn boundary_digest(&self) -> crate::ident::Hash;
}

impl RetainedBoundaryRecord for BraidShell {
    fn boundary_kind(&self) -> (r: RetainedBoundaryKind)
        ensures
            r == RetainedBoundaryKind::Braid,
    {
        RetainedBoundaryKind::Braid
    }

    fn boundary_digest(&self) -> (r: crate::ident::Hash)
        ensures
            r == self.digest,
    {
        self.digest
    }
}

/// Deterministic reason code: collapse attempted without a named policy.
pub const COLLAPSE_WITHOUT_POLICY_REASON: u8 = 1;

/// Named, witnessed law permitting one collapse of retained plurality.
#[derive(Clone, Copy, Debug, PartialEq, Eq)]
pub struct CollapsePolicy {
    /// Stable collapse policy identity.
    pub policy_id: crate::ident::Hash,
    /// Witness for the explicit collapse act.
    pub witness: WitnessDigest,
}

/// Outcome of one collapse attempt; both arms are retained law.
#[derive(Clone, Debug, PartialEq, Eq)]
pub enum CollapseResult {
    /// The plurality lawfully collapsed into a new derived shell.
    Derived(BraidShell),
    /// The collapse was refused; the obstruction is itself a retained shell.
    Obstructed(BraidShell),
}

/// Domain prefix of collapse-obstruction witnesses.
pub open spec fn collapse_obstruction_domain() -> Seq<u8> {
    "echo.braid.collapse.obstruction.v1\0".spec_bytes()
}

/// Domain prefix of the absent collapse policy.
pub open spec fn absent_collapse_policy_domain() -> Seq<u8> {
    "echo.braid.collapse-policy.absent.v1\0".spec_bytes()
}

/// Witness of a refused collapse of the plural shell `d`.
pub open spec fn obstruction_witness_spec(d: crate::ident::Hash) -> Seq<u8> {
    blake3_digest(collapse_obstruction_domain() + d@)
}

/// Policy id standing for an absent collapse policy.
pub open spec fn absent_policy_spec() -> Seq<u8> {
    blake3_digest(absent_collapse_policy_domain())
}

/// The derived outcome a named collapse of `d` produces.
pub open spec fn collapse_outcome(refs: Seq<ProvenanceRef>, cp: CollapsePolicy, d: crate::ident::Hash) -> OutcomeView {
    OutcomeView::Derived {
        result_refs: refs,
        collapse_policy: Some(cp.policy_id),
        collapse_witness: Some(cp.witness.hash_spec()),
        collapsed_from: Some(d),
    }
}

/// `r` is what collapsing the looked-up plural shell gives.
pub open spec fn collapse_matches(
    d: crate::ident::Hash,
    plural: Option<BraidShell>,
    refs: Seq<ProvenanceRef>,
    policy: Option<CollapsePolicy>,
    r: Result<CollapseResult, BraidShellError>,
) -> bool {
    match plural {
        None => r == Err::<CollapseResult, BraidShellError>(BraidShellError::ShellNotFound { digest: d }),
        Some(p) => if !shell_valid(p) {
            r is Err && validation_matches(p, Err(r->Err_0))
        } else if !(p.outcome@ is Plural) {
            r == Err::<CollapseResult, BraidShellError>(BraidShellError::InvalidLineageParent { parent: d })
        } else {
            match policy {
                Some(cp) => {
                    let o = collapse_outcome(refs, cp, d);
                    match assembly_error(p.members@, cp.policy_id, o, p.posture) {
                        Some(e) => r == Err::<CollapseResult, BraidShellError>(e),
                        None => r matches Ok(CollapseResult::Derived(s)) && assembled_as(
                            s,
                            p.worldline_id,
                            p.basis,
                            p.members@,
                            cp.policy_id,
                            o,
                            p.posture,
                            None,
                        ) && shell_valid(s),
                    }
                },
                None => match r {
                    Ok(CollapseResult::Obstructed(s)) => s.outcome@ matches OutcomeView::Obstruction {
                        reason_code,
                        witness,
                        obstructed_from,
                    } && reason_code == COLLAPSE_WITHOUT_POLICY_REASON && witness@ == obstruction_witness_spec(d)
                        && obstructed_from == Some(d) && s.policy_id@ == absent_policy_spec() && assembled_as(
                        s,
                        p.worldline_id,
                        p.basis,
                        p.members@,
                        s.policy_id,
                        s.outcome@,
                        p.posture,
                        None,
                    ) && shell_valid(s),
                    Ok(CollapseResult::Derived(_)) => false,
                    Err(e) => exists|w: crate::ident::Hash, pid: crate::ident::Hash|
                        w@ == obstruction_witness_spec(d) && pid@ == absent_policy_spec() && #[trigger] assembly_error(
                            p.members@,
                            pid,
                            OutcomeView::Obstruction {
                                reason_code: COLLAPSE_WITHOUT_POLICY_REASON,
                                witness: w,
                                obstructed_from: Some(d),
                            },
                            p.posture,
                        ) == Some(e),
                },
            }
        },
    }
}

fn copy_members(ms: &[BraidShellMember]) -> (r: Vec<BraidShellMember>)
    ensures
        r@ == ms@,
{
    let mut out: Vec<BraidShellMember> = Vec::new();
    let mut i: usize = 0;
    while i < ms.len()
        invariant
            i <= ms@.len(),
            out@ == ms@.take(i as int),
        decreases ms.len() - i,
    {
        out.push(ms[i]);
        i += 1;
        assert(out@ =~= ms@.take(i as int));
    }
    assert(ms@.take(ms@.len() as int) =~= ms@);
    out
}

/// Collapses the looked-up plural shell `plural` (the record found for
/// `plural_shell_digest`) into a new shell. The plural shell is never
/// changed: a named policy yields a derived shell naming it as
/// `collapsed_from`; no policy yields a retained obstruction shell naming it
/// as `obstructed_from`, and `selected_result_refs` is then ignored.
#[verifier::rlimit(60)]
#[verifier::spinoff_prover]
pub fn collapse_from_record(
    plural_shell_digest: crate::ident::Hash,
    plural: Option<&BraidShell>,
    selected_result_refs: Vec<ProvenanceRef>,
    policy: Option<CollapsePolicy>,
) -> (r: Result<CollapseResult, BraidShellError>)
    ensures
        collapse_matches(plural_shell_digest, deref_shell(plural), selected_result_refs@, policy, r),
{
    let p = match plural {
        None => return Err(BraidShellError::ShellNotFound { digest: plural_shell_digest }),
        Some(p) => p,
    };
    match p.validate() {
        Err(e) => return Err(e),
        Ok(()) => {},
    }
    match &p.outcome {
        BraidShellOutcome::Plural { .. } => {},
        _ => return Err(BraidShellError::InvalidLineageParent { parent: plural_shell_digest }),
    }
    let members = copy_members(p.members.as_slice());
    match policy {
        Some(cp) => {
            let outcome = BraidShellOutcome::Derived {
                result_refs: selected_result_refs,
                collapse_policy: Some(cp.policy_id),
                collapse_witness: Some(*cp.witness.as_hash()),
                collapsed_from: Some(plural_shell_digest),
            };
            match BraidShell::assemble(p.worldline_id, p.basis, members, cp.policy_id, outcome, p.posture) {
                Err(e) => Err(e),
                Ok(s) => Ok(CollapseResult::Derived(s)),
            }
        },
        None => {
            let mut witness_input: Vec<u8> = Vec::new();
            push_slice(&mut witness_input, "echo.braid.collapse.obstruction.v1\0".as_bytes());
            push_hash(&mut witness_input, &plural_shell_digest);
            let mut policy_input: Vec<u8> = Vec::new();
            push_slice(&mut policy_input, "echo.braid.collapse-policy.absent.v1\0".as_bytes());
            proof {
                reveal_strlit("echo.braid.collapse.obstruction.v1\0");
                reveal_strlit("echo.braid.collapse-policy.absent.v1\0");
                assert(witness_input@ =~= collapse_obstruction_domain() + plural_shell_digest@);
                assert(policy_input@ =~= absent_collapse_policy_domain());
            }
            let witness = blake3_hash(witness_input.as_slice());
            let absent_policy = blake3_hash(policy_input.as_slice());
            let outcome = BraidShellOutcome::Obstruction {
                reason_code: COLLAPSE_WITHOUT_POLICY_REASON,
                witness,
                obstructed_from: Some(plural_shell_digest),
            };
            match BraidShell::assemble(p.worldline_id, p.basis, members, absent_policy, outcome, p.posture) {
                Err(e) => Err(e),
                Ok(s) => Ok(CollapseResult::Obstructed(s)),
            }
        },
    }
}

/// Collapses a retained plural shell into a new shell-family record; the
/// plural parent is never mutated.
pub fn collapse_braid_shell<R: BraidShellRecords>(
    records: &R,
    plural_shell_digest: crate::ident::Hash,
    selected_result_refs: Vec<ProvenanceRef>,
    policy: Option<CollapsePolicy>,
) -> (r: Result<CollapseResult, BraidShellError>)
    ensures
        collapse_matches(plural_shell_digest, records.stored(plural_shell_digest), selected_result_refs@, policy, r),
        r matches Ok(CollapseResult::Derived(s)) ==> shell_valid(s),
        r matches Ok(CollapseResult::Obstructed(s)) ==> shell_valid(s),
{
    let plural = records.shell(&plural_shell_digest);
    collapse_from_record(plural_shell_digest, plural, selected_result_refs, policy)
}

/// Lowercase hexadecimal digit of a nibble.
pub open spec fn hex_digit(n: u8) -> u8 {
    if n < 10 {
        (48 + n) as u8
    } else {
        (87 + n) as u8
    }
}

/// Lowercase hexadecimal text of bytes.
pub open spec fn hex_text(b: Seq<u8>) -> Seq<u8>
    decreases b.len(),
{
    if b.len() == 0 {
        Seq::empty()
    } else {
        hex_text(b.drop_last()) + seq![hex_digit(b.last() / 16), hex_digit(b.last() % 16)]
    }
}

fn push_hex(out: &mut Vec<u8>, h: &crate::ident::Hash)
    ensures
        final(out)@ == old(out)@ + hex_text(h@),
{
    let mut i: usize = 0;
    while i < 32
        invariant
            i <= 32,
            out@ == old(out)@ + hex_text(h@.take(i as int)),
        decreases 32 - i,
    {
        let b = h[i];
        let hi = b / 16;
        let lo = b % 16;
        out.push(if hi < 10 { 48 + hi } else { 87 + hi });
        out.push(if lo < 10 { 48 + lo } else { 87 + lo });
        proof {
            assert(h@.take(i + 1).drop_last() =~= h@.take(i as int));
            assert(out@ =~= old(out)@ + hex_text(h@.take(i + 1)));
        }
        i += 1;
    }
    assert(h@.take(32) =~= h@);
}

/// Text of a member query with its blinding secret withheld.
pub open spec fn redacted_text(q: BraidShellMemberQuery) -> Seq<u8> {
    "BraidShellMemberQuery { strand_id: ".spec_bytes() + hex_text(q.strand_id.0@) + ", child_worldline_id: ".spec_bytes()
        + hex_text(q.child_worldline_id.0@) + ", authority: ".spec_bytes() + hex_text(q.authority.origin_id.0@)
        + "/".spec_bytes() + hex_text(q.authority.domain_id.0@) + ", blinding_secret: \"<redacted>\" }".spec_bytes()
}

impl BraidShellMemberQuery {
    /// Debug text of the query: identifiers in hexadecimal, the blinding
    /// secret replaced by `"<redacted>"`.
    pub fn redacted_debug(&self) -> (r: String)
        ensures
            valid_utf8(redacted_text(*self)) ==> encode_utf8(r@) == redacted_text(*self),
    {
        let mut out: Vec<u8> = Vec::new();
        push_slice(&mut out, "BraidShellMemberQuery { strand_id: ".as_bytes());
        push_hex(&mut out, &self.strand_id.0);
        push_slice(&mut out, ", child_worldline_id: ".as_bytes());
        push_hex(&mut out, &self.child_worldline_id.0);
        push_slice(&mut out, ", authority: ".as_bytes());
        push_hex(&mut out, &self.authority.origin_id.0);
        push_slice(&mut out, "/".as_bytes());
        push_hex(&mut out, &self.authority.domain_id.0);
        push_slice(&mut out, ", blinding_secret: \"<redacted>\" }".as_bytes());
        assert(out@ =~= redacted_text(*self));
        match string_from_utf8(out) {
            Some(text) => text,
            None => String::new(),
        }
    }
}

} // verus!
