//! Shell assembly and self-validation.
use vstd::prelude::*;
use crate::admission::AdmissionOutcomeKind;
use crate::braid_shell::model::{
    compute_shell_digest, compute_witness_digest, coordinate_spec, derive_coordinate, member_digest_spec,
    member_digests, member_digests_concat, outcome_kind_spec, shell_digest_spec, witness_spec, BraidCoordinate, BraidShell, BraidShellError,
    BraidShellMember, BraidShellOutcome, MemberVerdict, OutcomeView, BRAID_SHELL_VERSION,
};
use crate::braid_shell::{member_ref_eq, BraidMemberRef};
use crate::ident::{hash_eq, hash_is_zero, hash_le, is_zero_hash, WorldlineId};
use crate::order::{key_le, keys_name_elements, keys_of, lemma_sort_by_key_spec, lemma_sort_named_permutation_invariant, lemma_sort_canonical_permutation_invariant, lemma_sorted_keys_permutation_invariant, lex_le, sort_by_key, sort_by_key_spec, sorted_by_key};
use crate::proof_envelope::{proof_shape_error_matches, proof_shape_ok, proof_shape_spec, ProofEnvelope, ProofError};
use crate::provenance_store::ProvenanceRef;
use crate::revelation::{lemma_posture_obstruction_iff_member_below, posture_obstruction_spec, shell_posture_obstruction, witness_admissible, CausalPosture, WitnessDigest};

verus! {

/// `Ok` for no error, else the error.
pub open spec fn err_of(e: Option<BraidShellError>) -> Result<(), BraidShellError> {
    match e {
        Some(x) => Err(x),
        None => Ok(()),
    }
}

/// Revealed and sealed references are mixed among `ms`.
pub open spec fn mixed_posture(ms: Seq<BraidShellMember>) -> bool {
    ms.len() > 0 && exists|i: int| 0 <= i < ms.len() && (#[trigger] ms[i].member_ref is Sealed) != (ms[0].member_ref is Sealed)
}

/// Member `j` repeats the reference of an earlier member.
pub open spec fn seen_before(ms: Seq<BraidShellMember>, j: int) -> bool {
    exists|i: int| 0 <= i < j && (#[trigger] ms[i]).member_ref == ms[j].member_ref
}

/// First member at or after `j` that repeats an earlier reference.
pub open spec fn first_duplicate_from(ms: Seq<BraidShellMember>, j: int) -> Option<int>
    decreases ms.len() - j,
{
    if j < 0 || j >= ms.len() {
        None
    } else if seen_before(ms, j) {
        Some(j)
    } else {
        first_duplicate_from(ms, j + 1)
    }
}

/// Member-reference check: no mixing of revealed and sealed, no repeats.
pub open spec fn strands_error(ms: Seq<BraidShellMember>) -> Option<BraidShellError> {
    if mixed_posture(ms) {
        Some(BraidShellError::MixedMemberReferencePosture)
    } else {
        match first_duplicate_from(ms, 0) {
            Some(j) => Some(BraidShellError::DuplicateMemberStrand { member_ref: ms[j].member_ref }),
            None => None,
        }
    }
}

/// Some adjacent pair of alternatives is out of order.
pub open spec fn alternatives_out_of_order(ids: Seq<crate::ident::Hash>) -> bool {
    exists|i: int| 0 <= i < ids.len() - 1 && !lex_le((#[trigger] ids[i])@, ids[i + 1]@)
}

/// First adjacent pair of equal alternatives at or after `i`.
pub open spec fn first_adjacent_duplicate_from(ids: Seq<crate::ident::Hash>, i: int) -> Option<int>
    decreases ids.len() - i,
{
    if i < 0 || i + 1 >= ids.len() {
        None
    } else if ids[i] == ids[i + 1] {
        Some(i)
    } else {
        first_adjacent_duplicate_from(ids, i + 1)
    }
}

/// Duplicate-alternative check over adjacent pairs.
pub open spec fn alternatives_duplicate_error(ids: Seq<crate::ident::Hash>) -> Option<BraidShellError> {
    match first_adjacent_duplicate_from(ids, 0) {
        Some(i) => Some(BraidShellError::DuplicateAlternativeId { alternative_id: ids[i] }),
        None => None,
    }
}

/// Witness-bearing outcome fields must be admissible witnesses.
pub open spec fn outcome_law_error(o: OutcomeView) -> Option<BraidShellError> {
    match o {
        OutcomeView::Derived { collapse_witness: Some(w), .. } => if witness_admissible(w) {
            None
        } else {
            Some(BraidShellError::EmptyWitness)
        },
        OutcomeView::Obstruction { witness, .. } => if witness_admissible(witness) {
            None
        } else {
            Some(BraidShellError::EmptyWitness)
        },
        _ => None,
    }
}

/// Postures of the members, in order.
pub open spec fn member_postures(ms: Seq<BraidShellMember>) -> Seq<CausalPosture> {
    ms.map_values(|m: BraidShellMember| m.posture)
}

/// The shell posture may not exceed its least-revealed member.
pub open spec fn posture_error(posture: CausalPosture, ms: Seq<BraidShellMember>) -> Option<BraidShellError> {
    match posture_obstruction_spec(posture, member_postures(ms)) {
        Some(o) => Some(BraidShellError::PostureExceedsMembers(o)),
        None => None,
    }
}

/// Some member carries verdict `v`.
pub open spec fn any_verdict(ms: Seq<BraidShellMember>, v: MemberVerdict) -> bool {
    exists|i: int| 0 <= i < ms.len() && (#[trigger] ms[i]).verdict == v
}

/// The outcome arm must agree with the member verdicts.
pub open spec fn coherence_error(o: OutcomeView, ms: Seq<BraidShellMember>) -> Option<BraidShellError> {
    let any_plural = any_verdict(ms, MemberVerdict::Plural);
    let any_conflict = any_verdict(ms, MemberVerdict::Conflict);
    let coherent = match o {
        OutcomeView::Derived { collapsed_from, .. } => collapsed_from is Some || (!any_plural && !any_conflict),
        OutcomeView::Plural { .. } => any_plural,
        OutcomeView::Conflict { .. } => any_conflict && !any_plural,
        OutcomeView::Obstruction { .. } => true,
    };
    match o {
        OutcomeView::Derived { collapse_policy, collapse_witness, collapsed_from, .. } if (collapse_policy is Some
            || collapse_witness is Some || collapsed_from is Some) && (collapse_policy is None || collapse_witness is None
            || collapsed_from is None) => Some(BraidShellError::IncoherentCollapseFields),
        _ => if coherent {
            None
        } else {
            Some(BraidShellError::OutcomeMemberMismatch { outcome: outcome_kind_spec(o) })
        },
    }
}

/// Outcome law, then posture floor, then outcome/member coherence.
pub open spec fn semantic_error(o: OutcomeView, ms: Seq<BraidShellMember>, posture: CausalPosture) -> Option<
    BraidShellError,
> {
    if outcome_law_error(o) is Some {
        outcome_law_error(o)
    } else if posture_error(posture, ms) is Some {
        posture_error(posture, ms)
    } else {
        coherence_error(o, ms)
    }
}

/// Some adjacent pair of members is out of digest order.
pub open spec fn members_out_of_order(ms: Seq<BraidShellMember>) -> bool {
    exists|i: int| 0 <= i < ms.len() - 1 && !lex_le(member_digest_spec(#[trigger] ms[i]), member_digest_spec(ms[i + 1]))
}

/// The checks of a retained shell that need no recomputed digest, in order.
pub open spec fn structural_error(s: BraidShell) -> Option<BraidShellError> {
    if s.version != BRAID_SHELL_VERSION {
        Some(BraidShellError::UnsupportedVersion { stored: s.version, supported: BRAID_SHELL_VERSION })
    } else if s.members@.len() == 0 {
        Some(BraidShellError::EmptyMembers)
    } else if is_zero_hash(s.policy_id) {
        Some(BraidShellError::EmptyPolicyId)
    } else if members_out_of_order(s.members@) {
        Some(BraidShellError::NonCanonicalMemberOrder)
    } else if strands_error(s.members@) is Some {
        strands_error(s.members@)
    } else if s.outcome@ matches OutcomeView::Plural { alternative_ids } && alternatives_out_of_order(alternative_ids) {
        Some(BraidShellError::NonCanonicalAlternativeOrder)
    } else if s.outcome@ matches OutcomeView::Plural { alternative_ids } && alternatives_duplicate_error(
        alternative_ids,
    ) is Some {
        alternatives_duplicate_error(s.outcome@->Plural_alternative_ids)
    } else {
        semantic_error(s.outcome@, s.members@, s.posture)
    }
}

/// Recomputed self-witness of a retained shell.
pub open spec fn shell_witness(s: BraidShell) -> Seq<u8> {
    witness_spec(s.version, s.worldline_id, s.basis, s.members@, s.policy_id, s.outcome@, s.posture)
}

/// Recomputed content digest of a retained shell over its stored witness.
pub open spec fn shell_recomputed_digest(s: BraidShell) -> Seq<u8> {
    shell_digest_spec(
        s.version,
        s.worldline_id,
        s.basis,
        s.members@,
        s.policy_id,
        s.outcome@,
        s.witness_digest,
        s.posture,
        s.proof,
    )
}

/// The stored coordinate is the recomputed one.
pub open spec fn coordinate_ok(s: BraidShell) -> bool {
    coordinate_spec(s.basis, s.members@, s.policy_id) == s.coordinate.0@
}

/// The proof envelope, when present, has a valid shape for the stored witness.
pub open spec fn proof_ok(s: BraidShell) -> bool {
    s.proof matches Some(p) ==> proof_shape_spec(p, s.witness_digest) is Ok
}

/// A retained shell passes every self-validation check.
pub open spec fn shell_valid(s: BraidShell) -> bool {
    &&& structural_error(s) is None
    &&& coordinate_ok(s)
    &&& shell_witness(s) == s.witness_digest@
    &&& proof_ok(s)
    &&& shell_recomputed_digest(s) == s.digest@
}

/// `r` is what validating `s` reports: `Ok` exactly for a valid shell, else
/// the error of the first failing check.
pub open spec fn validation_matches(s: BraidShell, r: Result<(), BraidShellError>) -> bool {
    &&& r is Ok <==> shell_valid(s)
    &&& structural_error(s) matches Some(e) ==> r == Err::<(), BraidShellError>(e)
    &&& structural_error(s) is None && !coordinate_ok(s) ==> r == Err::<(), BraidShellError>(
        BraidShellError::CoordinateMismatch,
    )
    &&& structural_error(s) is None && coordinate_ok(s) && shell_witness(s) != s.witness_digest@ ==> (r matches Err(
        BraidShellError::WitnessMismatch { stored, recomputed },
    ) && stored == s.witness_digest && recomputed@ == shell_witness(s))
    &&& structural_error(s) is None && coordinate_ok(s) && shell_witness(s) == s.witness_digest@ && !proof_ok(s)
        ==> r == Err::<(), BraidShellError>(
        BraidShellError::ProofShapeValidationFailed { reason: proof_shape_spec(s.proof->Some_0, s.witness_digest)->Err_0 },
    )
    &&& structural_error(s) is None && coordinate_ok(s) && shell_witness(s) == s.witness_digest@ && proof_ok(s)
        && shell_recomputed_digest(s) != s.digest@ ==> (r matches Err(BraidShellError::DigestMismatch { stored, recomputed })
        && stored == s.digest && recomputed@ == shell_recomputed_digest(s))
}

/// Outcome with plural alternatives put in canonical set order.
pub open spec fn canonical_outcome(o: OutcomeView) -> OutcomeView {
    match o {
        OutcomeView::Plural { alternative_ids } => OutcomeView::Plural {
            alternative_ids: sort_by_key_spec(alternative_ids),
        },
        _ => o,
    }
}

/// The checks of assembly, in order, over canonically ordered members and alternatives.
pub open spec fn assembly_error(
    members: Seq<BraidShellMember>,
    policy_id: crate::ident::Hash,
    outcome: OutcomeView,
    posture: CausalPosture,
) -> Option<BraidShellError> {
    let sorted = sort_by_key_spec(members);
    let o = canonical_outcome(outcome);
    if members.len() == 0 {
        Some(BraidShellError::EmptyMembers)
    } else if is_zero_hash(policy_id) {
        Some(BraidShellError::EmptyPolicyId)
    } else if strands_error(sorted) is Some {
        strands_error(sorted)
    } else if o matches OutcomeView::Plural { alternative_ids } && alternatives_duplicate_error(alternative_ids) is Some {
        alternatives_duplicate_error(o->Plural_alternative_ids)
    } else {
        semantic_error(o, sorted, posture)
    }
}

/// A shell that assembles claims no more revelation than any of its members:
/// its posture's tag is at most each member's posture tag. And once the checks
/// before the posture check pass, a member less revealed than the claimed
/// posture makes assembly fail with `PostureExceedsMembers`, naming the claimed
/// posture and the least-revealed member posture.
pub proof fn lemma_assembled_posture_within_members(
    members: Seq<BraidShellMember>,
    policy_id: crate::ident::Hash,
    outcome: OutcomeView,
    posture: CausalPosture,
)
    ensures
        assembly_error(members, policy_id, outcome, posture) is None ==> forall|i: int|
            0 <= i < members.len() ==> posture.tag_spec() <= (#[trigger] members[i]).posture.tag_spec(),
        ({
            let sorted = sort_by_key_spec(members);
            let o = canonical_outcome(outcome);
            members.len() > 0 && !is_zero_hash(policy_id) && strands_error(sorted) is None && !(o matches OutcomeView::Plural {
                alternative_ids,
            } && alternatives_duplicate_error(alternative_ids) is Some) && outcome_law_error(o) is None && (exists|i: int|
                0 <= i < members.len() && (#[trigger] members[i]).posture.tag_spec() < posture.tag_spec())
        }) ==> (assembly_error(members, policy_id, outcome, posture) matches Some(
            BraidShellError::PostureExceedsMembers(ob),
        ) && ob.claimed == posture && ob.floor.tag_spec() < posture.tag_spec() && (exists|j: int|
            0 <= j < members.len() && (#[trigger] members[j]).posture == ob.floor) && forall|i: int|
            0 <= i < members.len() ==> ob.floor.tag_spec() <= (#[trigger] members[i]).posture.tag_spec()),
{
    let sorted = sort_by_key_spec(members);
    let ps = member_postures(sorted);
    lemma_sort_by_key_spec(members);
    lemma_posture_obstruction_iff_member_below(posture, ps);
    // every member stands somewhere in the sorted sequence, and conversely
    sorted.to_multiset_ensures();
    members.to_multiset_ensures();
    assert forall|i: int| 0 <= i < members.len() implies sorted.contains(#[trigger] members[i]) by {
        assert(members.contains(members[i]));
        assert(members.to_multiset().count(members[i]) > 0);
        assert(sorted.to_multiset().count(members[i]) > 0);
    }
    assert forall|j: int| 0 <= j < sorted.len() implies members.contains(#[trigger] sorted[j]) by {
        assert(sorted.contains(sorted[j]));
        assert(sorted.to_multiset().count(sorted[j]) > 0);
        assert(members.to_multiset().count(sorted[j]) > 0);
    }
    if assembly_error(members, policy_id, outcome, posture) is None {
        assert forall|i: int| 0 <= i < members.len() implies posture.tag_spec() <= (
        #[trigger] members[i]).posture.tag_spec() by {
            let j = choose|j: int| 0 <= j < sorted.len() && sorted[j] == members[i];
            assert(ps[j] == members[i].posture);
        }
    }
    if exists|i: int| 0 <= i < members.len() && (#[trigger] members[i]).posture.tag_spec() < posture.tag_spec() {
        let i = choose|i: int| 0 <= i < members.len() && (#[trigger] members[i]).posture.tag_spec() < posture.tag_spec();
        let j = choose|j: int| 0 <= j < sorted.len() && sorted[j] == members[i];
        assert(ps[j].tag_spec() < posture.tag_spec());
        let ob = posture_obstruction_spec(posture, ps)->Some_0;
        let k = choose|k: int| 0 <= k < ps.len() && ps[k] == ob.floor;
        let m = choose|m: int| 0 <= m < members.len() && members[m] == sorted[k];
        assert(members[m].posture == ob.floor);
        assert forall|a: int| 0 <= a < members.len() implies ob.floor.tag_spec() <= (
        #[trigger] members[a]).posture.tag_spec() by {
            let b = choose|b: int| 0 <= b < sorted.len() && sorted[b] == members[a];
            assert(ps[b] == members[a].posture);
        }
    }
}

fn check_policy_id(policy_id: crate::ident::Hash) -> (r: Result<(), BraidShellError>)
    ensures
        r == (if is_zero_hash(policy_id) {
            Err::<(), BraidShellError>(BraidShellError::EmptyPolicyId)
        } else {
            Ok::<(), BraidShellError>(())
        }),
{
    if hash_is_zero(&policy_id) {
        return Err(BraidShellError::EmptyPolicyId);
    }
    Ok(())
}

fn check_unique_member_strands(ms: &[BraidShellMember]) -> (r: Result<(), BraidShellError>)
    ensures
        r == err_of(strands_error(ms@)),
{
    if ms.len() > 0 {
        let first_sealed = ms[0].member_ref.is_sealed();
        let mut i: usize = 0;
        while i < ms.len()
            invariant
                i <= ms@.len(),
                ms@.len() > 0,
                first_sealed == (ms@[0].member_ref is Sealed),
                forall|k: int| 0 <= k < i ==> (#[trigger] ms@[k].member_ref is Sealed) == first_sealed,
            decreases ms.len() - i,
        {
            if ms[i].member_ref.is_sealed() != first_sealed {
                return Err(BraidShellError::MixedMemberReferencePosture);
            }
            i += 1;
        }
    }
    let mut j: usize = 0;
    while j < ms.len()
        invariant
            j <= ms@.len(),
            !mixed_posture(ms@),
            first_duplicate_from(ms@, 0) == first_duplicate_from(ms@, j as int),
        decreases ms.len() - j,
    {
        let mut i: usize = 0;
        while i < j
            invariant
                i <= j < ms@.len(),
                !mixed_posture(ms@),
                first_duplicate_from(ms@, 0) == first_duplicate_from(ms@, j as int),
                forall|k: int| 0 <= k < i ==> (#[trigger] ms@[k]).member_ref != ms@[j as int].member_ref,
            decreases j - i,
        {
            if member_ref_eq(&ms[i].member_ref, &ms[j].member_ref) {
                assert(seen_before(ms@, j as int));
                assert(first_duplicate_from(ms@, j as int) == Some(j as int));
                return Err(BraidShellError::DuplicateMemberStrand { member_ref: ms[j].member_ref });
            }
            i += 1;
        }
        assert(!seen_before(ms@, j as int));
        j += 1;
    }
    Ok(())
}

fn check_alternative_order(ids: &[crate::ident::Hash]) -> (r: Result<(), BraidShellError>)
    ensures
        r == (if alternatives_out_of_order(ids@) {
            Err::<(), BraidShellError>(BraidShellError::NonCanonicalAlternativeOrder)
        } else {
            Ok::<(), BraidShellError>(())
        }),
{
    let mut i: usize = 0;
    while i < ids.len() && i + 1 < ids.len()
        invariant
            forall|k: int| 0 <= k < i && k < ids@.len() - 1 ==> lex_le((#[trigger] ids@[k])@, ids@[k + 1]@),
        decreases ids.len() - i,
    {
        if !hash_le(&ids[i], &ids[i + 1]) {
            return Err(BraidShellError::NonCanonicalAlternativeOrder);
        }
        i += 1;
    }
    Ok(())
}

fn check_alternative_duplicates(ids: &[crate::ident::Hash]) -> (r: Result<(), BraidShellError>)
    ensures
        r == err_of(alternatives_duplicate_error(ids@)),
{
    let mut i: usize = 0;
    while i < ids.len() && i + 1 < ids.len()
        invariant
            first_adjacent_duplicate_from(ids@, 0) == first_adjacent_duplicate_from(ids@, i as int),
        decreases ids.len() - i,
    {
        if hash_eq(&ids[i], &ids[i + 1]) {
            return Err(BraidShellError::DuplicateAlternativeId { alternative_id: ids[i] });
        }
        i += 1;
    }
    Ok(())
}

fn check_witness_admissible(w: crate::ident::Hash) -> (r: Result<(), BraidShellError>)
    ensures
        r == (if witness_admissible(w) {
            Ok::<(), BraidShellError>(())
        } else {
            Err::<(), BraidShellError>(BraidShellError::EmptyWitness)
        }),
{
    match WitnessDigest::new(w) {
        Ok(_) => Ok(()),
        Err(_) => Err(BraidShellError::EmptyWitness),
    }
}

fn check_outcome_law(o: &BraidShellOutcome) -> (r: Result<(), BraidShellError>)
    ensures
        r == err_of(outcome_law_error(o@)),
{
    match o {
        BraidShellOutcome::Derived { collapse_witness: Some(w), .. } => check_witness_admissible(*w),
        BraidShellOutcome::Obstruction { witness, .. } => check_witness_admissible(*witness),
        _ => Ok(()),
    }
}

fn check_posture(posture: CausalPosture, ms: &[BraidShellMember]) -> (r: Result<(), BraidShellError>)
    ensures
        r == err_of(posture_error(posture, ms@)),
{
    let mut ps: Vec<CausalPosture> = Vec::new();
    let mut i: usize = 0;
    while i < ms.len()
        invariant
            i <= ms@.len(),
            ps@ == member_postures(ms@.take(i as int)),
        decreases ms.len() - i,
    {
        ps.push(ms[i].posture);
        i += 1;
        assert(ps@ =~= member_postures(ms@.take(i as int)));
    }
    assert(ms@.take(ms@.len() as int) =~= ms@);
    match shell_posture_obstruction(posture, ps.as_slice()) {
        Some(o) => Err(BraidShellError::PostureExceedsMembers(o)),
        None => Ok(()),
    }
}

fn has_verdict(ms: &[BraidShellMember], v: MemberVerdict) -> (r: bool)
    ensures
        r == any_verdict(ms@, v),
{
    let mut i: usize = 0;
    while i < ms.len()
        invariant
            i <= ms@.len(),
            forall|k: int| 0 <= k < i ==> (#[trigger] ms@[k]).verdict != v,
        decreases ms.len() - i,
    {
        if ms[i].verdict == v {
            return true;
        }
        i += 1;
    }
    false
}

fn check_outcome_member_coherence(o: &BraidShellOutcome, ms: &[BraidShellMember]) -> (r: Result<(), BraidShellError>)
    ensures
        r == err_of(coherence_error(o@, ms@)),
{
    let any_plural = has_verdict(ms, MemberVerdict::Plural);
    let any_conflict = has_verdict(ms, MemberVerdict::Conflict);
    let coherent = match o {
        BraidShellOutcome::Derived { collapse_policy, collapse_witness, collapsed_from, .. } => {
            let some = collapse_policy.is_some() || collapse_witness.is_some() || collapsed_from.is_some();
            let none = collapse_policy.is_none() || collapse_witness.is_none() || collapsed_from.is_none();
            if some && none {
                return Err(BraidShellError::IncoherentCollapseFields);
            }
            collapsed_from.is_some() || (!any_plural && !any_conflict)
        },
        BraidShellOutcome::Plural { .. } => any_plural,
        BraidShellOutcome::Conflict { .. } => any_conflict && !any_plural,
        BraidShellOutcome::Obstruction { .. } => true,
    };
    if coherent {
        Ok(())
    } else {
        Err(BraidShellError::OutcomeMemberMismatch { outcome: o.kind() })
    }
}

fn check_semantics(o: &BraidShellOutcome, ms: &[BraidShellMember], posture: CausalPosture) -> (r: Result<
    (),
    BraidShellError,
>)
    ensures
        r == err_of(semantic_error(o@, ms@, posture)),
{
    match check_outcome_law(o) {
        Err(e) => return Err(e),
        Ok(()) => {},
    }
    match check_posture(posture, ms) {
        Err(e) => return Err(e),
        Ok(()) => {},
    }
    check_outcome_member_coherence(o, ms)
}

/// Self-witness of the shell assembled from these inputs.
pub open spec fn assembled_witness(
    worldline_id: WorldlineId,
    basis: ProvenanceRef,
    members: Seq<BraidShellMember>,
    policy_id: crate::ident::Hash,
    outcome: OutcomeView,
    posture: CausalPosture,
) -> Seq<u8> {
    witness_spec(
        BRAID_SHELL_VERSION,
        worldline_id,
        basis,
        sort_by_key_spec(members),
        policy_id,
        canonical_outcome(outcome),
        posture,
    )
}

/// `s` is the shell assembled from these inputs: canonical member and
/// alternative order, and coordinate, witness, and digest over that body.
pub open spec fn assembled_as(
    s: BraidShell,
    worldline_id: WorldlineId,
    basis: ProvenanceRef,
    members: Seq<BraidShellMember>,
    policy_id: crate::ident::Hash,
    outcome: OutcomeView,
    posture: CausalPosture,
    envelope: Option<ProofEnvelope>,
) -> bool {
    &&& s.version == BRAID_SHELL_VERSION
    &&& s.worldline_id == worldline_id
    &&& s.basis == basis
    &&& s.members@ == sort_by_key_spec(members)
    &&& s.policy_id == policy_id
    &&& s.outcome@ == canonical_outcome(outcome)
    &&& s.posture == posture
    &&& s.proof == envelope
    &&& s.coordinate.0@ == coordinate_spec(basis, sort_by_key_spec(members), policy_id)
    &&& s.witness_digest@ == assembled_witness(worldline_id, basis, members, policy_id, outcome, posture)
    &&& s.digest@ == shell_digest_spec(
        BRAID_SHELL_VERSION,
        worldline_id,
        basis,
        sort_by_key_spec(members),
        policy_id,
        canonical_outcome(outcome),
        s.witness_digest,
        posture,
        envelope,
    )
}

proof fn lemma_sorted_members_in_order(ms: Seq<BraidShellMember>)
    requires
        sorted_by_key(ms),
    ensures
        !members_out_of_order(ms),
{
    assert forall|i: int| 0 <= i < ms.len() - 1 implies lex_le(member_digest_spec(#[trigger] ms[i]), member_digest_spec(ms[i + 1])) by {
        assert(key_le(ms[i], ms[i + 1]));
    }
}

proof fn lemma_sorted_alternatives_in_order(ids: Seq<crate::ident::Hash>)
    requires
        sorted_by_key(ids),
    ensures
        !alternatives_out_of_order(ids),
{
    assert forall|i: int| 0 <= i < ids.len() - 1 implies lex_le((#[trigger] ids[i])@, ids[i + 1]@) by {
        assert(key_le(ids[i], ids[i + 1]));
    }
}

impl BraidShell {
    /// Assembles a shell with an optional proof envelope: puts members in
    /// canonical digest order and plural alternatives in canonical set order,
    /// checks member references, alternatives, witnesses, the posture floor and
    /// outcome/member coherence, validates the envelope's shape against the
    /// derived witness, and seals coordinate, witness and digest.
    #[verifier::rlimit(40)]
    pub fn assemble_with_proof(
        worldline_id: WorldlineId,
        basis: ProvenanceRef,
        members: Vec<BraidShellMember>,
        policy_id: crate::ident::Hash,
        outcome: BraidShellOutcome,
        posture: CausalPosture,
        envelope: Option<ProofEnvelope>,
    ) -> (r: Result<BraidShell, BraidShellError>)
        ensures
            assembly_error(members@, policy_id, outcome@, posture) matches Some(e) ==> r == Err::<
                BraidShell,
                BraidShellError,
            >(e),
            assembly_error(members@, policy_id, outcome@, posture) is None ==> (match envelope {
                Some(p) => if proof_shape_ok(p, assembled_witness(worldline_id, basis, members@, policy_id, outcome@, posture)) {
                    r is Ok
                } else {
                    r matches Err(BraidShellError::ProofShapeValidationFailed { reason }) && proof_shape_error_matches(
                        p,
                        assembled_witness(worldline_id, basis, members@, policy_id, outcome@, posture),
                        reason,
                    )
                },
                None => r is Ok,
            }),
            r matches Ok(s) ==> assembled_as(s, worldline_id, basis, members@, policy_id, outcome@, posture, envelope),
            r matches Ok(s) ==> shell_valid(s),
    {
        let ghost input_members = members@;
        let ghost input_outcome = outcome@;
        if members.len() == 0 {
            return Err(BraidShellError::EmptyMembers);
        }
        match check_policy_id(policy_id) {
            Err(e) => return Err(e),
            Ok(()) => {},
        }
        let members = sort_by_key(members);
        proof {
            assert(members@.len() == input_members.len()) by {
                broadcast use vstd::seq_lib::group_to_multiset_ensures;
                assert(members@.to_multiset().len() == input_members.to_multiset().len());
            }
            lemma_sorted_members_in_order(members@);
        }
        match check_unique_member_strands(members.as_slice()) {
            Err(e) => return Err(e),
            Ok(()) => {},
        }
        let outcome = match outcome {
            BraidShellOutcome::Plural { alternative_ids } => {
                let ids = sort_by_key(alternative_ids);
                proof {
                    lemma_sorted_alternatives_in_order(ids@);
                }
                match check_alternative_duplicates(ids.as_slice()) {
                    Err(e) => return Err(e),
                    Ok(()) => {},
                }
                BraidShellOutcome::Plural { alternative_ids: ids }
            },
            other => other,
        };
        assert(outcome@ == canonical_outcome(input_outcome));
        match check_semantics(&outcome, members.as_slice(), posture) {
            Err(e) => return Err(e),
            Ok(()) => {},
        }
        let digests = member_digests(members.as_slice());
        let coordinate = derive_coordinate(&basis, digests.as_slice(), policy_id, Ghost(members@));
        let witness_digest = compute_witness_digest(
            BRAID_SHELL_VERSION,
            worldline_id,
            &basis,
            digests.as_slice(),
            policy_id,
            &outcome,
            posture,
            Ghost(members@),
        );
        match &envelope {
            Some(p) => match p.validate_shape(witness_digest) {
                Err(e) => return Err(BraidShellError::ProofShapeValidationFailed { reason: e }),
                Ok(()) => {},
            },
            None => {},
        }
        let digest = compute_shell_digest(
            BRAID_SHELL_VERSION,
            worldline_id,
            &basis,
            digests.as_slice(),
            policy_id,
            &outcome,
            witness_digest,
            posture,
            &envelope,
            Ghost(members@),
        );
        let shell = BraidShell {
            version: BRAID_SHELL_VERSION,
            coordinate,
            worldline_id,
            basis,
            members,
            policy_id,
            outcome,
            witness_digest,
            posture,
            proof: envelope,
            digest,
        };
        assert(structural_error(shell) is None);
        Ok(shell)
    }

    /// Assembles a shell without a proof envelope.
    pub fn assemble(
        worldline_id: WorldlineId,
        basis: ProvenanceRef,
        members: Vec<BraidShellMember>,
        policy_id: crate::ident::Hash,
        outcome: BraidShellOutcome,
        posture: CausalPosture,
    ) -> (r: Result<BraidShell, BraidShellError>)
        ensures
            r == (match assembly_error(members@, policy_id, outcome@, posture) {
                Some(e) => Err::<BraidShell, BraidShellError>(e),
                None => r,
            }),
            assembly_error(members@, policy_id, outcome@, posture) is None <==> r is Ok,
            r matches Ok(s) ==> assembled_as(s, worldline_id, basis, members@, policy_id, outcome@, posture, None),
            r matches Ok(s) ==> shell_valid(s),
    {
        Self::assemble_with_proof(worldline_id, basis, members, policy_id, outcome, posture, None)
    }

    /// Validates the shell as a self-contained retained record; the first
    /// failing check is reported.
    #[verifier::rlimit(40)]
    pub fn validate(&self) -> (r: Result<(), BraidShellError>)
        ensures
            validation_matches(*self, r),
    {
        if self.version != BRAID_SHELL_VERSION {
            return Err(BraidShellError::UnsupportedVersion { stored: self.version, supported: BRAID_SHELL_VERSION });
        }
        if self.members.len() == 0 {
            return Err(BraidShellError::EmptyMembers);
        }
        match check_policy_id(self.policy_id) {
            Err(e) => return Err(e),
            Ok(()) => {},
        }
        let digests = member_digests(self.members.as_slice());
        let mut i: usize = 0;
        while i < digests.len() && i + 1 < digests.len()
            invariant
                self.version == BRAID_SHELL_VERSION,
                self.members@.len() > 0,
                !is_zero_hash(self.policy_id),
                digests@.len() == self.members@.len(),
                forall|k: int| 0 <= k < self.members@.len() ==> (#[trigger] digests@[k])@ == member_digest_spec(
                    self.members@[k],
                ),
                forall|k: int| 0 <= k < i && k < self.members@.len() - 1 ==> lex_le(
                    member_digest_spec(#[trigger] self.members@[k]),
                    member_digest_spec(self.members@[k + 1]),
                ),
            decreases digests.len() - i,
        {
            if !hash_le(&digests[i], &digests[i + 1]) {
                assert(!lex_le(member_digest_spec(self.members@[i as int]), member_digest_spec(self.members@[i + 1])));
                assert(members_out_of_order(self.members@));
                return Err(BraidShellError::NonCanonicalMemberOrder);
            }
            i += 1;
        }
        match check_unique_member_strands(self.members.as_slice()) {
            Err(e) => return Err(e),
            Ok(()) => {},
        }
        match &self.outcome {
            BraidShellOutcome::Plural { alternative_ids } => {
                match check_alternative_order(alternative_ids.as_slice()) {
                    Err(e) => return Err(e),
                    Ok(()) => {},
                }
                match check_alternative_duplicates(alternative_ids.as_slice()) {
                    Err(e) => return Err(e),
                    Ok(()) => {},
                }
            },
            _ => {},
        }
        match check_semantics(&self.outcome, self.members.as_slice(), self.posture) {
            Err(e) => return Err(e),
            Ok(()) => {},
        }
        assert(structural_error(*self) is None);
        let coordinate = derive_coordinate(&self.basis, digests.as_slice(), self.policy_id, Ghost(self.members@));
        if !hash_eq(&coordinate.0, &self.coordinate.0) {
            return Err(BraidShellError::CoordinateMismatch);
        }
        let witness = compute_witness_digest(
            self.version,
            self.worldline_id,
            &self.basis,
            digests.as_slice(),
            self.policy_id,
            &self.outcome,
            self.posture,
            Ghost(self.members@),
        );
        if !hash_eq(&witness, &self.witness_digest) {
            return Err(BraidShellError::WitnessMismatch { stored: self.witness_digest, recomputed: witness });
        }
        let envelope = &self.proof;
        match envelope {
            Some(p) => match p.validate_shape(self.witness_digest) {
                Err(e) => return Err(BraidShellError::ProofShapeValidationFailed { reason: e }),
                Ok(()) => {},
            },
            None => {},
        }
        let digest = compute_shell_digest(
            self.version,
            self.worldline_id,
            &self.basis,
            digests.as_slice(),
            self.policy_id,
            &self.outcome,
            self.witness_digest,
            self.posture,
            &self.proof,
            Ghost(self.members@),
        );
        if !hash_eq(&digest, &self.digest) {
            return Err(BraidShellError::DigestMismatch { stored: self.digest, recomputed: digest });
        }
        Ok(())
    }

    /// Maps the shell outcome onto the shared lawful outcome family.
    pub fn outcome_kind(&self) -> (r: AdmissionOutcomeKind)
        ensures
            r == outcome_kind_spec(self.outcome@),
    {
        self.outcome.kind()
    }
}

/// Member sequences with the same keys have the same member digests.
proof fn lemma_member_digests_by_keys(s: Seq<BraidShellMember>, t: Seq<BraidShellMember>)
    requires
        keys_of(s) == keys_of(t),
    ensures
        s.len() == t.len(),
        member_digests_concat(s) == member_digests_concat(t),
    decreases s.len(),
{
    assert(keys_of(s).len() == s.len() && keys_of(t).len() == t.len());
    if s.len() > 0 {
        assert(keys_of(s.drop_last()) =~= keys_of(t.drop_last())) by {
            assert forall|i: int| 0 <= i < s.len() - 1 implies keys_of(s.drop_last())[i] == keys_of(t.drop_last())[i] by {
                assert(keys_of(s)[i] == keys_of(t)[i]);
            }
        }
        lemma_member_digests_by_keys(s.drop_last(), t.drop_last());
        assert(keys_of(s)[s.len() - 1] == keys_of(t)[t.len() - 1]);
    }
}

/// The order in which members are given cannot move a shell: shells
/// assembled from two arrangements of the same members carry the same
/// coordinate, self-witness and digest.
pub proof fn lemma_member_order_cannot_move_shell_digest(
    s1: BraidShell,
    s2: BraidShell,
    worldline_id: WorldlineId,
    basis: ProvenanceRef,
    ms1: Seq<BraidShellMember>,
    ms2: Seq<BraidShellMember>,
    policy_id: crate::ident::Hash,
    outcome: OutcomeView,
    posture: CausalPosture,
    envelope: Option<ProofEnvelope>,
)
    requires
        ms1.to_multiset() == ms2.to_multiset(),
        assembled_as(s1, worldline_id, basis, ms1, policy_id, outcome, posture, envelope),
        assembled_as(s2, worldline_id, basis, ms2, policy_id, outcome, posture, envelope),
    ensures
        s1.coordinate == s2.coordinate,
        s1.witness_digest == s2.witness_digest,
        s1.digest == s2.digest,
{
    lemma_sorted_keys_permutation_invariant(ms1, ms2);
    lemma_member_digests_by_keys(sort_by_key_spec(ms1), sort_by_key_spec(ms2));
    assert(s1.coordinate.0 =~= s2.coordinate.0);
    assert(s1.witness_digest =~= s2.witness_digest);
    assert(s1.digest =~= s2.digest);
}

/// Two outcomes that differ at most in the order of plural alternative ids.
pub open spec fn same_outcome_up_to_order(o1: OutcomeView, o2: OutcomeView) -> bool {
    match (o1, o2) {
        (OutcomeView::Plural { alternative_ids: a }, OutcomeView::Plural { alternative_ids: b }) => a.to_multiset()
            == b.to_multiset(),
        _ => o1 == o2,
    }
}

/// Neither the order of members nor the order of plural alternatives can move
/// a shell: shells assembled from two such arrangements carry the same
/// canonical outcome, the same member key order, coordinate, self-witness and
/// digest.
pub proof fn lemma_arrangement_cannot_move_shell(
    s1: BraidShell,
    s2: BraidShell,
    worldline_id: WorldlineId,
    basis: ProvenanceRef,
    ms1: Seq<BraidShellMember>,
    ms2: Seq<BraidShellMember>,
    policy_id: crate::ident::Hash,
    o1: OutcomeView,
    o2: OutcomeView,
    posture: CausalPosture,
    envelope: Option<ProofEnvelope>,
)
    requires
        ms1.to_multiset() == ms2.to_multiset(),
        same_outcome_up_to_order(o1, o2),
        assembled_as(s1, worldline_id, basis, ms1, policy_id, o1, posture, envelope),
        assembled_as(s2, worldline_id, basis, ms2, policy_id, o2, posture, envelope),
    ensures
        canonical_outcome(o1) == canonical_outcome(o2),
        s1.outcome@ == s2.outcome@,
        keys_of(s1.members@) == keys_of(s2.members@),
        s1.coordinate == s2.coordinate,
        s1.witness_digest == s2.witness_digest,
        s1.digest == s2.digest,
{
    match (o1, o2) {
        (OutcomeView::Plural { alternative_ids: a }, OutcomeView::Plural { alternative_ids: b }) => {
            lemma_sort_canonical_permutation_invariant(a, b);
        },
        _ => {},
    }
    assert(canonical_outcome(o1) == canonical_outcome(o2));
    lemma_sorted_keys_permutation_invariant(ms1, ms2);
    lemma_member_digests_by_keys(sort_by_key_spec(ms1), sort_by_key_spec(ms2));
    assert(s1.coordinate.0 =~= s2.coordinate.0);
    assert(s1.witness_digest =~= s2.witness_digest);
    assert(s1.digest =~= s2.digest);
}

/// An assembled shell holds its members as a key-ordered permutation of the
/// members given, and plural alternatives as a key-ordered permutation of the
/// alternatives given.
pub proof fn lemma_assembled_members_sorted_permutation(
    s: BraidShell,
    worldline_id: WorldlineId,
    basis: ProvenanceRef,
    members: Seq<BraidShellMember>,
    policy_id: crate::ident::Hash,
    outcome: OutcomeView,
    posture: CausalPosture,
    envelope: Option<ProofEnvelope>,
)
    requires
        assembled_as(s, worldline_id, basis, members, policy_id, outcome, posture, envelope),
    ensures
        sorted_by_key(s.members@),
        s.members@.to_multiset() == members.to_multiset(),
        outcome matches OutcomeView::Plural { alternative_ids } ==> (s.outcome@ matches OutcomeView::Plural {
            alternative_ids: sorted,
        } && sorted_by_key(sorted) && sorted.to_multiset() == alternative_ids.to_multiset()),
{
    lemma_sort_by_key_spec(members);
    match outcome {
        OutcomeView::Plural { alternative_ids } => lemma_sort_by_key_spec(alternative_ids),
        _ => {},
    }
}

/// Where member digests name the members, neither the order of members nor
/// the order of plural alternatives can change assembly at all: the same
/// check fails first, or the shells assembled are the same shell, field by
/// field.
pub proof fn lemma_arrangement_cannot_change_assembly(
    s1: BraidShell,
    s2: BraidShell,
    worldline_id: WorldlineId,
    basis: ProvenanceRef,
    ms1: Seq<BraidShellMember>,
    ms2: Seq<BraidShellMember>,
    policy_id: crate::ident::Hash,
    o1: OutcomeView,
    o2: OutcomeView,
    posture: CausalPosture,
    envelope: Option<ProofEnvelope>,
)
    requires
        ms1.to_multiset() == ms2.to_multiset(),
        keys_name_elements(ms1),
        same_outcome_up_to_order(o1, o2),
    ensures
        assembly_error(ms1, policy_id, o1, posture) == assembly_error(ms2, policy_id, o2, posture),
        assembled_as(s1, worldline_id, basis, ms1, policy_id, o1, posture, envelope) && assembled_as(
            s2,
            worldline_id,
            basis,
            ms2,
            policy_id,
            o2,
            posture,
            envelope,
        ) ==> s1.members@ == s2.members@ && s1.outcome@ == s2.outcome@ && s1.version == s2.version && s1.coordinate
            == s2.coordinate && s1.witness_digest == s2.witness_digest && s1.digest == s2.digest && s1.worldline_id
            == s2.worldline_id && s1.basis == s2.basis && s1.policy_id == s2.policy_id && s1.posture == s2.posture
            && s1.proof == s2.proof,
{
    broadcast use vstd::seq_lib::group_to_multiset_ensures;
    lemma_sort_named_permutation_invariant(ms1, ms2);
    match (o1, o2) {
        (OutcomeView::Plural { alternative_ids: a }, OutcomeView::Plural { alternative_ids: b }) => {
            lemma_sort_canonical_permutation_invariant(a, b);
        },
        _ => {},
    }
    assert(canonical_outcome(o1) == canonical_outcome(o2));
    ms1.to_multiset_ensures();
    ms2.to_multiset_ensures();
    assert(ms1.len() == ms2.len());
    if assembled_as(s1, worldline_id, basis, ms1, policy_id, o1, posture, envelope) && assembled_as(
        s2,
        worldline_id,
        basis,
        ms2,
        policy_id,
        o2,
        posture,
        envelope,
    ) {
        assert(s1.coordinate.0 =~= s2.coordinate.0);
        assert(s1.witness_digest =~= s2.witness_digest);
        assert(s1.digest =~= s2.digest);
    }
}

} // verus!
