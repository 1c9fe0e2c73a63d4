use warp_core::causal_wal::DigestMap;
use warp_core::admission::AdmissionOutcomeKind;
use warp_core::braid_shell::{
    audit_braid_shell, collapse_braid_shell, replay_braid_shell, BraidCoordinate, BraidMemberRef, BraidProofBinding,
    BraidShell, BraidShellError, BraidShellMember, BraidShellMemberAuditFact, BraidShellMemberQuery, BraidShellOutcome,
    BraidShellQuery, BraidShellRecords, BraidWitnessPosture, CollapsePolicy, CollapseResult, MemberVerdict,
    RetainedBoundaryKind, RetainedBoundaryRecord, BRAID_SHELL_VERSION, COLLAPSE_WITHOUT_POLICY_REASON,
};
use warp_core::ident::{make_strand_id, AuthorityDomainId, AuthorityDomainRef, OriginId, WorldlineId, WorldlineTick};
use warp_core::plurality_law::{PluralityLawEvidencePosture, PluralityLawFamily, PluralityLawRef};
use warp_core::proof_envelope::{ProofEnvelope, ProofError, ProofKind};
use warp_core::provenance_store::ProvenanceRef;
use warp_core::revelation::{blake3_empty, CausalPosture, WitnessDigest};
use warp_core::sealed_membership::DisclosureBudget;
use warp_core::witness::{WitnessAttestation, WitnessCompatibilityRule, WitnessKind};

type Hash = [u8; 32];

fn wl(n: u8) -> WorldlineId {
    WorldlineId::from_bytes([n; 32])
}

fn basis_ref() -> ProvenanceRef {
    ProvenanceRef {
        worldline_id: wl(1),
        worldline_tick: WorldlineTick::from_raw(0),
        commit_hash: [0x11; 32],
    }
}

fn member(label: &str, verdict: MemberVerdict) -> BraidShellMember {
    BraidShellMember {
        member_ref: BraidMemberRef::Revealed(make_strand_id(label)),
        support_pin_digest: [0x21; 32],
        basis_digest: [0x22; 32],
        frontier_digest: [0x23; 32],
        footprint_digest: [0x24; 32],
        claim_digest: [0x25; 32],
        verdict,
        verdict_digest: [0x26; 32],
        posture: CausalPosture::AuthorOnly,
    }
}

fn authority(origin: u8, domain: u8) -> AuthorityDomainRef {
    AuthorityDomainRef::new(OriginId::from_bytes([origin; 32]), AuthorityDomainId::from_bytes([domain; 32]))
}

fn sealed_member(commitment: Hash, authority: AuthorityDomainRef, verdict: MemberVerdict, claim_byte: u8) -> BraidShellMember {
    BraidShellMember {
        member_ref: BraidMemberRef::Sealed { blinded_commitment: commitment, authority },
        support_pin_digest: [0x21; 32],
        basis_digest: [0x22; 32],
        frontier_digest: [0x23; 32],
        footprint_digest: [0x24; 32],
        claim_digest: [claim_byte; 32],
        verdict,
        verdict_digest: [0x26; 32],
        posture: CausalPosture::AuthorOnly,
    }
}

fn plural_shell(members: Vec<BraidShellMember>) -> BraidShell {
    BraidShell::assemble(
        wl(1),
        basis_ref(),
        members,
        [0x5E; 32],
        BraidShellOutcome::Plural { alternative_ids: vec![[0x31; 32]] },
        CausalPosture::AuthorOnly,
    )
    .unwrap()
}

fn records_with(shells: impl IntoIterator<Item = BraidShell>) -> DigestMap<BraidShell> {
    let mut records = DigestMap::new();
    for shell in shells {
        records.insert(shell.digest, shell);
    }
    records
}

#[test]
fn member_order_permutation_cannot_move_the_shell_digest() {
    let a = member("member-a", MemberVerdict::Plural);
    let b = member("member-b", MemberVerdict::Derived);
    let forward = plural_shell(vec![a.clone(), b.clone()]);
    let reversed = plural_shell(vec![b, a]);

    assert_eq!(forward.digest, reversed.digest);
    assert_eq!(forward, reversed);
}

#[test]
fn replay_reproduces_outcome_and_member_verdicts_from_records_alone() {

    let shell = plural_shell(vec![
        member("member-a", MemberVerdict::Plural),
        member("member-b", MemberVerdict::Derived),
    ]);
    let digest = shell.digest;
    let expected_verdicts: Vec<(BraidMemberRef, MemberVerdict)> = shell
        .members
        .iter()
        .map(|member| (member.member_ref, member.verdict))
        .collect();
    let records = records_with([shell]);

    let replay = replay_braid_shell(&digest, &records).unwrap();
    assert_eq!(replay.outcome_kind, AdmissionOutcomeKind::Plural);
    assert_eq!(replay.member_verdicts, expected_verdicts);
    assert_eq!(replay.policy_id, [0x5E; 32]);
    assert_eq!(
        Ok(replay.law_ref),
        PluralityLawRef::settlement_policy([0x5E; 32])
    );
    assert_eq!(replay.posture, CausalPosture::AuthorOnly);
}

#[test]
fn replay_audit_reports_member_proof_support_frontier_and_witness_facts() {

    let members = vec![member("audit-member", MemberVerdict::Plural)];
    let temp_shell = BraidShell::assemble(
        wl(1),
        basis_ref(),
        members.clone(),
        [0x5E; 32],
        BraidShellOutcome::Plural {
            alternative_ids: vec![[0x31; 32]],
        },
        CausalPosture::AuthorOnly,
    )
    .unwrap();
    let proof = ProofEnvelope {
        kind: ProofKind::ReplayTrace,
        proof_bytes: vec![1, 2, 3],
        public_inputs_hash: temp_shell.witness_digest,
    };
    let shell = BraidShell::assemble_with_proof(
        wl(1),
        basis_ref(),
        members,
        [0x5E; 32],
        BraidShellOutcome::Plural {
            alternative_ids: vec![[0x31; 32]],
        },
        CausalPosture::AuthorOnly,
        Some(proof),
    )
    .unwrap();
    let digest = shell.digest;
    let expected_member = shell.members[0].clone();
    let expected_proof_digest = shell.proof.as_ref().unwrap().digest();
    let expected_witness = shell.witness_digest;
    let records = records_with([shell]);

    let audit = audit_braid_shell(&digest, &records).unwrap();

    assert_eq!(audit.shell_digest, digest);
    assert_eq!(audit.outcome_kind, AdmissionOutcomeKind::Plural);
    assert_eq!(
        Ok(audit.law_reading.law_ref()),
        PluralityLawRef::settlement_policy([0x5E; 32])
    );
    assert_eq!(audit.law_reading.support_digest(), digest);
    assert_eq!(
        audit.law_reading.evidence_posture(),
        PluralityLawEvidencePosture::SelfWitnessIntegrityOnly
    );
    assert_eq!(
        audit.law_reading.disclosure_budget(),
        DisclosureBudget::Public
    );
    assert_eq!(audit.posture_floor, CausalPosture::AuthorOnly);
    assert_eq!(audit.shell_posture, CausalPosture::AuthorOnly);
    assert_eq!(audit.settlement_frontier, vec![expected_member.member_ref]);
    assert_eq!(
        audit.member_facts,
        vec![BraidShellMemberAuditFact {
            member_ref: expected_member.member_ref,
            verdict: expected_member.verdict,
            posture: expected_member.posture,
            support_pin_digest: expected_member.support_pin_digest,
            basis_digest: expected_member.basis_digest,
            frontier_digest: expected_member.frontier_digest,
            footprint_digest: expected_member.footprint_digest,
            claim_digest: expected_member.claim_digest,
            verdict_digest: expected_member.verdict_digest,
            disclosure_budget: DisclosureBudget::Public,
        }]
    );
    assert_eq!(
        audit.proof_binding,
        BraidProofBinding::Matched {
            kind: ProofKind::ReplayTrace,
            envelope_digest: expected_proof_digest,
            public_inputs_hash: expected_witness,
        }
    );
    assert_eq!(
        audit.witness_posture,
        BraidWitnessPosture::SelfWitnessIntegrityOnly {
            digest: expected_witness,
        }
    );
    assert_eq!(audit.witness_receipt.kind(), WitnessKind::SelfWitness);
    assert_eq!(audit.witness_receipt.subject_digest(), digest);
    assert_eq!(audit.witness_receipt.evidence_digest(), expected_witness);
    assert_eq!(
        audit.witness_receipt.compatibility(),
        WitnessCompatibilityRule::E1Scaffold
    );
    assert_eq!(
        audit.witness_receipt.attestation(),
        WitnessAttestation::IntegrityOnly
    );
}

#[test]
fn replay_audit_labels_sealed_member_disclosure_budget() {

    let shell = plural_shell(vec![sealed_member(
        [0xAA; 32],
        authority(0x01, 0x02),
        MemberVerdict::Plural,
        0x25,
    )]);
    let digest = shell.digest;
    let records = records_with([shell]);

    let audit = audit_braid_shell(&digest, &records).unwrap();

    assert_eq!(audit.member_facts.len(), 1);
    assert!(matches!(
        audit.member_facts[0].member_ref,
        BraidMemberRef::Sealed { .. }
    ));
    assert_eq!(
        audit.member_facts[0].disclosure_budget,
        DisclosureBudget::AuthorityScoped
    );
    assert_eq!(
        audit.law_reading.disclosure_budget(),
        DisclosureBudget::AuthorityScoped
    );
}

#[test]
fn tampering_with_policy_posture_or_verdict_fails_replay() {
    let shell = plural_shell(vec![member("member-a", MemberVerdict::Plural)]);
    let digest = shell.digest;

    let mut policy_tampered = shell.clone();
    policy_tampered.policy_id = [0xAA; 32];
    let records = records_with([policy_tampered]);
    // The tampered shell no longer lives at its claimed digest, and its
    // stored digest no longer matches its body either way.
    assert!(replay_braid_shell(&digest, &records).is_err());

    let mut verdict_tampered = shell.clone();
    verdict_tampered.members[0].verdict_digest = [0xBB; 32];
    assert!(matches!(
        verdict_tampered.validate(),
        Err(BraidShellError::WitnessMismatch { .. }
            | BraidShellError::DigestMismatch { .. }
            | BraidShellError::CoordinateMismatch)
    ));

    let mut posture_tampered = shell.clone();
    posture_tampered.posture = CausalPosture::Scratch;
    assert!(matches!(
        posture_tampered.validate(),
        Err(BraidShellError::WitnessMismatch { .. } | BraidShellError::DigestMismatch { .. })
    ));

    let mut outcome_tampered = shell;
    outcome_tampered.outcome = BraidShellOutcome::Conflict {
        reason_codes: vec![4],
    };
    assert!(outcome_tampered.validate().is_err());
}

#[test]
fn tampering_with_coordinate_fails_validation() {
    let mut shell = plural_shell(vec![member("member-a", MemberVerdict::Plural)]);
    shell.coordinate = BraidCoordinate([0xCC; 32]);
    assert_eq!(shell.validate(), Err(BraidShellError::CoordinateMismatch));
}

#[test]
fn derived_shell_rejects_empty_collapse_witness() {
    let result = BraidShell::assemble(
        wl(1),
        basis_ref(),
        vec![member("member-a", MemberVerdict::Derived)],
        [0x5E; 32],
        BraidShellOutcome::Derived {
            result_refs: vec![basis_ref()],
            collapse_policy: Some([0x77; 32]),
            collapse_witness: Some([0; 32]),
            collapsed_from: Some([0x88; 32]),
        },
        CausalPosture::AuthorOnly,
    );
    assert_eq!(result, Err(BraidShellError::EmptyWitness));
}

#[test]
fn obstruction_shell_rejects_empty_witness() {
    let result = BraidShell::assemble(
        wl(1),
        basis_ref(),
        vec![member("member-a", MemberVerdict::Obstructed)],
        [0x5E; 32],
        BraidShellOutcome::Obstruction {
            reason_code: 1,
            witness: blake3_empty(),
            obstructed_from: None,
        },
        CausalPosture::AuthorOnly,
    );
    assert_eq!(result, Err(BraidShellError::EmptyWitness));
}

#[test]
fn shell_rejects_empty_policy_id() {
    let result = BraidShell::assemble(
        wl(1),
        basis_ref(),
        vec![member("member-a", MemberVerdict::Plural)],
        [0; 32],
        BraidShellOutcome::Plural {
            alternative_ids: vec![[0x31; 32]],
        },
        CausalPosture::AuthorOnly,
    );

    assert_eq!(result, Err(BraidShellError::EmptyPolicyId));
}

#[test]
fn duplicate_alternative_ids_are_refused() {
    let result = BraidShell::assemble(
        wl(1),
        basis_ref(),
        vec![member("member-a", MemberVerdict::Plural)],
        [0x5E; 32],
        BraidShellOutcome::Plural {
            alternative_ids: vec![[0x31; 32], [0x31; 32]],
        },
        CausalPosture::AuthorOnly,
    );
    assert_eq!(
        result,
        Err(BraidShellError::DuplicateAlternativeId {
            alternative_id: [0x31; 32],
        })
    );
}

#[test]
fn duplicate_member_strands_are_refused() {
    let mut duplicate = member("member-a", MemberVerdict::Plural);
    duplicate.claim_digest = [0x99; 32];
    let result = BraidShell::assemble(
        wl(1),
        basis_ref(),
        vec![member("member-a", MemberVerdict::Plural), duplicate],
        [0x5E; 32],
        BraidShellOutcome::Plural {
            alternative_ids: vec![[0x31; 32]],
        },
        CausalPosture::AuthorOnly,
    );
    assert_eq!(
        result,
        Err(BraidShellError::DuplicateMemberStrand {
            member_ref: BraidMemberRef::Revealed(make_strand_id("member-a")),
        })
    );
}

#[test]
fn sealed_members_with_same_commitment_under_different_authorities_are_distinct() {
    let commitment = [0x44; 32];
    let result = BraidShell::assemble(
        wl(1),
        basis_ref(),
        vec![
            sealed_member(
                commitment,
                authority(0x10, 0x20),
                MemberVerdict::Plural,
                0x25,
            ),
            sealed_member(
                commitment,
                authority(0x11, 0x20),
                MemberVerdict::Plural,
                0x26,
            ),
        ],
        [0x5E; 32],
        BraidShellOutcome::Plural {
            alternative_ids: vec![[0x31; 32]],
        },
        CausalPosture::AuthorOnly,
    );

    assert!(result.is_ok());
}

#[test]
fn mixed_revealed_and_sealed_members_are_refused() {
    let result = BraidShell::assemble(
        wl(1),
        basis_ref(),
        vec![
            member("member-a", MemberVerdict::Plural),
            sealed_member(
                [0x44; 32],
                authority(0x10, 0x20),
                MemberVerdict::Plural,
                0x26,
            ),
        ],
        [0x5E; 32],
        BraidShellOutcome::Plural {
            alternative_ids: vec![[0x31; 32]],
        },
        CausalPosture::AuthorOnly,
    );

    assert_eq!(result, Err(BraidShellError::MixedMemberReferencePosture));
}

#[test]
fn obstructed_collapse_names_its_plural_parent() {
    let plural = plural_shell(vec![member("member-a", MemberVerdict::Plural)]);
    let plural_digest = plural.digest;
    let records = records_with([plural.clone()]);

    let CollapseResult::Obstructed(obstructed) =
        collapse_braid_shell(&records, plural_digest, Vec::new(), None).unwrap()
    else {
        unreachable!("collapse without policy must obstruct");
    };
    let BraidShellOutcome::Obstruction {
        obstructed_from, ..
    } = obstructed.outcome
    else {
        unreachable!("obstructed collapse carries an obstruction outcome");
    };
    assert_eq!(obstructed_from, Some(plural_digest));

    // Replay verifies the named parent is retained and plural.
    let mut store = records_with([plural]);
    let CollapseResult::Obstructed(obstructed) =
        collapse_braid_shell(&store, plural_digest, Vec::new(), None).unwrap()
    else {
        unreachable!();
    };
    store.insert(obstructed.digest, obstructed.clone());
    let replay = replay_braid_shell(&obstructed.digest, &store).unwrap();
    assert_eq!(replay.outcome_kind, AdmissionOutcomeKind::Obstruction);
}

#[test]
fn shells_are_queryable_by_coordinate() {
    let shell = plural_shell(vec![member("member-a", MemberVerdict::Plural)]);
    assert!(shell.matches(&BraidShellQuery {
        coordinate: Some(shell.coordinate),
        ..BraidShellQuery::default()
    }));
    assert!(!shell.matches(&BraidShellQuery {
        coordinate: Some(BraidCoordinate([0xDD; 32])),
        ..BraidShellQuery::default()
    }));
}

#[test]
fn shell_posture_cannot_exceed_least_revealed_member() {
    let result = BraidShell::assemble(
        wl(1),
        basis_ref(),
        vec![member("member-a", MemberVerdict::Plural)],
        [0x5E; 32],
        BraidShellOutcome::Plural {
            alternative_ids: vec![[0x31; 32]],
        },
        CausalPosture::Shared,
    );
    assert!(matches!(
        result,
        Err(BraidShellError::PostureExceedsMembers(_))
    ));
}

#[test]
fn outcome_arm_must_agree_with_member_verdicts() {
    let result = BraidShell::assemble(
        wl(1),
        basis_ref(),
        vec![member("member-a", MemberVerdict::Derived)],
        [0x5E; 32],
        BraidShellOutcome::Plural {
            alternative_ids: vec![[0x31; 32]],
        },
        CausalPosture::AuthorOnly,
    );
    assert_eq!(
        result,
        Err(BraidShellError::OutcomeMemberMismatch {
            outcome: AdmissionOutcomeKind::Plural,
        })
    );
}

#[test]
fn collapse_lineage_requires_a_retained_plural_parent() {
    let plural = plural_shell(vec![member("member-a", MemberVerdict::Plural)]);
    let plural_digest = plural.digest;
    let derived = BraidShell::assemble(
        wl(1),
        basis_ref(),
        vec![member("member-a", MemberVerdict::Derived)],
        [0x5E; 32],
        BraidShellOutcome::Derived {
            result_refs: vec![basis_ref()],
            collapse_policy: Some([0x77; 32]),
            collapse_witness: Some([0x78; 32]),
            collapsed_from: Some(plural_digest),
        },
        CausalPosture::AuthorOnly,
    )
    .unwrap();
    let derived_digest = derived.digest;

    let complete = records_with([plural, derived.clone()]);
    let replay = replay_braid_shell(&derived_digest, &complete).unwrap();
    assert_eq!(replay.outcome_kind, AdmissionOutcomeKind::Derived);

    let missing_parent = records_with([derived]);
    assert_eq!(
        replay_braid_shell(&derived_digest, &missing_parent),
        Err(BraidShellError::InvalidLineageParent {
            parent: plural_digest,
        })
    );
}

#[test]
fn tampering_with_version_fails_validation() {
    let mut shell = plural_shell(vec![member("member-a", MemberVerdict::Plural)]);
    shell.version = 999;
    assert_eq!(
        shell.validate(),
        Err(BraidShellError::UnsupportedVersion {
            stored: 999,
            supported: BRAID_SHELL_VERSION,
        })
    );
}

#[test]
fn plural_alternatives_are_a_canonical_set() {
    let members = vec![member("member-a", MemberVerdict::Plural)];
    let forward = BraidShell::assemble(
        wl(1),
        basis_ref(),
        members.clone(),
        [0x5E; 32],
        BraidShellOutcome::Plural {
            alternative_ids: vec![[0x32; 32], [0x31; 32]],
        },
        CausalPosture::AuthorOnly,
    )
    .unwrap();
    let reversed = BraidShell::assemble(
        wl(1),
        basis_ref(),
        members,
        [0x5E; 32],
        BraidShellOutcome::Plural {
            alternative_ids: vec![[0x31; 32], [0x32; 32]],
        },
        CausalPosture::AuthorOnly,
    )
    .unwrap();
    assert_eq!(forward.digest, reversed.digest);

    let mut tampered = forward;
    tampered.outcome = BraidShellOutcome::Plural {
        alternative_ids: vec![[0x32; 32], [0x31; 32]],
    };
    assert_eq!(
        tampered.validate(),
        Err(BraidShellError::NonCanonicalAlternativeOrder)
    );
}

// WitnessDigest shrug-rejection is owned and tested in `revelation`;
// `check_outcome_law` maps it to `BraidShellError::EmptyWitness`, covered
// by `derived_shell_rejects_empty_collapse_witness` /
// `obstruction_shell_rejects_empty_witness` below.

#[test]
fn collapse_with_named_policy_derives_without_mutating_the_plural_parent() {

    let plural = plural_shell(vec![member("member-a", MemberVerdict::Plural)]);
    let plural_digest = plural.digest;
    let snapshot = plural.clone();
    let records = records_with([plural]);

    let policy = CollapsePolicy {
        policy_id: [0x77; 32],
        witness: WitnessDigest::new([0x99; 32]).unwrap(),
    };
    let CollapseResult::Derived(derived) =
        collapse_braid_shell(&records, plural_digest, vec![basis_ref()], Some(policy)).unwrap()
    else {
        unreachable!("named collapse policy must derive");
    };

    assert_eq!(
        derived.outcome,
        BraidShellOutcome::Derived {
            result_refs: vec![basis_ref()],
            collapse_policy: Some([0x77; 32]),
            collapse_witness: Some([0x99; 32]),
            collapsed_from: Some(plural_digest),
        }
    );
    assert_eq!(records.shell(&plural_digest), Some(&snapshot));

    let mut store = records_with([snapshot]);
    store.insert(derived.digest, derived.clone());
    let replay = replay_braid_shell(&derived.digest, &store).unwrap();
    assert_eq!(replay.outcome_kind, AdmissionOutcomeKind::Derived);
    assert_eq!(replay.law_ref.family(), PluralityLawFamily::Collapse);
    let audit = audit_braid_shell(&derived.digest, &store).unwrap();
    assert_eq!(
        audit.law_reading.law_ref().family(),
        PluralityLawFamily::Collapse
    );
}

#[test]
fn collapse_without_policy_is_a_retained_obstruction() {
    let plural = plural_shell(vec![member("member-a", MemberVerdict::Plural)]);
    let plural_digest = plural.digest;
    let records = records_with([plural]);

    let CollapseResult::Obstructed(obstructed) =
        collapse_braid_shell(&records, plural_digest, Vec::new(), None).unwrap()
    else {
        unreachable!("collapse without policy must obstruct");
    };

    assert_eq!(obstructed.outcome_kind(), AdmissionOutcomeKind::Obstruction);
    let BraidShellOutcome::Obstruction { reason_code, .. } = obstructed.outcome else {
        unreachable!("obstructed collapse carries an obstruction outcome");
    };
    assert_eq!(reason_code, COLLAPSE_WITHOUT_POLICY_REASON);
    obstructed.validate().unwrap();
}

#[test]
fn tick_and_braid_records_are_one_boundary_family() {
    let shell = plural_shell(vec![member("member-a", MemberVerdict::Plural)]);
    assert_eq!(shell.boundary_kind(), RetainedBoundaryKind::Braid);
    assert_eq!(shell.boundary_digest(), shell.digest);
}

#[test]
fn query_matches_by_basis_member_outcome_and_posture() {
    let shell = plural_shell(vec![member("member-a", MemberVerdict::Plural)]);

    assert!(shell.matches(&BraidShellQuery::default()));
    assert!(shell.matches(&BraidShellQuery {
        coordinate: Some(shell.coordinate),
        basis: Some(basis_ref()),
        revealed_member_strand: Some(make_strand_id("member-a")),
        secure_member: None,
        outcome: Some(AdmissionOutcomeKind::Plural),
        posture: Some(CausalPosture::AuthorOnly),
    }));
    assert!(!shell.matches(&BraidShellQuery {
        outcome: Some(AdmissionOutcomeKind::Conflict),
        ..BraidShellQuery::default()
    }));
    assert!(!shell.matches(&BraidShellQuery {
        revealed_member_strand: Some(make_strand_id("nobody")),
        ..BraidShellQuery::default()
    }));
}

#[test]
fn sealed_member_query_requires_secure_material() {
    let strand_id = make_strand_id("sealed-member");
    let child_worldline_id = wl(9);
    let member_authority = authority(0xA1, 0xB1);
    let blinding_secret = [0xA5; 32];
    let member_ref = BraidMemberRef::seal(strand_id, child_worldline_id, blinding_secret);
    let shell = plural_shell(vec![sealed_member(
        member_ref,
        member_authority,
        MemberVerdict::Plural,
        0x27,
    )]);

    assert!(!shell.has_revealed_member_strand(&strand_id));
    assert!(shell.has_member_strand_secure(
        &strand_id,
        &child_worldline_id,
        &member_authority,
        &blinding_secret
    ));
    assert!(!shell.has_member_strand_secure(
        &strand_id,
        &child_worldline_id,
        &authority(0xA1, 0xB2),
        &blinding_secret
    ));
    assert!(!shell.matches(&BraidShellQuery {
        revealed_member_strand: Some(strand_id),
        ..BraidShellQuery::default()
    }));
    assert!(shell.matches(&BraidShellQuery {
        secure_member: Some(BraidShellMemberQuery {
            strand_id,
            child_worldline_id,
            authority: member_authority,
            blinding_secret,
        }),
        ..BraidShellQuery::default()
    }));
    let debug = BraidShellMemberQuery {
        strand_id,
        child_worldline_id,
        authority: member_authority,
        blinding_secret,
    }
    .redacted_debug();
    assert!(debug.contains("blinding_secret: \"<redacted>\""));
    assert!(!debug.contains("blinding_secret: ["));
}

#[test]
fn assemble_with_proof_validates_envelope() {

    let members = vec![member("member-a", MemberVerdict::Plural)];

    // Build it without proof first to retrieve the expected witness digest.
    let temp_shell = BraidShell::assemble(
        wl(1),
        basis_ref(),
        members.clone(),
        [0x5E; 32],
        BraidShellOutcome::Plural {
            alternative_ids: vec![[0x31; 32]],
        },
        CausalPosture::AuthorOnly,
    )
    .unwrap();
    assert_eq!(temp_shell.version, BRAID_SHELL_VERSION);
    assert_eq!(BRAID_SHELL_VERSION, 2);
    let expected_witness = temp_shell.witness_digest;

    // Valid replay-trace evidence: matches the witness_digest and has non-empty bytes.
    let valid_proof = ProofEnvelope {
        kind: ProofKind::ReplayTrace,
        proof_bytes: vec![1, 2, 3],
        public_inputs_hash: expected_witness,
    };

    let shell_with_valid_proof = BraidShell::assemble_with_proof(
        wl(1),
        basis_ref(),
        members.clone(),
        [0x5E; 32],
        BraidShellOutcome::Plural {
            alternative_ids: vec![[0x31; 32]],
        },
        CausalPosture::AuthorOnly,
        Some(valid_proof),
    )
    .unwrap();
    assert_eq!(shell_with_valid_proof.version, BRAID_SHELL_VERSION);
    shell_with_valid_proof.validate().unwrap();
    assert_ne!(
        temp_shell.digest, shell_with_valid_proof.digest,
        "proof-bearing shells must have a distinct content identity"
    );

    let mut proof_tampered = shell_with_valid_proof;
    assert!(proof_tampered.proof.is_some());
    if let Some(proof) = proof_tampered.proof.as_mut() {
        proof.proof_bytes.push(4);
    }
    assert!(matches!(
        proof_tampered.validate(),
        Err(BraidShellError::DigestMismatch { .. })
    ));

    // Invalid proof: mismatched public inputs hash
    let invalid_proof_mismatch = ProofEnvelope {
        kind: ProofKind::ReplayTrace,
        proof_bytes: vec![1, 2, 3],
        public_inputs_hash: [0x99; 32],
    };
    let result_mismatch = BraidShell::assemble_with_proof(
        wl(1),
        basis_ref(),
        members.clone(),
        [0x5E; 32],
        BraidShellOutcome::Plural {
            alternative_ids: vec![[0x31; 32]],
        },
        CausalPosture::AuthorOnly,
        Some(invalid_proof_mismatch),
    );
    assert!(matches!(
        result_mismatch,
        Err(BraidShellError::ProofShapeValidationFailed {
            reason: ProofError::PublicInputsMismatch {
                expected,
                actual,
            },
        }) if expected == expected_witness && actual == [0x99; 32]
    ));

    // Invalid proof: empty proof bytes
    let invalid_proof_empty = ProofEnvelope {
        kind: ProofKind::ReplayTrace,
        proof_bytes: Vec::new(),
        public_inputs_hash: expected_witness,
    };
    let result_empty = BraidShell::assemble_with_proof(
        wl(1),
        basis_ref(),
        members,
        [0x5E; 32],
        BraidShellOutcome::Plural {
            alternative_ids: vec![[0x31; 32]],
        },
        CausalPosture::AuthorOnly,
        Some(invalid_proof_empty),
    );
    assert!(matches!(
        result_empty,
        Err(BraidShellError::ProofShapeValidationFailed {
            reason: ProofError::EmptyPayload,
        })
    ));
}

#[test]
fn cryptographic_proof_kinds_require_verifier_backend() {

    let members = vec![member("member-a", MemberVerdict::Plural)];
    let temp_shell = BraidShell::assemble(
        wl(1),
        basis_ref(),
        members.clone(),
        [0x5E; 32],
        BraidShellOutcome::Plural {
            alternative_ids: vec![[0x31; 32]],
        },
        CausalPosture::AuthorOnly,
    )
    .unwrap();

    for kind in [ProofKind::ZkSnark, ProofKind::VectorOpening] {
        let result = BraidShell::assemble_with_proof(
            wl(1),
            basis_ref(),
            members.clone(),
            [0x5E; 32],
            BraidShellOutcome::Plural {
                alternative_ids: vec![[0x31; 32]],
            },
            CausalPosture::AuthorOnly,
            Some(ProofEnvelope {
                kind,
                proof_bytes: vec![1, 2, 3],
                public_inputs_hash: temp_shell.witness_digest,
            }),
        );
        assert!(matches!(
            result,
            Err(BraidShellError::ProofShapeValidationFailed {
                reason: ProofError::UnsupportedKind { kind: rejected },
            }) if rejected == kind
        ));
    }
}

#[test]
fn test_secure_sealed_member_matching() {
    let strand_id = make_strand_id("secure-member");
    let child_worldline = WorldlineId::from_bytes([0x88; 32]);
    let member_authority = authority(0x10, 0x20);
    let blinding_secret = [0x44; 32];

    let blinded_commitment = BraidMemberRef::seal(strand_id, child_worldline, blinding_secret);
    let sealed_ref = BraidMemberRef::Sealed {
        blinded_commitment,
        authority: member_authority,
    };

    // Verification matches correctly.
    assert!(sealed_ref.matches_strand(
        &strand_id,
        &child_worldline,
        &member_authority,
        &blinding_secret
    ));

    // Revealed references are not accepted by the sealed secure path.
    assert!(!BraidMemberRef::Revealed(strand_id).matches_strand(
        &strand_id,
        &child_worldline,
        &member_authority,
        &blinding_secret
    ));

    // Mismatched strand_id fails.
    let wrong_strand_id = make_strand_id("wrong-member");
    assert!(!sealed_ref.matches_strand(
        &wrong_strand_id,
        &child_worldline,
        &member_authority,
        &blinding_secret
    ));

    // Mismatched child_worldline fails.
    let wrong_child_worldline = WorldlineId::from_bytes([0x99; 32]);
    assert!(!sealed_ref.matches_strand(
        &strand_id,
        &wrong_child_worldline,
        &member_authority,
        &blinding_secret
    ));

    // Mismatched authority fails.
    assert!(!sealed_ref.matches_strand(
        &strand_id,
        &child_worldline,
        &authority(0x10, 0x21),
        &blinding_secret
    ));

    // Mismatched blinding secret fails.
    assert!(!sealed_ref.matches_strand(
        &strand_id,
        &child_worldline,
        &member_authority,
        &[0x45; 32]
    ));
}

#[test]
fn lookups_use_the_requested_digest() {
    let plural = plural_shell(vec![member("member-a", MemberVerdict::Plural)]);
    let digest = plural.digest;
    let records = records_with([plural]);
    assert!(replay_braid_shell(&digest, &records).is_ok());
    assert!(audit_braid_shell(&digest, &records).is_ok());
    let missing = [0x42; 32];
    assert!(matches!(
        audit_braid_shell(&missing, &records),
        Err(BraidShellError::ShellNotFound { digest }) if digest == missing
    ));
    assert!(matches!(
        replay_braid_shell(&missing, &records),
        Err(BraidShellError::ShellNotFound { digest }) if digest == missing
    ));
    assert!(matches!(
        collapse_braid_shell(&records, missing, Vec::new(), None),
        Err(BraidShellError::ShellNotFound { digest }) if digest == missing
    ));
}
