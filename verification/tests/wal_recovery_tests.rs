use std::fmt::Debug;

use warp_core::causal_wal::lint::{lint_wal_schema_terms, WalSchemaLintError};
use warp_core::causal_wal::operations::{
    audit_wal_release_readiness, validate_strict_object_store_capabilities, ObjectStoreCapabilityError,
    ObjectStoreReadAfterWritePosture, ObjectStoreWalCapabilities, WalReleaseReadinessGates,
};
use warp_core::causal_wal::outbox::{
    build_materialization_outbox_transaction, recover_materialization_outbox, MaterializationRecoveryPosture,
};
use warp_core::causal_wal::replay::{apply_committed_transaction, shadow_replay_report, RecoveredState, WalReplayError};
use warp_core::causal_wal::transactions::build_submission_acceptance_transaction;
use warp_core::causal_wal::{
    recover_from_frames_and_commits, AffectedFrontier, AffectedFrontierKind, DigestMap, Lsn,
    MaterializationIntentRecord, MaterializationObservationRecord, MaterializationReplayPosture, PayloadCodecId,
    PayloadSchemaId, RecoveryAccessMode, SubmissionAcceptanceRecord, WalAppendAuthority, WalCommittedTransaction,
    WalDurabilityMode, WalSegmentId, WalTransactionBuilder, WalTransactionId, WalTransactionKind, WriterEpochId,
};

type Hash = [u8; 32];

fn digest(label: &str) -> Hash {
    *blake3::hash(label.as_bytes()).as_bytes()
}

fn must_ok<T, E: Debug>(result: Result<T, E>) -> T {
    match result {
        Ok(value) => value,
        Err(error) => panic!("expected Ok(..), got Err({error:?})"),
    }
}

fn builder(label: &str, kind: WalTransactionKind, authority: WalAppendAuthority, first_lsn: u64) -> WalTransactionBuilder {
    WalTransactionBuilder::new(
        WriterEpochId::from_hash(digest("recovery-writer-epoch")),
        WalSegmentId::from_raw(1),
        WalTransactionId::from_hash(digest(&format!("recovery-transaction:{label}"))),
        kind,
        authority,
        Lsn::from_raw(first_lsn),
        digest("previous-frame"),
        digest("previous-commit"),
        WalDurabilityMode::StrictFilesystem,
        PayloadCodecId::from_hash(digest("recovery-codec")),
        PayloadSchemaId::from_hash(digest("recovery-schema")),
        1,
        1,
        digest("recovery-domain"),
    )
}

fn submission(label: &str, before: Hash, after: Hash) -> WalCommittedTransaction {
    must_ok(build_submission_acceptance_transaction(
        builder(label, WalTransactionKind::SubmissionIntake, WalAppendAuthority::SubmissionIntake, 10),
        SubmissionAcceptanceRecord {
            submission_id: digest(&format!("submission:{label}")),
            canonical_envelope_digest: digest(&format!("envelope:{label}")),
            idempotency_key_digest: None,
            acceptance_evidence_digest: digest(&format!("evidence:{label}")),
        },
        vec![AffectedFrontier { kind: AffectedFrontierKind::SubmissionQueue, before_digest: before, after_digest: after }],
    ))
}

fn intent(label: &str) -> MaterializationIntentRecord {
    MaterializationIntentRecord {
        effect_id: digest(&format!("effect:{label}")),
        expected_artifact_digest: digest(&format!("artifact:{label}")),
        materialization_intent_digest: digest(&format!("intent:{label}")),
        idempotency_token: digest(&format!("token:{label}")),
        target_metadata_digest: digest(&format!("metadata:{label}")),
    }
}

fn outbox_transaction(label: &str, observation: Option<MaterializationObservationRecord>) -> WalCommittedTransaction {
    must_ok(build_materialization_outbox_transaction(
        builder(label, WalTransactionKind::MaterializationOutbox, WalAppendAuthority::TrustedScheduler, 30),
        intent(label),
        observation,
        vec![AffectedFrontier {
            kind: AffectedFrontierKind::ReceiptIndex,
            before_digest: digest("receipts:before"),
            after_digest: digest("receipts:after"),
        }],
    ))
}

#[test]
fn pending_materialization_intent_recovers_as_missing_artifact() {
    let t = outbox_transaction("pending", None);
    let report = must_ok(recover_from_frames_and_commits(
        &t.frames,
        std::slice::from_ref(&t.commit),
        RecoveryAccessMode::ReadOnly,
    ));
    let outbox = must_ok(recover_materialization_outbox(&report, &DigestMap::new()));
    assert_eq!(outbox.len(), 1);
    let entry = outbox.get(&digest("effect:pending")).expect("entry for the effect");
    assert_eq!(entry.posture, MaterializationReplayPosture::Pending);
    assert_eq!(
        entry.recovery_posture,
        MaterializationRecoveryPosture::MissingArtifact {
            effect_id: digest("effect:pending"),
            expected_artifact_digest: digest("artifact:pending"),
            expected_metadata_digest: digest("metadata:pending"),
        }
    );
}

#[test]
fn observed_materialization_recovers_as_already_observed() {
    let observation = MaterializationObservationRecord {
        effect_id: digest("effect:seen"),
        observed_artifact_digest: digest("artifact:seen"),
        observed_metadata_digest: digest("metadata:seen"),
    };
    let t = outbox_transaction("seen", Some(observation));
    let report = must_ok(recover_from_frames_and_commits(
        &t.frames,
        std::slice::from_ref(&t.commit),
        RecoveryAccessMode::ReadOnly,
    ));
    let outbox = must_ok(recover_materialization_outbox(&report, &DigestMap::new()));
    let entry = outbox.get(&digest("effect:seen")).expect("entry for the effect");
    assert_eq!(entry.posture, MaterializationReplayPosture::AlreadyObserved);
    assert_eq!(
        entry.recovery_posture,
        MaterializationRecoveryPosture::AlreadyObserved {
            observed_artifact_digest: digest("artifact:seen"),
            observed_metadata_digest: digest("metadata:seen"),
        }
    );
}

#[test]
fn replay_advances_frontiers_and_refuses_stale_bases() {
    let first = submission("replay-a", digest("queue:0"), digest("queue:1"));
    let state = must_ok(apply_committed_transaction(RecoveredState::new(), &first));
    assert_eq!(state.applied_transactions.len(), 1);
    let stale = submission("replay-b", digest("queue:0"), digest("queue:2"));
    assert_eq!(
        apply_committed_transaction(state, &stale).err(),
        Some(WalReplayError::FrontierMismatch {
            kind: AffectedFrontierKind::SubmissionQueue,
            expected: digest("queue:1"),
            actual: digest("queue:0"),
        })
    );
}

#[test]
fn shadow_replay_matches_live_state_built_by_the_same_transactions() {
    let first = submission("shadow-a", digest("queue:0"), digest("queue:1"));
    let second = submission("shadow-b", digest("queue:1"), digest("queue:2"));
    let live = must_ok(apply_committed_transaction(RecoveredState::new(), &first));
    let live = must_ok(apply_committed_transaction(live, &second));
    let transactions = vec![first, second];
    let report = must_ok(shadow_replay_report(&live, &transactions));
    assert!(report.matches);
    assert!(report.first_mismatch.is_none());
    let partial = must_ok(shadow_replay_report(&RecoveredState::new(), &transactions));
    assert!(!partial.matches);
    assert!(partial.first_mismatch.is_some());
}

#[test]
fn schema_lint_refuses_app_nouns_authority_leaks_and_commit_claims() {
    assert_eq!(lint_wal_schema_terms(&["SubmissionAcceptedRecorded"], &["Jedit"]), Ok(()));
    assert_eq!(
        lint_wal_schema_terms(&["JeditBufferRecorded"], &["Jedit"]),
        Err(WalSchemaLintError::ForbiddenAppNoun {
            term: "JeditBufferRecorded".to_owned(),
            forbidden: "Jedit".to_owned(),
        })
    );
    assert_eq!(
        lint_wal_schema_terms(&["AppTickRecorded"], &[]),
        Err(WalSchemaLintError::ForbiddenAuthorityLeak {
            term: "AppTickRecorded".to_owned(),
            forbidden: "AppTick".to_owned(),
        })
    );
}

#[test]
fn release_readiness_requires_every_gate() {
    let all = WalReleaseReadinessGates {
        filesystem_adapter: true,
        object_store_capability_gate: true,
        segment_repair: true,
        segment_layout_policy: true,
        segment_manifest_validation: true,
        crash_matrix: true,
        crashpoint_manifest: true,
        shadow_replay: true,
        outbox: true,
        commit_evidence: true,
        wal_doctor: true,
        semantic_validator: true,
        topology_recovery: true,
        filesystem_sync_evidence: true,
        object_store_manifest_negatives: true,
        security_redaction: true,
        app_noun_guard: true,
        external_consumer_gate: true,
    };
    let report = audit_wal_release_readiness(all);
    assert!(report.ready);
    assert!(report.blocked_gates.is_empty());
    assert_eq!(report.passed_gates.len(), 18);
    let blocked = audit_wal_release_readiness(WalReleaseReadinessGates { shadow_replay: false, ..all });
    assert!(!blocked.ready);
    assert_eq!(blocked.blocked_gates, vec!["shadow_replay"]);
}

#[test]
fn strict_object_store_capabilities_are_required() {
    let strict = ObjectStoreWalCapabilities {
        content_addressed_object_write: true,
        verify_object_version: true,
        conditional_manifest_commit: true,
        read_after_write: ObjectStoreReadAfterWritePosture::Verified,
    };
    assert_eq!(validate_strict_object_store_capabilities(strict), Ok(()));
    assert_eq!(
        validate_strict_object_store_capabilities(ObjectStoreWalCapabilities {
            read_after_write: ObjectStoreReadAfterWritePosture::Unverified,
            ..strict
        }),
        Err(ObjectStoreCapabilityError::MissingReadAfterWrite)
    );
    assert_eq!(
        validate_strict_object_store_capabilities(ObjectStoreWalCapabilities {
            content_addressed_object_write: false,
            ..strict
        }),
        Err(ObjectStoreCapabilityError::MissingContentAddressedObjectWrite)
    );
}
