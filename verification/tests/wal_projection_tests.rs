use warp_core::causal_wal::recovery::{RecoveryScanReport, RecoveryTailPosture};
use warp_core::causal_wal::recovery_projection::{
    project_recovery_from_store_evidence, WalRecoveryProjectionObstruction, WalRecoveryProjectionPosture,
};
use warp_core::causal_wal::store::WalStoreError;

fn empty_report(tail_posture: RecoveryTailPosture) -> RecoveryScanReport {
    RecoveryScanReport { transactions: Vec::new(), tail_posture }
}

#[test]
fn store_segment_count_mismatch_swaps_expected_and_actual() {
    let report = empty_report(RecoveryTailPosture::Clean);
    let projection = project_recovery_from_store_evidence(
        &report,
        Err(WalStoreError::ManifestSegmentCountMismatch { expected: 2, actual: 3 }),
        Ok(Vec::new()),
        &[],
        None,
    );
    assert_eq!(projection.posture, WalRecoveryProjectionPosture::Obstructed);
    assert_eq!(projection.root, None);
    assert_eq!(
        projection.obstructions,
        vec![WalRecoveryProjectionObstruction::ManifestSegmentCountMismatch { expected: 3, actual: 2 }]
    );
}

#[test]
fn store_uncommitted_tail_reports_the_scan_tail_posture() {
    let report = empty_report(RecoveryTailPosture::WouldTruncateAll);
    let projection = project_recovery_from_store_evidence(
        &report,
        Err(WalStoreError::ManifestCannotValidateUncommittedTail),
        Ok(Vec::new()),
        &[],
        None,
    );
    assert_eq!(
        projection.obstructions,
        vec![WalRecoveryProjectionObstruction::TailPostureObstructed {
            posture: RecoveryTailPosture::WouldTruncateAll
        }]
    );
}

#[test]
fn store_missing_manifest_with_no_evidence_is_absent() {
    let report = empty_report(RecoveryTailPosture::Clean);
    let projection =
        project_recovery_from_store_evidence(&report, Err(WalStoreError::MissingManifest), Ok(Vec::new()), &[], None);
    assert_eq!(projection.posture, WalRecoveryProjectionPosture::Absent);
    assert!(projection.obstructions.is_empty());
}

#[test]
fn store_io_failures_make_evidence_unavailable() {
    let report = empty_report(RecoveryTailPosture::Clean);
    let projection = project_recovery_from_store_evidence(
        &report,
        Err(WalStoreError::Io("disk gone".to_string())),
        Ok(Vec::new()),
        &[],
        None,
    );
    assert_eq!(projection.obstructions, vec![WalRecoveryProjectionObstruction::ManifestValidationUnavailable]);
}

use warp_core::causal_wal::frame::{WalFrame, WalFrameHeader, WalRecordPayload};
use warp_core::causal_wal::{
    Lsn, PayloadCodecId, PayloadSchemaId, TransactionLocalIndex, WalCompressionKind, WalRecordKind,
    WalRedactionPosture, WalSegmentId, WalTransactionId, WalValidationError, WriterEpochId,
};

fn header_for(payload: &WalRecordPayload, record_kind: WalRecordKind) -> WalFrameHeader {
    WalFrameHeader {
        wal_version: 1,
        writer_epoch: WriterEpochId([1; 32]),
        segment_id: WalSegmentId(0),
        lsn: Lsn(1),
        transaction_id: WalTransactionId([2; 32]),
        transaction_local_index: TransactionLocalIndex(0),
        record_kind,
        payload_len: payload.canonical_bytes.len() as u64,
        payload_digest: payload.digest(),
        payload_codec_id: PayloadCodecId([3; 32]),
        payload_schema_id: PayloadSchemaId([4; 32]),
        payload_schema_version: 1,
        canonical_encoding_version: 1,
        digest_domain: [5; 32],
        compression_kind: WalCompressionKind::Uncompressed,
        encryption_or_redaction_posture: WalRedactionPosture::Present,
        previous_frame_digest: [0; 32],
        header_checksum: 0,
    }
}

#[test]
fn sealed_frame_passes_and_a_changed_trailer_is_caught() {
    let payload = WalRecordPayload::new(WalRecordKind::SubmissionAcceptedRecorded, 1, vec![1, 2, 3]);
    let header = header_for(&payload, WalRecordKind::SubmissionAcceptedRecorded);
    let frame = WalFrame::new(header, payload.clone());
    assert_eq!(frame.validate_integrity(), Ok(()));
    let mut tampered = frame.clone();
    tampered.trailer.frame_checksum ^= 1;
    assert_eq!(tampered.validate_integrity(), Err(WalValidationError::FrameChecksumMismatch));
    let mismatched = WalFrame::new(header_for(&payload, WalRecordKind::SubmissionAcceptanceEvidenceRecorded), payload);
    assert_eq!(mismatched.validate_integrity(), Err(WalValidationError::RecordKindMismatch));
}

use warp_core::causal_wal::{
    EvidenceMaterialPosture, ReadingRefRecord, RecoveredRetentionIndex, RecoveredRetentionIndexError,
    RetainedMaterialKind, RetainedMaterialRecord,
};

fn material(d: u8, c: u8, kind: RetainedMaterialKind) -> RetainedMaterialRecord {
    RetainedMaterialRecord {
        material_digest: [d; 32],
        semantic_coordinate_digest: [c; 32],
        kind,
        posture: EvidenceMaterialPosture::Present,
    }
}

fn reading(id: u8, c: u8) -> ReadingRefRecord {
    ReadingRefRecord {
        reading_id: [id; 32],
        semantic_coordinate_digest: [c; 32],
        payload_digest: [7; 32],
        envelope_digest: [8; 32],
        posture: EvidenceMaterialPosture::Present,
    }
}

#[test]
fn retention_records_given_twice_recover_the_same_index() {
    let ms = vec![
        material(1, 9, RetainedMaterialKind::SubmissionPayload),
        material(2, 9, RetainedMaterialKind::TickReceipt),
    ];
    let rs = vec![reading(3, 9), reading(4, 5)];
    let once = RecoveredRetentionIndex::from_retention_records(ms.clone(), rs.clone());
    let mut ms2 = ms.clone();
    ms2.extend(ms.iter().copied());
    let mut rs2 = rs.clone();
    rs2.extend(rs.iter().copied());
    let twice = RecoveredRetentionIndex::from_retention_records(ms2, rs2);
    assert!(once.is_ok());
    assert_eq!(once, twice);
}

#[test]
fn conflicting_material_digest_is_refused() {
    let ms = vec![
        material(1, 9, RetainedMaterialKind::SubmissionPayload),
        material(1, 9, RetainedMaterialKind::TickReceipt),
    ];
    assert_eq!(
        RecoveredRetentionIndex::from_retention_records(ms, Vec::new()),
        Err(RecoveredRetentionIndexError::ConflictingMaterialDigest { material_digest: [1; 32] })
    );
}

use warp_core::causal_wal::topology::StrandDropRecord;
use warp_core::causal_wal::topology_index::{RecoveredTopologyIndex, TopologyIntentRecord};
use warp_core::ident::{StrandId, WorldlineId, WorldlineTick};

fn strand_drop(strand: u8, child: u8) -> StrandDropRecord {
    StrandDropRecord {
        topology_intent_id: [strand; 32],
        strand_id: StrandId([strand; 32]),
        child_worldline_id: WorldlineId([child; 32]),
        final_tick: WorldlineTick(7),
        drop_receipt_digest: [9; 32],
        issuer_evidence_digest: [10; 32],
        idempotency_key_digest: None,
    }
}

#[test]
fn topology_records_given_twice_recover_the_same_index() {
    let rs = vec![
        TopologyIntentRecord::StrandDrop(strand_drop(1, 2)),
        TopologyIntentRecord::StrandDrop(strand_drop(3, 4)),
    ];
    let once = RecoveredTopologyIndex::from_topology_records(rs.clone()).unwrap();
    let mut twice_records = rs.clone();
    twice_records.extend(rs.iter().cloned());
    let twice = RecoveredTopologyIndex::from_topology_records(twice_records).unwrap();
    assert_eq!(once.len(), 2);
    assert_eq!(once.len(), twice.len());
    assert_eq!(once.strand_drops.entries(), twice.strand_drops.entries());
}

use warp_core::causal_wal::{
    recovered_submission_receipt_index_root, RecoveredReceiptIndex, RecoveredSubmissionIndex,
    SubmissionAcceptanceRecord,
};

fn acceptance(id: u8, envelope: u8) -> SubmissionAcceptanceRecord {
    SubmissionAcceptanceRecord {
        submission_id: [id; 32],
        canonical_envelope_digest: [envelope; 32],
        idempotency_key_digest: None,
        acceptance_evidence_digest: [id ^ 0x55; 32],
    }
}

#[test]
fn receipt_index_root_ignores_record_arrival_order() {
    let a = vec![acceptance(1, 9), acceptance(2, 9), acceptance(3, 4), acceptance(2, 9)];
    let b = vec![acceptance(3, 4), acceptance(2, 9), acceptance(1, 9), acceptance(2, 9)];
    let s1 = RecoveredSubmissionIndex::from_acceptance_records(a).unwrap();
    let s2 = RecoveredSubmissionIndex::from_acceptance_records(b).unwrap();
    let receipts = RecoveredReceiptIndex::from_receipt_correlation_records(Vec::new(), Vec::new());
    assert_eq!(
        recovered_submission_receipt_index_root(&s1, &receipts),
        recovered_submission_receipt_index_root(&s2, &receipts)
    );
}

use warp_core::causal_wal::projection::{WalRoot, WalWriterEpoch};
use warp_core::causal_wal::projection_graph::materialize_wal_projection_graph;

fn projected_epoch(n: u8) -> WalWriterEpoch {
    WalWriterEpoch {
        epoch_id: WriterEpochId([n; 32]),
        storage_fencing_token: [n.wrapping_add(1); 32],
        process_identity: [n.wrapping_add(2); 32],
        host_identity: [n.wrapping_add(3); 32],
        started_at_lsn: Lsn(u64::from(n)),
        previous_epoch_id: None,
        previous_epoch_final_commit_digest: None,
        lease_or_lock_evidence: [n.wrapping_add(4); 32],
    }
}

#[test]
fn projection_graph_ignores_writer_epoch_order() {
    let a = WalRoot {
        root_digest: [0x11; 32],
        writer_epochs: vec![projected_epoch(1), projected_epoch(2), projected_epoch(3)],
        segments: Vec::new(),
        recovery_certificate: None,
    };
    let b = WalRoot {
        root_digest: [0x11; 32],
        writer_epochs: vec![projected_epoch(3), projected_epoch(1), projected_epoch(2)],
        segments: Vec::new(),
        recovery_certificate: None,
    };
    let ga = materialize_wal_projection_graph(&a);
    let gb = materialize_wal_projection_graph(&b);
    assert_eq!(ga.nodes.len(), 4);
    assert_eq!(ga, gb);
}

use warp_core::causal_wal::{recover_from_frames_and_commits, RecoveryAccessMode, WalRecoveryError};

fn frame_at(lsn: u64) -> WalFrame {
    let payload = WalRecordPayload::new(WalRecordKind::SubmissionAcceptedRecorded, 1, vec![lsn as u8]);
    let mut header = header_for(&payload, WalRecordKind::SubmissionAcceptedRecorded);
    header.lsn = Lsn(lsn);
    WalFrame::new(header, payload)
}

#[test]
fn frame_order_is_checked_frame_by_frame_in_lsn_order() {
    let mut corrupt = frame_at(4);
    corrupt.trailer.frame_checksum ^= 1;
    // Given out of order: LSN order is 1, 3, 4; the gap before 3 is met before the fault at 4.
    let frames = vec![corrupt.clone(), frame_at(3), frame_at(1)];
    assert_eq!(
        recover_from_frames_and_commits(&frames, &[], RecoveryAccessMode::ReadOnly).unwrap_err(),
        WalRecoveryError::Validation(WalValidationError::LsnContinuityMismatch)
    );
    // Without the gap the fault at 4 is reported.
    let frames = vec![corrupt, frame_at(2), frame_at(3), frame_at(1)];
    assert_eq!(
        recover_from_frames_and_commits(&frames, &[], RecoveryAccessMode::ReadOnly).unwrap_err(),
        WalRecoveryError::Validation(WalValidationError::FrameChecksumMismatch)
    );
}

use warp_core::causal_wal::validate_segment_run;

#[test]
fn segment_run_is_checked_in_ascending_order_whatever_the_scan_order() {
    let ids = |xs: &[u64]| xs.iter().map(|x| WalSegmentId(*x)).collect::<Vec<_>>();
    assert_eq!(validate_segment_run(&ids(&[3, 1, 2])), Ok(()));
    assert_eq!(validate_segment_run(&ids(&[2, 1, 1])), Err(WalStoreError::DuplicateSegment(WalSegmentId(1))));
    assert_eq!(
        validate_segment_run(&ids(&[4, 1, 2])),
        Err(WalStoreError::SegmentGap { expected: WalSegmentId(3), actual: WalSegmentId(4) })
    );
}

use warp_core::causal_wal::topology_fork::StrandForkRecord;
use warp_core::causal_wal::WalRecoveryIndexError;

fn fork(strand: u8, tick: u64) -> StrandForkRecord {
    StrandForkRecord {
        topology_intent_id: [strand; 32],
        strand_id: StrandId([strand; 32]),
        source_worldline_id: WorldlineId([0x21; 32]),
        fork_tick: WorldlineTick(tick),
        source_commit_hash: [0x22; 32],
        source_boundary_hash: [0x23; 32],
        child_worldline_id: WorldlineId([0x24; 32]),
        writer_heads: Vec::new(),
        retention_posture_digest: [0x25; 32],
        issuer_evidence_digest: [0x26; 32],
        idempotency_key_digest: None,
    }
}

#[test]
fn conflicting_forks_of_one_strand_are_refused() {
    let rs = vec![TopologyIntentRecord::StrandFork(fork(1, 5)), TopologyIntentRecord::StrandFork(fork(1, 6))];
    assert!(matches!(
        RecoveredTopologyIndex::from_topology_records(rs),
        Err(WalRecoveryIndexError::ConflictingStrandFork { strand_id }) if strand_id == StrandId([1; 32])
    ));
}
