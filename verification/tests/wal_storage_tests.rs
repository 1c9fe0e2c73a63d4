use std::fmt::Debug;

use warp_core::causal_wal::recovery_projection::obstructed_projection;
use warp_core::causal_wal::topology::StrandDropRecord;
use warp_core::causal_wal::topology_root::{build_topology_intent_transaction, recover_topology_index};
use warp_core::causal_wal::transactions::build_submission_acceptance_transaction;
use warp_core::causal_wal::{
    canonical_segment_relative_path, decode_commit, decode_frame, decode_manifest, encode_commit,
    encode_commit_record, encode_frame, encode_frame_record, encode_manifest, encode_segment_record,
    parse_segment_file_name, read_segment_bytes, rebuild_durability_indexes_after_recovery,
    recover_from_frames_and_commits, recover_wal_segment_bytes, segment_digest, segment_file_name,
    segment_manifest_entry, validate_manifest_against_segments, validate_segment_run, AffectedFrontier,
    AffectedFrontierKind, DigestMap, InMemoryWalStore, Lsn, PayloadCodecId, PayloadSchemaId, RecoveryAccessMode,
    RecoveryTailPosture, SubmissionAcceptanceRecord, TopologyIntentRecord, WalAppendAuthority,
    WalCommittedTransaction, WalDecodeError, WalDurabilityMode, WalManifest, WalRecordKind, WalRecoveryError,
    WalSegmentId, WalStoreError, WalStorePort, WalTransactionBuilder, WalTransactionId, WalTransactionKind,
    WriterEpochId,
};
use warp_core::ident::{StrandId, WorldlineId, WorldlineTick};

type Hash = [u8; 32];

fn digest(label: &str) -> Hash {
    *blake3::hash(label.as_bytes()).as_bytes()
}

fn must_ok<T, E: Debug>(result: Result<T, E>) -> T {
    match result {
        Ok(value) => value,
        Err(error) => panic!("expected Ok(..), got Err({error:?})"),
    }
}

fn builder(label: &str, kind: WalTransactionKind, authority: WalAppendAuthority, first_lsn: u64) -> WalTransactionBuilder {
    WalTransactionBuilder::new(
        WriterEpochId::from_hash(digest("storage-writer-epoch")),
        WalSegmentId::from_raw(1),
        WalTransactionId::from_hash(digest(&format!("storage-transaction:{label}"))),
        kind,
        authority,
        Lsn::from_raw(first_lsn),
        digest("previous-frame"),
        digest("previous-commit"),
        WalDurabilityMode::StrictFilesystem,
        PayloadCodecId::from_hash(digest("storage-codec")),
        PayloadSchemaId::from_hash(digest("storage-schema")),
        1,
        1,
        digest("storage-domain"),
    )
}

fn submission_transaction(label: &str, first_lsn: u64) -> WalCommittedTransaction {
    must_ok(build_submission_acceptance_transaction(
        builder(label, WalTransactionKind::SubmissionIntake, WalAppendAuthority::SubmissionIntake, first_lsn),
        SubmissionAcceptanceRecord {
            submission_id: digest(&format!("submission:{label}")),
            canonical_envelope_digest: digest(&format!("envelope:{label}")),
            idempotency_key_digest: None,
            acceptance_evidence_digest: digest(&format!("evidence:{label}")),
        },
        vec![AffectedFrontier {
            kind: AffectedFrontierKind::SubmissionQueue,
            before_digest: digest("queue:before"),
            after_digest: digest("queue:after"),
        }],
    ))
}

fn segment_of(transaction: &WalCommittedTransaction) -> Vec<u8> {
    let mut bytes = Vec::new();
    for frame in &transaction.frames {
        bytes.extend_from_slice(&encode_frame_record(frame));
    }
    bytes.extend_from_slice(&encode_commit_record(&transaction.commit));
    bytes
}

#[test]
fn frame_codec_round_trips_and_rejects_damage() {
    let t = submission_transaction("codec", 10);
    let frame = &t.frames[0];
    let bytes = encode_frame(frame);
    assert_eq!(must_ok(decode_frame(&bytes)), *frame);
    assert_eq!(decode_frame(&bytes[..bytes.len() - 1]), Err(WalDecodeError::UnexpectedEof));
    assert_eq!(decode_frame(&bytes[..40]), Err(WalDecodeError::UnexpectedEof));
    let mut longer = bytes.clone();
    longer.push(0);
    assert_eq!(decode_frame(&longer), Err(WalDecodeError::TrailingBytes));
    let mut bad_kind = bytes.clone();
    bad_kind[86] = 0xEE;
    assert_eq!(
        decode_frame(&bad_kind),
        Err(WalDecodeError::UnknownEnumCode { enum_name: "WalRecordKind", code: 0xEE })
    );
    let mut tampered = bytes.clone();
    let last_payload_byte = bytes.len() - 5;
    tampered[last_payload_byte] ^= 0x01;
    assert_eq!(decode_frame(&tampered), Err(WalDecodeError::InvalidEmbeddedFrame));
}

#[test]
fn commit_codec_round_trips_and_rejects_damage() {
    let t = submission_transaction("commit-codec", 10);
    let bytes = encode_commit(&t.commit);
    assert_eq!(bytes.len(), 220);
    assert_eq!(decode_commit(&bytes), Ok(t.commit));
    assert_eq!(decode_commit(&bytes[..219]), Err(WalDecodeError::UnexpectedEof));
    let mut longer = bytes.clone();
    longer.push(9);
    assert_eq!(decode_commit(&longer), Err(WalDecodeError::TrailingBytes));
    let mut bad_mode = bytes.clone();
    bad_mode[185] = 0x77;
    assert_eq!(
        decode_commit(&bad_mode),
        Err(WalDecodeError::UnknownEnumCode { enum_name: "WalDurabilityMode", code: 0x77 })
    );
}

#[test]
fn segment_records_read_back_as_written() {
    let t = submission_transaction("segment", 10);
    let bytes = segment_of(&t);
    let (frames, commits, torn) = must_ok(read_segment_bytes(&bytes));
    assert_eq!(frames, t.frames);
    assert_eq!(commits, vec![t.commit]);
    assert!(!torn);
    let (empty_frames, empty_commits, empty_torn) = must_ok(read_segment_bytes(&[]));
    assert!(empty_frames.is_empty() && empty_commits.is_empty() && !empty_torn);
}

#[test]
fn torn_segment_tail_stops_reading() {
    let t = submission_transaction("torn", 10);
    let mut bytes = segment_of(&t);
    let next = encode_frame_record(&t.frames[0]);
    bytes.extend_from_slice(&next[..30]);
    let (frames, commits, torn) = must_ok(read_segment_bytes(&bytes));
    assert_eq!(frames.len(), t.frames.len());
    assert_eq!(commits.len(), 1);
    assert!(torn);
    let mut short = segment_of(&t);
    short.extend_from_slice(&next[..5]);
    assert!(must_ok(read_segment_bytes(&short)).2);
}

#[test]
fn damaged_segment_records_are_refused() {
    let t = submission_transaction("damaged", 10);
    let mut bad_magic = segment_of(&t);
    bad_magic[0] ^= 0xFF;
    assert_eq!(read_segment_bytes(&bad_magic), Err(WalStoreError::SegmentRecordDigestMismatch));
    let mut bad_digest = encode_commit_record(&t.commit);
    let last = bad_digest.len() - 1;
    bad_digest[last] ^= 0x01;
    assert_eq!(read_segment_bytes(&bad_digest), Err(WalStoreError::SegmentRecordDigestMismatch));
    let unknown = encode_segment_record(7, &[1, 2, 3]);
    assert_eq!(read_segment_bytes(&unknown), Err(WalStoreError::UnknownDiskRecordKind(7)));
    let garbage_commit = encode_segment_record(2, &[1, 2, 3]);
    assert_eq!(
        read_segment_bytes(&garbage_commit),
        Err(WalStoreError::Decode(WalDecodeError::UnexpectedEof))
    );
}

#[test]
fn segment_bytes_recover_committed_transactions() {
    let t = submission_transaction("recover", 10);
    let bytes = segment_of(&t);
    let segment = WalSegmentId::from_raw(1);
    let recovered = must_ok(recover_wal_segment_bytes(segment, &bytes, RecoveryAccessMode::ReadOnly));
    assert_eq!(recovered.segment_id, segment);
    assert_eq!(recovered.segment_digest, segment_digest(segment, &t.frames));
    assert_eq!(recovered.report.transactions.len(), 1);
    assert_eq!(recovered.report.transactions[0].commit, t.commit);
    assert_eq!(recovered.report.tail_posture, RecoveryTailPosture::Clean);
}

#[test]
fn torn_segment_bytes_report_a_truncatable_tail() {
    let t = submission_transaction("recover-torn", 10);
    let mut bytes = segment_of(&t);
    bytes.extend_from_slice(&encode_frame_record(&t.frames[0])[..20]);
    let segment = WalSegmentId::from_raw(1);
    let last = t.commit.last_lsn;
    let read_only = must_ok(recover_wal_segment_bytes(segment, &bytes, RecoveryAccessMode::ReadOnly));
    assert_eq!(read_only.report.tail_posture, RecoveryTailPosture::WouldTruncateAfter(last));
    let writable = must_ok(recover_wal_segment_bytes(segment, &bytes, RecoveryAccessMode::Writable));
    assert_eq!(writable.report.tail_posture, RecoveryTailPosture::TruncatedAfter(last));
    let only_torn = &encode_frame_record(&t.frames[0])[..20];
    let nothing = must_ok(recover_wal_segment_bytes(segment, only_torn, RecoveryAccessMode::Writable));
    assert_eq!(nothing.report.tail_posture, RecoveryTailPosture::TruncatedAll);
}

#[test]
fn segment_bytes_of_another_segment_are_refused() {
    let t = submission_transaction("foreign", 10);
    let bytes = segment_of(&t);
    let result = recover_wal_segment_bytes(WalSegmentId::from_raw(2), &bytes, RecoveryAccessMode::ReadOnly);
    assert_eq!(
        result,
        Err(WalRecoveryError::Store(WalStoreError::SegmentMismatch {
            expected: WalSegmentId::from_raw(2),
            actual: WalSegmentId::from_raw(1),
        }))
    );
}

#[test]
fn manifest_round_trips_and_validates_against_segments() {
    let t = submission_transaction("manifest", 10);
    let manifest = WalManifest {
        manifest_digest: digest("manifest"),
        last_committed_lsn: Some(t.commit.last_lsn),
        last_commit_digest: Some(t.commit.commit_digest),
        sealed_segment_count: 1,
    };
    let bytes = encode_manifest(&manifest);
    assert_eq!(decode_manifest(&bytes), Ok(manifest));
    assert!(decode_manifest(&bytes[..bytes.len() - 1]).is_err());
    let empty = WalManifest {
        manifest_digest: digest("empty"),
        last_committed_lsn: None,
        last_commit_digest: None,
        sealed_segment_count: 0,
    };
    assert_eq!(decode_manifest(&encode_manifest(&empty)), Ok(empty));

    let commits = vec![t.commit];
    let report = must_ok(validate_manifest_against_segments(&manifest, 1, &t.frames, &commits, false));
    assert_eq!(report.segment_count, 1);
    assert_eq!(report.last_committed_lsn, Some(t.commit.last_lsn));
    assert_eq!(report.last_commit_digest, Some(t.commit.commit_digest));
    assert_eq!(
        validate_manifest_against_segments(&manifest, 1, &t.frames, &commits, true),
        Err(WalStoreError::ManifestCannotValidateUncommittedTail)
    );
    assert_eq!(
        validate_manifest_against_segments(&manifest, 1, &t.frames, &[], false),
        Err(WalStoreError::ManifestCannotValidateUncommittedTail)
    );
    assert_eq!(
        validate_manifest_against_segments(&manifest, 2, &t.frames, &commits, false),
        Err(WalStoreError::ManifestSegmentCountMismatch { expected: 2, actual: 1 })
    );
    let stale = WalManifest { last_committed_lsn: Some(Lsn::from_raw(3)), ..manifest };
    assert_eq!(
        validate_manifest_against_segments(&stale, 1, &t.frames, &commits, false),
        Err(WalStoreError::ManifestLastCommittedLsnMismatch {
            expected: Some(t.commit.last_lsn),
            actual: Some(Lsn::from_raw(3)),
        })
    );
    let wrong_digest = WalManifest { last_commit_digest: Some(digest("other")), ..manifest };
    assert_eq!(
        validate_manifest_against_segments(&wrong_digest, 1, &t.frames, &commits, false),
        Err(WalStoreError::ManifestLastCommitDigestMismatch {
            expected: Some(t.commit.commit_digest),
            actual: Some(digest("other")),
        })
    );
}

#[test]
fn segment_file_names_are_canonical_and_parse_back() {
    let one = WalSegmentId::from_raw(1);
    assert_eq!(segment_file_name(one), "segment-00000000000000000001.ecwal");
    assert_eq!(canonical_segment_relative_path(one), "segments/segment-00000000000000000001.ecwal");
    let max = WalSegmentId::from_raw(u64::MAX);
    assert_eq!(segment_file_name(max), "segment-18446744073709551615.ecwal");
    for raw in [0u64, 1, 42, 1_000_000, u64::MAX] {
        let id = WalSegmentId::from_raw(raw);
        assert_eq!(parse_segment_file_name(&segment_file_name(id)), Ok(id));
    }
    assert_eq!(parse_segment_file_name("segment-12abc"), Ok(WalSegmentId::from_raw(12)));
    assert_eq!(
        parse_segment_file_name("segment-.ecwal"),
        Err(WalStoreError::InvalidSegmentFileName("segment-.ecwal".to_owned()))
    );
    assert_eq!(
        parse_segment_file_name("seg-1.ecwal"),
        Err(WalStoreError::InvalidSegmentFileName("seg-1.ecwal".to_owned()))
    );
    assert_eq!(
        parse_segment_file_name("segment-18446744073709551616.ecwal"),
        Err(WalStoreError::InvalidSegmentFileName("segment-18446744073709551616.ecwal".to_owned()))
    );
}

#[test]
fn segment_runs_must_start_at_one_and_step_by_one() {
    let ids = |raw: &[u64]| raw.iter().map(|r| WalSegmentId::from_raw(*r)).collect::<Vec<_>>();
    assert_eq!(validate_segment_run(&ids(&[])), Ok(()));
    assert_eq!(validate_segment_run(&ids(&[1, 2, 3])), Ok(()));
    assert_eq!(
        validate_segment_run(&ids(&[2, 3])),
        Err(WalStoreError::SegmentGap { expected: WalSegmentId::from_raw(1), actual: WalSegmentId::from_raw(2) })
    );
    assert_eq!(
        validate_segment_run(&ids(&[1, 1, 2])),
        Err(WalStoreError::DuplicateSegment(WalSegmentId::from_raw(1)))
    );
    assert_eq!(
        validate_segment_run(&ids(&[1, 3])),
        Err(WalStoreError::SegmentGap { expected: WalSegmentId::from_raw(2), actual: WalSegmentId::from_raw(3) })
    );
}

#[test]
fn segment_manifest_entry_spans_the_frames() {
    let t = submission_transaction("entry", 10);
    let segment = WalSegmentId::from_raw(3);
    let entry = segment_manifest_entry(segment, &t.frames);
    assert_eq!(entry.segment_id, segment);
    assert_eq!(entry.relative_path, "segments/segment-00000000000000000003.ecwal");
    assert_eq!(entry.segment_digest, segment_digest(segment, &t.frames));
    assert_eq!(entry.first_lsn, Some(Lsn::from_raw(10)));
    assert_eq!(entry.last_lsn, Some(Lsn::from_raw(11)));
    let empty = segment_manifest_entry(segment, &[]);
    assert_eq!(empty.first_lsn, None);
    assert_eq!(empty.last_lsn, None);
}

#[test]
fn durability_indexes_rebuild_from_committed_scan() {
    let t = submission_transaction("durable", 10);
    let report = must_ok(recover_from_frames_and_commits(
        &t.frames,
        std::slice::from_ref(&t.commit),
        RecoveryAccessMode::ReadOnly,
    ));
    let artifacts = DigestMap::new();
    let projection = obstructed_projection(Vec::new());
    let indexes = must_ok(rebuild_durability_indexes_after_recovery(&report, &artifacts, &projection));
    assert_eq!(indexes.submissions.len(), 1);
    assert!(indexes.submissions.get(&digest("submission:durable")).is_some());
    assert!(indexes.topology.is_empty());
    assert_eq!(indexes.topology.len(), 0);
    assert_eq!(indexes.materialization_outbox.len(), 0);
    assert_eq!(indexes.projection.obstruction_count, 0);
    let again = must_ok(rebuild_durability_indexes_after_recovery(&report, &artifacts, &projection));
    assert_eq!(indexes.submission_receipt_index_root, again.submission_receipt_index_root);
    assert_eq!(indexes.topology_index_root, again.topology_index_root);
}

#[test]
fn topology_index_counts_recovered_evidence() {
    let drop = StrandDropRecord {
        topology_intent_id: digest("drop-intent"),
        strand_id: StrandId(digest("strand")),
        child_worldline_id: WorldlineId(digest("child")),
        final_tick: WorldlineTick(7),
        drop_receipt_digest: digest("drop-receipt"),
        issuer_evidence_digest: digest("issuer"),
        idempotency_key_digest: None,
    };
    let t = must_ok(build_topology_intent_transaction(
        builder("topology", WalTransactionKind::TopologyIntent, WalAppendAuthority::TrustedScheduler, 20),
        &[TopologyIntentRecord::StrandDrop(drop)],
        vec![AffectedFrontier {
            kind: AffectedFrontierKind::TopologyIndex,
            before_digest: digest("topology:before"),
            after_digest: digest("topology:after"),
        }],
    ));
    let report = must_ok(recover_from_frames_and_commits(
        &t.frames,
        std::slice::from_ref(&t.commit),
        RecoveryAccessMode::ReadOnly,
    ));
    let index = must_ok(recover_topology_index(&report));
    assert_eq!(index.len(), 1);
    assert!(!index.is_empty());
}

#[test]
fn record_kind_labels_obey_recorded_not_committed_grammar() {
    for kind in [
        WalRecordKind::SubmissionAcceptedRecorded,
        WalRecordKind::TickReceiptRecorded,
        WalRecordKind::CheckpointPublicationRecorded,
        WalRecordKind::TopologySuffixImportRecorded,
        WalRecordKind::CausalAnchorAdmissionReceiptRecorded,
    ] {
        assert!(kind.obeys_recorded_not_committed_grammar());
    }
}

fn frames_through_port<S: WalStorePort>(store: &S) -> usize {
    store.read_frames().len() + store.read_commits().len()
}

#[test]
fn in_memory_store_serves_the_storage_port() {
    let store = InMemoryWalStore::new();
    assert_eq!(frames_through_port(&store), 0);
}
