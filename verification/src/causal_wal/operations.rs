//! Operator-facing checks over the WAL: strict object-store capabilities,
//! causal commit evidence, checkpoint validation, recovery certificates,
//! the read-only doctor and the release-readiness audit.
use vstd::prelude::*;
use crate::crypto::{blake3_digest, blake3_hash};
use crate::encoding::{push_hash, push_slice};
use crate::causal_wal::frame::{frames_view, WalFrame, WalTransactionCommit};
use crate::causal_wal::index_recovery::{material_obstructions, recover_retention_index, report_frames, retention_recovery};
use crate::causal_wal::kinds::WalDurabilityMode;
use crate::causal_wal::records::{
    checkpoint_digest_input, CheckpointPublicationRecord, CheckpointRecord, CheckpointValidationPosture,
    MissingMaterialScope, RecoveryCertificate, RetainedMaterialObstruction,
};
use crate::causal_wal::recovery::{
    max_last_lsn, min_first_lsn, recover_from_frames_and_commits, recovery_outcome, RecoveryAccessMode,
    RecoveryScanReport, RecoveryTailPosture, WalRecoveredTransaction,
};
use crate::causal_wal::recovery_projection::last_commit_digest_spec;
use crate::causal_wal::projection::hash_of;
use crate::causal_wal::store::InMemoryWalStore;
use crate::causal_wal::index_recovery::retained_material_obstructions;
use crate::causal_wal::{len_u64, Lsn, WalRecoveryError, WalTransactionId, WriterEpochId};
use crate::ident::{hash_eq, zero_hash, zero_hash_value};
use vstd::string::*;
use crate::keyset::KeySet;

verus! {

/// Object-store read-after-write posture required by strict object storage.
#[derive(Clone, Copy, Debug, PartialEq, Eq, Structural)]
pub enum ObjectStoreReadAfterWritePosture {
    /// The adapter proves read-after-write behavior for committed manifests.
    Verified,
    /// The adapter cannot prove read-after-write behavior.
    Unverified,
}

/// Capability evidence for a strict object-store WAL adapter.
#[derive(Clone, Copy, Debug, PartialEq, Eq, Structural)]
pub struct ObjectStoreWalCapabilities {
    /// Content-addressed object writes are used for segment/checkpoint bodies.
    pub content_addressed_object_write: bool,
    /// Object version or ETag evidence is verified.
    pub verify_object_version: bool,
    /// Manifest publication is conditional/compare-and-swap.
    pub conditional_manifest_commit: bool,
    /// Read-after-write posture.
    pub read_after_write: ObjectStoreReadAfterWritePosture,
}

/// Object-store capability validation error.
#[derive(Clone, Copy, Debug, PartialEq, Eq, Structural)]
pub enum ObjectStoreCapabilityError {
    /// Strict object stores must write content-addressed objects.
    MissingContentAddressedObjectWrite,
    /// Strict object stores must verify object version/ETag evidence.
    MissingObjectVersionVerification,
    /// Strict object stores must publish manifests conditionally.
    MissingConditionalManifestCommit,
    /// Strict object stores must prove read-after-write behavior.
    MissingReadAfterWrite,
    /// Strict object stores must not overwrite manifests unconditionally.
    UnconditionalManifestOverwrite,
}

/// Validates strict object-store WAL adapter capabilities; the first
/// missing capability, in declaration order, is the error.
pub fn validate_strict_object_store_capabilities(capabilities: ObjectStoreWalCapabilities) -> (r: Result<
    (),
    ObjectStoreCapabilityError,
>)
    ensures
        r == (if !capabilities.content_addressed_object_write {
            Err(ObjectStoreCapabilityError::MissingContentAddressedObjectWrite)
        } else if !capabilities.verify_object_version {
            Err(ObjectStoreCapabilityError::MissingObjectVersionVerification)
        } else if !capabilities.conditional_manifest_commit {
            Err(ObjectStoreCapabilityError::MissingConditionalManifestCommit)
        } else if capabilities.read_after_write != ObjectStoreReadAfterWritePosture::Verified {
            Err(ObjectStoreCapabilityError::MissingReadAfterWrite)
        } else {
            Ok(())
        }),
{
    if !capabilities.content_addressed_object_write {
        return Err(ObjectStoreCapabilityError::MissingContentAddressedObjectWrite);
    }
    if !capabilities.verify_object_version {
        return Err(ObjectStoreCapabilityError::MissingObjectVersionVerification);
    }
    if !capabilities.conditional_manifest_commit {
        return Err(ObjectStoreCapabilityError::MissingConditionalManifestCommit);
    }
    if capabilities.read_after_write != ObjectStoreReadAfterWritePosture::Verified {
        return Err(ObjectStoreCapabilityError::MissingReadAfterWrite);
    }
    Ok(())
}

/// Object-store manifest commit mode.
#[derive(Clone, Copy, Debug, PartialEq, Eq, Structural)]
pub enum ObjectStoreManifestCommitMode {
    /// Manifest publication uses compare-and-swap against an expected previous digest.
    ConditionalCompareAndSwap,
    /// Manifest publication overwrites without an expected previous digest.
    UnconditionalOverwrite,
}

/// Object-store manifest commit shape.
#[derive(Clone, Copy, Debug, PartialEq, Eq)]
pub struct ObjectStoreManifestCommitShape {
    /// Commit mode.
    pub mode: ObjectStoreManifestCommitMode,
    /// Expected previous manifest digest for compare-and-swap.
    pub expected_previous_manifest_digest: Option<crate::ident::Hash>,
    /// New manifest digest.
    pub new_manifest_digest: crate::ident::Hash,
}

/// Validates the strict object-store manifest commit shape: it must be a
/// compare-and-swap against an expected previous digest.
pub fn validate_strict_object_store_manifest_commit(shape: ObjectStoreManifestCommitShape) -> (r: Result<
    (),
    ObjectStoreCapabilityError,
>)
    ensures
        r is Ok <==> (shape.mode == ObjectStoreManifestCommitMode::ConditionalCompareAndSwap
            && shape.expected_previous_manifest_digest is Some),
        r is Err ==> r == Err::<(), ObjectStoreCapabilityError>(ObjectStoreCapabilityError::UnconditionalManifestOverwrite),
{
    if shape.mode != ObjectStoreManifestCommitMode::ConditionalCompareAndSwap
        || shape.expected_previous_manifest_digest.is_none() {
        return Err(ObjectStoreCapabilityError::UnconditionalManifestOverwrite);
    }
    Ok(())
}

/// Causal commit evidence source.
#[derive(Clone, Copy, Debug, PartialEq, Eq, Structural)]
pub enum CausalCommitEvidenceSource {
    /// Evidence comes from Echo's WAL.
    EchoWal,
    /// Evidence comes from a validated Echo checkpoint.
    EchoCheckpoint,
    /// Evidence comes from an Echo recovery certificate.
    EchoRecoveryCertificate,
}

/// Causal commit evidence posture.
#[derive(Clone, Copy, Debug, PartialEq, Eq, Structural)]
pub enum CausalCommitEvidencePosture {
    /// Commit evidence is present.
    Present,
    /// Commit evidence is unavailable.
    Absent,
    /// Commit evidence is obstructed.
    Obstructed,
}

/// Host-neutral causal commit evidence projected for debuggers and operators.
#[derive(Clone, Copy, Debug, PartialEq, Eq)]
pub struct CausalCommitEvidence {
    /// Stable evidence id.
    pub evidence_id: crate::ident::Hash,
    /// Evidence posture.
    pub posture: CausalCommitEvidencePosture,
    /// Evidence source.
    pub source: CausalCommitEvidenceSource,
    /// Durability mode.
    pub durability_mode: WalDurabilityMode,
    /// Writer epoch.
    pub writer_epoch: WriterEpochId,
    /// Last LSN for the committed transaction.
    pub lsn: Lsn,
    /// Transaction id.
    pub transaction_id: WalTransactionId,
    /// Commit digest.
    pub commit_digest: crate::ident::Hash,
    /// Checkpoint digest, if one anchors the evidence.
    pub checkpoint_digest: Option<crate::ident::Hash>,
    /// Recovery certificate digest, if one anchors the evidence.
    pub recovery_certificate_digest: Option<crate::ident::Hash>,
    /// Obstruction digest, if obstructed.
    pub obstruction_digest: Option<crate::ident::Hash>,
}

pub open spec fn commit_evidence_domain() -> Seq<u8> {
    "echo:causal_wal:commit_evidence:v1\0".spec_bytes()
}

/// Evidence id of a commit: its transaction id and commit digest.
pub open spec fn commit_evidence_id(c: WalTransactionCommit) -> crate::ident::Hash {
    hash_of(blake3_digest(commit_evidence_domain() + c.transaction_id.0@ + c.commit_digest@))
}

fn causal_commit_evidence_id(commit: &WalTransactionCommit) -> (r: crate::ident::Hash)
    ensures
        r == commit_evidence_id(*commit),
{
    let mut input: Vec<u8> = Vec::new();
    push_slice(&mut input, "echo:causal_wal:commit_evidence:v1\0".as_bytes());
    push_hash(&mut input, &commit.transaction_id.0);
    push_hash(&mut input, &commit.commit_digest);
    proof {
        reveal_strlit("echo:causal_wal:commit_evidence:v1\0");
    }
    let r = blake3_hash(input.as_slice());
    proof {
        crate::causal_wal::projection::lemma_hash_of(
            r,
            blake3_digest(commit_evidence_domain() + commit.transaction_id.0@ + commit.commit_digest@),
        );
    }
    r
}

/// Evidence of a commit with the given posture and obstruction digest.
pub open spec fn commit_evidence_spec(
    c: WalTransactionCommit,
    posture: CausalCommitEvidencePosture,
    obstruction: Option<crate::ident::Hash>,
) -> CausalCommitEvidence {
    CausalCommitEvidence {
        evidence_id: commit_evidence_id(c),
        posture,
        source: CausalCommitEvidenceSource::EchoWal,
        durability_mode: c.durability_mode,
        writer_epoch: c.writer_epoch,
        lsn: c.last_lsn,
        transaction_id: c.transaction_id,
        commit_digest: c.commit_digest,
        checkpoint_digest: None,
        recovery_certificate_digest: None,
        obstruction_digest: obstruction,
    }
}

/// Projects present causal commit evidence, one per recovered transaction, in order.
pub fn project_causal_commit_evidence(report: &RecoveryScanReport) -> (r: Vec<CausalCommitEvidence>)
    ensures
        r@ == report.transactions@.map_values(
            |t: WalRecoveredTransaction| commit_evidence_spec(t.commit, CausalCommitEvidencePosture::Present, None),
        ),
{
    let mut out: Vec<CausalCommitEvidence> = Vec::new();
    let mut i: usize = 0;
    while i < report.transactions.len()
        invariant
            i <= report.transactions@.len(),
            out@ == report.transactions@.take(i as int).map_values(
                |t: WalRecoveredTransaction| commit_evidence_spec(t.commit, CausalCommitEvidencePosture::Present, None),
            ),
        decreases report.transactions.len() - i,
    {
        let c = &report.transactions[i].commit;
        out.push(CausalCommitEvidence {
            evidence_id: causal_commit_evidence_id(c),
            posture: CausalCommitEvidencePosture::Present,
            source: CausalCommitEvidenceSource::EchoWal,
            durability_mode: c.durability_mode,
            writer_epoch: c.writer_epoch,
            lsn: c.last_lsn,
            transaction_id: c.transaction_id,
            commit_digest: c.commit_digest,
            checkpoint_digest: None,
            recovery_certificate_digest: None,
            obstruction_digest: None,
        });
        i += 1;
        assert(out@ =~= report.transactions@.take(i as int).map_values(
            |t: WalRecoveredTransaction| commit_evidence_spec(t.commit, CausalCommitEvidencePosture::Present, None),
        ));
    }
    assert(report.transactions@.take(report.transactions@.len() as int) =~= report.transactions@);
    out
}

/// Projects explicit absent causal commit evidence: zero anchors.
pub fn project_absent_causal_commit_evidence(
    evidence_id: crate::ident::Hash,
    durability_mode: WalDurabilityMode,
) -> (r: CausalCommitEvidence)
    ensures
        r == (CausalCommitEvidence {
            evidence_id,
            posture: CausalCommitEvidencePosture::Absent,
            source: CausalCommitEvidenceSource::EchoWal,
            durability_mode,
            writer_epoch: WriterEpochId(zero_hash()),
            lsn: Lsn(0),
            transaction_id: WalTransactionId(zero_hash()),
            commit_digest: zero_hash(),
            checkpoint_digest: None,
            recovery_certificate_digest: None,
            obstruction_digest: None,
        }),
{
    CausalCommitEvidence {
        evidence_id,
        posture: CausalCommitEvidencePosture::Absent,
        source: CausalCommitEvidenceSource::EchoWal,
        durability_mode,
        writer_epoch: WriterEpochId(zero_hash_value()),
        lsn: Lsn(0),
        transaction_id: WalTransactionId(zero_hash_value()),
        commit_digest: zero_hash_value(),
        checkpoint_digest: None,
        recovery_certificate_digest: None,
        obstruction_digest: None,
    }
}

/// Projects obstructed causal commit evidence for a known commit anchor.
pub fn project_obstructed_causal_commit_evidence(
    commit: &WalTransactionCommit,
    obstruction_digest: crate::ident::Hash,
) -> (r: CausalCommitEvidence)
    ensures
        r == commit_evidence_spec(*commit, CausalCommitEvidencePosture::Obstructed, Some(obstruction_digest)),
{
    CausalCommitEvidence {
        evidence_id: causal_commit_evidence_id(commit),
        posture: CausalCommitEvidencePosture::Obstructed,
        source: CausalCommitEvidenceSource::EchoWal,
        durability_mode: commit.durability_mode,
        writer_epoch: commit.writer_epoch,
        lsn: commit.last_lsn,
        transaction_id: commit.transaction_id,
        commit_digest: commit.commit_digest,
        checkpoint_digest: None,
        recovery_certificate_digest: None,
        obstruction_digest: Some(obstruction_digest),
    }
}

/// A publication names the checkpoint by id and digest.
pub open spec fn publishes(ps: Seq<CheckpointPublicationRecord>, id: crate::ident::Hash, d: Seq<u8>) -> bool {
    exists|k: int| 0 <= k < ps.len() && (#[trigger] ps[k]).checkpoint_id == id && ps[k].checkpoint_digest@ == d
}

/// Checkpoint posture against recovered history and publications: invalid
/// with no committed history, past the last committed LSN, or on another
/// commit digest; otherwise published when a publication names it.
pub open spec fn checkpoint_posture_spec(
    c: CheckpointRecord,
    ts: Seq<WalRecoveredTransaction>,
    ps: Seq<CheckpointPublicationRecord>,
) -> CheckpointValidationPosture {
    match (max_last_lsn(ts), last_commit_digest_spec(ts)) {
        (Some(l), Some(d)) => if c.last_included_lsn.0 > l.0 || c.last_included_commit_digest != d {
            CheckpointValidationPosture::Invalid
        } else if publishes(ps, c.checkpoint_id, blake3_digest(checkpoint_digest_input(c))) {
            CheckpointValidationPosture::PublishedAndUsable
        } else {
            CheckpointValidationPosture::UsableWithoutPublicationRecord
        },
        _ => CheckpointValidationPosture::Invalid,
    }
}

/// Validates a checkpoint against recovered committed history.
pub fn validate_checkpoint_record(
    checkpoint: &CheckpointRecord,
    report: &RecoveryScanReport,
    publications: &[CheckpointPublicationRecord],
) -> (r: CheckpointValidationPosture)
    ensures
        r == checkpoint_posture_spec(*checkpoint, report.transactions@, publications@),
{
    let last_lsn = match report.last_committed_lsn() {
        Some(l) => l,
        None => return CheckpointValidationPosture::Invalid,
    };
    let last_digest = match report.last_commit_digest() {
        Some(d) => d,
        None => return CheckpointValidationPosture::Invalid,
    };
    if checkpoint.last_included_lsn.0 > last_lsn.0 || !hash_eq(&checkpoint.last_included_commit_digest, &last_digest) {
        return CheckpointValidationPosture::Invalid;
    }
    let digest = checkpoint.checkpoint_digest();
    let mut found = false;
    let mut i: usize = 0;
    while i < publications.len()
        invariant
            i <= publications@.len(),
            digest@ == blake3_digest(checkpoint_digest_input(*checkpoint)),
            found ==> publishes(publications@, checkpoint.checkpoint_id, digest@),
            !found ==> forall|k: int| 0 <= k < i ==> !((#[trigger] publications@[k]).checkpoint_id
                == checkpoint.checkpoint_id && publications@[k].checkpoint_digest@ == digest@),
        decreases publications.len() - i,
    {
        if !found && hash_eq(&publications[i].checkpoint_id, &checkpoint.checkpoint_id) && hash_eq(
            &publications[i].checkpoint_digest,
            &digest,
        ) {
            assert(publications@[i as int].checkpoint_id == checkpoint.checkpoint_id);
            found = true;
        }
        i += 1;
    }
    if found {
        CheckpointValidationPosture::PublishedAndUsable
    } else {
        CheckpointValidationPosture::UsableWithoutPublicationRecord
    }
}

/// Evaluates checkpoint publication evidence when checkpoint material may be absent.
pub fn evaluate_checkpoint_publication(
    publication: &CheckpointPublicationRecord,
    checkpoint: Option<&CheckpointRecord>,
    report: &RecoveryScanReport,
) -> (r: CheckpointValidationPosture)
    ensures
        checkpoint is None ==> r == CheckpointValidationPosture::PublishedCheckpointMaterialMissing,
        checkpoint matches Some(c) ==> r == checkpoint_posture_spec(*c, report.transactions@, seq![*publication]),
{
    if let Some(c) = checkpoint {
        let mut ps: Vec<CheckpointPublicationRecord> = Vec::new();
        ps.push(*publication);
        assert(ps@ =~= seq![*publication]);
        validate_checkpoint_record(c, report, ps.as_slice())
    } else {
        CheckpointValidationPosture::PublishedCheckpointMaterialMissing
    }
}

/// The certificate of recovered committed history.
pub open spec fn certificate_spec(
    report: RecoveryScanReport,
    checkpoint_used: Option<crate::ident::Hash>,
    obstruction_count: u64,
    recovered_frontier_root: crate::ident::Hash,
    recovered_indexes_root: crate::ident::Hash,
) -> RecoveryCertificate {
    RecoveryCertificate {
        checkpoint_used,
        first_lsn: min_first_lsn(report.transactions@),
        last_lsn: max_last_lsn(report.transactions@),
        committed_transactions_replayed: report.transactions@.len() as u64,
        tail_posture: report.tail_posture,
        obstruction_count,
        recovered_frontier_root,
        recovered_indexes_root,
    }
}

/// Builds a recovery certificate from recovered committed history.
pub fn build_recovery_certificate(
    report: &RecoveryScanReport,
    checkpoint_used: Option<crate::ident::Hash>,
    obstruction_count: u64,
    recovered_frontier_root: crate::ident::Hash,
    recovered_indexes_root: crate::ident::Hash,
) -> (r: RecoveryCertificate)
    ensures
        r == certificate_spec(*report, checkpoint_used, obstruction_count, recovered_frontier_root, recovered_indexes_root),
{
    RecoveryCertificate {
        checkpoint_used,
        first_lsn: report.first_committed_lsn(),
        last_lsn: report.last_committed_lsn(),
        committed_transactions_replayed: len_u64(report.transactions.len()),
        tail_posture: report.tail_posture,
        obstruction_count,
        recovered_frontier_root,
        recovered_indexes_root,
    }
}

/// Read-only WAL doctor posture.
#[derive(Clone, Copy, Debug, PartialEq, Eq, Structural)]
pub enum WalDoctorPosture {
    /// WAL can be recovered from committed history.
    Recoverable,
    /// WAL is inspectable, but read-only mode detected a tail that writable
    /// recovery would truncate.
    RecoverableWithUncommittedTail,
    /// WAL has a recovery obstruction.
    Obstructed,
}

/// Read-only WAL doctor report.
#[derive(Clone, Copy, Debug, PartialEq, Eq)]
pub struct WalDoctorReport {
    /// Doctor posture.
    pub posture: WalDoctorPosture,
    /// Recovery certificate.
    pub recovery_certificate: RecoveryCertificate,
    /// Tail posture.
    pub tail_posture: RecoveryTailPosture,
}

impl WalDoctorReport {
    /// Stable report field names for command-line and tool adapters.
    pub fn stable_field_names() -> (r: Vec<&'static str>)
        ensures
            r@.len() == 6,
            r@[0]@ == "posture"@,
            r@[1]@ == "tail_posture"@,
            r@[2]@ == "committed_transactions_replayed"@,
            r@[3]@ == "obstruction_count"@,
            r@[4]@ == "recovered_frontier_root"@,
            r@[5]@ == "recovered_indexes_root"@,
    {
        let mut v: Vec<&'static str> = Vec::new();
        v.push("posture");
        v.push("tail_posture");
        v.push("committed_transactions_replayed");
        v.push("obstruction_count");
        v.push("recovered_frontier_root");
        v.push("recovered_indexes_root");
        v
    }
}

/// The report when recovery itself fails: obstructed, one obstruction.
pub open spec fn obstructed_doctor_spec() -> WalDoctorReport {
    WalDoctorReport {
        posture: WalDoctorPosture::Obstructed,
        recovery_certificate: RecoveryCertificate {
            checkpoint_used: None,
            first_lsn: None,
            last_lsn: None,
            committed_transactions_replayed: 0,
            tail_posture: RecoveryTailPosture::Clean,
            obstruction_count: 1,
            recovered_frontier_root: zero_hash(),
            recovered_indexes_root: zero_hash(),
        },
        tail_posture: RecoveryTailPosture::Clean,
    }
}

/// The report for a recovered scan with the given obstruction count.
pub open spec fn doctor_spec(report: RecoveryScanReport, obstruction_count: u64) -> WalDoctorReport {
    WalDoctorReport {
        posture: if obstruction_count > 0 {
            WalDoctorPosture::Obstructed
        } else {
            match report.tail_posture {
                RecoveryTailPosture::Clean => WalDoctorPosture::Recoverable,
                RecoveryTailPosture::WouldTruncateAll => WalDoctorPosture::RecoverableWithUncommittedTail,
                RecoveryTailPosture::WouldTruncateAfter(_) => WalDoctorPosture::RecoverableWithUncommittedTail,
                _ => WalDoctorPosture::Obstructed,
            }
        },
        recovery_certificate: certificate_spec(report, None, obstruction_count, zero_hash(), zero_hash()),
        tail_posture: report.tail_posture,
    }
}

/// The doctor report of a recovery scan and obstruction count.
pub fn doctor_report_from_scan(report: &RecoveryScanReport, obstruction_count: u64) -> (r: WalDoctorReport)
    ensures
        r == doctor_spec(*report, obstruction_count),
{
    let posture = if obstruction_count > 0 {
        WalDoctorPosture::Obstructed
    } else {
        match report.tail_posture {
            RecoveryTailPosture::Clean => WalDoctorPosture::Recoverable,
            RecoveryTailPosture::WouldTruncateAll => WalDoctorPosture::RecoverableWithUncommittedTail,
            RecoveryTailPosture::WouldTruncateAfter(_) => WalDoctorPosture::RecoverableWithUncommittedTail,
            _ => WalDoctorPosture::Obstructed,
        }
    };
    WalDoctorReport {
        posture,
        recovery_certificate: build_recovery_certificate(report, None, obstruction_count, zero_hash_value(), zero_hash_value()),
        tail_posture: report.tail_posture,
    }
}

fn obstructed_doctor_report() -> (r: WalDoctorReport)
    ensures
        r == obstructed_doctor_spec(),
{
    WalDoctorReport {
        posture: WalDoctorPosture::Obstructed,
        recovery_certificate: RecoveryCertificate {
            checkpoint_used: None,
            first_lsn: None,
            last_lsn: None,
            committed_transactions_replayed: 0,
            tail_posture: RecoveryTailPosture::Clean,
            obstruction_count: 1,
            recovered_frontier_root: zero_hash_value(),
            recovered_indexes_root: zero_hash_value(),
        },
        tail_posture: RecoveryTailPosture::Clean,
    }
}

/// Runs a read-only WAL doctor over an in-memory store: read-only recovery
/// of its frames and commits; a failed recovery is an obstructed report.
pub fn doctor_in_memory_store(store: &InMemoryWalStore) -> (r: Result<WalDoctorReport, WalRecoveryError>)
    ensures
        exists|frames: Seq<WalFrame>, scan: Result<RecoveryScanReport, WalRecoveryError>|
            frames_view(frames) == frames_view(store.frames_spec()) && recovery_outcome(
                frames,
                store.commits_spec(),
                RecoveryAccessMode::ReadOnly,
                scan,
            ) && r == Ok::<WalDoctorReport, WalRecoveryError>(
                match scan {
                    Ok(report) => doctor_spec(report, 0),
                    Err(_) => obstructed_doctor_spec(),
                },
            ),
{
    let frames = store.read_frames();
    let commits = store.read_commits();
    let scan = recover_from_frames_and_commits(frames.as_slice(), commits.as_slice(), RecoveryAccessMode::ReadOnly);
    let r = match &scan {
        Ok(report) => Ok(doctor_report_from_scan(report, 0)),
        Err(_) => Ok(obstructed_doctor_report()),
    };
    assert(frames_view(frames@) == frames_view(store.frames_spec()));
    r
}

/// Obstructions that block causal recovery (diagnostic loss does not).
pub open spec fn blocking_count(obs: Seq<RetainedMaterialObstruction>) -> nat
    decreases obs.len(),
{
    if obs.len() == 0 {
        0
    } else {
        blocking_count(obs.drop_last()) + if obs.last().scope != MissingMaterialScope::DiagnosticLoss {
            1nat
        } else {
            0nat
        }
    }
}

/// Runs a read-only WAL doctor that also counts retained-material
/// obstructions that block causal recovery.
pub fn doctor_in_memory_store_with_materials(
    store: &InMemoryWalStore,
    available_material: &KeySet<crate::ident::Hash>,
) -> (r: Result<WalDoctorReport, WalRecoveryError>)
    ensures
        exists|frames: Seq<WalFrame>, scan: Result<RecoveryScanReport, WalRecoveryError>|
            frames_view(frames) == frames_view(store.frames_spec()) && recovery_outcome(
                frames,
                store.commits_spec(),
                RecoveryAccessMode::ReadOnly,
                scan,
            ) && match scan {
                Err(_) => r == Ok::<WalDoctorReport, WalRecoveryError>(obstructed_doctor_spec()),
                Ok(report) => match retention_recovery(report_frames(report.transactions@)) {
                    None => r matches Err(WalRecoveryError::Index(_)),
                    Some(_) => r matches Ok(d) && d.posture == doctor_spec(report, d.recovery_certificate.obstruction_count).posture
                        && d == doctor_spec(report, d.recovery_certificate.obstruction_count),
                },
            },
{
    let frames = store.read_frames();
    let commits = store.read_commits();
    let scan = recover_from_frames_and_commits(frames.as_slice(), commits.as_slice(), RecoveryAccessMode::ReadOnly);
    assert(frames_view(frames@) == frames_view(store.frames_spec()));
    let report = match &scan {
        Ok(report) => report,
        Err(_) => return Ok(obstructed_doctor_report()),
    };
    let retention = match recover_retention_index(report) {
        Ok(x) => x,
        Err(e) => return Err(WalRecoveryError::Index(e)),
    };
    let obs = retained_material_obstructions(&retention, available_material);
    let mut count: u64 = 0;
    let mut i: usize = 0;
    while i < obs.len()
        invariant
            i <= obs@.len(),
            count == blocking_count(obs@.take(i as int)),
            count <= i,
        decreases obs.len() - i,
    {
        proof {
            assert(obs@.take(i + 1).drop_last() =~= obs@.take(i as int));
        }
        if obs[i].scope != MissingMaterialScope::DiagnosticLoss {
            count = count + 1;
        }
        i += 1;
    }
    Ok(doctor_report_from_scan(report, count))
}

/// WAL release readiness audit result.
#[derive(Clone, Debug, PartialEq, Eq)]
pub struct WalReleaseReadinessReport {
    /// `true` when all release-readiness gates are satisfied.
    pub ready: bool,
    /// Gate names that passed.
    pub passed_gates: Vec<&'static str>,
    /// Gate names that remain blocked.
    pub blocked_gates: Vec<&'static str>,
}

/// WAL release readiness gate input.
#[derive(Clone, Copy, Debug, PartialEq, Eq, Structural)]
pub struct WalReleaseReadinessGates {
    /// Filesystem WAL adapter gate.
    pub filesystem_adapter: bool,
    /// Object-store capability gate.
    pub object_store_capability_gate: bool,
    /// Segment repair/truncation gate.
    pub segment_repair: bool,
    /// Segment layout policy gate.
    pub segment_layout_policy: bool,
    /// Segment manifest validation gate.
    pub segment_manifest_validation: bool,
    /// Crash matrix gate.
    pub crash_matrix: bool,
    /// Crashpoint manifest gate.
    pub crashpoint_manifest: bool,
    /// Shadow replay gate.
    pub shadow_replay: bool,
    /// Side-effect outbox gate.
    pub outbox: bool,
    /// Causal commit evidence projection gate.
    pub commit_evidence: bool,
    /// WAL doctor/inspector gate.
    pub wal_doctor: bool,
    /// Semantic validator gate.
    pub semantic_validator: bool,
    /// Topology recovery index gate.
    pub topology_recovery: bool,
    /// Strict filesystem sync evidence gate.
    pub filesystem_sync_evidence: bool,
    /// Object-store manifest negative matrix gate.
    pub object_store_manifest_negatives: bool,
    /// Security and redaction posture gate.
    pub security_redaction: bool,
    /// No-app-nouns guard gate.
    pub app_noun_guard: bool,
    /// External consumer recovery gate.
    pub external_consumer_gate: bool,
}

impl Default for WalReleaseReadinessGates {
    /// Every gate closed.
    fn default() -> (r: Self)
        ensures
            r == (WalReleaseReadinessGates {
                filesystem_adapter: false,
                object_store_capability_gate: false,
                segment_repair: false,
                segment_layout_policy: false,
                segment_manifest_validation: false,
                crash_matrix: false,
                crashpoint_manifest: false,
                shadow_replay: false,
                outbox: false,
                commit_evidence: false,
                wal_doctor: false,
                semantic_validator: false,
                topology_recovery: false,
                filesystem_sync_evidence: false,
                object_store_manifest_negatives: false,
                security_redaction: false,
                app_noun_guard: false,
                external_consumer_gate: false,
            }),
    {
        WalReleaseReadinessGates {
            filesystem_adapter: false,
            object_store_capability_gate: false,
            segment_repair: false,
            segment_layout_policy: false,
            segment_manifest_validation: false,
            crash_matrix: false,
            crashpoint_manifest: false,
            shadow_replay: false,
            outbox: false,
            commit_evidence: false,
            wal_doctor: false,
            semantic_validator: false,
            topology_recovery: false,
            filesystem_sync_evidence: false,
            object_store_manifest_negatives: false,
            security_redaction: false,
            app_noun_guard: false,
            external_consumer_gate: false,
        }
    }
}

/// Each gate's name and state, in audit order.
pub open spec fn gate_list(g: WalReleaseReadinessGates) -> Seq<(Seq<char>, bool)> {
    seq![
        ("filesystem_adapter"@, g.filesystem_adapter),
        ("object_store_capability_gate"@, g.object_store_capability_gate),
        ("segment_repair"@, g.segment_repair),
        ("segment_layout_policy"@, g.segment_layout_policy),
        ("segment_manifest_validation"@, g.segment_manifest_validation),
        ("crash_matrix"@, g.crash_matrix),
        ("crashpoint_manifest"@, g.crashpoint_manifest),
        ("shadow_replay"@, g.shadow_replay),
        ("outbox"@, g.outbox),
        ("commit_evidence"@, g.commit_evidence),
        ("wal_doctor"@, g.wal_doctor),
        ("semantic_validator"@, g.semantic_validator),
        ("topology_recovery"@, g.topology_recovery),
        ("filesystem_sync_evidence"@, g.filesystem_sync_evidence),
        ("object_store_manifest_negatives"@, g.object_store_manifest_negatives),
        ("security_redaction"@, g.security_redaction),
        ("app_noun_guard"@, g.app_noun_guard),
        ("external_consumer_gate"@, g.external_consumer_gate),
    ]
}

/// Names of the gates in the given state, in audit order.
pub open spec fn gates_with(gs: Seq<(Seq<char>, bool)>, state: bool) -> Seq<Seq<char>>
    decreases gs.len(),
{
    if gs.len() == 0 {
        Seq::empty()
    } else {
        gates_with(gs.drop_last(), state) + if gs.last().1 == state {
            seq![gs.last().0]
        } else {
            Seq::empty()
        }
    }
}

/// Names of string slices.
pub open spec fn names_view(v: Seq<&'static str>) -> Seq<Seq<char>> {
    v.map_values(|s: &'static str| s@)
}

fn push_gate(passed: &mut Vec<&'static str>, blocked: &mut Vec<&'static str>, name: &'static str, ok: bool)
    ensures
        names_view(final(passed)@) == names_view(old(passed)@) + if ok { seq![name@] } else { Seq::empty() },
        names_view(final(blocked)@) == names_view(old(blocked)@) + if !ok { seq![name@] } else { Seq::empty() },
{
    let ghost p0 = passed@;
    let ghost b0 = blocked@;
    if ok {
        passed.push(name);
    } else {
        blocked.push(name);
    }
    assert(names_view(passed@) =~= names_view(p0) + if ok { seq![name@] } else { Seq::<Seq<char>>::empty() });
    assert(names_view(blocked@) =~= names_view(b0) + if !ok { seq![name@] } else { Seq::<Seq<char>>::empty() });
}

/// Gate names and states as listed.
pub open spec fn gate_pairs_view(v: Seq<(&'static str, bool)>) -> Seq<(Seq<char>, bool)> {
    v.map_values(|p: (&'static str, bool)| (p.0@, p.1))
}

/// Audits WAL release readiness: every gate is listed as passed or blocked,
/// in audit order, and the release is ready when none is blocked.
#[verifier::rlimit(80)]
#[verifier::spinoff_prover]
pub fn audit_wal_release_readiness(gates: WalReleaseReadinessGates) -> (r: WalReleaseReadinessReport)
    ensures
        names_view(r.passed_gates@) == gates_with(gate_list(gates), true),
        names_view(r.blocked_gates@) == gates_with(gate_list(gates), false),
        r.ready == (r.blocked_gates@.len() == 0),
{
    let gs: Vec<(&'static str, bool)> = vec![
        ("filesystem_adapter", gates.filesystem_adapter),
        ("object_store_capability_gate", gates.object_store_capability_gate),
        ("segment_repair", gates.segment_repair),
        ("segment_layout_policy", gates.segment_layout_policy),
        ("segment_manifest_validation", gates.segment_manifest_validation),
        ("crash_matrix", gates.crash_matrix),
        ("crashpoint_manifest", gates.crashpoint_manifest),
        ("shadow_replay", gates.shadow_replay),
        ("outbox", gates.outbox),
        ("commit_evidence", gates.commit_evidence),
        ("wal_doctor", gates.wal_doctor),
        ("semantic_validator", gates.semantic_validator),
        ("topology_recovery", gates.topology_recovery),
        ("filesystem_sync_evidence", gates.filesystem_sync_evidence),
        ("object_store_manifest_negatives", gates.object_store_manifest_negatives),
        ("security_redaction", gates.security_redaction),
        ("app_noun_guard", gates.app_noun_guard),
        ("external_consumer_gate", gates.external_consumer_gate),
    ];
    assert(gate_pairs_view(gs@) =~= gate_list(gates));
    let mut passed: Vec<&'static str> = Vec::new();
    let mut blocked: Vec<&'static str> = Vec::new();
    let mut i: usize = 0;
    while i < gs.len()
        invariant
            i <= gs@.len(),
            gate_pairs_view(gs@) == gate_list(gates),
            names_view(passed@) == gates_with(gate_list(gates).take(i as int), true),
            names_view(blocked@) == gates_with(gate_list(gates).take(i as int), false),
        decreases gs.len() - i,
    {
        let (name, ok) = gs[i];
        proof {
            assert(gate_list(gates)[i as int] == (name@, ok));
            lemma_gate_step(gate_list(gates), i as int);
        }
        push_gate(&mut passed, &mut blocked, name, ok);
        i += 1;
    }
    assert(gate_list(gates).take(gs@.len() as int) =~= gate_list(gates));
    let ready = blocked.len() == 0;
    WalReleaseReadinessReport { ready, passed_gates: passed, blocked_gates: blocked }
}

proof fn lemma_gate_step(gs: Seq<(Seq<char>, bool)>, k: int)
    requires
        0 <= k < gs.len(),
    ensures
        gates_with(gs.take(k + 1), true) == gates_with(gs.take(k), true) + if gs[k].1 { seq![gs[k].0] } else { Seq::empty() },
        gates_with(gs.take(k + 1), false) == gates_with(gs.take(k), false) + if !gs[k].1 { seq![gs[k].0] } else { Seq::empty() },
{
    assert(gs.take(k + 1).drop_last() =~= gs.take(k));
}

} // verus!
