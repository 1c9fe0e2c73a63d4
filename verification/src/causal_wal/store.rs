//! Writer epochs, segment policy, sync evidence and the deterministic
//! in-memory WAL store.
use vstd::prelude::*;
use vstd::bytes::*;
use vstd::string::*;
use crate::crypto::{blake3_digest, blake3_hash};
use crate::encoding::{push_hash, push_slice, push_u64_le};
use crate::ident::hash_eq;
use crate::causal_wal::frame::{
    clone_frame, committed_transaction_spec, first_frame_error_from, frame_digest_spec, frame_integrity_spec,
    frame_position_error, frames_view, lemma_frame_view_congruence,
    WalCommittedTransaction, WalFrame, WalTransactionCommit,
};
use crate::causal_wal::recovery::{
    recover_from_frames_and_commits, recovery_outcome, RecoveryAccessMode, RecoveryScanReport, RecoveryTailPosture,
};
use crate::causal_wal::{
    writer_epoch_eq, Lsn, WalDecodeError, WalRecoveryError, WalSegmentId, WalTransactionId,
    WalValidationError, WriterEpochId,
};

verus! {

/// WAL store errors.
#[derive(Clone, Debug, PartialEq, Eq)]
pub enum WalStoreError {
    /// A writer epoch is already active.
    WriterEpochAlreadyActive,
    /// No writer epoch is active.
    NoActiveWriterEpoch,
    /// Writer epoch mismatch.
    WriterEpochMismatch,
    /// Previous writer epoch is unknown.
    UnknownPreviousWriterEpoch,
    /// A new epoch omitted the previous closed epoch.
    WriterEpochChainGap,
    /// Previous epoch final commit digest does not match the closed epoch.
    WriterEpochFinalCommitDigestMismatch,
    /// New epoch reuses or mismatches storage fencing evidence.
    WriterEpochFencingMismatch,
    /// New epoch starts at or before the previous closed epoch final LSN.
    WriterEpochLsnRegression,
    /// Validation failed.
    Validation(WalValidationError),
    /// Payload decode failed.
    Decode(WalDecodeError),
    /// Filesystem I/O failed; the message describes the failure.
    Io(String),
    /// A segment record carried a bad magic or record digest.
    SegmentRecordDigestMismatch,
    /// A segment record carried an unknown record kind.
    UnknownDiskRecordKind(u8),
    /// A segment file name does not follow the canonical naming.
    InvalidSegmentFileName(String),
    /// Segment ids are not contiguous.
    SegmentGap {
        /// Expected segment id.
        expected: WalSegmentId,
        /// Observed segment id.
        actual: WalSegmentId,
    },
    /// A segment id appears twice.
    DuplicateSegment(WalSegmentId),
    /// A frame belongs to another segment.
    SegmentMismatch {
        /// Expected segment id.
        expected: WalSegmentId,
        /// Observed segment id.
        actual: WalSegmentId,
    },
    /// No further segment id exists.
    SegmentIdOverflow,
    /// A segment still holds an uncommitted tail.
    SegmentHasUncommittedTail(WalSegmentId),
    /// No manifest has been published.
    MissingManifest,
    /// The manifest's segment count differs from the segments observed.
    ManifestSegmentCountMismatch {
        /// Observed segment count.
        expected: u64,
        /// Manifest segment count.
        actual: u64,
    },
    /// The manifest's last committed LSN differs from the segments.
    ManifestLastCommittedLsnMismatch {
        /// Observed last committed LSN.
        expected: Option<Lsn>,
        /// Manifest last committed LSN.
        actual: Option<Lsn>,
    },
    /// The manifest's last commit digest differs from the segments.
    ManifestLastCommitDigestMismatch {
        /// Observed last commit digest.
        expected: Option<crate::ident::Hash>,
        /// Manifest last commit digest.
        actual: Option<crate::ident::Hash>,
    },
    /// A manifest cannot be validated while an uncommitted tail remains.
    ManifestCannotValidateUncommittedTail,
}

/// Writer epoch metadata and storage fencing evidence.
#[derive(Clone, Copy, Debug, PartialEq, Eq)]
pub struct WriterEpoch {
    /// Epoch id.
    pub epoch_id: WriterEpochId,
    /// Storage fencing token or lease token.
    pub storage_fencing_token: crate::ident::Hash,
    /// Process identity evidence.
    pub process_identity: crate::ident::Hash,
    /// Host identity evidence.
    pub host_identity: crate::ident::Hash,
    /// First LSN owned by the epoch.
    pub started_at_lsn: Lsn,
    /// Previous epoch id, if any.
    pub previous_epoch_id: Option<WriterEpochId>,
    /// Previous epoch final commit digest, if any.
    pub previous_epoch_final_commit_digest: Option<crate::ident::Hash>,
    /// Lease or lock evidence.
    pub lease_or_lock_evidence: crate::ident::Hash,
}

/// Writer epoch acquisition request.
#[derive(Clone, Copy, Debug, PartialEq, Eq)]
pub struct WriterEpochRequest {
    /// Epoch id.
    pub epoch_id: WriterEpochId,
    /// Storage fencing token.
    pub storage_fencing_token: crate::ident::Hash,
    /// Process identity.
    pub process_identity: crate::ident::Hash,
    /// Host identity.
    pub host_identity: crate::ident::Hash,
    /// Start LSN.
    pub started_at_lsn: Lsn,
    /// Previous epoch id.
    pub previous_epoch_id: Option<WriterEpochId>,
    /// Previous final commit digest.
    pub previous_epoch_final_commit_digest: Option<crate::ident::Hash>,
    /// Lease or lock evidence.
    pub lease_or_lock_evidence: crate::ident::Hash,
}

/// Final commit evidence of a writer epoch.
#[derive(Clone, Copy, Debug, PartialEq, Eq)]
pub struct WriterEpochClosure {
    /// Final committed LSN, if any.
    pub final_lsn: Option<Lsn>,
    /// Final commit digest, if any.
    pub final_commit_digest: Option<crate::ident::Hash>,
}

/// Segment seal result.
#[derive(Clone, Copy, Debug, PartialEq, Eq)]
pub struct WalSegmentSeal {
    /// Sealed segment id.
    pub segment_id: WalSegmentId,
    /// Last sealed LSN.
    pub sealed_lsn: Option<Lsn>,
    /// Segment digest.
    pub segment_digest: crate::ident::Hash,
}

/// Segment placement family.
#[derive(Clone, Copy, Debug, PartialEq, Eq, Structural)]
pub enum WalSegmentPlacementKind {
    /// Placement is derived from logical segment id.
    CausalSegmentId,
    /// Placement is derived from wall-clock bucketing.
    WallClockPartition,
}

/// Segment placement policy.
#[derive(Clone, Copy, Debug, PartialEq, Eq)]
pub struct WalSegmentPlacementPolicy {
    /// Placement family.
    pub kind: WalSegmentPlacementKind,
    /// `true` if placement participates in authoritative WAL identity.
    pub authoritative: bool,
}

/// Segment placement policy error.
#[derive(Clone, Copy, Debug, PartialEq, Eq)]
pub enum WalSegmentPlacementPolicyError {
    /// Wall-clock placement cannot define authoritative WAL identity.
    WallClockPlacementCannotBeAuthoritative,
}

/// Validates a segment placement policy: wall-clock placement cannot be authoritative.
pub fn validate_segment_placement_policy(policy: WalSegmentPlacementPolicy) -> (r: Result<(), WalSegmentPlacementPolicyError>)
    ensures
        r is Err <==> (policy.kind == WalSegmentPlacementKind::WallClockPartition && policy.authoritative),
        r is Err ==> r == Err::<(), WalSegmentPlacementPolicyError>(
            WalSegmentPlacementPolicyError::WallClockPlacementCannotBeAuthoritative,
        ),
{
    if policy.kind == WalSegmentPlacementKind::WallClockPartition && policy.authoritative {
        return Err(WalSegmentPlacementPolicyError::WallClockPlacementCannotBeAuthoritative);
    }
    Ok(())
}

/// Segment id arithmetic error.
#[derive(Clone, Copy, Debug, PartialEq, Eq)]
pub enum WalSegmentIdError {
    /// Segment id overflowed.
    Overflow,
}

/// Returns the next logical segment id: 1 first, then one past the previous.
pub fn next_segment_id(previous: Option<WalSegmentId>) -> (r: Result<WalSegmentId, WalSegmentIdError>)
    ensures
        previous is None ==> r == Ok::<WalSegmentId, WalSegmentIdError>(WalSegmentId(1)),
        previous matches Some(p) ==> (if p.0 < u64::MAX {
            r == Ok::<WalSegmentId, WalSegmentIdError>(WalSegmentId((p.0 + 1) as u64))
        } else {
            r == Err::<WalSegmentId, WalSegmentIdError>(WalSegmentIdError::Overflow)
        }),
{
    match previous {
        None => Ok(WalSegmentId(1)),
        Some(p) => if p.0 < u64::MAX {
            Ok(WalSegmentId(p.0 + 1))
        } else {
            Err(WalSegmentIdError::Overflow)
        },
    }
}

/// Published WAL manifest.
#[derive(Clone, Copy, Debug, PartialEq, Eq)]
pub struct WalManifest {
    /// Manifest digest.
    pub manifest_digest: crate::ident::Hash,
    /// Last committed LSN.
    pub last_committed_lsn: Option<Lsn>,
    /// Last commit digest.
    pub last_commit_digest: Option<crate::ident::Hash>,
    /// Number of segment files covered by the manifest.
    pub sealed_segment_count: u64,
}

/// Canonical crashpoint execution posture.
#[derive(Clone, Copy, Debug, PartialEq, Eq, Structural)]
pub enum WalCrashpointExecution {
    /// Crashpoint is simulated in-process by Rust fixtures.
    SimulatedInProcess,
    /// Crashpoint is reserved for a future process-kill runner.
    ProcessKillFuture,
}

/// Canonical WAL crashpoint boundary.
#[derive(Clone, Copy, Debug, PartialEq, Eq, Structural)]
pub enum WalCrashpointBoundary {
    /// Submission intake boundary.
    Submission,
    /// Scheduler-owned tick boundary.
    Tick,
    /// Checkpoint publication boundary.
    Checkpoint,
    /// Retained material or side-effect materialization boundary.
    Material,
    /// Index publication boundary.
    Index,
    /// Future process-kill runner boundary.
    Process,
}

/// Canonical crashpoint descriptor.
#[derive(Clone, Copy, Debug, PartialEq, Eq)]
pub struct WalCrashpointDescriptor {
    /// Stable crashpoint name.
    pub name: &'static str,
    /// Boundary family.
    pub boundary: WalCrashpointBoundary,
    /// Execution posture.
    pub execution: WalCrashpointExecution,
}

/// Returns the canonical WAL crashpoint manifest: ten crashpoints, the first
/// nine simulated in process and the last reserved for a process-kill runner.
pub fn wal_crashpoint_manifest() -> (r: Vec<WalCrashpointDescriptor>)
    ensures
        r@.len() == 10,
        forall|i: int| 0 <= i < 9 ==> (#[trigger] r@[i]).execution == WalCrashpointExecution::SimulatedInProcess,
        r@[9].execution == WalCrashpointExecution::ProcessKillFuture,
        r@[9].boundary == WalCrashpointBoundary::Process,
        r@[0].boundary == WalCrashpointBoundary::Submission && r@[1].boundary == WalCrashpointBoundary::Submission,
        r@[2].boundary == WalCrashpointBoundary::Tick && r@[3].boundary == WalCrashpointBoundary::Tick,
        r@[4].boundary == WalCrashpointBoundary::Checkpoint && r@[5].boundary == WalCrashpointBoundary::Checkpoint,
        r@[6].boundary == WalCrashpointBoundary::Material && r@[7].boundary == WalCrashpointBoundary::Material,
        r@[8].boundary == WalCrashpointBoundary::Index,
{
    let sim = WalCrashpointExecution::SimulatedInProcess;
    let mut v: Vec<WalCrashpointDescriptor> = Vec::new();
    v.push(WalCrashpointDescriptor { name: "submission.before_commit", boundary: WalCrashpointBoundary::Submission, execution: sim });
    v.push(WalCrashpointDescriptor { name: "submission.after_commit_before_ack", boundary: WalCrashpointBoundary::Submission, execution: sim });
    v.push(WalCrashpointDescriptor { name: "tick.before_commit", boundary: WalCrashpointBoundary::Tick, execution: sim });
    v.push(WalCrashpointDescriptor { name: "tick.after_commit_before_publish", boundary: WalCrashpointBoundary::Tick, execution: sim });
    v.push(WalCrashpointDescriptor { name: "checkpoint.before_rename", boundary: WalCrashpointBoundary::Checkpoint, execution: sim });
    v.push(WalCrashpointDescriptor { name: "checkpoint.after_rename_before_publication", boundary: WalCrashpointBoundary::Checkpoint, execution: sim });
    v.push(WalCrashpointDescriptor { name: "material.before_wal_reference", boundary: WalCrashpointBoundary::Material, execution: sim });
    v.push(WalCrashpointDescriptor { name: "material.after_effect_before_observation", boundary: WalCrashpointBoundary::Material, execution: sim });
    v.push(WalCrashpointDescriptor { name: "index.before_publish", boundary: WalCrashpointBoundary::Index, execution: sim });
    v.push(WalCrashpointDescriptor { name: "process.kill.after_wal_commit", boundary: WalCrashpointBoundary::Process, execution: WalCrashpointExecution::ProcessKillFuture });
    v
}

/// Filesystem sync boundary evidence.
#[derive(Clone, Copy, Debug, PartialEq, Eq, PartialOrd, Ord, Structural)]
pub enum FilesystemSyncBoundary {
    /// WAL root directory was synced after creating the segment namespace.
    SegmentNamespaceDirectorySynced,
    /// Segment file was created and synced.
    SegmentFileCreated,
    /// Containing directory was synced after segment creation.
    SegmentDirectorySynced,
    /// Commit marker append synced the WAL segment file.
    CommitFileSynced,
    /// Manifest temp file was synced before rename.
    ManifestTempFileSynced,
    /// Containing directory was synced after manifest rename.
    ManifestRenamedDirectorySynced,
    /// Checkpoint temp file was synced before rename.
    CheckpointTempFileSynced,
    /// Containing directory was synced after checkpoint rename.
    CheckpointRenamedDirectorySynced,
}

/// Filesystem sync evidence emitted by strict filesystem helpers.
#[derive(Clone, Copy, Debug, PartialEq, Eq)]
pub struct FilesystemSyncEvidence {
    /// Sync boundary.
    pub boundary: FilesystemSyncBoundary,
    /// Segment id, when the boundary is segment-scoped.
    pub segment_id: Option<WalSegmentId>,
    /// Transaction id, when the boundary is commit-scoped.
    pub transaction_id: Option<WalTransactionId>,
}

/// Filesystem sync evidence validation error.
#[derive(Clone, Copy, Debug, PartialEq, Eq)]
pub enum FilesystemSyncEvidenceError {
    /// Required sync evidence was missing.
    Missing(FilesystemSyncBoundary),
}

/// Some evidence entry attests boundary `b`.
pub open spec fn boundary_present(evidence: Seq<FilesystemSyncEvidence>, b: FilesystemSyncBoundary) -> bool {
    exists|i: int| 0 <= i < evidence.len() && (#[trigger] evidence[i]).boundary == b
}

/// Validates strict filesystem sync evidence: every required boundary must be
/// attested; the first missing one (in required order) is reported.
pub fn validate_filesystem_strict_sync_evidence(
    evidence: &[FilesystemSyncEvidence],
    required: &[FilesystemSyncBoundary],
) -> (r: Result<(), FilesystemSyncEvidenceError>)
    ensures
        r is Ok <==> forall|j: int| 0 <= j < required.len() ==> boundary_present(evidence@, #[trigger] required@[j]),
        r matches Err(FilesystemSyncEvidenceError::Missing(b)) ==> exists|j: int| 0 <= j < required.len()
            && #[trigger] required@[j] == b && !boundary_present(evidence@, b)
            && forall|k: int| 0 <= k < j ==> boundary_present(evidence@, #[trigger] required@[k]),
{
    let mut j: usize = 0;
    while j < required.len()
        invariant
            j <= required@.len(),
            forall|k: int| 0 <= k < j ==> boundary_present(evidence@, #[trigger] required@[k]),
        decreases required.len() - j,
    {
        let b = required[j];
        let mut found = false;
        let mut i: usize = 0;
        while i < evidence.len()
            invariant
                i <= evidence@.len(),
                found == exists|q: int| 0 <= q < i && (#[trigger] evidence@[q]).boundary == b,
            decreases evidence.len() - i,
        {
            if evidence[i].boundary == b {
                found = true;
            }
            i += 1;
        }
        if !found {
            return Err(FilesystemSyncEvidenceError::Missing(b));
        }
        j += 1;
    }
    Ok(())
}

/// Domain prefix of segment digests.
pub open spec fn segment_domain() -> Seq<u8> {
    "echo:causal_wal:segment:v1\0".spec_bytes()
}

/// Concatenated frame digests.
pub open spec fn digests_of(frames: Seq<WalFrame>) -> Seq<u8>
    decreases frames.len(),
{
    if frames.len() == 0 {
        Seq::empty()
    } else {
        digests_of(frames.drop_last()) + frame_digest_spec(frames.last())
    }
}

/// Digest of a segment: its id, its frame count, then each frame digest.
pub open spec fn segment_digest_spec(segment_id: WalSegmentId, frames: Seq<WalFrame>) -> Seq<u8> {
    blake3_digest(segment_domain() + spec_u64_to_le_bytes(segment_id.0) + spec_u64_to_le_bytes(frames.len() as u64)
        + digests_of(frames))
}

/// Computes a segment digest over the given frames.
pub fn segment_digest(segment_id: WalSegmentId, frames: &[WalFrame]) -> (r: crate::ident::Hash)
    ensures
        r@ == segment_digest_spec(segment_id, frames@),
{
    let mut input: Vec<u8> = Vec::new();
    push_slice(&mut input, "echo:causal_wal:segment:v1\0".as_bytes());
    push_u64_le(&mut input, segment_id.0);
    push_u64_le(&mut input, frames.len() as u64);
    let ghost prefix = input@;
    let mut i: usize = 0;
    while i < frames.len()
        invariant
            i <= frames@.len(),
            input@ == prefix + digests_of(frames@.subrange(0, i as int)),
        decreases frames.len() - i,
    {
        let d = frames[i].digest();
        push_hash(&mut input, &d);
        proof {
            assert(frames@.subrange(0, i + 1).drop_last() =~= frames@.subrange(0, i as int));
        }
        i += 1;
    }
    assert(frames@.subrange(0, frames@.len() as int) =~= frames@);
    blake3_hash(input.as_slice())
}

/// Deterministic in-memory WAL store.
#[derive(Debug)]
pub struct InMemoryWalStore {
    active_epoch: Option<WriterEpoch>,
    closed_epochs: Vec<WriterEpoch>,
    epoch_closures: Vec<(WriterEpochId, WriterEpochClosure)>,
    frames: Vec<WalFrame>,
    commits: Vec<WalTransactionCommit>,
    sealed_segments: Vec<WalSegmentSeal>,
    manifests: Vec<WalManifest>,
}

/// The closure recorded for `id`, or the empty closure.
pub open spec fn closure_of(cs: Seq<(WriterEpochId, WriterEpochClosure)>, id: WriterEpochId) -> WriterEpochClosure
    decreases cs.len(),
{
    if cs.len() == 0 {
        WriterEpochClosure { final_lsn: None, final_commit_digest: None }
    } else if cs.last().0 == id {
        cs.last().1
    } else {
        closure_of(cs.drop_last(), id)
    }
}

/// Outcome of a writer-epoch request against the store's epoch history.
pub open spec fn epoch_request_outcome(
    active: Option<WriterEpoch>,
    closed: Seq<WriterEpoch>,
    closures: Seq<(WriterEpochId, WriterEpochClosure)>,
    req: WriterEpochRequest,
) -> Result<WriterEpoch, WalStoreError> {
    if active is Some {
        Err(WalStoreError::WriterEpochAlreadyActive)
    } else {
        match req.previous_epoch_id {
            Some(prev) => if first_epoch_with_id(closed, prev, 0) is None {
                Err(WalStoreError::UnknownPreviousWriterEpoch)
            } else {
                let pe = closed[first_epoch_with_id(closed, prev, 0)->Some_0];
                let pc = closure_of(closures, prev);
                if req.previous_epoch_final_commit_digest != pc.final_commit_digest {
                    Err(WalStoreError::WriterEpochFinalCommitDigestMismatch)
                } else if pc.final_lsn matches Some(fl) && req.started_at_lsn.0 <= fl.0 {
                    Err(WalStoreError::WriterEpochLsnRegression)
                } else if req.storage_fencing_token == pe.storage_fencing_token || req.lease_or_lock_evidence
                    == pe.lease_or_lock_evidence {
                    Err(WalStoreError::WriterEpochFencingMismatch)
                } else {
                    Ok(epoch_of_request(req))
                }
            },
            None => if closed.len() != 0 {
                Err(WalStoreError::WriterEpochChainGap)
            } else {
                Ok(epoch_of_request(req))
            },
        }
    }
}

/// Position of the first closed epoch at or after `i` with id `id`.
pub open spec fn first_epoch_with_id(closed: Seq<WriterEpoch>, id: WriterEpochId, i: int) -> Option<int>
    decreases closed.len() - i,
{
    if i < 0 || i >= closed.len() {
        None
    } else if closed[i].epoch_id == id {
        Some(i)
    } else {
        first_epoch_with_id(closed, id, i + 1)
    }
}

/// The epoch a request describes.
pub open spec fn epoch_of_request(req: WriterEpochRequest) -> WriterEpoch {
    WriterEpoch {
        epoch_id: req.epoch_id,
        storage_fencing_token: req.storage_fencing_token,
        process_identity: req.process_identity,
        host_identity: req.host_identity,
        started_at_lsn: req.started_at_lsn,
        previous_epoch_id: req.previous_epoch_id,
        previous_epoch_final_commit_digest: req.previous_epoch_final_commit_digest,
        lease_or_lock_evidence: req.lease_or_lock_evidence,
    }
}

fn option_hash_eq(a: Option<crate::ident::Hash>, b: Option<crate::ident::Hash>) -> (r: bool)
    ensures
        r == (a == b),
{
    match (a, b) {
        (None, None) => true,
        (Some(x), Some(y)) => hash_eq(&x, &y),
        _ => false,
    }
}

impl InMemoryWalStore {
    /// The active writer epoch.
    pub closed spec fn active_spec(&self) -> Option<WriterEpoch> { self.active_epoch }
    /// Closed writer epochs, in closing order.
    pub closed spec fn closed_spec(&self) -> Seq<WriterEpoch> { self.closed_epochs@ }
    /// Recorded epoch closures.
    pub closed spec fn closures_spec(&self) -> Seq<(WriterEpochId, WriterEpochClosure)> { self.epoch_closures@ }
    /// Recorded frames.
    pub closed spec fn frames_spec(&self) -> Seq<WalFrame> { self.frames@ }
    /// Flushed commit markers.
    pub closed spec fn commits_spec(&self) -> Seq<WalTransactionCommit> { self.commits@ }
    /// Segment seals.
    pub closed spec fn seals_spec(&self) -> Seq<WalSegmentSeal> { self.sealed_segments@ }
    /// Published manifests.
    pub closed spec fn manifests_spec(&self) -> Seq<WalManifest> { self.manifests@ }

    /// Creates an empty in-memory WAL store.
    pub fn new() -> (r: Self)
        ensures
            r.active_spec() is None,
            r.closed_spec().len() == 0,
            r.closures_spec().len() == 0,
            r.frames_spec().len() == 0,
            r.commits_spec().len() == 0,
            r.seals_spec().len() == 0,
            r.manifests_spec().len() == 0,
    {
        InMemoryWalStore {
            active_epoch: None,
            closed_epochs: Vec::new(),
            epoch_closures: Vec::new(),
            frames: Vec::new(),
            commits: Vec::new(),
            sealed_segments: Vec::new(),
            manifests: Vec::new(),
        }
    }

    fn closure_for(&self, id: &WriterEpochId) -> (r: WriterEpochClosure)
        ensures
            r == closure_of(self.epoch_closures@, *id),
    {
        let mut i: usize = self.epoch_closures.len();
        assert(self.epoch_closures@.subrange(0, i as int) =~= self.epoch_closures@);
        while i > 0
            invariant
                i <= self.epoch_closures@.len(),
                closure_of(self.epoch_closures@, *id) == closure_of(self.epoch_closures@.subrange(0, i as int), *id),
            decreases i,
        {
            let entry = self.epoch_closures[i - 1];
            proof {
                let s = self.epoch_closures@.subrange(0, i as int);
                assert(s.drop_last() =~= self.epoch_closures@.subrange(0, i - 1));
            }
            if writer_epoch_eq(&entry.0, id) {
                return entry.1;
            }
            i -= 1;
        }
        WriterEpochClosure { final_lsn: None, final_commit_digest: None }
    }

    /// Acquires a writer epoch, enforcing the epoch chain and fencing rules.
    pub fn acquire_writer_epoch(&mut self, request: WriterEpochRequest) -> (r: Result<WriterEpoch, WalStoreError>)
        ensures
            r == epoch_request_outcome(old(self).active_spec(), old(self).closed_spec(), old(self).closures_spec(), request),
            r matches Ok(e) ==> final(self).active_spec() == Some(e),
            r is Err ==> final(self).active_spec() == old(self).active_spec(),
            final(self).closed_spec() == old(self).closed_spec(),
            final(self).closures_spec() == old(self).closures_spec(),
            final(self).frames_spec() == old(self).frames_spec(),
            final(self).commits_spec() == old(self).commits_spec(),
            final(self).manifests_spec() == old(self).manifests_spec(),
            final(self).seals_spec() == old(self).seals_spec(),
    {
        if self.active_epoch.is_some() {
            return Err(WalStoreError::WriterEpochAlreadyActive);
        }
        match request.previous_epoch_id {
            Some(prev) => {
                let mut found: Option<usize> = None;
                let mut i: usize = 0;
                while i < self.closed_epochs.len()
                    invariant
                        i <= self.closed_epochs@.len(),
                        found is None ==> first_epoch_with_id(self.closed_epochs@, prev, 0) == first_epoch_with_id(
                            self.closed_epochs@,
                            prev,
                            i as int,
                        ),
                        found matches Some(q) ==> first_epoch_with_id(self.closed_epochs@, prev, 0) == Some(q as int)
                            && q < self.closed_epochs@.len(),
                    decreases self.closed_epochs.len() - i,
                {
                    if found.is_none() && writer_epoch_eq(&self.closed_epochs[i].epoch_id, &prev) {
                        found = Some(i);
                    }
                    i += 1;
                }
                let q = match found {
                    None => return Err(WalStoreError::UnknownPreviousWriterEpoch),
                    Some(q) => q,
                };
                let previous = self.closed_epochs[q];
                let closure = self.closure_for(&prev);
                if !option_hash_eq(request.previous_epoch_final_commit_digest, closure.final_commit_digest) {
                    return Err(WalStoreError::WriterEpochFinalCommitDigestMismatch);
                }
                if let Some(final_lsn) = closure.final_lsn {
                    if request.started_at_lsn.0 <= final_lsn.0 {
                        return Err(WalStoreError::WriterEpochLsnRegression);
                    }
                }
                if hash_eq(&request.storage_fencing_token, &previous.storage_fencing_token)
                    || hash_eq(&request.lease_or_lock_evidence, &previous.lease_or_lock_evidence) {
                    return Err(WalStoreError::WriterEpochFencingMismatch);
                }
            },
            None => {
                if self.closed_epochs.len() != 0 {
                    return Err(WalStoreError::WriterEpochChainGap);
                }
            },
        }
        let epoch = WriterEpoch {
            epoch_id: request.epoch_id,
            storage_fencing_token: request.storage_fencing_token,
            process_identity: request.process_identity,
            host_identity: request.host_identity,
            started_at_lsn: request.started_at_lsn,
            previous_epoch_id: request.previous_epoch_id,
            previous_epoch_final_commit_digest: request.previous_epoch_final_commit_digest,
            lease_or_lock_evidence: request.lease_or_lock_evidence,
        };
        self.active_epoch = Some(epoch);
        Ok(epoch)
    }
}

impl InMemoryWalStore {
    /// Appends a frame under the active writer epoch after checking its integrity.
    pub fn append_frame(&mut self, epoch_id: WriterEpochId, frame: WalFrame) -> (r: Result<(), WalStoreError>)
        ensures
            old(self).active_spec() is None ==> r == Err::<(), WalStoreError>(WalStoreError::NoActiveWriterEpoch),
            old(self).active_spec() matches Some(a) ==> (if a.epoch_id != epoch_id || frame.header.writer_epoch != epoch_id {
                r == Err::<(), WalStoreError>(WalStoreError::WriterEpochMismatch)
            } else {
                match frame_integrity_spec(frame) {
                    Err(e) => r == Err::<(), WalStoreError>(WalStoreError::Validation(e)),
                    Ok(_) => r is Ok,
                }
            }),
            r is Ok ==> final(self).frames_spec() == old(self).frames_spec().push(frame),
            r is Err ==> final(self).frames_spec() == old(self).frames_spec(),
            final(self).active_spec() == old(self).active_spec(),
            final(self).closed_spec() == old(self).closed_spec(),
            final(self).closures_spec() == old(self).closures_spec(),
            final(self).commits_spec() == old(self).commits_spec(),
            final(self).manifests_spec() == old(self).manifests_spec(),
            final(self).seals_spec() == old(self).seals_spec(),
    {
        let active = match self.active_epoch {
            None => return Err(WalStoreError::NoActiveWriterEpoch),
            Some(a) => a,
        };
        if !writer_epoch_eq(&active.epoch_id, &epoch_id) || !writer_epoch_eq(&frame.header.writer_epoch, &epoch_id) {
            return Err(WalStoreError::WriterEpochMismatch);
        }
        match frame.validate_integrity() {
            Err(e) => return Err(WalStoreError::Validation(e)),
            Ok(()) => {},
        }
        self.frames.push(frame);
        Ok(())
    }

    /// Flushes a commit marker under the active writer epoch and records the
    /// epoch's final commit evidence.
    pub fn flush_commit(&mut self, epoch_id: WriterEpochId, commit: WalTransactionCommit) -> (r: Result<(), WalStoreError>)
        ensures
            old(self).active_spec() is None ==> r == Err::<(), WalStoreError>(WalStoreError::NoActiveWriterEpoch),
            old(self).active_spec() matches Some(a) ==> (if a.epoch_id != epoch_id || commit.writer_epoch != epoch_id {
                r == Err::<(), WalStoreError>(WalStoreError::WriterEpochMismatch)
            } else {
                r is Ok
            }),
            r is Ok ==> final(self).commits_spec() == old(self).commits_spec().push(commit)
                && closure_of(final(self).closures_spec(), epoch_id) == (WriterEpochClosure {
                    final_lsn: Some(commit.last_lsn),
                    final_commit_digest: Some(commit.commit_digest),
                })
                && forall|other: WriterEpochId| other != epoch_id ==> closure_of(final(self).closures_spec(), other)
                    == closure_of(old(self).closures_spec(), other),
            r is Err ==> final(self).commits_spec() == old(self).commits_spec()
                && final(self).closures_spec() == old(self).closures_spec(),
            final(self).active_spec() == old(self).active_spec(),
            final(self).closed_spec() == old(self).closed_spec(),
            final(self).frames_spec() == old(self).frames_spec(),
            final(self).manifests_spec() == old(self).manifests_spec(),
            final(self).seals_spec() == old(self).seals_spec(),
    {
        let active = match self.active_epoch {
            None => return Err(WalStoreError::NoActiveWriterEpoch),
            Some(a) => a,
        };
        if !writer_epoch_eq(&active.epoch_id, &epoch_id) || !writer_epoch_eq(&commit.writer_epoch, &epoch_id) {
            return Err(WalStoreError::WriterEpochMismatch);
        }
        let ghost before = self.epoch_closures@;
        self.epoch_closures.push((epoch_id, WriterEpochClosure {
            final_lsn: Some(commit.last_lsn),
            final_commit_digest: Some(commit.commit_digest),
        }));
        proof {
            assert(self.epoch_closures@.drop_last() =~= before);
        }
        self.commits.push(commit);
        Ok(())
    }

    /// Reads the recorded frames.
    pub fn read_frames(&self) -> (r: Vec<WalFrame>)
        ensures
            frames_view(r@) == frames_view(self.frames_spec()),
    {
        let mut out: Vec<WalFrame> = Vec::new();
        let mut i: usize = 0;
        while i < self.frames.len()
            invariant
                i <= self.frames@.len(),
                frames_view(out@) == frames_view(self.frames@.subrange(0, i as int)),
            decreases self.frames.len() - i,
        {
            let f = clone_frame(&self.frames[i]);
            let ghost before = out@;
            out.push(f);
            proof {
                assert(frames_view(out@) =~= frames_view(before).push(f@));
                assert(frames_view(self.frames@.subrange(0, i + 1)) =~= frames_view(self.frames@.subrange(0, i as int)).push(self.frames@[i as int]@));
            }
            i += 1;
        }
        assert(self.frames@.subrange(0, self.frames@.len() as int) =~= self.frames@);
        out
    }

    /// Reads the flushed commit markers.
    pub fn read_commits(&self) -> (r: Vec<WalTransactionCommit>)
        ensures
            r@ == self.commits_spec(),
    {
        let mut out: Vec<WalTransactionCommit> = Vec::new();
        let mut i: usize = 0;
        while i < self.commits.len()
            invariant
                i <= self.commits@.len(),
                out@ == self.commits@.subrange(0, i as int),
            decreases self.commits.len() - i,
        {
            out.push(self.commits[i]);
            i += 1;
            assert(out@ =~= self.commits@.subrange(0, i as int));
        }
        assert(self.commits@.subrange(0, self.commits@.len() as int) =~= self.commits@);
        out
    }

    /// Publishes a manifest under the active writer epoch.
    pub fn publish_manifest(&mut self, epoch_id: WriterEpochId, manifest: WalManifest) -> (r: Result<(), WalStoreError>)
        ensures
            old(self).active_spec() is None ==> r == Err::<(), WalStoreError>(WalStoreError::NoActiveWriterEpoch),
            old(self).active_spec() matches Some(a) ==> (if a.epoch_id != epoch_id {
                r == Err::<(), WalStoreError>(WalStoreError::WriterEpochMismatch)
            } else {
                r is Ok
            }),
            r is Ok ==> final(self).manifests_spec() == old(self).manifests_spec().push(manifest),
            r is Err ==> final(self).manifests_spec() == old(self).manifests_spec(),
            final(self).frames_spec() == old(self).frames_spec(),
            final(self).commits_spec() == old(self).commits_spec(),
    {
        let active = match self.active_epoch {
            None => return Err(WalStoreError::NoActiveWriterEpoch),
            Some(a) => a,
        };
        if !writer_epoch_eq(&active.epoch_id, &epoch_id) {
            return Err(WalStoreError::WriterEpochMismatch);
        }
        self.manifests.push(manifest);
        Ok(())
    }

    /// Closes the active writer epoch.
    pub fn close_epoch(&mut self, epoch_id: WriterEpochId) -> (r: Result<(), WalStoreError>)
        ensures
            old(self).active_spec() is None ==> r == Err::<(), WalStoreError>(WalStoreError::NoActiveWriterEpoch)
                && final(self).active_spec() is None,
            old(self).active_spec() matches Some(a) ==> (if a.epoch_id != epoch_id {
                r == Err::<(), WalStoreError>(WalStoreError::WriterEpochMismatch) && final(self).active_spec() == Some(a)
                    && final(self).closed_spec() == old(self).closed_spec()
            } else {
                r is Ok && final(self).active_spec() is None && final(self).closed_spec() == old(self).closed_spec().push(a)
            }),
            forall|id: WriterEpochId| closure_of(final(self).closures_spec(), id) == closure_of(old(self).closures_spec(), id),
            final(self).frames_spec() == old(self).frames_spec(),
            final(self).commits_spec() == old(self).commits_spec(),
    {
        let epoch = match self.active_epoch {
            None => return Err(WalStoreError::NoActiveWriterEpoch),
            Some(e) => e,
        };
        if !writer_epoch_eq(&epoch.epoch_id, &epoch_id) {
            return Err(WalStoreError::WriterEpochMismatch);
        }
        self.active_epoch = None;
        self.closed_epochs.push(epoch);
        Ok(())
    }

    /// Truncates the uncommitted tail: keeps exactly the frames at or before `after_lsn`.
    pub fn truncate_tail_after(&mut self, after_lsn: Lsn) -> (r: Result<(), WalStoreError>)
        ensures
            r is Ok,
            frames_view(final(self).frames_spec()) == frames_view(
                old(self).frames_spec().filter(|f: WalFrame| f.header.lsn.0 <= after_lsn.0),
            ),
            final(self).commits_spec() == old(self).commits_spec(),
    {
        let pred = |f: WalFrame| f.header.lsn.0 <= after_lsn.0;
        let mut kept: Vec<WalFrame> = Vec::new();
        let mut i: usize = 0;
        while i < self.frames.len()
            invariant
                i <= self.frames@.len(),
                frames_view(kept@) == frames_view(self.frames@.subrange(0, i as int).filter(|f: WalFrame| f.header.lsn.0 <= after_lsn.0)),
            decreases self.frames.len() - i,
        {
            proof {
                assert(self.frames@.subrange(0, i + 1) =~= self.frames@.subrange(0, i as int).push(self.frames@[i as int]));
                self.frames@.subrange(0, i as int).lemma_filter_push(self.frames@[i as int], |f: WalFrame| f.header.lsn.0 <= after_lsn.0);
            }
            if self.frames[i].header.lsn.0 <= after_lsn.0 {
                let g = clone_frame(&self.frames[i]);
                let ghost before = kept@;
                kept.push(g);
                proof {
                    assert(frames_view(kept@) =~= frames_view(before).push(g@));
                    let t = self.frames@.subrange(0, i as int).filter(|f: WalFrame| f.header.lsn.0 <= after_lsn.0);
                    assert(frames_view(t.push(self.frames@[i as int])) =~= frames_view(t).push(self.frames@[i as int]@));
                }
            }
            i += 1;
        }
        assert(self.frames@.subrange(0, self.frames@.len() as int) =~= self.frames@);
        self.frames = kept;
        Ok(())
    }

    /// Drops every recorded frame.
    fn clear_frames(&mut self)
        ensures
            final(self).frames_spec().len() == 0,
            final(self).commits_spec() == old(self).commits_spec(),
    {
        self.frames = Vec::new();
    }

    /// Appends a committed transaction: it must validate, then its frames are
    /// appended and its commit marker flushed under its writer epoch.
    pub fn append_transaction(&mut self, transaction: WalCommittedTransaction) -> (r: Result<(), WalStoreError>)
        ensures
            committed_transaction_spec(transaction) matches Err(e) ==> r == Err::<(), WalStoreError>(
                WalStoreError::Validation(e),
            ),
            committed_transaction_spec(transaction) is Ok ==> (match old(self).active_spec() {
                None => r == Err::<(), WalStoreError>(WalStoreError::NoActiveWriterEpoch),
                Some(a) => if a.epoch_id != transaction.commit.writer_epoch {
                    r == Err::<(), WalStoreError>(WalStoreError::WriterEpochMismatch)
                } else {
                    r is Ok
                },
            }),
            r is Ok ==> final(self).frames_spec() == old(self).frames_spec() + transaction.frames@
                && final(self).commits_spec() == old(self).commits_spec().push(transaction.commit)
                && closure_of(final(self).closures_spec(), transaction.commit.writer_epoch) == (WriterEpochClosure {
                    final_lsn: Some(transaction.commit.last_lsn),
                    final_commit_digest: Some(transaction.commit.commit_digest),
                })
                && forall|other: WriterEpochId| other != transaction.commit.writer_epoch ==> closure_of(
                    final(self).closures_spec(),
                    other,
                ) == closure_of(old(self).closures_spec(), other),
            r is Err ==> final(self).frames_spec() == old(self).frames_spec() && final(self).commits_spec()
                == old(self).commits_spec() && final(self).closures_spec() == old(self).closures_spec(),
            final(self).active_spec() == old(self).active_spec(),
            final(self).closed_spec() == old(self).closed_spec(),
            final(self).manifests_spec() == old(self).manifests_spec(),
            final(self).seals_spec() == old(self).seals_spec(),
    {
        match transaction.validate() {
            Err(e) => return Err(WalStoreError::Validation(e)),
            Ok(()) => {},
        }
        let epoch_id = transaction.commit.writer_epoch;
        let commit = transaction.commit;
        let ghost start = self.frames@;
        let ghost all = transaction.frames@;
        proof {
            lemma_valid_frames_each(all, commit, 0);
        }
        let mut pending = transaction.frames;
        let mut reversed: Vec<WalFrame> = Vec::new();
        while pending.len() > 0
            invariant
                all == pending@ + reversed@.reverse(),
            decreases pending.len(),
        {
            let ghost before_p = pending@;
            let ghost before_r = reversed@;
            let f = pending.pop().unwrap();
            reversed.push(f);
            proof {
                assert(reversed@.reverse() =~= seq![f] + before_r.reverse());
                assert(before_p =~= pending@.push(f));
                assert(all =~= pending@ + reversed@.reverse());
            }
        }
        assert(all =~= reversed@.reverse());
        while reversed.len() > 0
            invariant
                all.len() > 0,
                reversed@.len() <= all.len(),
                all == all.subrange(0, all.len() - reversed@.len()) + reversed@.reverse(),
                self.frames@ == start + all.subrange(0, all.len() - reversed@.len()),
                reversed@.len() < all.len() ==> (self.active_spec() matches Some(a) && a.epoch_id == epoch_id),
                self.active_spec() == old(self).active_spec(),
                self.closed_spec() == old(self).closed_spec(),
                self.closures_spec() == old(self).closures_spec(),
                self.commits_spec() == old(self).commits_spec(),
                self.manifests_spec() == old(self).manifests_spec(),
                self.seals_spec() == old(self).seals_spec(),
                start == old(self).frames_spec(),
                epoch_id == commit.writer_epoch,
                commit == transaction.commit,
                all == transaction.frames@,
                committed_transaction_spec(transaction) is Ok,
                forall|i: int| 0 <= i < all.len() ==> #[trigger] frame_position_error(all[i], i, commit) is None,
            decreases reversed.len(),
        {
            let ghost n = all.len() - reversed@.len();
            let ghost before_r = reversed@;
            let f = reversed.pop().unwrap();
            proof {
                assert(before_r.reverse() =~= seq![f] + reversed@.reverse());
                assert(all[n] == f) by {
                    assert(all[n] == (all.subrange(0, n) + before_r.reverse())[n]);
                }
                assert(frame_position_error(all[n], n, commit) is None);
            }
            match self.append_frame(epoch_id, f) {
                Err(e) => return Err(e),
                Ok(()) => {},
            }
            proof {
                assert(all.subrange(0, n + 1) =~= all.subrange(0, n).push(f));
                assert(all =~= all.subrange(0, n + 1) + reversed@.reverse());
            }
        }
        assert(all.subrange(0, all.len() as int) =~= all);
        self.flush_commit(epoch_id, commit)
    }
}

impl InMemoryWalStore {
    /// Appends a frame without a commit marker, leaving an uncommitted tail.
    pub fn append_uncommitted_frame(&mut self, epoch_id: WriterEpochId, frame: WalFrame) -> (r: Result<(), WalStoreError>)
        ensures
            old(self).active_spec() is None ==> r == Err::<(), WalStoreError>(WalStoreError::NoActiveWriterEpoch),
            old(self).active_spec() matches Some(a) ==> (if a.epoch_id != epoch_id || frame.header.writer_epoch != epoch_id {
                r == Err::<(), WalStoreError>(WalStoreError::WriterEpochMismatch)
            } else {
                match frame_integrity_spec(frame) {
                    Err(e) => r == Err::<(), WalStoreError>(WalStoreError::Validation(e)),
                    Ok(_) => r is Ok,
                }
            }),
            r is Ok ==> final(self).frames_spec() == old(self).frames_spec().push(frame),
            r is Err ==> final(self).frames_spec() == old(self).frames_spec(),
            final(self).active_spec() == old(self).active_spec(),
            final(self).closed_spec() == old(self).closed_spec(),
            final(self).closures_spec() == old(self).closures_spec(),
            final(self).commits_spec() == old(self).commits_spec(),
            final(self).manifests_spec() == old(self).manifests_spec(),
            final(self).seals_spec() == old(self).seals_spec(),
    {
        self.append_frame(epoch_id, frame)
    }

    /// Returns the published manifests.
    pub fn manifests(&self) -> (r: &[WalManifest])
        ensures
            r@ == self.manifests_spec(),
    {
        self.manifests.as_slice()
    }

    /// Seals a segment under the active writer epoch: the seal carries the
    /// highest LSN among the segment's frames and the digest over them.
    pub fn seal_segment(&mut self, epoch_id: WriterEpochId, segment_id: WalSegmentId) -> (r: Result<WalSegmentSeal, WalStoreError>)
        ensures
            old(self).active_spec() is None ==> r == Err::<WalSegmentSeal, WalStoreError>(WalStoreError::NoActiveWriterEpoch),
            old(self).active_spec() matches Some(a) ==> (if a.epoch_id != epoch_id {
                r == Err::<WalSegmentSeal, WalStoreError>(WalStoreError::WriterEpochMismatch)
            } else {
                r is Ok
            }),
            r matches Ok(seal) ==> {
                &&& seal.segment_id == segment_id
                &&& seal.sealed_lsn == max_lsn(segment_frames(old(self).frames_spec(), segment_id))
                &&& seal.segment_digest@ == segment_digest_spec(segment_id, segment_frames(old(self).frames_spec(), segment_id))
                &&& final(self).seals_spec() == old(self).seals_spec().push(seal)
            },
            r is Err ==> final(self).seals_spec() == old(self).seals_spec(),
            final(self).active_spec() == old(self).active_spec(),
            final(self).closed_spec() == old(self).closed_spec(),
            final(self).closures_spec() == old(self).closures_spec(),
            final(self).frames_spec() == old(self).frames_spec(),
            final(self).commits_spec() == old(self).commits_spec(),
            final(self).manifests_spec() == old(self).manifests_spec(),
    {
        let active = match self.active_epoch {
            None => return Err(WalStoreError::NoActiveWriterEpoch),
            Some(a) => a,
        };
        if !writer_epoch_eq(&active.epoch_id, &epoch_id) {
            return Err(WalStoreError::WriterEpochMismatch);
        }
        let mut selected: Vec<WalFrame> = Vec::new();
        let mut sealed_lsn: Option<Lsn> = None;
        let mut i: usize = 0;
        while i < self.frames.len()
            invariant
                i <= self.frames@.len(),
                frames_view(selected@) == frames_view(segment_frames(self.frames@.subrange(0, i as int), segment_id)),
                sealed_lsn == max_lsn(segment_frames(self.frames@.subrange(0, i as int), segment_id)),
            decreases self.frames.len() - i,
        {
            let ghost t = segment_frames(self.frames@.subrange(0, i as int), segment_id);
            proof {
                assert(self.frames@.subrange(0, i + 1) =~= self.frames@.subrange(0, i as int).push(self.frames@[i as int]));
                self.frames@.subrange(0, i as int).lemma_filter_push(self.frames@[i as int], in_segment(segment_id));
            }
            if self.frames[i].header.segment_id.0 == segment_id.0 {
                let lsn = self.frames[i].header.lsn;
                let g = clone_frame(&self.frames[i]);
                let ghost before = selected@;
                selected.push(g);
                sealed_lsn = match sealed_lsn {
                    None => Some(lsn),
                    Some(m) => if lsn.0 > m.0 { Some(lsn) } else { Some(m) },
                };
                proof {
                    assert(frames_view(selected@) =~= frames_view(before).push(g@));
                    assert(frames_view(t.push(self.frames@[i as int])) =~= frames_view(t).push(self.frames@[i as int]@));
                    assert(t.push(self.frames@[i as int]).drop_last() =~= t);
                }
            }
            i += 1;
        }
        assert(self.frames@.subrange(0, self.frames@.len() as int) =~= self.frames@);
        let digest = segment_digest(segment_id, selected.as_slice());
        proof {
            lemma_digests_of_view(selected@, segment_frames(self.frames@, segment_id));
        }
        let seal = WalSegmentSeal { segment_id, sealed_lsn, segment_digest: digest };
        self.sealed_segments.push(seal);
        Ok(seal)
    }
}

/// Whether a frame belongs to segment `id`.
pub open spec fn in_segment(id: WalSegmentId) -> spec_fn(WalFrame) -> bool {
    |f: WalFrame| f.header.segment_id == id
}

/// The frames of segment `id`, in recorded order.
pub open spec fn segment_frames(frames: Seq<WalFrame>, id: WalSegmentId) -> Seq<WalFrame> {
    frames.filter(in_segment(id))
}

/// The highest LSN among `frames`, if any.
pub open spec fn max_lsn(frames: Seq<WalFrame>) -> Option<Lsn>
    decreases frames.len(),
{
    if frames.len() == 0 {
        None
    } else {
        match max_lsn(frames.drop_last()) {
            None => Some(frames.last().header.lsn),
            Some(m) => if frames.last().header.lsn.0 > m.0 {
                Some(frames.last().header.lsn)
            } else {
                Some(m)
            },
        }
    }
}

pub proof fn lemma_digests_of_view(a: Seq<WalFrame>, b: Seq<WalFrame>)
    requires
        frames_view(a) == frames_view(b),
    ensures
        a.len() == b.len(),
        digests_of(a) == digests_of(b),
    decreases a.len(),
{
    assert(frames_view(a).len() == a.len());
    assert(frames_view(b).len() == b.len());
    if a.len() > 0 {
        assert(frames_view(a.drop_last()) =~= frames_view(a).drop_last());
        assert(frames_view(b.drop_last()) =~= frames_view(b).drop_last());
        lemma_digests_of_view(a.drop_last(), b.drop_last());
        assert(frames_view(a)[a.len() - 1] == a.last()@);
        assert(frames_view(b)[b.len() - 1] == b.last()@);
        lemma_frame_view_congruence(a.last(), b.last());
    }
}

/// Scans an in-memory store for recoverable transactions. Writable recovery
/// then drops the uncommitted tail: every frame past the last commit, or every
/// frame when nothing was committed.
pub fn recover_in_memory_store(store: &mut InMemoryWalStore, mode: RecoveryAccessMode) -> (r: Result<RecoveryScanReport, WalRecoveryError>)
    ensures
        recovery_outcome(old(store).frames_spec(), old(store).commits_spec(), mode, r),
        r matches Ok(rep) ==> (match (mode, rep.tail_posture) {
            (RecoveryAccessMode::Writable, RecoveryTailPosture::TruncatedAfter(l)) => frames_view(final(store).frames_spec())
                == frames_view(old(store).frames_spec().filter(|f: WalFrame| f.header.lsn.0 <= l.0)),
            (RecoveryAccessMode::Writable, RecoveryTailPosture::TruncatedAll) => final(store).frames_spec().len() == 0,
            _ => final(store).frames_spec() == old(store).frames_spec(),
        }),
        r is Err ==> final(store).frames_spec() == old(store).frames_spec(),
        final(store).commits_spec() == old(store).commits_spec(),
{
    let report = recover_from_frames_and_commits(store.frames.as_slice(), store.commits.as_slice(), mode);
    let report = match report {
        Err(e) => return Err(e),
        Ok(rep) => rep,
    };
    match (mode, report.tail_posture) {
        (RecoveryAccessMode::Writable, RecoveryTailPosture::TruncatedAfter(lsn)) => {
            match store.truncate_tail_after(lsn) {
                Err(e) => return Err(WalRecoveryError::Store(e)),
                Ok(()) => {},
            }
        },
        (RecoveryAccessMode::Writable, RecoveryTailPosture::TruncatedAll) => {
            store.clear_frames();
        },
        _ => {},
    }
    Ok(report)
}

/// Every frame of a sequence with no per-frame error from `j` on passes its per-frame checks.
proof fn lemma_valid_frames_each(frames: Seq<WalFrame>, c: WalTransactionCommit, j: int)
    requires
        0 <= j,
        first_frame_error_from(frames, c, j) is None,
    ensures
        forall|i: int| j <= i < frames.len() ==> #[trigger] frame_position_error(frames[i], i, c) is None,
    decreases frames.len() - j,
{
    if j < frames.len() {
        lemma_valid_frames_each(frames, c, j + 1);
    }
}

/// WAL storage port: the operations a durable store offers the writer and
/// recovery. The in-memory store implements it with the contracts of its own
/// methods; other stores implement it outside this crate.
pub trait WalStorePort {
    /// Acquires a writer epoch.
    fn acquire_writer_epoch(&mut self, request: WriterEpochRequest) -> Result<WriterEpoch, WalStoreError>;

    /// Appends a frame.
    fn append_frame(&mut self, epoch_id: WriterEpochId, frame: WalFrame) -> Result<(), WalStoreError>;

    /// Flushes a transaction commit marker under the store's durability mode.
    fn flush_commit(&mut self, epoch_id: WriterEpochId, commit: WalTransactionCommit) -> Result<(), WalStoreError>;

    /// Reads the recorded frames.
    fn read_frames(&self) -> Vec<WalFrame>;

    /// Reads the flushed commit markers.
    fn read_commits(&self) -> Vec<WalTransactionCommit>;

    /// Seals a segment.
    fn seal_segment(&mut self, epoch_id: WriterEpochId, segment_id: WalSegmentId) -> Result<WalSegmentSeal, WalStoreError>;

    /// Truncates the uncommitted tail after the given LSN.
    fn truncate_tail_after(&mut self, after_lsn: Lsn) -> Result<(), WalStoreError>;

    /// Publishes a manifest.
    fn publish_manifest(&mut self, epoch_id: WriterEpochId, manifest: WalManifest) -> Result<(), WalStoreError>;

    /// Closes the writer epoch.
    fn close_epoch(&mut self, epoch_id: WriterEpochId) -> Result<(), WalStoreError>;
}

impl WalStorePort for InMemoryWalStore {
    fn acquire_writer_epoch(&mut self, request: WriterEpochRequest) -> (r: Result<WriterEpoch, WalStoreError>)
        ensures
            r == epoch_request_outcome(old(self).active_spec(), old(self).closed_spec(), old(self).closures_spec(), request),
            r matches Ok(e) ==> final(self).active_spec() == Some(e),
            r is Err ==> final(self).active_spec() == old(self).active_spec(),
            final(self).frames_spec() == old(self).frames_spec(),
            final(self).commits_spec() == old(self).commits_spec(),
    {
        InMemoryWalStore::acquire_writer_epoch(self, request)
    }

    fn append_frame(&mut self, epoch_id: WriterEpochId, frame: WalFrame) -> (r: Result<(), WalStoreError>)
        ensures
            old(self).active_spec() is None ==> r == Err::<(), WalStoreError>(WalStoreError::NoActiveWriterEpoch),
            old(self).active_spec() matches Some(a) ==> (if a.epoch_id != epoch_id || frame.header.writer_epoch != epoch_id {
                r == Err::<(), WalStoreError>(WalStoreError::WriterEpochMismatch)
            } else {
                match frame_integrity_spec(frame) {
                    Err(e) => r == Err::<(), WalStoreError>(WalStoreError::Validation(e)),
                    Ok(_) => r is Ok,
                }
            }),
            r is Ok ==> final(self).frames_spec() == old(self).frames_spec().push(frame),
            r is Err ==> final(self).frames_spec() == old(self).frames_spec(),
            final(self).commits_spec() == old(self).commits_spec(),
    {
        InMemoryWalStore::append_frame(self, epoch_id, frame)
    }

    fn flush_commit(&mut self, epoch_id: WriterEpochId, commit: WalTransactionCommit) -> (r: Result<(), WalStoreError>)
        ensures
            old(self).active_spec() is None ==> r == Err::<(), WalStoreError>(WalStoreError::NoActiveWriterEpoch),
            old(self).active_spec() matches Some(a) ==> (if a.epoch_id != epoch_id || commit.writer_epoch != epoch_id {
                r == Err::<(), WalStoreError>(WalStoreError::WriterEpochMismatch)
            } else {
                r is Ok
            }),
            r is Ok ==> final(self).commits_spec() == old(self).commits_spec().push(commit),
            r is Err ==> final(self).commits_spec() == old(self).commits_spec(),
            final(self).frames_spec() == old(self).frames_spec(),
    {
        InMemoryWalStore::flush_commit(self, epoch_id, commit)
    }

    fn read_frames(&self) -> (r: Vec<WalFrame>)
        ensures
            frames_view(r@) == frames_view(self.frames_spec()),
    {
        InMemoryWalStore::read_frames(self)
    }

    fn read_commits(&self) -> (r: Vec<WalTransactionCommit>)
        ensures
            r@ == self.commits_spec(),
    {
        InMemoryWalStore::read_commits(self)
    }

    fn seal_segment(&mut self, epoch_id: WriterEpochId, segment_id: WalSegmentId) -> (r: Result<WalSegmentSeal, WalStoreError>)
        ensures
            old(self).active_spec() is None ==> r == Err::<WalSegmentSeal, WalStoreError>(WalStoreError::NoActiveWriterEpoch),
            old(self).active_spec() matches Some(a) ==> (if a.epoch_id != epoch_id {
                r == Err::<WalSegmentSeal, WalStoreError>(WalStoreError::WriterEpochMismatch)
            } else {
                r is Ok
            }),
            r matches Ok(seal) ==> {
                &&& seal.segment_id == segment_id
                &&& seal.sealed_lsn == max_lsn(segment_frames(old(self).frames_spec(), segment_id))
                &&& seal.segment_digest@ == segment_digest_spec(segment_id, segment_frames(old(self).frames_spec(), segment_id))
                &&& final(self).seals_spec() == old(self).seals_spec().push(seal)
            },
            final(self).frames_spec() == old(self).frames_spec(),
            final(self).commits_spec() == old(self).commits_spec(),
    {
        InMemoryWalStore::seal_segment(self, epoch_id, segment_id)
    }

    fn truncate_tail_after(&mut self, after_lsn: Lsn) -> (r: Result<(), WalStoreError>)
        ensures
            r is Ok,
            frames_view(final(self).frames_spec()) == frames_view(
                old(self).frames_spec().filter(|f: WalFrame| f.header.lsn.0 <= after_lsn.0),
            ),
            final(self).commits_spec() == old(self).commits_spec(),
    {
        InMemoryWalStore::truncate_tail_after(self, after_lsn)
    }

    fn publish_manifest(&mut self, epoch_id: WriterEpochId, manifest: WalManifest) -> (r: Result<(), WalStoreError>)
        ensures
            old(self).active_spec() is None ==> r == Err::<(), WalStoreError>(WalStoreError::NoActiveWriterEpoch),
            old(self).active_spec() matches Some(a) ==> (if a.epoch_id != epoch_id {
                r == Err::<(), WalStoreError>(WalStoreError::WriterEpochMismatch)
            } else {
                r is Ok
            }),
            r is Ok ==> final(self).manifests_spec() == old(self).manifests_spec().push(manifest),
            r is Err ==> final(self).manifests_spec() == old(self).manifests_spec(),
            final(self).frames_spec() == old(self).frames_spec(),
            final(self).commits_spec() == old(self).commits_spec(),
    {
        InMemoryWalStore::publish_manifest(self, epoch_id, manifest)
    }

    fn close_epoch(&mut self, epoch_id: WriterEpochId) -> (r: Result<(), WalStoreError>)
        ensures
            old(self).active_spec() is None ==> r == Err::<(), WalStoreError>(WalStoreError::NoActiveWriterEpoch)
                && final(self).active_spec() is None,
            old(self).active_spec() matches Some(a) ==> (if a.epoch_id != epoch_id {
                r == Err::<(), WalStoreError>(WalStoreError::WriterEpochMismatch) && final(self).active_spec() == Some(a)
                    && final(self).closed_spec() == old(self).closed_spec()
            } else {
                r is Ok && final(self).active_spec() is None && final(self).closed_spec() == old(self).closed_spec().push(a)
            }),
            final(self).frames_spec() == old(self).frames_spec(),
            final(self).commits_spec() == old(self).commits_spec(),
    {
        InMemoryWalStore::close_epoch(self, epoch_id)
    }
}

} // verus!
