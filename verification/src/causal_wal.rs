//! Causal write-ahead log: records are recorded, transactions are committed,
//! and history begins at the transaction commit marker.
//!
//! This module holds the identifiers, enumerations and record shapes; the
//! frame and commit digests, the transaction builder, recovery scanning and
//! the payload codecs live in its child modules.
use vstd::prelude::*;
use crate::ident::hash_eq;

pub mod kinds;
pub mod frame;
pub mod builder;
pub mod recovery;
pub mod anchor_admission;
pub mod records;
pub mod store;
pub mod digest_map;
pub mod indexes;
pub mod index_recovery;
pub mod transactions;
pub mod projection;
pub mod recovery_projection;
pub mod projection_graph;
pub mod recovery_plan;
pub mod outbox;
pub mod operations;
pub mod replay;
pub mod lint;
pub mod topology_codec;
pub mod topology;
pub mod topology_fork;
pub mod topology_index;
pub mod topology_root;
pub mod durability;
pub mod segment_codec;
pub mod segment_bytes;
pub mod manifest_file;
pub mod segment_names;
pub mod checkpoint_file;


pub use kinds::{
    AffectedFrontierKind, WalAppendAuthority, WalCompressionKind, WalDurabilityMode,
    WalRecordKind, WalRedactionPosture, WalTransactionKind,
};
pub use builder::WalTransactionBuilder;
pub use anchor_admission::{
    build_causal_anchor_admission_transaction, recover_causal_anchor_admissions,
    RecoveredCausalAnchorAdmission,
};
pub use recovery::{
    recover_from_frames_and_commits, RecoveryAccessMode, RecoveryScanReport,
    RecoveryTailPosture, WalRecoveredTransaction,
};
pub use records::{
    inspect_evidence_material_posture, missing_material_scope, CheckpointPublicationRecord, CheckpointRecord,
    CheckpointValidationPosture, EvidenceMaterialPosture, ExistingMaterializedArtifact, MaterialInspectionPosture,
    MaterializationIntentRecord, MaterializationObservationRecord, MaterializationReplayPosture, MissingMaterialScope,
    ReadingRefRecord, RecoveredSubmissionPosture, RecoveryCertificate, RetainedMaterialKind, RetainedMaterialObstruction,
    RetainedMaterialRecord, SubmissionAcceptanceRecord, SubmissionRetryPosture, TickReceiptRecord,
    TopologyImportOutcomeKind, WalReceiptCorrelationRecord, WalTickDecision,
};
pub use store::{
    next_segment_id, recover_in_memory_store, segment_digest, validate_filesystem_strict_sync_evidence,
    validate_segment_placement_policy, wal_crashpoint_manifest, FilesystemSyncBoundary, FilesystemSyncEvidence,
    FilesystemSyncEvidenceError, InMemoryWalStore, WalCrashpointBoundary, WalCrashpointDescriptor,
    WalCrashpointExecution, WalManifest, WalSegmentIdError, WalSegmentPlacementKind, WalSegmentPlacementPolicy,
    WalSegmentPlacementPolicyError, WalSegmentSeal, WalStoreError, WriterEpoch, WriterEpochClosure, WriterEpochRequest,
};
pub use indexes::{
    recovered_submission_receipt_index_root, RecoveredReceiptIndex, RecoveredRetentionIndex,
    RecoveredRetentionIndexError, RecoveredSubmissionEntry, RecoveredSubmissionIndex,
};
pub use digest_map::DigestMap;
pub use durability::{rebuild_durability_indexes_after_recovery, RecoveredDurabilityIndexes};
pub use segment_codec::{decode_commit, decode_frame, encode_commit, encode_frame};
pub use segment_bytes::{
    encode_commit_record, encode_frame_record, encode_segment_record, read_segment_bytes, recover_wal_segment_bytes,
    WalSegmentBytesRecovery, COMMIT_RECORD_KIND, FRAME_RECORD_KIND,
};
pub use manifest_file::{decode_manifest, encode_manifest, validate_manifest_against_segments, WalManifestValidationReport};
pub use segment_names::{
    canonical_segment_relative_path, parse_segment_file_name, segment_file_name, segment_manifest_entry,
    validate_segment_run, WalSegmentManifestEntry,
};
pub use store::WalStorePort;
pub use topology_index::{RecoveredTopologyIndex, TopologyIntentRecord};
pub use frame::{
    AffectedFrontier, WalCommittedTransaction, WalFrame, WalFrameHeader, WalFrameTrailer,
    WalRecordPayload, WalTransactionCommit,
};


verus! {

/// Current causal WAL version.
pub const CAUSAL_WAL_VERSION: u16 = 1;

/// Logical sequence number assigned to a WAL frame.
#[derive(Clone, Copy, Debug, Default, PartialEq, Eq, PartialOrd, Ord, Hash, Structural)]
pub struct Lsn(pub u64);

impl Lsn {
    /// Builds an LSN from its raw value.
    pub fn from_raw(raw: u64) -> (r: Self)
        ensures
            r.0 == raw,
    {
        Lsn(raw)
    }

    /// Returns the raw LSN value.
    pub fn as_u64(self) -> (r: u64)
        ensures
            r == self.0,
    {
        self.0
    }

    /// Returns the next LSN, or `None` on overflow.
    pub fn checked_next(self) -> (r: Option<Self>)
        ensures
            self.0 < u64::MAX ==> r == Some(Lsn((self.0 + 1) as u64)),
            self.0 == u64::MAX ==> r is None,
    {
        if self.0 < u64::MAX {
            Some(Lsn(self.0 + 1))
        } else {
            None
        }
    }
}

/// Stable identifier for a WAL transaction.
#[derive(Clone, Copy, Debug, PartialEq, Eq, PartialOrd, Ord, Hash)]
pub struct WalTransactionId(pub crate::ident::Hash);

impl WalTransactionId {
    /// Builds a transaction id from a canonical digest.
    pub fn from_hash(hash: crate::ident::Hash) -> (r: Self)
        ensures
            r.0 == hash,
    {
        WalTransactionId(hash)
    }

    /// Returns the canonical transaction id bytes.
    pub fn as_hash(self) -> (r: crate::ident::Hash)
        ensures
            r == self.0,
    {
        self.0
    }
}

/// Stable identifier for a writer epoch.
#[derive(Clone, Copy, Debug, PartialEq, Eq, PartialOrd, Ord, Hash)]
pub struct WriterEpochId(pub crate::ident::Hash);

impl WriterEpochId {
    /// Builds an epoch id from a canonical digest.
    pub fn from_hash(hash: crate::ident::Hash) -> (r: Self)
        ensures
            r.0 == hash,
    {
        WriterEpochId(hash)
    }

    /// Returns the canonical epoch id bytes.
    pub fn as_hash(self) -> (r: crate::ident::Hash)
        ensures
            r == self.0,
    {
        self.0
    }
}

/// Stable identifier for a WAL segment.
#[derive(Clone, Copy, Debug, Default, PartialEq, Eq, PartialOrd, Ord, Hash, Structural)]
pub struct WalSegmentId(pub u64);

impl WalSegmentId {
    /// Builds a segment id from its raw value.
    pub fn from_raw(raw: u64) -> (r: Self)
        ensures
            r.0 == raw,
    {
        WalSegmentId(raw)
    }

    /// Returns the raw segment id.
    pub fn as_u64(self) -> (r: u64)
        ensures
            r == self.0,
    {
        self.0
    }
}

/// Position of a frame inside its transaction.
#[derive(Clone, Copy, Debug, Default, PartialEq, Eq, PartialOrd, Ord, Hash, Structural)]
pub struct TransactionLocalIndex(pub u32);

impl TransactionLocalIndex {
    /// Builds a transaction-local frame index from its raw value.
    pub fn from_raw(raw: u32) -> (r: Self)
        ensures
            r.0 == raw,
    {
        TransactionLocalIndex(raw)
    }

    /// Returns the raw transaction-local frame index.
    pub fn as_u32(self) -> (r: u32)
        ensures
            r == self.0,
    {
        self.0
    }

    /// Returns the next local index, or `None` on overflow.
    pub fn checked_next(self) -> (r: Option<Self>)
        ensures
            self.0 < u32::MAX ==> r == Some(TransactionLocalIndex((self.0 + 1) as u32)),
            self.0 == u32::MAX ==> r is None,
    {
        if self.0 < u32::MAX {
            Some(TransactionLocalIndex(self.0 + 1))
        } else {
            None
        }
    }
}

/// Identity of the canonical payload codec.
#[derive(Clone, Copy, Debug, PartialEq, Eq, PartialOrd, Ord, Hash)]
pub struct PayloadCodecId(pub crate::ident::Hash);

impl PayloadCodecId {
    /// Builds a codec id from a hash.
    pub fn from_hash(hash: crate::ident::Hash) -> (r: Self)
        ensures
            r.0 == hash,
    {
        PayloadCodecId(hash)
    }

    /// Returns the codec id bytes.
    pub fn as_hash(self) -> (r: crate::ident::Hash)
        ensures
            r == self.0,
    {
        self.0
    }
}

/// Identity of the payload schema.
#[derive(Clone, Copy, Debug, PartialEq, Eq, PartialOrd, Ord, Hash)]
pub struct PayloadSchemaId(pub crate::ident::Hash);

impl PayloadSchemaId {
    /// Builds a schema id from a hash.
    pub fn from_hash(hash: crate::ident::Hash) -> (r: Self)
        ensures
            r.0 == hash,
    {
        PayloadSchemaId(hash)
    }

    /// Returns the schema id bytes.
    pub fn as_hash(self) -> (r: crate::ident::Hash)
        ensures
            r == self.0,
    {
        self.0
    }
}

/// WAL build errors.
#[derive(Clone, Copy, Debug, PartialEq, Eq)]
pub enum WalBuildError {
    /// Transaction already closed.
    TransactionClosed,
    /// Record requires a different append authority.
    WrongAppendAuthority {
        /// Record kind.
        record_kind: WalRecordKind,
        /// Required authority.
        required: WalAppendAuthority,
        /// Actual authority.
        actual: WalAppendAuthority,
    },
    /// LSN overflow.
    LsnOverflow,
    /// Transaction-local index overflow.
    TransactionLocalIndexOverflow,
    /// Empty transaction.
    EmptyTransaction,
    /// Validation failed.
    Validation(WalValidationError),
}

/// WAL validation errors.
#[derive(Clone, Copy, Debug, PartialEq, Eq, Structural)]
pub enum WalValidationError {
    /// Frame payload kind does not match header kind.
    RecordKindMismatch,
    /// Payload digest mismatch.
    PayloadDigestMismatch,
    /// Header checksum mismatch.
    HeaderChecksumMismatch,
    /// Frame checksum mismatch.
    FrameChecksumMismatch,
    /// Record kind does not match transaction kind authority.
    RecordAuthorityMismatch,
    /// Transaction contains no frames.
    EmptyTransaction,
    /// Frame transaction id mismatch.
    TransactionIdMismatch,
    /// Frame writer epoch mismatch.
    WriterEpochMismatch,
    /// Transaction local index mismatch.
    TransactionLocalIndexMismatch,
    /// Transaction LSN continuity mismatch.
    LsnContinuityMismatch,
    /// First LSN mismatch.
    FirstLsnMismatch,
    /// Last LSN mismatch.
    LastLsnMismatch,
    /// Record count mismatch.
    RecordCountMismatch,
    /// Records root mismatch.
    RecordsRootMismatch,
    /// Affected frontiers root mismatch.
    AffectedFrontiersRootMismatch,
    /// Commit digest mismatch.
    CommitDigestMismatch,
    /// Affected frontier kind does not match transaction kind.
    FrontierTransitionKindMismatch,
}

/// WAL payload decode errors.
#[derive(Clone, Copy, Debug, PartialEq, Eq)]
pub enum WalDecodeError {
    /// Payload ended before the expected field could be decoded.
    UnexpectedEof,
    /// Payload contained trailing bytes.
    TrailingBytes,
    /// Payload contained an unknown enum code.
    UnknownEnumCode {
        /// Enum name.
        enum_name: &'static str,
        /// Unknown code.
        code: u8,
    },
    /// Encoded frame failed embedded integrity validation.
    InvalidEmbeddedFrame,
}

/// WAL recovered index errors.
#[derive(Clone, Copy, Debug, PartialEq, Eq)]
pub enum WalRecoveryIndexError {
    /// Payload decode failed.
    Decode(WalDecodeError),
    /// Submission id was reused with a different canonical envelope digest.
    SubmissionEnvelopeConflict {
        /// Conflicting submission id.
        submission_id: crate::ident::Hash,
    },
    /// Strand fork evidence conflicted for one strand id.
    ConflictingStrandFork {
        /// Conflicting strand id.
        strand_id: crate::ident::StrandId,
    },
    /// Strand drop evidence conflicted for one strand id.
    ConflictingStrandDrop {
        /// Conflicting strand id.
        strand_id: crate::ident::StrandId,
    },
    /// Child-worldline ancestry conflicted.
    ConflictingChildWorldline {
        /// Conflicting child worldline id.
        child_worldline_id: crate::ident::WorldlineId,
    },
    /// Braid event evidence conflicted at one event index.
    ConflictingBraidEvent {
        /// Conflicting braid id.
        braid_id: crate::ident::Hash,
        /// Conflicting event index.
        event_index: u64,
    },
    /// Braid shell retention evidence conflicted for one digest.
    ConflictingBraidShell {
        /// Conflicting shell digest.
        shell_digest: crate::ident::Hash,
    },
    /// Suffix import evidence conflicted for one import id.
    ConflictingSuffixImport {
        /// Conflicting import id.
        import_id: crate::ident::Hash,
    },
    /// Suffix import idempotency key mapped to conflicting imports.
    ConflictingSuffixImportIdempotency {
        /// Conflicting idempotency key digest.
        idempotency_key_digest: crate::ident::Hash,
    },
    /// Suffix import bundle digest mapped to conflicting imports.
    ConflictingSuffixImportBundle {
        /// Conflicting bundle digest.
        bundle_digest: crate::ident::Hash,
    },
    /// A causal-anchor admission transaction has no fact frame.
    MissingCausalAnchorFactFrame {
        /// Transaction missing the frame.
        transaction_id: WalTransactionId,
    },
    /// A causal-anchor admission transaction has no receipt frame.
    MissingCausalAnchorAdmissionReceiptFrame {
        /// Transaction missing the frame.
        transaction_id: WalTransactionId,
    },
    /// A causal-anchor admission transaction has more than one fact frame.
    DuplicateCausalAnchorFactFrame {
        /// Transaction repeating the frame.
        transaction_id: WalTransactionId,
    },
    /// A causal-anchor admission transaction has more than one receipt frame.
    DuplicateCausalAnchorAdmissionReceiptFrame {
        /// Transaction repeating the frame.
        transaction_id: WalTransactionId,
    },
    /// The receipt frame precedes the fact frame.
    NonCanonicalCausalAnchorAdmissionFrameOrder {
        /// Transaction with the out-of-order frames.
        transaction_id: WalTransactionId,
    },
    /// A causal-anchor payload failed to decode or cross-check.
    CausalAnchorPayload(crate::causal_anchor::CausalAnchorError),
}

/// WAL recovery errors.
#[derive(Clone, Debug, PartialEq, Eq)]
pub enum WalRecoveryError {
    /// Validation failed.
    Validation(WalValidationError),
    /// Store operation failed.
    Store(crate::causal_wal::store::WalStoreError),
    /// Recovered index construction failed.
    Index(WalRecoveryIndexError),
}

/// Exact equality of two transaction ids.
pub fn transaction_id_eq(a: &WalTransactionId, b: &WalTransactionId) -> (r: bool)
    ensures
        r == (*a == *b),
{
    hash_eq(&a.0, &b.0)
}

/// Exact equality of two writer epoch ids.
pub fn writer_epoch_eq(a: &WriterEpochId, b: &WriterEpochId) -> (r: bool)
    ensures
        r == (*a == *b),
{
    hash_eq(&a.0, &b.0)
}

/// Saturating conversion of a length to `u64`.
pub fn len_u64(len: usize) -> (r: u64)
    ensures
        r == len,
{
    len as u64
}

} // verus!
