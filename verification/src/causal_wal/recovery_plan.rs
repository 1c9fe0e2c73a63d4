//! Recovery plan records tying bootstrap, replay, retention and projection
//! evidence together.
use vstd::prelude::*;
use crate::causal_wal::index_recovery::{material_obstructions, retained_material_obstructions};
use crate::causal_wal::indexes::RecoveredRetentionIndex;
use crate::causal_wal::projection::{root_identity, WalRoot};
use crate::causal_wal::records::{CheckpointValidationPosture, RecoveryCertificate};
use crate::causal_wal::recovery::{max_last_lsn, min_first_lsn, RecoveryScanReport, RecoveryTailPosture};
use crate::causal_wal::recovery_projection::{last_commit_digest_spec, WalRecoveryProjection, WalRecoveryProjectionPosture};
use crate::causal_wal::store::WalManifest;
use crate::causal_wal::{len_u64, Lsn};
use crate::keyset::KeySet;

verus! {

/// Bootstrap evidence used to start a recovery plan.
#[derive(Clone, Copy, Debug, PartialEq, Eq)]
pub enum WalRecoveryBootstrapSource {
    /// Recovery started from an already projected WAL root.
    WalRoot {
        /// Projection root digest.
        root_digest: crate::ident::Hash,
        /// Stable identity digest of the projected root.
        root_identity_digest: crate::ident::Hash,
    },
    /// Recovery started from storage manifest evidence.
    StorageManifest {
        /// Published manifest digest.
        manifest_digest: crate::ident::Hash,
    },
}

impl WalRecoveryBootstrapSource {
    /// Bootstrap evidence from a projected WAL root.
    pub fn from_wal_root(root: &WalRoot) -> (r: Self)
        ensures
            r == (WalRecoveryBootstrapSource::WalRoot {
                root_digest: root.root_digest,
                root_identity_digest: root_identity(*root),
            }),
    {
        WalRecoveryBootstrapSource::WalRoot { root_digest: root.root_digest, root_identity_digest: root.identity_digest() }
    }

    /// Bootstrap evidence from a storage manifest.
    pub fn from_manifest(manifest: &WalManifest) -> (r: Self)
        ensures
            r == (WalRecoveryBootstrapSource::StorageManifest { manifest_digest: manifest.manifest_digest }),
    {
        WalRecoveryBootstrapSource::StorageManifest { manifest_digest: manifest.manifest_digest }
    }
}

/// Checkpoint selection posture for a recovery plan.
#[derive(Clone, Copy, Debug, PartialEq, Eq)]
pub enum WalRecoveryCheckpointPosture {
    /// Recovery did not use a checkpoint base.
    NotSelected,
    /// Recovery selected a checkpoint and records its validation posture.
    Selected {
        /// Selected checkpoint digest.
        checkpoint_digest: crate::ident::Hash,
        /// Validation posture for the selected checkpoint.
        validation: CheckpointValidationPosture,
    },
}

/// Committed WAL suffix replayed by a recovery plan.
#[derive(Clone, Copy, Debug, PartialEq, Eq)]
pub struct WalRecoveryReplaySuffix {
    /// First committed LSN replayed.
    pub first_lsn: Option<Lsn>,
    /// Last committed LSN replayed.
    pub last_lsn: Option<Lsn>,
    /// Number of committed transactions replayed.
    pub committed_transactions: u64,
    /// Final committed transaction digest.
    pub final_commit_digest: Option<crate::ident::Hash>,
}

/// The replay suffix of a recovery scan.
pub open spec fn replay_suffix_of(report: RecoveryScanReport) -> WalRecoveryReplaySuffix {
    WalRecoveryReplaySuffix {
        first_lsn: min_first_lsn(report.transactions@),
        last_lsn: max_last_lsn(report.transactions@),
        committed_transactions: report.transactions@.len() as u64,
        final_commit_digest: last_commit_digest_spec(report.transactions@),
    }
}

impl WalRecoveryReplaySuffix {
    /// Replay suffix evidence from a recovery scan report.
    pub fn from_report(report: &RecoveryScanReport) -> (r: Self)
        ensures
            r == replay_suffix_of(*report),
    {
        WalRecoveryReplaySuffix {
            first_lsn: report.first_committed_lsn(),
            last_lsn: report.last_committed_lsn(),
            committed_transactions: len_u64(report.transactions.len()),
            final_commit_digest: report.last_commit_digest(),
        }
    }
}

/// Index roots produced by recovery.
#[derive(Clone, Copy, Debug, PartialEq, Eq)]
pub struct WalRecoveryIndexRoots {
    /// Recovered frontier root.
    pub recovered_frontier_root: crate::ident::Hash,
    /// Recovered index root.
    pub recovered_indexes_root: crate::ident::Hash,
}

impl WalRecoveryIndexRoots {
    /// Index-root evidence from a recovery certificate.
    pub fn from_certificate(certificate: &RecoveryCertificate) -> (r: Self)
        ensures
            r.recovered_frontier_root == certificate.recovered_frontier_root,
            r.recovered_indexes_root == certificate.recovered_indexes_root,
    {
        WalRecoveryIndexRoots {
            recovered_frontier_root: certificate.recovered_frontier_root,
            recovered_indexes_root: certificate.recovered_indexes_root,
        }
    }
}

/// Retained-material availability posture for recovery.
#[derive(Clone, Copy, Debug, PartialEq, Eq, Structural)]
pub enum WalRecoveryRetainedMaterialAvailability {
    /// All retained material required by the recovered index is available.
    Available,
    /// At least one retained material reference is missing, corrupt, or obstructed.
    Obstructed,
}

/// Retained-material posture recorded by a recovery plan.
#[derive(Clone, Copy, Debug, PartialEq, Eq, Structural)]
pub struct WalRecoveryRetainedMaterialPosture {
    /// Overall retained-material availability.
    pub availability: WalRecoveryRetainedMaterialAvailability,
    /// Number of recovered retained material references.
    pub material_count: u64,
    /// Number of recovered reading references.
    pub reading_count: u64,
    /// Number of retained-material obstructions.
    pub obstruction_count: u64,
}

impl WalRecoveryRetainedMaterialPosture {
    /// Retained-material posture: counts of materials, readings and
    /// obstructions against the available material; available exactly when
    /// nothing is obstructed.
    pub fn from_retention_index(
        index: &RecoveredRetentionIndex,
        available_material: &KeySet<crate::ident::Hash>,
    ) -> (r: Self)
        ensures
            r.obstruction_count == material_obstructions(
                index.material_by_digest.entries_spec(),
                available_material@,
            ).len(),
            r.material_count == index.material_by_digest.entries_spec().len(),
            r.reading_count == index.reading_by_id.entries_spec().len(),
            (r.availability == WalRecoveryRetainedMaterialAvailability::Available) == (r.obstruction_count == 0),
    {
        let obstruction_count = len_u64(retained_material_obstructions(index, available_material).len());
        WalRecoveryRetainedMaterialPosture {
            availability: if obstruction_count == 0 {
                WalRecoveryRetainedMaterialAvailability::Available
            } else {
                WalRecoveryRetainedMaterialAvailability::Obstructed
            },
            material_count: len_u64(index.material_by_digest.len()),
            reading_count: len_u64(index.reading_by_id.len()),
            obstruction_count,
        }
    }
}

/// Recovery plan/report shape tying bootstrap, replay, retention, and projection evidence.
#[derive(Clone, Copy, Debug, PartialEq, Eq)]
pub struct WalRecoveryPlan {
    /// Evidence used to bootstrap the recovery plan.
    pub bootstrap_source: WalRecoveryBootstrapSource,
    /// Checkpoint selection and validation posture.
    pub checkpoint_posture: WalRecoveryCheckpointPosture,
    /// Committed suffix replayed after the bootstrap source.
    pub replay_suffix: WalRecoveryReplaySuffix,
    /// Tail posture observed during recovery.
    pub tail_posture: RecoveryTailPosture,
    /// Recovered frontier and index roots.
    pub index_roots: WalRecoveryIndexRoots,
    /// Retained-material availability posture.
    pub retained_material_posture: WalRecoveryRetainedMaterialPosture,
    /// Projection posture for graph-ready WAL evidence.
    pub projected_evidence_posture: WalRecoveryProjectionPosture,
    /// Number of typed projection obstructions.
    pub projected_evidence_obstruction_count: u64,
}

/// The plan assembled from a bootstrap source and the recovery evidence.
pub open spec fn plan_matches(
    r: WalRecoveryPlan,
    bootstrap_source: WalRecoveryBootstrapSource,
    report: RecoveryScanReport,
    checkpoint_posture: WalRecoveryCheckpointPosture,
    certificate: RecoveryCertificate,
    retained_material_posture: WalRecoveryRetainedMaterialPosture,
    projection: WalRecoveryProjection,
) -> bool {
    &&& r.bootstrap_source == bootstrap_source
    &&& r.checkpoint_posture == checkpoint_posture
    &&& r.replay_suffix == replay_suffix_of(report)
    &&& r.tail_posture == report.tail_posture
    &&& r.index_roots.recovered_frontier_root == certificate.recovered_frontier_root
    &&& r.index_roots.recovered_indexes_root == certificate.recovered_indexes_root
    &&& r.retained_material_posture == retained_material_posture
    &&& r.projected_evidence_posture == projection.posture
    &&& r.projected_evidence_obstruction_count == projection.obstructions@.len()
}

impl WalRecoveryPlan {
    /// A recovery plan that bootstraps from a projected WAL root.
    pub fn from_wal_root(
        root: &WalRoot,
        report: &RecoveryScanReport,
        checkpoint_posture: WalRecoveryCheckpointPosture,
        certificate: &RecoveryCertificate,
        retained_material_posture: WalRecoveryRetainedMaterialPosture,
        projection: &WalRecoveryProjection,
    ) -> (r: Self)
        ensures
            plan_matches(
                r,
                WalRecoveryBootstrapSource::WalRoot {
                    root_digest: root.root_digest,
                    root_identity_digest: root_identity(*root),
                },
                *report,
                checkpoint_posture,
                *certificate,
                retained_material_posture,
                *projection,
            ),
    {
        Self::from_bootstrap_source(
            WalRecoveryBootstrapSource::from_wal_root(root),
            report,
            checkpoint_posture,
            certificate,
            retained_material_posture,
            projection,
        )
    }

    /// A recovery plan that bootstraps from storage manifest evidence.
    pub fn from_manifest(
        manifest: &WalManifest,
        report: &RecoveryScanReport,
        checkpoint_posture: WalRecoveryCheckpointPosture,
        certificate: &RecoveryCertificate,
        retained_material_posture: WalRecoveryRetainedMaterialPosture,
        projection: &WalRecoveryProjection,
    ) -> (r: Self)
        ensures
            plan_matches(
                r,
                WalRecoveryBootstrapSource::StorageManifest { manifest_digest: manifest.manifest_digest },
                *report,
                checkpoint_posture,
                *certificate,
                retained_material_posture,
                *projection,
            ),
    {
        Self::from_bootstrap_source(
            WalRecoveryBootstrapSource::from_manifest(manifest),
            report,
            checkpoint_posture,
            certificate,
            retained_material_posture,
            projection,
        )
    }

    fn from_bootstrap_source(
        bootstrap_source: WalRecoveryBootstrapSource,
        report: &RecoveryScanReport,
        checkpoint_posture: WalRecoveryCheckpointPosture,
        certificate: &RecoveryCertificate,
        retained_material_posture: WalRecoveryRetainedMaterialPosture,
        projection: &WalRecoveryProjection,
    ) -> (r: Self)
        ensures
            plan_matches(
                r,
                bootstrap_source,
                *report,
                checkpoint_posture,
                *certificate,
                retained_material_posture,
                *projection,
            ),
    {
        WalRecoveryPlan {
            bootstrap_source,
            checkpoint_posture,
            replay_suffix: WalRecoveryReplaySuffix::from_report(report),
            tail_posture: report.tail_posture,
            index_roots: WalRecoveryIndexRoots::from_certificate(certificate),
            retained_material_posture,
            projected_evidence_posture: projection.posture,
            projected_evidence_obstruction_count: len_u64(projection.obstructions.len()),
        }
    }
}

/// Graph projection index rebuilt after WAL recovery.
#[derive(Clone, Copy, Debug, PartialEq, Eq)]
pub struct RecoveredWalProjectionIndex {
    /// Projection posture rebuilt from recovered evidence.
    pub posture: WalRecoveryProjectionPosture,
    /// Identity digest for the projected WAL root when projection succeeded.
    pub root_identity_digest: Option<crate::ident::Hash>,
    /// Number of projected writer epochs.
    pub writer_epoch_count: u64,
    /// Number of projected WAL segments.
    pub segment_count: u64,
    /// Number of typed projection obstructions.
    pub obstruction_count: u64,
}

impl RecoveredWalProjectionIndex {
    /// Projection index posture from a WAL recovery projection.
    pub fn from_projection(projection: &WalRecoveryProjection) -> (r: Self)
        ensures
            r.posture == projection.posture,
            r.obstruction_count == projection.obstructions@.len(),
            match projection.root {
                Some(root) => r.root_identity_digest == Some(root_identity(root)) && r.writer_epoch_count
                    == root.writer_epochs@.len() && r.segment_count == root.segments@.len(),
                None => r.root_identity_digest is None && r.writer_epoch_count == 0 && r.segment_count == 0,
            },
    {
        let (root_identity_digest, writer_epoch_count, segment_count) = match &projection.root {
            Some(root) => (
                Some(root.identity_digest()),
                len_u64(root.writer_epochs.len()),
                len_u64(root.segments.len()),
            ),
            None => (None, 0, 0),
        };
        RecoveredWalProjectionIndex {
            posture: projection.posture,
            root_identity_digest,
            writer_epoch_count,
            segment_count,
            obstruction_count: len_u64(projection.obstructions.len()),
        }
    }
}

} // verus!
