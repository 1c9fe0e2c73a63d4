//! Every durability index rebuilt at once from a recovered committed WAL scan
//! and the caller's explicit projection and materialization evidence.
use vstd::prelude::*;
use crate::causal_wal::digest_map::DigestMap;
use crate::causal_wal::index_recovery::{
    receipt_recovery, recover_receipt_index, recover_retention_index, recover_submission_index, report_frames,
    retention_recovery, submission_recovery,
};
use crate::causal_wal::indexes::{
    recovered_index_root_input, recovered_submission_receipt_index_root, RecoveredReceiptIndex,
    RecoveredRetentionIndex, RecoveredSubmissionIndex,
};
use crate::causal_wal::outbox::{outbox_recovery, outbox_spec, recover_materialization_outbox, MaterializationOutboxEntry};
use crate::causal_wal::projection::root_identity;
use crate::causal_wal::records::ExistingMaterializedArtifact;
use crate::causal_wal::recovery::RecoveryScanReport;
use crate::causal_wal::recovery_plan::RecoveredWalProjectionIndex;
use crate::causal_wal::recovery_projection::WalRecoveryProjection;
use crate::causal_wal::topology_index::{topology_fold, RecoveredTopologyIndex};
use crate::causal_wal::topology_root::{
    recover_topology_index, recovered_topology_index_root, topology_records, topology_root_input,
};
use crate::causal_wal::frame::WalFrame;
use crate::causal_wal::WalRecoveryIndexError;
use crate::crypto::blake3_digest;

verus! {

/// Durability indexes rebuilt from committed WAL recovery evidence.
#[derive(Debug)]
pub struct RecoveredDurabilityIndexes {
    /// Rebuilt submission posture index.
    pub submissions: RecoveredSubmissionIndex,
    /// Rebuilt receipt/correlation index.
    pub receipts: RecoveredReceiptIndex,
    /// Rebuilt retained-material and reading index.
    pub retention: RecoveredRetentionIndex,
    /// Rebuilt materialization outbox, by effect id.
    pub materialization_outbox: DigestMap<MaterializationOutboxEntry>,
    /// Rebuilt topology/graph index.
    pub topology: RecoveredTopologyIndex,
    /// Rebuilt graph projection posture.
    pub projection: RecoveredWalProjectionIndex,
    /// Stable root for the submission and receipt indexes.
    pub submission_receipt_index_root: crate::ident::Hash,
    /// Stable root for the topology indexes.
    pub topology_index_root: crate::ident::Hash,
}

/// `idx` is the projection index posture of `projection`.
pub open spec fn projection_index_of(idx: RecoveredWalProjectionIndex, projection: WalRecoveryProjection) -> bool {
    &&& idx.posture == projection.posture
    &&& idx.obstruction_count == projection.obstructions@.len()
    &&& match projection.root {
        Some(root) => idx.root_identity_digest == Some(root_identity(root)) && idx.writer_epoch_count
            == root.writer_epochs@.len() && idx.segment_count == root.segments@.len(),
        None => idx.root_identity_digest is None && idx.writer_epoch_count == 0 && idx.segment_count == 0,
    }
}

/// Why the indexes fail to recover from the frames, checked in the order
/// submissions, receipts, retention, materialization outbox, topology:
/// `None` when every index recovers, `Some(None)` when a payload fails to
/// decode first, `Some(Some(e))` when conflicting evidence `e` comes first.
pub open spec fn durability_failure(fs: Seq<WalFrame>) -> Option<Option<WalRecoveryIndexError>> {
    match submission_recovery(fs) {
        None => Some(None),
        Some(Err(e)) => Some(Some(e)),
        Some(Ok(_)) => if receipt_recovery(fs) is None || retention_recovery(fs) is None || outbox_recovery(fs) is None {
            Some(None)
        } else {
            match topology_records(fs) {
                None => Some(None),
                Some(rs) => match topology_fold(rs) {
                    Err(e) => Some(Some(e)),
                    Ok(_) => None,
                },
            }
        },
    }
}

/// Rebuilds all durability indexes from a recovered committed WAL scan, in
/// the order submissions, receipts, retention, materialization outbox,
/// topology: the first index that fails decides the error. Only the scan's
/// committed transactions and the caller's evidence are read.
pub fn rebuild_durability_indexes_after_recovery(
    report: &RecoveryScanReport,
    existing_artifacts: &DigestMap<ExistingMaterializedArtifact>,
    projection: &WalRecoveryProjection,
) -> (r: Result<RecoveredDurabilityIndexes, WalRecoveryIndexError>)
    requires
        existing_artifacts.wf(),
    ensures
        durability_failure(report_frames(report.transactions@)) is None <==> r is Ok,
        durability_failure(report_frames(report.transactions@)) == Some(None::<WalRecoveryIndexError>) ==> r matches Err(
            WalRecoveryIndexError::Decode(_),
        ),
        durability_failure(report_frames(report.transactions@)) matches Some(Some(e)) ==> r == Err::<
            RecoveredDurabilityIndexes,
            WalRecoveryIndexError,
        >(e),
        r matches Ok(d) ==> ({
            let fs = report_frames(report.transactions@);
            &&& submission_recovery(fs) == Some(Ok::<_, WalRecoveryIndexError>(d.submissions.view_spec()))
            &&& d.submissions.wf()
            &&& receipt_recovery(fs) == Some(d.receipts.view_spec())
            &&& d.receipts.wf()
            &&& retention_recovery(fs) == Some(d.retention.view_spec())
            &&& d.retention.wf()
            &&& (outbox_recovery(fs) matches Some((intents, observations)) && d.materialization_outbox@ == outbox_spec(
                intents,
                observations,
                existing_artifacts@,
                Seq::empty(),
            ))
            &&& d.materialization_outbox.wf()
            &&& (topology_records(fs) matches Some(rs) && topology_fold(rs) == Ok::<_, WalRecoveryIndexError>(
                d.topology.view_spec(),
            ))
            &&& d.topology.wf()
            &&& projection_index_of(d.projection, *projection)
            &&& d.submission_receipt_index_root@ == blake3_digest(recovered_index_root_input(d.submissions, d.receipts))
            &&& d.topology_index_root@ == blake3_digest(topology_root_input(d.topology))
        }),
{
    let submissions = recover_submission_index(report)?;
    let receipts = recover_receipt_index(report)?;
    let retention = recover_retention_index(report)?;
    let materialization_outbox = recover_materialization_outbox(report, existing_artifacts)?;
    let topology = recover_topology_index(report)?;
    let submission_receipt_index_root = recovered_submission_receipt_index_root(&submissions, &receipts);
    let topology_index_root = recovered_topology_index_root(&topology);
    Ok(
        RecoveredDurabilityIndexes {
            submissions,
            receipts,
            retention,
            materialization_outbox,
            topology,
            projection: RecoveredWalProjectionIndex::from_projection(projection),
            submission_receipt_index_root,
            topology_index_root,
        },
    )
}

} // verus!
