//! Projection of recovered WAL evidence into a graph-ready root record.
//! Missing or inconsistent evidence becomes typed obstructions, never an
//! empty successful projection.
use vstd::prelude::*;
use crate::causal_wal::frame::{clone_frame, frames_view, WalFrame, WalTransactionCommit};
use crate::causal_wal::projection::{
    anchor_of_commit, be8, certificate_ref_of, hash_of, lemma_hash_of, push_u64_be, RecoveryCertificateRef,
    WalCommitAnchor, WalRoot, WalSegmentRef, WalSegmentSealPosture, WalSegmentStorageLocator, WalWriterEpoch,
};
use crate::causal_wal::records::RecoveryCertificate;
use crate::causal_wal::recovery::{max_last_lsn, min_first_lsn, RecoveryScanReport, RecoveryTailPosture, WalRecoveredTransaction};
use crate::causal_wal::store::{lemma_digests_of_view, segment_digest, segment_digest_spec, WalManifest, WalStoreError};
use crate::causal_wal::{len_u64, Lsn, WalSegmentId, WalTransactionId, WriterEpochId};
use crate::crypto::blake3_digest;
use crate::ident::hash_eq;
use crate::keyset::{canonical_order, lemma_canonical_order, KeySet};
use crate::order::{sort_by_key, sort_by_key_spec, CanonicalKey, SortKey};

verus! {

broadcast use vstd::seq_lib::group_to_multiset_ensures;

/// Segment ids are ordered by their number (as 8 big-endian bytes).
impl SortKey for WalSegmentId {
    open spec fn key(&self) -> Seq<u8> {
        be8(self.0)
    }

    fn key_bytes(&self) -> (k: Vec<u8>) {
        let mut k: Vec<u8> = Vec::new();
        push_u64_be(&mut k, self.0);
        assert(k@ =~= be8(self.0));
        k
    }
}

impl CanonicalKey for WalSegmentId {
    proof fn lemma_key_injective(a: Self, b: Self) {
        if a.key() == b.key() {
            let x = a.0;
            let y = b.0;
            assert(be8(x)[0] == be8(y)[0] && be8(x)[1] == be8(y)[1] && be8(x)[2] == be8(y)[2] && be8(x)[3] == be8(y)[3]
                && be8(x)[4] == be8(y)[4] && be8(x)[5] == be8(y)[5] && be8(x)[6] == be8(y)[6] && be8(x)[7] == be8(y)[7]);
            assert(x == y) by (bit_vector)
                requires
                    (x >> 56u64) as u8 == (y >> 56u64) as u8,
                    (x >> 48u64) as u8 == (y >> 48u64) as u8,
                    (x >> 40u64) as u8 == (y >> 40u64) as u8,
                    (x >> 32u64) as u8 == (y >> 32u64) as u8,
                    (x >> 24u64) as u8 == (y >> 24u64) as u8,
                    (x >> 16u64) as u8 == (y >> 16u64) as u8,
                    (x >> 8u64) as u8 == (y >> 8u64) as u8,
                    x as u8 == y as u8,
            ;
        }
    }
}

/// Commit markers are ordered by first LSN (as 8 big-endian bytes); the sort is stable.
impl SortKey for WalTransactionCommit {
    open spec fn key(&self) -> Seq<u8> {
        be8(self.first_lsn.0)
    }

    fn key_bytes(&self) -> (k: Vec<u8>) {
        let mut k: Vec<u8> = Vec::new();
        push_u64_be(&mut k, self.first_lsn.0);
        assert(k@ =~= be8(self.first_lsn.0));
        k
    }
}

/// Segment evidence available when projecting a recovered WAL.
#[derive(Clone, Debug, PartialEq, Eq)]
pub struct WalRecoverySegmentEvidence {
    /// Logical WAL segment id.
    pub segment_id: WalSegmentId,
    /// Digest of the segment contents.
    pub segment_digest: crate::ident::Hash,
    /// Segment sealing posture.
    pub seal_posture: WalSegmentSealPosture,
    /// Segment locator metadata; a missing locator is an obstruction.
    pub storage_locator: Option<WalSegmentStorageLocator>,
}

/// WAL recovery projection posture.
#[derive(Clone, Copy, Debug, PartialEq, Eq, Structural)]
pub enum WalRecoveryProjectionPosture {
    /// No WAL evidence was present to project.
    Absent,
    /// A projection root was built from explicit recovery evidence.
    Present,
    /// Recovery evidence existed, but was insufficient or obstructed.
    Obstructed,
}

/// Typed reason a recovered WAL could not be projected into graph facts.
#[derive(Clone, Copy, Debug, PartialEq, Eq)]
pub enum WalRecoveryProjectionObstruction {
    /// Recovery saw a non-clean tail posture.
    TailPostureObstructed {
        /// Observed tail posture.
        posture: RecoveryTailPosture,
    },
    /// A published manifest was required but absent.
    MissingManifest,
    /// The manifest could not be validated from filesystem evidence.
    ManifestValidationUnavailable,
    /// Segment evidence could not be read from filesystem storage.
    SegmentEvidenceUnavailable,
    /// The manifest's last committed LSN did not match recovered commits.
    ManifestLastCommittedLsnMismatch {
        /// Last committed LSN from recovery.
        expected: Option<Lsn>,
        /// Last committed LSN from the manifest.
        actual: Option<Lsn>,
    },
    /// The manifest's last commit digest did not match recovered commits.
    ManifestLastCommitDigestMismatch {
        /// Last commit digest from recovery.
        expected: Option<crate::ident::Hash>,
        /// Last commit digest from the manifest.
        actual: Option<crate::ident::Hash>,
    },
    /// The manifest's sealed segment count did not match segment evidence.
    ManifestSegmentCountMismatch {
        /// Sealed segment count from the manifest.
        expected: u64,
        /// Segment evidence count supplied for projection.
        actual: u64,
    },
    /// Duplicate segment evidence was supplied for the same logical segment.
    DuplicateSegmentEvidence {
        /// Duplicated segment id.
        segment_id: WalSegmentId,
    },
    /// Writer epoch projection evidence was missing for a recovered commit.
    MissingWriterEpochEvidence {
        /// Missing writer epoch id.
        writer_epoch: WriterEpochId,
    },
    /// Segment evidence was missing for recovered committed frames.
    MissingSegmentEvidence {
        /// Missing segment id.
        segment_id: WalSegmentId,
    },
    /// Segment locator metadata was unavailable.
    SegmentLocatorUnavailable {
        /// Segment id with no locator.
        segment_id: WalSegmentId,
    },
    /// Segment evidence did not prove the segment sealed.
    SegmentNotSealed {
        /// Unsealed segment id.
        segment_id: WalSegmentId,
    },
    /// Segment seal evidence did not cover the recovered committed range.
    SegmentSealDoesNotCoverRecoveredCommit {
        /// Segment id.
        segment_id: WalSegmentId,
        /// Sealed LSN from segment evidence.
        sealed_lsn: Option<Lsn>,
        /// Last recovered committed LSN for this segment.
        recovered_last_lsn: Lsn,
    },
    /// Segment digest evidence did not match recovered frames.
    SegmentDigestMismatch {
        /// Segment id.
        segment_id: WalSegmentId,
        /// Digest recomputed from recovered segment frames.
        expected: crate::ident::Hash,
        /// Digest supplied as projection evidence.
        actual: crate::ident::Hash,
    },
    /// Recovery certificate scan fields did not match the recovery report.
    RecoveryCertificateScanMismatch {
        /// Expected first committed LSN.
        expected_first_lsn: Option<Lsn>,
        /// Certificate first committed LSN.
        actual_first_lsn: Option<Lsn>,
        /// Expected last committed LSN.
        expected_last_lsn: Option<Lsn>,
        /// Certificate last committed LSN.
        actual_last_lsn: Option<Lsn>,
        /// Expected committed transaction replay count.
        expected_committed_transactions_replayed: u64,
        /// Certificate committed transaction replay count.
        actual_committed_transactions_replayed: u64,
        /// Expected recovery tail posture.
        expected_tail_posture: RecoveryTailPosture,
        /// Certificate recovery tail posture.
        actual_tail_posture: RecoveryTailPosture,
    },
    /// Recovered frame evidence did not identify a transaction segment.
    TransactionSegmentEvidenceUnavailable {
        /// Transaction id.
        transaction_id: WalTransactionId,
    },
    /// A recovered transaction spans multiple segment ids.
    TransactionSpansSegments {
        /// Transaction id.
        transaction_id: WalTransactionId,
    },
    /// A projected segment contains commits from multiple writer epochs.
    MixedWriterEpochSegment {
        /// Segment id.
        segment_id: WalSegmentId,
    },
}

/// Projection result for recovered WAL evidence.
#[derive(Clone, Debug, PartialEq, Eq)]
pub struct WalRecoveryProjection {
    /// Projection posture.
    pub posture: WalRecoveryProjectionPosture,
    /// Projected WAL root, if evidence was complete.
    pub root: Option<WalRoot>,
    /// Typed obstructions that prevented projection.
    pub obstructions: Vec<WalRecoveryProjectionObstruction>,
}

/// An obstructed projection with the given obstructions.
pub fn obstructed_projection(obstructions: Vec<WalRecoveryProjectionObstruction>) -> (r: WalRecoveryProjection)
    ensures
        r.posture == WalRecoveryProjectionPosture::Obstructed,
        r.root is None,
        r.obstructions@ == obstructions@,
{
    WalRecoveryProjection { posture: WalRecoveryProjectionPosture::Obstructed, root: None, obstructions }
}

type Obs = WalRecoveryProjectionObstruction;

/// All frames of the transaction carry the segment id of its first frame.
pub open spec fn same_segment(t: WalRecoveredTransaction) -> bool {
    forall|k: int| 0 <= k < t.frames@.len() ==> (#[trigger] t.frames@[k]).header.segment_id == t.frames@[0].header.segment_id
}

/// The single segment of a transaction, when it has frames all in one segment.
pub open spec fn tx_segment(t: WalRecoveredTransaction) -> Option<WalSegmentId> {
    if t.frames@.len() > 0 && same_segment(t) {
        Some(t.frames@[0].header.segment_id)
    } else {
        None
    }
}

/// The obstruction a transaction raises by its frames' segments, if any.
pub open spec fn tx_obstruction(t: WalRecoveredTransaction) -> Seq<Obs> {
    if t.frames@.len() == 0 {
        seq![Obs::TransactionSegmentEvidenceUnavailable { transaction_id: t.commit.transaction_id }]
    } else if same_segment(t) {
        Seq::empty()
    } else {
        seq![Obs::TransactionSpansSegments { transaction_id: t.commit.transaction_id }]
    }
}

/// Obstructions raised by the transactions' segments, in transaction order.
pub open spec fn tx_obstructions(ts: Seq<WalRecoveredTransaction>) -> Seq<Obs>
    decreases ts.len(),
{
    if ts.len() == 0 {
        Seq::empty()
    } else {
        tx_obstructions(ts.drop_last()) + tx_obstruction(ts.last())
    }
}

/// Writer epochs of all recovered commits.
pub open spec fn epoch_set(ts: Seq<WalRecoveredTransaction>) -> Set<[u8; 32]> {
    Set::new(|e: [u8; 32]| exists|k: int| 0 <= k < ts.len() && (#[trigger] ts[k]).commit.writer_epoch.0 == e)
}

/// Segment ids of the single-segment transactions.
pub open spec fn segment_set(ts: Seq<WalRecoveredTransaction>) -> Set<WalSegmentId> {
    Set::new(|id: WalSegmentId| exists|k: int| 0 <= k < ts.len() && tx_segment(#[trigger] ts[k]) == Some(id))
}

/// Commit markers of the transactions wholly in segment `id`, in order.
pub open spec fn commits_in(ts: Seq<WalRecoveredTransaction>, id: WalSegmentId) -> Seq<WalTransactionCommit>
    decreases ts.len(),
{
    if ts.len() == 0 {
        Seq::empty()
    } else if tx_segment(ts.last()) == Some(id) {
        commits_in(ts.drop_last(), id).push(ts.last().commit)
    } else {
        commits_in(ts.drop_last(), id)
    }
}

/// Frames of the transactions wholly in segment `id`, in order.
pub open spec fn frames_in(ts: Seq<WalRecoveredTransaction>, id: WalSegmentId) -> Seq<WalFrame>
    decreases ts.len(),
{
    if ts.len() == 0 {
        Seq::empty()
    } else if tx_segment(ts.last()) == Some(id) {
        frames_in(ts.drop_last(), id) + ts.last().frames@
    } else {
        frames_in(ts.drop_last(), id)
    }
}

/// Largest last LSN of the commits, if any.
pub open spec fn max_commit_lsn(cs: Seq<WalTransactionCommit>) -> Option<Lsn>
    decreases cs.len(),
{
    if cs.len() == 0 {
        None
    } else {
        match max_commit_lsn(cs.drop_last()) {
            None => Some(cs.last().last_lsn),
            Some(m) => if cs.last().last_lsn.0 > m.0 {
                Some(cs.last().last_lsn)
            } else {
                Some(m)
            },
        }
    }
}

/// The commits come from more than one writer epoch.
pub open spec fn mixed_epochs(cs: Seq<WalTransactionCommit>) -> bool {
    exists|k: int| 0 <= k < cs.len() && (#[trigger] cs[k]).writer_epoch != cs[0].writer_epoch
}

/// Index of the last segment evidence with the given id.
pub open spec fn last_segment_with(segs: Seq<WalRecoverySegmentEvidence>, id: WalSegmentId) -> Option<int>
    decreases segs.len(),
{
    if segs.len() == 0 {
        None
    } else if segs.last().segment_id == id {
        Some(segs.len() - 1)
    } else {
        last_segment_with(segs.drop_last(), id)
    }
}

/// Index of the last writer epoch evidence with the given id.
pub open spec fn last_epoch_with(eps: Seq<WalWriterEpoch>, e: [u8; 32]) -> Option<int>
    decreases eps.len(),
{
    if eps.len() == 0 {
        None
    } else if eps.last().epoch_id.0 == e {
        Some(eps.len() - 1)
    } else {
        last_epoch_with(eps.drop_last(), e)
    }
}

/// Obstructions for segment evidence listed twice: one per repeat, in order.
pub open spec fn duplicate_obstructions(segs: Seq<WalRecoverySegmentEvidence>) -> Seq<Obs>
    decreases segs.len(),
{
    if segs.len() == 0 {
        Seq::empty()
    } else {
        duplicate_obstructions(segs.drop_last()) + if last_segment_with(segs.drop_last(), segs.last().segment_id) is Some {
            seq![Obs::DuplicateSegmentEvidence { segment_id: segs.last().segment_id }]
        } else {
            Seq::empty()
        }
    }
}

/// Obstructions for required writer epochs with no evidence, in canonical order.
pub open spec fn missing_epoch_obstructions(order: Seq<[u8; 32]>, eps: Seq<WalWriterEpoch>) -> Seq<Obs>
    decreases order.len(),
{
    if order.len() == 0 {
        Seq::empty()
    } else {
        missing_epoch_obstructions(order.drop_last(), eps) + if last_epoch_with(eps, order.last()) is None {
            seq![Obs::MissingWriterEpochEvidence { writer_epoch: WriterEpochId(order.last()) }]
        } else {
            Seq::empty()
        }
    }
}

/// Obstructions for one segment's evidence against its recovered transactions.
pub open spec fn segment_obstructions(
    id: WalSegmentId,
    segs: Seq<WalRecoverySegmentEvidence>,
    ts: Seq<WalRecoveredTransaction>,
) -> Seq<Obs> {
    match last_segment_with(segs, id) {
        None => seq![Obs::MissingSegmentEvidence { segment_id: id }],
        Some(j) => {
            let s = segs[j];
            let cs = commits_in(ts, id);
            let digest = segment_digest_spec(id, frames_in(ts, id));
            (if s.storage_locator is None {
                seq![Obs::SegmentLocatorUnavailable { segment_id: id }]
            } else {
                Seq::empty()
            }) + (if s.seal_posture == WalSegmentSealPosture::Open {
                seq![Obs::SegmentNotSealed { segment_id: id }]
            } else {
                Seq::empty()
            }) + (match (s.seal_posture, max_commit_lsn(cs)) {
                (WalSegmentSealPosture::Sealed { sealed_lsn }, Some(m)) => if seal_falls_short(sealed_lsn, m) {
                    seq![
                        Obs::SegmentSealDoesNotCoverRecoveredCommit {
                            segment_id: id,
                            sealed_lsn,
                            recovered_last_lsn: m,
                        },
                    ]
                } else {
                    Seq::empty()
                },
                _ => Seq::empty(),
            }) + (if s.segment_digest@ != digest {
                seq![Obs::SegmentDigestMismatch { segment_id: id, expected: hash_of(digest), actual: s.segment_digest }]
            } else {
                Seq::empty()
            }) + (if mixed_epochs(cs) {
                seq![Obs::MixedWriterEpochSegment { segment_id: id }]
            } else {
                Seq::empty()
            })
        },
    }
}

/// The seal does not reach the given LSN: no sealed LSN, or a smaller one.
pub open spec fn seal_falls_short(sealed_lsn: Option<Lsn>, m: Lsn) -> bool {
    match sealed_lsn {
        Some(l) => l.0 < m.0,
        None => true,
    }
}

/// Segment obstructions over the segment ids in order.
pub open spec fn segments_obstructions(
    order: Seq<WalSegmentId>,
    segs: Seq<WalRecoverySegmentEvidence>,
    ts: Seq<WalRecoveredTransaction>,
) -> Seq<Obs>
    decreases order.len(),
{
    if order.len() == 0 {
        Seq::empty()
    } else {
        segments_obstructions(order.drop_last(), segs, ts) + segment_obstructions(order.last(), segs, ts)
    }
}

/// The tail posture obstruction, if the tail is not clean.
pub open spec fn tail_obstructions(p: RecoveryTailPosture) -> Seq<Obs> {
    if p != RecoveryTailPosture::Clean {
        seq![Obs::TailPostureObstructed { posture: p }]
    } else {
        Seq::empty()
    }
}

/// Last commit digest in replay order, if any.
pub open spec fn last_commit_digest_spec(ts: Seq<WalRecoveredTransaction>) -> Option<[u8; 32]> {
    if ts.len() == 0 {
        None
    } else {
        Some(ts.last().commit.commit_digest)
    }
}

/// Manifest obstructions against the recovered commits and the segment evidence count.
pub open spec fn manifest_obstructions(m: WalManifest, ts: Seq<WalRecoveredTransaction>, nsegs: int) -> Seq<Obs> {
    (if m.last_committed_lsn != max_last_lsn(ts) {
        seq![Obs::ManifestLastCommittedLsnMismatch { expected: max_last_lsn(ts), actual: m.last_committed_lsn }]
    } else {
        Seq::empty()
    }) + (if m.last_commit_digest != last_commit_digest_spec(ts) {
        seq![Obs::ManifestLastCommitDigestMismatch { expected: last_commit_digest_spec(ts), actual: m.last_commit_digest }]
    } else {
        Seq::empty()
    }) + (if m.sealed_segment_count != nsegs {
        seq![Obs::ManifestSegmentCountMismatch { expected: m.sealed_segment_count, actual: nsegs as u64 }]
    } else {
        Seq::empty()
    })
}

/// Certificate obstruction when its scan fields disagree with the report.
pub open spec fn certificate_obstructions(c: Option<RecoveryCertificate>, report: RecoveryScanReport) -> Seq<Obs> {
    let ts = report.transactions@;
    match c {
        Some(c) => if c.first_lsn != min_first_lsn(ts) || c.last_lsn != max_last_lsn(ts)
            || c.committed_transactions_replayed != ts.len() || c.tail_posture != report.tail_posture {
            seq![
                Obs::RecoveryCertificateScanMismatch {
                    expected_first_lsn: min_first_lsn(ts),
                    actual_first_lsn: c.first_lsn,
                    expected_last_lsn: max_last_lsn(ts),
                    actual_last_lsn: c.last_lsn,
                    expected_committed_transactions_replayed: ts.len() as u64,
                    actual_committed_transactions_replayed: c.committed_transactions_replayed,
                    expected_tail_posture: report.tail_posture,
                    actual_tail_posture: c.tail_posture,
                },
            ]
        } else {
            Seq::empty()
        },
        None => Seq::empty(),
    }
}

/// All obstructions found once a manifest is present, in the order they are checked.
pub open spec fn projection_obstructions(
    report: RecoveryScanReport,
    m: WalManifest,
    eps: Seq<WalWriterEpoch>,
    segs: Seq<WalRecoverySegmentEvidence>,
    c: Option<RecoveryCertificate>,
) -> Seq<Obs> {
    let ts = report.transactions@;
    tail_obstructions(report.tail_posture) + manifest_obstructions(m, ts, segs.len() as int)
        + duplicate_obstructions(segs) + tx_obstructions(ts) + missing_epoch_obstructions(
        canonical_order(epoch_set(ts)),
        eps,
    ) + segments_obstructions(canonical_order(segment_set(ts)), segs, ts) + certificate_obstructions(c, report)
}

/// No evidence of any kind was supplied.
pub open spec fn no_evidence(
    report: RecoveryScanReport,
    m: Option<WalManifest>,
    eps: Seq<WalWriterEpoch>,
    segs: Seq<WalRecoverySegmentEvidence>,
    c: Option<RecoveryCertificate>,
) -> bool {
    report.transactions@.len() == 0 && m is None && eps.len() == 0 && segs.len() == 0 && c is None
        && report.tail_posture == RecoveryTailPosture::Clean
}

/// The segment reference projected for segment `id`.
pub open spec fn projected_segment_matches(
    r: WalSegmentRef,
    id: WalSegmentId,
    segs: Seq<WalRecoverySegmentEvidence>,
    ts: Seq<WalRecoveredTransaction>,
) -> bool {
    let sorted = sort_by_key_spec(commits_in(ts, id));
    let s = segs[last_segment_with(segs, id)->0];
    &&& r.writer_epoch == sorted[0].writer_epoch
    &&& r.segment_id == id
    &&& r.first_lsn == sorted[0].first_lsn
    &&& r.last_lsn == sorted.last().last_lsn
    &&& r.previous_commit_digest == sorted[0].previous_committed_transaction_digest
    &&& r.final_commit_digest == sorted.last().commit_digest
    &&& r.segment_digest == s.segment_digest
    &&& r.commit_anchors@ == sorted.map_values(|c: WalTransactionCommit| anchor_of_commit(c))
    &&& r.seal_posture == s.seal_posture
    &&& r.storage_locator == s.storage_locator
}

/// The projected root: manifest digest, the required writer epochs in
/// canonical order, one reference per segment in canonical order, and the
/// certificate reference.
pub open spec fn projected_root_matches(
    root: WalRoot,
    report: RecoveryScanReport,
    m: WalManifest,
    eps: Seq<WalWriterEpoch>,
    segs: Seq<WalRecoverySegmentEvidence>,
    c: Option<RecoveryCertificate>,
) -> bool {
    let ts = report.transactions@;
    let epochs = canonical_order(epoch_set(ts));
    let ids = canonical_order(segment_set(ts));
    &&& root.root_digest == m.manifest_digest
    &&& root.writer_epochs@ == epochs.map_values(|e: [u8; 32]| eps[last_epoch_with(eps, e)->0])
    &&& root.segments@.len() == ids.len()
    &&& forall|k: int| 0 <= k < ids.len() ==> projected_segment_matches(#[trigger] root.segments@[k], ids[k], segs, ts)
    &&& root.recovery_certificate == match c {
        Some(c) => Some(certificate_ref_of(c)),
        None => None::<RecoveryCertificateRef>,
    }
}

/// What projecting the evidence yields.
pub open spec fn projection_matches(
    r: WalRecoveryProjection,
    report: RecoveryScanReport,
    m: Option<WalManifest>,
    eps: Seq<WalWriterEpoch>,
    segs: Seq<WalRecoverySegmentEvidence>,
    c: Option<RecoveryCertificate>,
) -> bool {
    if no_evidence(report, m, eps, segs, c) {
        r.posture == WalRecoveryProjectionPosture::Absent && r.root is None && r.obstructions@.len() == 0
    } else {
        match m {
            None => r.posture == WalRecoveryProjectionPosture::Obstructed && r.root is None
                && r.obstructions@ == tail_obstructions(report.tail_posture).push(Obs::MissingManifest),
            Some(m) => {
                let obs = projection_obstructions(report, m, eps, segs, c);
                if obs.len() > 0 {
                    r.posture == WalRecoveryProjectionPosture::Obstructed && r.root is None && r.obstructions@ == obs
                } else {
                    &&& r.posture == WalRecoveryProjectionPosture::Present
                    &&& r.obstructions@.len() == 0
                    &&& r.root is Some
                    &&& projected_root_matches(r.root->0, report, m, eps, segs, c)
                }
            },
        }
    }
}

fn tx_segment_of(t: &WalRecoveredTransaction) -> (r: Option<WalSegmentId>)
    ensures
        r == tx_segment(*t),
{
    if t.frames.len() == 0 {
        return None;
    }
    let first = t.frames[0].header.segment_id;
    let mut i: usize = 1;
    while i < t.frames.len()
        invariant
            1 <= i <= t.frames@.len(),
            first == t.frames@[0].header.segment_id,
            forall|k: int| 0 <= k < i ==> (#[trigger] t.frames@[k]).header.segment_id == first,
        decreases t.frames.len() - i,
    {
        if t.frames[i].header.segment_id.0 != first.0 {
            assert(!same_segment(*t));
            return None;
        }
        i += 1;
    }
    Some(first)
}

fn find_last_segment(segs: &[WalRecoverySegmentEvidence], id: WalSegmentId, n: usize) -> (r: Option<usize>)
    requires
        n <= segs@.len(),
    ensures
        match r {
            Some(j) => last_segment_with(segs@.take(n as int), id) == Some(j as int) && (j as int) < n
                && segs@[j as int].segment_id == id,
            None => last_segment_with(segs@.take(n as int), id) is None,
        },
{
    let mut i: usize = n;
    while i > 0
        invariant
            i <= n <= segs@.len(),
            last_segment_with(segs@.take(n as int), id) == last_segment_with(segs@.take(i as int), id),
        decreases i,
    {
        proof {
            assert(segs@.take(i as int).drop_last() =~= segs@.take(i - 1));
        }
        if segs[i - 1].segment_id.0 == id.0 {
            return Some(i - 1);
        }
        i -= 1;
    }
    None
}

fn find_last_epoch(eps: &[WalWriterEpoch], e: &[u8; 32]) -> (r: Option<usize>)
    ensures
        match r {
            Some(j) => last_epoch_with(eps@, *e) == Some(j as int) && (j as int) < eps@.len() && eps@[j as int].epoch_id.0
                == *e,
            None => last_epoch_with(eps@, *e) is None,
        },
{
    let mut i: usize = eps.len();
    assert(eps@.take(eps@.len() as int) =~= eps@);
    while i > 0
        invariant
            i <= eps@.len(),
            last_epoch_with(eps@, *e) == last_epoch_with(eps@.take(i as int), *e),
        decreases i,
    {
        proof {
            assert(eps@.take(i as int).drop_last() =~= eps@.take(i - 1));
        }
        if hash_eq(&eps[i - 1].epoch_id.0, e) {
            return Some(i - 1);
        }
        i -= 1;
    }
    None
}

/// A copy of an optional locator.
fn clone_locator(l: &Option<WalSegmentStorageLocator>) -> (r: Option<WalSegmentStorageLocator>)
    ensures
        r == *l,
{
    match l {
        Some(WalSegmentStorageLocator::RelativePath(p)) => Some(WalSegmentStorageLocator::RelativePath(p.clone())),
        Some(WalSegmentStorageLocator::AbsolutePath(p)) => Some(WalSegmentStorageLocator::AbsolutePath(p.clone())),
        None => None,
    }
}

fn push_manifest_obstructions(m: &WalManifest, report: &RecoveryScanReport, nsegs: usize, out: &mut Vec<Obs>)
    ensures
        final(out)@ == old(out)@ + manifest_obstructions(*m, report.transactions@, nsegs as int),
{
    let ghost start = out@;
    let last_lsn = report.last_committed_lsn();
    let last_digest = report.last_commit_digest();
    let lsn_differs = match (m.last_committed_lsn, last_lsn) {
        (Some(a), Some(b)) => a.0 != b.0,
        (None, None) => false,
        _ => true,
    };
    if lsn_differs {
        out.push(Obs::ManifestLastCommittedLsnMismatch { expected: last_lsn, actual: m.last_committed_lsn });
    }
    let ghost after_lsn = out@;
    let digest_differs = match (m.last_commit_digest, last_digest) {
        (Some(a), Some(b)) => !hash_eq(&a, &b),
        (None, None) => false,
        _ => true,
    };
    if digest_differs {
        out.push(Obs::ManifestLastCommitDigestMismatch { expected: last_digest, actual: m.last_commit_digest });
    }
    let ghost after_digest = out@;
    let count = len_u64(nsegs);
    if m.sealed_segment_count != count {
        out.push(Obs::ManifestSegmentCountMismatch { expected: m.sealed_segment_count, actual: count });
    }
    proof {
        let ts = report.transactions@;
        assert(last_digest == last_commit_digest_spec(ts));
        assert(lsn_differs == (m.last_committed_lsn != max_last_lsn(ts)));
        if !digest_differs {
            assert(m.last_commit_digest == last_commit_digest_spec(ts));
        }
        if digest_differs {
            if m.last_commit_digest == last_commit_digest_spec(ts) {
                assert(false);
            }
        }
        assert(final(out)@ =~= start + manifest_obstructions(*m, ts, nsegs as int));
    }
}

fn push_duplicate_obstructions(segs: &[WalRecoverySegmentEvidence], out: &mut Vec<Obs>)
    ensures
        final(out)@ == old(out)@ + duplicate_obstructions(segs@),
{
    let ghost start = out@;
    let mut i: usize = 0;
    while i < segs.len()
        invariant
            i <= segs@.len(),
            out@ == start + duplicate_obstructions(segs@.take(i as int)),
        decreases segs.len() - i,
    {
        let id = segs[i].segment_id;
        let found = find_last_segment(segs, id, i);
        proof {
            assert(segs@.take(i + 1).drop_last() =~= segs@.take(i as int));
        }
        if found.is_some() {
            out.push(Obs::DuplicateSegmentEvidence { segment_id: id });
        }
        i += 1;
        assert(out@ =~= start + duplicate_obstructions(segs@.take(i as int)));
    }
    assert(segs@.take(segs@.len() as int) =~= segs@);
}

fn scan_transactions(
    ts: &Vec<WalRecoveredTransaction>,
    out: &mut Vec<Obs>,
    epochs: &mut KeySet<[u8; 32]>,
    ids: &mut KeySet<WalSegmentId>,
)
    requires
        old(epochs).wf(),
        old(ids).wf(),
        old(epochs)@ == Set::<[u8; 32]>::empty(),
        old(ids)@ == Set::<WalSegmentId>::empty(),
    ensures
        final(out)@ == old(out)@ + tx_obstructions(ts@),
        final(epochs).wf(),
        final(ids).wf(),
        final(epochs)@ == epoch_set(ts@),
        final(ids)@ == segment_set(ts@),
{
    let ghost start = out@;
    let mut i: usize = 0;
    while i < ts.len()
        invariant
            i <= ts@.len(),
            epochs.wf(),
            ids.wf(),
            out@ == start + tx_obstructions(ts@.take(i as int)),
            epochs@ == epoch_set(ts@.take(i as int)),
            ids@ == segment_set(ts@.take(i as int)),
        decreases ts.len() - i,
    {
        let t = &ts[i];
        let ghost prev = ts@.take(i as int);
        let ghost cur = ts@.take(i + 1);
        proof {
            assert(cur.drop_last() =~= prev);
            assert(cur.last() == *t);
        }
        epochs.insert(t.commit.writer_epoch.0);
        let seg = tx_segment_of(t);
        match seg {
            Some(id) => {
                ids.insert(id);
            },
            None => {},
        }
        if t.frames.len() == 0 {
            out.push(Obs::TransactionSegmentEvidenceUnavailable { transaction_id: t.commit.transaction_id });
        } else if seg.is_none() {
            out.push(Obs::TransactionSpansSegments { transaction_id: t.commit.transaction_id });
        }
        proof {
            assert(out@ =~= start + tx_obstructions(cur));
            assert(epochs@ =~= epoch_set(cur)) by {
                assert forall|e: [u8; 32]| epochs@.contains(e) <==> epoch_set(cur).contains(e) by {
                    if epoch_set(prev).contains(e) {
                        let k = choose|k: int| 0 <= k < prev.len() && (#[trigger] prev[k]).commit.writer_epoch.0 == e;
                        assert(cur[k] == prev[k]);
                    }
                    if epoch_set(cur).contains(e) {
                        let k = choose|k: int| 0 <= k < cur.len() && (#[trigger] cur[k]).commit.writer_epoch.0 == e;
                        if k < i {
                            assert(cur[k] == prev[k]);
                        }
                    }
                }
            }
            assert(ids@ =~= segment_set(cur)) by {
                assert forall|x: WalSegmentId| ids@.contains(x) <==> segment_set(cur).contains(x) by {
                    if segment_set(prev).contains(x) {
                        let k = choose|k: int| 0 <= k < prev.len() && tx_segment(#[trigger] prev[k]) == Some(x);
                        assert(cur[k] == prev[k]);
                    }
                    if segment_set(cur).contains(x) {
                        let k = choose|k: int| 0 <= k < cur.len() && tx_segment(#[trigger] cur[k]) == Some(x);
                        if k < i {
                            assert(cur[k] == prev[k]);
                        }
                    }
                }
            }
        }
        i += 1;
    }
    assert(ts@.take(ts@.len() as int) =~= ts@);
}

fn push_missing_epoch_obstructions(order: &[[u8; 32]], eps: &[WalWriterEpoch], out: &mut Vec<Obs>)
    ensures
        final(out)@ == old(out)@ + missing_epoch_obstructions(order@, eps@),
{
    let ghost start = out@;
    let mut i: usize = 0;
    while i < order.len()
        invariant
            i <= order@.len(),
            out@ == start + missing_epoch_obstructions(order@.take(i as int), eps@),
        decreases order.len() - i,
    {
        let e = order[i];
        proof {
            assert(order@.take(i + 1).drop_last() =~= order@.take(i as int));
        }
        if find_last_epoch(eps, &e).is_none() {
            out.push(Obs::MissingWriterEpochEvidence { writer_epoch: WriterEpochId(e) });
        }
        i += 1;
        assert(out@ =~= start + missing_epoch_obstructions(order@.take(i as int), eps@));
    }
    assert(order@.take(order@.len() as int) =~= order@);
}

/// Commits and frames of the transactions wholly in segment `id`.
fn segment_transactions(ts: &Vec<WalRecoveredTransaction>, id: WalSegmentId) -> (r: (
    Vec<WalTransactionCommit>,
    Vec<WalFrame>,
))
    ensures
        r.0@ == commits_in(ts@, id),
        frames_view(r.1@) == frames_view(frames_in(ts@, id)),
{
    let mut commits: Vec<WalTransactionCommit> = Vec::new();
    let mut frames: Vec<WalFrame> = Vec::new();
    let mut i: usize = 0;
    while i < ts.len()
        invariant
            i <= ts@.len(),
            commits@ == commits_in(ts@.take(i as int), id),
            frames_view(frames@) == frames_view(frames_in(ts@.take(i as int), id)),
        decreases ts.len() - i,
    {
        let t = &ts[i];
        let ghost cur = ts@.take(i + 1);
        proof {
            assert(cur.drop_last() =~= ts@.take(i as int));
            assert(cur.last() == *t);
        }
        let seg = tx_segment_of(t);
        let inside = match seg {
            Some(s) => s.0 == id.0,
            None => false,
        };
        if inside {
            commits.push(t.commit);
            let ghost before = frames@;
            let mut k: usize = 0;
            while k < t.frames.len()
                invariant
                    k <= t.frames@.len(),
                    frames@.len() == before.len() + k,
                    frames_view(frames@) == frames_view(before) + frames_view(t.frames@.take(k as int)),
                decreases t.frames.len() - k,
            {
                let f = clone_frame(&t.frames[k]);
                let ghost prev_frames = frames@;
                frames.push(f);
                proof {
                    assert(frames@ =~= prev_frames.push(f));
                    assert(frames_view(frames@) =~= frames_view(prev_frames).push(f@));
                    assert(frames_view(t.frames@.take(k + 1)) =~= frames_view(t.frames@.take(k as int)).push(
                        t.frames@[k as int]@,
                    ));
                    assert(t.frames@.take(k + 1) =~= t.frames@.take(k as int).push(t.frames@[k as int]));
                    assert(frames_view(frames@) =~= frames_view(before) + frames_view(t.frames@.take(k + 1)));
                }
                k += 1;
            }
            proof {
                assert(t.frames@.take(t.frames@.len() as int) =~= t.frames@);
                assert(frames_view(frames_in(cur, id)) =~= frames_view(frames_in(ts@.take(i as int), id)) + frames_view(
                    t.frames@,
                ));
            }
        }
        i += 1;
    }
    assert(ts@.take(ts@.len() as int) =~= ts@);
    (commits, frames)
}

fn max_commit(cs: &Vec<WalTransactionCommit>) -> (r: Option<Lsn>)
    ensures
        r == max_commit_lsn(cs@),
{
    let mut best: Option<Lsn> = None;
    let mut i: usize = 0;
    while i < cs.len()
        invariant
            i <= cs@.len(),
            best == max_commit_lsn(cs@.take(i as int)),
        decreases cs.len() - i,
    {
        proof {
            assert(cs@.take(i + 1).drop_last() =~= cs@.take(i as int));
        }
        let l = cs[i].last_lsn;
        best = match best {
            None => Some(l),
            Some(m) => if l.0 > m.0 { Some(l) } else { Some(m) },
        };
        i += 1;
    }
    assert(cs@.take(cs@.len() as int) =~= cs@);
    best
}

fn has_mixed_epochs(cs: &Vec<WalTransactionCommit>) -> (r: bool)
    ensures
        r == mixed_epochs(cs@),
{
    if cs.len() == 0 {
        return false;
    }
    let first = cs[0].writer_epoch;
    let mut i: usize = 1;
    while i < cs.len()
        invariant
            1 <= i <= cs@.len(),
            first == cs@[0].writer_epoch,
            forall|k: int| 0 <= k < i ==> (#[trigger] cs@[k]).writer_epoch == first,
        decreases cs.len() - i,
    {
        if !hash_eq(&cs[i].writer_epoch.0, &first.0) {
            return true;
        }
        i += 1;
    }
    false
}

fn push_segment_obstructions(
    id: WalSegmentId,
    segs: &[WalRecoverySegmentEvidence],
    ts: &Vec<WalRecoveredTransaction>,
    out: &mut Vec<Obs>,
)
    ensures
        final(out)@ == old(out)@ + segment_obstructions(id, segs@, ts@),
{
    let ghost start = out@;
    assert(segs@.take(segs@.len() as int) =~= segs@);
    match find_last_segment(segs, id, segs.len()) {
        None => {
            out.push(Obs::MissingSegmentEvidence { segment_id: id });
        },
        Some(j) => {
            let s = &segs[j];
            let (commits, frames) = segment_transactions(ts, id);
            let ghost g1 = out@;
            if s.storage_locator.is_none() {
                out.push(Obs::SegmentLocatorUnavailable { segment_id: id });
            }
            let ghost g2 = out@;
            let open = match s.seal_posture {
                WalSegmentSealPosture::Open => true,
                _ => false,
            };
            if open {
                out.push(Obs::SegmentNotSealed { segment_id: id });
            }
            let ghost g3 = out@;
            let m = max_commit(&commits);
            match (s.seal_posture, m) {
                (WalSegmentSealPosture::Sealed { sealed_lsn }, Some(m)) => {
                    let short = match sealed_lsn {
                        Some(l) => l.0 < m.0,
                        None => true,
                    };
                    if short {
                        out.push(Obs::SegmentSealDoesNotCoverRecoveredCommit {
                            segment_id: id,
                            sealed_lsn,
                            recovered_last_lsn: m,
                        });
                    }
                },
                _ => {},
            }
            let ghost g4 = out@;
            let digest = segment_digest(id, frames.as_slice());
            proof {
                lemma_digests_of_view(frames@, frames_in(ts@, id));
                assert(digest@ == segment_digest_spec(id, frames_in(ts@, id)));
                lemma_hash_of(digest, segment_digest_spec(id, frames_in(ts@, id)));
            }
            if !hash_eq(&s.segment_digest, &digest) {
                out.push(Obs::SegmentDigestMismatch { segment_id: id, expected: digest, actual: s.segment_digest });
            }
            let ghost g5 = out@;
            if has_mixed_epochs(&commits) {
                out.push(Obs::MixedWriterEpochSegment { segment_id: id });
            }
            proof {
                assert(final(out)@ =~= start + segment_obstructions(id, segs@, ts@));
            }
        },
    }
}

fn push_certificate_obstructions(c: Option<&RecoveryCertificate>, report: &RecoveryScanReport, out: &mut Vec<Obs>)
    ensures
        final(out)@ == old(out)@ + certificate_obstructions(
            match c {
                Some(c) => Some(*c),
                None => None,
            },
            *report,
        ),
{
    match c {
        Some(c) => {
            let first = report.first_committed_lsn();
            let last = report.last_committed_lsn();
            let n = len_u64(report.transactions.len());
            let first_differs = match (c.first_lsn, first) {
                (Some(a), Some(b)) => a.0 != b.0,
                (None, None) => false,
                _ => true,
            };
            let last_differs = match (c.last_lsn, last) {
                (Some(a), Some(b)) => a.0 != b.0,
                (None, None) => false,
                _ => true,
            };
            let tail_differs = !tail_posture_eq(c.tail_posture, report.tail_posture);
            if first_differs || last_differs || c.committed_transactions_replayed != n || tail_differs {
                out.push(Obs::RecoveryCertificateScanMismatch {
                    expected_first_lsn: first,
                    actual_first_lsn: c.first_lsn,
                    expected_last_lsn: last,
                    actual_last_lsn: c.last_lsn,
                    expected_committed_transactions_replayed: n,
                    actual_committed_transactions_replayed: c.committed_transactions_replayed,
                    expected_tail_posture: report.tail_posture,
                    actual_tail_posture: c.tail_posture,
                });
            }
        },
        None => {},
    }
}

/// Equality of tail postures.
pub fn tail_posture_eq(a: RecoveryTailPosture, b: RecoveryTailPosture) -> (r: bool)
    ensures
        r == (a == b),
{
    match (a, b) {
        (RecoveryTailPosture::Clean, RecoveryTailPosture::Clean) => true,
        (RecoveryTailPosture::TruncatedAll, RecoveryTailPosture::TruncatedAll) => true,
        (RecoveryTailPosture::TruncatedAfter(x), RecoveryTailPosture::TruncatedAfter(y)) => x.0 == y.0,
        (RecoveryTailPosture::WouldTruncateAll, RecoveryTailPosture::WouldTruncateAll) => true,
        (RecoveryTailPosture::WouldTruncateAfter(x), RecoveryTailPosture::WouldTruncateAfter(y)) => x.0 == y.0,
        _ => false,
    }
}

/// The value behind an optional reference.
pub open spec fn opt_value<T>(o: Option<&T>) -> Option<T> {
    match o {
        Some(v) => Some(*v),
        None => None,
    }
}

proof fn lemma_commits_nonempty(ts: Seq<WalRecoveredTransaction>, id: WalSegmentId)
    requires
        segment_set(ts).contains(id),
    ensures
        commits_in(ts, id).len() > 0,
    decreases ts.len(),
{
    let k = choose|k: int| 0 <= k < ts.len() && tx_segment(#[trigger] ts[k]) == Some(id);
    if k < ts.len() - 1 {
        assert(ts.drop_last()[k] == ts[k]);
        assert(segment_set(ts.drop_last()).contains(id));
        lemma_commits_nonempty(ts.drop_last(), id);
    }
}

proof fn lemma_segments_clear(order: Seq<WalSegmentId>, segs: Seq<WalRecoverySegmentEvidence>, ts: Seq<WalRecoveredTransaction>)
    requires
        segments_obstructions(order, segs, ts).len() == 0,
    ensures
        forall|k: int| 0 <= k < order.len() ==> last_segment_with(segs, #[trigger] order[k]) is Some,
    decreases order.len(),
{
    if order.len() > 0 {
        lemma_segments_clear(order.drop_last(), segs, ts);
        assert forall|k: int| 0 <= k < order.len() implies last_segment_with(segs, #[trigger] order[k]) is Some by {
            if k < order.len() - 1 {
                assert(order.drop_last()[k] == order[k]);
            }
        }
    }
}

proof fn lemma_epochs_clear(order: Seq<[u8; 32]>, eps: Seq<WalWriterEpoch>)
    requires
        missing_epoch_obstructions(order, eps).len() == 0,
    ensures
        forall|k: int| 0 <= k < order.len() ==> last_epoch_with(eps, #[trigger] order[k]) is Some,
    decreases order.len(),
{
    if order.len() > 0 {
        lemma_epochs_clear(order.drop_last(), eps);
        assert forall|k: int| 0 <= k < order.len() implies last_epoch_with(eps, #[trigger] order[k]) is Some by {
            if k < order.len() - 1 {
                assert(order.drop_last()[k] == order[k]);
            }
        }
    }
}

fn project_epochs(order: &[[u8; 32]], eps: &[WalWriterEpoch]) -> (r: Vec<WalWriterEpoch>)
    requires
        forall|k: int| 0 <= k < order@.len() ==> last_epoch_with(eps@, #[trigger] order@[k]) is Some,
    ensures
        r@ == order@.map_values(|e: [u8; 32]| eps@[last_epoch_with(eps@, e)->0]),
{
    let mut r: Vec<WalWriterEpoch> = Vec::new();
    let mut i: usize = 0;
    while i < order.len()
        invariant
            i <= order@.len(),
            forall|k: int| 0 <= k < order@.len() ==> last_epoch_with(eps@, #[trigger] order@[k]) is Some,
            r@ == order@.take(i as int).map_values(|e: [u8; 32]| eps@[last_epoch_with(eps@, e)->0]),
        decreases order.len() - i,
    {
        let e = order[i];
        assert(last_epoch_with(eps@, order@[i as int]) is Some);
        match find_last_epoch(eps, &e) {
            Some(j) => {
                r.push(eps[j]);
            },
            None => {
                assert(false);
            },
        }
        i += 1;
        assert(r@ =~= order@.take(i as int).map_values(|e: [u8; 32]| eps@[last_epoch_with(eps@, e)->0]));
    }
    assert(order@.take(order@.len() as int) =~= order@);
    r
}

fn project_segment(id: WalSegmentId, segs: &[WalRecoverySegmentEvidence], ts: &Vec<WalRecoveredTransaction>) -> (r:
    WalSegmentRef)
    requires
        last_segment_with(segs@, id) is Some,
        commits_in(ts@, id).len() > 0,
    ensures
        projected_segment_matches(r, id, segs@, ts@),
{
    assert(segs@.take(segs@.len() as int) =~= segs@);
    let j = match find_last_segment(segs, id, segs.len()) {
        Some(j) => j,
        None => {
            assert(false);
            0
        },
    };
    let (commits, _frames) = segment_transactions(ts, id);
    let ghost unsorted = commits@;
    let sorted = sort_by_key(commits);
    assert(sorted@.len() == unsorted.len()) by {
        assert(sorted@.to_multiset().len() == unsorted.to_multiset().len());
    }
    let first = sorted[0];
    let last = sorted[sorted.len() - 1];
    let mut anchors: Vec<WalCommitAnchor> = Vec::new();
    let mut i: usize = 0;
    while i < sorted.len()
        invariant
            i <= sorted@.len(),
            anchors@ == sorted@.take(i as int).map_values(|c: WalTransactionCommit| anchor_of_commit(c)),
        decreases sorted.len() - i,
    {
        anchors.push(WalCommitAnchor::from_commit(&sorted[i]));
        i += 1;
        assert(anchors@ =~= sorted@.take(i as int).map_values(|c: WalTransactionCommit| anchor_of_commit(c)));
    }
    assert(sorted@.take(sorted@.len() as int) =~= sorted@);
    let s = &segs[j];
    WalSegmentRef {
        writer_epoch: first.writer_epoch,
        segment_id: id,
        first_lsn: first.first_lsn,
        last_lsn: last.last_lsn,
        previous_commit_digest: first.previous_committed_transaction_digest,
        final_commit_digest: last.commit_digest,
        segment_digest: s.segment_digest,
        commit_anchors: anchors,
        seal_posture: s.seal_posture,
        storage_locator: clone_locator(&s.storage_locator),
    }
}

fn push_all_segment_obstructions(
    order: &[WalSegmentId],
    segs: &[WalRecoverySegmentEvidence],
    ts: &Vec<WalRecoveredTransaction>,
    out: &mut Vec<Obs>,
)
    ensures
        final(out)@ == old(out)@ + segments_obstructions(order@, segs@, ts@),
{
    let ghost start = out@;
    let mut i: usize = 0;
    while i < order.len()
        invariant
            i <= order@.len(),
            out@ == start + segments_obstructions(order@.take(i as int), segs@, ts@),
        decreases order.len() - i,
    {
        proof {
            assert(order@.take(i + 1).drop_last() =~= order@.take(i as int));
        }
        push_segment_obstructions(order[i], segs, ts, out);
        i += 1;
        assert(out@ =~= start + segments_obstructions(order@.take(i as int), segs@, ts@));
    }
    assert(order@.take(order@.len() as int) =~= order@);
}

/// Projects recovered WAL evidence into a graph-ready root record. No storage
/// is read or written: only the given recovery, manifest, writer-epoch,
/// segment, locator, seal and certificate evidence is combined, and missing
/// evidence yields typed obstructions.
#[verifier::rlimit(40)]
#[verifier::spinoff_prover]
pub fn project_wal_recovery(
    report: &RecoveryScanReport,
    manifest: Option<&WalManifest>,
    writer_epochs: &[WalWriterEpoch],
    segments: &[WalRecoverySegmentEvidence],
    recovery_certificate: Option<&RecoveryCertificate>,
) -> (r: WalRecoveryProjection)
    ensures
        projection_matches(r, *report, opt_value(manifest), writer_epochs@, segments@, opt_value(recovery_certificate)),
{
    let ts = &report.transactions;
    if ts.len() == 0 && manifest.is_none() && writer_epochs.len() == 0 && segments.len() == 0
        && recovery_certificate.is_none() && tail_posture_eq(report.tail_posture, RecoveryTailPosture::Clean) {
        return WalRecoveryProjection {
            posture: WalRecoveryProjectionPosture::Absent,
            root: None,
            obstructions: Vec::new(),
        };
    }
    let mut obstructions: Vec<Obs> = Vec::new();
    if !tail_posture_eq(report.tail_posture, RecoveryTailPosture::Clean) {
        obstructions.push(Obs::TailPostureObstructed { posture: report.tail_posture });
    }
    assert(obstructions@ =~= tail_obstructions(report.tail_posture));
    let manifest = match manifest {
        Some(m) => m,
        None => {
            obstructions.push(Obs::MissingManifest);
            return obstructed_projection(obstructions);
        },
    };
    push_manifest_obstructions(manifest, report, segments.len(), &mut obstructions);
    push_duplicate_obstructions(segments, &mut obstructions);
    let mut epochs: KeySet<[u8; 32]> = KeySet::new();
    let mut ids: KeySet<WalSegmentId> = KeySet::new();
    scan_transactions(ts, &mut obstructions, &mut epochs, &mut ids);
    proof {
        epochs.lemma_canonical();
        ids.lemma_canonical();
        lemma_canonical_order(epochs.canonical_seq(), epoch_set(ts@));
        lemma_canonical_order(ids.canonical_seq(), segment_set(ts@));
    }
    push_missing_epoch_obstructions(epochs.as_slice(), writer_epochs, &mut obstructions);
    push_all_segment_obstructions(ids.as_slice(), segments, ts, &mut obstructions);
    push_certificate_obstructions(recovery_certificate, report, &mut obstructions);
    let ghost obs = projection_obstructions(
        *report,
        *manifest,
        writer_epochs@,
        segments@,
        opt_value(recovery_certificate),
    );
    assert(obstructions@ =~= obs);
    if obstructions.len() > 0 {
        return obstructed_projection(obstructions);
    }
    proof {
        let ts_s = ts@;
        let e_order = canonical_order(epoch_set(ts_s));
        let s_order = canonical_order(segment_set(ts_s));
        assert(missing_epoch_obstructions(e_order, writer_epochs@).len() == 0);
        assert(segments_obstructions(s_order, segments@, ts_s).len() == 0);
        lemma_epochs_clear(e_order, writer_epochs@);
        lemma_segments_clear(s_order, segments@, ts_s);
    }
    let projected_epochs = project_epochs(epochs.as_slice(), writer_epochs);
    let order = ids.as_slice();
    let mut projected_segments: Vec<WalSegmentRef> = Vec::new();
    let mut i: usize = 0;
    while i < order.len()
        invariant
            i <= order@.len(),
            order@ == canonical_order(segment_set(ts@)),
            ids@ == segment_set(ts@),
            order@.to_set() == ids@,
            forall|k: int| 0 <= k < order@.len() ==> last_segment_with(segments@, #[trigger] order@[k]) is Some,
            projected_segments@.len() == i,
            forall|k: int| 0 <= k < i ==> projected_segment_matches(#[trigger] projected_segments@[k], order@[k], segments@, ts@),
        decreases order.len() - i,
    {
        let id = order[i];
        proof {
            assert(order@.to_set().contains(order@[i as int]));
            lemma_commits_nonempty(ts@, id);
        }
        let seg = project_segment(id, segments, ts);
        projected_segments.push(seg);
        i += 1;
    }
    let certificate = match recovery_certificate {
        Some(c) => Some(RecoveryCertificateRef::from_certificate(c)),
        None => None,
    };
    WalRecoveryProjection {
        posture: WalRecoveryProjectionPosture::Present,
        root: Some(
            WalRoot {
                root_digest: manifest.manifest_digest,
                writer_epochs: projected_epochs,
                segments: projected_segments,
                recovery_certificate: certificate,
            },
        ),
        obstructions: Vec::new(),
    }
}

/// A projection that stops at one obstruction.
pub open spec fn obstructed_by(r: WalRecoveryProjection, o: Obs) -> bool {
    &&& r.posture == WalRecoveryProjectionPosture::Obstructed
    &&& r.root is None
    &&& r.obstructions@ == seq![o]
}

/// What a projection from stored evidence is: the manifest validation outcome
/// decides first (an absent manifest projects with no manifest and no
/// segments; a mismatch or an uncommitted tail is its own obstruction; any
/// other failure makes the manifest unavailable), then the segment scan.
pub open spec fn store_evidence_projection_matches(
    r: WalRecoveryProjection,
    report: RecoveryScanReport,
    manifest: Result<WalManifest, WalStoreError>,
    segments: Result<Seq<WalRecoverySegmentEvidence>, WalStoreError>,
    writer_epochs: Seq<WalWriterEpoch>,
    recovery_certificate: Option<RecoveryCertificate>,
) -> bool {
    match manifest {
        Err(WalStoreError::MissingManifest) => projection_matches(
            r,
            report,
            None,
            writer_epochs,
            Seq::empty(),
            recovery_certificate,
        ),
        Err(WalStoreError::ManifestLastCommittedLsnMismatch { expected, actual }) => obstructed_by(
            r,
            Obs::ManifestLastCommittedLsnMismatch { expected, actual },
        ),
        Err(WalStoreError::ManifestLastCommitDigestMismatch { expected, actual }) => obstructed_by(
            r,
            Obs::ManifestLastCommitDigestMismatch { expected, actual },
        ),
        Err(WalStoreError::ManifestSegmentCountMismatch { expected, actual }) => obstructed_by(
            r,
            Obs::ManifestSegmentCountMismatch { expected: actual, actual: expected },
        ),
        Err(WalStoreError::ManifestCannotValidateUncommittedTail) => obstructed_by(
            r,
            Obs::TailPostureObstructed { posture: report.tail_posture },
        ),
        Err(_) => obstructed_by(r, Obs::ManifestValidationUnavailable),
        Ok(m) => match segments {
            Err(_) => obstructed_by(r, Obs::SegmentEvidenceUnavailable),
            Ok(s) => projection_matches(r, report, Some(m), writer_epochs, s, recovery_certificate),
        },
    }
}

fn obstructed_by_one(o: Obs) -> (r: WalRecoveryProjection)
    ensures
        obstructed_by(r, o),
{
    let mut v: Vec<Obs> = Vec::new();
    v.push(o);
    assert(v@ =~= seq![o]);
    obstructed_projection(v)
}

/// Projects a WAL recovery from what a store's manifest validation and segment
/// scan returned. Reading that evidence is left to the caller; this decides
/// what each outcome projects to, and reads and writes nothing.
pub fn project_recovery_from_store_evidence(
    report: &RecoveryScanReport,
    manifest: Result<WalManifest, WalStoreError>,
    segments: Result<Vec<WalRecoverySegmentEvidence>, WalStoreError>,
    writer_epochs: &[WalWriterEpoch],
    recovery_certificate: Option<&RecoveryCertificate>,
) -> (r: WalRecoveryProjection)
    ensures
        store_evidence_projection_matches(
            r,
            *report,
            manifest,
            match segments {
                Ok(s) => Ok(s@),
                Err(e) => Err(e),
            },
            writer_epochs@,
            opt_value(recovery_certificate),
        ),
{
    let m = match manifest {
        Ok(m) => m,
        Err(WalStoreError::MissingManifest) => {
            let none: &[WalRecoverySegmentEvidence] = &[];
            let r = project_wal_recovery(report, None, writer_epochs, none, recovery_certificate);
            assert(none@ =~= Seq::<WalRecoverySegmentEvidence>::empty());
            return r;
        },
        Err(WalStoreError::ManifestLastCommittedLsnMismatch { expected, actual }) => {
            return obstructed_by_one(Obs::ManifestLastCommittedLsnMismatch { expected, actual });
        },
        Err(WalStoreError::ManifestLastCommitDigestMismatch { expected, actual }) => {
            return obstructed_by_one(Obs::ManifestLastCommitDigestMismatch { expected, actual });
        },
        Err(WalStoreError::ManifestSegmentCountMismatch { expected, actual }) => {
            return obstructed_by_one(
                Obs::ManifestSegmentCountMismatch { expected: actual, actual: expected },
            );
        },
        Err(WalStoreError::ManifestCannotValidateUncommittedTail) => {
            return obstructed_by_one(Obs::TailPostureObstructed { posture: report.tail_posture });
        },
        Err(_) => {
            return obstructed_by_one(Obs::ManifestValidationUnavailable);
        },
    };
    let segs = match segments {
        Ok(s) => s,
        Err(_) => {
            return obstructed_by_one(Obs::SegmentEvidenceUnavailable);
        },
    };
    project_wal_recovery(report, Some(&m), writer_epochs, segs.as_slice(), recovery_certificate)
}

} // verus!
