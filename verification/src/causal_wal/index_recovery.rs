//! Indexes rebuilt from the frames of committed transactions.
use vstd::prelude::*;
use crate::causal_wal::digest_map::DigestMap;
use crate::causal_wal::frame::WalFrame;
use crate::causal_wal::indexes::{
    accept_step, empty_submission_view, id_sets, receipt_step, set_at, sets_wf, ReceiptIndexView,
    RecoveredReceiptIndex, RecoveredRetentionIndex, RecoveredSubmissionIndex, RetentionIndexView, SubmissionIndexView,
};
use crate::causal_wal::kinds::WalRecordKind;
use crate::causal_wal::records::{
    missing_material_scope, missing_scope_of, EvidenceMaterialPosture, RetainedMaterialObstruction,
    CheckpointPublicationRecord, ReadingRefRecord, RetainedMaterialRecord, SubmissionAcceptanceRecord,
    TickReceiptRecord, WalReceiptCorrelationRecord,
};
use crate::causal_wal::recovery::{RecoveryScanReport, WalRecoveredTransaction};
use crate::causal_wal::WalRecoveryIndexError;
use crate::keyset::KeySet;

verus! {

/// Frames of the recovered transactions, in replay order.
pub open spec fn report_frames(ts: Seq<WalRecoveredTransaction>) -> Seq<WalFrame>
    decreases ts.len(),
{
    if ts.len() == 0 {
        Seq::empty()
    } else {
        report_frames(ts.drop_last()) + ts.last().frames@
    }
}

/// Payload bytes of a frame.
pub open spec fn payload_of(f: WalFrame) -> Seq<u8> {
    f.payload.canonical_bytes@
}

/// The acceptance record encoded by `b`, if any.
pub open spec fn acceptance_of(b: Seq<u8>) -> Option<SubmissionAcceptanceRecord> {
    if exists|x: SubmissionAcceptanceRecord| #[trigger] x.payload_spec() == b {
        Some(choose|x: SubmissionAcceptanceRecord| #[trigger] x.payload_spec() == b)
    } else {
        None
    }
}

/// The tick receipt encoded by `b`, if any.
pub open spec fn tick_receipt_of(b: Seq<u8>) -> Option<TickReceiptRecord> {
    if exists|x: TickReceiptRecord| #[trigger] x.payload_spec() == b {
        Some(choose|x: TickReceiptRecord| #[trigger] x.payload_spec() == b)
    } else {
        None
    }
}

/// The correlation record encoded by `b`, if any.
pub open spec fn correlation_of(b: Seq<u8>) -> Option<WalReceiptCorrelationRecord> {
    if exists|x: WalReceiptCorrelationRecord| #[trigger] x.payload_spec() == b {
        Some(choose|x: WalReceiptCorrelationRecord| #[trigger] x.payload_spec() == b)
    } else {
        None
    }
}

/// The retained material record encoded by `b`, if any.
pub open spec fn material_of(b: Seq<u8>) -> Option<RetainedMaterialRecord> {
    if exists|x: RetainedMaterialRecord| #[trigger] x.payload_spec() == b {
        Some(choose|x: RetainedMaterialRecord| #[trigger] x.payload_spec() == b)
    } else {
        None
    }
}

/// The reading record encoded by `b`, if any.
pub open spec fn reading_of(b: Seq<u8>) -> Option<ReadingRefRecord> {
    if exists|x: ReadingRefRecord| #[trigger] x.payload_spec() == b {
        Some(choose|x: ReadingRefRecord| #[trigger] x.payload_spec() == b)
    } else {
        None
    }
}

/// The checkpoint publication encoded by `b`, if any.
pub open spec fn publication_of(b: Seq<u8>) -> Option<CheckpointPublicationRecord> {
    if exists|x: CheckpointPublicationRecord| #[trigger] x.payload_spec() == b {
        Some(choose|x: CheckpointPublicationRecord| #[trigger] x.payload_spec() == b)
    } else {
        None
    }
}

proof fn lemma_acceptance_decoded(x: SubmissionAcceptanceRecord)
    ensures
        acceptance_of(x.payload_spec()) == Some(x),
{
    let y = choose|y: SubmissionAcceptanceRecord| #[trigger] y.payload_spec() == x.payload_spec();
    x.lemma_layout();
    y.lemma_layout();
    assert(x.submission_id =~= y.submission_id);
    assert(x.canonical_envelope_digest =~= y.canonical_envelope_digest);
    match (x.idempotency_key_digest, y.idempotency_key_digest) {
        (Some(a), Some(b)) => {
            assert(a =~= b);
            assert(x.acceptance_evidence_digest@ == x.payload_spec().subrange(97, 129));
            assert(x.acceptance_evidence_digest =~= y.acceptance_evidence_digest);
        },
        (None, None) => {
            assert(x.acceptance_evidence_digest =~= y.acceptance_evidence_digest);
        },
        _ => {},
    }
}

proof fn lemma_tick_receipt_decoded(x: TickReceiptRecord)
    ensures
        tick_receipt_of(x.payload_spec()) == Some(x),
{
    let y = choose|y: TickReceiptRecord| #[trigger] y.payload_spec() == x.payload_spec();
    x.lemma_layout();
    y.lemma_layout();
    x.decision.lemma_code_round_trip();
    y.decision.lemma_code_round_trip();
    assert(x.submission_id =~= y.submission_id);
    assert(x.ticket_digest =~= y.ticket_digest);
    assert(x.receipt_digest =~= y.receipt_digest);
}

proof fn lemma_correlation_decoded(x: WalReceiptCorrelationRecord)
    ensures
        correlation_of(x.payload_spec()) == Some(x),
{
    let y = choose|y: WalReceiptCorrelationRecord| #[trigger] y.payload_spec() == x.payload_spec();
    x.lemma_layout();
    y.lemma_layout();
    assert(x.submission_id =~= y.submission_id);
    assert(x.ticket_digest =~= y.ticket_digest);
    assert(x.receipt_digest =~= y.receipt_digest);
}

proof fn lemma_material_decoded(x: RetainedMaterialRecord)
    ensures
        material_of(x.payload_spec()) == Some(x),
{
    let y = choose|y: RetainedMaterialRecord| #[trigger] y.payload_spec() == x.payload_spec();
    x.lemma_layout();
    y.lemma_layout();
    x.kind.lemma_code_round_trip();
    y.kind.lemma_code_round_trip();
    x.posture.lemma_code_round_trip();
    y.posture.lemma_code_round_trip();
    assert(x.material_digest =~= y.material_digest);
    assert(x.semantic_coordinate_digest =~= y.semantic_coordinate_digest);
}

proof fn lemma_reading_decoded(x: ReadingRefRecord)
    ensures
        reading_of(x.payload_spec()) == Some(x),
{
    let y = choose|y: ReadingRefRecord| #[trigger] y.payload_spec() == x.payload_spec();
    x.lemma_layout();
    y.lemma_layout();
    x.posture.lemma_code_round_trip();
    y.posture.lemma_code_round_trip();
    assert(x.reading_id =~= y.reading_id);
    assert(x.semantic_coordinate_digest =~= y.semantic_coordinate_digest);
    assert(x.payload_digest =~= y.payload_digest);
    assert(x.envelope_digest =~= y.envelope_digest);
}

proof fn lemma_publication_decoded(x: CheckpointPublicationRecord)
    ensures
        publication_of(x.payload_spec()) == Some(x),
{
    let y = choose|y: CheckpointPublicationRecord| #[trigger] y.payload_spec() == x.payload_spec();
    x.lemma_layout();
    y.lemma_layout();
    assert(x.checkpoint_id =~= y.checkpoint_id);
    assert(x.checkpoint_digest =~= y.checkpoint_digest);
}

/// Submission index rebuilt frame by frame: acceptances are inserted, tick
/// receipts decide; `None` when a relevant frame fails to decode first.
pub open spec fn submission_recovery(fs: Seq<WalFrame>) -> Option<Result<SubmissionIndexView, WalRecoveryIndexError>>
    decreases fs.len(),
{
    if fs.len() == 0 {
        Some(Ok(empty_submission_view()))
    } else {
        match submission_recovery(fs.drop_last()) {
            Some(Ok(v)) => {
                let f = fs.last();
                match f.header.record_kind {
                    WalRecordKind::SubmissionAcceptedRecorded => match acceptance_of(payload_of(f)) {
                        Some(x) => Some(accept_step(v, x)),
                        None => None,
                    },
                    WalRecordKind::TickReceiptRecorded => match tick_receipt_of(payload_of(f)) {
                        Some(x) => Some(Ok(receipt_step(v, x))),
                        None => None,
                    },
                    _ => Some(Ok(v)),
                }
            },
            other => other,
        }
    }
}

/// Receipt index rebuilt frame by frame; `None` when a relevant frame fails to decode first.
pub open spec fn receipt_recovery(fs: Seq<WalFrame>) -> Option<ReceiptIndexView>
    decreases fs.len(),
{
    if fs.len() == 0 {
        Some(
            ReceiptIndexView {
                receipt_by_submission: Map::empty(),
                receipt_by_ticket: Map::empty(),
                ticket_by_submission: Map::empty(),
                decisions_by_receipt: Map::empty(),
            },
        )
    } else {
        match receipt_recovery(fs.drop_last()) {
            Some(v) => {
                let f = fs.last();
                match f.header.record_kind {
                    WalRecordKind::TickReceiptRecorded => match tick_receipt_of(payload_of(f)) {
                        Some(r) => Some(
                            ReceiptIndexView {
                                receipt_by_submission: v.receipt_by_submission.insert(r.submission_id, r.receipt_digest),
                                receipt_by_ticket: v.receipt_by_ticket.insert(r.ticket_digest, r.receipt_digest),
                                ticket_by_submission: v.ticket_by_submission.insert(r.submission_id, r.ticket_digest),
                                decisions_by_receipt: v.decisions_by_receipt.insert(r.receipt_digest, r.decision),
                            },
                        ),
                        None => None,
                    },
                    WalRecordKind::ReceiptCorrelationRecorded => match correlation_of(payload_of(f)) {
                        Some(c) => Some(
                            ReceiptIndexView {
                                receipt_by_submission: v.receipt_by_submission.insert(c.submission_id, c.receipt_digest),
                                receipt_by_ticket: v.receipt_by_ticket.insert(c.ticket_digest, c.receipt_digest),
                                ticket_by_submission: v.ticket_by_submission.insert(c.submission_id, c.ticket_digest),
                                decisions_by_receipt: v.decisions_by_receipt,
                            },
                        ),
                        None => None,
                    },
                    _ => Some(v),
                }
            },
            None => None,
        }
    }
}

/// Retention index rebuilt frame by frame (a later record for a digest or id
/// replaces an earlier one); `None` when a relevant frame fails to decode first.
pub open spec fn retention_recovery(fs: Seq<WalFrame>) -> Option<RetentionIndexView>
    decreases fs.len(),
{
    if fs.len() == 0 {
        Some(
            RetentionIndexView {
                materials: Map::empty(),
                material_coordinates: Map::empty(),
                readings: Map::empty(),
                reading_coordinates: Map::empty(),
            },
        )
    } else {
        match retention_recovery(fs.drop_last()) {
            Some(v) => {
                let f = fs.last();
                match f.header.record_kind {
                    WalRecordKind::RetainedMaterialRefRecorded => match material_of(payload_of(f)) {
                        Some(m) => Some(
                            RetentionIndexView {
                                materials: v.materials.insert(m.material_digest, m),
                                material_coordinates: v.material_coordinates.insert(
                                    m.semantic_coordinate_digest,
                                    set_at(v.material_coordinates, m.semantic_coordinate_digest).insert(m.material_digest),
                                ),
                                readings: v.readings,
                                reading_coordinates: v.reading_coordinates,
                            },
                        ),
                        None => None,
                    },
                    WalRecordKind::ReadingEnvelopeRetained => match reading_of(payload_of(f)) {
                        Some(r) => Some(
                            RetentionIndexView {
                                materials: v.materials,
                                material_coordinates: v.material_coordinates,
                                readings: v.readings.insert(r.reading_id, r),
                                reading_coordinates: v.reading_coordinates.insert(
                                    r.semantic_coordinate_digest,
                                    set_at(v.reading_coordinates, r.semantic_coordinate_digest).insert(r.reading_id),
                                ),
                            },
                        ),
                        None => None,
                    },
                    _ => Some(v),
                }
            },
            None => None,
        }
    }
}

/// Checkpoint publications in replay order; `None` when one fails to decode.
pub open spec fn publication_recovery(fs: Seq<WalFrame>) -> Option<Seq<CheckpointPublicationRecord>>
    decreases fs.len(),
{
    if fs.len() == 0 {
        Some(Seq::empty())
    } else {
        match publication_recovery(fs.drop_last()) {
            Some(v) => {
                let f = fs.last();
                if f.header.record_kind == WalRecordKind::CheckpointPublicationRecorded {
                    match publication_of(payload_of(f)) {
                        Some(p) => Some(v.push(p)),
                        None => None,
                    }
                } else {
                    Some(v)
                }
            },
            None => None,
        }
    }
}

pub proof fn lemma_frames_step(ts: Seq<WalRecoveredTransaction>, t: int, i: int)
    requires
        0 <= t < ts.len(),
        0 <= i < ts[t].frames@.len(),
    ensures
        (report_frames(ts.take(t)) + ts[t].frames@.take(i + 1)).drop_last() == report_frames(ts.take(t))
            + ts[t].frames@.take(i),
        (report_frames(ts.take(t)) + ts[t].frames@.take(i + 1)).last() == ts[t].frames@[i],
{
    assert((report_frames(ts.take(t)) + ts[t].frames@.take(i + 1)).drop_last() =~= report_frames(ts.take(t))
        + ts[t].frames@.take(i));
}

pub proof fn lemma_frames_next(ts: Seq<WalRecoveredTransaction>, t: int)
    requires
        0 <= t < ts.len(),
    ensures
        report_frames(ts.take(t)) + ts[t].frames@.take(ts[t].frames@.len() as int) == report_frames(ts.take(t + 1)),
        report_frames(ts.take(t)) + ts[t].frames@.take(0) == report_frames(ts.take(t)),
{
    assert(ts.take(t + 1).drop_last() =~= ts.take(t));
    assert(ts[t].frames@.take(ts[t].frames@.len() as int) =~= ts[t].frames@);
    assert(report_frames(ts.take(t)) + ts[t].frames@.take(0) =~= report_frames(ts.take(t)));
}

pub proof fn lemma_report_prefix(ts: Seq<WalRecoveredTransaction>, k: int)
    requires
        0 <= k <= ts.len(),
    ensures
        report_frames(ts.take(k)).len() <= report_frames(ts).len(),
        report_frames(ts).take(report_frames(ts.take(k)).len() as int) == report_frames(ts.take(k)),
    decreases ts.len(),
{
    if k == ts.len() {
        assert(ts.take(k) =~= ts);
        assert(report_frames(ts).take(report_frames(ts).len() as int) =~= report_frames(ts));
    } else {
        let d = ts.drop_last();
        assert(d.take(k) =~= ts.take(k));
        lemma_report_prefix(d, k);
        assert(report_frames(ts).take(report_frames(ts.take(k)).len() as int) =~= report_frames(d).take(
            report_frames(ts.take(k)).len() as int,
        ));
    }
}

/// The frames seen so far are a prefix of all frames.
pub proof fn lemma_seen_prefix(ts: Seq<WalRecoveredTransaction>, t: int, i: int)
    requires
        0 <= t < ts.len(),
        0 <= i <= ts[t].frames@.len(),
    ensures
        (report_frames(ts.take(t)) + ts[t].frames@.take(i)).len() <= report_frames(ts).len(),
        report_frames(ts).take((report_frames(ts.take(t)) + ts[t].frames@.take(i)).len() as int) == report_frames(
            ts.take(t),
        ) + ts[t].frames@.take(i),
{
    lemma_frames_next(ts, t);
    lemma_report_prefix(ts, t + 1);
    let full = report_frames(ts.take(t + 1));
    let pre = report_frames(ts.take(t)) + ts[t].frames@.take(i);
    assert(full == report_frames(ts.take(t)) + ts[t].frames@);
    assert(full.take(pre.len() as int) =~= pre);
    assert(report_frames(ts).take(pre.len() as int) =~= full.take(pre.len() as int));
}

proof fn lemma_submission_recovery_stops(fs: Seq<WalFrame>, n: int)
    requires
        0 <= n <= fs.len(),
        !(submission_recovery(fs.take(n)) matches Some(Ok(_))),
    ensures
        submission_recovery(fs) == submission_recovery(fs.take(n)),
    decreases fs.len() - n,
{
    if n < fs.len() {
        assert(fs.take(n + 1).drop_last() =~= fs.take(n));
        lemma_submission_recovery_stops(fs, n + 1);
    } else {
        assert(fs.take(n) =~= fs);
    }
}

pub proof fn lemma_prefix_stops<A>(f: spec_fn(Seq<WalFrame>) -> Option<A>, fs: Seq<WalFrame>, n: int)
    requires
        0 <= n <= fs.len(),
        f(fs.take(n)) is None,
        forall|s: Seq<WalFrame>| s.len() > 0 && #[trigger] f(s.drop_last()) is None ==> f(s) is None,
    ensures
        f(fs) is None,
    decreases fs.len() - n,
{
    if n < fs.len() {
        assert(fs.take(n + 1).drop_last() =~= fs.take(n));
        lemma_prefix_stops(f, fs, n + 1);
    } else {
        assert(fs.take(n) =~= fs);
    }
}

/// Recovers submission posture from committed WAL transactions, frame by frame.
pub fn recover_submission_index(report: &RecoveryScanReport) -> (r: Result<RecoveredSubmissionIndex, WalRecoveryIndexError>)
    ensures
        submission_recovery(report_frames(report.transactions@)) matches Some(Ok(v)) ==> (r matches Ok(idx) && idx.wf()
            && idx.view_spec() == v),
        submission_recovery(report_frames(report.transactions@)) matches Some(Err(e)) ==> r == Err::<
            RecoveredSubmissionIndex,
            WalRecoveryIndexError,
        >(e),
        submission_recovery(report_frames(report.transactions@)) is None ==> r matches Err(WalRecoveryIndexError::Decode(_)),
{
    let ts = &report.transactions;
    let mut index = RecoveredSubmissionIndex::empty();
    proof {
        assert(ts@.take(0) =~= Seq::<WalRecoveredTransaction>::empty());
    }
    let mut t: usize = 0;
    while t < ts.len()
        invariant
            ts@ == report.transactions@,
            t <= ts@.len(),
            index.wf(),
            submission_recovery(report_frames(ts@.take(t as int))) == Some(Ok::<SubmissionIndexView, WalRecoveryIndexError>(
                index.view_spec(),
            )),
        decreases ts.len() - t,
    {
        let frames = &ts[t].frames;
        proof {
            lemma_frames_next(ts@, t as int);
        }
        let mut i: usize = 0;
        while i < frames.len()
            invariant
                ts@ == report.transactions@,
                t < ts@.len(),
                frames@ == ts@[t as int].frames@,
                i <= frames@.len(),
                index.wf(),
                submission_recovery(report_frames(ts@.take(t as int)) + frames@.take(i as int)) == Some(
                    Ok::<SubmissionIndexView, WalRecoveryIndexError>(index.view_spec()),
                ),
            decreases frames.len() - i,
        {
            let f = &frames[i];
            proof {
                lemma_frames_step(ts@, t as int, i as int);
            }
            let ghost pre = report_frames(ts@.take(t as int)) + frames@.take(i as int + 1);
            match f.header.record_kind {
                WalRecordKind::SubmissionAcceptedRecorded => {
                    let record = match SubmissionAcceptanceRecord::from_payload_bytes(f.payload.canonical_bytes.as_slice()) {
                        Ok(x) => x,
                        Err(e) => {
                            proof {
                                lemma_seen_prefix(ts@, t as int, i as int + 1);
                                lemma_prefix_stops(|s: Seq<WalFrame>| submission_recovery(s), report_frames(ts@), pre.len() as int);
                            }
                            return Err(WalRecoveryIndexError::Decode(e));
                        },
                    };
                    proof {
                        lemma_acceptance_decoded(record);
                    }
                    match index.insert_acceptance_record(record) {
                        Err(e) => {
                            proof {
                                lemma_seen_prefix(ts@, t as int, i as int + 1);
                                lemma_submission_recovery_stops(report_frames(ts@), pre.len() as int);
                            }
                            return Err(e);
                        },
                        Ok(()) => {},
                    }
                },
                WalRecordKind::TickReceiptRecorded => {
                    let receipt = match TickReceiptRecord::from_payload_bytes(f.payload.canonical_bytes.as_slice()) {
                        Ok(x) => x,
                        Err(e) => {
                            proof {
                                lemma_seen_prefix(ts@, t as int, i as int + 1);
                                lemma_prefix_stops(|s: Seq<WalFrame>| submission_recovery(s), report_frames(ts@), pre.len() as int);
                            }
                            return Err(WalRecoveryIndexError::Decode(e));
                        },
                    };
                    proof {
                        lemma_tick_receipt_decoded(receipt);
                    }
                    index.apply_tick_receipt_record(receipt);
                },
                _ => {},
            }
            i += 1;
        }
        t += 1;
    }
    assert(ts@.take(ts@.len() as int) =~= ts@);
    Ok(index)
}

fn add_id(m: &mut DigestMap<KeySet<crate::ident::Hash>>, key: crate::ident::Hash, x: crate::ident::Hash)
    requires
        sets_wf(*old(m)),
    ensures
        sets_wf(*final(m)),
        id_sets(final(m)@) == id_sets(old(m)@).insert(key, set_at(id_sets(old(m)@), key).insert(x)),
{
    crate::causal_wal::indexes::add_to_set(m, key, x)
}

/// Recovers receipt correlations from committed WAL transactions, frame by frame.
pub fn recover_receipt_index(report: &RecoveryScanReport) -> (r: Result<RecoveredReceiptIndex, WalRecoveryIndexError>)
    ensures
        receipt_recovery(report_frames(report.transactions@)) matches Some(v) ==> (r matches Ok(idx) && idx.wf()
            && idx.view_spec() == v),
        receipt_recovery(report_frames(report.transactions@)) is None ==> r matches Err(WalRecoveryIndexError::Decode(_)),
{
    let mut index = RecoveredReceiptIndex {
        receipt_by_submission: DigestMap::new(),
        receipt_by_ticket: DigestMap::new(),
        ticket_by_submission: DigestMap::new(),
        decisions_by_receipt: DigestMap::new(),
    };
    let ts = &report.transactions;
    proof {
        assert(ts@.take(0) =~= Seq::<WalRecoveredTransaction>::empty());
    }
    let mut t: usize = 0;
    while t < ts.len()
        invariant
            ts@ == report.transactions@,
            t <= ts@.len(),
            index.wf(),
            receipt_recovery(report_frames(ts@.take(t as int))) == Some(index.view_spec()),
        decreases ts.len() - t,
    {
        let frames = &ts[t].frames;
        proof {
            lemma_frames_next(ts@, t as int);
        }
        let mut i: usize = 0;
        while i < frames.len()
            invariant
                ts@ == report.transactions@,
                t < ts@.len(),
                frames@ == ts@[t as int].frames@,
                i <= frames@.len(),
                index.wf(),
                receipt_recovery(report_frames(ts@.take(t as int)) + frames@.take(i as int)) == Some(index.view_spec()),
            decreases frames.len() - i,
        {
            let f = &frames[i];
            proof {
                lemma_frames_step(ts@, t as int, i as int);
            }
            let ghost pre = report_frames(ts@.take(t as int)) + frames@.take(i as int + 1);
            match f.header.record_kind {
                WalRecordKind::TickReceiptRecorded => {
                    let r = match TickReceiptRecord::from_payload_bytes(f.payload.canonical_bytes.as_slice()) {
                        Ok(x) => x,
                        Err(e) => {
                            proof {
                                lemma_seen_prefix(ts@, t as int, i as int + 1);
                                lemma_prefix_stops(|s: Seq<WalFrame>| receipt_recovery(s), report_frames(ts@), pre.len() as int);
                            }
                            return Err(WalRecoveryIndexError::Decode(e));
                        },
                    };
                    proof {
                        lemma_tick_receipt_decoded(r);
                    }
                    index.receipt_by_submission.insert(r.submission_id, r.receipt_digest);
                    index.receipt_by_ticket.insert(r.ticket_digest, r.receipt_digest);
                    index.ticket_by_submission.insert(r.submission_id, r.ticket_digest);
                    index.decisions_by_receipt.insert(r.receipt_digest, r.decision);
                },
                WalRecordKind::ReceiptCorrelationRecorded => {
                    let c = match WalReceiptCorrelationRecord::from_payload_bytes(f.payload.canonical_bytes.as_slice()) {
                        Ok(x) => x,
                        Err(e) => {
                            proof {
                                lemma_seen_prefix(ts@, t as int, i as int + 1);
                                lemma_prefix_stops(|s: Seq<WalFrame>| receipt_recovery(s), report_frames(ts@), pre.len() as int);
                            }
                            return Err(WalRecoveryIndexError::Decode(e));
                        },
                    };
                    proof {
                        lemma_correlation_decoded(c);
                    }
                    index.receipt_by_submission.insert(c.submission_id, c.receipt_digest);
                    index.receipt_by_ticket.insert(c.ticket_digest, c.receipt_digest);
                    index.ticket_by_submission.insert(c.submission_id, c.ticket_digest);
                },
                _ => {},
            }
            i += 1;
        }
        t += 1;
    }
    assert(ts@.take(ts@.len() as int) =~= ts@);
    Ok(index)
}

/// Recovers retained material and reading indexes from committed WAL
/// transactions, frame by frame; a later record replaces an earlier one.
pub fn recover_retention_index(report: &RecoveryScanReport) -> (r: Result<RecoveredRetentionIndex, WalRecoveryIndexError>)
    ensures
        retention_recovery(report_frames(report.transactions@)) matches Some(v) ==> (r matches Ok(idx) && idx.wf()
            && idx.view_spec() == v),
        retention_recovery(report_frames(report.transactions@)) is None ==> r matches Err(WalRecoveryIndexError::Decode(_)),
{
    let mut index = RecoveredRetentionIndex {
        material_by_digest: DigestMap::new(),
        material_by_semantic_coordinate: DigestMap::new(),
        reading_by_id: DigestMap::new(),
        readings_by_semantic_coordinate: DigestMap::new(),
    };
    proof {
        assert(id_sets(index.material_by_semantic_coordinate@) =~= Map::<crate::ident::Hash, Set<crate::ident::Hash>>::empty());
        assert(id_sets(index.readings_by_semantic_coordinate@) =~= Map::<crate::ident::Hash, Set<crate::ident::Hash>>::empty());
    }
    let ts = &report.transactions;
    proof {
        assert(ts@.take(0) =~= Seq::<WalRecoveredTransaction>::empty());
    }
    let mut t: usize = 0;
    while t < ts.len()
        invariant
            ts@ == report.transactions@,
            t <= ts@.len(),
            index.wf(),
            retention_recovery(report_frames(ts@.take(t as int))) == Some(index.view_spec()),
        decreases ts.len() - t,
    {
        let frames = &ts[t].frames;
        proof {
            lemma_frames_next(ts@, t as int);
        }
        let mut i: usize = 0;
        while i < frames.len()
            invariant
                ts@ == report.transactions@,
                t < ts@.len(),
                frames@ == ts@[t as int].frames@,
                i <= frames@.len(),
                index.wf(),
                retention_recovery(report_frames(ts@.take(t as int)) + frames@.take(i as int)) == Some(index.view_spec()),
            decreases frames.len() - i,
        {
            let f = &frames[i];
            proof {
                lemma_frames_step(ts@, t as int, i as int);
            }
            let ghost pre = report_frames(ts@.take(t as int)) + frames@.take(i as int + 1);
            match f.header.record_kind {
                WalRecordKind::RetainedMaterialRefRecorded => {
                    let m = match RetainedMaterialRecord::from_payload_bytes(f.payload.canonical_bytes.as_slice()) {
                        Ok(x) => x,
                        Err(e) => {
                            proof {
                                lemma_seen_prefix(ts@, t as int, i as int + 1);
                                lemma_prefix_stops(|s: Seq<WalFrame>| retention_recovery(s), report_frames(ts@), pre.len() as int);
                            }
                            return Err(WalRecoveryIndexError::Decode(e));
                        },
                    };
                    proof {
                        lemma_material_decoded(m);
                    }
                    add_id(&mut index.material_by_semantic_coordinate, m.semantic_coordinate_digest, m.material_digest);
                    index.material_by_digest.insert(m.material_digest, m);
                },
                WalRecordKind::ReadingEnvelopeRetained => {
                    let r = match ReadingRefRecord::from_payload_bytes(f.payload.canonical_bytes.as_slice()) {
                        Ok(x) => x,
                        Err(e) => {
                            proof {
                                lemma_seen_prefix(ts@, t as int, i as int + 1);
                                lemma_prefix_stops(|s: Seq<WalFrame>| retention_recovery(s), report_frames(ts@), pre.len() as int);
                            }
                            return Err(WalRecoveryIndexError::Decode(e));
                        },
                    };
                    proof {
                        lemma_reading_decoded(r);
                    }
                    add_id(&mut index.readings_by_semantic_coordinate, r.semantic_coordinate_digest, r.reading_id);
                    index.reading_by_id.insert(r.reading_id, r);
                },
                _ => {},
            }
            i += 1;
        }
        t += 1;
    }
    assert(ts@.take(ts@.len() as int) =~= ts@);
    Ok(index)
}

/// Recovers checkpoint publication records from committed WAL transactions, in order.
pub fn recover_checkpoint_publications(report: &RecoveryScanReport) -> (r: Result<Vec<CheckpointPublicationRecord>, WalRecoveryIndexError>)
    ensures
        publication_recovery(report_frames(report.transactions@)) matches Some(v) ==> (r matches Ok(out) && out@ == v),
        publication_recovery(report_frames(report.transactions@)) is None ==> r matches Err(WalRecoveryIndexError::Decode(_)),
{
    let mut out: Vec<CheckpointPublicationRecord> = Vec::new();
    let ts = &report.transactions;
    proof {
        assert(ts@.take(0) =~= Seq::<WalRecoveredTransaction>::empty());
    }
    let mut t: usize = 0;
    while t < ts.len()
        invariant
            ts@ == report.transactions@,
            t <= ts@.len(),
            true,
            publication_recovery(report_frames(ts@.take(t as int))) == Some(out@),
        decreases ts.len() - t,
    {
        let frames = &ts[t].frames;
        proof {
            lemma_frames_next(ts@, t as int);
        }
        let mut i: usize = 0;
        while i < frames.len()
            invariant
                ts@ == report.transactions@,
                t < ts@.len(),
                frames@ == ts@[t as int].frames@,
                i <= frames@.len(),
                true,
                publication_recovery(report_frames(ts@.take(t as int)) + frames@.take(i as int)) == Some(out@),
            decreases frames.len() - i,
        {
            let f = &frames[i];
            proof {
                lemma_frames_step(ts@, t as int, i as int);
            }
            let ghost pre = report_frames(ts@.take(t as int)) + frames@.take(i as int + 1);
            if f.header.record_kind == WalRecordKind::CheckpointPublicationRecorded {
                let p = match CheckpointPublicationRecord::from_payload_bytes(f.payload.canonical_bytes.as_slice()) {
                    Ok(x) => x,
                        Err(e) => {
                            proof {
                                lemma_seen_prefix(ts@, t as int, i as int + 1);
                                lemma_prefix_stops(|s: Seq<WalFrame>| publication_recovery(s), report_frames(ts@), pre.len() as int);
                            }
                            return Err(WalRecoveryIndexError::Decode(e));
                        },
                };
                proof {
                    lemma_publication_decoded(p);
                }
                out.push(p);
            }
            i += 1;
        }
        t += 1;
    }
    assert(ts@.take(ts@.len() as int) =~= ts@);
    Ok(out)
}

/// The obstruction a retained material record meets against the available material, if any.
pub open spec fn material_obstruction(rec: RetainedMaterialRecord, available: Set<crate::ident::Hash>) -> Option<
    RetainedMaterialObstruction,
> {
    if rec.posture != EvidenceMaterialPosture::Present || !available.contains(rec.material_digest) {
        Some(
            RetainedMaterialObstruction {
                material_digest: rec.material_digest,
                kind: rec.kind,
                scope: missing_scope_of(rec.kind),
                posture: if rec.posture == EvidenceMaterialPosture::Present {
                    EvidenceMaterialPosture::Missing
                } else {
                    rec.posture
                },
            },
        )
    } else {
        None
    }
}

/// Obstructions of retained material entries, in digest order.
pub open spec fn material_obstructions(
    es: Seq<(crate::ident::Hash, RetainedMaterialRecord)>,
    available: Set<crate::ident::Hash>,
) -> Seq<RetainedMaterialObstruction>
    decreases es.len(),
{
    if es.len() == 0 {
        Seq::empty()
    } else {
        let rest = material_obstructions(es.drop_last(), available);
        match material_obstruction(es.last().1, available) {
            Some(o) => rest.push(o),
            None => rest,
        }
    }
}

/// Validates retained material references against the available material:
/// each record not present, or present but unavailable, is an obstruction.
pub fn retained_material_obstructions(
    index: &RecoveredRetentionIndex,
    available_material: &KeySet<crate::ident::Hash>,
) -> (r: Vec<RetainedMaterialObstruction>)
    ensures
        r@ == material_obstructions(index.material_by_digest.entries_spec(), available_material@),
{
    let es = index.material_by_digest.entries();
    let mut out: Vec<RetainedMaterialObstruction> = Vec::new();
    let mut i: usize = 0;
    while i < es.len()
        invariant
            i <= es@.len(),
            es@ == index.material_by_digest.entries_spec(),
            out@ == material_obstructions(es@.take(i as int), available_material@),
        decreases es.len() - i,
    {
        let rec = es[i].1;
        proof {
            assert(es@.take(i + 1).drop_last() =~= es@.take(i as int));
        }
        if rec.posture != EvidenceMaterialPosture::Present || !available_material.contains(&rec.material_digest) {
            let posture = if rec.posture == EvidenceMaterialPosture::Present {
                EvidenceMaterialPosture::Missing
            } else {
                rec.posture
            };
            out.push(
                RetainedMaterialObstruction {
                    material_digest: rec.material_digest,
                    kind: rec.kind,
                    scope: missing_material_scope(rec.kind),
                    posture,
                },
            );
        }
        i += 1;
    }
    assert(es@.take(es@.len() as int) =~= es@);
    out
}

} // verus!
