//! Typed WAL transactions: each is a fixed list of records pushed onto a
//! builder, then committed.
use vstd::prelude::*;
use crate::causal_wal::builder::WalTransactionBuilder;
use crate::causal_wal::frame::{committed_transaction_spec, frontiers_allowed, AffectedFrontier, WalCommittedTransaction};
use crate::causal_wal::kinds::{WalAppendAuthority, WalRecordKind};
use crate::causal_wal::records::{
    CheckpointPublicationRecord, ReadingRefRecord, RetainedMaterialRecord, SubmissionAcceptanceRecord,
    TickReceiptRecord, WalReceiptCorrelationRecord,
};
use crate::causal_wal::{WalBuildError, WalValidationError};
use crate::ident::hash_to_vec;

verus! {

/// Kind and payload bytes of each record.
pub open spec fn records_view(v: Seq<(WalRecordKind, Vec<u8>)>) -> Seq<(WalRecordKind, Seq<u8>)> {
    v.map_values(|p: (WalRecordKind, Vec<u8>)| (p.0, p.1@))
}

/// First record at or after `i` whose kind needs another authority than `a`.
pub open spec fn first_wrong_authority(recs: Seq<(WalRecordKind, Seq<u8>)>, a: WalAppendAuthority, i: int) -> Option<int>
    decreases recs.len() - i,
{
    if i < 0 || i >= recs.len() {
        None
    } else if recs[i].0.required_authority_spec() != a {
        Some(i)
    } else {
        first_wrong_authority(recs, a, i + 1)
    }
}

/// The builder has LSNs and local indexes left for `n` more records.
pub open spec fn has_headroom(b: WalTransactionBuilder, n: int) -> bool {
    b.next_lsn_spec().0 + n <= u64::MAX && b.next_local_index_spec().0 + n <= u32::MAX
}

/// `r` is what pushing `recs` onto `b` and committing with `afs` gives.
pub open spec fn build_matches(
    b: WalTransactionBuilder,
    recs: Seq<(WalRecordKind, Seq<u8>)>,
    afs: Seq<AffectedFrontier>,
    r: Result<WalCommittedTransaction, WalBuildError>,
) -> bool {
    let n = b.frames_spec().len();
    if b.closed_spec() && recs.len() > 0 {
        r == Err::<WalCommittedTransaction, WalBuildError>(WalBuildError::TransactionClosed)
    } else if !has_headroom(b, recs.len() as int) {
        r is Err
    } else {
        match first_wrong_authority(recs, b.authority_spec(), 0) {
            Some(j) => r == Err::<WalCommittedTransaction, WalBuildError>(
                WalBuildError::WrongAppendAuthority {
                    record_kind: recs[j].0,
                    required: recs[j].0.required_authority_spec(),
                    actual: b.authority_spec(),
                },
            ),
            None => if n + recs.len() == 0 {
                r == Err::<WalCommittedTransaction, WalBuildError>(WalBuildError::EmptyTransaction)
            } else if b.authority_spec() != b.transaction_kind_spec().required_authority_spec() {
                r == Err::<WalCommittedTransaction, WalBuildError>(
                    WalBuildError::Validation(WalValidationError::RecordAuthorityMismatch),
                )
            } else if !frontiers_allowed(afs, b.transaction_kind_spec()) {
                r == Err::<WalCommittedTransaction, WalBuildError>(
                    WalBuildError::Validation(WalValidationError::FrontierTransitionKindMismatch),
                )
            } else {
                &&& r is Ok
                &&& r->Ok_0.frames@.len() == n + recs.len()
                &&& r->Ok_0.frames@.subrange(0, n as int) == b.frames_spec()
                &&& forall|k: int| 0 <= k < recs.len() ==> (#[trigger] r->Ok_0.frames@[n + k]).payload.kind == recs[k].0
                    && r->Ok_0.frames@[n + k].payload.canonical_bytes@ == recs[k].1
                &&& r->Ok_0.affected_frontiers@ == afs
                &&& r->Ok_0.commit.transaction_id == b.transaction_id_spec()
                &&& r->Ok_0.commit.writer_epoch == b.writer_epoch_spec()
                &&& committed_transaction_spec(r->Ok_0) == Ok::<(), WalValidationError>(())
            },
        }
    }
}

proof fn lemma_first_wrong_skip(recs: Seq<(WalRecordKind, Seq<u8>)>, a: WalAppendAuthority, i: int)
    requires
        0 <= i,
        forall|k: int| 0 <= k < i && k < recs.len() ==> (#[trigger] recs[k]).0.required_authority_spec() == a,
    ensures
        first_wrong_authority(recs, a, 0) == first_wrong_authority(recs, a, i),
    decreases i,
{
    if i > 0 {
        lemma_first_wrong_skip(recs, a, i - 1);
        if i - 1 < recs.len() {
            assert(recs[i - 1].0.required_authority_spec() == a);
        }
    }
}

#[verifier::rlimit(40)]
pub(crate) fn build_from_records(
    builder: WalTransactionBuilder,
    records: Vec<(WalRecordKind, Vec<u8>)>,
    affected_frontiers: Vec<AffectedFrontier>,
) -> (r: Result<WalCommittedTransaction, WalBuildError>)
    requires
        builder.wf(),
    ensures
        build_matches(builder, records_view(records@), affected_frontiers@, r),
{
    let ghost recs = records_view(records@);
    let ghost n = builder.frames_spec().len();
    let mut b = builder;
    let mut i: usize = 0;
    while i < records.len()
        invariant
            recs == records_view(records@),
            i <= records@.len(),
            b.wf(),
            n == builder.frames_spec().len(),
            !builder.closed_spec() || i == 0,
            b.closed_spec() == builder.closed_spec(),
            has_headroom(builder, i as int),
            b.writer_epoch_spec() == builder.writer_epoch_spec(),
            b.segment_id_spec() == builder.segment_id_spec(),
            b.transaction_id_spec() == builder.transaction_id_spec(),
            b.transaction_kind_spec() == builder.transaction_kind_spec(),
            b.authority_spec() == builder.authority_spec(),
            b.previous_commit_digest_spec() == builder.previous_commit_digest_spec(),
            b.durability_mode_spec() == builder.durability_mode_spec(),
            b.payload_codec_id_spec() == builder.payload_codec_id_spec(),
            b.payload_schema_id_spec() == builder.payload_schema_id_spec(),
            b.payload_schema_version_spec() == builder.payload_schema_version_spec(),
            b.canonical_encoding_version_spec() == builder.canonical_encoding_version_spec(),
            b.digest_domain_spec() == builder.digest_domain_spec(),
            b.next_lsn_spec().0 == builder.next_lsn_spec().0 + i,
            b.next_local_index_spec().0 == builder.next_local_index_spec().0 + i,
            b.frames_spec().len() == n + i,
            b.frames_spec().subrange(0, n as int) == builder.frames_spec(),
            forall|k: int| 0 <= k < i ==> (#[trigger] b.frames_spec()[n + k]).payload.kind == recs[k].0
                && b.frames_spec()[n + k].payload.canonical_bytes@ == recs[k].1,
            forall|k: int| 0 <= k < i ==> (#[trigger] recs[k]).0.required_authority_spec() == builder.authority_spec(),
        decreases records.len() - i,
    {
        let kind = records[i].0;
        let bytes = records[i].1.clone();
        let ghost before = b;
        proof {
            assert(recs[i as int] == (kind, records@[i as int].1@));
            lemma_first_wrong_skip(recs, builder.authority_spec(), i as int);
        }
        match b.push_record(kind, bytes) {
            Err(e) => {
                return Err(e);
            },
            Ok(()) => {},
        }
        proof {
            assert(b.frames_spec().subrange(0, n as int) =~= before.frames_spec().subrange(0, n as int));
            assert forall|k: int| 0 <= k < i + 1 implies (#[trigger] b.frames_spec()[n + k]).payload.kind == recs[k].0
                && b.frames_spec()[n + k].payload.canonical_bytes@ == recs[k].1 by {
                if k < i {
                    assert(b.frames_spec()[n + k] == before.frames_spec()[n + k]);
                }
            }
        }
        i += 1;
    }
    proof {
        lemma_first_wrong_skip(recs, builder.authority_spec(), recs.len() as int);
        assert(b.frames_spec().len() == n + recs.len());
    }
    let ghost before = b;
    let r = b.commit(affected_frontiers);
    proof {
        if r is Ok {
            assert(r->Ok_0.frames@ == before.frames_spec());
            assert(r->Ok_0.frames@.subrange(0, n as int) == builder.frames_spec());
        }
    }
    r
}

/// Builds a submission acceptance transaction: the acceptance record, then
/// its evidence digest.
pub fn build_submission_acceptance_transaction(
    builder: WalTransactionBuilder,
    record: SubmissionAcceptanceRecord,
    affected_frontiers: Vec<AffectedFrontier>,
) -> (r: Result<WalCommittedTransaction, WalBuildError>)
    requires
        builder.wf(),
    ensures
        build_matches(
            builder,
            seq![
                (WalRecordKind::SubmissionAcceptedRecorded, record.payload_spec()),
                (WalRecordKind::SubmissionAcceptanceEvidenceRecorded, record.acceptance_evidence_digest@),
            ],
            affected_frontiers@,
            r,
        ),
{
    let mut records: Vec<(WalRecordKind, Vec<u8>)> = Vec::new();
    records.push((WalRecordKind::SubmissionAcceptedRecorded, record.to_payload_bytes()));
    records.push((WalRecordKind::SubmissionAcceptanceEvidenceRecorded, hash_to_vec(&record.acceptance_evidence_digest)));
    assert(records_view(records@) =~= seq![
        (WalRecordKind::SubmissionAcceptedRecorded, record.payload_spec()),
        (WalRecordKind::SubmissionAcceptanceEvidenceRecorded, record.acceptance_evidence_digest@),
    ]);
    build_from_records(builder, records, affected_frontiers)
}

/// Builds a scheduler-owned tick transaction: the receipt, its correlation,
/// then the state-delta digest.
pub fn build_tick_transaction(
    builder: WalTransactionBuilder,
    receipt: TickReceiptRecord,
    correlation: WalReceiptCorrelationRecord,
    state_delta_digest: crate::ident::Hash,
    affected_frontiers: Vec<AffectedFrontier>,
) -> (r: Result<WalCommittedTransaction, WalBuildError>)
    requires
        builder.wf(),
    ensures
        build_matches(
            builder,
            seq![
                (WalRecordKind::TickReceiptRecorded, receipt.payload_spec()),
                (WalRecordKind::ReceiptCorrelationRecorded, correlation.payload_spec()),
                (WalRecordKind::RuntimeStateDeltaRecorded, state_delta_digest@),
            ],
            affected_frontiers@,
            r,
        ),
{
    let mut records: Vec<(WalRecordKind, Vec<u8>)> = Vec::new();
    records.push((WalRecordKind::TickReceiptRecorded, receipt.to_payload_bytes()));
    records.push((WalRecordKind::ReceiptCorrelationRecorded, correlation.to_payload_bytes()));
    records.push((WalRecordKind::RuntimeStateDeltaRecorded, hash_to_vec(&state_delta_digest)));
    assert(records_view(records@) =~= seq![
        (WalRecordKind::TickReceiptRecorded, receipt.payload_spec()),
        (WalRecordKind::ReceiptCorrelationRecorded, correlation.payload_spec()),
        (WalRecordKind::RuntimeStateDeltaRecorded, state_delta_digest@),
    ]);
    build_from_records(builder, records, affected_frontiers)
}

/// Material references, then the reading envelope, as records.
pub open spec fn retained_reading_records(material: Seq<RetainedMaterialRecord>, reading: ReadingRefRecord) -> Seq<
    (WalRecordKind, Seq<u8>),
> {
    material.map_values(|m: RetainedMaterialRecord| (WalRecordKind::RetainedMaterialRefRecorded, m.payload_spec())).push(
        (WalRecordKind::ReadingEnvelopeRetained, reading.payload_spec()),
    )
}

/// Builds a retained reading transaction: each material reference, then the reading.
pub fn build_retained_reading_transaction(
    builder: WalTransactionBuilder,
    material: &[RetainedMaterialRecord],
    reading: ReadingRefRecord,
    affected_frontiers: Vec<AffectedFrontier>,
) -> (r: Result<WalCommittedTransaction, WalBuildError>)
    requires
        builder.wf(),
    ensures
        build_matches(builder, retained_reading_records(material@, reading), affected_frontiers@, r),
{
    let mut records: Vec<(WalRecordKind, Vec<u8>)> = Vec::new();
    let mut i: usize = 0;
    while i < material.len()
        invariant
            i <= material@.len(),
            records@.len() == i,
            records_view(records@) == material@.take(i as int).map_values(
                |m: RetainedMaterialRecord| (WalRecordKind::RetainedMaterialRefRecorded, m.payload_spec()),
            ),
        decreases material.len() - i,
    {
        let ghost prev = records@;
        records.push((WalRecordKind::RetainedMaterialRefRecorded, material[i].to_payload_bytes()));
        proof {
            assert(material@.take(i + 1) =~= material@.take(i as int).push(material@[i as int]));
            assert(records@ =~= prev.push(records@[i as int]));
            assert(records_view(records@) =~= records_view(prev).push(
                (WalRecordKind::RetainedMaterialRefRecorded, material@[i as int].payload_spec()),
            ));
        }
        i += 1;
        assert(records_view(records@) =~= material@.take(i as int).map_values(
            |m: RetainedMaterialRecord| (WalRecordKind::RetainedMaterialRefRecorded, m.payload_spec()),
        ));
    }
    records.push((WalRecordKind::ReadingEnvelopeRetained, reading.to_payload_bytes()));
    assert(material@.take(material@.len() as int) =~= material@);
    assert(records_view(records@) =~= retained_reading_records(material@, reading));
    build_from_records(builder, records, affected_frontiers)
}

/// Builds a checkpoint publication transaction.
pub fn build_checkpoint_publication_transaction(
    builder: WalTransactionBuilder,
    publication: CheckpointPublicationRecord,
    affected_frontiers: Vec<AffectedFrontier>,
) -> (r: Result<WalCommittedTransaction, WalBuildError>)
    requires
        builder.wf(),
    ensures
        build_matches(
            builder,
            seq![(WalRecordKind::CheckpointPublicationRecorded, publication.payload_spec())],
            affected_frontiers@,
            r,
        ),
{
    let mut records: Vec<(WalRecordKind, Vec<u8>)> = Vec::new();
    records.push((WalRecordKind::CheckpointPublicationRecorded, publication.to_payload_bytes()));
    assert(records_view(records@) =~= seq![(WalRecordKind::CheckpointPublicationRecorded, publication.payload_spec())]);
    build_from_records(builder, records, affected_frontiers)
}

} // verus!
