//! Causal-anchor admission through the WAL: the admitted fact and its
//! receipt are recorded in one transaction, and only committed transactions
//! recover as admissions.
use vstd::prelude::*;
use crate::causal_anchor::{
    evidence_matches, prepare_causal_anchor_admission, validate_causal_anchor_admission_evidence,
    CausalAnchorAdmissionReceipt, CausalAnchorClaim, CausalAnchorFact,
};
use crate::causal_wal::builder::WalTransactionBuilder;
use crate::causal_wal::frame::{
    committed_transaction_spec, frontiers_allowed, AffectedFrontier, WalCommittedTransaction, WalFrame,
};
use crate::causal_wal::kinds::{WalAppendAuthority, WalRecordKind, WalTransactionKind};
use crate::causal_wal::recovery::{RecoveryScanReport, WalRecoveredTransaction};
use crate::causal_wal::{Lsn, WalBuildError, WalRecoveryIndexError, WalTransactionId};

verus! {

/// Builds the causal-anchor admission transaction: the admitted fact, then
/// its receipt, both bound to the builder's writer epoch, transaction id and
/// next LSN, committed with the given frontier transitions.
#[verifier::rlimit(40)]
pub fn build_causal_anchor_admission_transaction(
    builder: WalTransactionBuilder,
    claim: CausalAnchorClaim,
    support_policy_digest: crate::ident::Hash,
    affected_frontiers: Vec<AffectedFrontier>,
) -> (r: Result<WalCommittedTransaction, WalBuildError>)
    requires
        builder.wf(),
        claim.wf(),
    ensures
        builder.closed_spec() ==> r == Err::<WalCommittedTransaction, WalBuildError>(WalBuildError::TransactionClosed),
        !builder.closed_spec() && builder.authority_spec() != WalAppendAuthority::AdmissionKernel ==> r
            == Err::<WalCommittedTransaction, WalBuildError>(WalBuildError::WrongAppendAuthority {
                record_kind: WalRecordKind::CausalAnchorFactRecorded,
                required: WalAppendAuthority::AdmissionKernel,
                actual: builder.authority_spec(),
            }),
        r is Ok ==> {
            let t = r->Ok_0;
            let n = builder.frames_spec().len();
            &&& committed_transaction_spec(t) == Ok::<(), crate::causal_wal::WalValidationError>(())
            &&& t.frames@.len() == n + 2
            &&& t.frames@.subrange(0, n as int) == builder.frames_spec()
            &&& t.frames@[n as int].payload.kind == WalRecordKind::CausalAnchorFactRecorded
            &&& t.frames@[(n + 1) as int].payload.kind == WalRecordKind::CausalAnchorAdmissionReceiptRecorded
            &&& exists|f: CausalAnchorFact, rc: CausalAnchorAdmissionReceipt| {
                &&& f.wf() && rc.wf() && evidence_matches(f, rc)
                &&& f.claim_spec() == claim
                &&& rc.support_policy_digest_spec() == support_policy_digest
                &&& rc.writer_epoch_id_spec() == builder.writer_epoch_spec().0
                &&& rc.wal_transaction_id_spec() == builder.transaction_id_spec().0
                &&& rc.wal_first_lsn_spec() == builder.next_lsn_spec().0
                &&& t.frames@[n as int].payload.canonical_bytes@ == f.payload_bytes_spec()
                &&& t.frames@[(n + 1) as int].payload.canonical_bytes@ == rc.payload_bytes_spec()
            }
            &&& t.affected_frontiers@ == affected_frontiers@
        },
        !builder.closed_spec() && builder.authority_spec() == WalAppendAuthority::AdmissionKernel
            && builder.transaction_kind_spec() == WalTransactionKind::CausalAnchorAdmission
            && builder.next_lsn_spec().0 < u64::MAX - 1 && builder.next_local_index_spec().0 < u32::MAX - 1
            && frontiers_allowed(affected_frontiers@, builder.transaction_kind_spec()) ==> r is Ok,
{
    let mut builder = builder;
    let epoch = builder.writer_epoch();
    let txid = builder.transaction_id();
    let lsn = builder.next_lsn();
    let ghost claim0 = claim;
    let (fact, receipt) = prepare_causal_anchor_admission(claim, support_policy_digest, epoch.0, txid.0, lsn.0);
    let ghost n = builder.frames_spec().len();
    let fact_bytes = fact.to_payload_bytes();
    builder.push_record(WalRecordKind::CausalAnchorFactRecorded, fact_bytes)?;
    let receipt_bytes = receipt.to_payload_bytes();
    builder.push_record(WalRecordKind::CausalAnchorAdmissionReceiptRecorded, receipt_bytes)?;
    let ghost fs = builder.frames_spec();
    let r = builder.commit(affected_frontiers);
    proof {
        if r is Ok {
            assert(fs.subrange(0, n as int) =~= fs.drop_last().drop_last());
            assert(fs[n as int] == fs.drop_last().last());
            crate::causal_anchor::lemma_prepared_evidence_matches(fact, receipt, claim0);
            let t = r->Ok_0;
            assert(t.frames@[n as int].payload.canonical_bytes@ == fact.payload_bytes_spec());
            assert(t.frames@[(n + 1) as int].payload.canonical_bytes@ == receipt.payload_bytes_spec());
        }
    }
    r
}

/// A causal-anchor admission recovered from a committed WAL transaction.
#[derive(Clone, Debug, PartialEq, Eq)]
pub struct RecoveredCausalAnchorAdmission {
    fact: CausalAnchorFact,
    receipt: CausalAnchorAdmissionReceipt,
    transaction_id: WalTransactionId,
    committed_lsn: Lsn,
    commit_digest: crate::ident::Hash,
}

impl RecoveredCausalAnchorAdmission {
    /// The admitted fact.
    pub closed spec fn fact_spec(&self) -> CausalAnchorFact { self.fact }
    /// The admission receipt.
    pub closed spec fn receipt_spec(&self) -> CausalAnchorAdmissionReceipt { self.receipt }
    /// The committing transaction.
    pub closed spec fn transaction_id_spec(&self) -> WalTransactionId { self.transaction_id }
    /// Last LSN of the committing transaction.
    pub closed spec fn committed_lsn_spec(&self) -> Lsn { self.committed_lsn }
    /// Digest of the commit marker.
    pub closed spec fn commit_digest_spec(&self) -> crate::ident::Hash { self.commit_digest }

    /// Returns the admitted fact.
    pub fn fact(&self) -> (r: &CausalAnchorFact)
        ensures
            *r == self.fact_spec(),
    {
        &self.fact
    }

    /// Returns the admission receipt.
    pub fn receipt(&self) -> (r: &CausalAnchorAdmissionReceipt)
        ensures
            *r == self.receipt_spec(),
    {
        &self.receipt
    }

    /// Returns the committing transaction id.
    pub fn transaction_id(&self) -> (r: WalTransactionId)
        ensures
            r == self.transaction_id_spec(),
    {
        self.transaction_id
    }

    /// Returns the last LSN of the committing transaction.
    pub fn committed_lsn(&self) -> (r: Lsn)
        ensures
            r == self.committed_lsn_spec(),
    {
        self.committed_lsn
    }

    /// Returns the commit digest of the committing transaction.
    pub fn commit_digest(&self) -> (r: &crate::ident::Hash)
        ensures
            *r == self.commit_digest_spec(),
    {
        &self.commit_digest
    }
}

/// Positions of the frames of record kind `k` in `fs`.
pub open spec fn count_kind(fs: Seq<WalFrame>, k: WalRecordKind) -> nat {
    fs.filter(|f: WalFrame| f.payload.kind == k).len()
}

/// Frames `i < j` of `t` are its only fact and receipt frames and carry the
/// admission's encoded fact and receipt.
pub open spec fn admission_frames_at(a: RecoveredCausalAnchorAdmission, t: WalRecoveredTransaction, i: int, j: int) -> bool {
    &&& 0 <= i < j < t.frames@.len()
    &&& t.frames@[i].payload.kind == WalRecordKind::CausalAnchorFactRecorded
    &&& t.frames@[j].payload.kind == WalRecordKind::CausalAnchorAdmissionReceiptRecorded
    &&& a.fact_spec().payload_bytes_spec() == t.frames@[i].payload.canonical_bytes@
    &&& a.receipt_spec().payload_bytes_spec() == t.frames@[j].payload.canonical_bytes@
    &&& forall|m: int| 0 <= m < t.frames@.len() && m != i ==> #[trigger] t.frames@[m].payload.kind
        != WalRecordKind::CausalAnchorFactRecorded
    &&& forall|m: int| 0 <= m < t.frames@.len() && m != j ==> #[trigger] t.frames@[m].payload.kind
        != WalRecordKind::CausalAnchorAdmissionReceiptRecorded
}

/// A recovered admission faithfully reports transaction `t`: one fact frame
/// followed by one receipt frame, decoding to matching evidence.
pub open spec fn admission_reports(a: RecoveredCausalAnchorAdmission, t: WalRecoveredTransaction) -> bool {
    &&& a.transaction_id_spec() == t.commit.transaction_id
    &&& a.committed_lsn_spec() == t.commit.last_lsn
    &&& a.commit_digest_spec() == t.commit.commit_digest
    &&& a.fact_spec().wf() && a.receipt_spec().wf()
    &&& evidence_matches(a.fact_spec(), a.receipt_spec())
    &&& exists|i: int, j: int| #[trigger] admission_frames_at(a, t, i, j)
}

/// The committed causal-anchor admission transactions of a report, in order.
pub open spec fn admission_transactions(ts: Seq<WalRecoveredTransaction>) -> Seq<WalRecoveredTransaction> {
    ts.filter(|t: WalRecoveredTransaction| t.commit.transaction_kind == WalTransactionKind::CausalAnchorAdmission)
}

/// The structural or decoding defect `e` is reported for transaction `t`.
pub open spec fn error_describes(e: WalRecoveryIndexError, t: WalRecoveredTransaction) -> bool {
    match e {
        WalRecoveryIndexError::MissingCausalAnchorFactFrame { transaction_id } => transaction_id == t.commit.transaction_id
            && count_kind(t.frames@, WalRecordKind::CausalAnchorFactRecorded) == 0,
        WalRecoveryIndexError::MissingCausalAnchorAdmissionReceiptFrame { transaction_id } => transaction_id
            == t.commit.transaction_id && count_kind(t.frames@, WalRecordKind::CausalAnchorAdmissionReceiptRecorded) == 0,
        WalRecoveryIndexError::DuplicateCausalAnchorFactFrame { transaction_id } => transaction_id == t.commit.transaction_id
            && count_kind(t.frames@, WalRecordKind::CausalAnchorFactRecorded) > 1,
        WalRecoveryIndexError::DuplicateCausalAnchorAdmissionReceiptFrame { transaction_id } => transaction_id
            == t.commit.transaction_id && count_kind(t.frames@, WalRecordKind::CausalAnchorAdmissionReceiptRecorded) > 1,
        WalRecoveryIndexError::NonCanonicalCausalAnchorAdmissionFrameOrder { transaction_id } => transaction_id
            == t.commit.transaction_id,
        WalRecoveryIndexError::CausalAnchorPayload(_) => true,
        _ => false,
    }
}

#[verifier::rlimit(40)]
fn recover_one(t: &WalRecoveredTransaction) -> (r: Result<RecoveredCausalAnchorAdmission, WalRecoveryIndexError>)
    ensures
        r is Ok ==> admission_reports(r->Ok_0, *t),
        r is Err ==> error_describes(r->Err_0, *t),
{
    let txid = t.commit.transaction_id;
    let mut fact_index: Option<usize> = None;
    let mut receipt_index: Option<usize> = None;
    let mut i: usize = 0;
    while i < t.frames.len()
        invariant
            i <= t.frames@.len(),
            txid == t.commit.transaction_id,
            fact_index matches Some(a) ==> a < i && t.frames@[a as int].payload.kind == WalRecordKind::CausalAnchorFactRecorded,
            receipt_index matches Some(a) ==> a < i && t.frames@[a as int].payload.kind == WalRecordKind::CausalAnchorAdmissionReceiptRecorded,
            fact_index is None ==> forall|m: int| 0 <= m < i ==> #[trigger] t.frames@[m].payload.kind != WalRecordKind::CausalAnchorFactRecorded,
            receipt_index is None ==> forall|m: int| 0 <= m < i ==> #[trigger] t.frames@[m].payload.kind != WalRecordKind::CausalAnchorAdmissionReceiptRecorded,
            fact_index matches Some(a) ==> forall|m: int| 0 <= m < i && m != a ==> #[trigger] t.frames@[m].payload.kind != WalRecordKind::CausalAnchorFactRecorded,
            receipt_index matches Some(a) ==> forall|m: int| 0 <= m < i && m != a ==> #[trigger] t.frames@[m].payload.kind != WalRecordKind::CausalAnchorAdmissionReceiptRecorded,
        decreases t.frames.len() - i,
    {
        let kind = t.frames[i].payload.kind;
        if kind == WalRecordKind::CausalAnchorFactRecorded {
            if let Some(a) = fact_index {
                proof { lemma_two_of_kind(t.frames@, WalRecordKind::CausalAnchorFactRecorded, a as int, i as int); }
                return Err(WalRecoveryIndexError::DuplicateCausalAnchorFactFrame { transaction_id: txid });
            }
            fact_index = Some(i);
        } else if kind == WalRecordKind::CausalAnchorAdmissionReceiptRecorded {
            if let Some(a) = receipt_index {
                proof { lemma_two_of_kind(t.frames@, WalRecordKind::CausalAnchorAdmissionReceiptRecorded, a as int, i as int); }
                return Err(WalRecoveryIndexError::DuplicateCausalAnchorAdmissionReceiptFrame { transaction_id: txid });
            }
            receipt_index = Some(i);
        }
        i += 1;
    }
    let fi = match fact_index {
        Some(a) => a,
        None => {
            proof { lemma_none_of_kind(t.frames@, WalRecordKind::CausalAnchorFactRecorded); }
            return Err(WalRecoveryIndexError::MissingCausalAnchorFactFrame { transaction_id: txid });
        },
    };
    let ri = match receipt_index {
        Some(a) => a,
        None => {
            proof { lemma_none_of_kind(t.frames@, WalRecordKind::CausalAnchorAdmissionReceiptRecorded); }
            return Err(WalRecoveryIndexError::MissingCausalAnchorAdmissionReceiptFrame { transaction_id: txid });
        },
    };
    if ri < fi {
        return Err(WalRecoveryIndexError::NonCanonicalCausalAnchorAdmissionFrameOrder { transaction_id: txid });
    }
    let fact = match CausalAnchorFact::from_payload_bytes(t.frames[fi].payload.canonical_bytes.as_slice()) {
        Ok(f) => f,
        Err(e) => return Err(WalRecoveryIndexError::CausalAnchorPayload(e)),
    };
    let receipt = match CausalAnchorAdmissionReceipt::from_payload_bytes(t.frames[ri].payload.canonical_bytes.as_slice()) {
        Ok(x) => x,
        Err(e) => return Err(WalRecoveryIndexError::CausalAnchorPayload(e)),
    };
    match validate_causal_anchor_admission_evidence(&fact, &receipt) {
        Ok(()) => {},
        Err(e) => return Err(WalRecoveryIndexError::CausalAnchorPayload(e)),
    }
    let a = RecoveredCausalAnchorAdmission {
        fact,
        receipt,
        transaction_id: txid,
        committed_lsn: t.commit.last_lsn,
        commit_digest: t.commit.commit_digest,
    };
    proof {
        lemma_reports(a, *t, fi as int, ri as int);
    }
    Ok(a)
}

proof fn lemma_reports(a: RecoveredCausalAnchorAdmission, t: WalRecoveredTransaction, i: int, j: int)
    requires
        0 <= i < j < t.frames@.len(),
        a.transaction_id_spec() == t.commit.transaction_id,
        a.committed_lsn_spec() == t.commit.last_lsn,
        a.commit_digest_spec() == t.commit.commit_digest,
        a.fact_spec().wf() && a.receipt_spec().wf(),
        evidence_matches(a.fact_spec(), a.receipt_spec()),
        t.frames@[i].payload.kind == WalRecordKind::CausalAnchorFactRecorded,
        t.frames@[j].payload.kind == WalRecordKind::CausalAnchorAdmissionReceiptRecorded,
        a.fact_spec().payload_bytes_spec() == t.frames@[i].payload.canonical_bytes@,
        a.receipt_spec().payload_bytes_spec() == t.frames@[j].payload.canonical_bytes@,
        forall|m: int| 0 <= m < t.frames@.len() && m != i ==> #[trigger] t.frames@[m].payload.kind
            != WalRecordKind::CausalAnchorFactRecorded,
        forall|m: int| 0 <= m < t.frames@.len() && m != j ==> #[trigger] t.frames@[m].payload.kind
            != WalRecordKind::CausalAnchorAdmissionReceiptRecorded,
    ensures
        admission_reports(a, t),
{
    assert(admission_frames_at(a, t, i, j));
}

/// Recovers causal-anchor admissions from committed transactions only.
///
/// Each committed admission transaction must hold exactly one fact frame
/// followed by exactly one receipt frame; both must decode, and they must
/// describe the same admission. Transactions of other kinds are ignored.
pub fn recover_causal_anchor_admissions(report: &RecoveryScanReport) -> (r: Result<Vec<RecoveredCausalAnchorAdmission>, WalRecoveryIndexError>)
    ensures
        r is Ok ==> {
            let ts = admission_transactions(report.transactions@);
            &&& r->Ok_0@.len() == ts.len()
            &&& forall|k: int| 0 <= k < ts.len() ==> admission_reports(#[trigger] r->Ok_0@[k], ts[k])
        },
        admission_transactions(report.transactions@).len() == 0 ==> r is Ok,
        r is Err ==> exists|t: WalRecoveredTransaction| #[trigger] admission_transactions(report.transactions@).contains(t)
            && error_describes(r->Err_0, t),
{
    let ghost all = report.transactions@;
    let mut out: Vec<RecoveredCausalAnchorAdmission> = Vec::new();
    let mut k: usize = 0;
    while k < report.transactions.len()
        invariant
            k <= all.len(),
            all == report.transactions@,
            out@.len() == admission_transactions(all.subrange(0, k as int)).len(),
            forall|q: int| 0 <= q < out@.len() ==> admission_reports(#[trigger] out@[q], admission_transactions(all.subrange(0, k as int))[q]),
        decreases all.len() - k,
    {
        let t = &report.transactions[k];
        proof {
            let pred = |x: WalRecoveredTransaction| x.commit.transaction_kind == WalTransactionKind::CausalAnchorAdmission;
            assert(all.subrange(0, k + 1) =~= all.subrange(0, k as int).push(all[k as int]));
            all.subrange(0, k as int).lemma_filter_push(all[k as int], pred);
            if pred(all[k as int]) {
                all.lemma_filter_contains_rev(pred, all[k as int]);
            }
        }
        if t.commit.transaction_kind == WalTransactionKind::CausalAnchorAdmission {
            let a = match recover_one(t) {
                Ok(a) => a,
                Err(e) => {
                    proof {
                        assert(admission_transactions(all).contains(all[k as int]));
                    }
                    return Err(e);
                },
            };
            out.push(a);
        }
        k += 1;
    }
    assert(all.subrange(0, all.len() as int) =~= all);
    Ok(out)
}

proof fn lemma_two_of_kind(fs: Seq<WalFrame>, k: WalRecordKind, a: int, b: int)
    requires
        0 <= a < b < fs.len(),
        fs[a].payload.kind == k,
        fs[b].payload.kind == k,
    ensures
        count_kind(fs, k) > 1,
{
    let pred = |f: WalFrame| f.payload.kind == k;
    lemma_filter_count_two(fs, pred, a, b);
}

proof fn lemma_filter_count_two(fs: Seq<WalFrame>, pred: spec_fn(WalFrame) -> bool, a: int, b: int)
    requires
        0 <= a < b < fs.len(),
        pred(fs[a]),
        pred(fs[b]),
    ensures
        fs.filter(pred).len() > 1,
    decreases fs.len(),
{
    reveal(Seq::filter);
    if b == fs.len() - 1 {
        lemma_filter_count_one(fs.drop_last(), pred, a);
    } else {
        lemma_filter_count_two(fs.drop_last(), pred, a, b);
        assert(fs.drop_last().filter(pred).len() <= fs.filter(pred).len());
    }
}

proof fn lemma_filter_count_one(fs: Seq<WalFrame>, pred: spec_fn(WalFrame) -> bool, a: int)
    requires
        0 <= a < fs.len(),
        pred(fs[a]),
    ensures
        fs.filter(pred).len() > 0,
    decreases fs.len(),
{
    reveal(Seq::filter);
    if a < fs.len() - 1 {
        lemma_filter_count_one(fs.drop_last(), pred, a);
    }
}

proof fn lemma_none_of_kind(fs: Seq<WalFrame>, k: WalRecordKind)
    requires
        forall|m: int| 0 <= m < fs.len() ==> #[trigger] fs[m].payload.kind != k,
    ensures
        count_kind(fs, k) == 0,
{
    let pred = |f: WalFrame| f.payload.kind == k;
    fs.lemma_all_neg_filter_empty(pred);
}

} // verus!
