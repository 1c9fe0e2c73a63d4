//! Indexes rebuilt from committed WAL records after recovery.
use vstd::prelude::*;
use vstd::bytes::*;
use vstd::string::*;
use crate::causal_wal::digest_map::{entries_map, lemma_same_keys_same_order, lemma_same_view_same_entries, DigestMap};
use crate::causal_wal::records::{
    ReadingRefRecord, RecoveredSubmissionPosture, RetainedMaterialRecord, SubmissionAcceptanceRecord,
    SubmissionRetryPosture, TickReceiptRecord, WalReceiptCorrelationRecord, WalTickDecision,
};
use crate::causal_wal::WalRecoveryIndexError;
use crate::crypto::{blake3_digest, blake3_hash};
use crate::encoding::{optional_hash_bytes, push_hash, push_optional_hash, push_slice, push_u64_le};
use crate::ident::hash_eq;
use crate::keyset::{lemma_keyset_canonical_unique, KeySet};

verus! {

/// Recovered submission entry.
#[derive(Clone, Copy, Debug, PartialEq, Eq)]
pub struct RecoveredSubmissionEntry {
    /// Submission acceptance record.
    pub acceptance: SubmissionAcceptanceRecord,
    /// Current recovered posture.
    pub posture: RecoveredSubmissionPosture,
    /// Deciding receipt digest, if any.
    pub receipt_digest: Option<crate::ident::Hash>,
}

/// Mathematical view of a recovered submission index.
pub struct SubmissionIndexView {
    /// Entries by submission id.
    pub submissions: Map<crate::ident::Hash, RecoveredSubmissionEntry>,
    /// Submission ids by canonical envelope digest.
    pub envelopes: Map<crate::ident::Hash, Set<crate::ident::Hash>>,
}

/// The index with nothing recovered.
pub open spec fn empty_submission_view() -> SubmissionIndexView {
    SubmissionIndexView { submissions: Map::empty(), envelopes: Map::empty() }
}

/// Ids recorded for envelope `env`.
pub open spec fn ids_for(v: SubmissionIndexView, env: crate::ident::Hash) -> Set<crate::ident::Hash> {
    if v.envelopes.dom().contains(env) {
        v.envelopes[env]
    } else {
        Set::empty()
    }
}

/// One acceptance record applied to the index: an id may not change its
/// envelope; the first acceptance of an id is kept, pending.
pub open spec fn accept_step(v: SubmissionIndexView, r: SubmissionAcceptanceRecord) -> Result<
    SubmissionIndexView,
    WalRecoveryIndexError,
> {
    if v.submissions.dom().contains(r.submission_id) && v.submissions[r.submission_id].acceptance.canonical_envelope_digest
        != r.canonical_envelope_digest {
        Err(WalRecoveryIndexError::SubmissionEnvelopeConflict { submission_id: r.submission_id })
    } else {
        Ok(
            SubmissionIndexView {
                submissions: if v.submissions.dom().contains(r.submission_id) {
                    v.submissions
                } else {
                    v.submissions.insert(
                        r.submission_id,
                        RecoveredSubmissionEntry {
                            acceptance: r,
                            posture: RecoveredSubmissionPosture::AcceptedPending,
                            receipt_digest: None,
                        },
                    )
                },
                envelopes: v.envelopes.insert(r.canonical_envelope_digest, ids_for(v, r.canonical_envelope_digest).insert(r.submission_id)),
            },
        )
    }
}

/// Acceptance records applied in order, stopping at the first conflict.
pub open spec fn accept_fold(rs: Seq<SubmissionAcceptanceRecord>) -> Result<SubmissionIndexView, WalRecoveryIndexError>
    decreases rs.len(),
{
    if rs.len() == 0 {
        Ok(empty_submission_view())
    } else {
        match accept_fold(rs.drop_last()) {
            Err(e) => Err(e),
            Ok(v) => accept_step(v, rs.last()),
        }
    }
}

/// Records agree on every submission id they share: one id, one record.
pub open spec fn acceptances_consistent(s: Set<SubmissionAcceptanceRecord>) -> bool {
    forall|a: SubmissionAcceptanceRecord, b: SubmissionAcceptanceRecord|
        #![trigger s.contains(a), s.contains(b)]
        s.contains(a) && s.contains(b) && a.submission_id == b.submission_id ==> a == b
}

/// A freshly recovered, pending entry for an acceptance.
pub open spec fn pending_entry(r: SubmissionAcceptanceRecord) -> RecoveredSubmissionEntry {
    RecoveredSubmissionEntry { acceptance: r, posture: RecoveredSubmissionPosture::AcceptedPending, receipt_digest: None }
}

/// The index a set of consistent acceptances describes, whatever their order:
/// one pending entry per submission id, and per envelope the ids accepted
/// under it.
pub open spec fn accepted_view(s: Set<SubmissionAcceptanceRecord>) -> SubmissionIndexView {
    SubmissionIndexView {
        submissions: Map::new(
            |id: crate::ident::Hash| exists|r: SubmissionAcceptanceRecord| s.contains(r) && r.submission_id == id,
            |id: crate::ident::Hash| pending_entry(choose|r: SubmissionAcceptanceRecord| s.contains(r) && r.submission_id == id),
        ),
        envelopes: Map::new(
            |env: crate::ident::Hash| exists|r: SubmissionAcceptanceRecord| s.contains(r) && r.canonical_envelope_digest == env,
            |env: crate::ident::Hash| Set::new(
                |id: crate::ident::Hash| exists|r: SubmissionAcceptanceRecord|
                    s.contains(r) && r.canonical_envelope_digest == env && r.submission_id == id,
            ),
        ),
    }
}

proof fn lemma_accept_fold_is_accepted_view(rs: Seq<SubmissionAcceptanceRecord>)
    requires
        acceptances_consistent(rs.to_set()),
    ensures
        accept_fold(rs) == Ok::<SubmissionIndexView, WalRecoveryIndexError>(accepted_view(rs.to_set())),
    decreases rs.len(),
{
    if rs.len() == 0 {
        assert(accepted_view(rs.to_set()).submissions =~= Map::empty());
        assert(accepted_view(rs.to_set()).envelopes =~= Map::empty());
    } else {
        let t = rs.drop_last();
        let r = rs.last();
        let st = t.to_set();
        let sr = rs.to_set();
        assert(rs =~= t.push(r));
        assert(sr =~= st.insert(r)) by {
            assert forall|x: SubmissionAcceptanceRecord| sr.contains(x) <==> st.insert(r).contains(x) by {
                if sr.contains(x) {
                    let i = choose|i: int| 0 <= i < rs.len() && rs[i] == x;
                    if i < rs.len() - 1 {
                        assert(t[i] == x);
                    }
                }
                if st.contains(x) {
                    let i = choose|i: int| 0 <= i < t.len() && t[i] == x;
                    assert(rs[i] == x);
                }
                assert(rs[rs.len() - 1] == r);
            }
        }
        assert(acceptances_consistent(st)) by {
            assert forall|a: SubmissionAcceptanceRecord, b: SubmissionAcceptanceRecord|
                #![trigger st.contains(a), st.contains(b)]
                st.contains(a) && st.contains(b) && a.submission_id == b.submission_id implies a == b by {
                assert(sr.contains(a) && sr.contains(b));
            }
        }
        lemma_accept_fold_is_accepted_view(t);
        let v = accepted_view(st);
        let w = accepted_view(sr);
        assert(sr.contains(r));
        if v.submissions.dom().contains(r.submission_id) {
            let x = choose|x: SubmissionAcceptanceRecord| st.contains(x) && x.submission_id == r.submission_id;
            assert(sr.contains(x));
            assert(x == r);
        }
        let stepped = accept_step(v, r)->Ok_0;
        assert(stepped.submissions =~= w.submissions) by {
            assert forall|id: crate::ident::Hash| #[trigger] stepped.submissions.dom().contains(id) <==> w.submissions.dom().contains(id) by {
                if w.submissions.dom().contains(id) && id != r.submission_id {
                    let x = choose|x: SubmissionAcceptanceRecord| sr.contains(x) && x.submission_id == id;
                    assert(st.contains(x));
                }
                if id == r.submission_id {
                    assert(sr.contains(r) && r.submission_id == id);
                } else if stepped.submissions.dom().contains(id) {
                    assert(v.submissions.dom().contains(id));
                    let x = choose|x: SubmissionAcceptanceRecord| st.contains(x) && x.submission_id == id;
                    assert(sr.contains(x) && x.submission_id == id);
                }
            }
            assert forall|id: crate::ident::Hash| #[trigger] stepped.submissions.dom().contains(id) implies stepped.submissions[id]
                == w.submissions[id] by {
                let y = choose|x: SubmissionAcceptanceRecord| sr.contains(x) && x.submission_id == id;
                if id == r.submission_id {
                    assert(sr.contains(y));
                    assert(y == r);
                    if v.submissions.dom().contains(id) {
                        let x = choose|x: SubmissionAcceptanceRecord| st.contains(x) && x.submission_id == id;
                        assert(sr.contains(x));
                        assert(x == r);
                    }
                } else {
                    let x = choose|x: SubmissionAcceptanceRecord| st.contains(x) && x.submission_id == id;
                    assert(st.contains(x));
                    assert(sr.contains(x));
                    assert(sr.contains(y));
                    assert(x == y);
                }
            }
        }
        assert(stepped.envelopes =~= w.envelopes) by {
            let env = r.canonical_envelope_digest;
            assert forall|e: crate::ident::Hash| #[trigger] stepped.envelopes.dom().contains(e) <==> w.envelopes.dom().contains(e) by {
                if w.envelopes.dom().contains(e) && e != env {
                    let x = choose|x: SubmissionAcceptanceRecord| sr.contains(x) && x.canonical_envelope_digest == e;
                    assert(st.contains(x));
                }
                if e == env {
                    assert(sr.contains(r) && r.canonical_envelope_digest == e);
                } else if stepped.envelopes.dom().contains(e) {
                    assert(v.envelopes.dom().contains(e));
                    let x = choose|x: SubmissionAcceptanceRecord| st.contains(x) && x.canonical_envelope_digest == e;
                    assert(sr.contains(x) && x.canonical_envelope_digest == e);
                }
            }
            assert forall|e: crate::ident::Hash| #[trigger] stepped.envelopes.dom().contains(e) implies stepped.envelopes[e]
                =~= w.envelopes[e] by {
                assert forall|id: crate::ident::Hash| stepped.envelopes[e].contains(id) <==> w.envelopes[e].contains(id) by {
                    if w.envelopes[e].contains(id) {
                        let x = choose|x: SubmissionAcceptanceRecord|
                            sr.contains(x) && x.canonical_envelope_digest == e && x.submission_id == id;
                        if x != r {
                            assert(st.contains(x));
                        }
                    }
                    if e != env && stepped.envelopes[e].contains(id) {
                        let x = choose|x: SubmissionAcceptanceRecord|
                            st.contains(x) && x.canonical_envelope_digest == e && x.submission_id == id;
                        assert(sr.contains(x));
                    }
                    if e == env && stepped.envelopes[e].contains(id) && id != r.submission_id {
                        assert(ids_for(v, env).contains(id));
                        let x = choose|x: SubmissionAcceptanceRecord|
                            st.contains(x) && x.canonical_envelope_digest == e && x.submission_id == id;
                        assert(sr.contains(x));
                    }
                }
            }
        }
    }
}

/// The order in which consistent acceptances arrive does not change what is
/// recovered: two arrangements of the same records fold to the same index.
pub proof fn lemma_acceptance_arrival_order_is_irrelevant(rs1: Seq<SubmissionAcceptanceRecord>, rs2: Seq<SubmissionAcceptanceRecord>)
    requires
        acceptances_consistent(rs1.to_set()),
        rs1.to_multiset() == rs2.to_multiset(),
    ensures
        accept_fold(rs1) is Ok,
        accept_fold(rs1) == accept_fold(rs2),
{
    broadcast use vstd::seq_lib::group_to_multiset_ensures;
    assert(rs1.to_set() =~= rs2.to_set()) by {
        assert forall|x: SubmissionAcceptanceRecord| rs1.to_set().contains(x) <==> rs2.to_set().contains(x) by {
            assert(rs1.contains(x) <==> rs1.to_multiset().count(x) > 0);
            assert(rs2.contains(x) <==> rs2.to_multiset().count(x) > 0);
        }
    }
    lemma_accept_fold_is_accepted_view(rs1);
    lemma_accept_fold_is_accepted_view(rs2);
}

/// Recovered posture a tick decision implies.
pub open spec fn decision_posture(d: WalTickDecision) -> RecoveredSubmissionPosture {
    match d {
        WalTickDecision::Applied => RecoveredSubmissionPosture::DecidedApplied,
        WalTickDecision::RejectedFootprintConflict => RecoveredSubmissionPosture::DecidedRejected,
        WalTickDecision::Obstructed => RecoveredSubmissionPosture::Obstructed,
    }
}

/// One tick receipt applied: a recovered submission takes the decision and receipt.
pub open spec fn receipt_step(v: SubmissionIndexView, r: TickReceiptRecord) -> SubmissionIndexView {
    if v.submissions.dom().contains(r.submission_id) {
        SubmissionIndexView {
            submissions: v.submissions.insert(
                r.submission_id,
                RecoveredSubmissionEntry {
                    acceptance: v.submissions[r.submission_id].acceptance,
                    posture: decision_posture(r.decision),
                    receipt_digest: Some(r.receipt_digest),
                },
            ),
            envelopes: v.envelopes,
        }
    } else {
        v
    }
}

/// Tick receipts applied in order.
pub open spec fn receipt_fold(v: SubmissionIndexView, rs: Seq<TickReceiptRecord>) -> SubmissionIndexView
    decreases rs.len(),
{
    if rs.len() == 0 {
        v
    } else {
        receipt_step(receipt_fold(v, rs.drop_last()), rs.last())
    }
}

/// Retry posture of an id/envelope pair against a recovered index.
pub open spec fn retry_posture_spec(v: SubmissionIndexView, id: crate::ident::Hash, env: crate::ident::Hash) -> SubmissionRetryPosture {
    if !v.submissions.dom().contains(id) {
        if v.envelopes.dom().contains(env) && v.envelopes[env] != Set::<crate::ident::Hash>::empty() {
            SubmissionRetryPosture::NewSubmissionWithoutPolicyDedupe
        } else {
            SubmissionRetryPosture::NotAccepted
        }
    } else if v.submissions[id].acceptance.canonical_envelope_digest != env {
        SubmissionRetryPosture::ConflictSameIdDifferentEnvelope
    } else {
        match v.submissions[id].posture {
            RecoveredSubmissionPosture::AcceptedPending => SubmissionRetryPosture::AlreadyAcceptedPending,
            RecoveredSubmissionPosture::DecidedApplied => SubmissionRetryPosture::AlreadyDecidedApplied,
            RecoveredSubmissionPosture::DecidedRejected => SubmissionRetryPosture::AlreadyDecidedRejected,
            _ => SubmissionRetryPosture::AlreadyObstructed,
        }
    }
}

/// Recovered submission index: entries by submission id and submission ids by envelope.
#[derive(Debug, PartialEq, Eq)]
pub struct RecoveredSubmissionIndex {
    submissions: DigestMap<RecoveredSubmissionEntry>,
    envelope_to_submissions: DigestMap<KeySet<crate::ident::Hash>>,
}

/// Sets of the envelope map.
pub open spec fn id_sets(m: Map<crate::ident::Hash, KeySet<crate::ident::Hash>>) -> Map<crate::ident::Hash, Set<crate::ident::Hash>> {
    m.map_values(|s: KeySet<crate::ident::Hash>| s@)
}

impl RecoveredSubmissionIndex {
    /// Entries in ascending id order.
    pub closed spec fn submission_entries(&self) -> Seq<(crate::ident::Hash, RecoveredSubmissionEntry)> {
        self.submissions.entries_spec()
    }

    /// Envelope entries in ascending envelope order.
    pub closed spec fn envelope_entries(&self) -> Seq<(crate::ident::Hash, KeySet<crate::ident::Hash>)> {
        self.envelope_to_submissions.entries_spec()
    }

    /// The index as maps.
    pub closed spec fn view_spec(&self) -> SubmissionIndexView {
        SubmissionIndexView { submissions: self.submissions@, envelopes: id_sets(self.envelope_to_submissions@) }
    }

    /// Both maps are well formed and every id set is.
    pub closed spec fn wf(&self) -> bool {
        &&& self.submissions.wf()
        &&& self.envelope_to_submissions.wf()
        &&& forall|k: crate::ident::Hash| #[trigger] self.envelope_to_submissions@.dom().contains(k)
            ==> self.envelope_to_submissions@[k].wf()
    }

    pub(crate) fn empty() -> (r: Self)
        ensures
            r.wf(),
            r.view_spec() == empty_submission_view(),
    {
        let r = RecoveredSubmissionIndex { submissions: DigestMap::new(), envelope_to_submissions: DigestMap::new() };
        assert(id_sets(r.envelope_to_submissions@) =~= Map::<crate::ident::Hash, Set<crate::ident::Hash>>::empty());
        r
    }

    pub(crate) fn insert_acceptance_record(&mut self, record: SubmissionAcceptanceRecord) -> (r: Result<(), WalRecoveryIndexError>)
        requires
            old(self).wf(),
        ensures
            final(self).wf(),
            accept_step(old(self).view_spec(), record) matches Err(e) ==> r == Err::<(), WalRecoveryIndexError>(e),
            accept_step(old(self).view_spec(), record) matches Ok(v) ==> r is Ok && final(self).view_spec() == v,
    {
        match self.submissions.get(&record.submission_id) {
            Some(existing) => {
                if !hash_eq(&existing.acceptance.canonical_envelope_digest, &record.canonical_envelope_digest) {
                    return Err(WalRecoveryIndexError::SubmissionEnvelopeConflict { submission_id: record.submission_id });
                }
            },
            None => {},
        }
        let ghost before_env = self.envelope_to_submissions@;
        let ghost before_sub = self.submissions@;
        let mut ids = match self.envelope_to_submissions.take(&record.canonical_envelope_digest) {
            Some(s) => s,
            None => KeySet::new(),
        };
        ids.insert(record.submission_id);
        let ghost new_ids = ids;
        self.envelope_to_submissions.insert(record.canonical_envelope_digest, ids);
        if self.submissions.get(&record.submission_id).is_none() {
            self.submissions.insert(
                record.submission_id,
                RecoveredSubmissionEntry {
                    acceptance: record,
                    posture: RecoveredSubmissionPosture::AcceptedPending,
                    receipt_digest: None,
                },
            );
        }
        proof {
            let env = record.canonical_envelope_digest;
            assert(self.envelope_to_submissions@ == before_env.insert(env, new_ids));
            assert(id_sets(self.envelope_to_submissions@) =~= id_sets(before_env).insert(
                env,
                ids_for(old(self).view_spec(), env).insert(record.submission_id),
            ));
            assert forall|k: crate::ident::Hash| #[trigger] self.envelope_to_submissions@.dom().contains(k)
                implies self.envelope_to_submissions@[k].wf() by {
                if k != env {
                    assert(before_env.dom().contains(k));
                }
            }
        }
        Ok(())
    }

    pub(crate) fn apply_tick_receipt_record(&mut self, receipt: TickReceiptRecord)
        requires
            old(self).wf(),
        ensures
            final(self).wf(),
            final(self).view_spec() == receipt_step(old(self).view_spec(), receipt),
    {
        match self.submissions.get(&receipt.submission_id) {
            None => {},
            Some(existing) => {
                let acceptance = existing.acceptance;
                let posture = match receipt.decision {
                    WalTickDecision::Applied => RecoveredSubmissionPosture::DecidedApplied,
                    WalTickDecision::RejectedFootprintConflict => RecoveredSubmissionPosture::DecidedRejected,
                    WalTickDecision::Obstructed => RecoveredSubmissionPosture::Obstructed,
                };
                self.submissions.insert(
                    receipt.submission_id,
                    RecoveredSubmissionEntry { acceptance, posture, receipt_digest: Some(receipt.receipt_digest) },
                );
            },
        }
    }

    /// Builds a recovered index from accepted submission records; every
    /// recovered submission starts accepted pending. An id recorded with two
    /// different envelopes is a conflict.
    pub fn from_acceptance_records(records: Vec<SubmissionAcceptanceRecord>) -> (r: Result<Self, WalRecoveryIndexError>)
        ensures
            accept_fold(records@) matches Err(e) ==> r == Err::<Self, WalRecoveryIndexError>(e),
            accept_fold(records@) matches Ok(v) ==> (r matches Ok(idx) && idx.wf() && idx.view_spec() == v),
    {
        let mut index = Self::empty();
        let mut i: usize = 0;
        while i < records.len()
            invariant
                i <= records@.len(),
                index.wf(),
                accept_fold(records@.take(i as int)) == Ok::<SubmissionIndexView, WalRecoveryIndexError>(index.view_spec()),
            decreases records.len() - i,
        {
            proof {
                assert(records@.take(i + 1).drop_last() =~= records@.take(i as int));
            }
            match index.insert_acceptance_record(records[i]) {
                Err(e) => {
                    proof {
                        lemma_accept_fold_stops(records@, i as int + 1);
                    }
                    return Err(e);
                },
                Ok(()) => {},
            }
            i += 1;
        }
        assert(records@.take(records@.len() as int) =~= records@);
        Ok(index)
    }

    /// Builds a recovered index from acceptance records, then moves each
    /// accepted submission with a matching tick receipt to its decided or
    /// obstructed posture.
    pub fn from_acceptance_and_receipt_records(
        acceptances: Vec<SubmissionAcceptanceRecord>,
        receipts: Vec<TickReceiptRecord>,
    ) -> (r: Result<Self, WalRecoveryIndexError>)
        ensures
            accept_fold(acceptances@) matches Err(e) ==> r == Err::<Self, WalRecoveryIndexError>(e),
            accept_fold(acceptances@) matches Ok(v) ==> (r matches Ok(idx) && idx.wf() && idx.view_spec() == receipt_fold(
                v,
                receipts@,
            )),
    {
        let mut index = match Self::from_acceptance_records(acceptances) {
            Err(e) => return Err(e),
            Ok(idx) => idx,
        };
        let ghost start = index.view_spec();
        let mut i: usize = 0;
        while i < receipts.len()
            invariant
                i <= receipts@.len(),
                index.wf(),
                index.view_spec() == receipt_fold(start, receipts@.take(i as int)),
            decreases receipts.len() - i,
        {
            proof {
                assert(receipts@.take(i + 1).drop_last() =~= receipts@.take(i as int));
            }
            index.apply_tick_receipt_record(receipts[i]);
            i += 1;
        }
        assert(receipts@.take(receipts@.len() as int) =~= receipts@);
        Ok(index)
    }

    /// The recovered entry of a submission.
    pub fn get(&self, submission_id: &crate::ident::Hash) -> (r: Option<&RecoveredSubmissionEntry>)
        requires
            self.wf(),
        ensures
            r is None <==> !self.view_spec().submissions.dom().contains(*submission_id),
            r matches Some(e) ==> *e == self.view_spec().submissions[*submission_id],
    {
        self.submissions.get(submission_id)
    }

    /// Number of recovered submissions.
    pub fn len(&self) -> (n: usize)
        requires
            self.wf(),
        ensures
            n == self.view_spec().submissions.dom().len(),
    {
        proof {
            self.submissions.lemma_view();
        }
        self.submissions.len()
    }

    /// Returns `true` when no submission was recovered.
    pub fn is_empty(&self) -> (r: bool)
        requires
            self.wf(),
        ensures
            r == (self.view_spec().submissions.dom().len() == 0),
    {
        self.len() == 0
    }

    /// Classifies the retry posture of a submission id and canonical envelope.
    pub fn retry_posture(&self, submission_id: crate::ident::Hash, canonical_envelope_digest: crate::ident::Hash) -> (r:
        SubmissionRetryPosture)
        requires
            self.wf(),
        ensures
            r == retry_posture_spec(self.view_spec(), submission_id, canonical_envelope_digest),
    {
        match self.submissions.get(&submission_id) {
            None => {
                match self.envelope_to_submissions.get(&canonical_envelope_digest) {
                    Some(ids) => {
                        if !ids.is_empty() {
                            return SubmissionRetryPosture::NewSubmissionWithoutPolicyDedupe;
                        }
                    },
                    None => {},
                }
                SubmissionRetryPosture::NotAccepted
            },
            Some(entry) => {
                if !hash_eq(&entry.acceptance.canonical_envelope_digest, &canonical_envelope_digest) {
                    return SubmissionRetryPosture::ConflictSameIdDifferentEnvelope;
                }
                match entry.posture {
                    RecoveredSubmissionPosture::AcceptedPending => SubmissionRetryPosture::AlreadyAcceptedPending,
                    RecoveredSubmissionPosture::DecidedApplied => SubmissionRetryPosture::AlreadyDecidedApplied,
                    RecoveredSubmissionPosture::DecidedRejected => SubmissionRetryPosture::AlreadyDecidedRejected,
                    _ => SubmissionRetryPosture::AlreadyObstructed,
                }
            },
        }
    }
}

/// How a retry is classified against a recovered index. An id recovered under
/// another envelope is a conflict, whatever its posture. A retry counts as the
/// same submission (an `Already*` posture) only when the id was recovered under
/// the same envelope, and then it reports the recovered posture. An id that was
/// not recovered is new: a new submission when some id was recovered under the
/// envelope, else not accepted.
pub proof fn lemma_retry_posture_classifies(v: SubmissionIndexView, id: crate::ident::Hash, env: crate::ident::Hash)
    ensures
        v.submissions.dom().contains(id) && v.submissions[id].acceptance.canonical_envelope_digest != env
            ==> retry_posture_spec(v, id, env) == SubmissionRetryPosture::ConflictSameIdDifferentEnvelope,
        (retry_posture_spec(v, id, env) is AlreadyAcceptedPending || retry_posture_spec(v, id, env) is AlreadyDecidedApplied
            || retry_posture_spec(v, id, env) is AlreadyDecidedRejected || retry_posture_spec(v, id, env) is AlreadyObstructed)
            ==> v.submissions.dom().contains(id) && v.submissions[id].acceptance.canonical_envelope_digest == env,
        v.submissions.dom().contains(id) && v.submissions[id].acceptance.canonical_envelope_digest == env ==> (
        retry_posture_spec(v, id, env) is AlreadyAcceptedPending <==> v.submissions[id].posture is AcceptedPending) && (
        retry_posture_spec(v, id, env) is AlreadyDecidedApplied <==> v.submissions[id].posture is DecidedApplied) && (
        retry_posture_spec(v, id, env) is AlreadyDecidedRejected <==> v.submissions[id].posture is DecidedRejected) && (
        retry_posture_spec(v, id, env) is AlreadyObstructed <==> (v.submissions[id].posture is Obstructed
            || v.submissions[id].posture is RecoveryFaulted)),
        !v.submissions.dom().contains(id) ==> (retry_posture_spec(v, id, env) is NewSubmissionWithoutPolicyDedupe <==> !ids_for(
            v,
            env,
        ).is_empty()) && (retry_posture_spec(v, id, env) is NotAccepted <==> ids_for(v, env).is_empty()),
{
    if !v.submissions.dom().contains(id) && v.envelopes.dom().contains(env) {
        if v.envelopes[env] != Set::<crate::ident::Hash>::empty() {
            assert(!v.envelopes[env].is_empty()) by {
                if v.envelopes[env].is_empty() {
                    assert(v.envelopes[env] =~= Set::<crate::ident::Hash>::empty());
                }
            }
        }
    }
}

/// Every acceptance record that recovery folds without conflict leaves its id
/// in the index, under its own envelope and pending; no entry of a freshly
/// folded index is anything but pending.
pub proof fn lemma_accept_fold_keeps_each_acceptance(rs: Seq<SubmissionAcceptanceRecord>)
    ensures
        accept_fold(rs) matches Ok(v) ==> forall|i: int|
            0 <= i < rs.len() ==> v.submissions.dom().contains((#[trigger] rs[i]).submission_id)
                && v.submissions[rs[i].submission_id].acceptance.canonical_envelope_digest == rs[i].canonical_envelope_digest
                && v.submissions[rs[i].submission_id].posture == RecoveredSubmissionPosture::AcceptedPending,
        accept_fold(rs) matches Ok(v) ==> forall|id: crate::ident::Hash|
            #[trigger] v.submissions.dom().contains(id) ==> v.submissions[id].posture == RecoveredSubmissionPosture::AcceptedPending,
    decreases rs.len(),
{
    if rs.len() > 0 {
        let q = rs.drop_last();
        lemma_accept_fold_keeps_each_acceptance(q);
        if let Ok(v) = accept_fold(rs) {
            let u = accept_fold(q)->Ok_0;
            let r = rs.last();
            assert(accept_step(u, r) == Ok::<SubmissionIndexView, WalRecoveryIndexError>(v));
            assert forall|i: int| 0 <= i < rs.len() implies v.submissions.dom().contains((#[trigger] rs[i]).submission_id)
                && v.submissions[rs[i].submission_id].acceptance.canonical_envelope_digest == rs[i].canonical_envelope_digest
                && v.submissions[rs[i].submission_id].posture == RecoveredSubmissionPosture::AcceptedPending by {
                if i < rs.len() - 1 {
                    assert(q[i] == rs[i]);
                }
            }
        }
    }
}

/// Recovered from acceptance records without conflict, the index answers a
/// retry of any of them: the same envelope is already accepted and pending,
/// and any other envelope under the same id is a conflict.
pub proof fn lemma_recovered_acceptance_retry(rs: Seq<SubmissionAcceptanceRecord>, i: int, env: crate::ident::Hash)
    requires
        0 <= i < rs.len(),
    ensures
        accept_fold(rs) matches Ok(v) ==> retry_posture_spec(v, rs[i].submission_id, env) == (if env
            == rs[i].canonical_envelope_digest {
            SubmissionRetryPosture::AlreadyAcceptedPending
        } else {
            SubmissionRetryPosture::ConflictSameIdDifferentEnvelope
        }),
{
    lemma_accept_fold_keeps_each_acceptance(rs);
    if let Ok(v) = accept_fold(rs) {
        assert(v.submissions.dom().contains(rs[i].submission_id));
    }
}

proof fn lemma_accept_fold_stops(rs: Seq<SubmissionAcceptanceRecord>, n: int)
    requires
        0 <= n <= rs.len(),
        accept_fold(rs.take(n)) is Err,
    ensures
        accept_fold(rs) == accept_fold(rs.take(n)),
    decreases rs.len() - n,
{
    if n < rs.len() {
        assert(rs.take(n + 1).drop_last() =~= rs.take(n));
        lemma_accept_fold_stops(rs, n + 1);
    } else {
        assert(rs.take(n) =~= rs);
    }
}

/// Mathematical view of a recovered receipt index.
pub struct ReceiptIndexView {
    /// Receipt by submission id.
    pub receipt_by_submission: Map<crate::ident::Hash, crate::ident::Hash>,
    /// Receipt by admission ticket digest.
    pub receipt_by_ticket: Map<crate::ident::Hash, crate::ident::Hash>,
    /// Ticket by submission id.
    pub ticket_by_submission: Map<crate::ident::Hash, crate::ident::Hash>,
    /// Decisions by receipt digest.
    pub decisions_by_receipt: Map<crate::ident::Hash, WalTickDecision>,
}

/// Tick receipts applied in order: each restores all four handles.
pub open spec fn tick_receipts_fold(rs: Seq<TickReceiptRecord>) -> ReceiptIndexView
    decreases rs.len(),
{
    if rs.len() == 0 {
        ReceiptIndexView {
            receipt_by_submission: Map::empty(),
            receipt_by_ticket: Map::empty(),
            ticket_by_submission: Map::empty(),
            decisions_by_receipt: Map::empty(),
        }
    } else {
        let v = tick_receipts_fold(rs.drop_last());
        let r = rs.last();
        ReceiptIndexView {
            receipt_by_submission: v.receipt_by_submission.insert(r.submission_id, r.receipt_digest),
            receipt_by_ticket: v.receipt_by_ticket.insert(r.ticket_digest, r.receipt_digest),
            ticket_by_submission: v.ticket_by_submission.insert(r.submission_id, r.ticket_digest),
            decisions_by_receipt: v.decisions_by_receipt.insert(r.receipt_digest, r.decision),
        }
    }
}

/// Correlation records applied in order after the receipts: each restores the
/// three lookup handles and carries no decision.
pub open spec fn correlations_fold(v: ReceiptIndexView, cs: Seq<WalReceiptCorrelationRecord>) -> ReceiptIndexView
    decreases cs.len(),
{
    if cs.len() == 0 {
        v
    } else {
        let w = correlations_fold(v, cs.drop_last());
        let c = cs.last();
        ReceiptIndexView {
            receipt_by_submission: w.receipt_by_submission.insert(c.submission_id, c.receipt_digest),
            receipt_by_ticket: w.receipt_by_ticket.insert(c.ticket_digest, c.receipt_digest),
            ticket_by_submission: w.ticket_by_submission.insert(c.submission_id, c.ticket_digest),
            decisions_by_receipt: w.decisions_by_receipt,
        }
    }
}

/// Recovered receipt correlation index.
#[derive(Debug, PartialEq, Eq)]
pub struct RecoveredReceiptIndex {
    /// Receipt by submission id.
    pub receipt_by_submission: DigestMap<crate::ident::Hash>,
    /// Receipt by admission ticket digest.
    pub receipt_by_ticket: DigestMap<crate::ident::Hash>,
    /// Ticket by submission id.
    pub ticket_by_submission: DigestMap<crate::ident::Hash>,
    /// Decisions by receipt digest.
    pub decisions_by_receipt: DigestMap<WalTickDecision>,
}

impl RecoveredReceiptIndex {
    /// The index as maps.
    pub open spec fn view_spec(&self) -> ReceiptIndexView {
        ReceiptIndexView {
            receipt_by_submission: self.receipt_by_submission@,
            receipt_by_ticket: self.receipt_by_ticket@,
            ticket_by_submission: self.ticket_by_submission@,
            decisions_by_receipt: self.decisions_by_receipt@,
        }
    }

    /// Every map is well formed.
    pub open spec fn wf(&self) -> bool {
        self.receipt_by_submission.wf() && self.receipt_by_ticket.wf() && self.ticket_by_submission.wf()
            && self.decisions_by_receipt.wf()
    }

    /// Builds a recovered receipt index: tick receipts restore every handle and
    /// their decisions; correlation records then restore the lookup handles.
    pub fn from_receipt_correlation_records(
        receipts: Vec<TickReceiptRecord>,
        correlations: Vec<WalReceiptCorrelationRecord>,
    ) -> (r: Self)
        ensures
            r.wf(),
            r.view_spec() == correlations_fold(tick_receipts_fold(receipts@), correlations@),
    {
        let mut index = RecoveredReceiptIndex {
            receipt_by_submission: DigestMap::new(),
            receipt_by_ticket: DigestMap::new(),
            ticket_by_submission: DigestMap::new(),
            decisions_by_receipt: DigestMap::new(),
        };
        let mut i: usize = 0;
        while i < receipts.len()
            invariant
                i <= receipts@.len(),
                index.wf(),
                index.view_spec() == tick_receipts_fold(receipts@.take(i as int)),
            decreases receipts.len() - i,
        {
            let r = receipts[i];
            proof {
                assert(receipts@.take(i + 1).drop_last() =~= receipts@.take(i as int));
            }
            index.receipt_by_submission.insert(r.submission_id, r.receipt_digest);
            index.receipt_by_ticket.insert(r.ticket_digest, r.receipt_digest);
            index.ticket_by_submission.insert(r.submission_id, r.ticket_digest);
            index.decisions_by_receipt.insert(r.receipt_digest, r.decision);
            i += 1;
        }
        assert(receipts@.take(receipts@.len() as int) =~= receipts@);
        let ghost start = index.view_spec();
        let mut j: usize = 0;
        while j < correlations.len()
            invariant
                j <= correlations@.len(),
                index.wf(),
                index.view_spec() == correlations_fold(start, correlations@.take(j as int)),
            decreases correlations.len() - j,
        {
            let c = correlations[j];
            proof {
                assert(correlations@.take(j + 1).drop_last() =~= correlations@.take(j as int));
            }
            index.receipt_by_submission.insert(c.submission_id, c.receipt_digest);
            index.receipt_by_ticket.insert(c.ticket_digest, c.receipt_digest);
            index.ticket_by_submission.insert(c.submission_id, c.ticket_digest);
            j += 1;
        }
        assert(correlations@.take(correlations@.len() as int) =~= correlations@);
        index
    }
}

/// Error returned while building a recovered retention index.
#[derive(Clone, Copy, Debug, PartialEq, Eq)]
pub enum RecoveredRetentionIndexError {
    /// A material digest mapped to conflicting retained material records.
    ConflictingMaterialDigest {
        /// Conflicting retained material digest.
        material_digest: crate::ident::Hash,
    },
    /// A reading id mapped to conflicting reading reference records.
    ConflictingReadingId {
        /// Conflicting reading id.
        reading_id: crate::ident::Hash,
    },
}

/// Mathematical view of a recovered retention index.
pub struct RetentionIndexView {
    /// Retained material by digest.
    pub materials: Map<crate::ident::Hash, RetainedMaterialRecord>,
    /// Material digests by semantic coordinate.
    pub material_coordinates: Map<crate::ident::Hash, Set<crate::ident::Hash>>,
    /// Retained reading by reading id.
    pub readings: Map<crate::ident::Hash, ReadingRefRecord>,
    /// Reading ids by semantic coordinate.
    pub reading_coordinates: Map<crate::ident::Hash, Set<crate::ident::Hash>>,
}

/// `k`'s set in `m`, or the empty set.
pub open spec fn set_at(m: Map<crate::ident::Hash, Set<crate::ident::Hash>>, k: crate::ident::Hash) -> Set<crate::ident::Hash> {
    if m.dom().contains(k) {
        m[k]
    } else {
        Set::empty()
    }
}

/// Material records applied in order: one digest may name only one record.
pub open spec fn materials_fold(ms: Seq<RetainedMaterialRecord>) -> Result<RetentionIndexView, RecoveredRetentionIndexError>
    decreases ms.len(),
{
    if ms.len() == 0 {
        Ok(
            RetentionIndexView {
                materials: Map::empty(),
                material_coordinates: Map::empty(),
                readings: Map::empty(),
                reading_coordinates: Map::empty(),
            },
        )
    } else {
        match materials_fold(ms.drop_last()) {
            Err(e) => Err(e),
            Ok(v) => {
                let m = ms.last();
                if v.materials.dom().contains(m.material_digest) && v.materials[m.material_digest] != m {
                    Err(RecoveredRetentionIndexError::ConflictingMaterialDigest { material_digest: m.material_digest })
                } else {
                    Ok(
                        RetentionIndexView {
                            materials: v.materials.insert(m.material_digest, m),
                            material_coordinates: v.material_coordinates.insert(
                                m.semantic_coordinate_digest,
                                set_at(v.material_coordinates, m.semantic_coordinate_digest).insert(m.material_digest),
                            ),
                            readings: v.readings,
                            reading_coordinates: v.reading_coordinates,
                        },
                    )
                }
            },
        }
    }
}

/// Reading records applied in order after the materials: one id may name only one record.
pub open spec fn readings_fold(v0: RetentionIndexView, rs: Seq<ReadingRefRecord>) -> Result<
    RetentionIndexView,
    RecoveredRetentionIndexError,
>
    decreases rs.len(),
{
    if rs.len() == 0 {
        Ok(v0)
    } else {
        match readings_fold(v0, rs.drop_last()) {
            Err(e) => Err(e),
            Ok(v) => {
                let r = rs.last();
                if v.readings.dom().contains(r.reading_id) && v.readings[r.reading_id] != r {
                    Err(RecoveredRetentionIndexError::ConflictingReadingId { reading_id: r.reading_id })
                } else {
                    Ok(
                        RetentionIndexView {
                            materials: v.materials,
                            material_coordinates: v.material_coordinates,
                            readings: v.readings.insert(r.reading_id, r),
                            reading_coordinates: v.reading_coordinates.insert(
                                r.semantic_coordinate_digest,
                                set_at(v.reading_coordinates, r.semantic_coordinate_digest).insert(r.reading_id),
                            ),
                        },
                    )
                }
            },
        }
    }
}

/// Materials, then readings.
pub open spec fn retention_fold(ms: Seq<RetainedMaterialRecord>, rs: Seq<ReadingRefRecord>) -> Result<
    RetentionIndexView,
    RecoveredRetentionIndexError,
> {
    match materials_fold(ms) {
        Err(e) => Err(e),
        Ok(v) => readings_fold(v, rs),
    }
}

/// The material record is indexed in `v`: by its digest and under its coordinate.
pub open spec fn material_present(v: RetentionIndexView, m: RetainedMaterialRecord) -> bool {
    &&& v.materials.dom().contains(m.material_digest)
    &&& v.materials[m.material_digest] == m
    &&& set_at(v.material_coordinates, m.semantic_coordinate_digest).contains(m.material_digest)
}

/// The reading record is indexed in `v`: by its id and under its coordinate.
pub open spec fn reading_present(v: RetentionIndexView, r: ReadingRefRecord) -> bool {
    &&& v.readings.dom().contains(r.reading_id)
    &&& v.readings[r.reading_id] == r
    &&& set_at(v.reading_coordinates, r.semantic_coordinate_digest).contains(r.reading_id)
}

proof fn lemma_materials_fold_indexes_all(ms: Seq<RetainedMaterialRecord>)
    requires
        materials_fold(ms) is Ok,
    ensures
        forall|i: int| 0 <= i < ms.len() ==> material_present(materials_fold(ms)->Ok_0, #[trigger] ms[i]),
    decreases ms.len(),
{
    if ms.len() > 0 {
        lemma_materials_fold_indexes_all(ms.drop_last());
        let v = materials_fold(ms.drop_last())->Ok_0;
        let w = materials_fold(ms)->Ok_0;
        assert forall|i: int| 0 <= i < ms.len() implies material_present(w, #[trigger] ms[i]) by {
            if i < ms.len() - 1 {
                assert(ms[i] == ms.drop_last()[i]);
                assert(material_present(v, ms.drop_last()[i]));
            }
        }
    }
}

proof fn lemma_readings_fold_indexes_all(v0: RetentionIndexView, rs: Seq<ReadingRefRecord>)
    requires
        readings_fold(v0, rs) is Ok,
    ensures
        forall|i: int| 0 <= i < rs.len() ==> reading_present(readings_fold(v0, rs)->Ok_0, #[trigger] rs[i]),
    decreases rs.len(),
{
    if rs.len() > 0 {
        lemma_readings_fold_indexes_all(v0, rs.drop_last());
        let v = readings_fold(v0, rs.drop_last())->Ok_0;
        let w = readings_fold(v0, rs)->Ok_0;
        assert forall|i: int| 0 <= i < rs.len() implies reading_present(w, #[trigger] rs[i]) by {
            if i < rs.len() - 1 {
                assert(rs[i] == rs.drop_last()[i]);
                assert(reading_present(v, rs.drop_last()[i]));
            }
        }
    }
}

proof fn lemma_materials_fold_extend(ms: Seq<RetainedMaterialRecord>, ext: Seq<RetainedMaterialRecord>)
    requires
        materials_fold(ms) matches Ok(v) ==> forall|i: int| 0 <= i < ext.len() ==> material_present(v, #[trigger] ext[i]),
    ensures
        materials_fold(ms + ext) == materials_fold(ms),
    decreases ext.len(),
{
    if ext.len() == 0 {
        assert(ms + ext =~= ms);
    } else {
        let all = ms + ext;
        assert(all.drop_last() =~= ms + ext.drop_last());
        assert(all.last() == ext.last());
        assert forall|i: int| 0 <= i < ext.drop_last().len() implies (materials_fold(ms) matches Ok(v) ==> material_present(
            v,
            #[trigger] ext.drop_last()[i],
        )) by {
            assert(ext.drop_last()[i] == ext[i]);
        }
        lemma_materials_fold_extend(ms, ext.drop_last());
        if let Ok(v) = materials_fold(ms) {
            let m = ext.last();
            assert(material_present(v, m));
            let c = m.semantic_coordinate_digest;
            assert(v.material_coordinates.dom().contains(c));
            assert(v.materials.insert(m.material_digest, m) =~= v.materials);
            assert(set_at(v.material_coordinates, c).insert(m.material_digest) =~= set_at(v.material_coordinates, c));
            assert(v.material_coordinates.insert(c, set_at(v.material_coordinates, c)) =~= v.material_coordinates);
        }
    }
}

proof fn lemma_readings_fold_extend(v0: RetentionIndexView, rs: Seq<ReadingRefRecord>, ext: Seq<ReadingRefRecord>)
    requires
        readings_fold(v0, rs) matches Ok(v) ==> forall|i: int| 0 <= i < ext.len() ==> reading_present(v, #[trigger] ext[i]),
    ensures
        readings_fold(v0, rs + ext) == readings_fold(v0, rs),
    decreases ext.len(),
{
    if ext.len() == 0 {
        assert(rs + ext =~= rs);
    } else {
        let all = rs + ext;
        assert(all.drop_last() =~= rs + ext.drop_last());
        assert(all.last() == ext.last());
        assert forall|i: int| 0 <= i < ext.drop_last().len() implies (readings_fold(v0, rs) matches Ok(v) ==> reading_present(
            v,
            #[trigger] ext.drop_last()[i],
        )) by {
            assert(ext.drop_last()[i] == ext[i]);
        }
        lemma_readings_fold_extend(v0, rs, ext.drop_last());
        if let Ok(v) = readings_fold(v0, rs) {
            let r = ext.last();
            assert(reading_present(v, r));
            let c = r.semantic_coordinate_digest;
            assert(v.reading_coordinates.dom().contains(c));
            assert(v.readings.insert(r.reading_id, r) =~= v.readings);
            assert(set_at(v.reading_coordinates, c).insert(r.reading_id) =~= set_at(v.reading_coordinates, c));
            assert(v.reading_coordinates.insert(c, set_at(v.reading_coordinates, c)) =~= v.reading_coordinates);
        }
    }
}

/// Replaying identical retention records twice changes nothing: the index
/// recovered from every record given twice is the one recovered from each
/// once (or the same error). A recovered index holds one record per material
/// digest and per reading id, and every record given is indexed.
pub proof fn lemma_retention_replay_is_idempotent(ms: Seq<RetainedMaterialRecord>, rs: Seq<ReadingRefRecord>)
    ensures
        retention_fold(ms + ms, rs + rs) == retention_fold(ms, rs),
        retention_fold(ms, rs) matches Ok(v) ==> (forall|i: int| 0 <= i < ms.len() ==> material_present(v, #[trigger] ms[i]))
            && (forall|i: int| 0 <= i < rs.len() ==> reading_present(v, #[trigger] rs[i])),
        (exists|i: int, j: int|
            0 <= i < ms.len() && 0 <= j < ms.len() && (#[trigger] ms[i]).material_digest == (#[trigger] ms[j]).material_digest
                && ms[i] != ms[j]) ==> retention_fold(ms, rs) matches Err(
            RecoveredRetentionIndexError::ConflictingMaterialDigest { .. },
        ),
{
    lemma_materials_fold_error_kind(ms);
    if exists|i: int, j: int|
        0 <= i < ms.len() && 0 <= j < ms.len() && (#[trigger] ms[i]).material_digest == (#[trigger] ms[j]).material_digest
            && ms[i] != ms[j] {
        let (i, j) = choose|i: int, j: int|
            0 <= i < ms.len() && 0 <= j < ms.len() && (#[trigger] ms[i]).material_digest == (#[trigger] ms[j]).material_digest
                && ms[i] != ms[j];
        if materials_fold(ms) is Ok {
            lemma_materials_fold_indexes_all(ms);
            assert(material_present(materials_fold(ms)->Ok_0, ms[i]));
            assert(material_present(materials_fold(ms)->Ok_0, ms[j]));
        }
    }
    if materials_fold(ms) is Ok {
        lemma_materials_fold_indexes_all(ms);
    }
    lemma_materials_fold_extend(ms, ms);
    if let Ok(v) = materials_fold(ms) {
        if readings_fold(v, rs) is Ok {
            lemma_readings_fold_indexes_all(v, rs);
            lemma_readings_fold_keeps_materials(v, rs);
            let w = readings_fold(v, rs)->Ok_0;
            assert forall|i: int| 0 <= i < ms.len() implies material_present(w, #[trigger] ms[i]) by {
                assert(material_present(v, ms[i]));
            }
        }
        lemma_readings_fold_extend(v, rs, rs);
    }
}

proof fn lemma_materials_fold_error_kind(ms: Seq<RetainedMaterialRecord>)
    ensures
        materials_fold(ms) is Err ==> materials_fold(ms) matches Err(RecoveredRetentionIndexError::ConflictingMaterialDigest { .. }),
    decreases ms.len(),
{
    if ms.len() > 0 {
        lemma_materials_fold_error_kind(ms.drop_last());
    }
}

proof fn lemma_readings_fold_keeps_materials(v0: RetentionIndexView, rs: Seq<ReadingRefRecord>)
    requires
        readings_fold(v0, rs) is Ok,
    ensures
        readings_fold(v0, rs)->Ok_0.materials == v0.materials,
        readings_fold(v0, rs)->Ok_0.material_coordinates == v0.material_coordinates,
    decreases rs.len(),
{
    if rs.len() > 0 {
        lemma_readings_fold_keeps_materials(v0, rs.drop_last());
    }
}

/// Recovered retained material and reading index.
#[derive(Debug, PartialEq, Eq)]
pub struct RecoveredRetentionIndex {
    /// Retained material by digest.
    pub material_by_digest: DigestMap<RetainedMaterialRecord>,
    /// Retained material by semantic coordinate.
    pub material_by_semantic_coordinate: DigestMap<KeySet<crate::ident::Hash>>,
    /// Retained reading by reading id.
    pub reading_by_id: DigestMap<ReadingRefRecord>,
    /// Reading ids by semantic coordinate.
    pub readings_by_semantic_coordinate: DigestMap<KeySet<crate::ident::Hash>>,
}

fn material_eq(a: &RetainedMaterialRecord, b: &RetainedMaterialRecord) -> (r: bool)
    ensures
        r == (*a == *b),
{
    hash_eq(&a.material_digest, &b.material_digest) && hash_eq(&a.semantic_coordinate_digest, &b.semantic_coordinate_digest)
        && a.kind == b.kind && a.posture == b.posture
}

fn reading_eq(a: &ReadingRefRecord, b: &ReadingRefRecord) -> (r: bool)
    ensures
        r == (*a == *b),
{
    hash_eq(&a.reading_id, &b.reading_id) && hash_eq(&a.semantic_coordinate_digest, &b.semantic_coordinate_digest)
        && hash_eq(&a.payload_digest, &b.payload_digest) && hash_eq(&a.envelope_digest, &b.envelope_digest)
        && a.posture == b.posture
}

/// Every set of a set-valued digest map is well formed.
pub open spec fn sets_wf(m: DigestMap<KeySet<crate::ident::Hash>>) -> bool {
    m.wf() && forall|k: crate::ident::Hash| #[trigger] m@.dom().contains(k) ==> m@[k].wf()
}

pub(crate) fn add_to_set(m: &mut DigestMap<KeySet<crate::ident::Hash>>, key: crate::ident::Hash, x: crate::ident::Hash)
    requires
        sets_wf(*old(m)),
    ensures
        sets_wf(*final(m)),
        id_sets(final(m)@) == id_sets(old(m)@).insert(key, set_at(id_sets(old(m)@), key).insert(x)),
{
    let ghost before = m@;
    let mut s = match m.take(&key) {
        Some(s) => s,
        None => KeySet::new(),
    };
    s.insert(x);
    let ghost new_s = s;
    m.insert(key, s);
    proof {
        assert(m@ == before.insert(key, new_s));
        assert(id_sets(m@) =~= id_sets(before).insert(key, set_at(id_sets(before), key).insert(x)));
        assert forall|k: crate::ident::Hash| #[trigger] m@.dom().contains(k) implies m@[k].wf() by {
            if k != key {
                assert(before.dom().contains(k));
            }
        }
    }
}

impl RecoveredRetentionIndex {
    /// The index as maps.
    pub open spec fn view_spec(&self) -> RetentionIndexView {
        RetentionIndexView {
            materials: self.material_by_digest@,
            material_coordinates: id_sets(self.material_by_semantic_coordinate@),
            readings: self.reading_by_id@,
            reading_coordinates: id_sets(self.readings_by_semantic_coordinate@),
        }
    }

    /// Every map and set is well formed.
    pub open spec fn wf(&self) -> bool {
        self.material_by_digest.wf() && sets_wf(self.material_by_semantic_coordinate) && self.reading_by_id.wf()
            && sets_wf(self.readings_by_semantic_coordinate)
    }

    /// Builds a recovered retention index from retained material and reading
    /// records; a digest or reading id naming two different records is a conflict.
    pub fn from_retention_records(
        materials: Vec<RetainedMaterialRecord>,
        readings: Vec<ReadingRefRecord>,
    ) -> (r: Result<Self, RecoveredRetentionIndexError>)
        ensures
            retention_fold(materials@, readings@) matches Err(e) ==> r == Err::<Self, RecoveredRetentionIndexError>(e),
            retention_fold(materials@, readings@) matches Ok(v) ==> (r matches Ok(idx) && idx.wf() && idx.view_spec() == v),
    {
        let mut index = RecoveredRetentionIndex {
            material_by_digest: DigestMap::new(),
            material_by_semantic_coordinate: DigestMap::new(),
            reading_by_id: DigestMap::new(),
            readings_by_semantic_coordinate: DigestMap::new(),
        };
        proof {
            assert(id_sets(index.material_by_semantic_coordinate@) =~= Map::<crate::ident::Hash, Set<crate::ident::Hash>>::empty());
            assert(id_sets(index.readings_by_semantic_coordinate@) =~= Map::<crate::ident::Hash, Set<crate::ident::Hash>>::empty());
        }
        let mut i: usize = 0;
        while i < materials.len()
            invariant
                i <= materials@.len(),
                index.wf(),
                materials_fold(materials@.take(i as int)) == Ok::<RetentionIndexView, RecoveredRetentionIndexError>(
                    index.view_spec(),
                ),
            decreases materials.len() - i,
        {
            let m = materials[i];
            proof {
                assert(materials@.take(i + 1).drop_last() =~= materials@.take(i as int));
            }
            match index.material_by_digest.get(&m.material_digest) {
                Some(existing) => {
                    if !material_eq(existing, &m) {
                        proof {
                            lemma_materials_fold_stops(materials@, i as int + 1);
                        }
                        return Err(RecoveredRetentionIndexError::ConflictingMaterialDigest { material_digest: m.material_digest });
                    }
                },
                None => {},
            }
            let ghost before = index.material_by_digest@;
            index.material_by_digest.insert(m.material_digest, m);
            add_to_set(&mut index.material_by_semantic_coordinate, m.semantic_coordinate_digest, m.material_digest);
            i += 1;
        }
        assert(materials@.take(materials@.len() as int) =~= materials@);
        let ghost start = index.view_spec();
        let mut j: usize = 0;
        while j < readings.len()
            invariant
                j <= readings@.len(),
                index.wf(),
                materials_fold(materials@) == Ok::<RetentionIndexView, RecoveredRetentionIndexError>(start),
                readings_fold(start, readings@.take(j as int)) == Ok::<RetentionIndexView, RecoveredRetentionIndexError>(
                    index.view_spec(),
                ),
            decreases readings.len() - j,
        {
            let r = readings[j];
            proof {
                assert(readings@.take(j + 1).drop_last() =~= readings@.take(j as int));
            }
            match index.reading_by_id.get(&r.reading_id) {
                Some(existing) => {
                    if !reading_eq(existing, &r) {
                        proof {
                            lemma_readings_fold_stops(start, readings@, j as int + 1);
                        }
                        return Err(RecoveredRetentionIndexError::ConflictingReadingId { reading_id: r.reading_id });
                    }
                },
                None => {},
            }
            index.reading_by_id.insert(r.reading_id, r);
            add_to_set(&mut index.readings_by_semantic_coordinate, r.semantic_coordinate_digest, r.reading_id);
            j += 1;
        }
        assert(readings@.take(readings@.len() as int) =~= readings@);
        Ok(index)
    }
}

proof fn lemma_materials_fold_stops(ms: Seq<RetainedMaterialRecord>, n: int)
    requires
        0 <= n <= ms.len(),
        materials_fold(ms.take(n)) is Err,
    ensures
        materials_fold(ms) == materials_fold(ms.take(n)),
    decreases ms.len() - n,
{
    if n < ms.len() {
        assert(ms.take(n + 1).drop_last() =~= ms.take(n));
        lemma_materials_fold_stops(ms, n + 1);
    } else {
        assert(ms.take(n) =~= ms);
    }
}

proof fn lemma_readings_fold_stops(v: RetentionIndexView, rs: Seq<ReadingRefRecord>, n: int)
    requires
        0 <= n <= rs.len(),
        readings_fold(v, rs.take(n)) is Err,
    ensures
        readings_fold(v, rs) == readings_fold(v, rs.take(n)),
    decreases rs.len() - n,
{
    if n < rs.len() {
        assert(rs.take(n + 1).drop_last() =~= rs.take(n));
        lemma_readings_fold_stops(v, rs, n + 1);
    } else {
        assert(rs.take(n) =~= rs);
    }
}

/// Digest entry of one recovered submission.
pub open spec fn submission_entry_bytes(id: crate::ident::Hash, e: RecoveredSubmissionEntry) -> Seq<u8> {
    "submission".spec_bytes() + id@ + e.acceptance.submission_id@ + e.acceptance.canonical_envelope_digest@
        + optional_hash_bytes(e.acceptance.idempotency_key_digest) + e.acceptance.acceptance_evidence_digest@
        + seq![e.posture.code_spec()] + optional_hash_bytes(e.receipt_digest)
}

/// Concatenated submission entries.
pub open spec fn submission_entries_concat(s: Seq<(crate::ident::Hash, RecoveredSubmissionEntry)>) -> Seq<u8>
    decreases s.len(),
{
    if s.len() == 0 {
        Seq::empty()
    } else {
        submission_entries_concat(s.drop_last()) + submission_entry_bytes(s.last().0, s.last().1)
    }
}

/// Concatenated digests.
pub open spec fn digests_concat(s: Seq<crate::ident::Hash>) -> Seq<u8>
    decreases s.len(),
{
    if s.len() == 0 {
        Seq::empty()
    } else {
        digests_concat(s.drop_last()) + s.last()@
    }
}

/// Digest entry of one envelope and its submission ids in ascending order.
pub open spec fn envelope_entry_bytes(env: crate::ident::Hash, ids: KeySet<crate::ident::Hash>) -> Seq<u8> {
    "envelope".spec_bytes() + env@ + spec_u64_to_le_bytes(ids.canonical_seq().len() as u64) + digests_concat(
        ids.canonical_seq(),
    )
}

/// Concatenated envelope entries.
pub open spec fn envelope_entries_concat(s: Seq<(crate::ident::Hash, KeySet<crate::ident::Hash>)>) -> Seq<u8>
    decreases s.len(),
{
    if s.len() == 0 {
        Seq::empty()
    } else {
        envelope_entries_concat(s.drop_last()) + envelope_entry_bytes(s.last().0, s.last().1)
    }
}

/// Concatenated labelled digest pairs.
pub open spec fn pair_entries_concat(label: Seq<u8>, s: Seq<(crate::ident::Hash, crate::ident::Hash)>) -> Seq<u8>
    decreases s.len(),
{
    if s.len() == 0 {
        Seq::empty()
    } else {
        pair_entries_concat(label, s.drop_last()) + label + s.last().0@ + s.last().1@
    }
}

/// Concatenated decision entries.
pub open spec fn decision_entries_concat(s: Seq<(crate::ident::Hash, WalTickDecision)>) -> Seq<u8>
    decreases s.len(),
{
    if s.len() == 0 {
        Seq::empty()
    } else {
        decision_entries_concat(s.drop_last()) + "decision-by-receipt".spec_bytes() + s.last().0@ + seq![
            s.last().1.code_spec(),
        ]
    }
}

/// Domain of recovered index roots.
pub open spec fn recovered_index_root_domain() -> Seq<u8> {
    "echo:causal_wal:recovered_index_root:v1\0".spec_bytes()
}

/// Bytes the recovered index root is taken over: each map in ascending key
/// order, each preceded by its entry count.
pub open spec fn recovered_index_root_input(sub: RecoveredSubmissionIndex, rec: RecoveredReceiptIndex) -> Seq<u8> {
    recovered_index_root_domain() + spec_u64_to_le_bytes(sub.submission_entries().len() as u64)
        + submission_entries_concat(sub.submission_entries()) + spec_u64_to_le_bytes(sub.envelope_entries().len() as u64)
        + envelope_entries_concat(sub.envelope_entries()) + spec_u64_to_le_bytes(
        rec.receipt_by_submission.entries_spec().len() as u64,
    ) + pair_entries_concat("receipt-by-submission".spec_bytes(), rec.receipt_by_submission.entries_spec())
        + spec_u64_to_le_bytes(rec.receipt_by_ticket.entries_spec().len() as u64) + pair_entries_concat(
        "receipt-by-ticket".spec_bytes(),
        rec.receipt_by_ticket.entries_spec(),
    ) + spec_u64_to_le_bytes(rec.ticket_by_submission.entries_spec().len() as u64) + pair_entries_concat(
        "ticket-by-submission".spec_bytes(),
        rec.ticket_by_submission.entries_spec(),
    ) + spec_u64_to_le_bytes(rec.decisions_by_receipt.entries_spec().len() as u64) + decision_entries_concat(
        rec.decisions_by_receipt.entries_spec(),
    )
}

proof fn lemma_envelope_concat_equiv(
    s: Seq<(crate::ident::Hash, KeySet<crate::ident::Hash>)>,
    t: Seq<(crate::ident::Hash, KeySet<crate::ident::Hash>)>,
)
    requires
        s.len() == t.len(),
        forall|i: int| 0 <= i < s.len() ==> (#[trigger] s[i]).0 == t[i].0 && s[i].1.canonical_seq() == t[i].1.canonical_seq(),
    ensures
        envelope_entries_concat(s) == envelope_entries_concat(t),
    decreases s.len(),
{
    if s.len() > 0 {
        assert forall|i: int| 0 <= i < s.drop_last().len() implies (#[trigger] s.drop_last()[i]).0 == t.drop_last()[i].0
            && s.drop_last()[i].1.canonical_seq() == t.drop_last()[i].1.canonical_seq() by {
            assert(s.drop_last()[i] == s[i]);
            assert(t.drop_last()[i] == t[i]);
        }
        lemma_envelope_concat_equiv(s.drop_last(), t.drop_last());
        assert(s.last().0 == t.last().0);
    }
}

/// The recovered index root is a function of what the submission index holds
/// (and of the receipt index): two well-formed submission indexes with the
/// same contents give the same root input, however their records arrived.
pub proof fn lemma_index_root_depends_only_on_contents(
    s1: RecoveredSubmissionIndex,
    s2: RecoveredSubmissionIndex,
    rec: RecoveredReceiptIndex,
)
    requires
        s1.wf(),
        s2.wf(),
        s1.view_spec() == s2.view_spec(),
    ensures
        recovered_index_root_input(s1, rec) == recovered_index_root_input(s2, rec),
{
    lemma_same_view_same_entries(&s1.submissions, &s2.submissions);
    let m1 = s1.envelope_to_submissions;
    let m2 = s2.envelope_to_submissions;
    assert(m1@.dom() =~= id_sets(m1@).dom());
    assert(m2@.dom() =~= id_sets(m2@).dom());
    lemma_same_keys_same_order(&m1, &m2);
    m1.lemma_view();
    m2.lemma_view();
    let e1 = m1.entries_spec();
    let e2 = m2.entries_spec();
    assert forall|i: int| 0 <= i < e1.len() implies (#[trigger] e1[i]).0 == e2[i].0 && e1[i].1.canonical_seq()
        == e2[i].1.canonical_seq() by {
        let k = e1[i].0;
        assert(e2[i].0 == k);
        assert(m1@[k] == e1[i].1);
        assert(m2@[k] == e2[i].1);
        assert(m1@.dom().contains(k));
        assert(id_sets(m1@)[k] == id_sets(m2@)[k]);
        lemma_keyset_canonical_unique(&e1[i].1, &e2[i].1);
    }
    lemma_envelope_concat_equiv(e1, e2);
}

/// The recovered receipt index root does not depend on the order in which
/// consistent acceptance records arrived: indexes recovered from two
/// arrangements of the same records give the same root input.
pub proof fn lemma_receipt_index_root_ignores_arrival_order(
    rs1: Seq<SubmissionAcceptanceRecord>,
    rs2: Seq<SubmissionAcceptanceRecord>,
    s1: RecoveredSubmissionIndex,
    s2: RecoveredSubmissionIndex,
    rec: RecoveredReceiptIndex,
)
    requires
        acceptances_consistent(rs1.to_set()),
        rs1.to_multiset() == rs2.to_multiset(),
        s1.wf(),
        s2.wf(),
        accept_fold(rs1) == Ok::<SubmissionIndexView, WalRecoveryIndexError>(s1.view_spec()),
        accept_fold(rs2) == Ok::<SubmissionIndexView, WalRecoveryIndexError>(s2.view_spec()),
    ensures
        recovered_index_root_input(s1, rec) == recovered_index_root_input(s2, rec),
{
    lemma_acceptance_arrival_order_is_irrelevant(rs1, rs2);
    lemma_index_root_depends_only_on_contents(s1, s2, rec);
}

fn push_submission_entries(out: &mut Vec<u8>, s: &[(crate::ident::Hash, RecoveredSubmissionEntry)])
    ensures
        final(out)@ == old(out)@ + submission_entries_concat(s@),
{
    let mut i: usize = 0;
    while i < s.len()
        invariant
            i <= s@.len(),
            out@ == old(out)@ + submission_entries_concat(s@.take(i as int)),
        decreases s.len() - i,
    {
        let id = s[i].0;
        let e = s[i].1;
        let ghost before = out@;
        push_slice(out, "submission".as_bytes());
        push_hash(out, &id);
        push_hash(out, &e.acceptance.submission_id);
        push_hash(out, &e.acceptance.canonical_envelope_digest);
        push_optional_hash(out, e.acceptance.idempotency_key_digest);
        push_hash(out, &e.acceptance.acceptance_evidence_digest);
        out.push(e.posture.stable_code());
        push_optional_hash(out, e.receipt_digest);
        proof {
            reveal_strlit("submission");
            assert(out@ =~= before + submission_entry_bytes(id, e));
            assert(s@.take(i + 1).drop_last() =~= s@.take(i as int));
        }
        i += 1;
    }
    assert(s@.take(s@.len() as int) =~= s@);
}

fn push_digests(out: &mut Vec<u8>, s: &[crate::ident::Hash])
    ensures
        final(out)@ == old(out)@ + digests_concat(s@),
{
    let mut i: usize = 0;
    while i < s.len()
        invariant
            i <= s@.len(),
            out@ == old(out)@ + digests_concat(s@.take(i as int)),
        decreases s.len() - i,
    {
        push_hash(out, &s[i]);
        proof {
            assert(s@.take(i + 1).drop_last() =~= s@.take(i as int));
        }
        i += 1;
    }
    assert(s@.take(s@.len() as int) =~= s@);
}

fn push_envelope_entries(out: &mut Vec<u8>, s: &[(crate::ident::Hash, KeySet<crate::ident::Hash>)])
    ensures
        final(out)@ == old(out)@ + envelope_entries_concat(s@),
{
    let mut i: usize = 0;
    while i < s.len()
        invariant
            i <= s@.len(),
            out@ == old(out)@ + envelope_entries_concat(s@.take(i as int)),
        decreases s.len() - i,
    {
        let ghost before = out@;
        push_slice(out, "envelope".as_bytes());
        push_hash(out, &s[i].0);
        let ids = s[i].1.as_slice();
        push_u64_le(out, ids.len() as u64);
        push_digests(out, ids);
        proof {
            reveal_strlit("envelope");
            assert(out@ =~= before + envelope_entry_bytes(s@[i as int].0, s@[i as int].1));
            assert(s@.take(i + 1).drop_last() =~= s@.take(i as int));
        }
        i += 1;
    }
    assert(s@.take(s@.len() as int) =~= s@);
}

fn push_pair_entries(out: &mut Vec<u8>, label: &[u8], s: &[(crate::ident::Hash, crate::ident::Hash)])
    ensures
        final(out)@ == old(out)@ + pair_entries_concat(label@, s@),
{
    let mut i: usize = 0;
    while i < s.len()
        invariant
            i <= s@.len(),
            out@ == old(out)@ + pair_entries_concat(label@, s@.take(i as int)),
        decreases s.len() - i,
    {
        let ghost before = out@;
        push_slice(out, label);
        push_hash(out, &s[i].0);
        push_hash(out, &s[i].1);
        proof {
            assert(out@ =~= before + label@ + s@[i as int].0@ + s@[i as int].1@);
            assert(s@.take(i + 1).drop_last() =~= s@.take(i as int));
        }
        i += 1;
    }
    assert(s@.take(s@.len() as int) =~= s@);
}

fn push_decision_entries(out: &mut Vec<u8>, s: &[(crate::ident::Hash, WalTickDecision)])
    ensures
        final(out)@ == old(out)@ + decision_entries_concat(s@),
{
    let mut i: usize = 0;
    while i < s.len()
        invariant
            i <= s@.len(),
            out@ == old(out)@ + decision_entries_concat(s@.take(i as int)),
        decreases s.len() - i,
    {
        let ghost before = out@;
        push_slice(out, "decision-by-receipt".as_bytes());
        push_hash(out, &s[i].0);
        out.push(s[i].1.stable_code());
        proof {
            reveal_strlit("decision-by-receipt");
            assert(out@ =~= before + "decision-by-receipt".spec_bytes() + s@[i as int].0@ + seq![s@[i as int].1.code_spec()]);
            assert(s@.take(i + 1).drop_last() =~= s@.take(i as int));
        }
        i += 1;
    }
    assert(s@.take(s@.len() as int) =~= s@);
}

impl RecoveredSubmissionIndex {
    pub(crate) fn submission_slice(&self) -> (r: &[(crate::ident::Hash, RecoveredSubmissionEntry)])
        ensures
            r@ == self.submission_entries(),
    {
        self.submissions.entries()
    }

    pub(crate) fn envelope_slice(&self) -> (r: &[(crate::ident::Hash, KeySet<crate::ident::Hash>)])
        ensures
            r@ == self.envelope_entries(),
    {
        self.envelope_to_submissions.entries()
    }
}

/// Builds a stable root over recovered submission and receipt indexes.
#[verifier::rlimit(30)]
pub fn recovered_submission_receipt_index_root(
    submissions: &RecoveredSubmissionIndex,
    receipts: &RecoveredReceiptIndex,
) -> (r: crate::ident::Hash)
    ensures
        r@ == blake3_digest(recovered_index_root_input(*submissions, *receipts)),
{
    let mut input: Vec<u8> = Vec::new();
    push_slice(&mut input, "echo:causal_wal:recovered_index_root:v1\0".as_bytes());
    let subs = submissions.submission_slice();
    push_u64_le(&mut input, subs.len() as u64);
    push_submission_entries(&mut input, subs);
    let envs = submissions.envelope_slice();
    push_u64_le(&mut input, envs.len() as u64);
    push_envelope_entries(&mut input, envs);
    let a = receipts.receipt_by_submission.entries();
    push_u64_le(&mut input, a.len() as u64);
    push_pair_entries(&mut input, "receipt-by-submission".as_bytes(), a);
    let b = receipts.receipt_by_ticket.entries();
    push_u64_le(&mut input, b.len() as u64);
    push_pair_entries(&mut input, "receipt-by-ticket".as_bytes(), b);
    let c = receipts.ticket_by_submission.entries();
    push_u64_le(&mut input, c.len() as u64);
    push_pair_entries(&mut input, "ticket-by-submission".as_bytes(), c);
    let d = receipts.decisions_by_receipt.entries();
    push_u64_le(&mut input, d.len() as u64);
    push_decision_entries(&mut input, d);
    proof {
        reveal_strlit("echo:causal_wal:recovered_index_root:v1\0");
        reveal_strlit("receipt-by-submission");
        reveal_strlit("receipt-by-ticket");
        reveal_strlit("ticket-by-submission");
        assert(input@ =~= recovered_index_root_input(*submissions, *receipts));
    }
    blake3_hash(input.as_slice())
}

} // verus!
