//! Pure replay of committed transactions into a minimal recovered state,
//! shadow comparison of live and replayed state, and the WAL schema lint.
use vstd::prelude::*;
use vstd::string::*;
use crate::causal_wal::frame::{committed_transaction_spec, AffectedFrontier, WalCommittedTransaction};
use crate::causal_wal::kinds::AffectedFrontierKind;
use crate::causal_wal::{WalTransactionId, WalValidationError};
use crate::ident::hash_eq;
use crate::order::bytes_eq;

verus! {

/// WAL replay errors.
#[derive(Clone, Copy, Debug, PartialEq, Eq)]
pub enum WalReplayError {
    /// Validation failed.
    Validation(WalValidationError),
    /// Frontier mismatch.
    FrontierMismatch {
        /// Frontier kind.
        kind: AffectedFrontierKind,
        /// Expected digest.
        expected: crate::ident::Hash,
        /// Actual digest.
        actual: crate::ident::Hash,
    },
}

/// Slot of a frontier kind: its code less one.
pub open spec fn slot_of(k: AffectedFrontierKind) -> int {
    k.code_spec() - 1
}

/// Current digest of each frontier kind, where one is recorded.
#[derive(Clone, Debug, PartialEq, Eq)]
pub struct FrontierMap {
    slots: Vec<Option<crate::ident::Hash>>,
}

impl View for FrontierMap {
    type V = Map<AffectedFrontierKind, crate::ident::Hash>;

    closed spec fn view(&self) -> Map<AffectedFrontierKind, crate::ident::Hash> {
        Map::new(
            |k: AffectedFrontierKind| self.slots@[slot_of(k)] is Some,
            |k: AffectedFrontierKind| self.slots@[slot_of(k)]->0,
        )
    }
}

fn slot_index(k: AffectedFrontierKind) -> (r: usize)
    ensures
        r == slot_of(k),
        r < 8,
{
    (k.stable_code() - 1) as usize
}

impl FrontierMap {
    /// One slot per kind.
    pub closed spec fn wf(&self) -> bool {
        self.slots@.len() == 8
    }

    /// No frontier recorded.
    pub fn new() -> (r: Self)
        ensures
            r.wf(),
            r@ == Map::<AffectedFrontierKind, crate::ident::Hash>::empty(),
    {
        let mut slots: Vec<Option<crate::ident::Hash>> = Vec::new();
        let mut i: usize = 0;
        while i < 8
            invariant
                i <= 8,
                slots@.len() == i,
                forall|j: int| 0 <= j < i ==> slots@[j] is None,
            decreases 8 - i,
        {
            slots.push(None);
            i += 1;
        }
        let r = FrontierMap { slots };
        assert(r@ =~= Map::<AffectedFrontierKind, crate::ident::Hash>::empty());
        r
    }

    /// The digest recorded for `k`, if any.
    pub fn get(&self, k: AffectedFrontierKind) -> (r: Option<crate::ident::Hash>)
        requires
            self.wf(),
        ensures
            r is Some <==> self@.dom().contains(k),
            r is Some ==> r->0 == self@[k],
    {
        self.slots[slot_index(k)]
    }

    /// Records `h` for `k`.
    pub fn insert(&mut self, k: AffectedFrontierKind, h: crate::ident::Hash)
        requires
            old(self).wf(),
        ensures
            final(self).wf(),
            final(self)@ == old(self)@.insert(k, h),
    {
        let i = slot_index(k);
        self.slots.set(i, Some(h));
        proof {
            assert forall|q: AffectedFrontierKind| slot_of(q) == slot_of(k) implies q == k by {
                q.lemma_code_round_trip();
                k.lemma_code_round_trip();
            }
        }
        assert(self@ =~= old(self)@.insert(k, h));
    }
}

/// Minimal recovered state used by the pure replay reducer.
#[derive(Clone, Debug, PartialEq, Eq)]
pub struct RecoveredState {
    /// Applied transaction ids in replay order.
    pub applied_transactions: Vec<WalTransactionId>,
    /// Current frontier digests by frontier kind.
    pub frontiers: FrontierMap,
}

/// Applied ids and frontier digests.
pub type StateView = (Seq<WalTransactionId>, Map<AffectedFrontierKind, crate::ident::Hash>);

impl RecoveredState {
    /// The state's applied ids and frontier digests.
    pub open spec fn view_spec(&self) -> StateView {
        (self.applied_transactions@, self.frontiers@)
    }

    /// Nothing applied, no frontier recorded.
    pub fn new() -> (r: Self)
        ensures
            r.frontiers.wf(),
            r.view_spec() == (Seq::<WalTransactionId>::empty(), Map::<AffectedFrontierKind, crate::ident::Hash>::empty()),
    {
        RecoveredState { applied_transactions: Vec::new(), frontiers: FrontierMap::new() }
    }
}

/// Frontier transitions applied in order: each before-digest must match the
/// current digest of its kind, where one is recorded.
pub open spec fn apply_frontiers(m: Map<AffectedFrontierKind, crate::ident::Hash>, fs: Seq<AffectedFrontier>) -> Result<
    Map<AffectedFrontierKind, crate::ident::Hash>,
    WalReplayError,
>
    decreases fs.len(),
{
    if fs.len() == 0 {
        Ok(m)
    } else {
        match apply_frontiers(m, fs.drop_last()) {
            Err(e) => Err(e),
            Ok(cur) => {
                let f = fs.last();
                if cur.dom().contains(f.kind) && cur[f.kind] != f.before_digest {
                    Err(WalReplayError::FrontierMismatch { kind: f.kind, expected: cur[f.kind], actual: f.before_digest })
                } else {
                    Ok(cur.insert(f.kind, f.after_digest))
                }
            },
        }
    }
}

/// Applying a validated committed transaction to a state.
pub open spec fn apply_spec(s: StateView, t: WalCommittedTransaction) -> Result<StateView, WalReplayError> {
    match committed_transaction_spec(t) {
        Err(e) => Err(WalReplayError::Validation(e)),
        Ok(_) => match apply_frontiers(s.1, t.affected_frontiers@) {
            Err(e) => Err(e),
            Ok(m) => Ok((s.0.push(t.commit.transaction_id), m)),
        },
    }
}

/// Applies a validated committed transaction to a recovered state.
pub fn apply_committed_transaction(before: RecoveredState, transaction: &WalCommittedTransaction) -> (r: Result<
    RecoveredState,
    WalReplayError,
>)
    requires
        before.frontiers.wf(),
    ensures
        match apply_spec(before.view_spec(), *transaction) {
            Ok(v) => r is Ok && r->Ok_0.frontiers.wf() && r->Ok_0.view_spec() == v,
            Err(e) => r == Err::<RecoveredState, WalReplayError>(e),
        },
{
    let mut state = before;
    match transaction.validate() {
        Err(e) => return Err(WalReplayError::Validation(e)),
        Ok(()) => {},
    }
    let fs = &transaction.affected_frontiers;
    let mut i: usize = 0;
    assert(fs@.take(0) =~= Seq::<AffectedFrontier>::empty());
    while i < fs.len()
        invariant
            i <= fs@.len(),
            fs@ == transaction.affected_frontiers@,
            committed_transaction_spec(*transaction) is Ok,
            state.frontiers.wf(),
            state.applied_transactions@ == before.applied_transactions@,
            apply_frontiers(before.frontiers@, fs@.take(i as int)) == Ok::<
                Map<AffectedFrontierKind, crate::ident::Hash>,
                WalReplayError,
            >(state.frontiers@),
        decreases fs.len() - i,
    {
        let f = fs[i];
        proof {
            assert(fs@.take(i + 1).drop_last() =~= fs@.take(i as int));
            lemma_apply_stops(before.frontiers@, fs@, i + 1);
        }
        match state.frontiers.get(f.kind) {
            Some(current) => {
                if !hash_eq(&current, &f.before_digest) {
                    assert(apply_frontiers(before.frontiers@, fs@.take(i + 1)) == Err::<
                        Map<AffectedFrontierKind, crate::ident::Hash>,
                        WalReplayError,
                    >(WalReplayError::FrontierMismatch { kind: f.kind, expected: current, actual: f.before_digest }));
                    return Err(WalReplayError::FrontierMismatch { kind: f.kind, expected: current, actual: f.before_digest });
                }
            },
            None => {},
        }
        state.frontiers.insert(f.kind, f.after_digest);
        i += 1;
    }
    assert(fs@.take(fs@.len() as int) =~= fs@);
    state.applied_transactions.push(transaction.commit.transaction_id);
    Ok(state)
}

/// An error on a prefix of the transitions is the error of the whole.
proof fn lemma_apply_stops(m: Map<AffectedFrontierKind, crate::ident::Hash>, fs: Seq<AffectedFrontier>, n: int)
    requires
        0 <= n <= fs.len(),
    ensures
        apply_frontiers(m, fs.take(n)) is Err ==> apply_frontiers(m, fs) == apply_frontiers(m, fs.take(n)),
    decreases fs.len() - n,
{
    if n < fs.len() {
        assert(fs.take(n + 1).drop_last() =~= fs.take(n));
        lemma_apply_stops(m, fs, n + 1);
    } else {
        assert(fs.take(n) =~= fs);
    }
}

/// The transition at `i` is the last one of its kind in `fs`.
pub open spec fn last_of_kind(fs: Seq<AffectedFrontier>, i: int) -> bool {
    forall|j: int| i < j < fs.len() ==> (#[trigger] fs[j]).kind != fs[i].kind
}

/// No transition in `fs` is of kind `k`.
pub open spec fn kind_untouched(fs: Seq<AffectedFrontier>, k: AffectedFrontierKind) -> bool {
    forall|i: int| 0 <= i < fs.len() ==> (#[trigger] fs[i]).kind != k
}

/// After the transitions apply, each frontier kind they touch holds the
/// after-digest of its last transition, and every kind they do not touch keeps
/// what it held before.
pub proof fn lemma_apply_frontiers_final_digests(
    m: Map<AffectedFrontierKind, crate::ident::Hash>,
    fs: Seq<AffectedFrontier>,
)
    ensures
        apply_frontiers(m, fs) matches Ok(m2) ==> forall|i: int|
            0 <= i < fs.len() && #[trigger] last_of_kind(fs, i) ==> m2.dom().contains(fs[i].kind) && m2[fs[i].kind]
                == fs[i].after_digest,
        apply_frontiers(m, fs) matches Ok(m2) ==> forall|k: AffectedFrontierKind|
            #[trigger] kind_untouched(fs, k) ==> (m2.dom().contains(k) <==> m.dom().contains(k)) && (m.dom().contains(k)
                ==> m2[k] == m[k]),
    decreases fs.len(),
{
    if fs.len() > 0 {
        let q = fs.drop_last();
        lemma_apply_frontiers_final_digests(m, q);
        if let Ok(m2) = apply_frontiers(m, fs) {
            let cur = apply_frontiers(m, q)->Ok_0;
            let f = fs.last();
            assert(m2 == cur.insert(f.kind, f.after_digest));
            assert forall|i: int| 0 <= i < fs.len() && #[trigger] last_of_kind(fs, i) implies m2.dom().contains(
                fs[i].kind,
            ) && m2[fs[i].kind] == fs[i].after_digest by {
                if i < fs.len() - 1 {
                    assert(fs[fs.len() - 1].kind != fs[i].kind);
                    assert(q[i] == fs[i]);
                    assert forall|j: int| i < j < q.len() implies (#[trigger] q[j]).kind != q[i].kind by {
                        assert(q[j] == fs[j]);
                    }
                    assert(last_of_kind(q, i));
                }
            }
            assert forall|k: AffectedFrontierKind| #[trigger] kind_untouched(fs, k) implies (m2.dom().contains(k)
                <==> m.dom().contains(k)) && (m.dom().contains(k) ==> m2[k] == m[k]) by {
                assert(fs[fs.len() - 1].kind != k);
                assert forall|i: int| 0 <= i < q.len() implies (#[trigger] q[i]).kind != k by {
                    assert(q[i] == fs[i]);
                }
                assert(kind_untouched(q, k));
            }
        }
    }
}

/// The transition at `i` is the first one of its kind in `fs`.
pub open spec fn first_of_kind(fs: Seq<AffectedFrontier>, i: int) -> bool {
    forall|j: int| 0 <= j < i ==> (#[trigger] fs[j]).kind != fs[i].kind
}

/// The transition at `j` is the one of the same kind just before `i`.
pub open spec fn prev_of_kind(fs: Seq<AffectedFrontier>, j: int, i: int) -> bool {
    &&& 0 <= j < i < fs.len()
    &&& fs[j].kind == fs[i].kind
    &&& forall|l: int| j < l < i ==> (#[trigger] fs[l]).kind != fs[i].kind
}

/// Each transition starts where its kind stands: the first of a kind from the
/// digest recorded in `m`, where one is, and every later one from the
/// after-digest of the transition of its kind just before it.
pub open spec fn transitions_chain(m: Map<AffectedFrontierKind, crate::ident::Hash>, fs: Seq<AffectedFrontier>) -> bool {
    &&& forall|i: int|
        0 <= i < fs.len() && #[trigger] first_of_kind(fs, i) && m.dom().contains(fs[i].kind) ==> m[fs[i].kind]
            == fs[i].before_digest
    &&& forall|j: int, i: int| #[trigger] prev_of_kind(fs, j, i) ==> fs[j].after_digest == fs[i].before_digest
}

proof fn lemma_last_index_of_kind(q: Seq<AffectedFrontier>, k: AffectedFrontierKind) -> (J: int)
    requires
        exists|j: int| 0 <= j < q.len() && (#[trigger] q[j]).kind == k,
    ensures
        0 <= J < q.len(),
        q[J].kind == k,
        forall|l: int| J < l < q.len() ==> (#[trigger] q[l]).kind != k,
    decreases q.len(),
{
    if q.last().kind == k {
        q.len() - 1
    } else {
        let d = q.drop_last();
        let j = choose|j: int| 0 <= j < q.len() && (#[trigger] q[j]).kind == k;
        assert(d[j] == q[j]);
        let J = lemma_last_index_of_kind(d, k);
        assert forall|l: int| J < l < q.len() implies (#[trigger] q[l]).kind != k by {
            if l < q.len() - 1 {
                assert(d[l] == q[l]);
            }
        }
        J
    }
}

/// The transitions apply exactly when they chain: each one starts from the
/// digest its kind holds at that point, the recorded one for the first of a
/// kind and the previous after-digest of its kind for the others.
pub proof fn lemma_apply_frontiers_ok_iff_chained(m: Map<AffectedFrontierKind, crate::ident::Hash>, fs: Seq<AffectedFrontier>)
    ensures
        apply_frontiers(m, fs) is Ok <==> transitions_chain(m, fs),
    decreases fs.len(),
{
    if fs.len() == 0 {
        return;
    }
    let n = fs.len() - 1;
    let q = fs.drop_last();
    let f = fs.last();
    let k = f.kind;
    lemma_apply_frontiers_ok_iff_chained(m, q);
    assert forall|i: int| 0 <= i < n implies (#[trigger] first_of_kind(fs, i)) == first_of_kind(q, i) by {
        assert forall|j: int| 0 <= j < i implies fs[j] == q[j] by {}
        assert(fs[i] == q[i]);
    }
    assert forall|j: int, i: int| i < n implies (#[trigger] prev_of_kind(fs, j, i)) == prev_of_kind(q, j, i) by {
        if 0 <= i {
            assert forall|l: int| 0 <= l < i implies fs[l] == q[l] by {}
            assert(fs[i] == q[i]);
        }
    }
    // the chain over the whole is the chain over the prefix and the last step
    let last_ok = (first_of_kind(fs, n) && m.dom().contains(k) ==> m[k] == f.before_digest) && forall|j: int|
        #[trigger] prev_of_kind(fs, j, n) ==> fs[j].after_digest == f.before_digest;
    assert(transitions_chain(m, fs) <==> transitions_chain(m, q) && last_ok) by {
        if transitions_chain(m, q) && last_ok {
            assert forall|i: int|
                0 <= i < fs.len() && #[trigger] first_of_kind(fs, i) && m.dom().contains(fs[i].kind) implies m[fs[i].kind]
                    == fs[i].before_digest by {
                if i < n {
                    assert(first_of_kind(q, i));
                    assert(q[i] == fs[i]);
                }
            }
            assert forall|j: int, i: int| #[trigger] prev_of_kind(fs, j, i) implies fs[j].after_digest == fs[i].before_digest by {
                if i < n {
                    assert(prev_of_kind(q, j, i));
                    assert(q[i] == fs[i] && q[j] == fs[j]);
                }
            }
        }
        if transitions_chain(m, fs) {
            assert forall|i: int|
                0 <= i < q.len() && #[trigger] first_of_kind(q, i) && m.dom().contains(q[i].kind) implies m[q[i].kind]
                    == q[i].before_digest by {
                assert(first_of_kind(fs, i));
                assert(q[i] == fs[i]);
            }
            assert forall|j: int, i: int| #[trigger] prev_of_kind(q, j, i) implies q[j].after_digest == q[i].before_digest by {
                assert(prev_of_kind(fs, j, i));
                assert(q[i] == fs[i] && q[j] == fs[j]);
            }
        }
    }
    match apply_frontiers(m, q) {
        Err(_) => {},
        Ok(cur) => {
            lemma_apply_frontiers_final_digests(m, q);
            if exists|j: int| 0 <= j < q.len() && (#[trigger] q[j]).kind == k {
                let J = lemma_last_index_of_kind(q, k);
                assert(last_of_kind(q, J));
                assert(q[J] == fs[J]);
                assert(prev_of_kind(fs, J, n)) by {
                    assert forall|l: int| J < l < n implies (#[trigger] fs[l]).kind != fs[n].kind by {
                        assert(q[l] == fs[l]);
                    }
                }
                assert(!first_of_kind(fs, n));
                assert forall|j: int| #[trigger] prev_of_kind(fs, j, n) implies j == J by {
                    if j < J {
                        assert(fs[J].kind == fs[n].kind);
                    } else if j > J {
                        assert(q[j] == fs[j]);
                    }
                }
            } else {
                assert(kind_untouched(q, k));
                assert(first_of_kind(fs, n)) by {
                    assert forall|j: int| 0 <= j < n implies (#[trigger] fs[j]).kind != fs[n].kind by {
                        assert(q[j] == fs[j]);
                    }
                }
                assert forall|j: int| !(#[trigger] prev_of_kind(fs, j, n)) by {
                    if 0 <= j < n {
                        assert(q[j] == fs[j]);
                    }
                }
            }
        },
    }
}

/// Applying a transaction that validates appends its id to the applied ids
/// and moves each frontier kind it touches to the after-digest of its last
/// transition, leaving the other kinds as they were; a validated transaction
/// applies exactly when its transitions chain from the state's frontiers.
pub proof fn lemma_apply_records_transaction(s: StateView, t: WalCommittedTransaction)
    ensures
        apply_spec(s, t) matches Ok(v) ==> v.0 == s.0.push(t.commit.transaction_id),
        apply_spec(s, t) matches Ok(v) ==> forall|i: int|
            0 <= i < t.affected_frontiers@.len() && #[trigger] last_of_kind(t.affected_frontiers@, i) ==> v.1.dom().contains(
                t.affected_frontiers@[i].kind,
            ) && v.1[t.affected_frontiers@[i].kind] == t.affected_frontiers@[i].after_digest,
        apply_spec(s, t) matches Ok(v) ==> forall|k: AffectedFrontierKind|
            #[trigger] kind_untouched(t.affected_frontiers@, k) ==> (v.1.dom().contains(k) <==> s.1.dom().contains(k)) && (
            s.1.dom().contains(k) ==> v.1[k] == s.1[k]),
        committed_transaction_spec(t) is Ok ==> (apply_spec(s, t) is Ok <==> transitions_chain(s.1, t.affected_frontiers@)),
{
    lemma_apply_frontiers_final_digests(s.1, t.affected_frontiers@);
    lemma_apply_frontiers_ok_iff_chained(s.1, t.affected_frontiers@);
}

/// Replays the transactions from an empty state, stopping at the first error.
pub open spec fn replay_spec(ts: Seq<WalCommittedTransaction>) -> Result<StateView, WalReplayError>
    decreases ts.len(),
{
    if ts.len() == 0 {
        Ok((Seq::empty(), Map::empty()))
    } else {
        match replay_spec(ts.drop_last()) {
            Err(e) => Err(e),
            Ok(s) => apply_spec(s, ts.last()),
        }
    }
}

/// Shadow replay mismatch classification.
#[derive(Clone, Copy, Debug, PartialEq, Eq)]
pub enum ShadowReplayMismatch {
    /// Applied transaction count differs.
    AppliedTransactionCount {
        /// Live applied transaction count.
        live: usize,
        /// Replayed applied transaction count.
        replayed: usize,
    },
    /// Applied transaction id differs at the first mismatching index.
    AppliedTransaction {
        /// First mismatching index.
        index: usize,
        /// Live transaction id.
        live: WalTransactionId,
        /// Replayed transaction id.
        replayed: WalTransactionId,
    },
    /// Live state is missing a frontier present in replay.
    MissingLiveFrontier {
        /// Frontier kind.
        kind: AffectedFrontierKind,
    },
    /// Replay state is missing a frontier present in live state.
    MissingReplayedFrontier {
        /// Frontier kind.
        kind: AffectedFrontierKind,
    },
    /// Frontier digest differs.
    FrontierDigest {
        /// Frontier kind.
        kind: AffectedFrontierKind,
        /// Live frontier digest.
        live: crate::ident::Hash,
        /// Replayed frontier digest.
        replayed: crate::ident::Hash,
    },
}

/// Frontier kinds in their order.
pub open spec fn all_kinds() -> Seq<AffectedFrontierKind> {
    seq![
        AffectedFrontierKind::SubmissionQueue,
        AffectedFrontierKind::RuntimeState,
        AffectedFrontierKind::ReceiptIndex,
        AffectedFrontierKind::ReadingIndex,
        AffectedFrontierKind::RuntimeControl,
        AffectedFrontierKind::CheckpointIndex,
        AffectedFrontierKind::TopologyIndex,
        AffectedFrontierKind::CausalAnchorIndex,
    ]
}

/// First index at or after `i` where the applied ids differ.
pub open spec fn first_id_mismatch(a: Seq<WalTransactionId>, b: Seq<WalTransactionId>, i: int) -> Option<int>
    decreases a.len() - i,
{
    if i < 0 || i >= a.len() {
        None
    } else if a[i] != b[i] {
        Some(i)
    } else {
        first_id_mismatch(a, b, i + 1)
    }
}

/// The mismatch, if any, of one frontier kind.
pub open spec fn kind_mismatch(
    k: AffectedFrontierKind,
    live: Map<AffectedFrontierKind, crate::ident::Hash>,
    replayed: Map<AffectedFrontierKind, crate::ident::Hash>,
) -> Option<ShadowReplayMismatch> {
    if live.dom().contains(k) && replayed.dom().contains(k) {
        if live[k] != replayed[k] {
            Some(ShadowReplayMismatch::FrontierDigest { kind: k, live: live[k], replayed: replayed[k] })
        } else {
            None
        }
    } else if replayed.dom().contains(k) {
        Some(ShadowReplayMismatch::MissingLiveFrontier { kind: k })
    } else if live.dom().contains(k) {
        Some(ShadowReplayMismatch::MissingReplayedFrontier { kind: k })
    } else {
        None
    }
}

/// First frontier mismatch over the kinds from position `i`.
pub open spec fn first_kind_mismatch(
    live: Map<AffectedFrontierKind, crate::ident::Hash>,
    replayed: Map<AffectedFrontierKind, crate::ident::Hash>,
    i: int,
) -> Option<ShadowReplayMismatch>
    decreases 8 - i,
{
    if i < 0 || i >= 8 {
        None
    } else {
        match kind_mismatch(all_kinds()[i], live, replayed) {
            Some(m) => Some(m),
            None => first_kind_mismatch(live, replayed, i + 1),
        }
    }
}

/// First difference between live and replayed state: the applied count, then
/// the first differing applied id, then the first frontier kind that differs.
pub open spec fn first_mismatch_spec(live: StateView, replayed: StateView) -> Option<ShadowReplayMismatch> {
    if live.0.len() != replayed.0.len() {
        Some(
            ShadowReplayMismatch::AppliedTransactionCount {
                live: live.0.len() as usize,
                replayed: replayed.0.len() as usize,
            },
        )
    } else {
        match first_id_mismatch(live.0, replayed.0, 0) {
            Some(k) => Some(
                ShadowReplayMismatch::AppliedTransaction { index: k as usize, live: live.0[k], replayed: replayed.0[k] },
            ),
            None => first_kind_mismatch(live.1, replayed.1, 0),
        }
    }
}

/// Shadow replay comparison report.
#[derive(Clone, Debug, PartialEq, Eq)]
pub struct ShadowReplayReport {
    /// `true` when live and replayed state match exactly.
    pub matches: bool,
    /// First mismatch, when present.
    pub first_mismatch: Option<ShadowReplayMismatch>,
    /// Replayed state produced from committed transactions.
    pub replayed_state: RecoveredState,
}

fn kind_at(i: usize) -> (r: AffectedFrontierKind)
    requires
        i < 8,
    ensures
        r == all_kinds()[i as int],
{
    match i {
        0 => AffectedFrontierKind::SubmissionQueue,
        1 => AffectedFrontierKind::RuntimeState,
        2 => AffectedFrontierKind::ReceiptIndex,
        3 => AffectedFrontierKind::ReadingIndex,
        4 => AffectedFrontierKind::RuntimeControl,
        5 => AffectedFrontierKind::CheckpointIndex,
        6 => AffectedFrontierKind::TopologyIndex,
        _ => AffectedFrontierKind::CausalAnchorIndex,
    }
}

fn first_shadow_replay_mismatch(live: &RecoveredState, replayed: &RecoveredState) -> (r: Option<ShadowReplayMismatch>)
    requires
        live.frontiers.wf(),
        replayed.frontiers.wf(),
    ensures
        r == first_mismatch_spec(live.view_spec(), replayed.view_spec()),
{
    let a = &live.applied_transactions;
    let b = &replayed.applied_transactions;
    if a.len() != b.len() {
        return Some(ShadowReplayMismatch::AppliedTransactionCount { live: a.len(), replayed: b.len() });
    }
    let mut i: usize = 0;
    while i < a.len()
        invariant
            i <= a@.len(),
            a@ == live.applied_transactions@,
            b@ == replayed.applied_transactions@,
            a@.len() == b@.len(),
            first_id_mismatch(a@, b@, 0) == first_id_mismatch(a@, b@, i as int),
        decreases a.len() - i,
    {
        if !hash_eq(&a[i].0, &b[i].0) {
            assert(a@[i as int] != b@[i as int]);
            assert(first_id_mismatch(a@, b@, i as int) == Some(i as int));
            return Some(ShadowReplayMismatch::AppliedTransaction { index: i, live: a[i], replayed: b[i] });
        }
        i += 1;
    }
    assert(first_id_mismatch(a@, b@, i as int) is None);
    let mut k: usize = 0;
    while k < 8
        invariant
            k <= 8,
            live.applied_transactions@.len() == replayed.applied_transactions@.len(),
            first_id_mismatch(live.applied_transactions@, replayed.applied_transactions@, 0) is None,
            live.frontiers.wf(),
            replayed.frontiers.wf(),
            first_kind_mismatch(live.frontiers@, replayed.frontiers@, 0) == first_kind_mismatch(
                live.frontiers@,
                replayed.frontiers@,
                k as int,
            ),
        decreases 8 - k,
    {
        let kind = kind_at(k);
        assert(first_kind_mismatch(live.frontiers@, replayed.frontiers@, k as int) == match kind_mismatch(
            kind,
            live.frontiers@,
            replayed.frontiers@,
        ) {
            Some(m) => Some(m),
            None => first_kind_mismatch(live.frontiers@, replayed.frontiers@, k + 1),
        });
        match (live.frontiers.get(kind), replayed.frontiers.get(kind)) {
            (Some(l), Some(p)) => {
                if !hash_eq(&l, &p) {
                    assert(kind_mismatch(kind, live.frontiers@, replayed.frontiers@) == Some(
                        ShadowReplayMismatch::FrontierDigest { kind, live: l, replayed: p },
                    ));
                    return Some(ShadowReplayMismatch::FrontierDigest { kind, live: l, replayed: p });
                }
            },
            (None, Some(_)) => {
                return Some(ShadowReplayMismatch::MissingLiveFrontier { kind });
            },
            (Some(_), None) => {
                return Some(ShadowReplayMismatch::MissingReplayedFrontier { kind });
            },
            (None, None) => {},
        }
        k += 1;
    }
    None
}

/// Replays the transactions and compares the result with the live state.
#[verifier::rlimit(40)]
#[verifier::spinoff_prover]
pub fn shadow_replay_report(live_state: &RecoveredState, transactions: &[WalCommittedTransaction]) -> (r: Result<
    ShadowReplayReport,
    WalReplayError,
>)
    requires
        live_state.frontiers.wf(),
    ensures
        match replay_spec(transactions@) {
            Err(e) => r == Err::<ShadowReplayReport, WalReplayError>(e),
            Ok(v) => r is Ok && r->Ok_0.replayed_state.view_spec() == v && r->Ok_0.first_mismatch == first_mismatch_spec(
                live_state.view_spec(),
                v,
            ) && r->Ok_0.matches == (r->Ok_0.first_mismatch is None),
        },
{
    let mut replayed = RecoveredState::new();
    let mut i: usize = 0;
    assert(transactions@.take(0) =~= Seq::<WalCommittedTransaction>::empty());
    while i < transactions.len()
        invariant
            i <= transactions@.len(),
            replayed.frontiers.wf(),
            replay_spec(transactions@.take(i as int)) == Ok::<StateView, WalReplayError>(replayed.view_spec()),
        decreases transactions.len() - i,
    {
        proof {
            assert(transactions@.take(i + 1).drop_last() =~= transactions@.take(i as int));
            lemma_replay_stops(transactions@, i + 1);
        }
        replayed = match apply_committed_transaction(replayed, &transactions[i]) {
            Ok(s) => s,
            Err(e) => return Err(e),
        };
        i += 1;
    }
    assert(transactions@.take(transactions@.len() as int) =~= transactions@);
    let first_mismatch = first_shadow_replay_mismatch(live_state, &replayed);
    Ok(ShadowReplayReport { matches: first_mismatch.is_none(), first_mismatch, replayed_state: replayed })
}

proof fn lemma_replay_stops(ts: Seq<WalCommittedTransaction>, n: int)
    requires
        0 <= n <= ts.len(),
    ensures
        replay_spec(ts.take(n)) is Err ==> replay_spec(ts) == replay_spec(ts.take(n)),
    decreases ts.len() - n,
{
    if n < ts.len() {
        assert(ts.take(n + 1).drop_last() =~= ts.take(n));
        lemma_replay_stops(ts, n + 1);
    } else {
        assert(ts.take(n) =~= ts);
    }
}

/// Checks that live state and WAL replay produce the same recovered state.
pub fn shadow_replay_matches(live_state: &RecoveredState, transactions: &[WalCommittedTransaction]) -> (r: Result<
    bool,
    WalReplayError,
>)
    requires
        live_state.frontiers.wf(),
    ensures
        match replay_spec(transactions@) {
            Err(e) => r == Err::<bool, WalReplayError>(e),
            Ok(v) => r == Ok::<bool, WalReplayError>(first_mismatch_spec(live_state.view_spec(), v) is None),
        },
{
    match shadow_replay_report(live_state, transactions) {
        Ok(report) => Ok(report.matches),
        Err(e) => Err(e),
    }
}

} // verus!
