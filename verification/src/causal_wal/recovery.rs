//! Recovery: committed transactions are reconstructed from recorded frames
//! and flushed commit markers; frames past the last commit form the tail.
use vstd::prelude::*;
use crate::causal_wal::frame::{
    clone_frame, frame_integrity_spec, frames_view, lemma_frames_view_congruence,
    transaction_frames_spec, validate_transaction_frames, WalFrame, WalTransactionCommit,
};
use crate::causal_wal::projection::{be8, push_u64_be};
use crate::causal_wal::{transaction_id_eq, Lsn, WalRecoveryError, WalValidationError};
use crate::order::{sort_by_key, sort_by_key_spec, SortKey};

verus! {

/// Recovery access mode.
#[derive(Clone, Copy, Debug, PartialEq, Eq, Structural)]
pub enum RecoveryAccessMode {
    /// Writable recovery may truncate incomplete tails after validation.
    Writable,
    /// Read-only recovery reports incomplete tails without mutating storage.
    ReadOnly,
}

/// Recovery tail posture.
#[derive(Clone, Copy, Debug, PartialEq, Eq, Structural)]
pub enum RecoveryTailPosture {
    /// No uncommitted tail was present.
    Clean,
    /// Writable recovery truncated every frame because no committed
    /// transaction was present.
    TruncatedAll,
    /// Writable recovery truncated after the given LSN.
    TruncatedAfter(Lsn),
    /// Read-only recovery would truncate every frame because no committed
    /// transaction was present.
    WouldTruncateAll,
    /// Read-only recovery would truncate after the given LSN.
    WouldTruncateAfter(Lsn),
}

/// Recovered committed transaction.
#[derive(Clone, Debug, PartialEq, Eq)]
pub struct WalRecoveredTransaction {
    /// Commit marker.
    pub commit: WalTransactionCommit,
    /// Transaction frames.
    pub frames: Vec<WalFrame>,
}

/// Recovery scan report.
#[derive(Clone, Debug, PartialEq, Eq)]
pub struct RecoveryScanReport {
    /// Valid committed transactions.
    pub transactions: Vec<WalRecoveredTransaction>,
    /// Tail posture.
    pub tail_posture: RecoveryTailPosture,
}

/// Smallest first LSN among the transactions, if any.
pub open spec fn min_first_lsn(ts: Seq<WalRecoveredTransaction>) -> Option<Lsn>
    decreases ts.len(),
{
    if ts.len() == 0 {
        None
    } else {
        match min_first_lsn(ts.drop_last()) {
            None => Some(ts.last().commit.first_lsn),
            Some(m) => if ts.last().commit.first_lsn.0 < m.0 {
                Some(ts.last().commit.first_lsn)
            } else {
                Some(m)
            },
        }
    }
}

/// Largest last LSN among the transactions, if any.
pub open spec fn max_last_lsn(ts: Seq<WalRecoveredTransaction>) -> Option<Lsn>
    decreases ts.len(),
{
    if ts.len() == 0 {
        None
    } else {
        match max_last_lsn(ts.drop_last()) {
            None => Some(ts.last().commit.last_lsn),
            Some(m) => if ts.last().commit.last_lsn.0 > m.0 {
                Some(ts.last().commit.last_lsn)
            } else {
                Some(m)
            },
        }
    }
}

impl RecoveryScanReport {
    /// Returns the first committed LSN in the scan.
    pub fn first_committed_lsn(&self) -> (r: Option<Lsn>)
        ensures
            r == min_first_lsn(self.transactions@),
    {
        let mut best: Option<Lsn> = None;
        let mut i: usize = 0;
        while i < self.transactions.len()
            invariant
                i <= self.transactions@.len(),
                best == min_first_lsn(self.transactions@.subrange(0, i as int)),
            decreases self.transactions.len() - i,
        {
            let l = self.transactions[i].commit.first_lsn;
            proof {
                let s = self.transactions@.subrange(0, i + 1);
                assert(s.drop_last() =~= self.transactions@.subrange(0, i as int));
            }
            best = match best {
                None => Some(l),
                Some(m) => if l.0 < m.0 { Some(l) } else { Some(m) },
            };
            i += 1;
        }
        assert(self.transactions@.subrange(0, self.transactions@.len() as int) =~= self.transactions@);
        best
    }

    /// Returns the last committed LSN in the scan.
    pub fn last_committed_lsn(&self) -> (r: Option<Lsn>)
        ensures
            r == max_last_lsn(self.transactions@),
    {
        let mut best: Option<Lsn> = None;
        let mut i: usize = 0;
        while i < self.transactions.len()
            invariant
                i <= self.transactions@.len(),
                best == max_last_lsn(self.transactions@.subrange(0, i as int)),
            decreases self.transactions.len() - i,
        {
            let l = self.transactions[i].commit.last_lsn;
            proof {
                let s = self.transactions@.subrange(0, i + 1);
                assert(s.drop_last() =~= self.transactions@.subrange(0, i as int));
            }
            best = match best {
                None => Some(l),
                Some(m) => if l.0 > m.0 { Some(l) } else { Some(m) },
            };
            i += 1;
        }
        assert(self.transactions@.subrange(0, self.transactions@.len() as int) =~= self.transactions@);
        best
    }

    /// Returns the last committed transaction digest in replay order.
    pub fn last_commit_digest(&self) -> (r: Option<crate::ident::Hash>)
        ensures
            self.transactions@.len() == 0 ==> r is None,
            self.transactions@.len() > 0 ==> r == Some(self.transactions@.last().commit.commit_digest),
    {
        if self.transactions.len() == 0 {
            None
        } else {
            Some(self.transactions[self.transactions.len() - 1].commit.commit_digest)
        }
    }
}

/// A frame's LSN and its recorded position; slots order by LSN, then
/// position, so sorting them is a stable sort of the frames by LSN.
#[derive(Clone, Copy, Debug, PartialEq, Eq)]
pub struct LsnSlot {
    /// LSN of the frame.
    pub lsn: u64,
    /// Recorded position of the frame.
    pub index: u64,
}

impl SortKey for LsnSlot {
    open spec fn key(&self) -> Seq<u8> {
        be8(self.lsn) + be8(self.index)
    }

    fn key_bytes(&self) -> (k: Vec<u8>) {
        let mut k: Vec<u8> = Vec::new();
        push_u64_be(&mut k, self.lsn);
        push_u64_be(&mut k, self.index);
        k
    }
}

/// One slot per recorded frame, in recorded order.
pub open spec fn lsn_slots(frames: Seq<WalFrame>) -> Seq<LsnSlot> {
    Seq::new(frames.len(), |i: int| LsnSlot { lsn: frames[i].header.lsn.0, index: i as u64 })
}

/// The frames' positions in LSN order, equal LSNs in recorded order.
pub open spec fn lsn_order(frames: Seq<WalFrame>) -> Seq<LsnSlot> {
    sort_by_key_spec(lsn_slots(frames))
}

/// The first failure walking the frames in LSN order from position `k` of
/// `order`, after a frame at LSN `prev`: each frame must be integral, then
/// follow its predecessor's LSN by exactly one.
pub open spec fn order_error_from(frames: Seq<WalFrame>, order: Seq<LsnSlot>, k: int, prev: Option<u64>) -> Option<
    WalValidationError,
>
    decreases order.len() - k,
{
    if k < 0 || k >= order.len() {
        None
    } else {
        let f = frames[order[k].index as int];
        match frame_integrity_spec(f) {
            Err(e) => Some(e),
            Ok(_) => match prev {
                Some(p) => if p == u64::MAX || f.header.lsn.0 != p + 1 {
                    Some(WalValidationError::LsnContinuityMismatch)
                } else {
                    order_error_from(frames, order, k + 1, Some(f.header.lsn.0))
                },
                None => order_error_from(frames, order, k + 1, Some(f.header.lsn.0)),
            },
        }
    }
}

/// Order validation of recorded frames, taken in LSN order (a stable sort):
/// the first frame failing its integrity checks, or not following its
/// predecessor's LSN by one, decides.
pub open spec fn frame_order_spec(frames: Seq<WalFrame>) -> Result<(), WalValidationError> {
    match order_error_from(frames, lsn_order(frames), 0, None) {
        Some(e) => Err(e),
        None => Ok(()),
    }
}

fn validate_recovery_frame_order(frames: &[WalFrame]) -> (r: Result<(), WalValidationError>)
    ensures
        r == frame_order_spec(frames@),
{
    broadcast use vstd::seq_lib::group_to_multiset_ensures;
    let n = frames.len();
    let mut slots: Vec<LsnSlot> = Vec::new();
    let mut i: usize = 0;
    while i < n
        invariant
            i <= n,
            n == frames@.len(),
            slots@ == lsn_slots(frames@).take(i as int),
        decreases n - i,
    {
        slots.push(LsnSlot { lsn: frames[i].header.lsn.0, index: i as u64 });
        i += 1;
        assert(slots@ =~= lsn_slots(frames@).take(i as int));
    }
    assert(lsn_slots(frames@).take(n as int) =~= lsn_slots(frames@));
    let ghost unsorted = slots@;
    let order = sort_by_key(slots);
    proof {
        assert forall|k: int| 0 <= k < order@.len() implies (#[trigger] order@[k]).index < n by {
            assert(order@.to_multiset().count(order@[k]) > 0);
            assert(unsorted.contains(order@[k]));
            let j = choose|j: int| 0 <= j < unsorted.len() && unsorted[j] == order@[k];
            assert(unsorted[j].index == j as u64);
        }
    }
    let mut prev: Option<u64> = None;
    let mut k: usize = 0;
    while k < order.len()
        invariant
            k <= order@.len(),
            n == frames@.len(),
            order@ == lsn_order(frames@),
            forall|j: int| 0 <= j < order@.len() ==> (#[trigger] order@[j]).index < n,
            order_error_from(frames@, order@, 0, None) == order_error_from(frames@, order@, k as int, prev),
        decreases order.len() - k,
    {
        let idx = order[k].index as usize;
        let f = &frames[idx];
        match f.validate_integrity() {
            Err(e) => return Err(e),
            Ok(()) => {},
        }
        match prev {
            Some(p) => {
                if p == u64::MAX || f.header.lsn.0 != p + 1 {
                    return Err(WalValidationError::LsnContinuityMismatch);
                }
            },
            None => {},
        }
        prev = Some(f.header.lsn.0);
        k += 1;
    }
    Ok(())
}

/// Predicate selecting the frames a commit marker covers.
pub open spec fn covered_by(c: WalTransactionCommit) -> spec_fn(WalFrame) -> bool {
    |f: WalFrame| f.header.transaction_id == c.transaction_id && c.first_lsn.0 <= f.header.lsn.0
        && f.header.lsn.0 <= c.last_lsn.0
}

/// Frames covered by commit `c`, in recorded order.
pub open spec fn commit_frames(frames: Seq<WalFrame>, c: WalTransactionCommit) -> Seq<WalFrame> {
    frames.filter(covered_by(c))
}

/// The first commit (from index `k` on) whose covered frames fail validation.
pub open spec fn first_commit_error_from(frames: Seq<WalFrame>, commits: Seq<WalTransactionCommit>, k: int) -> Option<WalValidationError>
    decreases commits.len() - k,
{
    if k < 0 || k >= commits.len() {
        None
    } else {
        match transaction_frames_spec(commit_frames(frames, commits[k]), commits[k]) {
            Err(e) => Some(e),
            Ok(_) => first_commit_error_from(frames, commits, k + 1),
        }
    }
}

/// Tail posture of a recovery scan.
pub open spec fn tail_posture_spec(frames: Seq<WalFrame>, commits: Seq<WalTransactionCommit>, mode: RecoveryAccessMode) -> RecoveryTailPosture {
    if commits.len() == 0 {
        if frames.len() == 0 {
            RecoveryTailPosture::Clean
        } else if mode == RecoveryAccessMode::Writable {
            RecoveryTailPosture::TruncatedAll
        } else {
            RecoveryTailPosture::WouldTruncateAll
        }
    } else {
        let last = commits.last().last_lsn;
        if !(exists|i: int| 0 <= i < frames.len() && #[trigger] frames[i].header.lsn.0 > last.0) {
            RecoveryTailPosture::Clean
        } else if mode == RecoveryAccessMode::Writable {
            RecoveryTailPosture::TruncatedAfter(last)
        } else {
            RecoveryTailPosture::WouldTruncateAfter(last)
        }
    }
}

/// What recovering `frames` against `commits` gives: the first frame-order
/// error, else the first commit error, else one recovered transaction per
/// commit marker (in order, holding exactly the frames the marker claims) and
/// the tail posture.
pub open spec fn recovery_outcome(
    frames: Seq<WalFrame>,
    commits: Seq<WalTransactionCommit>,
    mode: RecoveryAccessMode,
    r: Result<RecoveryScanReport, WalRecoveryError>,
) -> bool {
    &&& frame_order_spec(frames) is Err ==> r == Err::<RecoveryScanReport, WalRecoveryError>(
        WalRecoveryError::Validation(frame_order_spec(frames)->Err_0),
    )
    &&& frame_order_spec(frames) is Ok && first_commit_error_from(frames, commits, 0) is Some ==> r
        == Err::<RecoveryScanReport, WalRecoveryError>(
        WalRecoveryError::Validation(first_commit_error_from(frames, commits, 0)->Some_0),
    )
    &&& frame_order_spec(frames) is Ok && first_commit_error_from(frames, commits, 0) is None ==> {
        &&& r is Ok
        &&& r->Ok_0.transactions@.len() == commits.len()
        &&& forall|k: int| 0 <= k < commits.len() ==> {
            &&& (#[trigger] r->Ok_0.transactions@[k]).commit == commits[k]
            &&& frames_view(r->Ok_0.transactions@[k].frames@) == frames_view(commit_frames(frames, commits[k]))
            &&& transaction_frames_spec(r->Ok_0.transactions@[k].frames@, commits[k]) == Ok::<(), WalValidationError>(())
        }
        &&& r->Ok_0.tail_posture == tail_posture_spec(frames, commits, mode)
    }
}

/// Recovers committed transactions from frames and commit markers.
///
/// Recorded frames, taken in LSN order, must each be integral and follow the
/// previous LSN by one (the first failure is reported). Each commit
/// marker, in order, then claims the frames of its transaction within its LSN
/// range; those must be exactly the frames it describes. Frames past the last
/// commit form the tail, reported as truncated (writable) or truncatable.
pub fn recover_from_frames_and_commits(
    frames: &[WalFrame],
    commits: &[WalTransactionCommit],
    mode: RecoveryAccessMode,
) -> (r: Result<RecoveryScanReport, WalRecoveryError>)
    ensures
        recovery_outcome(frames@, commits@, mode, r),
{
    match validate_recovery_frame_order(frames) {
        Err(e) => return Err(WalRecoveryError::Validation(e)),
        Ok(()) => {},
    }
    let mut recovered: Vec<WalRecoveredTransaction> = Vec::new();
    let mut k: usize = 0;
    while k < commits.len()
        invariant
            k <= commits@.len(),
            frame_order_spec(frames@) is Ok,
            first_commit_error_from(frames@, commits@, 0) == first_commit_error_from(frames@, commits@, k as int),
            recovered@.len() == k,
            forall|j: int| 0 <= j < k ==> {
                &&& (#[trigger] recovered@[j]).commit == commits@[j]
                &&& frames_view(recovered@[j].frames@) == frames_view(commit_frames(frames@, commits@[j]))
                &&& transaction_frames_spec(recovered@[j].frames@, commits@[j]) == Ok::<(), WalValidationError>(())
            },
        decreases commits.len() - k,
    {
        let commit = commits[k];
        let mut tx_frames: Vec<WalFrame> = Vec::new();
        let mut i: usize = 0;
        while i < frames.len()
            invariant
                i <= frames@.len(),
                k < commits@.len(),
                commit == commits@[k as int],
                frames_view(tx_frames@) == frames_view(commit_frames(frames@.subrange(0, i as int), commit)),
            decreases frames.len() - i,
        {
            let f = &frames[i];
            proof {
                assert(frames@.subrange(0, i + 1) =~= frames@.subrange(0, i as int).push(frames@[i as int]));
                frames@.subrange(0, i as int).lemma_filter_push(frames@[i as int], covered_by(commit));
            }
            if transaction_id_eq(&f.header.transaction_id, &commit.transaction_id)
                && commit.first_lsn.0 <= f.header.lsn.0 && f.header.lsn.0 <= commit.last_lsn.0 {
                let g = clone_frame(f);
                let ghost before = tx_frames@;
                tx_frames.push(g);
                proof {
                    assert(frames_view(tx_frames@) =~= frames_view(before).push(g@));
                    let s = commit_frames(frames@.subrange(0, i + 1), commit);
                    assert(frames_view(s) =~= frames_view(commit_frames(frames@.subrange(0, i as int), commit)).push(frames@[i as int]@));
                }
            }
            i += 1;
        }
        assert(frames@.subrange(0, frames@.len() as int) =~= frames@);
        proof {
            lemma_frames_view_congruence(tx_frames@, commit_frames(frames@, commit), commit);
        }
        match validate_transaction_frames(tx_frames.as_slice(), &commit) {
            Err(e) => return Err(WalRecoveryError::Validation(e)),
            Ok(()) => {},
        }
        recovered.push(WalRecoveredTransaction { commit, frames: tx_frames });
        k += 1;
    }
    let tail_posture = if commits.len() == 0 {
        if frames.len() == 0 {
            RecoveryTailPosture::Clean
        } else {
            match mode {
                RecoveryAccessMode::Writable => RecoveryTailPosture::TruncatedAll,
                RecoveryAccessMode::ReadOnly => RecoveryTailPosture::WouldTruncateAll,
            }
        }
    } else {
        let last = commits[commits.len() - 1].last_lsn;
        let mut tail_exists = false;
        let mut i: usize = 0;
        while i < frames.len()
            invariant
                i <= frames@.len(),
                tail_exists == exists|j: int| 0 <= j < i && #[trigger] frames@[j].header.lsn.0 > last.0,
            decreases frames.len() - i,
        {
            if frames[i].header.lsn.0 > last.0 {
                tail_exists = true;
            }
            i += 1;
        }
        if !tail_exists {
            RecoveryTailPosture::Clean
        } else {
            match mode {
                RecoveryAccessMode::Writable => RecoveryTailPosture::TruncatedAfter(last),
                RecoveryAccessMode::ReadOnly => RecoveryTailPosture::WouldTruncateAfter(last),
            }
        }
    };
    Ok(RecoveryScanReport { transactions: recovered, tail_posture })
}

} // verus!
