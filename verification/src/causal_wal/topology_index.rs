//! Topology indexes rebuilt from committed topology evidence. Duplicate
//! identical evidence is idempotent; duplicate identities with divergent
//! material are recovery obstructions.
use vstd::prelude::*;
use crate::braid::{BraidEvent, BraidStatus};
use crate::braid_shell::member_ref_eq;
use crate::causal_wal::digest_map::DigestMap;
use crate::causal_wal::kinds::WalRecordKind;
use crate::causal_wal::topology::{
    BraidShellRetentionRecord, StrandDropRecord, SuffixImportRecord, TopologyBraidEventRecord,
};
use crate::causal_wal::topology_fork::{canonical_fork, StrandForkRecord, StrandForkView};
use crate::causal_wal::WalRecoveryIndexError;
use crate::ident::{authority_eq, hash_eq, StrandId};

verus! {

/// One topology evidence record carried by a topology-intent transaction.
#[derive(Clone, Debug, PartialEq, Eq)]
pub enum TopologyIntentRecord {
    /// Strand fork evidence.
    StrandFork(StrandForkRecord),
    /// Strand drop evidence.
    StrandDrop(StrandDropRecord),
    /// Braid event evidence.
    BraidEvent(TopologyBraidEventRecord),
    /// Braid shell retention evidence.
    BraidShell(BraidShellRetentionRecord),
    /// Replica suffix import evidence.
    SuffixImport(SuffixImportRecord),
}

/// A topology record, the fork's writer heads as a sequence.
pub enum TopologyRecordView {
    Fork(StrandForkView),
    Drop(StrandDropRecord),
    Event(TopologyBraidEventRecord),
    Shell(BraidShellRetentionRecord),
    Import(SuffixImportRecord),
}

impl View for TopologyIntentRecord {
    type V = TopologyRecordView;

    open spec fn view(&self) -> TopologyRecordView {
        match self {
            TopologyIntentRecord::StrandFork(r) => TopologyRecordView::Fork(r@),
            TopologyIntentRecord::StrandDrop(r) => TopologyRecordView::Drop(*r),
            TopologyIntentRecord::BraidEvent(r) => TopologyRecordView::Event(*r),
            TopologyIntentRecord::BraidShell(r) => TopologyRecordView::Shell(*r),
            TopologyIntentRecord::SuffixImport(r) => TopologyRecordView::Import(*r),
        }
    }
}

/// The WAL record kind carrying a topology record.
pub open spec fn topology_kind_spec(r: TopologyRecordView) -> WalRecordKind {
    match r {
        TopologyRecordView::Fork(_) => WalRecordKind::TopologyStrandForkRecorded,
        TopologyRecordView::Drop(_) => WalRecordKind::TopologyStrandDropRecorded,
        TopologyRecordView::Event(_) => WalRecordKind::TopologyBraidEventRecorded,
        TopologyRecordView::Shell(_) => WalRecordKind::TopologyBraidShellRetained,
        TopologyRecordView::Import(_) => WalRecordKind::TopologySuffixImportRecorded,
    }
}

/// Payload bytes of a topology record.
pub open spec fn topology_bytes_spec(r: TopologyRecordView) -> Seq<u8> {
    match r {
        TopologyRecordView::Fork(v) => crate::causal_wal::topology_fork::fork_bytes(v),
        TopologyRecordView::Drop(x) => crate::causal_wal::topology::drop_bytes(x),
        TopologyRecordView::Event(x) => crate::causal_wal::topology::braid_event_bytes(x),
        TopologyRecordView::Shell(x) => crate::causal_wal::topology::shell_bytes(x),
        TopologyRecordView::Import(x) => crate::causal_wal::topology::suffix_import_bytes(x),
    }
}

impl TopologyIntentRecord {
    /// The WAL record kind used by this topology evidence.
    pub fn record_kind(&self) -> (r: WalRecordKind)
        ensures
            r == topology_kind_spec(self@),
    {
        match self {
            TopologyIntentRecord::StrandFork(_) => WalRecordKind::TopologyStrandForkRecorded,
            TopologyIntentRecord::StrandDrop(_) => WalRecordKind::TopologyStrandDropRecorded,
            TopologyIntentRecord::BraidEvent(_) => WalRecordKind::TopologyBraidEventRecorded,
            TopologyIntentRecord::BraidShell(_) => WalRecordKind::TopologyBraidShellRetained,
            TopologyIntentRecord::SuffixImport(_) => WalRecordKind::TopologySuffixImportRecorded,
        }
    }

    /// Encodes this topology record to deterministic payload bytes.
    pub fn to_payload_bytes(&self) -> (r: Vec<u8>)
        ensures
            r@ == topology_bytes_spec(self@),
    {
        match self {
            TopologyIntentRecord::StrandFork(x) => x.to_payload_bytes(),
            TopologyIntentRecord::StrandDrop(x) => x.to_payload_bytes(),
            TopologyIntentRecord::BraidEvent(x) => x.to_payload_bytes(),
            TopologyIntentRecord::BraidShell(x) => x.to_payload_bytes(),
            TopologyIntentRecord::SuffixImport(x) => x.to_payload_bytes(),
        }
    }
}

// ---- equality of records ----

fn opt_hash_eq(a: &Option<crate::ident::Hash>, b: &Option<crate::ident::Hash>) -> (r: bool)
    ensures
        r == (*a == *b),
{
    match (a, b) {
        (Some(x), Some(y)) => hash_eq(x, y),
        (None, None) => true,
        _ => false,
    }
}

fn fork_eq(a: &StrandForkRecord, b: &StrandForkRecord) -> (r: bool)
    ensures
        r == (a@ == b@),
{
    if a.writer_heads.len() != b.writer_heads.len() {
        return false;
    }
    let mut i: usize = 0;
    while i < a.writer_heads.len()
        invariant
            i <= a.writer_heads@.len(),
            a.writer_heads@.len() == b.writer_heads@.len(),
            forall|k: int| 0 <= k < i ==> a.writer_heads@[k] == b.writer_heads@[k],
        decreases a.writer_heads.len() - i,
    {
        let x = a.writer_heads[i];
        let y = b.writer_heads[i];
        if !hash_eq(&x.worldline_id.0, &y.worldline_id.0) || !hash_eq(&x.head_id.0, &y.head_id.0) {
            return false;
        }
        i += 1;
    }
    assert(a.writer_heads@ =~= b.writer_heads@);
    hash_eq(&a.topology_intent_id, &b.topology_intent_id) && hash_eq(&a.strand_id.0, &b.strand_id.0) && hash_eq(
        &a.source_worldline_id.0,
        &b.source_worldline_id.0,
    ) && a.fork_tick.0 == b.fork_tick.0 && hash_eq(&a.source_commit_hash, &b.source_commit_hash) && hash_eq(
        &a.source_boundary_hash,
        &b.source_boundary_hash,
    ) && hash_eq(&a.child_worldline_id.0, &b.child_worldline_id.0) && hash_eq(
        &a.retention_posture_digest,
        &b.retention_posture_digest,
    ) && hash_eq(&a.issuer_evidence_digest, &b.issuer_evidence_digest) && opt_hash_eq(
        &a.idempotency_key_digest,
        &b.idempotency_key_digest,
    )
}

fn drop_eq(a: &StrandDropRecord, b: &StrandDropRecord) -> (r: bool)
    ensures
        r == (*a == *b),
{
    hash_eq(&a.topology_intent_id, &b.topology_intent_id) && hash_eq(&a.strand_id.0, &b.strand_id.0) && hash_eq(
        &a.child_worldline_id.0,
        &b.child_worldline_id.0,
    ) && a.final_tick.0 == b.final_tick.0 && hash_eq(&a.drop_receipt_digest, &b.drop_receipt_digest) && hash_eq(
        &a.issuer_evidence_digest,
        &b.issuer_evidence_digest,
    ) && opt_hash_eq(&a.idempotency_key_digest, &b.idempotency_key_digest)
}

fn braid_event_eq(a: &BraidEvent, b: &BraidEvent) -> (r: bool)
    ensures
        r == (*a == *b),
{
    match (a, b) {
        (
            BraidEvent::BraidCreated { braid_id: i1, creator_domain: d1 },
            BraidEvent::BraidCreated { braid_id: i2, creator_domain: d2 },
        ) => hash_eq(i1, i2) && authority_eq(d1, d2),
        (
            BraidEvent::MemberWoven { member_ref: m1, sequence_num: n1 },
            BraidEvent::MemberWoven { member_ref: m2, sequence_num: n2 },
        ) => member_ref_eq(m1, m2) && *n1 == *n2,
        (
            BraidEvent::SettlementFinalized { settlement_digest: d1 },
            BraidEvent::SettlementFinalized { settlement_digest: d2 },
        ) => hash_eq(d1, d2),
        (
            BraidEvent::BraidCollapsed { collapse_witness: w1, outcome_digest: o1 },
            BraidEvent::BraidCollapsed { collapse_witness: w2, outcome_digest: o2 },
        ) => hash_eq(w1, w2) && hash_eq(o1, o2),
        _ => false,
    }
}

fn status_eq(a: BraidStatus, b: BraidStatus) -> (r: bool)
    ensures
        r == (a == b),
{
    a == b
}

fn event_record_eq(a: &TopologyBraidEventRecord, b: &TopologyBraidEventRecord) -> (r: bool)
    ensures
        r == (*a == *b),
{
    hash_eq(&a.topology_intent_id, &b.topology_intent_id) && hash_eq(&a.braid_id, &b.braid_id) && a.event_index
        == b.event_index && braid_event_eq(&a.event, &b.event) && status_eq(a.status_after, b.status_after) && hash_eq(
        &a.event_digest,
        &b.event_digest,
    ) && hash_eq(&a.issuer_evidence_digest, &b.issuer_evidence_digest) && opt_hash_eq(
        &a.idempotency_key_digest,
        &b.idempotency_key_digest,
    )
}

fn shell_eq(a: &BraidShellRetentionRecord, b: &BraidShellRetentionRecord) -> (r: bool)
    ensures
        r == (*a == *b),
{
    hash_eq(&a.topology_intent_id, &b.topology_intent_id) && hash_eq(&a.braid_id, &b.braid_id) && hash_eq(
        &a.shell_digest,
        &b.shell_digest,
    ) && hash_eq(&a.material_digest, &b.material_digest) && hash_eq(&a.basis_digest, &b.basis_digest)
        && a.outcome_kind == b.outcome_kind && hash_eq(&a.retention_posture_digest, &b.retention_posture_digest)
        && hash_eq(&a.witness_digest, &b.witness_digest) && opt_hash_eq(
        &a.idempotency_key_digest,
        &b.idempotency_key_digest,
    )
}

fn import_eq(a: &SuffixImportRecord, b: &SuffixImportRecord) -> (r: bool)
    ensures
        r == (*a == *b),
{
    hash_eq(&a.import_id, &b.import_id) && hash_eq(&a.remote_suffix_family_digest, &b.remote_suffix_family_digest)
        && hash_eq(&a.authorship_evidence_digest, &b.authorship_evidence_digest) && hash_eq(
        &a.basis_anchor_digest,
        &b.basis_anchor_digest,
    ) && hash_eq(&a.bundle_digest, &b.bundle_digest) && hash_eq(&a.source_shell_digest, &b.source_shell_digest)
        && hash_eq(&a.target_basis_digest, &b.target_basis_digest) && a.outcome_kind == b.outcome_kind && hash_eq(
        &a.import_shell_digest,
        &b.import_shell_digest,
    ) && hash_eq(&a.retention_posture_digest, &b.retention_posture_digest) && hash_eq(
        &a.idempotency_key_digest,
        &b.idempotency_key_digest,
    )
}

// ---- the index ----

/// Recovered topology indexes, each keyed in ascending digest order.
pub struct TopologyIndexView {
    pub forks: Map<crate::ident::Hash, StrandForkView>,
    pub drops: Map<crate::ident::Hash, StrandDropRecord>,
    pub children: Map<crate::ident::Hash, StrandId>,
    pub events: Map<crate::ident::Hash, Seq<TopologyBraidEventRecord>>,
    pub shells: Map<crate::ident::Hash, BraidShellRetentionRecord>,
    pub imports: Map<crate::ident::Hash, SuffixImportRecord>,
    pub by_key: Map<crate::ident::Hash, crate::ident::Hash>,
    pub by_bundle: Map<crate::ident::Hash, crate::ident::Hash>,
}

/// The empty index.
pub open spec fn empty_topology_view() -> TopologyIndexView {
    TopologyIndexView {
        forks: Map::empty(),
        drops: Map::empty(),
        children: Map::empty(),
        events: Map::empty(),
        shells: Map::empty(),
        imports: Map::empty(),
        by_key: Map::empty(),
        by_bundle: Map::empty(),
    }
}

/// Recovered topology indexes rebuilt from committed WAL evidence.
#[derive(Debug)]
pub struct RecoveredTopologyIndex {
    /// Accepted strand forks by strand id.
    pub strand_forks: DigestMap<StrandForkRecord>,
    /// Accepted strand drops by strand id.
    pub strand_drops: DigestMap<StrandDropRecord>,
    /// Child-worldline ancestry index.
    pub child_worldlines: DigestMap<StrandId>,
    /// Accepted braid event logs by braid id, each in event-index order.
    pub braid_events: DigestMap<Vec<TopologyBraidEventRecord>>,
    /// Retained braid-shell records by shell digest.
    pub braid_shells: DigestMap<BraidShellRetentionRecord>,
    /// Suffix imports by explicit import id.
    pub suffix_imports: DigestMap<SuffixImportRecord>,
    /// Suffix imports by transport idempotency key.
    pub suffix_imports_by_idempotency_key: DigestMap<crate::ident::Hash>,
    /// Suffix imports by bundle digest.
    pub suffix_imports_by_bundle_digest: DigestMap<crate::ident::Hash>,
}

/// Event indexes strictly increase along the log.
pub open spec fn log_ascending(log: Seq<TopologyBraidEventRecord>) -> bool {
    forall|i: int, j: int| 0 <= i < j < log.len() ==> (#[trigger] log[i]).event_index < (#[trigger] log[j]).event_index
}

impl RecoveredTopologyIndex {
    /// Well-formed maps, every event log in event-index order.
    pub open spec fn wf(&self) -> bool {
        &&& self.strand_forks.wf()
        &&& self.strand_drops.wf()
        &&& self.child_worldlines.wf()
        &&& self.braid_events.wf()
        &&& self.braid_shells.wf()
        &&& self.suffix_imports.wf()
        &&& self.suffix_imports_by_idempotency_key.wf()
        &&& self.suffix_imports_by_bundle_digest.wf()
    }

    /// The index's contents.
    pub open spec fn view_spec(&self) -> TopologyIndexView {
        TopologyIndexView {
            forks: self.strand_forks@.map_values(|r: StrandForkRecord| r@),
            drops: self.strand_drops@,
            children: self.child_worldlines@,
            events: self.braid_events@.map_values(|v: Vec<TopologyBraidEventRecord>| v@),
            shells: self.braid_shells@,
            imports: self.suffix_imports@,
            by_key: self.suffix_imports_by_idempotency_key@,
            by_bundle: self.suffix_imports_by_bundle_digest@,
        }
    }

    /// An empty index.
    pub fn new() -> (r: Self)
        ensures
            r.wf(),
            r.view_spec() == empty_topology_view(),
    {
        let r = RecoveredTopologyIndex {
            strand_forks: DigestMap::new(),
            strand_drops: DigestMap::new(),
            child_worldlines: DigestMap::new(),
            braid_events: DigestMap::new(),
            braid_shells: DigestMap::new(),
            suffix_imports: DigestMap::new(),
            suffix_imports_by_idempotency_key: DigestMap::new(),
            suffix_imports_by_bundle_digest: DigestMap::new(),
        };
        assert(r.view_spec().forks =~= Map::empty());
        assert(r.view_spec().events =~= Map::empty());
        r
    }

    /// Number of accepted topology evidence records: forks, drops, every
    /// braid event, shells and suffix imports.
    pub open spec fn len_spec(&self) -> nat {
        self.strand_forks@.dom().len() + self.strand_drops@.dom().len() + event_total(
            self.braid_events.entries_spec(),
        ) + self.braid_shells@.dom().len() + self.suffix_imports@.dom().len()
    }

    /// Number of accepted topology evidence records in the index.
    pub fn len(&self) -> (n: usize)
        requires
            self.wf(),
            self.len_spec() <= usize::MAX,
        ensures
            n == self.len_spec(),
    {
        proof {
            self.strand_forks.lemma_view();
            self.strand_drops.lemma_view();
            self.braid_shells.lemma_view();
            self.suffix_imports.lemma_view();
        }
        let events = self.braid_events.entries();
        let mut total: usize = self.strand_forks.len() + self.strand_drops.len();
        let mut i: usize = 0;
        while i < events.len()
            invariant
                i <= events@.len(),
                events@ == self.braid_events.entries_spec(),
                total == self.strand_forks@.dom().len() + self.strand_drops@.dom().len() + event_total(events@.take(i as int)),
                self.len_spec() <= usize::MAX,
                self.len_spec() == self.strand_forks@.dom().len() + self.strand_drops@.dom().len() + event_total(events@)
                    + self.braid_shells@.dom().len() + self.suffix_imports@.dom().len(),
            decreases events@.len() - i,
        {
            proof {
                assert(events@.take(i + 1).drop_last() =~= events@.take(i as int));
                lemma_event_total_prefix(events@, i + 1);
                lemma_event_total_mono(events@, i + 1);
            }
            total = total + events[i].1.len();
            i += 1;
        }
        assert(events@.take(events@.len() as int) =~= events@);
        total + self.braid_shells.len() + self.suffix_imports.len()
    }

    /// True when the index holds no recovered evidence.
    pub fn is_empty(&self) -> (b: bool)
        requires
            self.wf(),
        ensures
            b == (self.len_spec() == 0),
    {
        proof {
            self.strand_forks.lemma_view();
            self.strand_drops.lemma_view();
            self.braid_shells.lemma_view();
            self.suffix_imports.lemma_view();
        }
        let events = self.braid_events.entries();
        let mut none: bool = true;
        let mut i: usize = 0;
        while i < events.len()
            invariant
                i <= events@.len(),
                events@ == self.braid_events.entries_spec(),
                none == (event_total(events@.take(i as int)) == 0),
            decreases events@.len() - i,
        {
            proof {
                assert(events@.take(i + 1).drop_last() =~= events@.take(i as int));
                lemma_event_total_prefix(events@, i + 1);
            }
            if events[i].1.len() > 0 {
                none = false;
            }
            i += 1;
        }
        assert(events@.take(events@.len() as int) =~= events@);
        self.strand_forks.len() == 0 && self.strand_drops.len() == 0 && none && self.braid_shells.len() == 0
            && self.suffix_imports.len() == 0
    }
}

/// Total number of events over a sequence of braid event logs.
pub open spec fn event_total(es: Seq<(crate::ident::Hash, Vec<TopologyBraidEventRecord>)>) -> nat
    decreases es.len(),
{
    if es.len() == 0 {
        0
    } else {
        event_total(es.drop_last()) + es.last().1@.len()
    }
}

/// A prefix's total is the shorter prefix's plus its last log.
proof fn lemma_event_total_prefix(es: Seq<(crate::ident::Hash, Vec<TopologyBraidEventRecord>)>, n: int)
    requires
        0 < n <= es.len(),
    ensures
        event_total(es.take(n)) == event_total(es.take(n - 1)) + es[n - 1].1@.len(),
        event_total(es.take(n - 1)) <= event_total(es.take(n)),
{
    assert(es.take(n).drop_last() =~= es.take(n - 1));
}

/// A prefix's total is at most the whole total.
proof fn lemma_event_total_mono(es: Seq<(crate::ident::Hash, Vec<TopologyBraidEventRecord>)>, n: int)
    requires
        0 <= n <= es.len(),
    ensures
        event_total(es.take(n)) <= event_total(es),
    decreases es.len() - n,
{
    if n < es.len() {
        lemma_event_total_prefix(es, n + 1);
        lemma_event_total_mono(es, n + 1);
    } else {
        assert(es.take(n) =~= es);
    }
}

/// `v` under `k`, unless another value is already there (`None`).
pub open spec fn unique_insert<V>(m: Map<crate::ident::Hash, V>, k: crate::ident::Hash, v: V) -> Option<
    Map<crate::ident::Hash, V>,
> {
    if m.dom().contains(k) {
        if m[k] == v {
            Some(m)
        } else {
            None
        }
    } else {
        Some(m.insert(k, v))
    }
}

/// Position of the entry with the given event index, scanning from `i`.
pub open spec fn event_at(log: Seq<TopologyBraidEventRecord>, idx: u64, i: int) -> Option<int>
    decreases log.len() - i,
{
    if i < 0 || i >= log.len() {
        None
    } else if log[i].event_index == idx {
        Some(i)
    } else {
        event_at(log, idx, i + 1)
    }
}

/// Number of entries before the first with a larger event index, from `i`.
pub open spec fn insert_position(log: Seq<TopologyBraidEventRecord>, idx: u64, i: int) -> int
    decreases log.len() - i,
{
    if i < 0 || i >= log.len() {
        log.len() as int
    } else if log[i].event_index > idx {
        i
    } else {
        insert_position(log, idx, i + 1)
    }
}

/// The log with the record added in event-index order, unless another record
/// holds its index (`None`).
pub open spec fn log_insert(log: Seq<TopologyBraidEventRecord>, rec: TopologyBraidEventRecord) -> Option<
    Seq<TopologyBraidEventRecord>,
> {
    match event_at(log, rec.event_index, 0) {
        Some(k) => if log[k] == rec {
            Some(log)
        } else {
            None
        },
        None => {
            let p = insert_position(log, rec.event_index, 0);
            Some(log.take(p).push(rec) + log.skip(p))
        },
    }
}

/// The status a braid event leaves the braid in.
pub open spec fn status_after_spec(e: BraidEvent) -> BraidStatus {
    match e {
        BraidEvent::BraidCreated { .. } => BraidStatus::Active,
        BraidEvent::MemberWoven { .. } => BraidStatus::Active,
        BraidEvent::SettlementFinalized { .. } => BraidStatus::Finalized,
        BraidEvent::BraidCollapsed { .. } => BraidStatus::Collapsed,
    }
}

/// A braid event record is consistent: a creation names its own braid, and
/// the recorded status is the one the event leads to.
pub open spec fn braid_event_consistent(r: TopologyBraidEventRecord) -> bool {
    &&& (r.event matches BraidEvent::BraidCreated { braid_id, .. } ==> braid_id == r.braid_id)
    &&& r.status_after == status_after_spec(r.event)
}

/// Adding one record to the index.
pub open spec fn topology_step(v: TopologyIndexView, r: TopologyRecordView) -> Result<TopologyIndexView, WalRecoveryIndexError> {
    match r {
        TopologyRecordView::Fork(f0) => {
            let f = canonical_fork(f0);
            let s = f.strand_id.0;
            if v.drops.dom().contains(s) && v.drops[s].child_worldline_id != f.child_worldline_id {
                Err(WalRecoveryIndexError::ConflictingStrandFork { strand_id: f.strand_id })
            } else {
                match unique_insert(v.forks, s, f) {
                    None => Err(WalRecoveryIndexError::ConflictingStrandFork { strand_id: f.strand_id }),
                    Some(forks) => match unique_insert(v.children, f.child_worldline_id.0, f.strand_id) {
                        None => Err(
                            WalRecoveryIndexError::ConflictingChildWorldline { child_worldline_id: f.child_worldline_id },
                        ),
                        Some(children) => Ok(TopologyIndexView { forks, children, ..v }),
                    },
                }
            }
        },
        TopologyRecordView::Drop(d) => {
            let s = d.strand_id.0;
            if v.forks.dom().contains(s) && v.forks[s].child_worldline_id != d.child_worldline_id {
                Err(WalRecoveryIndexError::ConflictingStrandDrop { strand_id: d.strand_id })
            } else {
                match unique_insert(v.drops, s, d) {
                    None => Err(WalRecoveryIndexError::ConflictingStrandDrop { strand_id: d.strand_id }),
                    Some(drops) => Ok(TopologyIndexView { drops, ..v }),
                }
            }
        },
        TopologyRecordView::Event(e) => {
            let err = WalRecoveryIndexError::ConflictingBraidEvent { braid_id: e.braid_id, event_index: e.event_index };
            if !braid_event_consistent(e) {
                Err(err)
            } else {
                let log = if v.events.dom().contains(e.braid_id) {
                    v.events[e.braid_id]
                } else {
                    Seq::empty()
                };
                match log_insert(log, e) {
                    None => Err(err),
                    Some(l2) => Ok(TopologyIndexView { events: v.events.insert(e.braid_id, l2), ..v }),
                }
            }
        },
        TopologyRecordView::Shell(s) => match unique_insert(v.shells, s.shell_digest, s) {
            None => Err(WalRecoveryIndexError::ConflictingBraidShell { shell_digest: s.shell_digest }),
            Some(shells) => Ok(TopologyIndexView { shells, ..v }),
        },
        TopologyRecordView::Import(i) => match unique_insert(v.imports, i.import_id, i) {
            None => Err(WalRecoveryIndexError::ConflictingSuffixImport { import_id: i.import_id }),
            Some(imports) => match unique_insert(v.by_key, i.idempotency_key_digest, i.import_id) {
                None => Err(
                    WalRecoveryIndexError::ConflictingSuffixImportIdempotency {
                        idempotency_key_digest: i.idempotency_key_digest,
                    },
                ),
                Some(by_key) => match unique_insert(v.by_bundle, i.bundle_digest, i.import_id) {
                    None => Err(WalRecoveryIndexError::ConflictingSuffixImportBundle { bundle_digest: i.bundle_digest }),
                    Some(by_bundle) => Ok(TopologyIndexView { imports, by_key, by_bundle, ..v }),
                },
            },
        },
    }
}

/// Adding the records in order, stopping at the first conflict.
pub open spec fn topology_fold(rs: Seq<TopologyRecordView>) -> Result<TopologyIndexView, WalRecoveryIndexError>
    decreases rs.len(),
{
    if rs.len() == 0 {
        Ok(empty_topology_view())
    } else {
        match topology_fold(rs.drop_last()) {
            Err(e) => Err(e),
            Ok(v) => topology_step(v, rs.last()),
        }
    }
}

/// The record is already held by `v`: adding it again changes nothing.
pub open spec fn record_indexed(v: TopologyIndexView, r: TopologyRecordView) -> bool {
    topology_step(v, r) == Ok::<TopologyIndexView, WalRecoveryIndexError>(v)
}

proof fn lemma_event_at_spec(log: Seq<TopologyBraidEventRecord>, idx: u64, i: int, k: int)
    requires
        0 <= i,
    ensures
        event_at(log, idx, i) == Some(k) <==> (i <= k < log.len() && log[k].event_index == idx && forall|j: int|
            i <= j < k ==> (#[trigger] log[j]).event_index != idx),
        event_at(log, idx, i) is None <==> forall|j: int| i <= j < log.len() ==> (#[trigger] log[j]).event_index != idx,
    decreases log.len() - i,
{
    if i < log.len() {
        lemma_event_at_spec(log, idx, i + 1, k);
        if log[i].event_index == idx {
            assert(log[i].event_index == idx);
        } else {
            if forall|j: int| i + 1 <= j < log.len() ==> (#[trigger] log[j]).event_index != idx {
                assert forall|j: int| i <= j < log.len() implies (#[trigger] log[j]).event_index != idx by {
                    if j > i {
                        assert(log[j].event_index != idx);
                    }
                }
            }
            if i + 1 <= k < log.len() && log[k].event_index == idx && forall|j: int| i + 1 <= j < k ==> (
            #[trigger] log[j]).event_index != idx {
                assert forall|j: int| i <= j < k implies (#[trigger] log[j]).event_index != idx by {
                    if j > i {
                        assert(log[j].event_index != idx);
                    }
                }
            }
        }
    }
}

/// A log holding `r` under its index still holds it after another record is
/// inserted.
proof fn lemma_log_insert_keeps(log: Seq<TopologyBraidEventRecord>, q: TopologyBraidEventRecord, l2: Seq<TopologyBraidEventRecord>, r: TopologyBraidEventRecord)
    requires
        log_insert(log, q) == Some(l2),
        log_insert(log, r) == Some(log),
    ensures
        log_insert(l2, r) == Some(l2),
{
    let k = event_at(log, r.event_index, 0);
    if k is None {
        let p = insert_position(log, r.event_index, 0);
        lemma_insert_position_bounds(log, r.event_index, 0);
        assert((log.take(p).push(r) + log.skip(p)).len() == log.len() + 1);
    }
    let k = k->Some_0;
    lemma_event_at_spec(log, r.event_index, 0, k);
    if l2 != log {
        let p = insert_position(log, q.event_index, 0);
        lemma_insert_position_bounds(log, q.event_index, 0);
        lemma_event_at_spec(log, q.event_index, 0, 0);
        assert(q.event_index != r.event_index);
        let k2 = if k < p { k } else { k + 1 };
        assert(l2 == log.take(p).push(q) + log.skip(p));
        assert(l2[k2] == log[k]);
        assert forall|j: int| 0 <= j < k2 implies (#[trigger] l2[j]).event_index != r.event_index by {
            if j < p {
                assert(l2[j] == log[j]);
            } else if j > p {
                assert(l2[j] == log[j - 1]);
            }
        }
        lemma_event_at_spec(l2, r.event_index, 0, k2);
    }
}

proof fn lemma_insert_position_bounds(log: Seq<TopologyBraidEventRecord>, idx: u64, i: int)
    requires
        0 <= i,
    ensures
        i <= insert_position(log, idx, i) <= log.len() || (i > log.len() && insert_position(log, idx, i) == log.len()),
    decreases log.len() - i,
{
    if i < log.len() {
        lemma_insert_position_bounds(log, idx, i + 1);
    }
}

/// A log into which a record was inserted holds it.
proof fn lemma_log_insert_holds(log: Seq<TopologyBraidEventRecord>, q: TopologyBraidEventRecord, l2: Seq<TopologyBraidEventRecord>)
    requires
        log_insert(log, q) == Some(l2),
    ensures
        log_insert(l2, q) == Some(l2),
{
    if l2 != log {
        let p = insert_position(log, q.event_index, 0);
        lemma_insert_position_bounds(log, q.event_index, 0);
        lemma_event_at_spec(log, q.event_index, 0, 0);
        assert(l2 == log.take(p).push(q) + log.skip(p));
        assert(l2[p] == q);
        assert forall|j: int| 0 <= j < p implies (#[trigger] l2[j]).event_index != q.event_index by {
            assert(l2[j] == log[j]);
        }
        lemma_event_at_spec(l2, q.event_index, 0, p);
    } else {
        let k = event_at(log, q.event_index, 0);
        if k is None {
            let p = insert_position(log, q.event_index, 0);
            lemma_insert_position_bounds(log, q.event_index, 0);
            assert((log.take(p).push(q) + log.skip(p)).len() == log.len() + 1);
        }
    }
}

/// A record just added is held.
proof fn lemma_step_holds(w: TopologyIndexView, r: TopologyRecordView)
    requires
        topology_step(w, r) is Ok,
    ensures
        record_indexed(topology_step(w, r)->Ok_0, r),
{
    let w2 = topology_step(w, r)->Ok_0;
    match r {
        TopologyRecordView::Event(e) => {
            let log = if w.events.dom().contains(e.braid_id) { w.events[e.braid_id] } else { Seq::empty() };
            let l2 = log_insert(log, e)->Some_0;
            lemma_log_insert_holds(log, e, l2);
            assert(w2.events.insert(e.braid_id, l2) =~= w2.events);
        },
        TopologyRecordView::Fork(f0) => {
            let f = canonical_fork(f0);
            assert(w2.forks.insert(f.strand_id.0, f) =~= w2.forks);
            assert(w2.children.insert(f.child_worldline_id.0, f.strand_id) =~= w2.children);
        },
        TopologyRecordView::Drop(d) => {
            assert(w2.drops.insert(d.strand_id.0, d) =~= w2.drops);
        },
        TopologyRecordView::Shell(x) => {
            assert(w2.shells.insert(x.shell_digest, x) =~= w2.shells);
        },
        TopologyRecordView::Import(i) => {
            assert(w2.imports.insert(i.import_id, i) =~= w2.imports);
            assert(w2.by_key.insert(i.idempotency_key_digest, i.import_id) =~= w2.by_key);
            assert(w2.by_bundle.insert(i.bundle_digest, i.import_id) =~= w2.by_bundle);
        },
    }
}

/// A held record stays held after another record is added.
#[verifier::spinoff_prover]
#[verifier::rlimit(60)]
proof fn lemma_step_keeps(w: TopologyIndexView, q: TopologyRecordView, r: TopologyRecordView)
    requires
        record_indexed(w, r),
        topology_step(w, q) is Ok,
    ensures
        record_indexed(topology_step(w, q)->Ok_0, r),
{
    let w2 = topology_step(w, q)->Ok_0;
    match r {
        TopologyRecordView::Event(e) => {
            let log = if w.events.dom().contains(e.braid_id) { w.events[e.braid_id] } else { Seq::empty() };
            assert(w.events.insert(e.braid_id, log) == w.events);
            assert(w.events.dom().contains(e.braid_id)) by {
                if !w.events.dom().contains(e.braid_id) {
                    let l = log_insert(log, e)->Some_0;
                    assert(w.events.insert(e.braid_id, l).dom().contains(e.braid_id));
                }
            }
            assert(log_insert(log, e) == Some(log)) by {
                assert(w.events.insert(e.braid_id, log_insert(log, e)->Some_0)[e.braid_id] == w.events[e.braid_id]);
            }
            let log2 = if w2.events.dom().contains(e.braid_id) { w2.events[e.braid_id] } else { Seq::empty() };
            match q {
                TopologyRecordView::Event(e2) => {
                    if e2.braid_id == e.braid_id {
                        let l2 = log_insert(log, e2)->Some_0;
                        lemma_log_insert_keeps(log, e2, l2, e);
                        assert(log2 == l2);
                    } else {
                        assert(log2 == log);
                    }
                },
                _ => {
                    assert(log2 == log);
                },
            }
            assert(w2.events.insert(e.braid_id, log2) =~= w2.events);
        },
        TopologyRecordView::Fork(f0) => {
            let f = canonical_fork(f0);
            assert(w2.forks.insert(f.strand_id.0, f) =~= w2.forks);
            assert(w2.children.insert(f.child_worldline_id.0, f.strand_id) =~= w2.children);
        },
        TopologyRecordView::Drop(d) => {
            assert(w2.drops.insert(d.strand_id.0, d) =~= w2.drops);
        },
        TopologyRecordView::Shell(x) => {
            assert(w2.shells.insert(x.shell_digest, x) =~= w2.shells);
        },
        TopologyRecordView::Import(i) => {
            assert(w2.imports.insert(i.import_id, i) =~= w2.imports);
            assert(w2.by_key.insert(i.idempotency_key_digest, i.import_id) =~= w2.by_key);
            assert(w2.by_bundle.insert(i.bundle_digest, i.import_id) =~= w2.by_bundle);
        },
    }
}

proof fn lemma_topology_fold_holds_all(rs: Seq<TopologyRecordView>)
    requires
        topology_fold(rs) is Ok,
    ensures
        forall|i: int| 0 <= i < rs.len() ==> record_indexed(topology_fold(rs)->Ok_0, #[trigger] rs[i]),
    decreases rs.len(),
{
    if rs.len() > 0 {
        lemma_topology_fold_holds_all(rs.drop_last());
        let v = topology_fold(rs.drop_last())->Ok_0;
        lemma_step_holds(v, rs.last());
        assert forall|i: int| 0 <= i < rs.len() implies record_indexed(topology_fold(rs)->Ok_0, #[trigger] rs[i]) by {
            if i < rs.len() - 1 {
                assert(rs[i] == rs.drop_last()[i]);
                lemma_step_keeps(v, rs.last(), rs[i]);
            }
        }
    }
}

proof fn lemma_topology_fold_extend(rs: Seq<TopologyRecordView>, ext: Seq<TopologyRecordView>)
    requires
        topology_fold(rs) matches Ok(v) ==> forall|i: int| 0 <= i < ext.len() ==> record_indexed(v, #[trigger] ext[i]),
    ensures
        topology_fold(rs + ext) == topology_fold(rs),
    decreases ext.len(),
{
    if ext.len() == 0 {
        assert(rs + ext =~= rs);
    } else {
        let all = rs + ext;
        assert(all.drop_last() =~= rs + ext.drop_last());
        assert(all.last() == ext.last());
        assert forall|i: int| 0 <= i < ext.drop_last().len() implies (topology_fold(rs) matches Ok(v) ==> record_indexed(
            v,
            #[trigger] ext.drop_last()[i],
        )) by {
            assert(ext.drop_last()[i] == ext[i]);
        }
        lemma_topology_fold_extend(rs, ext.drop_last());
    }
}

/// Replaying identical topology records twice changes nothing: the index
/// recovered from every record given twice is the one recovered from each
/// once (or the same error), and a recovered index holds every record given.
pub proof fn lemma_topology_replay_is_idempotent(rs: Seq<TopologyRecordView>)
    ensures
        topology_fold(rs + rs) == topology_fold(rs),
        topology_fold(rs) matches Ok(v) ==> forall|i: int| 0 <= i < rs.len() ==> record_indexed(v, #[trigger] rs[i]),
{
    if topology_fold(rs) is Ok {
        lemma_topology_fold_holds_all(rs);
    }
    lemma_topology_fold_extend(rs, rs);
}

/// Two forks of one strand that differ once canonicalized are refused as a
/// conflicting fork of that strand.
pub proof fn lemma_conflicting_forks_are_refused(f1: StrandForkView, f2: StrandForkView)
    requires
        f1.strand_id == f2.strand_id,
        canonical_fork(f1) != canonical_fork(f2),
    ensures
        topology_fold(seq![TopologyRecordView::Fork(f1), TopologyRecordView::Fork(f2)])
            == Err::<TopologyIndexView, WalRecoveryIndexError>(
            WalRecoveryIndexError::ConflictingStrandFork { strand_id: f1.strand_id },
        ),
{
    let rs = seq![TopologyRecordView::Fork(f1), TopologyRecordView::Fork(f2)];
    assert(rs.drop_last() =~= seq![TopologyRecordView::Fork(f1)]);
    assert(seq![TopologyRecordView::Fork(f1)].drop_last() =~= Seq::<TopologyRecordView>::empty());
    let one = seq![TopologyRecordView::Fork(f1)];
    assert(topology_fold(Seq::<TopologyRecordView>::empty()) == Ok::<TopologyIndexView, WalRecoveryIndexError>(
        empty_topology_view(),
    ));
    assert(one.last() == TopologyRecordView::Fork(f1));
    assert(topology_fold(one) == topology_step(empty_topology_view(), TopologyRecordView::Fork(f1)));
    let c1 = canonical_fork(f1);
    let c2 = canonical_fork(f2);
    assert(c1.strand_id == f1.strand_id);
    assert(c2.strand_id == f2.strand_id);
    let v = topology_step(empty_topology_view(), TopologyRecordView::Fork(f1))->Ok_0;
    assert(topology_step(empty_topology_view(), TopologyRecordView::Fork(f1)) is Ok);
    assert(v.forks == Map::<crate::ident::Hash, StrandForkView>::empty().insert(f1.strand_id.0, c1));
    assert(v.drops == Map::<crate::ident::Hash, StrandDropRecord>::empty());
    assert(rs.last() == TopologyRecordView::Fork(f2));
    assert(topology_fold(rs) == topology_step(v, TopologyRecordView::Fork(f2)));
}

/// Views of the records.
pub open spec fn records_view(rs: Seq<TopologyIntentRecord>) -> Seq<TopologyRecordView> {
    rs.map_values(|r: TopologyIntentRecord| r@)
}

fn insert_event_into_log(log: &mut Vec<TopologyBraidEventRecord>, rec: TopologyBraidEventRecord) -> (ok: bool)
    ensures
        match log_insert(old(log)@, rec) {
            Some(l) => ok && final(log)@ == l,
            None => !ok,
        },
{
    let mut i: usize = 0;
    while i < log.len()
        invariant
            i <= log@.len(),
            log@ == old(log)@,
            event_at(log@, rec.event_index, 0) == event_at(log@, rec.event_index, i as int),
        decreases log.len() - i,
    {
        if log[i].event_index == rec.event_index {
            return event_record_eq(&log[i], &rec);
        }
        i += 1;
    }
    let mut p: usize = 0;
    while p < log.len() && log[p].event_index <= rec.event_index
        invariant
            p <= log@.len(),
            log@ == old(log)@,
            event_at(log@, rec.event_index, 0) is None,
            insert_position(log@, rec.event_index, 0) == insert_position(log@, rec.event_index, p as int),
        decreases log.len() - p,
    {
        p += 1;
    }
    assert(insert_position(log@, rec.event_index, p as int) == p);
    log.insert(p, rec);
    assert(log@ =~= old(log)@.take(p as int).push(rec) + old(log)@.skip(p as int));
    true
}

fn consistent(r: &TopologyBraidEventRecord) -> (ok: bool)
    ensures
        ok == braid_event_consistent(*r),
{
    let created_ok = match &r.event {
        BraidEvent::BraidCreated { braid_id, .. } => hash_eq(braid_id, &r.braid_id),
        _ => true,
    };
    let expected = match &r.event {
        BraidEvent::BraidCreated { .. } => BraidStatus::Active,
        BraidEvent::MemberWoven { .. } => BraidStatus::Active,
        BraidEvent::SettlementFinalized { .. } => BraidStatus::Finalized,
        BraidEvent::BraidCollapsed { .. } => BraidStatus::Collapsed,
    };
    created_ok && status_eq(r.status_after, expected)
}

impl RecoveredTopologyIndex {
    /// Adds one record, exactly as `topology_step` describes.
    #[verifier::rlimit(60)]
    #[verifier::spinoff_prover]
    pub fn apply_record(&mut self, record: &TopologyIntentRecord) -> (r: Result<(), WalRecoveryIndexError>)
        requires
            old(self).wf(),
        ensures
            match topology_step(old(self).view_spec(), record@) {
                Ok(v) => r is Ok && final(self).wf() && final(self).view_spec() == v,
                Err(e) => r == Err::<(), WalRecoveryIndexError>(e),
            },
    {
        let ghost v0 = self.view_spec();
        match record {
            TopologyIntentRecord::StrandFork(rec) => {
                let f = rec.canonicalized();
                let strand = f.strand_id;
                let child = f.child_worldline_id;
                match self.strand_drops.get(&strand.0) {
                    Some(d) => {
                        if !hash_eq(&d.child_worldline_id.0, &child.0) {
                            return Err(WalRecoveryIndexError::ConflictingStrandFork { strand_id: strand });
                        }
                    },
                    None => {},
                }
                let ghost fv = f@;
                match self.strand_forks.get(&strand.0) {
                    Some(existing) => {
                        if !fork_eq(existing, &f) {
                            return Err(WalRecoveryIndexError::ConflictingStrandFork { strand_id: strand });
                        }
                    },
                    None => {
                        self.strand_forks.insert(strand.0, f);
                        proof {
                            assert(self.strand_forks@.map_values(|r: StrandForkRecord| r@) =~= v0.forks.insert(strand.0, fv));
                        }
                    },
                }
                match self.child_worldlines.get(&child.0) {
                    Some(existing) => {
                        if !hash_eq(&existing.0, &strand.0) {
                            return Err(WalRecoveryIndexError::ConflictingChildWorldline { child_worldline_id: child });
                        }
                    },
                    None => {
                        self.child_worldlines.insert(child.0, strand);
                    },
                }
                Ok(())
            },
            TopologyIntentRecord::StrandDrop(d) => {
                let strand = d.strand_id;
                match self.strand_forks.get(&strand.0) {
                    Some(f) => {
                        if !hash_eq(&f.child_worldline_id.0, &d.child_worldline_id.0) {
                            return Err(WalRecoveryIndexError::ConflictingStrandDrop { strand_id: strand });
                        }
                    },
                    None => {},
                }
                match self.strand_drops.get(&strand.0) {
                    Some(existing) => {
                        if !drop_eq(existing, d) {
                            return Err(WalRecoveryIndexError::ConflictingStrandDrop { strand_id: strand });
                        }
                    },
                    None => {
                        self.strand_drops.insert(strand.0, *d);
                    },
                }
                Ok(())
            },
            TopologyIntentRecord::BraidEvent(e) => {
                if !consistent(e) {
                    return Err(WalRecoveryIndexError::ConflictingBraidEvent { braid_id: e.braid_id, event_index: e.event_index });
                }
                let mut log = match self.braid_events.take(&e.braid_id) {
                    Some(l) => l,
                    None => Vec::new(),
                };
                if !insert_event_into_log(&mut log, *e) {
                    return Err(WalRecoveryIndexError::ConflictingBraidEvent { braid_id: e.braid_id, event_index: e.event_index });
                }
                let ghost lv = log@;
                self.braid_events.insert(e.braid_id, log);
                proof {
                    assert(self.braid_events@.map_values(|v: Vec<TopologyBraidEventRecord>| v@) =~= v0.events.insert(
                        e.braid_id,
                        lv,
                    ));
                }
                Ok(())
            },
            TopologyIntentRecord::BraidShell(sh) => {
                match self.braid_shells.get(&sh.shell_digest) {
                    Some(existing) => {
                        if !shell_eq(existing, sh) {
                            return Err(WalRecoveryIndexError::ConflictingBraidShell { shell_digest: sh.shell_digest });
                        }
                    },
                    None => {
                        self.braid_shells.insert(sh.shell_digest, *sh);
                    },
                }
                Ok(())
            },
            TopologyIntentRecord::SuffixImport(i) => {
                match self.suffix_imports.get(&i.import_id) {
                    Some(existing) => {
                        if !import_eq(existing, i) {
                            return Err(WalRecoveryIndexError::ConflictingSuffixImport { import_id: i.import_id });
                        }
                    },
                    None => {
                        self.suffix_imports.insert(i.import_id, *i);
                    },
                }
                match self.suffix_imports_by_idempotency_key.get(&i.idempotency_key_digest) {
                    Some(existing) => {
                        if !hash_eq(existing, &i.import_id) {
                            return Err(
                                WalRecoveryIndexError::ConflictingSuffixImportIdempotency {
                                    idempotency_key_digest: i.idempotency_key_digest,
                                },
                            );
                        }
                    },
                    None => {
                        self.suffix_imports_by_idempotency_key.insert(i.idempotency_key_digest, i.import_id);
                    },
                }
                match self.suffix_imports_by_bundle_digest.get(&i.bundle_digest) {
                    Some(existing) => {
                        if !hash_eq(existing, &i.import_id) {
                            return Err(WalRecoveryIndexError::ConflictingSuffixImportBundle { bundle_digest: i.bundle_digest });
                        }
                    },
                    None => {
                        self.suffix_imports_by_bundle_digest.insert(i.bundle_digest, i.import_id);
                    },
                }
                Ok(())
            },
        }
    }

    /// Builds topology indexes from topology evidence, in order; the first
    /// conflicting record is the error.
    pub fn from_topology_records(records: Vec<TopologyIntentRecord>) -> (r: Result<Self, WalRecoveryIndexError>)
        ensures
            match topology_fold(records_view(records@)) {
                Ok(v) => r matches Ok(idx) && idx.wf() && idx.view_spec() == v,
                Err(e) => r matches Err(x) && x == e,
            },
    {
        let mut index = RecoveredTopologyIndex::new();
        let mut i: usize = 0;
        assert(records_view(records@).take(0) =~= Seq::<TopologyRecordView>::empty());
        while i < records.len()
            invariant
                i <= records@.len(),
                index.wf(),
                topology_fold(records_view(records@).take(i as int)) == Ok::<TopologyIndexView, WalRecoveryIndexError>(
                    index.view_spec(),
                ),
            decreases records.len() - i,
        {
            proof {
                assert(records_view(records@).take(i + 1).drop_last() =~= records_view(records@).take(i as int));
                lemma_fold_stops(records_view(records@), i + 1);
            }
            match index.apply_record(&records[i]) {
                Ok(()) => {},
                Err(e) => return Err(e),
            }
            i += 1;
        }
        assert(records_view(records@).take(records@.len() as int) =~= records_view(records@));
        Ok(index)
    }
}

proof fn lemma_fold_stops(rs: Seq<TopologyRecordView>, n: int)
    requires
        0 <= n <= rs.len(),
    ensures
        topology_fold(rs.take(n)) is Err ==> topology_fold(rs) == topology_fold(rs.take(n)),
    decreases rs.len() - n,
{
    if n < rs.len() {
        assert(rs.take(n + 1).drop_last() =~= rs.take(n));
        lemma_fold_stops(rs, n + 1);
    } else {
        assert(rs.take(n) =~= rs);
    }
}

} // verus!
