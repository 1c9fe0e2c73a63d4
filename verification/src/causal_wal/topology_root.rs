//! Stable root over recovered topology indexes, recovery of the topology
//! index from committed transactions, and the topology-intent transaction.
use vstd::prelude::*;
use vstd::string::*;
use crate::causal_wal::builder::WalTransactionBuilder;
use crate::causal_wal::digest_map::DigestMap;
use crate::causal_wal::frame::{AffectedFrontier, WalCommittedTransaction, WalFrame};
use crate::causal_wal::index_recovery::{lemma_frames_next, lemma_frames_step, payload_of, report_frames};
use crate::causal_wal::indexes::recovered_index_root_domain;
use crate::causal_wal::kinds::WalRecordKind;
use crate::causal_wal::recovery::{RecoveryScanReport, WalRecoveredTransaction};
use crate::causal_wal::topology::{
    braid_event_bytes, braid_event_parse, drop_bytes, drop_parse, shell_bytes, shell_parse, suffix_import_bytes,
    suffix_import_parse, BraidShellRetentionRecord, StrandDropRecord, SuffixImportRecord, TopologyBraidEventRecord,
};
use crate::causal_wal::topology_fork::{fork_bytes, fork_parse, StrandForkRecord};
use crate::causal_wal::topology_index::{
    records_view, topology_bytes_spec, topology_fold, topology_kind_spec, RecoveredTopologyIndex,
    TopologyIntentRecord, TopologyRecordView,
};
use crate::causal_wal::transactions::{build_from_records, build_matches};
use crate::causal_wal::{WalBuildError, WalRecoveryIndexError};
use crate::crypto::{blake3_digest, blake3_hash};
use crate::encoding::{push_hash, push_slice};
use crate::ident::StrandId;

verus! {

/// Concatenation of `f` over the entries, in order.
pub open spec fn entries_concat<V>(es: Seq<(crate::ident::Hash, V)>, f: spec_fn(crate::ident::Hash, V) -> Seq<u8>) -> Seq<u8>
    decreases es.len(),
{
    if es.len() == 0 {
        Seq::empty()
    } else {
        entries_concat(es.drop_last(), f) + f(es.last().0, es.last().1)
    }
}

/// Concatenated encodings of an event log.
pub open spec fn log_bytes(log: Seq<TopologyBraidEventRecord>) -> Seq<u8>
    decreases log.len(),
{
    if log.len() == 0 {
        Seq::empty()
    } else {
        log_bytes(log.drop_last()) + braid_event_bytes(log.last())
    }
}

pub open spec fn fork_entry(k: crate::ident::Hash, v: StrandForkRecord) -> Seq<u8> {
    "strand-fork".spec_bytes() + k@ + fork_bytes(v@)
}

pub open spec fn drop_entry(k: crate::ident::Hash, v: StrandDropRecord) -> Seq<u8> {
    "strand-drop".spec_bytes() + k@ + drop_bytes(v)
}

pub open spec fn child_entry(k: crate::ident::Hash, v: StrandId) -> Seq<u8> {
    "child-worldline".spec_bytes() + k@ + v.0@
}

pub open spec fn events_entry(k: crate::ident::Hash, v: Vec<TopologyBraidEventRecord>) -> Seq<u8> {
    "braid-events".spec_bytes() + k@ + log_bytes(v@)
}

pub open spec fn shell_entry(k: crate::ident::Hash, v: BraidShellRetentionRecord) -> Seq<u8> {
    "braid-shell".spec_bytes() + k@ + shell_bytes(v)
}

pub open spec fn import_entry(k: crate::ident::Hash, v: SuffixImportRecord) -> Seq<u8> {
    "suffix-import".spec_bytes() + k@ + suffix_import_bytes(v)
}

/// Bytes the topology root is taken over: each map in ascending key order.
pub open spec fn topology_root_input(idx: RecoveredTopologyIndex) -> Seq<u8> {
    recovered_index_root_domain() + "topology".spec_bytes() + entries_concat(
        idx.strand_forks.entries_spec(),
        |k: crate::ident::Hash, v: StrandForkRecord| fork_entry(k, v),
    ) + entries_concat(idx.strand_drops.entries_spec(), |k: crate::ident::Hash, v: StrandDropRecord| drop_entry(k, v))
        + entries_concat(idx.child_worldlines.entries_spec(), |k: crate::ident::Hash, v: StrandId| child_entry(k, v))
        + entries_concat(
        idx.braid_events.entries_spec(),
        |k: crate::ident::Hash, v: Vec<TopologyBraidEventRecord>| events_entry(k, v),
    ) + entries_concat(
        idx.braid_shells.entries_spec(),
        |k: crate::ident::Hash, v: BraidShellRetentionRecord| shell_entry(k, v),
    ) + entries_concat(idx.suffix_imports.entries_spec(), |k: crate::ident::Hash, v: SuffixImportRecord| import_entry(k, v))
}

fn push_forks(out: &mut Vec<u8>, m: &DigestMap<StrandForkRecord>)
    ensures
        final(out)@ == old(out)@ + entries_concat(
            m.entries_spec(),
            |k: crate::ident::Hash, v: StrandForkRecord| fork_entry(k, v),
        ),
{
    let es = m.entries();
    let ghost start = out@;
    let ghost f = |k: crate::ident::Hash, v: StrandForkRecord| fork_entry(k, v);
    let mut i: usize = 0;
    while i < es.len()
        invariant
            i <= es@.len(),
            es@ == m.entries_spec(),
            f == (|k: crate::ident::Hash, v: StrandForkRecord| fork_entry(k, v)),
            out@ == start + entries_concat(es@.take(i as int), f),
        decreases es.len() - i,
    {
        push_slice(out, "strand-fork".as_bytes());
        push_hash(out, &es[i].0);
        let b = es[i].1.to_payload_bytes();
        push_slice(out, b.as_slice());
        proof {
            assert(es@.take(i + 1).drop_last() =~= es@.take(i as int));
        }
        i += 1;
        assert(out@ =~= start + entries_concat(es@.take(i as int), f));
    }
    assert(es@.take(es@.len() as int) =~= es@);
}

fn push_drops(out: &mut Vec<u8>, m: &DigestMap<StrandDropRecord>)
    ensures
        final(out)@ == old(out)@ + entries_concat(
            m.entries_spec(),
            |k: crate::ident::Hash, v: StrandDropRecord| drop_entry(k, v),
        ),
{
    let es = m.entries();
    let ghost start = out@;
    let ghost f = |k: crate::ident::Hash, v: StrandDropRecord| drop_entry(k, v);
    let mut i: usize = 0;
    while i < es.len()
        invariant
            i <= es@.len(),
            es@ == m.entries_spec(),
            f == (|k: crate::ident::Hash, v: StrandDropRecord| drop_entry(k, v)),
            out@ == start + entries_concat(es@.take(i as int), f),
        decreases es.len() - i,
    {
        push_slice(out, "strand-drop".as_bytes());
        push_hash(out, &es[i].0);
        let b = es[i].1.to_payload_bytes();
        push_slice(out, b.as_slice());
        proof {
            assert(es@.take(i + 1).drop_last() =~= es@.take(i as int));
        }
        i += 1;
        assert(out@ =~= start + entries_concat(es@.take(i as int), f));
    }
    assert(es@.take(es@.len() as int) =~= es@);
}

fn push_children(out: &mut Vec<u8>, m: &DigestMap<StrandId>)
    ensures
        final(out)@ == old(out)@ + entries_concat(m.entries_spec(), |k: crate::ident::Hash, v: StrandId| child_entry(k, v)),
{
    let es = m.entries();
    let ghost start = out@;
    let ghost f = |k: crate::ident::Hash, v: StrandId| child_entry(k, v);
    let mut i: usize = 0;
    while i < es.len()
        invariant
            i <= es@.len(),
            es@ == m.entries_spec(),
            f == (|k: crate::ident::Hash, v: StrandId| child_entry(k, v)),
            out@ == start + entries_concat(es@.take(i as int), f),
        decreases es.len() - i,
    {
        push_slice(out, "child-worldline".as_bytes());
        push_hash(out, &es[i].0);
        push_hash(out, &es[i].1.0);
        proof {
            assert(es@.take(i + 1).drop_last() =~= es@.take(i as int));
        }
        i += 1;
        assert(out@ =~= start + entries_concat(es@.take(i as int), f));
    }
    assert(es@.take(es@.len() as int) =~= es@);
}

fn push_log(out: &mut Vec<u8>, log: &Vec<TopologyBraidEventRecord>)
    ensures
        final(out)@ == old(out)@ + log_bytes(log@),
{
    let ghost start = out@;
    let mut i: usize = 0;
    while i < log.len()
        invariant
            i <= log@.len(),
            out@ == start + log_bytes(log@.take(i as int)),
        decreases log.len() - i,
    {
        let b = log[i].to_payload_bytes();
        push_slice(out, b.as_slice());
        proof {
            assert(log@.take(i + 1).drop_last() =~= log@.take(i as int));
        }
        i += 1;
        assert(out@ =~= start + log_bytes(log@.take(i as int)));
    }
    assert(log@.take(log@.len() as int) =~= log@);
}

fn push_events(out: &mut Vec<u8>, m: &DigestMap<Vec<TopologyBraidEventRecord>>)
    ensures
        final(out)@ == old(out)@ + entries_concat(
            m.entries_spec(),
            |k: crate::ident::Hash, v: Vec<TopologyBraidEventRecord>| events_entry(k, v),
        ),
{
    let es = m.entries();
    let ghost start = out@;
    let ghost f = |k: crate::ident::Hash, v: Vec<TopologyBraidEventRecord>| events_entry(k, v);
    let mut i: usize = 0;
    while i < es.len()
        invariant
            i <= es@.len(),
            es@ == m.entries_spec(),
            f == (|k: crate::ident::Hash, v: Vec<TopologyBraidEventRecord>| events_entry(k, v)),
            out@ == start + entries_concat(es@.take(i as int), f),
        decreases es.len() - i,
    {
        push_slice(out, "braid-events".as_bytes());
        push_hash(out, &es[i].0);
        push_log(out, &es[i].1);
        proof {
            assert(es@.take(i + 1).drop_last() =~= es@.take(i as int));
        }
        i += 1;
        assert(out@ =~= start + entries_concat(es@.take(i as int), f));
    }
    assert(es@.take(es@.len() as int) =~= es@);
}

fn push_shells(out: &mut Vec<u8>, m: &DigestMap<BraidShellRetentionRecord>)
    ensures
        final(out)@ == old(out)@ + entries_concat(
            m.entries_spec(),
            |k: crate::ident::Hash, v: BraidShellRetentionRecord| shell_entry(k, v),
        ),
{
    let es = m.entries();
    let ghost start = out@;
    let ghost f = |k: crate::ident::Hash, v: BraidShellRetentionRecord| shell_entry(k, v);
    let mut i: usize = 0;
    while i < es.len()
        invariant
            i <= es@.len(),
            es@ == m.entries_spec(),
            f == (|k: crate::ident::Hash, v: BraidShellRetentionRecord| shell_entry(k, v)),
            out@ == start + entries_concat(es@.take(i as int), f),
        decreases es.len() - i,
    {
        push_slice(out, "braid-shell".as_bytes());
        push_hash(out, &es[i].0);
        let b = es[i].1.to_payload_bytes();
        push_slice(out, b.as_slice());
        proof {
            assert(es@.take(i + 1).drop_last() =~= es@.take(i as int));
        }
        i += 1;
        assert(out@ =~= start + entries_concat(es@.take(i as int), f));
    }
    assert(es@.take(es@.len() as int) =~= es@);
}

fn push_imports(out: &mut Vec<u8>, m: &DigestMap<SuffixImportRecord>)
    ensures
        final(out)@ == old(out)@ + entries_concat(
            m.entries_spec(),
            |k: crate::ident::Hash, v: SuffixImportRecord| import_entry(k, v),
        ),
{
    let es = m.entries();
    let ghost start = out@;
    let ghost f = |k: crate::ident::Hash, v: SuffixImportRecord| import_entry(k, v);
    let mut i: usize = 0;
    while i < es.len()
        invariant
            i <= es@.len(),
            es@ == m.entries_spec(),
            f == (|k: crate::ident::Hash, v: SuffixImportRecord| import_entry(k, v)),
            out@ == start + entries_concat(es@.take(i as int), f),
        decreases es.len() - i,
    {
        push_slice(out, "suffix-import".as_bytes());
        push_hash(out, &es[i].0);
        let b = es[i].1.to_payload_bytes();
        push_slice(out, b.as_slice());
        proof {
            assert(es@.take(i + 1).drop_last() =~= es@.take(i as int));
        }
        i += 1;
        assert(out@ =~= start + entries_concat(es@.take(i as int), f));
    }
    assert(es@.take(es@.len() as int) =~= es@);
}

/// Stable root over recovered topology indexes: every map in ascending key
/// order, each entry labelled.
pub fn recovered_topology_index_root(index: &RecoveredTopologyIndex) -> (r: crate::ident::Hash)
    ensures
        r@ == blake3_digest(topology_root_input(*index)),
{
    let mut input: Vec<u8> = Vec::new();
    push_slice(&mut input, "echo:causal_wal:recovered_index_root:v1\0".as_bytes());
    push_slice(&mut input, "topology".as_bytes());
    push_forks(&mut input, &index.strand_forks);
    push_drops(&mut input, &index.strand_drops);
    push_children(&mut input, &index.child_worldlines);
    push_events(&mut input, &index.braid_events);
    push_shells(&mut input, &index.braid_shells);
    push_imports(&mut input, &index.suffix_imports);
    proof {
        reveal_strlit("echo:causal_wal:recovered_index_root:v1\0");
        assert(input@ =~= topology_root_input(*index));
    }
    blake3_hash(input.as_slice())
}

/// The topology record a frame carries, if it is one; `Some(None)` when it
/// is one that fails to decode.
pub open spec fn frame_topology(f: WalFrame) -> Option<Option<TopologyRecordView>> {
    let b = payload_of(f);
    match f.header.record_kind {
        WalRecordKind::TopologyStrandForkRecorded => Some(
            match fork_parse(b) {
                Some(v) => Some(TopologyRecordView::Fork(v)),
                None => None,
            },
        ),
        WalRecordKind::TopologyStrandDropRecorded => Some(
            match drop_parse(b) {
                Some(v) => Some(TopologyRecordView::Drop(v)),
                None => None,
            },
        ),
        WalRecordKind::TopologyBraidEventRecorded => Some(
            match braid_event_parse(b) {
                Some(v) => Some(TopologyRecordView::Event(v)),
                None => None,
            },
        ),
        WalRecordKind::TopologyBraidShellRetained => Some(
            match shell_parse(b) {
                Some(v) => Some(TopologyRecordView::Shell(v)),
                None => None,
            },
        ),
        WalRecordKind::TopologySuffixImportRecorded => Some(
            match suffix_import_parse(b) {
                Some(v) => Some(TopologyRecordView::Import(v)),
                None => None,
            },
        ),
        _ => None,
    }
}

/// Topology records of the frames in order; `None` when one fails to decode.
pub open spec fn topology_records(fs: Seq<WalFrame>) -> Option<Seq<TopologyRecordView>>
    decreases fs.len(),
{
    if fs.len() == 0 {
        Some(Seq::empty())
    } else {
        match topology_records(fs.drop_last()) {
            None => None,
            Some(rs) => match frame_topology(fs.last()) {
                None => Some(rs),
                Some(None) => None,
                Some(Some(r)) => Some(rs.push(r)),
            },
        }
    }
}

proof fn lemma_records_stop(fs: Seq<WalFrame>, n: int)
    requires
        0 <= n <= fs.len(),
        topology_records(fs.take(n)) is None,
    ensures
        topology_records(fs) is None,
    decreases fs.len() - n,
{
    if n < fs.len() {
        assert(fs.take(n + 1).drop_last() =~= fs.take(n));
        lemma_records_stop(fs, n + 1);
    } else {
        assert(fs.take(n) =~= fs);
    }
}

/// Decodes the topology record a frame carries.
fn decode_topology(f: &WalFrame) -> (r: Result<Option<TopologyIntentRecord>, WalRecoveryIndexError>)
    ensures
        match frame_topology(*f) {
            None => r == Ok::<Option<TopologyIntentRecord>, WalRecoveryIndexError>(None),
            Some(None) => r matches Err(WalRecoveryIndexError::Decode(_)),
            Some(Some(v)) => r matches Ok(Some(x)) && x@ == v,
        },
{
    let b = f.payload.canonical_bytes.as_slice();
    match f.header.record_kind {
        WalRecordKind::TopologyStrandForkRecorded => match StrandForkRecord::from_payload_bytes(b) {
            Ok(x) => Ok(Some(TopologyIntentRecord::StrandFork(x))),
            Err(e) => Err(WalRecoveryIndexError::Decode(e)),
        },
        WalRecordKind::TopologyStrandDropRecorded => match StrandDropRecord::from_payload_bytes(b) {
            Ok(x) => Ok(Some(TopologyIntentRecord::StrandDrop(x))),
            Err(e) => Err(WalRecoveryIndexError::Decode(e)),
        },
        WalRecordKind::TopologyBraidEventRecorded => match TopologyBraidEventRecord::from_payload_bytes(b) {
            Ok(x) => Ok(Some(TopologyIntentRecord::BraidEvent(x))),
            Err(e) => Err(WalRecoveryIndexError::Decode(e)),
        },
        WalRecordKind::TopologyBraidShellRetained => match BraidShellRetentionRecord::from_payload_bytes(b) {
            Ok(x) => Ok(Some(TopologyIntentRecord::BraidShell(x))),
            Err(e) => Err(WalRecoveryIndexError::Decode(e)),
        },
        WalRecordKind::TopologySuffixImportRecorded => match SuffixImportRecord::from_payload_bytes(b) {
            Ok(x) => Ok(Some(TopologyIntentRecord::SuffixImport(x))),
            Err(e) => Err(WalRecoveryIndexError::Decode(e)),
        },
        _ => Ok(None),
    }
}

/// Recovers topology indexes from committed WAL transactions: every topology
/// record is decoded first, then they are indexed in replay order.
pub fn recover_topology_index(report: &RecoveryScanReport) -> (r: Result<RecoveredTopologyIndex, WalRecoveryIndexError>)
    ensures
        match topology_records(report_frames(report.transactions@)) {
            None => r matches Err(WalRecoveryIndexError::Decode(_)),
            Some(rs) => match topology_fold(rs) {
                Ok(v) => r matches Ok(idx) && idx.wf() && idx.view_spec() == v,
                Err(e) => r matches Err(x) && x == e,
            },
        },
{
    let mut records: Vec<TopologyIntentRecord> = Vec::new();
    let ts = &report.transactions;
    proof {
        assert(ts@.take(0) =~= Seq::<WalRecoveredTransaction>::empty());
    }
    let mut t: usize = 0;
    while t < ts.len()
        invariant
            ts@ == report.transactions@,
            t <= ts@.len(),
            topology_records(report_frames(ts@.take(t as int))) == Some(records_view(records@)),
        decreases ts.len() - t,
    {
        let frames = &ts[t].frames;
        proof {
            lemma_frames_next(ts@, t as int);
        }
        let mut i: usize = 0;
        while i < frames.len()
            invariant
                ts@ == report.transactions@,
                t < ts@.len(),
                frames@ == ts@[t as int].frames@,
                i <= frames@.len(),
                topology_records(report_frames(ts@.take(t as int)) + frames@.take(i as int)) == Some(
                    records_view(records@),
                ),
            decreases frames.len() - i,
        {
            proof {
                lemma_frames_step(ts@, t as int, i as int);
            }
            let ghost pre = report_frames(ts@.take(t as int)) + frames@.take(i as int + 1);
            match decode_topology(&frames[i]) {
                Ok(Some(x)) => {
                    let ghost before = records@;
                    records.push(x);
                    proof {
                        assert(records_view(records@) =~= records_view(before).push(x@));
                    }
                },
                Ok(None) => {},
                Err(e) => {
                    proof {
                        crate::causal_wal::index_recovery::lemma_seen_prefix(ts@, t as int, i as int + 1);
                        lemma_records_stop(report_frames(ts@), pre.len() as int);
                    }
                    return Err(e);
                },
            }
            i += 1;
        }
        t += 1;
    }
    assert(ts@.take(ts@.len() as int) =~= ts@);
    RecoveredTopologyIndex::from_topology_records(records)
}

/// Kinds and payloads of topology records, in order.
pub open spec fn topology_transaction_records(rs: Seq<TopologyRecordView>) -> Seq<(WalRecordKind, Seq<u8>)> {
    rs.map_values(|r: TopologyRecordView| (topology_kind_spec(r), topology_bytes_spec(r)))
}

/// Builds a topology-intent transaction from typed topology evidence records.
pub fn build_topology_intent_transaction(
    builder: WalTransactionBuilder,
    records: &[TopologyIntentRecord],
    affected_frontiers: Vec<AffectedFrontier>,
) -> (r: Result<WalCommittedTransaction, WalBuildError>)
    requires
        builder.wf(),
    ensures
        build_matches(
            builder,
            topology_transaction_records(records@.map_values(|x: TopologyIntentRecord| x@)),
            affected_frontiers@,
            r,
        ),
{
    let mut recs: Vec<(WalRecordKind, Vec<u8>)> = Vec::new();
    let ghost want = topology_transaction_records(records@.map_values(|x: TopologyIntentRecord| x@));
    let mut i: usize = 0;
    while i < records.len()
        invariant
            i <= records@.len(),
            want == topology_transaction_records(records@.map_values(|x: TopologyIntentRecord| x@)),
            recs@.len() == i,
            crate::causal_wal::transactions::records_view(recs@) == want.take(i as int),
        decreases records.len() - i,
    {
        let ghost before = recs@;
        let k = records[i].record_kind();
        let b = records[i].to_payload_bytes();
        recs.push((k, b));
        proof {
            assert(recs@ =~= before.push((k, b)));
            assert(want[i as int] == (k, b@));
            assert(crate::causal_wal::transactions::records_view(recs@) =~= crate::causal_wal::transactions::records_view(
                before,
            ).push((k, b@)));
            assert(crate::causal_wal::transactions::records_view(recs@) =~= want.take(i + 1));
        }
        i += 1;
    }
    assert(want.take(records@.len() as int) =~= want);
    build_from_records(builder, recs, affected_frontiers)
}

} // verus!
