//! Materialization of a projected WAL root into deterministic graph facts:
//! one fact node per root, writer epoch, segment, commit anchor and
//! certificate reference, each carrying its fact bytes, linked by typed edges.
//! The facts are kept in the order they are inserted.
use vstd::prelude::*;
use vstd::bytes::*;
use vstd::string::*;
use crate::crypto::{blake3_digest, blake3_hash};
use crate::encoding::{
    len_prefixed, optional_hash_bytes, push_hash, push_len_prefixed, push_optional_hash, push_slice, push_u64_le,
    push_u8,
};
use crate::ident::{labelled_digest, make_type_id, EdgeId, NodeId, TypeId};
use crate::order::{
    key_le, lemma_key_le_total_ordering, lemma_lex_le_reflexive, lemma_map_values_permutation,
    lemma_sort_by_key_spec, lemma_sort_canonical_permutation_invariant, lex_le, sort_by_key, sort_by_key_spec, SortKey,
};
use crate::causal_wal::projection::{
    be8, certificate_identity_opt, certificate_ref_identity, commit_anchor_identity, hash_of, lemma_hash_of,
    optional_certificate_identity, optional_epoch_bytes, optional_lsn_bytes, push_optional_epoch, push_optional_lsn,
    push_seal_posture, push_sorted_hashes, push_tail_posture, push_u64_be, root_identity, root_identity_input, seal_posture_bytes,
    segment_identities, segment_identity, sorted_hashes_field, tail_posture_bytes, writer_epoch_identities,
    writer_epoch_identity, RecoveryCertificateRef, WalCommitAnchor, WalRoot, WalSegmentRef, WalWriterEpoch,
};
use crate::causal_wal::len_u64;

verus! {

broadcast use vstd::seq_lib::group_to_multiset_ensures;

/// WSC schema label for materialized WAL projection graph facts.
pub const WAL_PROJECTION_GRAPH_SCHEMA: &'static str = "echo/wal-projection-graph/schema/v1";
/// WARP id label for materialized WAL projection graph facts.
pub const WAL_PROJECTION_GRAPH_WARP: &'static str = "echo/wal-projection-graph/warp/v1";
/// Node type for the materialized WAL projection root fact.
pub const WAL_PROJECTION_GRAPH_ROOT_NODE_TYPE: &'static str = "echo/wal-projection-graph/root-node/v1";
/// Node type for materialized WAL writer epoch facts.
pub const WAL_PROJECTION_GRAPH_WRITER_EPOCH_NODE_TYPE: &'static str = "echo/wal-projection-graph/writer-epoch-node/v1";
/// Node type for materialized WAL segment facts.
pub const WAL_PROJECTION_GRAPH_SEGMENT_NODE_TYPE: &'static str = "echo/wal-projection-graph/segment-node/v1";
/// Node type for materialized WAL commit-anchor facts.
pub const WAL_PROJECTION_GRAPH_COMMIT_ANCHOR_NODE_TYPE: &'static str = "echo/wal-projection-graph/commit-anchor-node/v1";
/// Node type for materialized recovery-certificate reference facts.
pub const WAL_PROJECTION_GRAPH_RECOVERY_CERTIFICATE_NODE_TYPE: &'static str =
    "echo/wal-projection-graph/recovery-certificate-node/v1";
/// Edge type from the WAL projection root to writer epoch facts.
pub const WAL_PROJECTION_GRAPH_WRITER_EPOCH_EDGE_TYPE: &'static str =
    "echo/wal-projection-graph/root-writer-epoch-edge/v1";
/// Edge type from the WAL projection root to segment facts.
pub const WAL_PROJECTION_GRAPH_SEGMENT_EDGE_TYPE: &'static str = "echo/wal-projection-graph/root-segment-edge/v1";
/// Edge type from the WAL projection root to commit-anchor facts.
pub const WAL_PROJECTION_GRAPH_ROOT_COMMIT_ANCHOR_EDGE_TYPE: &'static str =
    "echo/wal-projection-graph/root-commit-anchor-edge/v1";
/// Edge type from the WAL projection root to recovery-certificate facts.
pub const WAL_PROJECTION_GRAPH_RECOVERY_CERTIFICATE_EDGE_TYPE: &'static str =
    "echo/wal-projection-graph/root-recovery-certificate-edge/v1";
/// Edge type from a WAL segment fact to its commit-anchor facts.
pub const WAL_PROJECTION_GRAPH_SEGMENT_COMMIT_ANCHOR_EDGE_TYPE: &'static str =
    "echo/wal-projection-graph/segment-commit-anchor-edge/v1";
/// Attachment type for WAL projection root fact payloads.
pub const WAL_PROJECTION_GRAPH_ROOT_ATTACHMENT_TYPE: &'static str = "echo/wal-projection-graph/root-attachment/v1";
/// Attachment type for WAL writer epoch fact payloads.
pub const WAL_PROJECTION_GRAPH_WRITER_EPOCH_ATTACHMENT_TYPE: &'static str =
    "echo/wal-projection-graph/writer-epoch-attachment/v1";
/// Attachment type for WAL segment fact payloads.
pub const WAL_PROJECTION_GRAPH_SEGMENT_ATTACHMENT_TYPE: &'static str = "echo/wal-projection-graph/segment-attachment/v1";
/// Attachment type for WAL commit-anchor fact payloads.
pub const WAL_PROJECTION_GRAPH_COMMIT_ANCHOR_ATTACHMENT_TYPE: &'static str =
    "echo/wal-projection-graph/commit-anchor-attachment/v1";
/// Attachment type for recovery-certificate reference fact payloads.
pub const WAL_PROJECTION_GRAPH_RECOVERY_CERTIFICATE_ATTACHMENT_TYPE: &'static str =
    "echo/wal-projection-graph/recovery-certificate-attachment/v1";

/// The type id derived from a label.
pub open spec fn type_id_of(label: &str) -> TypeId {
    TypeId(hash_of(labelled_digest("type:".spec_bytes(), label.spec_bytes())))
}

fn type_id(label: &str) -> (r: TypeId)
    ensures
        r == type_id_of(label),
{
    let r = make_type_id(label);
    proof {
        lemma_hash_of(r.0, labelled_digest("type:".spec_bytes(), label.spec_bytes()));
    }
    r
}

/// Schema hash of materialized WAL projection graph facts.
pub fn wal_projection_graph_schema_hash() -> (r: crate::ident::Hash)
    ensures
        r == type_id_of(WAL_PROJECTION_GRAPH_SCHEMA).0,
{
    type_id(WAL_PROJECTION_GRAPH_SCHEMA).0
}

pub open spec fn graph_node_domain() -> Seq<u8> {
    "echo:causal_wal:projection_graph:node:v1\0".spec_bytes()
}

pub open spec fn graph_edge_domain() -> Seq<u8> {
    "echo:causal_wal:projection_graph:edge:v1\0".spec_bytes()
}

/// Node id of a fact: its role and identity digest.
pub open spec fn node_id_spec(role: &str, identity: [u8; 32]) -> NodeId {
    NodeId(hash_of(blake3_digest(graph_node_domain() + len_prefixed(role.spec_bytes()) + identity@)))
}

/// Edge id: its role and both endpoints.
pub open spec fn edge_id_spec(role: &str, from: NodeId, to: NodeId) -> EdgeId {
    EdgeId(hash_of(blake3_digest(graph_edge_domain() + len_prefixed(role.spec_bytes()) + from.0@ + to.0@)))
}

fn node_id_for(role: &str, identity: &[u8; 32]) -> (r: NodeId)
    ensures
        r == node_id_spec(role, *identity),
{
    let mut input: Vec<u8> = Vec::new();
    push_slice(&mut input, "echo:causal_wal:projection_graph:node:v1\0".as_bytes());
    push_len_prefixed(&mut input, role.as_bytes());
    push_hash(&mut input, identity);
    proof {
        reveal_strlit("echo:causal_wal:projection_graph:node:v1\0");
    }
    let h = blake3_hash(input.as_slice());
    proof {
        lemma_hash_of(h, blake3_digest(graph_node_domain() + len_prefixed(role.spec_bytes()) + identity@));
    }
    NodeId(h)
}

/// A fact node: id, node type, attachment type and the fact bytes.
#[derive(Clone, Debug, PartialEq, Eq)]
pub struct WalProjectionFactNode {
    /// Node id.
    pub node_id: NodeId,
    /// Node type.
    pub node_type: TypeId,
    /// Type of the attached fact bytes.
    pub attachment_type: TypeId,
    /// Fact bytes.
    pub payload: Vec<u8>,
}

/// Node id, node type, attachment type and fact bytes.
pub type FactView = (NodeId, TypeId, TypeId, Seq<u8>);

/// The view of a fact node.
pub open spec fn fact_view(n: WalProjectionFactNode) -> FactView {
    (n.node_id, n.node_type, n.attachment_type, n.payload@)
}

/// A typed edge between two fact nodes.
#[derive(Clone, Copy, Debug, PartialEq, Eq)]
pub struct WalProjectionEdge {
    /// Edge id.
    pub edge_id: EdgeId,
    /// Source node.
    pub from: NodeId,
    /// Target node.
    pub to: NodeId,
    /// Edge type.
    pub edge_type: TypeId,
}

/// The edge with the given role, endpoints and type label.
pub open spec fn edge_spec(role: &str, from: NodeId, to: NodeId, ty: &str) -> WalProjectionEdge {
    WalProjectionEdge { edge_id: edge_id_spec(role, from, to), from, to, edge_type: type_id_of(ty) }
}

fn edge_for(role: &str, from: NodeId, to: NodeId, ty: &str) -> (r: WalProjectionEdge)
    ensures
        r == edge_spec(role, from, to, ty),
{
    let mut input: Vec<u8> = Vec::new();
    push_slice(&mut input, "echo:causal_wal:projection_graph:edge:v1\0".as_bytes());
    push_len_prefixed(&mut input, role.as_bytes());
    push_hash(&mut input, &from.0);
    push_hash(&mut input, &to.0);
    proof {
        reveal_strlit("echo:causal_wal:projection_graph:edge:v1\0");
    }
    let h = blake3_hash(input.as_slice());
    proof {
        lemma_hash_of(h, blake3_digest(graph_edge_domain() + len_prefixed(role.spec_bytes()) + from.0@ + to.0@));
    }
    WalProjectionEdge { edge_id: EdgeId(h), from, to, edge_type: type_id(ty) }
}

/// Materialized graph facts of a projected WAL root, in insertion order.
/// It is a read-only fact projection with no storage authority.
#[derive(Clone, Debug, PartialEq, Eq)]
pub struct WalProjectionGraph {
    /// Fact nodes.
    pub nodes: Vec<WalProjectionFactNode>,
    /// Typed edges.
    pub edges: Vec<WalProjectionEdge>,
    /// Root node of the materialized projection.
    pub root_node_id: NodeId,
}

/// A digest and the position of the element it identifies; slots order by
/// digest, then position, so sorting them is a stable sort by digest.
#[derive(Clone, Copy, Debug, PartialEq, Eq)]
pub struct DigestSlot {
    /// Identity digest.
    pub digest: [u8; 32],
    /// Position of the element.
    pub index: u64,
}

impl SortKey for DigestSlot {
    open spec fn key(&self) -> Seq<u8> {
        self.digest@ + be8(self.index)
    }

    fn key_bytes(&self) -> (k: Vec<u8>) {
        let mut k: Vec<u8> = Vec::new();
        push_hash(&mut k, &self.digest);
        push_u64_be(&mut k, self.index);
        k
    }
}

/// One slot per digest, in order.
pub open spec fn slots_of(ds: Seq<[u8; 32]>) -> Seq<DigestSlot> {
    Seq::new(ds.len(), |i: int| DigestSlot { digest: ds[i], index: i as u64 })
}

/// Positions ordered by digest, stably.
pub open spec fn digest_order(ds: Seq<[u8; 32]>) -> Seq<DigestSlot> {
    sort_by_key_spec(slots_of(ds))
}

/// Every slot of the order points at a position holding its digest.
pub open spec fn slots_valid(order: Seq<DigestSlot>, ds: Seq<[u8; 32]>) -> bool {
    forall|k: int| 0 <= k < order.len() ==> (#[trigger] order[k]).index < ds.len() && ds[order[k].index as int] == order[k].digest
}

fn sorted_slots(ds: &Vec<[u8; 32]>) -> (r: Vec<DigestSlot>)
    ensures
        r@ == digest_order(ds@),
        slots_valid(r@, ds@),
{
    let mut slots: Vec<DigestSlot> = Vec::new();
    let mut i: usize = 0;
    while i < ds.len()
        invariant
            i <= ds@.len(),
            slots@ == slots_of(ds@).take(i as int),
        decreases ds.len() - i,
    {
        slots.push(DigestSlot { digest: ds[i], index: i as u64 });
        i += 1;
        assert(slots@ =~= slots_of(ds@).take(i as int));
    }
    assert(slots_of(ds@).take(ds@.len() as int) =~= slots_of(ds@));
    let ghost unsorted = slots@;
    let r = sort_by_key(slots);
    proof {
        assert forall|k: int| 0 <= k < r@.len() implies (#[trigger] r@[k]).index < ds@.len() && ds@[r@[k].index as int]
            == r@[k].digest by {
            assert(r@.to_multiset().count(r@[k]) > 0);
            assert(unsorted.contains(r@[k]));
        }
    }
    r
}

/// Fact bytes of a projected root.
pub open spec fn root_payload_spec(root: WalRoot) -> Seq<u8> {
    root.root_digest@ + sorted_hashes_field(root.writer_epochs@.map_values(|e: WalWriterEpoch| writer_epoch_identity(e)))
        + sorted_hashes_field(root.segments@.map_values(|s: WalSegmentRef| segment_identity(s))) + optional_hash_bytes(
        optional_certificate_identity(root.recovery_certificate),
    )
}

/// Fact bytes of a writer epoch.
pub open spec fn writer_epoch_payload_spec(e: WalWriterEpoch) -> Seq<u8> {
    e.epoch_id.0@ + e.storage_fencing_token@ + e.process_identity@ + e.host_identity@ + spec_u64_to_le_bytes(
        e.started_at_lsn.0,
    ) + optional_epoch_bytes(e.previous_epoch_id) + optional_hash_bytes(e.previous_epoch_final_commit_digest)
        + e.lease_or_lock_evidence@
}

/// Fact bytes of a segment: its fields, its anchor identities in ascending
/// order, and its seal posture; never its locator.
pub open spec fn segment_payload_spec(s: WalSegmentRef) -> Seq<u8> {
    s.writer_epoch.0@ + spec_u64_to_le_bytes(s.segment_id.0) + spec_u64_to_le_bytes(s.first_lsn.0)
        + spec_u64_to_le_bytes(s.last_lsn.0) + s.previous_commit_digest@ + s.final_commit_digest@ + s.segment_digest@
        + sorted_hashes_field(s.commit_anchors@.map_values(|a: WalCommitAnchor| commit_anchor_identity(a)))
        + seal_posture_bytes(s.seal_posture)
}

/// Fact bytes of a commit anchor.
pub open spec fn commit_anchor_payload_spec(a: WalCommitAnchor) -> Seq<u8> {
    a.transaction_id.0@ + a.commit_digest@ + spec_u64_to_le_bytes(a.first_lsn.0) + spec_u64_to_le_bytes(a.last_lsn.0)
        + spec_u64_to_le_bytes(a.record_count)
}

/// Fact bytes of a certificate reference.
pub open spec fn certificate_payload_spec(c: RecoveryCertificateRef) -> Seq<u8> {
    c.certificate_digest@ + optional_hash_bytes(c.checkpoint_used) + optional_lsn_bytes(c.first_lsn) + optional_lsn_bytes(
        c.last_lsn,
    ) + tail_posture_bytes(c.tail_posture) + c.recovered_frontier_root@ + c.recovered_indexes_root@
}

fn root_payload(root: &WalRoot) -> (r: Vec<u8>)
    ensures
        r@ == root_payload_spec(*root),
{
    let mut out: Vec<u8> = Vec::new();
    push_hash(&mut out, &root.root_digest);
    push_sorted_hashes(&mut out, writer_epoch_identities(&root.writer_epochs));
    push_sorted_hashes(&mut out, segment_identities(&root.segments));
    push_optional_hash(&mut out, certificate_identity_opt(&root.recovery_certificate));
    assert(out@ =~= root_payload_spec(*root));
    out
}

fn writer_epoch_payload(e: &WalWriterEpoch) -> (r: Vec<u8>)
    ensures
        r@ == writer_epoch_payload_spec(*e),
{
    let mut out: Vec<u8> = Vec::new();
    push_hash(&mut out, &e.epoch_id.0);
    push_hash(&mut out, &e.storage_fencing_token);
    push_hash(&mut out, &e.process_identity);
    push_hash(&mut out, &e.host_identity);
    push_u64_le(&mut out, e.started_at_lsn.0);
    push_optional_epoch(&mut out, e.previous_epoch_id);
    push_optional_hash(&mut out, e.previous_epoch_final_commit_digest);
    push_hash(&mut out, &e.lease_or_lock_evidence);
    assert(out@ =~= writer_epoch_payload_spec(*e));
    out
}

/// Identity digests of the anchors, in their order.
fn anchor_identities(v: &Vec<WalCommitAnchor>) -> (r: Vec<[u8; 32]>)
    ensures
        r@ == v@.map_values(|a: WalCommitAnchor| commit_anchor_identity(a)),
{
    let mut r: Vec<[u8; 32]> = Vec::new();
    let mut i: usize = 0;
    while i < v.len()
        invariant
            i <= v@.len(),
            r@ == v@.take(i as int).map_values(|a: WalCommitAnchor| commit_anchor_identity(a)),
        decreases v.len() - i,
    {
        r.push(v[i].identity_digest());
        i += 1;
        assert(r@ =~= v@.take(i as int).map_values(|a: WalCommitAnchor| commit_anchor_identity(a)));
    }
    assert(v@.take(v@.len() as int) =~= v@);
    r
}

fn segment_payload(s: &WalSegmentRef) -> (r: Vec<u8>)
    ensures
        r@ == segment_payload_spec(*s),
{
    let mut out: Vec<u8> = Vec::new();
    push_hash(&mut out, &s.writer_epoch.0);
    push_u64_le(&mut out, s.segment_id.0);
    push_u64_le(&mut out, s.first_lsn.0);
    push_u64_le(&mut out, s.last_lsn.0);
    push_hash(&mut out, &s.previous_commit_digest);
    push_hash(&mut out, &s.final_commit_digest);
    push_hash(&mut out, &s.segment_digest);
    push_sorted_hashes(&mut out, anchor_identities(&s.commit_anchors));
    push_seal_posture(&mut out, s.seal_posture);
    assert(out@ =~= segment_payload_spec(*s));
    out
}

fn commit_anchor_payload(a: &WalCommitAnchor) -> (r: Vec<u8>)
    ensures
        r@ == commit_anchor_payload_spec(*a),
{
    let mut out: Vec<u8> = Vec::new();
    push_hash(&mut out, &a.transaction_id.0);
    push_hash(&mut out, &a.commit_digest);
    push_u64_le(&mut out, a.first_lsn.0);
    push_u64_le(&mut out, a.last_lsn.0);
    push_u64_le(&mut out, a.record_count);
    assert(out@ =~= commit_anchor_payload_spec(*a));
    out
}

fn certificate_payload(c: &RecoveryCertificateRef) -> (r: Vec<u8>)
    ensures
        r@ == certificate_payload_spec(*c),
{
    let mut out: Vec<u8> = Vec::new();
    push_hash(&mut out, &c.certificate_digest);
    push_optional_hash(&mut out, c.checkpoint_used);
    push_optional_lsn(&mut out, c.first_lsn);
    push_optional_lsn(&mut out, c.last_lsn);
    push_tail_posture(&mut out, c.tail_posture);
    push_hash(&mut out, &c.recovered_frontier_root);
    push_hash(&mut out, &c.recovered_indexes_root);
    assert(out@ =~= certificate_payload_spec(*c));
    out
}

/// Role labels of the fact nodes and edges.
pub const ROLE_ROOT: &'static str = "root";
pub const ROLE_WRITER_EPOCH: &'static str = "writer_epoch";
pub const ROLE_SEGMENT: &'static str = "segment";
pub const ROLE_COMMIT_ANCHOR: &'static str = "commit_anchor";
pub const ROLE_RECOVERY_CERTIFICATE: &'static str = "recovery_certificate";
pub const ROLE_ROOT_WRITER_EPOCH: &'static str = "root_writer_epoch";
pub const ROLE_ROOT_SEGMENT: &'static str = "root_segment";
pub const ROLE_ROOT_COMMIT_ANCHOR: &'static str = "root_commit_anchor";
pub const ROLE_SEGMENT_COMMIT_ANCHOR: &'static str = "segment_commit_anchor";
pub const ROLE_ROOT_RECOVERY_CERTIFICATE: &'static str = "root_recovery_certificate";

/// Node id of the root fact.
pub open spec fn root_node_spec(root: WalRoot) -> NodeId {
    node_id_spec(ROLE_ROOT, root_identity(root))
}

pub open spec fn root_fact(root: WalRoot) -> FactView {
    (root_node_spec(root), type_id_of(WAL_PROJECTION_GRAPH_ROOT_NODE_TYPE), type_id_of(
        WAL_PROJECTION_GRAPH_ROOT_ATTACHMENT_TYPE,
    ), root_payload_spec(root))
}

pub open spec fn epoch_fact(e: WalWriterEpoch) -> FactView {
    (node_id_spec(ROLE_WRITER_EPOCH, writer_epoch_identity(e)), type_id_of(WAL_PROJECTION_GRAPH_WRITER_EPOCH_NODE_TYPE),
    type_id_of(WAL_PROJECTION_GRAPH_WRITER_EPOCH_ATTACHMENT_TYPE), writer_epoch_payload_spec(e))
}

pub open spec fn segment_fact(s: WalSegmentRef) -> FactView {
    (node_id_spec(ROLE_SEGMENT, segment_identity(s)), type_id_of(WAL_PROJECTION_GRAPH_SEGMENT_NODE_TYPE), type_id_of(
        WAL_PROJECTION_GRAPH_SEGMENT_ATTACHMENT_TYPE,
    ), segment_payload_spec(s))
}

pub open spec fn anchor_fact(a: WalCommitAnchor) -> FactView {
    (node_id_spec(ROLE_COMMIT_ANCHOR, commit_anchor_identity(a)), type_id_of(
        WAL_PROJECTION_GRAPH_COMMIT_ANCHOR_NODE_TYPE,
    ), type_id_of(WAL_PROJECTION_GRAPH_COMMIT_ANCHOR_ATTACHMENT_TYPE), commit_anchor_payload_spec(a))
}

pub open spec fn certificate_fact(c: RecoveryCertificateRef) -> FactView {
    (node_id_spec(ROLE_RECOVERY_CERTIFICATE, certificate_ref_identity(c)), type_id_of(
        WAL_PROJECTION_GRAPH_RECOVERY_CERTIFICATE_NODE_TYPE,
    ), type_id_of(WAL_PROJECTION_GRAPH_RECOVERY_CERTIFICATE_ATTACHMENT_TYPE), certificate_payload_spec(c))
}

/// Anchors of a segment, ordered stably by identity digest.
pub open spec fn anchor_order(s: WalSegmentRef) -> Seq<DigestSlot> {
    digest_order(s.commit_anchors@.map_values(|a: WalCommitAnchor| commit_anchor_identity(a)))
}

/// Facts of one segment: the segment, then its anchors in order.
#[verifier::opaque]
pub open spec fn segment_block_facts(s: WalSegmentRef) -> Seq<FactView> {
    seq![segment_fact(s)] + anchor_order(s).map_values(|slot: DigestSlot| anchor_fact(s.commit_anchors@[slot.index as int]))
}

/// Edges of one anchor: from the root, then from its segment.
pub open spec fn anchor_edges(order: Seq<DigestSlot>, root_id: NodeId, seg_id: NodeId) -> Seq<WalProjectionEdge>
    decreases order.len(),
{
    if order.len() == 0 {
        Seq::empty()
    } else {
        let aid = node_id_spec(ROLE_COMMIT_ANCHOR, order.last().digest);
        anchor_edges(order.drop_last(), root_id, seg_id) + seq![
            edge_spec(ROLE_ROOT_COMMIT_ANCHOR, root_id, aid, WAL_PROJECTION_GRAPH_ROOT_COMMIT_ANCHOR_EDGE_TYPE),
            edge_spec(ROLE_SEGMENT_COMMIT_ANCHOR, seg_id, aid, WAL_PROJECTION_GRAPH_SEGMENT_COMMIT_ANCHOR_EDGE_TYPE),
        ]
    }
}

/// Edges of one segment: from the root, then those of its anchors.
#[verifier::opaque]
pub open spec fn segment_block_edges(s: WalSegmentRef, root_id: NodeId) -> Seq<WalProjectionEdge> {
    let sid = node_id_spec(ROLE_SEGMENT, segment_identity(s));
    seq![edge_spec(ROLE_ROOT_SEGMENT, root_id, sid, WAL_PROJECTION_GRAPH_SEGMENT_EDGE_TYPE)] + anchor_edges(
        anchor_order(s),
        root_id,
        sid,
    )
}

/// Facts of the segments, visited in the given order.
pub open spec fn segments_facts(segs: Seq<WalSegmentRef>, order: Seq<DigestSlot>) -> Seq<FactView>
    decreases order.len(),
{
    if order.len() == 0 {
        Seq::empty()
    } else {
        segments_facts(segs, order.drop_last()) + segment_block_facts(segs[order.last().index as int])
    }
}

/// Edges of the segments, visited in the given order.
pub open spec fn segments_edges(segs: Seq<WalSegmentRef>, order: Seq<DigestSlot>, root_id: NodeId) -> Seq<
    WalProjectionEdge,
>
    decreases order.len(),
{
    if order.len() == 0 {
        Seq::empty()
    } else {
        segments_edges(segs, order.drop_last(), root_id) + segment_block_edges(segs[order.last().index as int], root_id)
    }
}

/// Writer epochs ordered stably by identity digest.
pub open spec fn epoch_order(root: WalRoot) -> Seq<DigestSlot> {
    digest_order(root.writer_epochs@.map_values(|e: WalWriterEpoch| writer_epoch_identity(e)))
}

/// Segments ordered stably by identity digest.
pub open spec fn segment_order(root: WalRoot) -> Seq<DigestSlot> {
    digest_order(root.segments@.map_values(|s: WalSegmentRef| segment_identity(s)))
}

/// Fact nodes in insertion order: the root, the writer epochs, each segment
/// with its anchors, then the certificate reference.
pub open spec fn graph_facts(root: WalRoot) -> Seq<FactView> {
    seq![root_fact(root)] + epochs_facts(root, epoch_order(root)) + segments_facts(root.segments@, segment_order(root)) + match root.recovery_certificate {
        Some(c) => seq![certificate_fact(c)],
        None => Seq::empty(),
    }
}

/// Edges in insertion order, matching the facts.
pub open spec fn graph_edges(root: WalRoot) -> Seq<WalProjectionEdge> {
    let rid = root_node_spec(root);
    epochs_edges(epoch_order(root), rid) + segments_edges(root.segments@, segment_order(root), rid) + match root.recovery_certificate {
        Some(c) => seq![
            edge_spec(
                ROLE_ROOT_RECOVERY_CERTIFICATE,
                rid,
                node_id_spec(ROLE_RECOVERY_CERTIFICATE, certificate_ref_identity(c)),
                WAL_PROJECTION_GRAPH_RECOVERY_CERTIFICATE_EDGE_TYPE,
            ),
        ],
        None => Seq::empty(),
    }
}

/// Views of the fact nodes.
pub open spec fn facts_view(v: Seq<WalProjectionFactNode>) -> Seq<FactView> {
    v.map_values(|n: WalProjectionFactNode| fact_view(n))
}

fn push_fact(nodes: &mut Vec<WalProjectionFactNode>, node_id: NodeId, node_type: &str, attachment_type: &str, payload: Vec<u8>)
    ensures
        facts_view(final(nodes)@) == facts_view(old(nodes)@).push(
            (node_id, type_id_of(node_type), type_id_of(attachment_type), payload@),
        ),
{
    let ghost before = nodes@;
    let n = WalProjectionFactNode {
        node_id,
        node_type: type_id(node_type),
        attachment_type: type_id(attachment_type),
        payload,
    };
    nodes.push(n);
    assert(facts_view(nodes@) =~= facts_view(before).push(fact_view(n)));
}

#[verifier::rlimit(60)]
#[verifier::spinoff_prover]
fn materialize_segment(
    s: &WalSegmentRef,
    root_id: NodeId,
    nodes: &mut Vec<WalProjectionFactNode>,
    edges: &mut Vec<WalProjectionEdge>,
)
    ensures
        facts_view(final(nodes)@) == facts_view(old(nodes)@) + segment_block_facts(*s),
        final(edges)@ == old(edges)@ + segment_block_edges(*s, root_id),
{
    let ghost nodes0 = facts_view(nodes@);
    let ghost edges0 = edges@;
    let sd = s.identity_digest();
    let seg_id = node_id_for(ROLE_SEGMENT, &sd);
    push_fact(
        nodes,
        seg_id,
        WAL_PROJECTION_GRAPH_SEGMENT_NODE_TYPE,
        WAL_PROJECTION_GRAPH_SEGMENT_ATTACHMENT_TYPE,
        segment_payload(s),
    );
    edges.push(edge_for(ROLE_ROOT_SEGMENT, root_id, seg_id, WAL_PROJECTION_GRAPH_SEGMENT_EDGE_TYPE));
    let ids = anchor_identities(&s.commit_anchors);
    let order = sorted_slots(&ids);
    let ghost nodes1 = facts_view(nodes@);
    let ghost edges1 = edges@;
    let mut i: usize = 0;
    while i < order.len()
        invariant
            i <= order@.len(),
            order@ == anchor_order(*s),
            slots_valid(order@, ids@),
            ids@ == s.commit_anchors@.map_values(|a: WalCommitAnchor| commit_anchor_identity(a)),
            seg_id == node_id_spec(ROLE_SEGMENT, segment_identity(*s)),
            facts_view(nodes@) == nodes1 + order@.take(i as int).map_values(
                |slot: DigestSlot| anchor_fact(s.commit_anchors@[slot.index as int]),
            ),
            edges@ == edges1 + anchor_edges(order@.take(i as int), root_id, seg_id),
        decreases order.len() - i,
    {
        let slot = order[i];
        proof {
            assert(order@[i as int] == slot);
            assert(ids@[slot.index as int] == slot.digest);
            assert(ids@[slot.index as int] == commit_anchor_identity(s.commit_anchors@[slot.index as int]));
        }
        let idx = slot.index as usize;
        let _n = s.commit_anchors.len();
        assert(idx as int == slot.index as int);
        let a = &s.commit_anchors[idx];
        let ad = a.identity_digest();
        let aid = node_id_for(ROLE_COMMIT_ANCHOR, &ad);
        push_fact(
            nodes,
            aid,
            WAL_PROJECTION_GRAPH_COMMIT_ANCHOR_NODE_TYPE,
            WAL_PROJECTION_GRAPH_COMMIT_ANCHOR_ATTACHMENT_TYPE,
            commit_anchor_payload(a),
        );
        edges.push(edge_for(ROLE_ROOT_COMMIT_ANCHOR, root_id, aid, WAL_PROJECTION_GRAPH_ROOT_COMMIT_ANCHOR_EDGE_TYPE));
        edges.push(edge_for(ROLE_SEGMENT_COMMIT_ANCHOR, seg_id, aid, WAL_PROJECTION_GRAPH_SEGMENT_COMMIT_ANCHOR_EDGE_TYPE));
        proof {
            assert(order@.take(i + 1).drop_last() =~= order@.take(i as int));
            assert(order@.take(i + 1) =~= order@.take(i as int).push(slot));
            assert(slot.digest == ad);
        }
        i += 1;
        assert(facts_view(nodes@) =~= nodes1 + order@.take(i as int).map_values(
            |slot: DigestSlot| anchor_fact(s.commit_anchors@[slot.index as int]),
        ));
        assert(edges@ =~= edges1 + anchor_edges(order@.take(i as int), root_id, seg_id));
    }
    assert(order@.take(order@.len() as int) =~= order@);
    reveal(segment_block_facts);
    reveal(segment_block_edges);
    assert(facts_view(nodes@) =~= nodes0 + segment_block_facts(*s));
    assert(edges@ =~= edges0 + segment_block_edges(*s, root_id));
}

/// Epoch facts and edges, in epoch order.
pub open spec fn epochs_facts(root: WalRoot, order: Seq<DigestSlot>) -> Seq<FactView> {
    order.map_values(|slot: DigestSlot| epoch_fact(root.writer_epochs@[slot.index as int]))
}

pub open spec fn epochs_edges(order: Seq<DigestSlot>, rid: NodeId) -> Seq<WalProjectionEdge> {
    order.map_values(
        |slot: DigestSlot|
            edge_spec(
                ROLE_ROOT_WRITER_EPOCH,
                rid,
                node_id_spec(ROLE_WRITER_EPOCH, slot.digest),
                WAL_PROJECTION_GRAPH_WRITER_EPOCH_EDGE_TYPE,
            ),
    )
}

#[verifier::rlimit(40)]
#[verifier::spinoff_prover]
fn materialize_epochs(
    root: &WalRoot,
    root_id: NodeId,
    nodes: &mut Vec<WalProjectionFactNode>,
    edges: &mut Vec<WalProjectionEdge>,
)
    ensures
        facts_view(final(nodes)@) == facts_view(old(nodes)@) + epochs_facts(*root, epoch_order(*root)),
        final(edges)@ == old(edges)@ + epochs_edges(epoch_order(*root), root_id),
{
    let ghost nodes0 = facts_view(nodes@);
    let ghost edges0 = edges@;
    let eids = writer_epoch_identities(&root.writer_epochs);
    let eorder = sorted_slots(&eids);
    let mut i: usize = 0;
    while i < eorder.len()
        invariant
            i <= eorder@.len(),
            eorder@ == epoch_order(*root),
            slots_valid(eorder@, eids@),
            eids@ == root.writer_epochs@.map_values(|e: WalWriterEpoch| writer_epoch_identity(e)),
            facts_view(nodes@) == nodes0 + epochs_facts(*root, eorder@.take(i as int)),
            edges@ == edges0 + epochs_edges(eorder@.take(i as int), root_id),
        decreases eorder.len() - i,
    {
        let slot = eorder[i];
        proof {
            assert(eorder@[i as int] == slot);
            assert(eids@[slot.index as int] == slot.digest);
            assert(eids@[slot.index as int] == writer_epoch_identity(root.writer_epochs@[slot.index as int]));
        }
        let e = &root.writer_epochs[slot.index as usize];
        let ed = e.identity_digest();
        let nid = node_id_for(ROLE_WRITER_EPOCH, &ed);
        push_fact(
            nodes,
            nid,
            WAL_PROJECTION_GRAPH_WRITER_EPOCH_NODE_TYPE,
            WAL_PROJECTION_GRAPH_WRITER_EPOCH_ATTACHMENT_TYPE,
            writer_epoch_payload(e),
        );
        edges.push(edge_for(ROLE_ROOT_WRITER_EPOCH, root_id, nid, WAL_PROJECTION_GRAPH_WRITER_EPOCH_EDGE_TYPE));
        proof {
            assert(slot.digest == ed);
            assert(eorder@.take(i + 1) =~= eorder@.take(i as int).push(slot));
        }
        i += 1;
        assert(facts_view(nodes@) =~= nodes0 + epochs_facts(*root, eorder@.take(i as int)));
        assert(edges@ =~= edges0 + epochs_edges(eorder@.take(i as int), root_id));
    }
    assert(eorder@.take(eorder@.len() as int) =~= eorder@);
}

#[verifier::rlimit(40)]
#[verifier::spinoff_prover]
fn materialize_segments(
    root: &WalRoot,
    root_id: NodeId,
    nodes: &mut Vec<WalProjectionFactNode>,
    edges: &mut Vec<WalProjectionEdge>,
)
    ensures
        facts_view(final(nodes)@) == facts_view(old(nodes)@) + segments_facts(root.segments@, segment_order(*root)),
        final(edges)@ == old(edges)@ + segments_edges(root.segments@, segment_order(*root), root_id),
{
    let ghost nodes1 = facts_view(nodes@);
    let ghost edges1 = edges@;
    let sids = segment_identities(&root.segments);
    let sorder = sorted_slots(&sids);
    let mut j: usize = 0;
    while j < sorder.len()
        invariant
            j <= sorder@.len(),
            sorder@ == segment_order(*root),
            slots_valid(sorder@, sids@),
            sids@ == root.segments@.map_values(|s: WalSegmentRef| segment_identity(s)),
            facts_view(nodes@) == nodes1 + segments_facts(root.segments@, sorder@.take(j as int)),
            edges@ == edges1 + segments_edges(root.segments@, sorder@.take(j as int), root_id),
        decreases sorder.len() - j,
    {
        let slot = sorder[j];
        proof {
            assert(sorder@[j as int] == slot);
            assert(slot.index < sids@.len());
            assert(sorder@.take(j + 1).drop_last() =~= sorder@.take(j as int));
        }
        let ghost before_nodes = facts_view(nodes@);
        let ghost before_edges = edges@;
        let idx = slot.index as usize;
        let _n = root.segments.len();
        assert(idx as int == slot.index as int);
        materialize_segment(&root.segments[idx], root_id, nodes, edges);
        proof {
            let t = sorder@.take(j + 1);
            assert(facts_view(nodes@) == before_nodes + segment_block_facts(root.segments@[slot.index as int]));
            assert(edges@ == before_edges + segment_block_edges(root.segments@[slot.index as int], root_id));
            assert(t.last() == slot);
            assert(t.drop_last() =~= sorder@.take(j as int));
            assert(segments_facts(root.segments@, t) == segments_facts(root.segments@, sorder@.take(j as int))
                + segment_block_facts(root.segments@[slot.index as int]));
            assert(segments_edges(root.segments@, t, root_id) == segments_edges(
                root.segments@,
                sorder@.take(j as int),
                root_id,
            ) + segment_block_edges(root.segments@[slot.index as int], root_id));
            assert(facts_view(nodes@) =~= nodes1 + segments_facts(root.segments@, t));
            assert(edges@ =~= edges1 + segments_edges(root.segments@, t, root_id));
        }
        j += 1;
    }
    assert(sorder@.take(sorder@.len() as int) =~= sorder@);
}

/// Materializes a projected WAL root into deterministic graph facts: the
/// root, its writer epochs, its segments each followed by their commit
/// anchors, and its certificate reference, each in identity-digest order,
/// with typed edges from the root (and from each segment to its anchors).
/// Locators stay out of the fact bytes.
#[verifier::rlimit(40)]
#[verifier::spinoff_prover]
pub fn materialize_wal_projection_graph(root: &WalRoot) -> (r: WalProjectionGraph)
    ensures
        r.root_node_id == root_node_spec(*root),
        facts_view(r.nodes@) == graph_facts(*root),
        r.edges@ == graph_edges(*root),
{
    let mut nodes: Vec<WalProjectionFactNode> = Vec::new();
    let mut edges: Vec<WalProjectionEdge> = Vec::new();
    let rd = root.identity_digest();
    let root_id = node_id_for(ROLE_ROOT, &rd);
    push_fact(
        &mut nodes,
        root_id,
        WAL_PROJECTION_GRAPH_ROOT_NODE_TYPE,
        WAL_PROJECTION_GRAPH_ROOT_ATTACHMENT_TYPE,
        root_payload(root),
    );
    materialize_epochs(root, root_id, &mut nodes, &mut edges);
    materialize_segments(root, root_id, &mut nodes, &mut edges);
    let ghost nodes2 = facts_view(nodes@);
    let ghost edges2 = edges@;
    match &root.recovery_certificate {
        Some(c) => {
            let cd = c.identity_digest();
            let cid = node_id_for(ROLE_RECOVERY_CERTIFICATE, &cd);
            push_fact(
                &mut nodes,
                cid,
                WAL_PROJECTION_GRAPH_RECOVERY_CERTIFICATE_NODE_TYPE,
                WAL_PROJECTION_GRAPH_RECOVERY_CERTIFICATE_ATTACHMENT_TYPE,
                certificate_payload(c),
            );
            edges.push(
                edge_for(ROLE_ROOT_RECOVERY_CERTIFICATE, root_id, cid, WAL_PROJECTION_GRAPH_RECOVERY_CERTIFICATE_EDGE_TYPE),
            );
        },
        None => {},
    }
    assert(facts_view(nodes@) =~= graph_facts(*root));
    assert(edges@ =~= graph_edges(*root));
    WalProjectionGraph { nodes, edges, root_node_id: root_id }
}

/// The root node of a projection graph does not depend on the order of the
/// writer epochs or of the segments, nor on what a segment's identity leaves
/// out (its storage locator): roots with the same digest, certificate, writer
/// epochs and segment identities, in any order, name the same root node and
/// carry the same root fact bytes.
pub proof fn lemma_root_node_ignores_arrangement(r1: WalRoot, r2: WalRoot)
    requires
        r1.root_digest == r2.root_digest,
        r1.recovery_certificate == r2.recovery_certificate,
        r1.writer_epochs@.to_multiset() == r2.writer_epochs@.to_multiset(),
        r1.segments@.map_values(|s: WalSegmentRef| segment_identity(s)).to_multiset() == r2.segments@.map_values(
            |s: WalSegmentRef| segment_identity(s),
        ).to_multiset(),
    ensures
        root_node_spec(r1) == root_node_spec(r2),
        root_payload_spec(r1) == root_payload_spec(r2),
{
    broadcast use vstd::seq_lib::group_to_multiset_ensures;
    let fe = |e: WalWriterEpoch| writer_epoch_identity(e);
    let e1 = r1.writer_epochs@.map_values(fe);
    let e2 = r2.writer_epochs@.map_values(fe);
    lemma_map_values_permutation(r1.writer_epochs@, r2.writer_epochs@, fe);
    lemma_sort_canonical_permutation_invariant(e1, e2);
    assert(e1.len() == e1.to_multiset().len());
    assert(e2.len() == e2.to_multiset().len());
    let s1 = r1.segments@.map_values(|s: WalSegmentRef| segment_identity(s));
    let s2 = r2.segments@.map_values(|s: WalSegmentRef| segment_identity(s));
    lemma_sort_canonical_permutation_invariant(s1, s2);
    assert(s1.len() == s1.to_multiset().len());
    assert(s2.len() == s2.to_multiset().len());
    assert(root_identity_input(r1) =~= root_identity_input(r2));
    assert(root_payload_spec(r1) =~= root_payload_spec(r2));
}

proof fn lemma_lex_le_prefix(a: Seq<u8>, x: Seq<u8>, b: Seq<u8>, y: Seq<u8>)
    requires
        a.len() == b.len(),
        lex_le(a + x, b + y),
    ensures
        lex_le(a, b),
    decreases a.len(),
{
    if a.len() > 0 {
        assert((a + x)[0] == a[0]);
        assert((b + y)[0] == b[0]);
        if a[0] == b[0] {
            assert((a + x).drop_first() =~= a.drop_first() + x);
            assert((b + y).drop_first() =~= b.drop_first() + y);
            lemma_lex_le_prefix(a.drop_first(), x, b.drop_first(), y);
        }
    }
}

/// Elements named consistently by an identity digest: equal digests, equal elements.
pub open spec fn identity_consistent<T>(xs: Seq<T>, id: spec_fn(T) -> [u8; 32]) -> bool {
    forall|i: int, j: int| 0 <= i < xs.len() && 0 <= j < xs.len() && id(#[trigger] xs[i]) == id(#[trigger] xs[j]) ==> xs[i] == xs[j]
}

/// The digests of the ordered slots: sorted, and a permutation of the digests.
proof fn lemma_digest_order_digests(ds: Seq<[u8; 32]>)
    requires
        ds.len() <= u64::MAX,
    ensures
        digest_order(ds).len() == ds.len(),
        forall|k: int| 0 <= k < digest_order(ds).len() ==> (#[trigger] digest_order(ds)[k]).index < ds.len()
            && ds[digest_order(ds)[k].index as int] == digest_order(ds)[k].digest,
        digest_order(ds).map_values(|s: DigestSlot| s.digest).to_multiset() == ds.to_multiset(),
        forall|i: int, j: int| 0 <= i < j < digest_order(ds).len() ==> key_le(
            (#[trigger] digest_order(ds)[i]).digest,
            (#[trigger] digest_order(ds)[j]).digest,
        ),
{
    broadcast use vstd::seq_lib::group_to_multiset_ensures;
    let o = digest_order(ds);
    let sl = slots_of(ds);
    lemma_sort_by_key_spec(sl);
    assert(o.len() == sl.len()) by {
        assert(o.to_multiset().len() == sl.to_multiset().len());
    }
    assert forall|k: int| 0 <= k < o.len() implies (#[trigger] o[k]).index < ds.len() && ds[o[k].index as int] == o[k].digest by {
        assert(o.to_multiset().count(o[k]) > 0);
        assert(sl.contains(o[k]));
        let i = choose|i: int| 0 <= i < sl.len() && sl[i] == o[k];
        assert(sl[i].index == i as u64);
    }
    lemma_map_values_permutation(o, sl, |s: DigestSlot| s.digest);
    assert(sl.map_values(|s: DigestSlot| s.digest) =~= ds);
    assert forall|i: int, j: int| 0 <= i < j < o.len() implies key_le((#[trigger] o[i]).digest, (#[trigger] o[j]).digest) by {
        assert(lex_le(o[i].key(), o[j].key()));
        lemma_lex_le_prefix(o[i].digest@, be8(o[i].index), o[j].digest@, be8(o[j].index));
    }
}

/// Ordering two arrangements of consistently named elements by digest visits
/// the same digests and the same elements, position by position.
proof fn lemma_digest_order_arrangement<T>(xs1: Seq<T>, xs2: Seq<T>, id: spec_fn(T) -> [u8; 32])
    requires
        xs1.to_multiset() == xs2.to_multiset(),
        identity_consistent(xs1, id),
        xs1.len() <= u64::MAX,
    ensures
        digest_order(xs1.map_values(id)).len() == digest_order(xs2.map_values(id)).len(),
        forall|k: int| 0 <= k < digest_order(xs1.map_values(id)).len() ==> (#[trigger] digest_order(xs1.map_values(id))[k]).digest
            == digest_order(xs2.map_values(id))[k].digest && xs1[digest_order(xs1.map_values(id))[k].index as int]
            == xs2[digest_order(xs2.map_values(id))[k].index as int],
{
    broadcast use vstd::seq_lib::group_to_multiset_ensures;
    let ds1 = xs1.map_values(id);
    let ds2 = xs2.map_values(id);
    let o1 = digest_order(ds1);
    let o2 = digest_order(ds2);
    xs1.to_multiset_ensures();
    xs2.to_multiset_ensures();
    assert(xs1.len() == xs2.len());
    lemma_map_values_permutation(xs1, xs2, id);
    lemma_digest_order_digests(ds1);
    lemma_digest_order_digests(ds2);
    let d1 = o1.map_values(|s: DigestSlot| s.digest);
    let d2 = o2.map_values(|s: DigestSlot| s.digest);
    lemma_key_le_total_ordering::<[u8; 32]>();
    let leq = |a: [u8; 32], b: [u8; 32]| key_le(a, b);
    assert(vstd::relations::sorted_by(d1, leq)) by {
        assert forall|i: int, j: int| 0 <= i < j < d1.len() implies leq(d1[i], d1[j]) by {
            assert(key_le(o1[i].digest, o1[j].digest));
        }
    }
    assert(vstd::relations::sorted_by(d2, leq)) by {
        assert forall|i: int, j: int| 0 <= i < j < d2.len() implies leq(d2[i], d2[j]) by {
            assert(key_le(o2[i].digest, o2[j].digest));
        }
    }
    vstd::seq_lib::lemma_sorted_unique(d1, d2, leq);
    assert forall|k: int| 0 <= k < o1.len() implies (#[trigger] o1[k]).digest == o2[k].digest && xs1[o1[k].index as int]
        == xs2[o2[k].index as int] by {
        assert(d1[k] == d2[k]);
        let i1 = o1[k].index as int;
        let i2 = o2[k].index as int;
        assert(ds1[i1] == id(xs1[i1]));
        assert(ds2[i2] == id(xs2[i2]));
        let e = xs2[i2];
        assert(xs2.to_multiset().count(e) > 0);
        assert(xs1.contains(e));
        let j = choose|j: int| 0 <= j < xs1.len() && xs1[j] == e;
        assert(id(xs1[j]) == id(xs1[i1]));
    }
}

proof fn lemma_segments_blocks_equal(
    s1: Seq<WalSegmentRef>,
    o1: Seq<DigestSlot>,
    s2: Seq<WalSegmentRef>,
    o2: Seq<DigestSlot>,
    rid: NodeId,
)
    requires
        o1.len() == o2.len(),
        forall|k: int| 0 <= k < o1.len() ==> s1[(#[trigger] o1[k]).index as int] == s2[o2[k].index as int],
    ensures
        segments_facts(s1, o1) == segments_facts(s2, o2),
        segments_edges(s1, o1, rid) == segments_edges(s2, o2, rid),
    decreases o1.len(),
{
    if o1.len() > 0 {
        assert forall|k: int| 0 <= k < o1.drop_last().len() implies s1[(#[trigger] o1.drop_last()[k]).index as int]
            == s2[o2.drop_last()[k].index as int] by {
            assert(o1.drop_last()[k] == o1[k]);
            assert(o2.drop_last()[k] == o2[k]);
        }
        lemma_segments_blocks_equal(s1, o1.drop_last(), s2, o2.drop_last(), rid);
        assert(s1[o1[o1.len() - 1].index as int] == s2[o2[o2.len() - 1].index as int]);
    }
}

/// The projection graph does not depend on the order of the writer epochs or
/// of the segments: roots with the same digest and certificate and the same
/// epochs and segments in any order give the same root node, the same fact
/// nodes in the same order and the same edges. Elements are visited by
/// identity digest, so this holds where equal identity digests name equal
/// elements (as within one root they do unless two digests collide).
#[verifier::rlimit(80)]
#[verifier::spinoff_prover]
pub proof fn lemma_graph_ignores_arrangement(r1: WalRoot, r2: WalRoot)
    requires
        r1.root_digest == r2.root_digest,
        r1.recovery_certificate == r2.recovery_certificate,
        r1.writer_epochs@.to_multiset() == r2.writer_epochs@.to_multiset(),
        r1.segments@.to_multiset() == r2.segments@.to_multiset(),
        identity_consistent(r1.writer_epochs@, |e: WalWriterEpoch| writer_epoch_identity(e)),
        identity_consistent(r1.segments@, |s: WalSegmentRef| segment_identity(s)),
    ensures
        root_node_spec(r1) == root_node_spec(r2),
        graph_facts(r1) == graph_facts(r2),
        graph_edges(r1) == graph_edges(r2),
{
    let fe = |e: WalWriterEpoch| writer_epoch_identity(e);
    let fs = |s: WalSegmentRef| segment_identity(s);
    lemma_map_values_permutation(r1.segments@, r2.segments@, fs);
    lemma_root_node_ignores_arrangement(r1, r2);
    assert(r1.writer_epochs@.len() == r1.writer_epochs.len());
    assert(r1.segments@.len() == r1.segments.len());
    lemma_digest_order_arrangement(r1.writer_epochs@, r2.writer_epochs@, fe);
    lemma_digest_order_arrangement(r1.segments@, r2.segments@, fs);
    let oe1 = epoch_order(r1);
    let oe2 = epoch_order(r2);
    let os1 = segment_order(r1);
    let os2 = segment_order(r2);
    assert(epochs_facts(r1, oe1) =~= epochs_facts(r2, oe2)) by {
        assert forall|k: int| 0 <= k < oe1.len() implies epochs_facts(r1, oe1)[k] == epochs_facts(r2, oe2)[k] by {
            assert(r1.writer_epochs@[oe1[k].index as int] == r2.writer_epochs@[oe2[k].index as int]);
        }
    }
    let rid = root_node_spec(r1);
    assert(epochs_edges(oe1, rid) =~= epochs_edges(oe2, rid)) by {
        assert forall|k: int| 0 <= k < oe1.len() implies epochs_edges(oe1, rid)[k] == epochs_edges(oe2, rid)[k] by {
            assert(oe1[k].digest == oe2[k].digest);
        }
    }
    assert forall|k: int| 0 <= k < os1.len() implies r1.segments@[(#[trigger] os1[k]).index as int] == r2.segments@[
        os2[k].index as int] by {
        assert(r1.segments@[os1[k].index as int] == r2.segments@[os2[k].index as int]);
    }
    lemma_segments_blocks_equal(r1.segments@, os1, r2.segments@, os2, rid);
}

} // verus!
