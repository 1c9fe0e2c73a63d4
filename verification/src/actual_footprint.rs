//! Actual graph footprints observed during a guarded execution.
//!
//! A [`Footprint`] is a claim of what a rule intends to read and write; an
//! [`ActualFootprint`] is the accumulated record of what an execution actually
//! touched, as local ids within one instance. Holding both makes soundness
//! (`ActualRead ⊆ DeclaredRead`, `ActualWrite ⊆ DeclaredWrite`) a value.
use vstd::prelude::*;
use crate::attachment::{AttachmentKey, AttachmentOwner};
use crate::footprint::Footprint;
use crate::ident::{warp_eq, EdgeId, EdgeKey, NodeId, NodeKey, WarpId};
use crate::keyset::{canonical_order, lemma_canonical_order, lemma_keyset_canonical_unique, KeySet};

verus! {

/// A footprint violation: an access the declaration does not cover.
#[derive(Clone, Copy, Debug, PartialEq, Eq)]
pub enum ViolationKind {
    /// A node was read without a read declaration.
    NodeReadNotDeclared(NodeId),
    /// An edge was read without a read declaration.
    EdgeReadNotDeclared(EdgeId),
    /// An attachment was read without a read declaration.
    AttachmentReadNotDeclared(AttachmentKey),
    /// A node was written without a write declaration.
    NodeWriteNotDeclared(NodeId),
    /// An edge was written without a write declaration.
    EdgeWriteNotDeclared(EdgeId),
    /// An attachment was written without a write declaration.
    AttachmentWriteNotDeclared(AttachmentKey),
}

/// Graph resources an execution actually touched, as local ids within one
/// instance. Recording is additive and never fails.
#[derive(Debug, PartialEq, Eq)]
pub struct ActualFootprint {
    nodes_read: KeySet<NodeId>,
    edges_read: KeySet<EdgeId>,
    attachments_read: KeySet<AttachmentKey>,
    nodes_write: KeySet<NodeId>,
    edges_write: KeySet<EdgeId>,
    attachments_write: KeySet<AttachmentKey>,
}

/// The recorded sets: node, edge and attachment reads, then the writes.
pub struct ActualFootprintView {
    /// Nodes read.
    pub nodes_read: Set<NodeId>,
    /// Edges read.
    pub edges_read: Set<EdgeId>,
    /// Attachments read.
    pub attachments_read: Set<AttachmentKey>,
    /// Nodes written.
    pub nodes_write: Set<NodeId>,
    /// Edges written.
    pub edges_write: Set<EdgeId>,
    /// Attachments written.
    pub attachments_write: Set<AttachmentKey>,
}

impl View for ActualFootprint {
    type V = ActualFootprintView;

    closed spec fn view(&self) -> ActualFootprintView {
        ActualFootprintView {
            nodes_read: self.nodes_read@,
            edges_read: self.edges_read@,
            attachments_read: self.attachments_read@,
            nodes_write: self.nodes_write@,
            edges_write: self.edges_write@,
            attachments_write: self.attachments_write@,
        }
    }
}

/// The record after a node read of `id` is recorded.
pub open spec fn after_node_read(v: ActualFootprintView, id: NodeId) -> ActualFootprintView {
    ActualFootprintView { nodes_read: v.nodes_read.insert(id), ..v }
}

/// Instance owning an attachment slot.
pub open spec fn attachment_warp(k: AttachmentKey) -> WarpId {
    k.owner.warp_id_spec()
}

/// Violations of one node axis, in canonical order of the recorded ids.
pub open spec fn node_violations(ids: Seq<NodeId>, declared: Set<NodeKey>, w: WarpId, write: bool) -> Seq<ViolationKind>
    decreases ids.len(),
{
    if ids.len() == 0 {
        Seq::empty()
    } else {
        node_violations(ids.drop_last(), declared, w, write) + (if declared.contains(
            NodeKey { warp_id: w, local_id: ids.last() },
        ) {
            Seq::empty()
        } else if write {
            seq![ViolationKind::NodeWriteNotDeclared(ids.last())]
        } else {
            seq![ViolationKind::NodeReadNotDeclared(ids.last())]
        })
    }
}

/// Violations of one edge axis, in canonical order of the recorded ids.
pub open spec fn edge_violations(ids: Seq<EdgeId>, declared: Set<EdgeKey>, w: WarpId, write: bool) -> Seq<ViolationKind>
    decreases ids.len(),
{
    if ids.len() == 0 {
        Seq::empty()
    } else {
        edge_violations(ids.drop_last(), declared, w, write) + (if declared.contains(
            EdgeKey { warp_id: w, local_id: ids.last() },
        ) {
            Seq::empty()
        } else if write {
            seq![ViolationKind::EdgeWriteNotDeclared(ids.last())]
        } else {
            seq![ViolationKind::EdgeReadNotDeclared(ids.last())]
        })
    }
}

/// Violations of one attachment axis: keys of this instance that are declared
/// are covered; every other recorded key is a violation.
pub open spec fn attachment_violations(ks: Seq<AttachmentKey>, declared: Set<AttachmentKey>, w: WarpId, write: bool) -> Seq<ViolationKind>
    decreases ks.len(),
{
    if ks.len() == 0 {
        Seq::empty()
    } else {
        attachment_violations(ks.drop_last(), declared, w, write) + (if attachment_warp(ks.last()) == w
            && declared.contains(ks.last()) {
            Seq::empty()
        } else if write {
            seq![ViolationKind::AttachmentWriteNotDeclared(ks.last())]
        } else {
            seq![ViolationKind::AttachmentReadNotDeclared(ks.last())]
        })
    }
}

/// Every recorded node is declared in instance `w`.
pub open spec fn nodes_covered(ids: Set<NodeId>, declared: Set<NodeKey>, w: WarpId) -> bool {
    forall|id: NodeId| #[trigger] ids.contains(id) ==> declared.contains(NodeKey { warp_id: w, local_id: id })
}

/// Every recorded edge is declared in instance `w`.
pub open spec fn edges_covered(ids: Set<EdgeId>, declared: Set<EdgeKey>, w: WarpId) -> bool {
    forall|id: EdgeId| #[trigger] ids.contains(id) ==> declared.contains(EdgeKey { warp_id: w, local_id: id })
}

/// Every recorded attachment belongs to instance `w` and is declared.
pub open spec fn attachments_covered(ks: Set<AttachmentKey>, declared: Set<AttachmentKey>, w: WarpId) -> bool {
    forall|k: AttachmentKey| #[trigger] ks.contains(k) ==> attachment_warp(k) == w && declared.contains(k)
}

/// `Actual ⊆ Declared` on both axes for instance `w`.
pub open spec fn sound_under(a: ActualFootprintView, d: Footprint, w: WarpId) -> bool {
    &&& nodes_covered(a.nodes_read, d.n_read@, w)
    &&& edges_covered(a.edges_read, d.e_read@, w)
    &&& attachments_covered(a.attachments_read, d.a_read@, w)
    &&& nodes_covered(a.nodes_write, d.n_write@, w)
    &&& edges_covered(a.edges_write, d.e_write@, w)
    &&& attachments_covered(a.attachments_write, d.a_write@, w)
}

proof fn lemma_node_violations_empty(ids: Seq<NodeId>, declared: Set<NodeKey>, w: WarpId, write: bool)
    ensures
        (node_violations(ids, declared, w, write).len() == 0) <==> (forall|i: int| 0 <= i < ids.len()
            ==> declared.contains(NodeKey { warp_id: w, local_id: #[trigger] ids[i] })),
    decreases ids.len(),
{
    if ids.len() > 0 {
        let d = ids.drop_last();
        lemma_node_violations_empty(d, declared, w, write);
        if forall|i: int| 0 <= i < ids.len() ==> #[trigger] ids[i] == ids[i] && declared.contains(NodeKey { warp_id: w, local_id: ids[i] }) {
            assert forall|i: int| 0 <= i < d.len() implies declared.contains(NodeKey { warp_id: w, local_id: d[i] }) by {
                assert(d[i] == ids[i]);
            }
            assert(declared.contains(NodeKey { warp_id: w, local_id: ids.last() }));
        } else {
            let i = choose|i: int| 0 <= i < ids.len() && !(declared.contains(NodeKey { warp_id: w, local_id: ids[i] }));
            if i == ids.len() - 1 {
            } else {
                assert(d[i] == ids[i]);
            }
        }
    }
}

proof fn lemma_edge_violations_empty(ids: Seq<EdgeId>, declared: Set<EdgeKey>, w: WarpId, write: bool)
    ensures
        (edge_violations(ids, declared, w, write).len() == 0) <==> (forall|i: int| 0 <= i < ids.len()
            ==> declared.contains(EdgeKey { warp_id: w, local_id: #[trigger] ids[i] })),
    decreases ids.len(),
{
    if ids.len() > 0 {
        let d = ids.drop_last();
        lemma_edge_violations_empty(d, declared, w, write);
        if forall|i: int| 0 <= i < ids.len() ==> #[trigger] ids[i] == ids[i] && declared.contains(EdgeKey { warp_id: w, local_id: ids[i] }) {
            assert forall|i: int| 0 <= i < d.len() implies declared.contains(EdgeKey { warp_id: w, local_id: d[i] }) by {
                assert(d[i] == ids[i]);
            }
            assert(declared.contains(EdgeKey { warp_id: w, local_id: ids.last() }));
        } else {
            let i = choose|i: int| 0 <= i < ids.len() && !(declared.contains(EdgeKey { warp_id: w, local_id: ids[i] }));
            if i == ids.len() - 1 {
            } else {
                assert(d[i] == ids[i]);
            }
        }
    }
}

proof fn lemma_attachment_violations_empty(ks: Seq<AttachmentKey>, declared: Set<AttachmentKey>, w: WarpId, write: bool)
    ensures
        (attachment_violations(ks, declared, w, write).len() == 0) <==> (forall|i: int| 0 <= i < ks.len()
            ==> attachment_warp(#[trigger] ks[i]) == w && declared.contains(ks[i])),
    decreases ks.len(),
{
    if ks.len() > 0 {
        let d = ks.drop_last();
        lemma_attachment_violations_empty(d, declared, w, write);
        if forall|i: int| 0 <= i < ks.len() ==> #[trigger] ks[i] == ks[i] && attachment_warp(ks[i]) == w && declared.contains(ks[i]) {
            assert forall|i: int| 0 <= i < d.len() implies attachment_warp(d[i]) == w && declared.contains(d[i]) by {
                assert(d[i] == ks[i]);
            }
            assert(attachment_warp(ks.last()) == w && declared.contains(ks.last()));
        } else {
            let i = choose|i: int| 0 <= i < ks.len() && !(attachment_warp(ks[i]) == w && declared.contains(ks[i]));
            if i == ks.len() - 1 {
            } else {
                assert(d[i] == ks[i]);
            }
        }
    }
}

impl ActualFootprint {
    /// Every recorded set is canonical.
    pub closed spec fn wf(&self) -> bool {
        &&& self.nodes_read.wf() && self.edges_read.wf() && self.attachments_read.wf()
        &&& self.nodes_write.wf() && self.edges_write.wf() && self.attachments_write.wf()
    }

    /// Every violation of the record against `declared` for instance `w`,
    /// axis by axis (node, edge, attachment reads, then writes), each axis in
    /// canonical order.
    pub closed spec fn violations_spec(&self, declared: Footprint, w: WarpId) -> Seq<ViolationKind> {
        node_violations(self.nodes_read.canonical_seq(), declared.n_read@, w, false)
            + edge_violations(self.edges_read.canonical_seq(), declared.e_read@, w, false)
            + attachment_violations(self.attachments_read.canonical_seq(), declared.a_read@, w, false)
            + node_violations(self.nodes_write.canonical_seq(), declared.n_write@, w, true)
            + edge_violations(self.edges_write.canonical_seq(), declared.e_write@, w, true)
            + attachment_violations(self.attachments_write.canonical_seq(), declared.a_write@, w, true)
    }

    /// Creates an empty record.
    pub fn new() -> (r: Self)
        ensures
            r.wf(),
            r@.nodes_read == Set::<NodeId>::empty(),
            r@.edges_read == Set::<EdgeId>::empty(),
            r@.attachments_read == Set::<AttachmentKey>::empty(),
            r@.nodes_write == Set::<NodeId>::empty(),
            r@.edges_write == Set::<EdgeId>::empty(),
            r@.attachments_write == Set::<AttachmentKey>::empty(),
    {
        ActualFootprint {
            nodes_read: KeySet::new(),
            edges_read: KeySet::new(),
            attachments_read: KeySet::new(),
            nodes_write: KeySet::new(),
            edges_write: KeySet::new(),
            attachments_write: KeySet::new(),
        }
    }

    /// Returns `true` when nothing has been recorded.
    pub fn is_empty(&self) -> (r: bool)
        ensures
            r == (self@.nodes_read.is_empty() && self@.edges_read.is_empty() && self@.attachments_read.is_empty()
                && self@.nodes_write.is_empty() && self@.edges_write.is_empty() && self@.attachments_write.is_empty()),
    {
        let a = self.nodes_read.is_empty();
        let b = self.edges_read.is_empty();
        let c = self.attachments_read.is_empty();
        let d = self.nodes_write.is_empty();
        let e = self.edges_write.is_empty();
        let f = self.attachments_write.is_empty();
        proof {
            assert(a == self@.nodes_read.is_empty());
            assert(b == self@.edges_read.is_empty());
            assert(c == self@.attachments_read.is_empty());
            assert(d == self@.nodes_write.is_empty());
            assert(e == self@.edges_write.is_empty());
            assert(f == self@.attachments_write.is_empty());
        }
        a && b && c && d && e && f
    }

    /// Records an observed node read.
    pub fn record_node_read(&mut self, id: NodeId)
        requires
            old(self).wf(),
        ensures
            final(self).wf(),
            final(self)@ == after_node_read(old(self)@, id),
    {
        self.nodes_read.insert(id);
    }

    /// Records an observed edge read.
    pub fn record_edge_read(&mut self, id: EdgeId)
        requires
            old(self).wf(),
        ensures
            final(self).wf(),
            final(self)@ == (ActualFootprintView { edges_read: old(self)@.edges_read.insert(id), ..old(self)@ }),
    {
        self.edges_read.insert(id);
    }

    /// Records an observed attachment read.
    pub fn record_attachment_read(&mut self, key: AttachmentKey)
        requires
            old(self).wf(),
        ensures
            final(self).wf(),
            final(self)@ == (ActualFootprintView { attachments_read: old(self)@.attachments_read.insert(key), ..old(self)@ }),
    {
        self.attachments_read.insert(key);
    }

    /// Records an observed node write.
    pub fn record_node_write(&mut self, id: NodeId)
        requires
            old(self).wf(),
        ensures
            final(self).wf(),
            final(self)@ == (ActualFootprintView { nodes_write: old(self)@.nodes_write.insert(id), ..old(self)@ }),
    {
        self.nodes_write.insert(id);
    }

    /// Records an observed edge write.
    pub fn record_edge_write(&mut self, id: EdgeId)
        requires
            old(self).wf(),
        ensures
            final(self).wf(),
            final(self)@ == (ActualFootprintView { edges_write: old(self)@.edges_write.insert(id), ..old(self)@ }),
    {
        self.edges_write.insert(id);
    }

    /// Records an observed attachment write.
    pub fn record_attachment_write(&mut self, key: AttachmentKey)
        requires
            old(self).wf(),
        ensures
            final(self).wf(),
            final(self)@ == (ActualFootprintView { attachments_write: old(self)@.attachments_write.insert(key), ..old(self)@ }),
    {
        self.attachments_write.insert(key);
    }

    /// Recorded node reads in canonical order.
    pub fn nodes_read(&self) -> (r: &[NodeId])
        requires
            self.wf(),
        ensures
            r@.to_set() == self@.nodes_read,
            crate::order::strictly_sorted_by_key(r@),
            r@ == canonical_order(self@.nodes_read),
    {
        proof {
            self.nodes_read.lemma_canonical();
            lemma_canonical_order(self.nodes_read.canonical_seq(), self@.nodes_read);
        }
        self.nodes_read.as_slice()
    }

    /// Recorded edge reads in canonical order.
    pub fn edges_read(&self) -> (r: &[EdgeId])
        requires
            self.wf(),
        ensures
            r@.to_set() == self@.edges_read,
            crate::order::strictly_sorted_by_key(r@),
            r@ == canonical_order(self@.edges_read),
    {
        proof {
            self.edges_read.lemma_canonical();
            lemma_canonical_order(self.edges_read.canonical_seq(), self@.edges_read);
        }
        self.edges_read.as_slice()
    }

    /// Recorded attachment reads in canonical order.
    pub fn attachments_read(&self) -> (r: &[AttachmentKey])
        requires
            self.wf(),
        ensures
            r@.to_set() == self@.attachments_read,
            crate::order::strictly_sorted_by_key(r@),
            r@ == canonical_order(self@.attachments_read),
    {
        proof {
            self.attachments_read.lemma_canonical();
            lemma_canonical_order(self.attachments_read.canonical_seq(), self@.attachments_read);
        }
        self.attachments_read.as_slice()
    }

    /// Recorded node writes in canonical order.
    pub fn nodes_write(&self) -> (r: &[NodeId])
        requires
            self.wf(),
        ensures
            r@.to_set() == self@.nodes_write,
            crate::order::strictly_sorted_by_key(r@),
            r@ == canonical_order(self@.nodes_write),
    {
        proof {
            self.nodes_write.lemma_canonical();
            lemma_canonical_order(self.nodes_write.canonical_seq(), self@.nodes_write);
        }
        self.nodes_write.as_slice()
    }

    /// Recorded edge writes in canonical order.
    pub fn edges_write(&self) -> (r: &[EdgeId])
        requires
            self.wf(),
        ensures
            r@.to_set() == self@.edges_write,
            crate::order::strictly_sorted_by_key(r@),
            r@ == canonical_order(self@.edges_write),
    {
        proof {
            self.edges_write.lemma_canonical();
            lemma_canonical_order(self.edges_write.canonical_seq(), self@.edges_write);
        }
        self.edges_write.as_slice()
    }

    /// Recorded attachment writes in canonical order.
    pub fn attachments_write(&self) -> (r: &[AttachmentKey])
        requires
            self.wf(),
        ensures
            r@.to_set() == self@.attachments_write,
            crate::order::strictly_sorted_by_key(r@),
            r@ == canonical_order(self@.attachments_write),
    {
        proof {
            self.attachments_write.lemma_canonical();
            lemma_canonical_order(self.attachments_write.canonical_seq(), self@.attachments_write);
        }
        self.attachments_write.as_slice()
    }

    /// Returns every recorded access that the declared footprint does not
    /// cover, axis by axis and canonically within each axis.
    pub fn soundness_violations(&self, declared: &Footprint, warp_id: WarpId) -> (r: Vec<ViolationKind>)
        requires
            self.wf(),
            declared.wf(),
        ensures
            r@ == self.violations_spec(*declared, warp_id),
    {
        let mut out: Vec<ViolationKind> = Vec::new();
        push_node_violations(&mut out, self.nodes_read.as_slice(), &declared.n_read, warp_id, false);
        push_edge_violations(&mut out, self.edges_read.as_slice(), &declared.e_read, warp_id, false);
        push_attachment_violations(&mut out, self.attachments_read.as_slice(), &declared.a_read, warp_id, false);
        push_node_violations(&mut out, self.nodes_write.as_slice(), &declared.n_write, warp_id, true);
        push_edge_violations(&mut out, self.edges_write.as_slice(), &declared.e_write, warp_id, true);
        push_attachment_violations(&mut out, self.attachments_write.as_slice(), &declared.a_write, warp_id, true);
        proof {
            assert(out@ =~= self.violations_spec(*declared, warp_id));
        }
        out
    }

    /// Returns `true` when the declared footprint covers every recorded access
    /// (`Actual ⊆ Declared` on both axes for the instance).
    pub fn is_sound_under(&self, declared: &Footprint, warp_id: WarpId) -> (r: bool)
        requires
            self.wf(),
            declared.wf(),
        ensures
            r == (self.violations_spec(*declared, warp_id).len() == 0),
            r == sound_under(self@, *declared, warp_id),
    {
        let v = self.soundness_violations(declared, warp_id);
        proof {
            self.lemma_violations_empty_iff_sound(*declared, warp_id);
        }
        v.len() == 0
    }

    /// The violation sequence is empty exactly when the record is sound.
    pub proof fn lemma_violations_empty_iff_sound(&self, declared: Footprint, w: WarpId)
        requires
            self.wf(),
        ensures
            (self.violations_spec(declared, w).len() == 0) == sound_under(self@, declared, w),
    {
        self.nodes_read.lemma_canonical();
        self.edges_read.lemma_canonical();
        self.attachments_read.lemma_canonical();
        self.nodes_write.lemma_canonical();
        self.edges_write.lemma_canonical();
        self.attachments_write.lemma_canonical();
        lemma_node_violations_empty(self.nodes_read.canonical_seq(), declared.n_read@, w, false);
        lemma_edge_violations_empty(self.edges_read.canonical_seq(), declared.e_read@, w, false);
        lemma_attachment_violations_empty(self.attachments_read.canonical_seq(), declared.a_read@, w, false);
        lemma_node_violations_empty(self.nodes_write.canonical_seq(), declared.n_write@, w, true);
        lemma_edge_violations_empty(self.edges_write.canonical_seq(), declared.e_write@, w, true);
        lemma_attachment_violations_empty(self.attachments_write.canonical_seq(), declared.a_write@, w, true);
        let s1 = self.nodes_read.canonical_seq();
        assert(nodes_covered(self@.nodes_read, declared.n_read@, w) == (forall|i: int| 0 <= i < s1.len()
            ==> declared.n_read@.contains(NodeKey { warp_id: w, local_id: #[trigger] s1[i] }))) by {
            if forall|i: int| 0 <= i < s1.len() ==> declared.n_read@.contains(NodeKey { warp_id: w, local_id: #[trigger] s1[i] }) {
                assert forall|id: NodeId| #[trigger] self@.nodes_read.contains(id) implies declared.n_read@.contains(NodeKey { warp_id: w, local_id: id }) by {
                    assert(s1.to_set().contains(id));
                    let i = choose|i: int| 0 <= i < s1.len() && s1[i] == id;
                }
            }
            if nodes_covered(self@.nodes_read, declared.n_read@, w) {
                assert forall|i: int| 0 <= i < s1.len() implies declared.n_read@.contains(NodeKey { warp_id: w, local_id: #[trigger] s1[i] }) by {
                    assert(s1.to_set().contains(s1[i]));
                }
            }
        }
        let s2 = self.edges_read.canonical_seq();
        assert(edges_covered(self@.edges_read, declared.e_read@, w) == (forall|i: int| 0 <= i < s2.len()
            ==> declared.e_read@.contains(EdgeKey { warp_id: w, local_id: #[trigger] s2[i] }))) by {
            if forall|i: int| 0 <= i < s2.len() ==> declared.e_read@.contains(EdgeKey { warp_id: w, local_id: #[trigger] s2[i] }) {
                assert forall|id: EdgeId| #[trigger] self@.edges_read.contains(id) implies declared.e_read@.contains(EdgeKey { warp_id: w, local_id: id }) by {
                    assert(s2.to_set().contains(id));
                    let i = choose|i: int| 0 <= i < s2.len() && s2[i] == id;
                }
            }
            if edges_covered(self@.edges_read, declared.e_read@, w) {
                assert forall|i: int| 0 <= i < s2.len() implies declared.e_read@.contains(EdgeKey { warp_id: w, local_id: #[trigger] s2[i] }) by {
                    assert(s2.to_set().contains(s2[i]));
                }
            }
        }
        let s3 = self.attachments_read.canonical_seq();
        assert(attachments_covered(self@.attachments_read, declared.a_read@, w) == (forall|i: int| 0 <= i < s3.len()
            ==> attachment_warp(#[trigger] s3[i]) == w && declared.a_read@.contains(s3[i]))) by {
            if forall|i: int| 0 <= i < s3.len() ==> attachment_warp(#[trigger] s3[i]) == w && declared.a_read@.contains(s3[i]) {
                assert forall|k: AttachmentKey| #[trigger] self@.attachments_read.contains(k) implies attachment_warp(k) == w && declared.a_read@.contains(k) by {
                    assert(s3.to_set().contains(k));
                    let i = choose|i: int| 0 <= i < s3.len() && s3[i] == k;
                }
            }
            if attachments_covered(self@.attachments_read, declared.a_read@, w) {
                assert forall|i: int| 0 <= i < s3.len() implies attachment_warp(#[trigger] s3[i]) == w && declared.a_read@.contains(s3[i]) by {
                    assert(s3.to_set().contains(s3[i]));
                }
            }
        }
        let s4 = self.nodes_write.canonical_seq();
        assert(nodes_covered(self@.nodes_write, declared.n_write@, w) == (forall|i: int| 0 <= i < s4.len()
            ==> declared.n_write@.contains(NodeKey { warp_id: w, local_id: #[trigger] s4[i] }))) by {
            if forall|i: int| 0 <= i < s4.len() ==> declared.n_write@.contains(NodeKey { warp_id: w, local_id: #[trigger] s4[i] }) {
                assert forall|id: NodeId| #[trigger] self@.nodes_write.contains(id) implies declared.n_write@.contains(NodeKey { warp_id: w, local_id: id }) by {
                    assert(s4.to_set().contains(id));
                    let i = choose|i: int| 0 <= i < s4.len() && s4[i] == id;
                }
            }
            if nodes_covered(self@.nodes_write, declared.n_write@, w) {
                assert forall|i: int| 0 <= i < s4.len() implies declared.n_write@.contains(NodeKey { warp_id: w, local_id: #[trigger] s4[i] }) by {
                    assert(s4.to_set().contains(s4[i]));
                }
            }
        }
        let s5 = self.edges_write.canonical_seq();
        assert(edges_covered(self@.edges_write, declared.e_write@, w) == (forall|i: int| 0 <= i < s5.len()
            ==> declared.e_write@.contains(EdgeKey { warp_id: w, local_id: #[trigger] s5[i] }))) by {
            if forall|i: int| 0 <= i < s5.len() ==> declared.e_write@.contains(EdgeKey { warp_id: w, local_id: #[trigger] s5[i] }) {
                assert forall|id: EdgeId| #[trigger] self@.edges_write.contains(id) implies declared.e_write@.contains(EdgeKey { warp_id: w, local_id: id }) by {
                    assert(s5.to_set().contains(id));
                    let i = choose|i: int| 0 <= i < s5.len() && s5[i] == id;
                }
            }
            if edges_covered(self@.edges_write, declared.e_write@, w) {
                assert forall|i: int| 0 <= i < s5.len() implies declared.e_write@.contains(EdgeKey { warp_id: w, local_id: #[trigger] s5[i] }) by {
                    assert(s5.to_set().contains(s5[i]));
                }
            }
        }
        let s6 = self.attachments_write.canonical_seq();
        assert(attachments_covered(self@.attachments_write, declared.a_write@, w) == (forall|i: int| 0 <= i < s6.len()
            ==> attachment_warp(#[trigger] s6[i]) == w && declared.a_write@.contains(s6[i]))) by {
            if forall|i: int| 0 <= i < s6.len() ==> attachment_warp(#[trigger] s6[i]) == w && declared.a_write@.contains(s6[i]) {
                assert forall|k: AttachmentKey| #[trigger] self@.attachments_write.contains(k) implies attachment_warp(k) == w && declared.a_write@.contains(k) by {
                    assert(s6.to_set().contains(k));
                    let i = choose|i: int| 0 <= i < s6.len() && s6[i] == k;
                }
            }
            if attachments_covered(self@.attachments_write, declared.a_write@, w) {
                assert forall|i: int| 0 <= i < s6.len() implies attachment_warp(#[trigger] s6[i]) == w && declared.a_write@.contains(s6[i]) by {
                    assert(s6.to_set().contains(s6[i]));
                }
            }
        }
    }
}

proof fn lemma_node_violations_contains(ids: Seq<NodeId>, declared: Set<NodeKey>, w: WarpId, write: bool, v: ViolationKind)
    ensures
        node_violations(ids, declared, w, write).contains(v) <==> exists|i: int|
            0 <= i < ids.len() && !(declared.contains(NodeKey { warp_id: w, local_id: ids[i] })) && v == (if write {
                ViolationKind::NodeWriteNotDeclared(#[trigger] ids[i])
            } else {
                ViolationKind::NodeReadNotDeclared(ids[i])
            }),
    decreases ids.len(),
{
    if ids.len() > 0 {
        let d = ids.drop_last();
        let x = ids.last();
        lemma_node_violations_contains(d, declared, w, write, v);
        let p = node_violations(d, declared, w, write);
        let t = if declared.contains(NodeKey { warp_id: w, local_id: x }) {
            Seq::<ViolationKind>::empty()
        } else if write {
            seq![ViolationKind::NodeWriteNotDeclared(x)]
        } else {
            seq![ViolationKind::NodeReadNotDeclared(x)]
        };
        let full = node_violations(ids, declared, w, write);
        assert(full == p + t);
        if full.contains(v) {
            let j = choose|j: int| 0 <= j < full.len() && full[j] == v;
            if j < p.len() {
                assert(p[j] == v);
                let i = choose|i: int|
                    0 <= i < d.len() && !(declared.contains(NodeKey { warp_id: w, local_id: d[i] })) && v == (if write {
                        ViolationKind::NodeWriteNotDeclared(#[trigger] d[i])
                    } else {
                        ViolationKind::NodeReadNotDeclared(d[i])
                    });
                assert(ids[i] == d[i]);
            } else {
                assert(t[j - p.len()] == v);
                assert(ids[ids.len() - 1] == x);
            }
        }
        if exists|i: int|
            0 <= i < ids.len() && !(declared.contains(NodeKey { warp_id: w, local_id: ids[i] })) && v == (if write {
                ViolationKind::NodeWriteNotDeclared(#[trigger] ids[i])
            } else {
                ViolationKind::NodeReadNotDeclared(ids[i])
            }) {
            let i = choose|i: int|
                0 <= i < ids.len() && !(declared.contains(NodeKey { warp_id: w, local_id: ids[i] })) && v == (if write {
                    ViolationKind::NodeWriteNotDeclared(#[trigger] ids[i])
                } else {
                    ViolationKind::NodeReadNotDeclared(ids[i])
                });
            if i == ids.len() - 1 {
                assert(full[p.len() as int] == v);
            } else {
                assert(d[i] == ids[i]);
                let j = choose|j: int| 0 <= j < p.len() && p[j] == v;
                assert(full[j] == v);
            }
        }
    }
}

proof fn lemma_edge_violations_contains(ids: Seq<EdgeId>, declared: Set<EdgeKey>, w: WarpId, write: bool, v: ViolationKind)
    ensures
        edge_violations(ids, declared, w, write).contains(v) <==> exists|i: int|
            0 <= i < ids.len() && !(declared.contains(EdgeKey { warp_id: w, local_id: ids[i] })) && v == (if write {
                ViolationKind::EdgeWriteNotDeclared(#[trigger] ids[i])
            } else {
                ViolationKind::EdgeReadNotDeclared(ids[i])
            }),
    decreases ids.len(),
{
    if ids.len() > 0 {
        let d = ids.drop_last();
        let x = ids.last();
        lemma_edge_violations_contains(d, declared, w, write, v);
        let p = edge_violations(d, declared, w, write);
        let t = if declared.contains(EdgeKey { warp_id: w, local_id: x }) {
            Seq::<ViolationKind>::empty()
        } else if write {
            seq![ViolationKind::EdgeWriteNotDeclared(x)]
        } else {
            seq![ViolationKind::EdgeReadNotDeclared(x)]
        };
        let full = edge_violations(ids, declared, w, write);
        assert(full == p + t);
        if full.contains(v) {
            let j = choose|j: int| 0 <= j < full.len() && full[j] == v;
            if j < p.len() {
                assert(p[j] == v);
                let i = choose|i: int|
                    0 <= i < d.len() && !(declared.contains(EdgeKey { warp_id: w, local_id: d[i] })) && v == (if write {
                        ViolationKind::EdgeWriteNotDeclared(#[trigger] d[i])
                    } else {
                        ViolationKind::EdgeReadNotDeclared(d[i])
                    });
                assert(ids[i] == d[i]);
            } else {
                assert(t[j - p.len()] == v);
                assert(ids[ids.len() - 1] == x);
            }
        }
        if exists|i: int|
            0 <= i < ids.len() && !(declared.contains(EdgeKey { warp_id: w, local_id: ids[i] })) && v == (if write {
                ViolationKind::EdgeWriteNotDeclared(#[trigger] ids[i])
            } else {
                ViolationKind::EdgeReadNotDeclared(ids[i])
            }) {
            let i = choose|i: int|
                0 <= i < ids.len() && !(declared.contains(EdgeKey { warp_id: w, local_id: ids[i] })) && v == (if write {
                    ViolationKind::EdgeWriteNotDeclared(#[trigger] ids[i])
                } else {
                    ViolationKind::EdgeReadNotDeclared(ids[i])
                });
            if i == ids.len() - 1 {
                assert(full[p.len() as int] == v);
            } else {
                assert(d[i] == ids[i]);
                let j = choose|j: int| 0 <= j < p.len() && p[j] == v;
                assert(full[j] == v);
            }
        }
    }
}

proof fn lemma_attachment_violations_contains(ids: Seq<AttachmentKey>, declared: Set<AttachmentKey>, w: WarpId, write: bool, v: ViolationKind)
    ensures
        attachment_violations(ids, declared, w, write).contains(v) <==> exists|i: int|
            0 <= i < ids.len() && !(attachment_warp(ids[i]) == w && declared.contains(ids[i])) && v == (if write {
                ViolationKind::AttachmentWriteNotDeclared(#[trigger] ids[i])
            } else {
                ViolationKind::AttachmentReadNotDeclared(ids[i])
            }),
    decreases ids.len(),
{
    if ids.len() > 0 {
        let d = ids.drop_last();
        let x = ids.last();
        lemma_attachment_violations_contains(d, declared, w, write, v);
        let p = attachment_violations(d, declared, w, write);
        let t = if attachment_warp(x) == w && declared.contains(x) {
            Seq::<ViolationKind>::empty()
        } else if write {
            seq![ViolationKind::AttachmentWriteNotDeclared(x)]
        } else {
            seq![ViolationKind::AttachmentReadNotDeclared(x)]
        };
        let full = attachment_violations(ids, declared, w, write);
        assert(full == p + t);
        if full.contains(v) {
            let j = choose|j: int| 0 <= j < full.len() && full[j] == v;
            if j < p.len() {
                assert(p[j] == v);
                let i = choose|i: int|
                    0 <= i < d.len() && !(attachment_warp(d[i]) == w && declared.contains(d[i])) && v == (if write {
                        ViolationKind::AttachmentWriteNotDeclared(#[trigger] d[i])
                    } else {
                        ViolationKind::AttachmentReadNotDeclared(d[i])
                    });
                assert(ids[i] == d[i]);
            } else {
                assert(t[j - p.len()] == v);
                assert(ids[ids.len() - 1] == x);
            }
        }
        if exists|i: int|
            0 <= i < ids.len() && !(attachment_warp(ids[i]) == w && declared.contains(ids[i])) && v == (if write {
                ViolationKind::AttachmentWriteNotDeclared(#[trigger] ids[i])
            } else {
                ViolationKind::AttachmentReadNotDeclared(ids[i])
            }) {
            let i = choose|i: int|
                0 <= i < ids.len() && !(attachment_warp(ids[i]) == w && declared.contains(ids[i])) && v == (if write {
                    ViolationKind::AttachmentWriteNotDeclared(#[trigger] ids[i])
                } else {
                    ViolationKind::AttachmentReadNotDeclared(ids[i])
                });
            if i == ids.len() - 1 {
                assert(full[p.len() as int] == v);
            } else {
                assert(d[i] == ids[i]);
                let j = choose|j: int| 0 <= j < p.len() && p[j] == v;
                assert(full[j] == v);
            }
        }
    }
}

proof fn lemma_concat_contains<A>(x: Seq<A>, y: Seq<A>, v: A)
    ensures
        (x + y).contains(v) <==> x.contains(v) || y.contains(v),
{
    let z = x + y;
    if z.contains(v) {
        let j = choose|j: int| 0 <= j < z.len() && z[j] == v;
        if j < x.len() {
            assert(x[j] == v);
        } else {
            assert(y[j - x.len()] == v);
        }
    }
    if x.contains(v) {
        let j = choose|j: int| 0 <= j < x.len() && x[j] == v;
        assert(z[j] == v);
    }
    if y.contains(v) {
        let j = choose|j: int| 0 <= j < y.len() && y[j] == v;
        assert(z[j + x.len()] == v);
    }
}

proof fn lemma_seq_set_contains<A>(x: Seq<A>, v: A)
    ensures
        x.to_set().contains(v) <==> exists|i: int| 0 <= i < x.len() && #[trigger] x[i] == v,
{
}

impl ActualFootprint {
    proof fn lemma_violation_axes(&self, declared: Footprint, w: WarpId, v: ViolationKind)
        requires
            self.wf(),
        ensures
            self.violations_spec(declared, w).contains(v) <==> {
                ||| v is NodeReadNotDeclared && node_violations(self.nodes_read.canonical_seq(), declared.n_read@, w, false).contains(v)
                ||| v is EdgeReadNotDeclared && edge_violations(self.edges_read.canonical_seq(), declared.e_read@, w, false).contains(v)
                ||| v is AttachmentReadNotDeclared && attachment_violations(self.attachments_read.canonical_seq(), declared.a_read@, w, false).contains(v)
                ||| v is NodeWriteNotDeclared && node_violations(self.nodes_write.canonical_seq(), declared.n_write@, w, true).contains(v)
                ||| v is EdgeWriteNotDeclared && edge_violations(self.edges_write.canonical_seq(), declared.e_write@, w, true).contains(v)
                ||| v is AttachmentWriteNotDeclared && attachment_violations(self.attachments_write.canonical_seq(), declared.a_write@, w, true).contains(v)
            },
    {
        let s1 = node_violations(self.nodes_read.canonical_seq(), declared.n_read@, w, false);
        let s2 = edge_violations(self.edges_read.canonical_seq(), declared.e_read@, w, false);
        let s3 = attachment_violations(self.attachments_read.canonical_seq(), declared.a_read@, w, false);
        let s4 = node_violations(self.nodes_write.canonical_seq(), declared.n_write@, w, true);
        let s5 = edge_violations(self.edges_write.canonical_seq(), declared.e_write@, w, true);
        let s6 = attachment_violations(self.attachments_write.canonical_seq(), declared.a_write@, w, true);
        lemma_concat_contains(s1, s2, v);
        lemma_concat_contains(s1 + s2, s3, v);
        lemma_concat_contains(s1 + s2 + s3, s4, v);
        lemma_concat_contains(s1 + s2 + s3 + s4, s5, v);
        lemma_concat_contains(s1 + s2 + s3 + s4 + s5, s6, v);
        lemma_node_violations_contains(self.nodes_read.canonical_seq(), declared.n_read@, w, false, v);
        lemma_edge_violations_contains(self.edges_read.canonical_seq(), declared.e_read@, w, false, v);
        lemma_attachment_violations_contains(self.attachments_read.canonical_seq(), declared.a_read@, w, false, v);
        lemma_node_violations_contains(self.nodes_write.canonical_seq(), declared.n_write@, w, true, v);
        lemma_edge_violations_contains(self.edges_write.canonical_seq(), declared.e_write@, w, true, v);
        lemma_attachment_violations_contains(self.attachments_write.canonical_seq(), declared.a_write@, w, true, v);
        self.nodes_read.lemma_canonical();
        self.edges_read.lemma_canonical();
        self.attachments_read.lemma_canonical();
        self.nodes_write.lemma_canonical();
        self.edges_write.lemma_canonical();
        self.attachments_write.lemma_canonical();
    }
}

/// Each recorded access that the declaration does not cover is reported, as a
/// violation of its own axis and direction, and nothing else is: a read is
/// reported as a read and a write as a write, node, edge and attachment alike.
/// A node or edge is covered when its key in instance `w` is declared; an
/// attachment when it belongs to instance `w` and is declared.
pub proof fn lemma_violations_report_each_undeclared_access(
    a: ActualFootprint,
    declared: Footprint,
    w: WarpId,
    n: NodeId,
    e: EdgeId,
    k: AttachmentKey,
)
    requires
        a.wf(),
    ensures
        a.violations_spec(declared, w).contains(ViolationKind::NodeReadNotDeclared(n)) <==> a@.nodes_read.contains(n)
            && !declared.n_read@.contains(NodeKey { warp_id: w, local_id: n }),
        a.violations_spec(declared, w).contains(ViolationKind::NodeWriteNotDeclared(n)) <==> a@.nodes_write.contains(n)
            && !declared.n_write@.contains(NodeKey { warp_id: w, local_id: n }),
        a.violations_spec(declared, w).contains(ViolationKind::EdgeReadNotDeclared(e)) <==> a@.edges_read.contains(e)
            && !declared.e_read@.contains(EdgeKey { warp_id: w, local_id: e }),
        a.violations_spec(declared, w).contains(ViolationKind::EdgeWriteNotDeclared(e)) <==> a@.edges_write.contains(e)
            && !declared.e_write@.contains(EdgeKey { warp_id: w, local_id: e }),
        a.violations_spec(declared, w).contains(ViolationKind::AttachmentReadNotDeclared(k)) <==> a@.attachments_read.contains(k)
            && !(attachment_warp(k) == w && declared.a_read@.contains(k)),
        a.violations_spec(declared, w).contains(ViolationKind::AttachmentWriteNotDeclared(k)) <==> a@.attachments_write.contains(k)
            && !(attachment_warp(k) == w && declared.a_write@.contains(k)),
{
    a.nodes_read.lemma_canonical();
    a.edges_read.lemma_canonical();
    a.attachments_read.lemma_canonical();
    a.nodes_write.lemma_canonical();
    a.edges_write.lemma_canonical();
    a.attachments_write.lemma_canonical();
    let vs = a.violations_spec(declared, w);
    assert(vs.contains(ViolationKind::NodeReadNotDeclared(n)) <==> a@.nodes_read.contains(n) && !(declared.n_read@.contains(NodeKey { warp_id: w, local_id: n }))) by {
        let v = ViolationKind::NodeReadNotDeclared(n);
        let c = a.nodes_read.canonical_seq();
        a.lemma_violation_axes(declared, w, v);
        lemma_seq_set_contains(c, n);
        lemma_node_violations_contains(c, declared.n_read@, w, false, v);
        if vs.contains(v) {
            let i = choose|i: int| 0 <= i < c.len() && !(declared.n_read@.contains(NodeKey { warp_id: w, local_id: c[i] })) && v == ViolationKind::NodeReadNotDeclared(#[trigger] c[i]);
            assert(c[i] == n);
        }
        if a@.nodes_read.contains(n) && !(declared.n_read@.contains(NodeKey { warp_id: w, local_id: n })) {
            let i = choose|i: int| 0 <= i < c.len() && #[trigger] c[i] == n;
            assert(node_violations(c, declared.n_read@, w, false).contains(v));
        }
    }
    assert(vs.contains(ViolationKind::NodeWriteNotDeclared(n)) <==> a@.nodes_write.contains(n) && !(declared.n_write@.contains(NodeKey { warp_id: w, local_id: n }))) by {
        let v = ViolationKind::NodeWriteNotDeclared(n);
        let c = a.nodes_write.canonical_seq();
        a.lemma_violation_axes(declared, w, v);
        lemma_seq_set_contains(c, n);
        lemma_node_violations_contains(c, declared.n_write@, w, true, v);
        if vs.contains(v) {
            let i = choose|i: int| 0 <= i < c.len() && !(declared.n_write@.contains(NodeKey { warp_id: w, local_id: c[i] })) && v == ViolationKind::NodeWriteNotDeclared(#[trigger] c[i]);
            assert(c[i] == n);
        }
        if a@.nodes_write.contains(n) && !(declared.n_write@.contains(NodeKey { warp_id: w, local_id: n })) {
            let i = choose|i: int| 0 <= i < c.len() && #[trigger] c[i] == n;
            assert(node_violations(c, declared.n_write@, w, true).contains(v));
        }
    }
    assert(vs.contains(ViolationKind::EdgeReadNotDeclared(e)) <==> a@.edges_read.contains(e) && !(declared.e_read@.contains(EdgeKey { warp_id: w, local_id: e }))) by {
        let v = ViolationKind::EdgeReadNotDeclared(e);
        let c = a.edges_read.canonical_seq();
        a.lemma_violation_axes(declared, w, v);
        lemma_seq_set_contains(c, e);
        lemma_edge_violations_contains(c, declared.e_read@, w, false, v);
        if vs.contains(v) {
            let i = choose|i: int| 0 <= i < c.len() && !(declared.e_read@.contains(EdgeKey { warp_id: w, local_id: c[i] })) && v == ViolationKind::EdgeReadNotDeclared(#[trigger] c[i]);
            assert(c[i] == e);
        }
        if a@.edges_read.contains(e) && !(declared.e_read@.contains(EdgeKey { warp_id: w, local_id: e })) {
            let i = choose|i: int| 0 <= i < c.len() && #[trigger] c[i] == e;
            assert(edge_violations(c, declared.e_read@, w, false).contains(v));
        }
    }
    assert(vs.contains(ViolationKind::EdgeWriteNotDeclared(e)) <==> a@.edges_write.contains(e) && !(declared.e_write@.contains(EdgeKey { warp_id: w, local_id: e }))) by {
        let v = ViolationKind::EdgeWriteNotDeclared(e);
        let c = a.edges_write.canonical_seq();
        a.lemma_violation_axes(declared, w, v);
        lemma_seq_set_contains(c, e);
        lemma_edge_violations_contains(c, declared.e_write@, w, true, v);
        if vs.contains(v) {
            let i = choose|i: int| 0 <= i < c.len() && !(declared.e_write@.contains(EdgeKey { warp_id: w, local_id: c[i] })) && v == ViolationKind::EdgeWriteNotDeclared(#[trigger] c[i]);
            assert(c[i] == e);
        }
        if a@.edges_write.contains(e) && !(declared.e_write@.contains(EdgeKey { warp_id: w, local_id: e })) {
            let i = choose|i: int| 0 <= i < c.len() && #[trigger] c[i] == e;
            assert(edge_violations(c, declared.e_write@, w, true).contains(v));
        }
    }
    assert(vs.contains(ViolationKind::AttachmentReadNotDeclared(k)) <==> a@.attachments_read.contains(k) && !(attachment_warp(k) == w && declared.a_read@.contains(k))) by {
        let v = ViolationKind::AttachmentReadNotDeclared(k);
        let c = a.attachments_read.canonical_seq();
        a.lemma_violation_axes(declared, w, v);
        lemma_seq_set_contains(c, k);
        lemma_attachment_violations_contains(c, declared.a_read@, w, false, v);
        if vs.contains(v) {
            let i = choose|i: int| 0 <= i < c.len() && !(attachment_warp(c[i]) == w && declared.a_read@.contains(c[i])) && v == ViolationKind::AttachmentReadNotDeclared(#[trigger] c[i]);
            assert(c[i] == k);
        }
        if a@.attachments_read.contains(k) && !(attachment_warp(k) == w && declared.a_read@.contains(k)) {
            let i = choose|i: int| 0 <= i < c.len() && #[trigger] c[i] == k;
            assert(attachment_violations(c, declared.a_read@, w, false).contains(v));
        }
    }
    assert(vs.contains(ViolationKind::AttachmentWriteNotDeclared(k)) <==> a@.attachments_write.contains(k) && !(attachment_warp(k) == w && declared.a_write@.contains(k))) by {
        let v = ViolationKind::AttachmentWriteNotDeclared(k);
        let c = a.attachments_write.canonical_seq();
        a.lemma_violation_axes(declared, w, v);
        lemma_seq_set_contains(c, k);
        lemma_attachment_violations_contains(c, declared.a_write@, w, true, v);
        if vs.contains(v) {
            let i = choose|i: int| 0 <= i < c.len() && !(attachment_warp(c[i]) == w && declared.a_write@.contains(c[i])) && v == ViolationKind::AttachmentWriteNotDeclared(#[trigger] c[i]);
            assert(c[i] == k);
        }
        if a@.attachments_write.contains(k) && !(attachment_warp(k) == w && declared.a_write@.contains(k)) {
            let i = choose|i: int| 0 <= i < c.len() && #[trigger] c[i] == k;
            assert(attachment_violations(c, declared.a_write@, w, true).contains(v));
        }
    }
}

/// Two records of the same accesses, whatever the order or repetition in
/// which they were recorded, report the same violations in the same order.
pub proof fn lemma_violations_depend_only_on_recorded_sets(a: ActualFootprint, b: ActualFootprint, declared: Footprint, w: WarpId)
    requires
        a.wf(),
        b.wf(),
        a@ == b@,
    ensures
        a.violations_spec(declared, w) == b.violations_spec(declared, w),
{
    lemma_keyset_canonical_unique(&a.nodes_read, &b.nodes_read);
    lemma_keyset_canonical_unique(&a.edges_read, &b.edges_read);
    lemma_keyset_canonical_unique(&a.attachments_read, &b.attachments_read);
    lemma_keyset_canonical_unique(&a.nodes_write, &b.nodes_write);
    lemma_keyset_canonical_unique(&a.edges_write, &b.edges_write);
    lemma_keyset_canonical_unique(&a.attachments_write, &b.attachments_write);
}

/// The violations of a record, read from its recorded sets: node, edge and
/// attachment reads, then the writes, each axis in its canonical (ascending)
/// order.
pub proof fn lemma_violations_in_axis_order(a: ActualFootprint, declared: Footprint, w: WarpId)
    requires
        a.wf(),
    ensures
        a.violations_spec(declared, w) == node_violations(canonical_order(a@.nodes_read), declared.n_read@, w, false)
            + edge_violations(canonical_order(a@.edges_read), declared.e_read@, w, false)
            + attachment_violations(canonical_order(a@.attachments_read), declared.a_read@, w, false)
            + node_violations(canonical_order(a@.nodes_write), declared.n_write@, w, true)
            + edge_violations(canonical_order(a@.edges_write), declared.e_write@, w, true)
            + attachment_violations(canonical_order(a@.attachments_write), declared.a_write@, w, true),
{
    a.nodes_read.lemma_canonical();
    a.edges_read.lemma_canonical();
    a.attachments_read.lemma_canonical();
    a.nodes_write.lemma_canonical();
    a.edges_write.lemma_canonical();
    a.attachments_write.lemma_canonical();
    lemma_canonical_order(a.nodes_read.canonical_seq(), a@.nodes_read);
    lemma_canonical_order(a.edges_read.canonical_seq(), a@.edges_read);
    lemma_canonical_order(a.attachments_read.canonical_seq(), a@.attachments_read);
    lemma_canonical_order(a.nodes_write.canonical_seq(), a@.nodes_write);
    lemma_canonical_order(a.edges_write.canonical_seq(), a@.edges_write);
    lemma_canonical_order(a.attachments_write.canonical_seq(), a@.attachments_write);
}

/// Recording is idempotent and order-free: recording the same node read twice
/// leaves the record as recording it once, and recording two reads in either
/// order gives the same record. (Every observation of a well-formed record,
/// its canonical axis slices and its violations, is a function of this view.)
pub proof fn lemma_recording_is_idempotent_and_commutative(v: ActualFootprintView, x: NodeId, y: NodeId)
    ensures
        after_node_read(after_node_read(v, x), x) == after_node_read(v, x),
        after_node_read(after_node_read(v, x), y) == after_node_read(after_node_read(v, y), x),
{
    assert(v.nodes_read.insert(x).insert(x) =~= v.nodes_read.insert(x));
    assert(v.nodes_read.insert(x).insert(y) =~= v.nodes_read.insert(y).insert(x));
}

/// Two well-formed records of the same accesses are indistinguishable: every
/// axis lists the same ids in the same order, and they report the same
/// violations under every declaration.
pub proof fn lemma_equal_records_observe_equally(a: ActualFootprint, b: ActualFootprint, declared: Footprint, w: WarpId)
    requires
        a.wf(),
        b.wf(),
        a@ == b@,
    ensures
        canonical_order(a@.nodes_read) == canonical_order(b@.nodes_read),
        canonical_order(a@.edges_read) == canonical_order(b@.edges_read),
        canonical_order(a@.attachments_read) == canonical_order(b@.attachments_read),
        canonical_order(a@.nodes_write) == canonical_order(b@.nodes_write),
        canonical_order(a@.edges_write) == canonical_order(b@.edges_write),
        canonical_order(a@.attachments_write) == canonical_order(b@.attachments_write),
        a.violations_spec(declared, w) == b.violations_spec(declared, w),
{
    lemma_violations_depend_only_on_recorded_sets(a, b, declared, w);
}

/// An empty record is sound under every declaration.
pub proof fn lemma_empty_record_is_sound(a: ActualFootprint, declared: Footprint, w: WarpId)
    requires
        a@.nodes_read.is_empty() && a@.edges_read.is_empty() && a@.attachments_read.is_empty(),
        a@.nodes_write.is_empty() && a@.edges_write.is_empty() && a@.attachments_write.is_empty(),
    ensures
        sound_under(a@, declared, w),
{
}

/// A declaration that covers a sound one is itself sound: soundness does not
/// demand footprint minimality.
pub proof fn lemma_superset_declaration_is_sound(a: ActualFootprintView, d: Footprint, e: Footprint, w: WarpId)
    requires
        sound_under(a, d, w),
        d.n_read@.subset_of(e.n_read@) && d.n_write@.subset_of(e.n_write@),
        d.e_read@.subset_of(e.e_read@) && d.e_write@.subset_of(e.e_write@),
        d.a_read@.subset_of(e.a_read@) && d.a_write@.subset_of(e.a_write@),
    ensures
        sound_under(a, e, w),
{
}

fn push_node_violations(out: &mut Vec<ViolationKind>, ids: &[NodeId], declared: &KeySet<NodeKey>, w: WarpId, write: bool)
    ensures
        final(out)@ == old(out)@ + node_violations(ids@, declared@, w, write),
{
    let ghost start = out@;
    let mut i: usize = 0;
    while i < ids.len()
        invariant
            i <= ids@.len(),
            out@ == start + node_violations(ids@.subrange(0, i as int), declared@, w, write),
        decreases ids.len() - i,
    {
        let id = ids[i];
        proof {
            assert(ids@.subrange(0, i + 1).drop_last() =~= ids@.subrange(0, i as int));
        }
        if !declared.contains(&NodeKey { warp_id: w, local_id: id }) {
            if write {
                out.push(ViolationKind::NodeWriteNotDeclared(id));
            } else {
                out.push(ViolationKind::NodeReadNotDeclared(id));
            }
        }
        i += 1;
        assert(out@ =~= start + node_violations(ids@.subrange(0, i as int), declared@, w, write));
    }
    assert(ids@.subrange(0, ids@.len() as int) =~= ids@);
}

fn push_edge_violations(out: &mut Vec<ViolationKind>, ids: &[EdgeId], declared: &KeySet<EdgeKey>, w: WarpId, write: bool)
    ensures
        final(out)@ == old(out)@ + edge_violations(ids@, declared@, w, write),
{
    let ghost start = out@;
    let mut i: usize = 0;
    while i < ids.len()
        invariant
            i <= ids@.len(),
            out@ == start + edge_violations(ids@.subrange(0, i as int), declared@, w, write),
        decreases ids.len() - i,
    {
        let id = ids[i];
        proof {
            assert(ids@.subrange(0, i + 1).drop_last() =~= ids@.subrange(0, i as int));
        }
        if !declared.contains(&EdgeKey { warp_id: w, local_id: id }) {
            if write {
                out.push(ViolationKind::EdgeWriteNotDeclared(id));
            } else {
                out.push(ViolationKind::EdgeReadNotDeclared(id));
            }
        }
        i += 1;
        assert(out@ =~= start + edge_violations(ids@.subrange(0, i as int), declared@, w, write));
    }
    assert(ids@.subrange(0, ids@.len() as int) =~= ids@);
}

fn push_attachment_violations(out: &mut Vec<ViolationKind>, ks: &[AttachmentKey], declared: &KeySet<AttachmentKey>, w: WarpId, write: bool)
    ensures
        final(out)@ == old(out)@ + attachment_violations(ks@, declared@, w, write),
{
    let ghost start = out@;
    let mut i: usize = 0;
    while i < ks.len()
        invariant
            i <= ks@.len(),
            out@ == start + attachment_violations(ks@.subrange(0, i as int), declared@, w, write),
        decreases ks.len() - i,
    {
        let k = ks[i];
        proof {
            assert(ks@.subrange(0, i + 1).drop_last() =~= ks@.subrange(0, i as int));
        }
        let kw = k.owner.warp_id();
        if !(warp_eq(&kw, &w) && declared.contains(&k)) {
            if write {
                out.push(ViolationKind::AttachmentWriteNotDeclared(k));
            } else {
                out.push(ViolationKind::AttachmentReadNotDeclared(k));
            }
        }
        i += 1;
        assert(out@ =~= start + attachment_violations(ks@.subrange(0, i as int), declared@, w, write));
    }
    assert(ks@.subrange(0, ks@.len() as int) =~= ks@);
}

} // verus!
