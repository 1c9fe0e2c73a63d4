//! Declared footprints: the nodes, edges, attachments and boundary ports a
//! rewrite claims to read and write, as canonical sets.
use vstd::prelude::*;
use vstd::bytes::*;
use crate::attachment::AttachmentKey;
use crate::encoding::{push_hash, push_u64_le};
use crate::ident::{EdgeId, EdgeKey, NodeId, NodeKey, WarpId};
use crate::keyset::KeySet;
use crate::order::{CanonicalKey, SortKey};

verus! {

impl SortKey for NodeKey {
    /// Instance id then local id.
    open spec fn key(&self) -> Seq<u8> {
        self.warp_id.0@ + self.local_id.0@
    }

    fn key_bytes(&self) -> (k: Vec<u8>) {
        let mut out: Vec<u8> = Vec::new();
        push_hash(&mut out, &self.warp_id.0);
        push_hash(&mut out, &self.local_id.0);
        out
    }
}

impl CanonicalKey for NodeKey {
    proof fn lemma_key_injective(a: Self, b: Self) {
        if a.key() == b.key() {
            assert(a.warp_id.0@ =~= a.key().subrange(0, 32));
            assert(b.warp_id.0@ =~= b.key().subrange(0, 32));
            assert(a.local_id.0@ =~= a.key().subrange(32, 64));
            assert(b.local_id.0@ =~= b.key().subrange(32, 64));
            assert(a.warp_id.0 =~= b.warp_id.0);
            assert(a.local_id.0 =~= b.local_id.0);
        }
    }
}

impl SortKey for EdgeKey {
    /// Instance id then local id.
    open spec fn key(&self) -> Seq<u8> {
        self.warp_id.0@ + self.local_id.0@
    }

    fn key_bytes(&self) -> (k: Vec<u8>) {
        let mut out: Vec<u8> = Vec::new();
        push_hash(&mut out, &self.warp_id.0);
        push_hash(&mut out, &self.local_id.0);
        out
    }
}

impl CanonicalKey for EdgeKey {
    proof fn lemma_key_injective(a: Self, b: Self) {
        if a.key() == b.key() {
            assert(a.warp_id.0@ =~= a.key().subrange(0, 32));
            assert(b.warp_id.0@ =~= b.key().subrange(0, 32));
            assert(a.local_id.0@ =~= a.key().subrange(32, 64));
            assert(b.local_id.0@ =~= b.key().subrange(32, 64));
            assert(a.warp_id.0 =~= b.warp_id.0);
            assert(a.local_id.0 =~= b.local_id.0);
        }
    }
}

/// Packed boundary port key.
pub type PortKey = u64;

/// A boundary port within one instance.
#[derive(Clone, Copy, Debug, PartialEq, Eq, PartialOrd, Ord, Hash)]
pub struct WarpPort {
    /// Owning instance.
    pub warp_id: WarpId,
    /// Packed port key.
    pub port: PortKey,
}

impl SortKey for WarpPort {
    /// Instance id then the port key's little-endian bytes.
    open spec fn key(&self) -> Seq<u8> {
        self.warp_id.0@ + spec_u64_to_le_bytes(self.port)
    }

    fn key_bytes(&self) -> (k: Vec<u8>) {
        let mut out: Vec<u8> = Vec::new();
        push_hash(&mut out, &self.warp_id.0);
        push_u64_le(&mut out, self.port);
        out
    }
}

impl CanonicalKey for WarpPort {
    proof fn lemma_key_injective(a: Self, b: Self) {
        if a.key() == b.key() {
            lemma_auto_spec_u64_to_from_le_bytes();
            assert(a.warp_id.0@ =~= a.key().subrange(0, 32));
            assert(b.warp_id.0@ =~= b.key().subrange(0, 32));
            assert(spec_u64_to_le_bytes(a.port) =~= a.key().subrange(32, 40));
            assert(spec_u64_to_le_bytes(b.port) =~= b.key().subrange(32, 40));
            assert(a.warp_id.0 =~= b.warp_id.0);
        }
    }
}

/// Canonical set of node keys.
pub type NodeSet = KeySet<NodeKey>;
/// Canonical set of edge keys.
pub type EdgeSet = KeySet<EdgeKey>;
/// Canonical set of attachment keys.
pub type AttachmentSet = KeySet<AttachmentKey>;
/// Canonical set of boundary ports, keyed by instance.
#[derive(Debug, PartialEq, Eq)]
pub struct PortSet {
    ports: KeySet<WarpPort>,
}

impl View for PortSet {
    type V = Set<WarpPort>;

    closed spec fn view(&self) -> Set<WarpPort> {
        self.ports@
    }
}

impl PortSet {
    /// The underlying canonical set is well-formed.
    pub closed spec fn wf(&self) -> bool {
        self.ports.wf()
    }

    /// Ports in canonical order.
    pub closed spec fn canonical_seq(&self) -> Seq<WarpPort> {
        self.ports.canonical_seq()
    }

    /// Creates an empty port set.
    pub fn new() -> (r: Self)
        ensures
            r.wf(),
            r@ == Set::<WarpPort>::empty(),
    {
        PortSet { ports: KeySet::new() }
    }

    /// Inserts port `port` of instance `warp_id`; `true` when it was absent.
    pub fn insert(&mut self, warp_id: WarpId, port: PortKey) -> (r: bool)
        requires
            old(self).wf(),
        ensures
            final(self).wf(),
            final(self)@ == old(self)@.insert(WarpPort { warp_id, port }),
            r == !old(self)@.contains(WarpPort { warp_id, port }),
    {
        self.ports.insert(WarpPort { warp_id, port })
    }

    /// Membership test.
    pub fn contains(&self, warp_id: WarpId, port: PortKey) -> (r: bool)
        ensures
            r == self@.contains(WarpPort { warp_id, port }),
    {
        self.ports.contains(&WarpPort { warp_id, port })
    }

    /// Ports in canonical order.
    pub fn as_slice(&self) -> (r: &[WarpPort])
        ensures
            r@ == self.canonical_seq(),
    {
        self.ports.as_slice()
    }

    /// Copies the set.
    pub fn duplicate(&self) -> (r: Self)
        requires
            self.wf(),
        ensures
            r.wf(),
            r@ == self@,
    {
        PortSet { ports: self.ports.duplicate() }
    }
}

impl KeySet<NodeKey> {
    /// Inserts the node `local_id` of instance `warp_id`.
    pub fn insert_with_warp(&mut self, warp_id: WarpId, local_id: NodeId) -> (r: bool)
        requires
            old(self).wf(),
        ensures
            final(self).wf(),
            final(self)@ == old(self)@.insert(NodeKey { warp_id, local_id }),
            r == !old(self)@.contains(NodeKey { warp_id, local_id }),
    {
        self.insert(NodeKey { warp_id, local_id })
    }
}

impl KeySet<EdgeKey> {
    /// Inserts the edge `local_id` of instance `warp_id`.
    pub fn insert_with_warp(&mut self, warp_id: WarpId, local_id: EdgeId) -> (r: bool)
        requires
            old(self).wf(),
        ensures
            final(self).wf(),
            final(self)@ == old(self)@.insert(EdgeKey { warp_id, local_id }),
            r == !old(self)@.contains(EdgeKey { warp_id, local_id }),
    {
        self.insert(EdgeKey { warp_id, local_id })
    }
}


/// The packed port key: the node id's first eight bytes (little-endian) in
/// the high half, the port id shifted past the direction bits, and the
/// direction in bit 0.
pub open spec fn port_key_spec(node: NodeId, port_id: u32, dir_in: bool) -> u64 {
    ((spec_u64_from_le_bytes(node.0@.subrange(0, 8)) << 32u64) | ((port_id as u64) << 2u64) | (if dir_in {
        1u64
    } else {
        0u64
    })) as u64
}

/// Packs a boundary port key from a node, a port id and a direction.
pub fn pack_port_key(node: &NodeId, port_id: u32, dir_in: bool) -> (r: PortKey)
    ensures
        r == port_key_spec(*node, port_id, dir_in),
{
    let node_bits = u64_from_le_bytes(vstd::slice::slice_subrange(node.0.as_slice(), 0, 8));
    let dir_bit: u64 = if dir_in { 1 } else { 0 };
    (node_bits << 32u64) | ((port_id as u64) << 2u64) | dir_bit
}

/// Declared read/write claim of a rewrite.
#[derive(Debug, PartialEq, Eq)]
pub struct Footprint {
    /// Nodes read.
    pub n_read: NodeSet,
    /// Nodes written.
    pub n_write: NodeSet,
    /// Edges read.
    pub e_read: EdgeSet,
    /// Edges written.
    pub e_write: EdgeSet,
    /// Attachments read.
    pub a_read: AttachmentSet,
    /// Attachments written.
    pub a_write: AttachmentSet,
    /// Input boundary ports.
    pub b_in: PortSet,
    /// Output boundary ports.
    pub b_out: PortSet,
    /// Factor mask used for coarse conflict screening.
    pub factor_mask: u64,
}

impl Footprint {
    /// Every set is canonical.
    pub open spec fn wf(&self) -> bool {
        &&& self.n_read.wf() && self.n_write.wf()
        &&& self.e_read.wf() && self.e_write.wf()
        &&& self.a_read.wf() && self.a_write.wf()
        &&& self.b_in.wf() && self.b_out.wf()
    }

    /// Copies the footprint.
    pub fn duplicate(&self) -> (r: Self)
        requires
            self.wf(),
        ensures
            r.wf(),
            r.n_read@ == self.n_read@ && r.n_write@ == self.n_write@,
            r.e_read@ == self.e_read@ && r.e_write@ == self.e_write@,
            r.a_read@ == self.a_read@ && r.a_write@ == self.a_write@,
            r.b_in@ == self.b_in@ && r.b_out@ == self.b_out@,
            r.factor_mask == self.factor_mask,
    {
        Footprint {
            n_read: self.n_read.duplicate(),
            n_write: self.n_write.duplicate(),
            e_read: self.e_read.duplicate(),
            e_write: self.e_write.duplicate(),
            a_read: self.a_read.duplicate(),
            a_write: self.a_write.duplicate(),
            b_in: self.b_in.duplicate(),
            b_out: self.b_out.duplicate(),
            factor_mask: self.factor_mask,
        }
    }
}

impl Default for Footprint {
    fn default() -> (r: Self)
        ensures
            r.wf(),
            r.n_read@ == Set::<NodeKey>::empty() && r.n_write@ == Set::<NodeKey>::empty(),
            r.e_read@ == Set::<EdgeKey>::empty() && r.e_write@ == Set::<EdgeKey>::empty(),
            r.a_read@ == Set::<AttachmentKey>::empty() && r.a_write@ == Set::<AttachmentKey>::empty(),
            r.b_in@ == Set::<WarpPort>::empty() && r.b_out@ == Set::<WarpPort>::empty(),
            r.factor_mask == 0,
    {
        Footprint {
            n_read: KeySet::new(),
            n_write: KeySet::new(),
            e_read: KeySet::new(),
            e_write: KeySet::new(),
            a_read: KeySet::new(),
            a_write: KeySet::new(),
            b_in: PortSet::new(),
            b_out: PortSet::new(),
            factor_mask: 0,
        }
    }
}

} // verus!
