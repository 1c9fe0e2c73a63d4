//! Virtual shard routing for parallel execution.
//!
//! `shard = LE_u64(node_id[0..8]) & (NUM_SHARDS - 1)`; this formula is frozen.
use vstd::prelude::*;
use vstd::bytes::*;
use vstd::slice::*;
use crate::ident::NodeId;

verus! {

/// Number of virtual shards (a power of two).
pub const NUM_SHARDS: usize = 256;

/// Mask applied to the routing word.
pub const SHARD_MASK: u64 = 255;

/// Routing formula: the first eight id bytes read as a little-endian `u64`,
/// masked to the shard count.
pub open spec fn spec_shard_of(scope: NodeId) -> int {
    (spec_u64_from_le_bytes(scope.0@.subrange(0, 8)) & SHARD_MASK) as int
}

/// Computes the virtual shard of a scope node.
pub fn shard_of(scope: &NodeId) -> (r: usize)
    ensures
        r == spec_shard_of(*scope),
        r < NUM_SHARDS,
{
    let bytes = scope.0.as_slice();
    let first_8 = slice_subrange(bytes, 0, 8);
    let val = u64_from_le_bytes(first_8);
    let masked = val & SHARD_MASK;
    assert(masked < 256) by (bit_vector)
        requires
            masked == val & 255u64,
    ;
    masked as usize
}

/// Ids that agree on their first eight bytes route to the same shard.
pub proof fn lemma_shard_depends_only_on_first_eight_bytes(a: NodeId, b: NodeId)
    requires
        a.0@.subrange(0, 8) == b.0@.subrange(0, 8),
    ensures
        spec_shard_of(a) == spec_shard_of(b),
{
}

/// Every scope routes to a shard below `NUM_SHARDS`.
pub proof fn lemma_shard_in_bounds(scope: NodeId)
    ensures
        0 <= spec_shard_of(scope) < NUM_SHARDS,
{
    let val = spec_u64_from_le_bytes(scope.0@.subrange(0, 8));
    assert(val & 255u64 < 256) by (bit_vector);
}

/// Origin metadata attached to an emitted operation.
#[derive(Clone, Copy, Debug, Default, PartialEq, Eq, Hash, PartialOrd, Ord)]
pub struct OpOrigin {
    /// Ingress intent ordinal.
    pub intent_id: u64,
    /// Rule ordinal.
    pub rule_id: u32,
    /// Match ordinal within the rule.
    pub match_ix: u32,
    /// Op ordinal within the match.
    pub op_ix: u32,
}

/// A single rewrite ready for execution; `F` is the executor handle.
#[derive(Clone, Copy, Debug)]
pub struct ExecItem<F> {
    /// The execution function to run.
    pub exec_fn: F,
    /// The scope node for this execution.
    pub scope: NodeId,
    /// Origin metadata for tracking.
    pub origin: OpOrigin,
}

impl<F> ExecItem<F> {
    /// Creates a new user-level execution item.
    pub fn new(exec_fn: F, scope: NodeId, origin: OpOrigin) -> (r: Self)
        ensures
            r.exec_fn == exec_fn,
            r.scope == scope,
            r.origin == origin,
    {
        ExecItem { exec_fn, scope, origin }
    }
}

/// A virtual shard containing items that share locality.
#[derive(Debug)]
pub struct VirtualShard<F> {
    /// Items assigned to this shard.
    pub items: Vec<ExecItem<F>>,
}

/// The items routed to shard `s`, in input order.
pub open spec fn shard_members<F>(items: Seq<ExecItem<F>>, s: int) -> Seq<ExecItem<F>> {
    items.filter(|it: ExecItem<F>| spec_shard_of(it.scope) == s)
}

/// Partitions items into exactly `NUM_SHARDS` shards by scope; shard `s`
/// holds, in input order, exactly the items whose scope routes to `s`.
pub fn partition_into_shards<F: Copy>(items: &[ExecItem<F>]) -> (shards: Vec<VirtualShard<F>>)
    ensures
        shards@.len() == NUM_SHARDS,
        forall|s: int| 0 <= s < NUM_SHARDS ==> #[trigger] shards@[s].items@ == shard_members(items@, s),
{
    let mut shards: Vec<VirtualShard<F>> = Vec::new();
    let mut s: usize = 0;
    while s < NUM_SHARDS
        invariant
            s <= NUM_SHARDS,
            shards@.len() == s,
            forall|t: int| 0 <= t < s ==> #[trigger] shards@[t].items@ == shard_members(items@, t),
        decreases NUM_SHARDS - s,
    {
        let mut members: Vec<ExecItem<F>> = Vec::new();
        let mut i: usize = 0;
        while i < items.len()
            invariant
                i <= items.len(),
                members@ == shard_members(items@.subrange(0, i as int), s as int),
            decreases items.len() - i,
        {
            let item = items[i];
            let sid = shard_of(&item.scope);
            proof {
                let pred = |it: ExecItem<F>| spec_shard_of(it.scope) == s as int;
                assert(items@.subrange(0, i + 1) =~= items@.subrange(0, i as int).push(items@[i as int]));
                items@.subrange(0, i as int).lemma_filter_push(items@[i as int], pred);
            }
            if sid == s {
                members.push(item);
            }
            i += 1;
        }
        assert(items@.subrange(0, items@.len() as int) =~= items@);
        shards.push(VirtualShard { items: members });
        s += 1;
    }
    shards
}

} // verus!
