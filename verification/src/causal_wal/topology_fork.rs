//! Strand fork evidence: writer heads are kept in canonical
//! `(worldline, head)` order, so equal forks encode equally.
use vstd::prelude::*;
use vstd::bytes::*;
use crate::causal_wal::topology_codec::{
    heads_bytes, lemma_take_hash, lemma_take_heads, lemma_take_opt_hash, lemma_take_u64, push_heads, rd_hash,
    rd_heads, rd_opt_hash, rd_u64, take_hash, take_heads, take_opt_hash, take_u64, unread,
};
use crate::causal_wal::WalDecodeError;
use crate::encoding::{optional_hash_bytes, push_hash, push_optional_hash, push_u64_le, ByteCursor};
use crate::head::WriterHeadKey;
use crate::ident::{StrandId, WorldlineId, WorldlineTick};
use crate::order::{lemma_sort_strictly_sorted, sort_by_key, sort_by_key_spec, strictly_sorted_by_key};

verus! {

broadcast use vstd::seq_lib::group_to_multiset_ensures;

/// WAL evidence that one strand fork intent was accepted.
#[derive(Clone, Debug, PartialEq, Eq)]
pub struct StrandForkRecord {
    /// Stable topology intent id.
    pub topology_intent_id: crate::ident::Hash,
    /// Forked strand identity.
    pub strand_id: StrandId,
    /// Source worldline the strand was forked from.
    pub source_worldline_id: WorldlineId,
    /// Last included source tick in the copied prefix.
    pub fork_tick: WorldlineTick,
    /// Source commit hash at `fork_tick`.
    pub source_commit_hash: crate::ident::Hash,
    /// Source boundary hash at `fork_tick`.
    pub source_boundary_hash: crate::ident::Hash,
    /// Child worldline created for the strand.
    pub child_worldline_id: WorldlineId,
    /// Writer heads created for the child worldline.
    pub writer_heads: Vec<WriterHeadKey>,
    /// Digest of the accepted retention-posture bundle.
    pub retention_posture_digest: crate::ident::Hash,
    /// Issuer or session evidence digest.
    pub issuer_evidence_digest: crate::ident::Hash,
    /// Optional idempotency key supplied with the fork intent.
    pub idempotency_key_digest: Option<crate::ident::Hash>,
}

/// A strand fork record with its writer heads as a sequence.
pub struct StrandForkView {
    pub topology_intent_id: crate::ident::Hash,
    pub strand_id: StrandId,
    pub source_worldline_id: WorldlineId,
    pub fork_tick: WorldlineTick,
    pub source_commit_hash: crate::ident::Hash,
    pub source_boundary_hash: crate::ident::Hash,
    pub child_worldline_id: WorldlineId,
    pub writer_heads: Seq<WriterHeadKey>,
    pub retention_posture_digest: crate::ident::Hash,
    pub issuer_evidence_digest: crate::ident::Hash,
    pub idempotency_key_digest: Option<crate::ident::Hash>,
}

impl View for StrandForkRecord {
    type V = StrandForkView;

    open spec fn view(&self) -> StrandForkView {
        StrandForkView {
            topology_intent_id: self.topology_intent_id,
            strand_id: self.strand_id,
            source_worldline_id: self.source_worldline_id,
            fork_tick: self.fork_tick,
            source_commit_hash: self.source_commit_hash,
            source_boundary_hash: self.source_boundary_hash,
            child_worldline_id: self.child_worldline_id,
            writer_heads: self.writer_heads@,
            retention_posture_digest: self.retention_posture_digest,
            issuer_evidence_digest: self.issuer_evidence_digest,
            idempotency_key_digest: self.idempotency_key_digest,
        }
    }
}

/// The fork with its writer heads in canonical order.
pub open spec fn canonical_fork(v: StrandForkView) -> StrandForkView {
    StrandForkView { writer_heads: sort_by_key_spec(v.writer_heads), ..v }
}

/// Payload bytes: the fields in declaration order, the writer heads counted
/// and in canonical order.
pub open spec fn fork_bytes(v: StrandForkView) -> Seq<u8> {
    let hs = sort_by_key_spec(v.writer_heads);
    v.topology_intent_id@ + v.strand_id.0@ + v.source_worldline_id.0@ + spec_u64_to_le_bytes(v.fork_tick.0)
        + v.source_commit_hash@ + v.source_boundary_hash@ + v.child_worldline_id.0@ + spec_u64_to_le_bytes(
        hs.len() as u64,
    ) + heads_bytes(hs) + v.retention_posture_digest@ + v.issuer_evidence_digest@ + optional_hash_bytes(
        v.idempotency_key_digest,
    )
}

/// The fork the bytes encode, writer heads put in canonical order.
pub open spec fn fork_parse(s0: Seq<u8>) -> Option<StrandForkView> {
    match take_hash(s0) {
        Some((a, s1)) => match take_hash(s1) {
            Some((b, s2)) => match take_hash(s2) {
                Some((c, s3)) => match take_u64(s3) {
                    Some((d, s4)) => match take_hash(s4) {
                        Some((e, s5)) => match take_hash(s5) {
                            Some((f, s6)) => match take_hash(s6) {
                                Some((g, s7)) => match take_u64(s7) {
                                    Some((n, s8)) => match take_heads(s8, n as nat) {
                                        Some((hs, s9)) => match take_hash(s9) {
                                            Some((h, s10)) => match take_hash(s10) {
                                                Some((i, s11)) => match take_opt_hash(s11) {
                                                    Some((j, s12)) => if s12.len() == 0 {
                                                        Some(
                                                            StrandForkView {
                                                                topology_intent_id: a,
                                                                strand_id: StrandId(b),
                                                                source_worldline_id: WorldlineId(c),
                                                                fork_tick: WorldlineTick(d),
                                                                source_commit_hash: e,
                                                                source_boundary_hash: f,
                                                                child_worldline_id: WorldlineId(g),
                                                                writer_heads: sort_by_key_spec(hs),
                                                                retention_posture_digest: h,
                                                                issuer_evidence_digest: i,
                                                                idempotency_key_digest: j,
                                                            },
                                                        )
                                                    } else {
                                                        None
                                                    },
                                                    None => None,
                                                },
                                                None => None,
                                            },
                                            None => None,
                                        },
                                        None => None,
                                    },
                                    None => None,
                                },
                                None => None,
                            },
                            None => None,
                        },
                        None => None,
                    },
                    None => None,
                },
                None => None,
            },
            None => None,
        },
        None => None,
    }
}

fn copy_heads(v: &Vec<WriterHeadKey>) -> (r: Vec<WriterHeadKey>)
    ensures
        r@ == v@,
{
    let mut r: Vec<WriterHeadKey> = Vec::new();
    let mut i: usize = 0;
    while i < v.len()
        invariant
            i <= v@.len(),
            r@ == v@.take(i as int),
        decreases v.len() - i,
    {
        r.push(v[i]);
        i += 1;
        assert(r@ =~= v@.take(i as int));
    }
    assert(v@.take(v@.len() as int) =~= v@);
    r
}

impl StrandForkRecord {
    /// A copy with writer heads in canonical `(worldline_id, head_id)` order.
    pub fn canonicalized(&self) -> (r: Self)
        ensures
            r@ == canonical_fork(self@),
    {
        StrandForkRecord {
            topology_intent_id: self.topology_intent_id,
            strand_id: self.strand_id,
            source_worldline_id: self.source_worldline_id,
            fork_tick: self.fork_tick,
            source_commit_hash: self.source_commit_hash,
            source_boundary_hash: self.source_boundary_hash,
            child_worldline_id: self.child_worldline_id,
            writer_heads: sort_by_key(copy_heads(&self.writer_heads)),
            retention_posture_digest: self.retention_posture_digest,
            issuer_evidence_digest: self.issuer_evidence_digest,
            idempotency_key_digest: self.idempotency_key_digest,
        }
    }

    /// Encodes the record as deterministic WAL payload bytes.
    pub fn to_payload_bytes(&self) -> (r: Vec<u8>)
        ensures
            r@ == fork_bytes(self@),
    {
        let heads = sort_by_key(copy_heads(&self.writer_heads));
        let mut out: Vec<u8> = Vec::new();
        push_hash(&mut out, &self.topology_intent_id);
        push_hash(&mut out, &self.strand_id.0);
        push_hash(&mut out, &self.source_worldline_id.0);
        push_u64_le(&mut out, self.fork_tick.0);
        push_hash(&mut out, &self.source_commit_hash);
        push_hash(&mut out, &self.source_boundary_hash);
        push_hash(&mut out, &self.child_worldline_id.0);
        push_u64_le(&mut out, heads.len() as u64);
        push_heads(&mut out, &heads);
        push_hash(&mut out, &self.retention_posture_digest);
        push_hash(&mut out, &self.issuer_evidence_digest);
        push_optional_hash(&mut out, self.idempotency_key_digest);
        assert(out@ =~= fork_bytes(self@));
        out
    }

    /// Decodes a payload: the fork its bytes encode, with writer heads in
    /// canonical order, or an error when they encode none.
    pub fn from_payload_bytes(bytes: &[u8]) -> (r: Result<Self, WalDecodeError>)
        ensures
            match fork_parse(bytes@) {
                Some(v) => r matches Ok(x) && x@ == v,
                None => r is Err,
            },
    {
        let mut c = ByteCursor::new(bytes);
        assert(unread(c) =~= bytes@);
        let a = rd_hash(&mut c)?;
        let b = rd_hash(&mut c)?;
        let cc = rd_hash(&mut c)?;
        let d = rd_u64(&mut c)?;
        let e = rd_hash(&mut c)?;
        let f = rd_hash(&mut c)?;
        let g = rd_hash(&mut c)?;
        let n = rd_u64(&mut c)?;
        let hs = rd_heads(&mut c, n)?;
        let h = rd_hash(&mut c)?;
        let i = rd_hash(&mut c)?;
        let j = rd_opt_hash(&mut c)?;
        if !c.at_end() {
            return Err(WalDecodeError::TrailingBytes);
        }
        Ok(
            StrandForkRecord {
                topology_intent_id: a,
                strand_id: StrandId(b),
                source_worldline_id: WorldlineId(cc),
                fork_tick: WorldlineTick(d),
                source_commit_hash: e,
                source_boundary_hash: f,
                child_worldline_id: WorldlineId(g),
                writer_heads: sort_by_key(hs),
                retention_posture_digest: h,
                issuer_evidence_digest: i,
                idempotency_key_digest: j,
            },
        )
    }

    /// A fork whose writer heads are already in canonical order reads back as written.
    pub proof fn lemma_round_trip(v: StrandForkView)
        requires
            strictly_sorted_by_key(v.writer_heads),
            v.writer_heads.len() <= u64::MAX,
        ensures
            fork_parse(fork_bytes(v)) == Some(v),
    {
        lemma_sort_strictly_sorted(v.writer_heads);
        let hs = v.writer_heads;
        let e = Seq::<u8>::empty();
        let r11 = optional_hash_bytes(v.idempotency_key_digest) + e;
        let r10 = v.issuer_evidence_digest@ + r11;
        let r9 = v.retention_posture_digest@ + r10;
        let r8 = heads_bytes(hs) + r9;
        let r7 = spec_u64_to_le_bytes(hs.len() as u64) + r8;
        let r6 = v.child_worldline_id.0@ + r7;
        let r5 = v.source_boundary_hash@ + r6;
        let r4 = v.source_commit_hash@ + r5;
        let r3 = spec_u64_to_le_bytes(v.fork_tick.0) + r4;
        let r2 = v.source_worldline_id.0@ + r3;
        let r1 = v.strand_id.0@ + r2;
        assert(fork_bytes(v) =~= v.topology_intent_id@ + r1);
        lemma_take_hash(v.topology_intent_id, r1);
        lemma_take_hash(v.strand_id.0, r2);
        lemma_take_hash(v.source_worldline_id.0, r3);
        lemma_take_u64(v.fork_tick.0, r4);
        lemma_take_hash(v.source_commit_hash, r5);
        lemma_take_hash(v.source_boundary_hash, r6);
        lemma_take_hash(v.child_worldline_id.0, r7);
        lemma_take_u64(hs.len() as u64, r8);
        lemma_take_heads(hs, r9);
        lemma_take_hash(v.retention_posture_digest, r10);
        lemma_take_hash(v.issuer_evidence_digest, r11);
        lemma_take_opt_hash(v.idempotency_key_digest, e);
        assert(r11 =~= optional_hash_bytes(v.idempotency_key_digest) + e);
    }
}

} // verus!
