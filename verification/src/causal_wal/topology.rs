//! Topology evidence records carried by topology-intent transactions:
//! strand forks and drops, braid events, retained braid shells and suffix
//! imports, each with a deterministic payload that reads back as written.
use vstd::prelude::*;
use vstd::bytes::*;
use crate::braid::{BraidEvent, BraidStatus};
use crate::causal_wal::records::TopologyImportOutcomeKind;
use crate::causal_wal::topology_codec::{
    event_bytes, lemma_take_event, lemma_take_hash, lemma_take_kind, lemma_take_opt_hash, lemma_take_status, lemma_take_u64,
    push_event, push_status, rd_event, rd_hash, rd_kind, rd_opt_hash, rd_status, rd_u64, status_code, take_event, take_hash,
    take_kind, take_opt_hash, take_status, take_u64, unread,
};
use crate::causal_wal::WalDecodeError;
use crate::encoding::{optional_hash_bytes, push_hash, push_optional_hash, push_u64_le, push_u8, ByteCursor};
use crate::ident::{StrandId, WorldlineId, WorldlineTick};

verus! {

/// WAL evidence that one strand drop intent was accepted.
#[derive(Clone, Copy, Debug, PartialEq, Eq)]
pub struct StrandDropRecord {
    /// Stable topology intent id.
    pub topology_intent_id: crate::ident::Hash,
    /// Dropped strand identity.
    pub strand_id: StrandId,
    /// Child worldline removed from the live strand registry.
    pub child_worldline_id: WorldlineId,
    /// Final child-worldline tick at drop time.
    pub final_tick: WorldlineTick,
    /// Digest of the drop receipt returned after durable acceptance.
    pub drop_receipt_digest: crate::ident::Hash,
    /// Issuer or session evidence digest.
    pub issuer_evidence_digest: crate::ident::Hash,
    /// Optional idempotency key supplied with the drop intent.
    pub idempotency_key_digest: Option<crate::ident::Hash>,
}

/// Payload bytes of the record: its fields in declaration order.
pub open spec fn drop_bytes(x: StrandDropRecord) -> Seq<u8> {
    x.topology_intent_id@ + x.strand_id.0@ + x.child_worldline_id.0@ + spec_u64_to_le_bytes(x.final_tick.0) + x.drop_receipt_digest@ + x.issuer_evidence_digest@ + optional_hash_bytes(x.idempotency_key_digest)
}

/// The record the bytes encode, read field by field with nothing left over.
pub open spec fn drop_parse(s0: Seq<u8>) -> Option<StrandDropRecord> {
    match take_hash(s0) { Some((w0, s1)) => { let v0 = w0; match take_hash(s1) { Some((w1, s2)) => { let v1 = StrandId(w1); match take_hash(s2) { Some((w2, s3)) => { let v2 = WorldlineId(w2); match take_u64(s3) { Some((w3, s4)) => { let v3 = WorldlineTick(w3); match take_hash(s4) { Some((w4, s5)) => { let v4 = w4; match take_hash(s5) { Some((w5, s6)) => { let v5 = w5; match take_opt_hash(s6) { Some((w6, s7)) => { let v6 = w6; if s7.len() == 0 { Some(StrandDropRecord { topology_intent_id: v0, strand_id: v1, child_worldline_id: v2, final_tick: v3, drop_receipt_digest: v4, issuer_evidence_digest: v5, idempotency_key_digest: v6 }) } else { None } }, None => None } }, None => None } }, None => None } }, None => None } }, None => None } }, None => None } }, None => None }
}

impl StrandDropRecord {
    /// Encodes the record as deterministic WAL payload bytes.
    pub fn to_payload_bytes(&self) -> (r: Vec<u8>)
        ensures
            r@ == drop_bytes(*self),
    {
        let mut out: Vec<u8> = Vec::new();
        push_hash(&mut out, &self.topology_intent_id);
        push_hash(&mut out, &self.strand_id.0);
        push_hash(&mut out, &self.child_worldline_id.0);
        push_u64_le(&mut out, self.final_tick.0);
        push_hash(&mut out, &self.drop_receipt_digest);
        push_hash(&mut out, &self.issuer_evidence_digest);
        push_optional_hash(&mut out, self.idempotency_key_digest);
        assert(out@ =~= drop_bytes(*self));
        out
    }

    /// Decodes a payload: the record its bytes encode, or an error when they
    /// encode none.
    pub fn from_payload_bytes(bytes: &[u8]) -> (r: Result<Self, WalDecodeError>)
        ensures
            match drop_parse(bytes@) {
                Some(x) => r == Ok::<Self, WalDecodeError>(x),
                None => r is Err,
            },
    {
        let mut c = ByteCursor::new(bytes);
        assert(unread(c) =~= bytes@);
        let v0 = rd_hash(&mut c)?;
        let v1 = StrandId(rd_hash(&mut c)?);
        let v2 = WorldlineId(rd_hash(&mut c)?);
        let v3 = WorldlineTick(rd_u64(&mut c)?);
        let v4 = rd_hash(&mut c)?;
        let v5 = rd_hash(&mut c)?;
        let v6 = rd_opt_hash(&mut c)?;
        if !c.at_end() {
            return Err(WalDecodeError::TrailingBytes);
        }
        Ok(StrandDropRecord { topology_intent_id: v0, strand_id: v1, child_worldline_id: v2, final_tick: v3, drop_receipt_digest: v4, issuer_evidence_digest: v5, idempotency_key_digest: v6 })
    }

    /// The payload reads back as the record.
    pub proof fn lemma_round_trip(x: Self)
        ensures
            drop_parse(drop_bytes(x)) == Some(x),
    {
        let s = drop_bytes(x);
        assert(s =~= (x.topology_intent_id@ + (x.strand_id.0@ + (x.child_worldline_id.0@ + (spec_u64_to_le_bytes(x.final_tick.0) + (x.drop_receipt_digest@ + (x.issuer_evidence_digest@ + (optional_hash_bytes(x.idempotency_key_digest) + Seq::<u8>::empty()))))))));
        assert(s + Seq::<u8>::empty() =~= s);
        lemma_take_hash(x.topology_intent_id, (x.strand_id.0@ + (x.child_worldline_id.0@ + (spec_u64_to_le_bytes(x.final_tick.0) + (x.drop_receipt_digest@ + (x.issuer_evidence_digest@ + (optional_hash_bytes(x.idempotency_key_digest) + Seq::<u8>::empty())))))));
        lemma_take_hash(x.strand_id.0, (x.child_worldline_id.0@ + (spec_u64_to_le_bytes(x.final_tick.0) + (x.drop_receipt_digest@ + (x.issuer_evidence_digest@ + (optional_hash_bytes(x.idempotency_key_digest) + Seq::<u8>::empty()))))));
        lemma_take_hash(x.child_worldline_id.0, (spec_u64_to_le_bytes(x.final_tick.0) + (x.drop_receipt_digest@ + (x.issuer_evidence_digest@ + (optional_hash_bytes(x.idempotency_key_digest) + Seq::<u8>::empty())))));
        lemma_take_u64(x.final_tick.0, (x.drop_receipt_digest@ + (x.issuer_evidence_digest@ + (optional_hash_bytes(x.idempotency_key_digest) + Seq::<u8>::empty()))));
        lemma_take_hash(x.drop_receipt_digest, (x.issuer_evidence_digest@ + (optional_hash_bytes(x.idempotency_key_digest) + Seq::<u8>::empty())));
        lemma_take_hash(x.issuer_evidence_digest, (optional_hash_bytes(x.idempotency_key_digest) + Seq::<u8>::empty()));
        lemma_take_opt_hash(x.idempotency_key_digest, Seq::<u8>::empty());
    }
}

/// WAL evidence that one braid lifecycle event was accepted.
#[derive(Clone, Copy, Debug, PartialEq, Eq)]
pub struct TopologyBraidEventRecord {
    /// Stable topology intent id.
    pub topology_intent_id: crate::ident::Hash,
    /// Braid whose event log accepted the event.
    pub braid_id: crate::ident::Hash,
    /// Sequence number in the durable braid event log.
    pub event_index: u64,
    /// Accepted braid event.
    pub event: BraidEvent,
    /// Folded braid status after accepting the event.
    pub status_after: BraidStatus,
    /// Digest of the accepted event payload.
    pub event_digest: crate::ident::Hash,
    /// Issuer or session evidence digest.
    pub issuer_evidence_digest: crate::ident::Hash,
    /// Optional idempotency key supplied with the braid event intent.
    pub idempotency_key_digest: Option<crate::ident::Hash>,
}

/// Payload bytes of the record: its fields in declaration order.
pub open spec fn braid_event_bytes(x: TopologyBraidEventRecord) -> Seq<u8> {
    x.topology_intent_id@ + x.braid_id@ + spec_u64_to_le_bytes(x.event_index) + event_bytes(x.event) + seq![status_code(x.status_after)] + x.event_digest@ + x.issuer_evidence_digest@ + optional_hash_bytes(x.idempotency_key_digest)
}

/// The record the bytes encode, read field by field with nothing left over.
pub open spec fn braid_event_parse(s0: Seq<u8>) -> Option<TopologyBraidEventRecord> {
    match take_hash(s0) { Some((w0, s1)) => { let v0 = w0; match take_hash(s1) { Some((w1, s2)) => { let v1 = w1; match take_u64(s2) { Some((w2, s3)) => { let v2 = w2; match take_event(s3) { Some((w3, s4)) => { let v3 = w3; match take_status(s4) { Some((w4, s5)) => { let v4 = w4; match take_hash(s5) { Some((w5, s6)) => { let v5 = w5; match take_hash(s6) { Some((w6, s7)) => { let v6 = w6; match take_opt_hash(s7) { Some((w7, s8)) => { let v7 = w7; if s8.len() == 0 { Some(TopologyBraidEventRecord { topology_intent_id: v0, braid_id: v1, event_index: v2, event: v3, status_after: v4, event_digest: v5, issuer_evidence_digest: v6, idempotency_key_digest: v7 }) } else { None } }, None => None } }, None => None } }, None => None } }, None => None } }, None => None } }, None => None } }, None => None } }, None => None }
}

impl TopologyBraidEventRecord {
    /// Encodes the record as deterministic WAL payload bytes.
    pub fn to_payload_bytes(&self) -> (r: Vec<u8>)
        ensures
            r@ == braid_event_bytes(*self),
    {
        let mut out: Vec<u8> = Vec::new();
        push_hash(&mut out, &self.topology_intent_id);
        push_hash(&mut out, &self.braid_id);
        push_u64_le(&mut out, self.event_index);
        push_event(&mut out, &self.event);
        push_status(&mut out, self.status_after);
        push_hash(&mut out, &self.event_digest);
        push_hash(&mut out, &self.issuer_evidence_digest);
        push_optional_hash(&mut out, self.idempotency_key_digest);
        assert(out@ =~= braid_event_bytes(*self));
        out
    }

    /// Decodes a payload: the record its bytes encode, or an error when they
    /// encode none.
    pub fn from_payload_bytes(bytes: &[u8]) -> (r: Result<Self, WalDecodeError>)
        ensures
            match braid_event_parse(bytes@) {
                Some(x) => r == Ok::<Self, WalDecodeError>(x),
                None => r is Err,
            },
    {
        let mut c = ByteCursor::new(bytes);
        assert(unread(c) =~= bytes@);
        let v0 = rd_hash(&mut c)?;
        let v1 = rd_hash(&mut c)?;
        let v2 = rd_u64(&mut c)?;
        let v3 = rd_event(&mut c)?;
        let v4 = rd_status(&mut c)?;
        let v5 = rd_hash(&mut c)?;
        let v6 = rd_hash(&mut c)?;
        let v7 = rd_opt_hash(&mut c)?;
        if !c.at_end() {
            return Err(WalDecodeError::TrailingBytes);
        }
        Ok(TopologyBraidEventRecord { topology_intent_id: v0, braid_id: v1, event_index: v2, event: v3, status_after: v4, event_digest: v5, issuer_evidence_digest: v6, idempotency_key_digest: v7 })
    }

    /// The payload reads back as the record.
    pub proof fn lemma_round_trip(x: Self)
        ensures
            braid_event_parse(braid_event_bytes(x)) == Some(x),
    {
        let s = braid_event_bytes(x);
        assert(s =~= (x.topology_intent_id@ + (x.braid_id@ + (spec_u64_to_le_bytes(x.event_index) + (event_bytes(x.event) + (seq![status_code(x.status_after)] + (x.event_digest@ + (x.issuer_evidence_digest@ + (optional_hash_bytes(x.idempotency_key_digest) + Seq::<u8>::empty())))))))));
        assert(s + Seq::<u8>::empty() =~= s);
        lemma_take_hash(x.topology_intent_id, (x.braid_id@ + (spec_u64_to_le_bytes(x.event_index) + (event_bytes(x.event) + (seq![status_code(x.status_after)] + (x.event_digest@ + (x.issuer_evidence_digest@ + (optional_hash_bytes(x.idempotency_key_digest) + Seq::<u8>::empty()))))))));
        lemma_take_hash(x.braid_id, (spec_u64_to_le_bytes(x.event_index) + (event_bytes(x.event) + (seq![status_code(x.status_after)] + (x.event_digest@ + (x.issuer_evidence_digest@ + (optional_hash_bytes(x.idempotency_key_digest) + Seq::<u8>::empty())))))));
        lemma_take_u64(x.event_index, (event_bytes(x.event) + (seq![status_code(x.status_after)] + (x.event_digest@ + (x.issuer_evidence_digest@ + (optional_hash_bytes(x.idempotency_key_digest) + Seq::<u8>::empty()))))));
        lemma_take_event(x.event, (seq![status_code(x.status_after)] + (x.event_digest@ + (x.issuer_evidence_digest@ + (optional_hash_bytes(x.idempotency_key_digest) + Seq::<u8>::empty())))));
        lemma_take_status(x.status_after, (x.event_digest@ + (x.issuer_evidence_digest@ + (optional_hash_bytes(x.idempotency_key_digest) + Seq::<u8>::empty()))));
        lemma_take_hash(x.event_digest, (x.issuer_evidence_digest@ + (optional_hash_bytes(x.idempotency_key_digest) + Seq::<u8>::empty())));
        lemma_take_hash(x.issuer_evidence_digest, (optional_hash_bytes(x.idempotency_key_digest) + Seq::<u8>::empty()));
        lemma_take_opt_hash(x.idempotency_key_digest, Seq::<u8>::empty());
    }
}

/// WAL evidence that a braid shell was retained.
#[derive(Clone, Copy, Debug, PartialEq, Eq)]
pub struct BraidShellRetentionRecord {
    /// Stable topology intent id.
    pub topology_intent_id: crate::ident::Hash,
    /// Braid associated with the shell.
    pub braid_id: crate::ident::Hash,
    /// Retained shell digest.
    pub shell_digest: crate::ident::Hash,
    /// Digest of retained shell material.
    pub material_digest: crate::ident::Hash,
    /// Digest of the shell coordinate or basis.
    pub basis_digest: crate::ident::Hash,
    /// Admission outcome family carried by the shell.
    pub outcome_kind: TopologyImportOutcomeKind,
    /// Retention posture digest for the shell material.
    pub retention_posture_digest: crate::ident::Hash,
    /// Witness digest binding the retained hologram.
    pub witness_digest: crate::ident::Hash,
    /// Optional idempotency key supplied with the retention intent.
    pub idempotency_key_digest: Option<crate::ident::Hash>,
}

/// Payload bytes of the record: its fields in declaration order.
pub open spec fn shell_bytes(x: BraidShellRetentionRecord) -> Seq<u8> {
    x.topology_intent_id@ + x.braid_id@ + x.shell_digest@ + x.material_digest@ + x.basis_digest@ + seq![x.outcome_kind.code_spec()] + x.retention_posture_digest@ + x.witness_digest@ + optional_hash_bytes(x.idempotency_key_digest)
}

/// The record the bytes encode, read field by field with nothing left over.
pub open spec fn shell_parse(s0: Seq<u8>) -> Option<BraidShellRetentionRecord> {
    match take_hash(s0) { Some((w0, s1)) => { let v0 = w0; match take_hash(s1) { Some((w1, s2)) => { let v1 = w1; match take_hash(s2) { Some((w2, s3)) => { let v2 = w2; match take_hash(s3) { Some((w3, s4)) => { let v3 = w3; match take_hash(s4) { Some((w4, s5)) => { let v4 = w4; match take_kind(s5) { Some((w5, s6)) => { let v5 = w5; match take_hash(s6) { Some((w6, s7)) => { let v6 = w6; match take_hash(s7) { Some((w7, s8)) => { let v7 = w7; match take_opt_hash(s8) { Some((w8, s9)) => { let v8 = w8; if s9.len() == 0 { Some(BraidShellRetentionRecord { topology_intent_id: v0, braid_id: v1, shell_digest: v2, material_digest: v3, basis_digest: v4, outcome_kind: v5, retention_posture_digest: v6, witness_digest: v7, idempotency_key_digest: v8 }) } else { None } }, None => None } }, None => None } }, None => None } }, None => None } }, None => None } }, None => None } }, None => None } }, None => None } }, None => None }
}

impl BraidShellRetentionRecord {
    /// Encodes the record as deterministic WAL payload bytes.
    pub fn to_payload_bytes(&self) -> (r: Vec<u8>)
        ensures
            r@ == shell_bytes(*self),
    {
        let mut out: Vec<u8> = Vec::new();
        push_hash(&mut out, &self.topology_intent_id);
        push_hash(&mut out, &self.braid_id);
        push_hash(&mut out, &self.shell_digest);
        push_hash(&mut out, &self.material_digest);
        push_hash(&mut out, &self.basis_digest);
        push_u8(&mut out, self.outcome_kind.stable_code());
        push_hash(&mut out, &self.retention_posture_digest);
        push_hash(&mut out, &self.witness_digest);
        push_optional_hash(&mut out, self.idempotency_key_digest);
        assert(out@ =~= shell_bytes(*self));
        out
    }

    /// Decodes a payload: the record its bytes encode, or an error when they
    /// encode none.
    pub fn from_payload_bytes(bytes: &[u8]) -> (r: Result<Self, WalDecodeError>)
        ensures
            match shell_parse(bytes@) {
                Some(x) => r == Ok::<Self, WalDecodeError>(x),
                None => r is Err,
            },
    {
        let mut c = ByteCursor::new(bytes);
        assert(unread(c) =~= bytes@);
        let v0 = rd_hash(&mut c)?;
        let v1 = rd_hash(&mut c)?;
        let v2 = rd_hash(&mut c)?;
        let v3 = rd_hash(&mut c)?;
        let v4 = rd_hash(&mut c)?;
        let v5 = rd_kind(&mut c)?;
        let v6 = rd_hash(&mut c)?;
        let v7 = rd_hash(&mut c)?;
        let v8 = rd_opt_hash(&mut c)?;
        if !c.at_end() {
            return Err(WalDecodeError::TrailingBytes);
        }
        Ok(BraidShellRetentionRecord { topology_intent_id: v0, braid_id: v1, shell_digest: v2, material_digest: v3, basis_digest: v4, outcome_kind: v5, retention_posture_digest: v6, witness_digest: v7, idempotency_key_digest: v8 })
    }

    /// The payload reads back as the record.
    pub proof fn lemma_round_trip(x: Self)
        ensures
            shell_parse(shell_bytes(x)) == Some(x),
    {
        let s = shell_bytes(x);
        assert(s =~= (x.topology_intent_id@ + (x.braid_id@ + (x.shell_digest@ + (x.material_digest@ + (x.basis_digest@ + (seq![x.outcome_kind.code_spec()] + (x.retention_posture_digest@ + (x.witness_digest@ + (optional_hash_bytes(x.idempotency_key_digest) + Seq::<u8>::empty()))))))))));
        assert(s + Seq::<u8>::empty() =~= s);
        lemma_take_hash(x.topology_intent_id, (x.braid_id@ + (x.shell_digest@ + (x.material_digest@ + (x.basis_digest@ + (seq![x.outcome_kind.code_spec()] + (x.retention_posture_digest@ + (x.witness_digest@ + (optional_hash_bytes(x.idempotency_key_digest) + Seq::<u8>::empty())))))))));
        lemma_take_hash(x.braid_id, (x.shell_digest@ + (x.material_digest@ + (x.basis_digest@ + (seq![x.outcome_kind.code_spec()] + (x.retention_posture_digest@ + (x.witness_digest@ + (optional_hash_bytes(x.idempotency_key_digest) + Seq::<u8>::empty()))))))));
        lemma_take_hash(x.shell_digest, (x.material_digest@ + (x.basis_digest@ + (seq![x.outcome_kind.code_spec()] + (x.retention_posture_digest@ + (x.witness_digest@ + (optional_hash_bytes(x.idempotency_key_digest) + Seq::<u8>::empty())))))));
        lemma_take_hash(x.material_digest, (x.basis_digest@ + (seq![x.outcome_kind.code_spec()] + (x.retention_posture_digest@ + (x.witness_digest@ + (optional_hash_bytes(x.idempotency_key_digest) + Seq::<u8>::empty()))))));
        lemma_take_hash(x.basis_digest, (seq![x.outcome_kind.code_spec()] + (x.retention_posture_digest@ + (x.witness_digest@ + (optional_hash_bytes(x.idempotency_key_digest) + Seq::<u8>::empty())))));
        lemma_take_kind(x.outcome_kind, (x.retention_posture_digest@ + (x.witness_digest@ + (optional_hash_bytes(x.idempotency_key_digest) + Seq::<u8>::empty()))));
        lemma_take_hash(x.retention_posture_digest, (x.witness_digest@ + (optional_hash_bytes(x.idempotency_key_digest) + Seq::<u8>::empty())));
        lemma_take_hash(x.witness_digest, (optional_hash_bytes(x.idempotency_key_digest) + Seq::<u8>::empty()));
        lemma_take_opt_hash(x.idempotency_key_digest, Seq::<u8>::empty());
    }
}

/// WAL evidence that one remote suffix import intent was accepted.
#[derive(Clone, Copy, Debug, PartialEq, Eq)]
pub struct SuffixImportRecord {
    /// Stable import intent id.
    pub import_id: crate::ident::Hash,
    /// Digest naming the remote suffix family.
    pub remote_suffix_family_digest: crate::ident::Hash,
    /// Digest of remote authorship evidence.
    pub authorship_evidence_digest: crate::ident::Hash,
    /// Digest of comparable local/remote basis anchors.
    pub basis_anchor_digest: crate::ident::Hash,
    /// Digest of the transported causal suffix bundle.
    pub bundle_digest: crate::ident::Hash,
    /// Digest of the source suffix shell.
    pub source_shell_digest: crate::ident::Hash,
    /// Digest of the target basis used for judgment.
    pub target_basis_digest: crate::ident::Hash,
    /// Top-level import admission outcome.
    pub outcome_kind: TopologyImportOutcomeKind,
    /// Digest of the retained import shell or obstruction shell.
    pub import_shell_digest: crate::ident::Hash,
    /// Retention posture digest for import evidence.
    pub retention_posture_digest: crate::ident::Hash,
    /// Idempotency key for duplicate transport delivery.
    pub idempotency_key_digest: crate::ident::Hash,
}

/// Payload bytes of the record: its fields in declaration order.
pub open spec fn suffix_import_bytes(x: SuffixImportRecord) -> Seq<u8> {
    x.import_id@ + x.remote_suffix_family_digest@ + x.authorship_evidence_digest@ + x.basis_anchor_digest@ + x.bundle_digest@ + x.source_shell_digest@ + x.target_basis_digest@ + seq![x.outcome_kind.code_spec()] + x.import_shell_digest@ + x.retention_posture_digest@ + x.idempotency_key_digest@
}

/// The record the bytes encode, read field by field with nothing left over.
pub open spec fn suffix_import_parse(s0: Seq<u8>) -> Option<SuffixImportRecord> {
    match take_hash(s0) { Some((w0, s1)) => { let v0 = w0; match take_hash(s1) { Some((w1, s2)) => { let v1 = w1; match take_hash(s2) { Some((w2, s3)) => { let v2 = w2; match take_hash(s3) { Some((w3, s4)) => { let v3 = w3; match take_hash(s4) { Some((w4, s5)) => { let v4 = w4; match take_hash(s5) { Some((w5, s6)) => { let v5 = w5; match take_hash(s6) { Some((w6, s7)) => { let v6 = w6; match take_kind(s7) { Some((w7, s8)) => { let v7 = w7; match take_hash(s8) { Some((w8, s9)) => { let v8 = w8; match take_hash(s9) { Some((w9, s10)) => { let v9 = w9; match take_hash(s10) { Some((w10, s11)) => { let v10 = w10; if s11.len() == 0 { Some(SuffixImportRecord { import_id: v0, remote_suffix_family_digest: v1, authorship_evidence_digest: v2, basis_anchor_digest: v3, bundle_digest: v4, source_shell_digest: v5, target_basis_digest: v6, outcome_kind: v7, import_shell_digest: v8, retention_posture_digest: v9, idempotency_key_digest: v10 }) } else { None } }, None => None } }, None => None } }, None => None } }, None => None } }, None => None } }, None => None } }, None => None } }, None => None } }, None => None } }, None => None } }, None => None }
}

impl SuffixImportRecord {
    /// Encodes the record as deterministic WAL payload bytes.
    pub fn to_payload_bytes(&self) -> (r: Vec<u8>)
        ensures
            r@ == suffix_import_bytes(*self),
    {
        let mut out: Vec<u8> = Vec::new();
        push_hash(&mut out, &self.import_id);
        push_hash(&mut out, &self.remote_suffix_family_digest);
        push_hash(&mut out, &self.authorship_evidence_digest);
        push_hash(&mut out, &self.basis_anchor_digest);
        push_hash(&mut out, &self.bundle_digest);
        push_hash(&mut out, &self.source_shell_digest);
        push_hash(&mut out, &self.target_basis_digest);
        push_u8(&mut out, self.outcome_kind.stable_code());
        push_hash(&mut out, &self.import_shell_digest);
        push_hash(&mut out, &self.retention_posture_digest);
        push_hash(&mut out, &self.idempotency_key_digest);
        assert(out@ =~= suffix_import_bytes(*self));
        out
    }

    /// Decodes a payload: the record its bytes encode, or an error when they
    /// encode none.
    pub fn from_payload_bytes(bytes: &[u8]) -> (r: Result<Self, WalDecodeError>)
        ensures
            match suffix_import_parse(bytes@) {
                Some(x) => r == Ok::<Self, WalDecodeError>(x),
                None => r is Err,
            },
    {
        let mut c = ByteCursor::new(bytes);
        assert(unread(c) =~= bytes@);
        let v0 = rd_hash(&mut c)?;
        let v1 = rd_hash(&mut c)?;
        let v2 = rd_hash(&mut c)?;
        let v3 = rd_hash(&mut c)?;
        let v4 = rd_hash(&mut c)?;
        let v5 = rd_hash(&mut c)?;
        let v6 = rd_hash(&mut c)?;
        let v7 = rd_kind(&mut c)?;
        let v8 = rd_hash(&mut c)?;
        let v9 = rd_hash(&mut c)?;
        let v10 = rd_hash(&mut c)?;
        if !c.at_end() {
            return Err(WalDecodeError::TrailingBytes);
        }
        Ok(SuffixImportRecord { import_id: v0, remote_suffix_family_digest: v1, authorship_evidence_digest: v2, basis_anchor_digest: v3, bundle_digest: v4, source_shell_digest: v5, target_basis_digest: v6, outcome_kind: v7, import_shell_digest: v8, retention_posture_digest: v9, idempotency_key_digest: v10 })
    }

    /// The payload reads back as the record.
    pub proof fn lemma_round_trip(x: Self)
        ensures
            suffix_import_parse(suffix_import_bytes(x)) == Some(x),
    {
        let s = suffix_import_bytes(x);
        assert(s =~= (x.import_id@ + (x.remote_suffix_family_digest@ + (x.authorship_evidence_digest@ + (x.basis_anchor_digest@ + (x.bundle_digest@ + (x.source_shell_digest@ + (x.target_basis_digest@ + (seq![x.outcome_kind.code_spec()] + (x.import_shell_digest@ + (x.retention_posture_digest@ + (x.idempotency_key_digest@ + Seq::<u8>::empty()))))))))))));
        assert(s + Seq::<u8>::empty() =~= s);
        lemma_take_hash(x.import_id, (x.remote_suffix_family_digest@ + (x.authorship_evidence_digest@ + (x.basis_anchor_digest@ + (x.bundle_digest@ + (x.source_shell_digest@ + (x.target_basis_digest@ + (seq![x.outcome_kind.code_spec()] + (x.import_shell_digest@ + (x.retention_posture_digest@ + (x.idempotency_key_digest@ + Seq::<u8>::empty())))))))))));
        lemma_take_hash(x.remote_suffix_family_digest, (x.authorship_evidence_digest@ + (x.basis_anchor_digest@ + (x.bundle_digest@ + (x.source_shell_digest@ + (x.target_basis_digest@ + (seq![x.outcome_kind.code_spec()] + (x.import_shell_digest@ + (x.retention_posture_digest@ + (x.idempotency_key_digest@ + Seq::<u8>::empty()))))))))));
        lemma_take_hash(x.authorship_evidence_digest, (x.basis_anchor_digest@ + (x.bundle_digest@ + (x.source_shell_digest@ + (x.target_basis_digest@ + (seq![x.outcome_kind.code_spec()] + (x.import_shell_digest@ + (x.retention_posture_digest@ + (x.idempotency_key_digest@ + Seq::<u8>::empty())))))))));
        lemma_take_hash(x.basis_anchor_digest, (x.bundle_digest@ + (x.source_shell_digest@ + (x.target_basis_digest@ + (seq![x.outcome_kind.code_spec()] + (x.import_shell_digest@ + (x.retention_posture_digest@ + (x.idempotency_key_digest@ + Seq::<u8>::empty()))))))));
        lemma_take_hash(x.bundle_digest, (x.source_shell_digest@ + (x.target_basis_digest@ + (seq![x.outcome_kind.code_spec()] + (x.import_shell_digest@ + (x.retention_posture_digest@ + (x.idempotency_key_digest@ + Seq::<u8>::empty())))))));
        lemma_take_hash(x.source_shell_digest, (x.target_basis_digest@ + (seq![x.outcome_kind.code_spec()] + (x.import_shell_digest@ + (x.retention_posture_digest@ + (x.idempotency_key_digest@ + Seq::<u8>::empty()))))));
        lemma_take_hash(x.target_basis_digest, (seq![x.outcome_kind.code_spec()] + (x.import_shell_digest@ + (x.retention_posture_digest@ + (x.idempotency_key_digest@ + Seq::<u8>::empty())))));
        lemma_take_kind(x.outcome_kind, (x.import_shell_digest@ + (x.retention_posture_digest@ + (x.idempotency_key_digest@ + Seq::<u8>::empty()))));
        lemma_take_hash(x.import_shell_digest, (x.retention_posture_digest@ + (x.idempotency_key_digest@ + Seq::<u8>::empty())));
        lemma_take_hash(x.retention_posture_digest, (x.idempotency_key_digest@ + Seq::<u8>::empty()));
        lemma_take_hash(x.idempotency_key_digest, Seq::<u8>::empty());
    }
}

} // verus!
