//! Read-model projection records of a recovered WAL: writer epochs, segments,
//! commit anchors and the recovery certificate, each with a stable identity
//! digest that leaves storage locators out.
use vstd::prelude::*;
use vstd::bytes::*;
use vstd::string::*;
use crate::crypto::{blake3_digest, blake3_hash};
use crate::encoding::{optional_hash_bytes, push_hash, push_optional_hash, push_slice, push_u64_le, push_u8};
use crate::order::{sort_by_key, sort_by_key_spec, SortKey};
use crate::causal_wal::frame::WalTransactionCommit;
use crate::causal_wal::records::RecoveryCertificate;
use crate::causal_wal::recovery::RecoveryTailPosture;
use crate::causal_wal::store::WriterEpoch;
use crate::causal_wal::{len_u64, Lsn, WalSegmentId, WalTransactionId, WriterEpochId};

verus! {

/// The 32-byte digest whose bytes are `s`.
pub open spec fn hash_of(s: Seq<u8>) -> [u8; 32] {
    choose|h: [u8; 32]| h@ == s
}

/// A digest is the `hash_of` its own bytes.
pub proof fn lemma_hash_of(h: [u8; 32], s: Seq<u8>)
    requires
        h@ == s,
    ensures
        hash_of(s) == h,
{
    let c = hash_of(s);
    assert(c@ == s);
    assert(c =~= h);
}

/// `x` as 8 big-endian bytes.
pub open spec fn be8(x: u64) -> Seq<u8> {
    seq![
        (x >> 56u64) as u8,
        (x >> 48u64) as u8,
        (x >> 40u64) as u8,
        (x >> 32u64) as u8,
        (x >> 24u64) as u8,
        (x >> 16u64) as u8,
        (x >> 8u64) as u8,
        x as u8,
    ]
}

/// Appends `x` as 8 big-endian bytes.
pub fn push_u64_be(out: &mut Vec<u8>, x: u64)
    ensures
        final(out)@ == old(out)@ + be8(x),
{
    out.push((x >> 56u64) as u8);
    out.push((x >> 48u64) as u8);
    out.push((x >> 40u64) as u8);
    out.push((x >> 32u64) as u8);
    out.push((x >> 24u64) as u8);
    out.push((x >> 16u64) as u8);
    out.push((x >> 8u64) as u8);
    out.push(x as u8);
    assert(final(out)@ =~= old(out)@ + be8(x));
}

/// Optional LSN encoding: `0`, or `1` then the LSN as 8 little-endian bytes.
pub open spec fn optional_lsn_bytes(l: Option<Lsn>) -> Seq<u8> {
    match l {
        Some(l) => seq![1u8] + spec_u64_to_le_bytes(l.0),
        None => seq![0u8],
    }
}

/// Appends the optional LSN encoding.
pub fn push_optional_lsn(out: &mut Vec<u8>, l: Option<Lsn>)
    ensures
        final(out)@ == old(out)@ + optional_lsn_bytes(l),
{
    match l {
        Some(l) => {
            push_u8(out, 1);
            push_u64_le(out, l.0);
            assert(final(out)@ =~= old(out)@ + optional_lsn_bytes(Some(l)));
        },
        None => push_u8(out, 0),
    }
}

/// Optional writer epoch encoding: `0`, or `1` then the epoch id bytes.
pub open spec fn optional_epoch_bytes(e: Option<WriterEpochId>) -> Seq<u8> {
    match e {
        Some(e) => seq![1u8] + e.0@,
        None => seq![0u8],
    }
}

/// Appends the optional writer epoch encoding.
pub fn push_optional_epoch(out: &mut Vec<u8>, e: Option<WriterEpochId>)
    ensures
        final(out)@ == old(out)@ + optional_epoch_bytes(e),
{
    match e {
        Some(e) => {
            push_u8(out, 1);
            push_hash(out, &e.0);
            assert(final(out)@ =~= old(out)@ + optional_epoch_bytes(Some(e)));
        },
        None => push_u8(out, 0),
    }
}

/// Tail posture encoding: a tag, then the LSN for the two "after" forms.
pub open spec fn tail_posture_bytes(p: RecoveryTailPosture) -> Seq<u8> {
    match p {
        RecoveryTailPosture::Clean => seq![0u8],
        RecoveryTailPosture::TruncatedAll => seq![1u8],
        RecoveryTailPosture::TruncatedAfter(l) => seq![2u8] + spec_u64_to_le_bytes(l.0),
        RecoveryTailPosture::WouldTruncateAll => seq![3u8],
        RecoveryTailPosture::WouldTruncateAfter(l) => seq![4u8] + spec_u64_to_le_bytes(l.0),
    }
}

/// Appends the tail posture encoding.
pub fn push_tail_posture(out: &mut Vec<u8>, p: RecoveryTailPosture)
    ensures
        final(out)@ == old(out)@ + tail_posture_bytes(p),
{
    match p {
        RecoveryTailPosture::Clean => push_u8(out, 0),
        RecoveryTailPosture::TruncatedAll => push_u8(out, 1),
        RecoveryTailPosture::TruncatedAfter(l) => {
            push_u8(out, 2);
            push_u64_le(out, l.0);
            assert(final(out)@ =~= old(out)@ + tail_posture_bytes(p));
        },
        RecoveryTailPosture::WouldTruncateAll => push_u8(out, 3),
        RecoveryTailPosture::WouldTruncateAfter(l) => {
            push_u8(out, 4);
            push_u64_le(out, l.0);
            assert(final(out)@ =~= old(out)@ + tail_posture_bytes(p));
        },
    }
}

/// Concatenated bytes of a sequence of digests.
pub open spec fn hashes_bytes(s: Seq<[u8; 32]>) -> Seq<u8>
    decreases s.len(),
{
    if s.len() == 0 {
        Seq::empty()
    } else {
        hashes_bytes(s.drop_last()) + s.last()@
    }
}

/// Appends the digests, each as its 32 bytes.
pub fn push_hashes(out: &mut Vec<u8>, s: &Vec<[u8; 32]>)
    ensures
        final(out)@ == old(out)@ + hashes_bytes(s@),
{
    let ghost start = out@;
    let mut i: usize = 0;
    while i < s.len()
        invariant
            i <= s@.len(),
            out@ == start + hashes_bytes(s@.take(i as int)),
        decreases s.len() - i,
    {
        push_hash(out, &s[i]);
        proof {
            assert(s@.take(i + 1).drop_last() =~= s@.take(i as int));
        }
        i += 1;
    }
    assert(s@.take(s@.len() as int) =~= s@);
}

/// The count, as 8 little-endian bytes, then the digests in ascending order.
pub open spec fn sorted_hashes_field(s: Seq<[u8; 32]>) -> Seq<u8> {
    spec_u64_to_le_bytes(s.len() as u64) + hashes_bytes(sort_by_key_spec(s))
}

/// Appends the count then the digests in ascending order.
pub fn push_sorted_hashes(out: &mut Vec<u8>, s: Vec<[u8; 32]>)
    ensures
        final(out)@ == old(out)@ + sorted_hashes_field(s@),
{
    let n = len_u64(s.len());
    let sorted = sort_by_key(s);
    proof {
        sorted@.to_multiset_ensures();
        s@.to_multiset_ensures();
    }
    push_u64_le(out, n);
    push_hashes(out, &sorted);
    assert(final(out)@ =~= old(out)@ + sorted_hashes_field(s@));
}

pub open spec fn projection_root_domain() -> Seq<u8> {
    "echo:causal_wal:projection:root:v1\0".spec_bytes()
}

pub open spec fn projection_writer_epoch_domain() -> Seq<u8> {
    "echo:causal_wal:projection:writer_epoch:v1\0".spec_bytes()
}

pub open spec fn projection_segment_domain() -> Seq<u8> {
    "echo:causal_wal:projection:segment:v1\0".spec_bytes()
}

pub open spec fn projection_commit_anchor_domain() -> Seq<u8> {
    "echo:causal_wal:projection:commit_anchor:v1\0".spec_bytes()
}

pub open spec fn projection_certificate_domain() -> Seq<u8> {
    "echo:causal_wal:projection:recovery_certificate:v1\0".spec_bytes()
}

pub open spec fn recovery_certificate_domain() -> Seq<u8> {
    "echo:causal_wal:recovery_certificate:v1\0".spec_bytes()
}

/// Bytes hashed into a recovery certificate digest.
pub open spec fn certificate_digest_input(c: RecoveryCertificate) -> Seq<u8> {
    recovery_certificate_domain() + optional_hash_bytes(c.checkpoint_used) + optional_lsn_bytes(c.first_lsn)
        + optional_lsn_bytes(c.last_lsn) + spec_u64_to_le_bytes(c.committed_transactions_replayed)
        + tail_posture_bytes(c.tail_posture) + spec_u64_to_le_bytes(c.obstruction_count)
        + c.recovered_frontier_root@ + c.recovered_indexes_root@
}

/// Computes the stable digest of a recovery certificate.
pub fn recovery_certificate_digest(certificate: &RecoveryCertificate) -> (r: crate::ident::Hash)
    ensures
        r@ == blake3_digest(certificate_digest_input(*certificate)),
{
    let mut input: Vec<u8> = Vec::new();
    push_slice(&mut input, "echo:causal_wal:recovery_certificate:v1\0".as_bytes());
    push_optional_hash(&mut input, certificate.checkpoint_used);
    push_optional_lsn(&mut input, certificate.first_lsn);
    push_optional_lsn(&mut input, certificate.last_lsn);
    push_u64_le(&mut input, certificate.committed_transactions_replayed);
    push_tail_posture(&mut input, certificate.tail_posture);
    push_u64_le(&mut input, certificate.obstruction_count);
    push_hash(&mut input, &certificate.recovered_frontier_root);
    push_hash(&mut input, &certificate.recovered_indexes_root);
    proof {
        reveal_strlit("echo:causal_wal:recovery_certificate:v1\0");
        assert(input@ =~= certificate_digest_input(*certificate));
    }
    blake3_hash(input.as_slice())
}

/// Read-model projection of WAL writer epoch metadata.
#[derive(Clone, Copy, Debug, PartialEq, Eq)]
pub struct WalWriterEpoch {
    /// Epoch id.
    pub epoch_id: WriterEpochId,
    /// Storage fencing token or lease token.
    pub storage_fencing_token: crate::ident::Hash,
    /// Process identity evidence.
    pub process_identity: crate::ident::Hash,
    /// Host identity evidence.
    pub host_identity: crate::ident::Hash,
    /// First LSN owned by the epoch.
    pub started_at_lsn: Lsn,
    /// Previous epoch id, if any.
    pub previous_epoch_id: Option<WriterEpochId>,
    /// Previous epoch final commit digest, if any.
    pub previous_epoch_final_commit_digest: Option<crate::ident::Hash>,
    /// Lease or lock evidence.
    pub lease_or_lock_evidence: crate::ident::Hash,
}

/// Bytes hashed into a writer epoch identity digest.
pub open spec fn writer_epoch_identity_input(e: WalWriterEpoch) -> Seq<u8> {
    projection_writer_epoch_domain() + e.epoch_id.0@ + e.storage_fencing_token@ + e.process_identity@
        + e.host_identity@ + spec_u64_to_le_bytes(e.started_at_lsn.0) + optional_epoch_bytes(e.previous_epoch_id)
        + optional_hash_bytes(e.previous_epoch_final_commit_digest) + e.lease_or_lock_evidence@
}

/// Identity digest of a writer epoch projection.
pub open spec fn writer_epoch_identity(e: WalWriterEpoch) -> [u8; 32] {
    hash_of(blake3_digest(writer_epoch_identity_input(e)))
}

impl WalWriterEpoch {
    /// Builds a projection record from writer-epoch evidence.
    pub fn from_writer_epoch(epoch: &WriterEpoch) -> (r: Self)
        ensures
            r.epoch_id == epoch.epoch_id,
            r.storage_fencing_token == epoch.storage_fencing_token,
            r.process_identity == epoch.process_identity,
            r.host_identity == epoch.host_identity,
            r.started_at_lsn == epoch.started_at_lsn,
            r.previous_epoch_id == epoch.previous_epoch_id,
            r.previous_epoch_final_commit_digest == epoch.previous_epoch_final_commit_digest,
            r.lease_or_lock_evidence == epoch.lease_or_lock_evidence,
    {
        WalWriterEpoch {
            epoch_id: epoch.epoch_id,
            storage_fencing_token: epoch.storage_fencing_token,
            process_identity: epoch.process_identity,
            host_identity: epoch.host_identity,
            started_at_lsn: epoch.started_at_lsn,
            previous_epoch_id: epoch.previous_epoch_id,
            previous_epoch_final_commit_digest: epoch.previous_epoch_final_commit_digest,
            lease_or_lock_evidence: epoch.lease_or_lock_evidence,
        }
    }

    /// Stable identity digest of this writer epoch.
    pub fn identity_digest(&self) -> (r: crate::ident::Hash)
        ensures
            r@ == blake3_digest(writer_epoch_identity_input(*self)),
            r == writer_epoch_identity(*self),
    {
        let mut input: Vec<u8> = Vec::new();
        push_slice(&mut input, "echo:causal_wal:projection:writer_epoch:v1\0".as_bytes());
        push_hash(&mut input, &self.epoch_id.0);
        push_hash(&mut input, &self.storage_fencing_token);
        push_hash(&mut input, &self.process_identity);
        push_hash(&mut input, &self.host_identity);
        push_u64_le(&mut input, self.started_at_lsn.0);
        push_optional_epoch(&mut input, self.previous_epoch_id);
        push_optional_hash(&mut input, self.previous_epoch_final_commit_digest);
        push_hash(&mut input, &self.lease_or_lock_evidence);
        proof {
            reveal_strlit("echo:causal_wal:projection:writer_epoch:v1\0");
            assert(input@ =~= writer_epoch_identity_input(*self));
        }
        let r = blake3_hash(input.as_slice());
        proof {
            lemma_hash_of(r, blake3_digest(writer_epoch_identity_input(*self)));
        }
        r
    }
}

/// Commit anchor retained by a WAL segment projection.
#[derive(Clone, Copy, Debug, PartialEq, Eq)]
pub struct WalCommitAnchor {
    /// Transaction id covered by the anchor.
    pub transaction_id: WalTransactionId,
    /// Commit digest covered by the anchor.
    pub commit_digest: crate::ident::Hash,
    /// First LSN covered by the committed transaction.
    pub first_lsn: Lsn,
    /// Last LSN covered by the committed transaction.
    pub last_lsn: Lsn,
    /// Number of records covered by the committed transaction.
    pub record_count: u64,
}

/// The commit anchor of a committed transaction marker.
pub open spec fn anchor_of_commit(c: WalTransactionCommit) -> WalCommitAnchor {
    WalCommitAnchor {
        transaction_id: c.transaction_id,
        commit_digest: c.commit_digest,
        first_lsn: c.first_lsn,
        last_lsn: c.last_lsn,
        record_count: c.record_count,
    }
}

/// Bytes hashed into a commit anchor identity digest.
pub open spec fn commit_anchor_identity_input(a: WalCommitAnchor) -> Seq<u8> {
    projection_commit_anchor_domain() + a.transaction_id.0@ + a.commit_digest@ + spec_u64_to_le_bytes(
        a.first_lsn.0,
    ) + spec_u64_to_le_bytes(a.last_lsn.0) + spec_u64_to_le_bytes(a.record_count)
}

/// Identity digest of a commit anchor.
pub open spec fn commit_anchor_identity(a: WalCommitAnchor) -> [u8; 32] {
    hash_of(blake3_digest(commit_anchor_identity_input(a)))
}

impl WalCommitAnchor {
    /// Builds a commit anchor from a committed transaction marker.
    pub fn from_commit(commit: &WalTransactionCommit) -> (r: Self)
        ensures
            r == anchor_of_commit(*commit),
    {
        WalCommitAnchor {
            transaction_id: commit.transaction_id,
            commit_digest: commit.commit_digest,
            first_lsn: commit.first_lsn,
            last_lsn: commit.last_lsn,
            record_count: commit.record_count,
        }
    }

    /// Stable identity digest of this commit anchor.
    pub fn identity_digest(&self) -> (r: crate::ident::Hash)
        ensures
            r@ == blake3_digest(commit_anchor_identity_input(*self)),
            r == commit_anchor_identity(*self),
    {
        let mut input: Vec<u8> = Vec::new();
        push_slice(&mut input, "echo:causal_wal:projection:commit_anchor:v1\0".as_bytes());
        push_hash(&mut input, &self.transaction_id.0);
        push_hash(&mut input, &self.commit_digest);
        push_u64_le(&mut input, self.first_lsn.0);
        push_u64_le(&mut input, self.last_lsn.0);
        push_u64_le(&mut input, self.record_count);
        proof {
            reveal_strlit("echo:causal_wal:projection:commit_anchor:v1\0");
            assert(input@ =~= commit_anchor_identity_input(*self));
        }
        let r = blake3_hash(input.as_slice());
        proof {
            lemma_hash_of(r, blake3_digest(commit_anchor_identity_input(*self)));
        }
        r
    }
}

/// Anchors are ordered by first LSN, last LSN, transaction id, then commit digest.
impl SortKey for WalCommitAnchor {
    open spec fn key(&self) -> Seq<u8> {
        be8(self.first_lsn.0) + be8(self.last_lsn.0) + self.transaction_id.0@ + self.commit_digest@
    }

    fn key_bytes(&self) -> (k: Vec<u8>) {
        let mut k: Vec<u8> = Vec::new();
        push_u64_be(&mut k, self.first_lsn.0);
        push_u64_be(&mut k, self.last_lsn.0);
        push_hash(&mut k, &self.transaction_id.0);
        push_hash(&mut k, &self.commit_digest);
        assert(k@ =~= self.key());
        k
    }
}

/// WAL segment sealing posture projected into the read model.
#[derive(Clone, Copy, Debug, PartialEq, Eq, Structural)]
pub enum WalSegmentSealPosture {
    /// Segment remains open and must not be treated as sealed evidence.
    Open,
    /// Segment was sealed through WAL store evidence.
    Sealed {
        /// Last LSN included in the sealed segment, if any.
        sealed_lsn: Option<Lsn>,
    },
}

/// Seal posture encoding: `0` for open; `1` then the optional sealed LSN.
pub open spec fn seal_posture_bytes(p: WalSegmentSealPosture) -> Seq<u8> {
    match p {
        WalSegmentSealPosture::Open => seq![0u8],
        WalSegmentSealPosture::Sealed { sealed_lsn } => seq![1u8] + optional_lsn_bytes(sealed_lsn),
    }
}

/// Appends the seal posture encoding.
pub fn push_seal_posture(out: &mut Vec<u8>, p: WalSegmentSealPosture)
    ensures
        final(out)@ == old(out)@ + seal_posture_bytes(p),
{
    match p {
        WalSegmentSealPosture::Open => push_u8(out, 0),
        WalSegmentSealPosture::Sealed { sealed_lsn } => {
            push_u8(out, 1);
            push_optional_lsn(out, sealed_lsn);
            assert(final(out)@ =~= old(out)@ + seal_posture_bytes(p));
        },
    }
}

/// Storage locator metadata for a projected WAL segment; never part of its identity.
#[derive(Clone, Debug, PartialEq, Eq)]
pub enum WalSegmentStorageLocator {
    /// Repository- or root-relative locator.
    RelativePath(String),
    /// Absolute local filesystem locator.
    AbsolutePath(String),
}

/// Read-model projection reference to one WAL segment.
#[derive(Clone, Debug, PartialEq, Eq)]
pub struct WalSegmentRef {
    /// Writer epoch that owns this segment.
    pub writer_epoch: WriterEpochId,
    /// Logical WAL segment id.
    pub segment_id: WalSegmentId,
    /// First LSN covered by the segment.
    pub first_lsn: Lsn,
    /// Last LSN covered by the segment.
    pub last_lsn: Lsn,
    /// Commit digest preceding the segment's committed chain.
    pub previous_commit_digest: crate::ident::Hash,
    /// Final commit digest observed for the segment.
    pub final_commit_digest: crate::ident::Hash,
    /// Digest of the segment contents.
    pub segment_digest: crate::ident::Hash,
    /// Commit anchors covered by the segment.
    pub commit_anchors: Vec<WalCommitAnchor>,
    /// Segment sealing posture.
    pub seal_posture: WalSegmentSealPosture,
    /// Optional storage locator metadata, excluded from identity.
    pub storage_locator: Option<WalSegmentStorageLocator>,
}

/// Concatenated identity digests of the anchors.
pub open spec fn anchor_identities_bytes(s: Seq<WalCommitAnchor>) -> Seq<u8>
    decreases s.len(),
{
    if s.len() == 0 {
        Seq::empty()
    } else {
        anchor_identities_bytes(s.drop_last()) + commit_anchor_identity(s.last())@
    }
}

/// Bytes hashed into a segment identity digest; the locator is left out.
pub open spec fn segment_identity_input(s: WalSegmentRef) -> Seq<u8> {
    projection_segment_domain() + s.writer_epoch.0@ + spec_u64_to_le_bytes(s.segment_id.0)
        + spec_u64_to_le_bytes(s.first_lsn.0) + spec_u64_to_le_bytes(s.last_lsn.0) + s.previous_commit_digest@
        + s.final_commit_digest@ + s.segment_digest@ + spec_u64_to_le_bytes(s.commit_anchors@.len() as u64)
        + anchor_identities_bytes(sort_by_key_spec(s.commit_anchors@)) + seal_posture_bytes(s.seal_posture)
}

/// Identity digest of a segment reference.
pub open spec fn segment_identity(s: WalSegmentRef) -> [u8; 32] {
    hash_of(blake3_digest(segment_identity_input(s)))
}

/// A copy of the anchors.
pub fn copy_anchors(v: &Vec<WalCommitAnchor>) -> (r: Vec<WalCommitAnchor>)
    ensures
        r@ == v@,
{
    let mut r: Vec<WalCommitAnchor> = Vec::new();
    let mut i: usize = 0;
    while i < v.len()
        invariant
            i <= v@.len(),
            r@ == v@.take(i as int),
        decreases v.len() - i,
    {
        r.push(v[i]);
        i += 1;
        assert(r@ =~= v@.take(i as int));
    }
    assert(v@.take(v@.len() as int) =~= v@);
    r
}

impl WalSegmentRef {
    /// Stable identity digest: epoch, LSN range, commit chain, segment digest,
    /// the anchors in canonical order and the seal posture; never the locator.
    pub fn identity_digest(&self) -> (r: crate::ident::Hash)
        ensures
            r@ == blake3_digest(segment_identity_input(*self)),
            r == segment_identity(*self),
    {
        let mut input: Vec<u8> = Vec::new();
        push_slice(&mut input, "echo:causal_wal:projection:segment:v1\0".as_bytes());
        push_hash(&mut input, &self.writer_epoch.0);
        push_u64_le(&mut input, self.segment_id.0);
        push_u64_le(&mut input, self.first_lsn.0);
        push_u64_le(&mut input, self.last_lsn.0);
        push_hash(&mut input, &self.previous_commit_digest);
        push_hash(&mut input, &self.final_commit_digest);
        push_hash(&mut input, &self.segment_digest);
        let anchors = sort_by_key(copy_anchors(&self.commit_anchors));
        proof {
            anchors@.to_multiset_ensures();
            self.commit_anchors@.to_multiset_ensures();
        }
        push_u64_le(&mut input, len_u64(anchors.len()));
        let ghost prefix = input@;
        let mut i: usize = 0;
        while i < anchors.len()
            invariant
                i <= anchors@.len(),
                input@ == prefix + anchor_identities_bytes(anchors@.take(i as int)),
            decreases anchors.len() - i,
        {
            let d = anchors[i].identity_digest();
            push_hash(&mut input, &d);
            proof {
                assert(anchors@.take(i + 1).drop_last() =~= anchors@.take(i as int));
            }
            i += 1;
        }
        assert(anchors@.take(anchors@.len() as int) =~= anchors@);
        push_seal_posture(&mut input, self.seal_posture);
        proof {
            reveal_strlit("echo:causal_wal:projection:segment:v1\0");
            assert(input@ =~= segment_identity_input(*self));
        }
        let r = blake3_hash(input.as_slice());
        proof {
            lemma_hash_of(r, blake3_digest(segment_identity_input(*self)));
        }
        r
    }
}

/// Read-model projection reference to a recovery certificate.
#[derive(Clone, Copy, Debug, PartialEq, Eq)]
pub struct RecoveryCertificateRef {
    /// Recovery certificate digest.
    pub certificate_digest: crate::ident::Hash,
    /// Checkpoint digest used as replay base, if any.
    pub checkpoint_used: Option<crate::ident::Hash>,
    /// First scanned committed LSN.
    pub first_lsn: Option<Lsn>,
    /// Last scanned committed LSN.
    pub last_lsn: Option<Lsn>,
    /// Tail posture observed during recovery.
    pub tail_posture: RecoveryTailPosture,
    /// Final frontier root.
    pub recovered_frontier_root: crate::ident::Hash,
    /// Final index root.
    pub recovered_indexes_root: crate::ident::Hash,
}

/// The projection reference of a recovery certificate.
pub open spec fn certificate_ref_of(c: RecoveryCertificate) -> RecoveryCertificateRef {
    RecoveryCertificateRef {
        certificate_digest: hash_of(blake3_digest(certificate_digest_input(c))),
        checkpoint_used: c.checkpoint_used,
        first_lsn: c.first_lsn,
        last_lsn: c.last_lsn,
        tail_posture: c.tail_posture,
        recovered_frontier_root: c.recovered_frontier_root,
        recovered_indexes_root: c.recovered_indexes_root,
    }
}

/// Bytes hashed into a certificate reference identity digest.
pub open spec fn certificate_ref_identity_input(c: RecoveryCertificateRef) -> Seq<u8> {
    projection_certificate_domain() + c.certificate_digest@ + optional_hash_bytes(c.checkpoint_used)
        + optional_lsn_bytes(c.first_lsn) + optional_lsn_bytes(c.last_lsn) + tail_posture_bytes(c.tail_posture)
        + c.recovered_frontier_root@ + c.recovered_indexes_root@
}

/// Identity digest of a certificate reference.
pub open spec fn certificate_ref_identity(c: RecoveryCertificateRef) -> [u8; 32] {
    hash_of(blake3_digest(certificate_ref_identity_input(c)))
}

impl RecoveryCertificateRef {
    /// Builds a projection reference from a recovery certificate.
    pub fn from_certificate(certificate: &RecoveryCertificate) -> (r: Self)
        ensures
            r == certificate_ref_of(*certificate),
            r.certificate_digest@ == blake3_digest(certificate_digest_input(*certificate)),
    {
        let d = recovery_certificate_digest(certificate);
        proof {
            lemma_hash_of(d, blake3_digest(certificate_digest_input(*certificate)));
        }
        RecoveryCertificateRef {
            certificate_digest: d,
            checkpoint_used: certificate.checkpoint_used,
            first_lsn: certificate.first_lsn,
            last_lsn: certificate.last_lsn,
            tail_posture: certificate.tail_posture,
            recovered_frontier_root: certificate.recovered_frontier_root,
            recovered_indexes_root: certificate.recovered_indexes_root,
        }
    }

    /// Stable identity digest of this certificate reference.
    pub fn identity_digest(&self) -> (r: crate::ident::Hash)
        ensures
            r@ == blake3_digest(certificate_ref_identity_input(*self)),
            r == certificate_ref_identity(*self),
    {
        let mut input: Vec<u8> = Vec::new();
        push_slice(&mut input, "echo:causal_wal:projection:recovery_certificate:v1\0".as_bytes());
        push_hash(&mut input, &self.certificate_digest);
        push_optional_hash(&mut input, self.checkpoint_used);
        push_optional_lsn(&mut input, self.first_lsn);
        push_optional_lsn(&mut input, self.last_lsn);
        push_tail_posture(&mut input, self.tail_posture);
        push_hash(&mut input, &self.recovered_frontier_root);
        push_hash(&mut input, &self.recovered_indexes_root);
        proof {
            reveal_strlit("echo:causal_wal:projection:recovery_certificate:v1\0");
            assert(input@ =~= certificate_ref_identity_input(*self));
        }
        let r = blake3_hash(input.as_slice());
        proof {
            lemma_hash_of(r, blake3_digest(certificate_ref_identity_input(*self)));
        }
        r
    }
}

/// Read-model projection of a WAL root: evidence about committed history,
/// with no storage authority.
#[derive(Clone, Debug, PartialEq, Eq)]
pub struct WalRoot {
    /// Projection root digest.
    pub root_digest: crate::ident::Hash,
    /// Writer epochs covered by this projection root.
    pub writer_epochs: Vec<WalWriterEpoch>,
    /// Segment references covered by this projection root.
    pub segments: Vec<WalSegmentRef>,
    /// Recovery certificate reference, if recovery produced one.
    pub recovery_certificate: Option<RecoveryCertificateRef>,
}

/// The optional digest of an optional certificate reference.
pub open spec fn optional_certificate_identity(c: Option<RecoveryCertificateRef>) -> Option<[u8; 32]> {
    match c {
        Some(c) => Some(certificate_ref_identity(c)),
        None => None,
    }
}

/// Bytes hashed into a root identity digest.
pub open spec fn root_identity_input(r: WalRoot) -> Seq<u8> {
    projection_root_domain() + r.root_digest@ + sorted_hashes_field(
        r.writer_epochs@.map_values(|e: WalWriterEpoch| writer_epoch_identity(e)),
    ) + sorted_hashes_field(r.segments@.map_values(|s: WalSegmentRef| segment_identity(s)))
        + optional_hash_bytes(optional_certificate_identity(r.recovery_certificate))
}

/// Identity digest of a projected WAL root.
pub open spec fn root_identity(r: WalRoot) -> [u8; 32] {
    hash_of(blake3_digest(root_identity_input(r)))
}

/// Identity digests of the writer epochs, in their order.
pub fn writer_epoch_identities(v: &Vec<WalWriterEpoch>) -> (r: Vec<[u8; 32]>)
    ensures
        r@ == v@.map_values(|e: WalWriterEpoch| writer_epoch_identity(e)),
{
    let mut r: Vec<[u8; 32]> = Vec::new();
    let mut i: usize = 0;
    while i < v.len()
        invariant
            i <= v@.len(),
            r@ == v@.take(i as int).map_values(|e: WalWriterEpoch| writer_epoch_identity(e)),
        decreases v.len() - i,
    {
        r.push(v[i].identity_digest());
        i += 1;
        assert(r@ =~= v@.take(i as int).map_values(|e: WalWriterEpoch| writer_epoch_identity(e)));
    }
    assert(v@.take(v@.len() as int) =~= v@);
    r
}

/// Identity digests of the segments, in their order.
pub fn segment_identities(v: &Vec<WalSegmentRef>) -> (r: Vec<[u8; 32]>)
    ensures
        r@ == v@.map_values(|s: WalSegmentRef| segment_identity(s)),
{
    let mut r: Vec<[u8; 32]> = Vec::new();
    let mut i: usize = 0;
    while i < v.len()
        invariant
            i <= v@.len(),
            r@ == v@.take(i as int).map_values(|s: WalSegmentRef| segment_identity(s)),
        decreases v.len() - i,
    {
        r.push(v[i].identity_digest());
        i += 1;
        assert(r@ =~= v@.take(i as int).map_values(|s: WalSegmentRef| segment_identity(s)));
    }
    assert(v@.take(v@.len() as int) =~= v@);
    r
}

/// The optional certificate identity digest, computed.
pub fn certificate_identity_opt(c: &Option<RecoveryCertificateRef>) -> (r: Option<[u8; 32]>)
    ensures
        r == optional_certificate_identity(*c),
{
    match c {
        Some(c) => Some(c.identity_digest()),
        None => None,
    }
}

impl WalRoot {
    /// Stable identity digest of the projected root; segment locators are
    /// excluded through the segment identities.
    pub fn identity_digest(&self) -> (r: crate::ident::Hash)
        ensures
            r@ == blake3_digest(root_identity_input(*self)),
            r == root_identity(*self),
    {
        let mut input: Vec<u8> = Vec::new();
        push_slice(&mut input, "echo:causal_wal:projection:root:v1\0".as_bytes());
        push_hash(&mut input, &self.root_digest);
        push_sorted_hashes(&mut input, writer_epoch_identities(&self.writer_epochs));
        push_sorted_hashes(&mut input, segment_identities(&self.segments));
        push_optional_hash(&mut input, certificate_identity_opt(&self.recovery_certificate));
        proof {
            reveal_strlit("echo:causal_wal:projection:root:v1\0");
            assert(input@ =~= root_identity_input(*self));
        }
        let r = blake3_hash(input.as_slice());
        proof {
            lemma_hash_of(r, blake3_digest(root_identity_input(*self)));
        }
        r
    }
}

} // verus!
