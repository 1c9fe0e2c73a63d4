//! WAL record payloads, frames, commit markers, their digests and checksums,
//! and the structural validation of committed transactions.
use vstd::prelude::*;
use vstd::bytes::*;
use vstd::slice::*;
use vstd::string::*;
use vstd::utf8::encode_utf8;
use crate::crypto::{blake3_digest, blake3_hash};
use crate::encoding::{
    len_prefixed, push_hash, push_len_prefixed, push_slice, push_u16_le, push_u32_le,
    push_u64_le, push_u8,
};
use crate::ident::hash_eq;
use crate::causal_wal::kinds::{
    AffectedFrontierKind, WalAppendAuthority, WalCompressionKind, WalDurabilityMode, WalRecordKind,
    WalRedactionPosture, WalTransactionKind,
};
use crate::causal_wal::{
    len_u64, transaction_id_eq, writer_epoch_eq, Lsn, PayloadCodecId, PayloadSchemaId,
    TransactionLocalIndex, WalSegmentId, WalTransactionId, WalValidationError, WriterEpochId,
};

verus! {

/// Domain prefix of payload digests.
pub open spec fn payload_domain() -> Seq<u8> {
    "echo:causal_wal:payload:v1\0".spec_bytes()
}

/// Domain prefix of frame digests.
pub open spec fn frame_domain() -> Seq<u8> {
    "echo:causal_wal:frame:v1\0".spec_bytes()
}

/// Domain prefix of transaction records roots.
pub open spec fn records_root_domain() -> Seq<u8> {
    "echo:causal_wal:records_root:v1\0".spec_bytes()
}

/// Domain prefix of affected-frontier roots.
pub open spec fn frontiers_root_domain() -> Seq<u8> {
    "echo:causal_wal:frontiers_root:v1\0".spec_bytes()
}

/// Domain prefix of commit digests.
pub open spec fn commit_domain() -> Seq<u8> {
    "echo:causal_wal:commit:v1\0".spec_bytes()
}

/// Domain prefix of frame header checksums.
pub open spec fn header_checksum_domain() -> Seq<u8> {
    "echo:causal_wal:header_checksum:v1\0".spec_bytes()
}

/// Domain prefix of whole-frame checksums.
pub open spec fn frame_checksum_domain() -> Seq<u8> {
    "echo:causal_wal:frame_checksum:v1\0".spec_bytes()
}

/// 32-bit checksum: the first four bytes, little-endian, of the BLAKE3 digest
/// of the domain followed by the bytes.
pub open spec fn checksum32_spec(domain: Seq<u8>, bytes: Seq<u8>) -> u32 {
    spec_u32_from_le_bytes(blake3_digest(domain + bytes).subrange(0, 4))
}

fn checksum32(input: &[u8]) -> (r: u32)
    ensures
        r == spec_u32_from_le_bytes(blake3_digest(input@).subrange(0, 4)),
{
    let d = blake3_hash(input);
    let first = slice_subrange(d.as_slice(), 0, 4);
    u32_from_le_bytes(first)
}

/// Digest transition for a frontier touched by a committed transaction.
#[derive(Clone, Copy, Debug, PartialEq, Eq)]
pub struct AffectedFrontier {
    /// Frontier kind.
    pub kind: AffectedFrontierKind,
    /// Digest before the transaction.
    pub before_digest: crate::ident::Hash,
    /// Digest after the transaction.
    pub after_digest: crate::ident::Hash,
}

/// Canonical WAL record payload.
#[derive(Clone, Debug, PartialEq, Eq)]
pub struct WalRecordPayload {
    /// Record kind.
    pub kind: WalRecordKind,
    /// Payload schema version.
    pub schema_version: u16,
    /// Canonical payload bytes.
    pub canonical_bytes: Vec<u8>,
}

/// Bytes hashed into a payload digest.
pub open spec fn payload_digest_input(p: WalRecordPayload) -> Seq<u8> {
    payload_domain() + encode_utf8(p.kind.label_spec()) + spec_u16_to_le_bytes(p.schema_version)
        + len_prefixed(p.canonical_bytes@)
}

/// Digest of a payload.
pub open spec fn payload_digest_spec(p: WalRecordPayload) -> Seq<u8> {
    blake3_digest(payload_digest_input(p))
}

impl View for WalRecordPayload {
    type V = (WalRecordKind, u16, Seq<u8>);

    open spec fn view(&self) -> (WalRecordKind, u16, Seq<u8>) {
        (self.kind, self.schema_version, self.canonical_bytes@)
    }
}

impl WalRecordPayload {
    /// Creates a canonical payload.
    pub fn new(kind: WalRecordKind, schema_version: u16, canonical_bytes: Vec<u8>) -> (r: Self)
        ensures
            r.kind == kind,
            r.schema_version == schema_version,
            r.canonical_bytes@ == canonical_bytes@,
    {
        WalRecordPayload { kind, schema_version, canonical_bytes }
    }

    /// Computes the domain-separated payload digest.
    pub fn digest(&self) -> (r: crate::ident::Hash)
        ensures
            r@ == payload_digest_spec(*self),
    {
        let mut input: Vec<u8> = Vec::new();
        push_slice(&mut input, "echo:causal_wal:payload:v1\0".as_bytes());
        push_slice(&mut input, self.kind.label().as_bytes());
        push_u16_le(&mut input, self.schema_version);
        push_len_prefixed(&mut input, self.canonical_bytes.as_slice());
        assert(input@ =~= payload_digest_input(*self));
        blake3_hash(input.as_slice())
    }
}

/// WAL frame header.
#[derive(Clone, Copy, Debug, PartialEq, Eq)]
pub struct WalFrameHeader {
    /// WAL version.
    pub wal_version: u16,
    /// Writer epoch.
    pub writer_epoch: WriterEpochId,
    /// Segment id.
    pub segment_id: WalSegmentId,
    /// Frame LSN.
    pub lsn: Lsn,
    /// Transaction id.
    pub transaction_id: WalTransactionId,
    /// Frame index inside the transaction.
    pub transaction_local_index: TransactionLocalIndex,
    /// Record kind.
    pub record_kind: WalRecordKind,
    /// Payload byte length.
    pub payload_len: u64,
    /// Payload digest.
    pub payload_digest: crate::ident::Hash,
    /// Payload codec id.
    pub payload_codec_id: PayloadCodecId,
    /// Payload schema id.
    pub payload_schema_id: PayloadSchemaId,
    /// Payload schema version.
    pub payload_schema_version: u16,
    /// Canonical encoding version.
    pub canonical_encoding_version: u16,
    /// Digest domain id.
    pub digest_domain: crate::ident::Hash,
    /// Compression kind.
    pub compression_kind: WalCompressionKind,
    /// Encryption or redaction posture.
    pub encryption_or_redaction_posture: WalRedactionPosture,
    /// Previous frame digest.
    pub previous_frame_digest: crate::ident::Hash,
    /// Header checksum.
    pub header_checksum: u32,
}

/// Header fields in checksum order, without the checksum itself.
pub open spec fn header_fields_bytes(h: WalFrameHeader) -> Seq<u8> {
    spec_u16_to_le_bytes(h.wal_version) + h.writer_epoch.0@ + spec_u64_to_le_bytes(h.segment_id.0)
        + spec_u64_to_le_bytes(h.lsn.0) + h.transaction_id.0@
        + spec_u32_to_le_bytes(h.transaction_local_index.0) + encode_utf8(h.record_kind.label_spec())
        + spec_u64_to_le_bytes(h.payload_len) + h.payload_digest@ + h.payload_codec_id.0@
        + h.payload_schema_id.0@ + spec_u16_to_le_bytes(h.payload_schema_version)
        + spec_u16_to_le_bytes(h.canonical_encoding_version) + h.digest_domain@
        + seq![h.compression_kind.code_spec()] + seq![h.encryption_or_redaction_posture.code_spec()]
        + h.previous_frame_digest@
}

/// Header bytes including the stored checksum.
pub open spec fn header_sealed_bytes(h: WalFrameHeader) -> Seq<u8> {
    header_fields_bytes(h) + spec_u32_to_le_bytes(h.header_checksum)
}

/// The checksum a header must carry.
pub open spec fn header_checksum_spec(h: WalFrameHeader) -> u32 {
    checksum32_spec(header_checksum_domain(), header_fields_bytes(h))
}

impl WalFrameHeader {
    fn fields_bytes(&self) -> (r: Vec<u8>)
        ensures
            r@ == header_fields_bytes(*self),
    {
        let mut out: Vec<u8> = Vec::new();
        push_u16_le(&mut out, self.wal_version);
        push_hash(&mut out, &self.writer_epoch.0);
        push_u64_le(&mut out, self.segment_id.0);
        push_u64_le(&mut out, self.lsn.0);
        push_hash(&mut out, &self.transaction_id.0);
        push_u32_le(&mut out, self.transaction_local_index.0);
        push_slice(&mut out, self.record_kind.label().as_bytes());
        push_u64_le(&mut out, self.payload_len);
        push_hash(&mut out, &self.payload_digest);
        push_hash(&mut out, &self.payload_codec_id.0);
        push_hash(&mut out, &self.payload_schema_id.0);
        push_u16_le(&mut out, self.payload_schema_version);
        push_u16_le(&mut out, self.canonical_encoding_version);
        push_hash(&mut out, &self.digest_domain);
        push_u8(&mut out, self.compression_kind.stable_code());
        push_u8(&mut out, self.encryption_or_redaction_posture.stable_code());
        push_hash(&mut out, &self.previous_frame_digest);
        assert(out@ =~= header_fields_bytes(*self));
        out
    }

    fn sealed_bytes(&self) -> (r: Vec<u8>)
        ensures
            r@ == header_sealed_bytes(*self),
    {
        let mut out = self.fields_bytes();
        push_u32_le(&mut out, self.header_checksum);
        out
    }

    fn compute_checksum(&self) -> (r: u32)
        ensures
            r == header_checksum_spec(*self),
    {
        let mut input: Vec<u8> = Vec::new();
        push_slice(&mut input, "echo:causal_wal:header_checksum:v1\0".as_bytes());
        let fields = self.fields_bytes();
        push_slice(&mut input, fields.as_slice());
        checksum32(input.as_slice())
    }
}

/// WAL frame trailer.
#[derive(Clone, Copy, Debug, PartialEq, Eq)]
pub struct WalFrameTrailer {
    /// Frame checksum over the header, payload, and payload digest.
    pub frame_checksum: u32,
}

/// WAL frame.
#[derive(Clone, Debug, PartialEq, Eq)]
pub struct WalFrame {
    /// Frame header.
    pub header: WalFrameHeader,
    /// Frame payload.
    pub payload: WalRecordPayload,
    /// Frame trailer.
    pub trailer: WalFrameTrailer,
}

/// Bytes covered by the whole-frame checksum.
pub open spec fn frame_checksum_input(h: WalFrameHeader, p: WalRecordPayload) -> Seq<u8> {
    header_sealed_bytes(h) + payload_digest_spec(p) + len_prefixed(p.canonical_bytes@)
}

/// The whole-frame checksum a frame must carry.
pub open spec fn frame_checksum_spec(h: WalFrameHeader, p: WalRecordPayload) -> u32 {
    checksum32_spec(frame_checksum_domain(), frame_checksum_input(h, p))
}

/// Bytes hashed into a frame digest.
pub open spec fn frame_digest_input(f: WalFrame) -> Seq<u8> {
    frame_domain() + header_sealed_bytes(f.header) + payload_digest_spec(f.payload)
        + spec_u32_to_le_bytes(f.trailer.frame_checksum)
}

/// Digest of a frame.
pub open spec fn frame_digest_spec(f: WalFrame) -> Seq<u8> {
    blake3_digest(frame_digest_input(f))
}

/// The integrity checks of a frame, in the order they are reported.
pub open spec fn frame_integrity_spec(f: WalFrame) -> Result<(), WalValidationError> {
    if f.payload.kind != f.header.record_kind {
        Err(WalValidationError::RecordKindMismatch)
    } else if payload_digest_spec(f.payload) != f.header.payload_digest@ {
        Err(WalValidationError::PayloadDigestMismatch)
    } else if header_checksum_spec(f.header) != f.header.header_checksum {
        Err(WalValidationError::HeaderChecksumMismatch)
    } else if frame_checksum_spec(f.header, f.payload) != f.trailer.frame_checksum {
        Err(WalValidationError::FrameChecksumMismatch)
    } else {
        Ok(())
    }
}

fn compute_frame_checksum(header: &WalFrameHeader, payload: &WalRecordPayload) -> (r: u32)
    ensures
        r == frame_checksum_spec(*header, *payload),
{
    let mut input: Vec<u8> = Vec::new();
    push_slice(&mut input, "echo:causal_wal:frame_checksum:v1\0".as_bytes());
    let sealed = header.sealed_bytes();
    push_slice(&mut input, sealed.as_slice());
    let pd = payload.digest();
    push_hash(&mut input, &pd);
    push_len_prefixed(&mut input, payload.canonical_bytes.as_slice());
    assert(input@ =~= frame_checksum_domain() + frame_checksum_input(*header, *payload));
    checksum32(input.as_slice())
}

impl View for WalFrame {
    type V = (WalFrameHeader, (WalRecordKind, u16, Seq<u8>), WalFrameTrailer);

    open spec fn view(&self) -> (WalFrameHeader, (WalRecordKind, u16, Seq<u8>), WalFrameTrailer) {
        (self.header, self.payload@, self.trailer)
    }
}

/// Views of a frame sequence.
pub open spec fn frames_view(fs: Seq<WalFrame>) -> Seq<(WalFrameHeader, (WalRecordKind, u16, Seq<u8>), WalFrameTrailer)> {
    fs.map_values(|f: WalFrame| f@)
}

/// Copies a frame; the copy has the same view.
pub fn clone_frame(f: &WalFrame) -> (r: WalFrame)
    ensures
        r@ == f@,
{
    WalFrame {
        header: f.header,
        payload: WalRecordPayload {
            kind: f.payload.kind,
            schema_version: f.payload.schema_version,
            canonical_bytes: f.payload.canonical_bytes.clone(),
        },
        trailer: f.trailer,
    }
}

/// Frames with equal views have equal digests and pass or fail the same checks.
pub proof fn lemma_frame_view_congruence(a: WalFrame, b: WalFrame)
    requires
        a@ == b@,
    ensures
        a.header == b.header,
        a.trailer == b.trailer,
        a.payload.kind == b.payload.kind,
        a.payload.canonical_bytes@ == b.payload.canonical_bytes@,
        payload_digest_spec(a.payload) == payload_digest_spec(b.payload),
        frame_integrity_spec(a) == frame_integrity_spec(b),
        frame_digest_spec(a) == frame_digest_spec(b),
{
    assert(payload_digest_input(a.payload) =~= payload_digest_input(b.payload));
    assert(frame_checksum_input(a.header, a.payload) =~= frame_checksum_input(b.header, b.payload));
    assert(frame_digest_input(a) =~= frame_digest_input(b));
}

/// A frame sealed by its constructor fails only where its payload disagrees
/// with its header (kind first, then digest): both checksums it carries are
/// the ones it must carry. Changing only the trailer checksum of a frame that
/// passes makes it fail with a frame checksum mismatch.
pub proof fn lemma_sealed_frame_integrity(h: WalFrameHeader, p: WalRecordPayload, f: WalFrame, c: u32)
    requires
        f.header == (WalFrameHeader { header_checksum: header_checksum_spec(h), ..h }),
        f.payload == p,
        f.trailer.frame_checksum == frame_checksum_spec(f.header, p),
    ensures
        frame_integrity_spec(f) == (if p.kind != h.record_kind {
            Err(WalValidationError::RecordKindMismatch)
        } else if payload_digest_spec(p) != h.payload_digest@ {
            Err(WalValidationError::PayloadDigestMismatch)
        } else {
            Ok(())
        }),
        frame_integrity_spec(f) is Ok && c != f.trailer.frame_checksum ==> frame_integrity_spec(
            (WalFrame { trailer: WalFrameTrailer { frame_checksum: c }, ..f }),
        ) == Err::<(), WalValidationError>(WalValidationError::FrameChecksumMismatch),
{
    assert(header_fields_bytes(f.header) =~= header_fields_bytes(h));
}

impl WalFrame {
    /// Creates a frame, computing the header checksum and then the frame checksum.
    pub fn new(header: WalFrameHeader, payload: WalRecordPayload) -> (r: Self)
        ensures
            r.header == (WalFrameHeader { header_checksum: header_checksum_spec(header), ..header }),
            r.payload == payload,
            r.trailer.frame_checksum == frame_checksum_spec(r.header, payload),
    {
        let mut header = header;
        let c = header.compute_checksum();
        header.header_checksum = c;
        let frame_checksum = compute_frame_checksum(&header, &payload);
        WalFrame { header, payload, trailer: WalFrameTrailer { frame_checksum } }
    }

    /// Computes the frame digest.
    pub fn digest(&self) -> (r: crate::ident::Hash)
        ensures
            r@ == frame_digest_spec(*self),
    {
        let mut input: Vec<u8> = Vec::new();
        push_slice(&mut input, "echo:causal_wal:frame:v1\0".as_bytes());
        let sealed = self.header.sealed_bytes();
        push_slice(&mut input, sealed.as_slice());
        let pd = self.payload.digest();
        push_hash(&mut input, &pd);
        push_u32_le(&mut input, self.trailer.frame_checksum);
        assert(input@ =~= frame_digest_input(*self));
        blake3_hash(input.as_slice())
    }

    /// Validates checksums and payload/header alignment.
    pub fn validate_integrity(&self) -> (r: Result<(), WalValidationError>)
        ensures
            r == frame_integrity_spec(*self),
    {
        if self.payload.kind != self.header.record_kind {
            return Err(WalValidationError::RecordKindMismatch);
        }
        let pd = self.payload.digest();
        if !hash_eq(&pd, &self.header.payload_digest) {
            return Err(WalValidationError::PayloadDigestMismatch);
        }
        if self.header.compute_checksum() != self.header.header_checksum {
            return Err(WalValidationError::HeaderChecksumMismatch);
        }
        if compute_frame_checksum(&self.header, &self.payload) != self.trailer.frame_checksum {
            return Err(WalValidationError::FrameChecksumMismatch);
        }
        Ok(())
    }
}

/// A frame built by [`WalFrame::new`] passes every integrity check whose
/// inputs the builder controls: checksums always match what they cover.
pub proof fn lemma_new_frame_checksums_match(header: WalFrameHeader, payload: WalRecordPayload, f: WalFrame)
    requires
        f.header == (WalFrameHeader { header_checksum: header_checksum_spec(header), ..header }),
        f.payload == payload,
        f.trailer.frame_checksum == frame_checksum_spec(f.header, payload),
        payload.kind == header.record_kind,
        payload_digest_spec(payload) == header.payload_digest@,
    ensures
        frame_integrity_spec(f) == Ok::<(), WalValidationError>(()),
{
    assert(header_fields_bytes(f.header) =~= header_fields_bytes(header));
}

/// WAL transaction commit marker.
#[derive(Clone, Copy, Debug, PartialEq, Eq)]
pub struct WalTransactionCommit {
    /// Writer epoch.
    pub writer_epoch: WriterEpochId,
    /// Transaction id.
    pub transaction_id: WalTransactionId,
    /// Transaction kind.
    pub transaction_kind: WalTransactionKind,
    /// First transaction frame LSN.
    pub first_lsn: Lsn,
    /// Last transaction frame LSN.
    pub last_lsn: Lsn,
    /// Number of records.
    pub record_count: u64,
    /// Root over transaction record frame digests.
    pub records_root: crate::ident::Hash,
    /// Root over affected frontier transitions.
    pub affected_frontiers_root: crate::ident::Hash,
    /// Previous committed transaction digest.
    pub previous_committed_transaction_digest: crate::ident::Hash,
    /// Durability mode.
    pub durability_mode: WalDurabilityMode,
    /// Commit schema version.
    pub schema_version: u16,
    /// Commit digest.
    pub commit_digest: crate::ident::Hash,
}

/// Bytes hashed into a commit digest (every field but the digest itself).
pub open spec fn commit_digest_input(c: WalTransactionCommit) -> Seq<u8> {
    commit_domain() + c.writer_epoch.0@ + c.transaction_id.0@ + seq![c.transaction_kind.code_spec()]
        + spec_u64_to_le_bytes(c.first_lsn.0) + spec_u64_to_le_bytes(c.last_lsn.0)
        + spec_u64_to_le_bytes(c.record_count) + c.records_root@ + c.affected_frontiers_root@
        + c.previous_committed_transaction_digest@ + seq![c.durability_mode.code_spec()]
        + spec_u16_to_le_bytes(c.schema_version)
}

/// The digest a commit marker must carry.
pub open spec fn commit_digest_spec(c: WalTransactionCommit) -> Seq<u8> {
    blake3_digest(commit_digest_input(c))
}

impl WalTransactionCommit {
    /// Computes the digest expected for the current commit fields.
    pub fn expected_digest(&self) -> (r: crate::ident::Hash)
        ensures
            r@ == commit_digest_spec(*self),
    {
        self.compute_digest()
    }

    pub(crate) fn compute_digest(&self) -> (r: crate::ident::Hash)
        ensures
            r@ == commit_digest_spec(*self),
    {
        let mut input: Vec<u8> = Vec::new();
        push_slice(&mut input, "echo:causal_wal:commit:v1\0".as_bytes());
        push_hash(&mut input, &self.writer_epoch.0);
        push_hash(&mut input, &self.transaction_id.0);
        push_u8(&mut input, self.transaction_kind.stable_code());
        push_u64_le(&mut input, self.first_lsn.0);
        push_u64_le(&mut input, self.last_lsn.0);
        push_u64_le(&mut input, self.record_count);
        push_hash(&mut input, &self.records_root);
        push_hash(&mut input, &self.affected_frontiers_root);
        push_hash(&mut input, &self.previous_committed_transaction_digest);
        push_u8(&mut input, self.durability_mode.stable_code());
        push_u16_le(&mut input, self.schema_version);
        assert(input@ =~= commit_digest_input(*self));
        blake3_hash(input.as_slice())
    }
}

/// Frame digests of `frames`, concatenated in order.
pub open spec fn frame_digests_concat(frames: Seq<WalFrame>) -> Seq<u8>
    decreases frames.len(),
{
    if frames.len() == 0 {
        Seq::empty()
    } else {
        frame_digests_concat(frames.drop_last()) + frame_digest_spec(frames.last())
    }
}

/// Root over a transaction's frames: count, then each frame digest in order.
pub open spec fn records_root_spec(frames: Seq<WalFrame>) -> Seq<u8> {
    blake3_digest(records_root_domain() + spec_u64_to_le_bytes(frames.len() as u64) + frame_digests_concat(frames))
}

/// Computes the records root of a frame sequence.
pub fn records_root(frames: &[WalFrame]) -> (r: crate::ident::Hash)
    ensures
        r@ == records_root_spec(frames@),
{
    let mut input: Vec<u8> = Vec::new();
    push_slice(&mut input, "echo:causal_wal:records_root:v1\0".as_bytes());
    push_u64_le(&mut input, frames.len() as u64);
    let ghost prefix = input@;
    let mut i: usize = 0;
    while i < frames.len()
        invariant
            i <= frames@.len(),
            input@ == prefix + frame_digests_concat(frames@.subrange(0, i as int)),
        decreases frames.len() - i,
    {
        let d = frames[i].digest();
        push_hash(&mut input, &d);
        proof {
            let s = frames@.subrange(0, i + 1);
            assert(s.drop_last() =~= frames@.subrange(0, i as int));
        }
        i += 1;
    }
    assert(frames@.subrange(0, frames@.len() as int) =~= frames@);
    blake3_hash(input.as_slice())
}

/// Canonical bytes of one frontier transition.
pub open spec fn frontier_entry_bytes(f: AffectedFrontier) -> Seq<u8> {
    seq![f.kind.code_spec()] + f.before_digest@ + f.after_digest@
}

/// Concatenated entry bytes of a frontier sequence.
pub open spec fn frontier_entries_concat(fs: Seq<AffectedFrontier>) -> Seq<u8>
    decreases fs.len(),
{
    if fs.len() == 0 {
        Seq::empty()
    } else {
        frontier_entries_concat(fs.drop_last()) + frontier_entry_bytes(fs.last())
    }
}

/// Frontiers whose kind has code `c`, in input order.
pub open spec fn frontiers_with_code(fs: Seq<AffectedFrontier>, c: int) -> Seq<AffectedFrontier> {
    fs.filter(|f: AffectedFrontier| f.kind.code_spec() == c)
}

/// The frontiers stably sorted by kind: those of code `c`, then `c + 1`, ..., up to 8.
pub open spec fn frontiers_sorted_from(fs: Seq<AffectedFrontier>, c: int) -> Seq<AffectedFrontier>
    decreases 9 - c,
{
    if c > 8 || c < 1 {
        Seq::empty()
    } else {
        frontiers_with_code(fs, c) + frontiers_sorted_from(fs, c + 1)
    }
}

/// Root over affected frontiers, taken in stable kind order.
pub open spec fn affected_frontiers_root_spec(fs: Seq<AffectedFrontier>) -> Seq<u8> {
    blake3_digest(frontiers_root_domain() + spec_u64_to_le_bytes(fs.len() as u64)
        + frontier_entries_concat(frontiers_sorted_from(fs, 1)))
}

proof fn lemma_entries_concat_append(a: Seq<AffectedFrontier>, b: Seq<AffectedFrontier>)
    ensures
        frontier_entries_concat(a + b) == frontier_entries_concat(a) + frontier_entries_concat(b),
    decreases b.len(),
{
    if b.len() == 0 {
        assert(a + b =~= a);
        assert(frontier_entries_concat(a) + Seq::<u8>::empty() =~= frontier_entries_concat(a));
    } else {
        lemma_entries_concat_append(a, b.drop_last());
        assert((a + b).drop_last() =~= a + b.drop_last());
        assert((a + b).last() == b.last());
        assert(frontier_entries_concat(a + b) =~= frontier_entries_concat(a) + frontier_entries_concat(b));
    }
}

/// Computes the affected-frontiers root.
pub fn affected_frontiers_root(frontiers: &[AffectedFrontier]) -> (r: crate::ident::Hash)
    ensures
        r@ == affected_frontiers_root_spec(frontiers@),
{
    let mut input: Vec<u8> = Vec::new();
    push_slice(&mut input, "echo:causal_wal:frontiers_root:v1\0".as_bytes());
    push_u64_le(&mut input, frontiers.len() as u64);
    let ghost prefix = input@;
    let mut code: u8 = 1;
    while code <= 8
        invariant
            1 <= code <= 9,
            input@ == prefix + frontier_entries_concat(sorted_prefix(frontiers@, code as int)),
        decreases 9 - code,
    {
        let ghost before = input@;
        let mut i: usize = 0;
        while i < frontiers.len()
            invariant
                i <= frontiers@.len(),
                1 <= code <= 8,
                input@ == before + frontier_entries_concat(
                    frontiers_with_code(frontiers@.subrange(0, i as int), code as int),
                ),
            decreases frontiers.len() - i,
        {
            let f = frontiers[i];
            proof {
                let pred = |g: AffectedFrontier| g.kind.code_spec() == code as int;
                assert(frontiers@.subrange(0, i + 1) =~= frontiers@.subrange(0, i as int).push(frontiers@[i as int]));
                frontiers@.subrange(0, i as int).lemma_filter_push(frontiers@[i as int], pred);
            }
            if f.kind.stable_code() == code {
                push_u8(&mut input, code);
                push_hash(&mut input, &f.before_digest);
                push_hash(&mut input, &f.after_digest);
                proof {
                    let s = frontiers_with_code(frontiers@.subrange(0, i + 1), code as int);
                    assert(s.drop_last() =~= frontiers_with_code(frontiers@.subrange(0, i as int), code as int));
                }
            }
            i += 1;
        }
        assert(frontiers@.subrange(0, frontiers@.len() as int) =~= frontiers@);
        proof {
            lemma_sorted_prefix_step(frontiers@, code as int);
            assert(input@ =~= prefix + frontier_entries_concat(sorted_prefix(frontiers@, code + 1)));
        }
        code += 1;
    }
    proof {
        lemma_sorted_prefix_full(frontiers@);
    }
    assert(input@ =~= frontiers_root_domain() + spec_u64_to_le_bytes(frontiers@.len() as u64)
        + frontier_entries_concat(frontiers_sorted_from(frontiers@, 1)));
    blake3_hash(input.as_slice())
}

/// Frontiers of codes `1 .. c`, in stable kind order.
pub open spec fn sorted_prefix(fs: Seq<AffectedFrontier>, c: int) -> Seq<AffectedFrontier>
    decreases c,
{
    if c <= 1 {
        Seq::empty()
    } else {
        sorted_prefix(fs, c - 1) + frontiers_with_code(fs, c - 1)
    }
}

proof fn lemma_sorted_prefix_step(fs: Seq<AffectedFrontier>, c: int)
    requires
        1 <= c <= 8,
    ensures
        frontier_entries_concat(sorted_prefix(fs, c + 1)) == frontier_entries_concat(sorted_prefix(fs, c))
            + frontier_entries_concat(frontiers_with_code(fs, c)),
{
    lemma_entries_concat_append(sorted_prefix(fs, c), frontiers_with_code(fs, c));
}

proof fn lemma_sorted_prefix_split(fs: Seq<AffectedFrontier>, c: int)
    requires
        1 <= c <= 9,
    ensures
        sorted_prefix(fs, c) + frontiers_sorted_from(fs, c) == frontiers_sorted_from(fs, 1),
    decreases c,
{
    if c == 1 {
        assert(sorted_prefix(fs, 1) + frontiers_sorted_from(fs, 1) =~= frontiers_sorted_from(fs, 1));
    } else {
        lemma_sorted_prefix_split(fs, c - 1);
        assert(frontiers_sorted_from(fs, c - 1) =~= frontiers_with_code(fs, c - 1) + frontiers_sorted_from(fs, c));
        assert(sorted_prefix(fs, c) + frontiers_sorted_from(fs, c) =~= sorted_prefix(fs, c - 1)
            + frontiers_sorted_from(fs, c - 1));
    }
}

proof fn lemma_sorted_prefix_full(fs: Seq<AffectedFrontier>)
    ensures
        sorted_prefix(fs, 9) == frontiers_sorted_from(fs, 1),
{
    lemma_sorted_prefix_split(fs, 9);
    assert(frontiers_sorted_from(fs, 9) =~= Seq::<AffectedFrontier>::empty());
    assert(sorted_prefix(fs, 9) + Seq::<AffectedFrontier>::empty() =~= sorted_prefix(fs, 9));
}

/// `i` as a transaction-local index, saturating at `u32::MAX`.
pub open spec fn local_index_of(i: int) -> u32 {
    if i <= u32::MAX {
        i as u32
    } else {
        u32::MAX
    }
}

/// The first failing per-frame check of frame `f` at position `i` of a transaction.
pub open spec fn frame_position_error(f: WalFrame, i: int, c: WalTransactionCommit) -> Option<WalValidationError> {
    match frame_integrity_spec(f) {
        Err(e) => Some(e),
        Ok(_) => if f.header.transaction_id != c.transaction_id {
            Some(WalValidationError::TransactionIdMismatch)
        } else if f.header.writer_epoch != c.writer_epoch {
            Some(WalValidationError::WriterEpochMismatch)
        } else if f.header.transaction_local_index.0 != local_index_of(i) {
            Some(WalValidationError::TransactionLocalIndexMismatch)
        } else if c.first_lsn.0 + i > u64::MAX || f.header.lsn.0 != c.first_lsn.0 + i {
            Some(WalValidationError::LsnContinuityMismatch)
        } else {
            None
        },
    }
}

/// The first per-frame error at or after position `i`.
pub open spec fn first_frame_error_from(frames: Seq<WalFrame>, c: WalTransactionCommit, i: int) -> Option<WalValidationError>
    decreases frames.len() - i,
{
    if i < 0 || i >= frames.len() {
        None
    } else {
        match frame_position_error(frames[i], i, c) {
            Some(e) => Some(e),
            None => first_frame_error_from(frames, c, i + 1),
        }
    }
}

/// Structural agreement of a transaction's frames with its commit marker,
/// with the error reported for the first check that fails.
pub open spec fn transaction_frames_spec(frames: Seq<WalFrame>, c: WalTransactionCommit) -> Result<(), WalValidationError> {
    if frames.len() == 0 {
        Err(WalValidationError::EmptyTransaction)
    } else if frames[0].header.lsn != c.first_lsn {
        Err(WalValidationError::FirstLsnMismatch)
    } else if frames.last().header.lsn != c.last_lsn {
        Err(WalValidationError::LastLsnMismatch)
    } else if frames.len() != c.record_count {
        Err(WalValidationError::RecordCountMismatch)
    } else {
        match first_frame_error_from(frames, c, 0) {
            Some(e) => Err(e),
            None => if records_root_spec(frames) != c.records_root@ {
                Err(WalValidationError::RecordsRootMismatch)
            } else if commit_digest_spec(c) != c.commit_digest@ {
                Err(WalValidationError::CommitDigestMismatch)
            } else {
                Ok(())
            },
        }
    }
}

/// Validates that `frames` are exactly the frames `commit` describes.
pub fn validate_transaction_frames(frames: &[WalFrame], commit: &WalTransactionCommit) -> (r: Result<(), WalValidationError>)
    ensures
        r == transaction_frames_spec(frames@, *commit),
{
    if frames.len() == 0 {
        return Err(WalValidationError::EmptyTransaction);
    }
    if frames[0].header.lsn.0 != commit.first_lsn.0 {
        return Err(WalValidationError::FirstLsnMismatch);
    }
    if frames[frames.len() - 1].header.lsn.0 != commit.last_lsn.0 {
        return Err(WalValidationError::LastLsnMismatch);
    }
    if len_u64(frames.len()) != commit.record_count {
        return Err(WalValidationError::RecordCountMismatch);
    }
    let mut i: usize = 0;
    while i < frames.len()
        invariant
            i <= frames@.len(),
            frames@.len() > 0,
            frames@[0].header.lsn == commit.first_lsn,
            frames@.last().header.lsn == commit.last_lsn,
            frames@.len() == commit.record_count,
            first_frame_error_from(frames@, *commit, 0) == first_frame_error_from(frames@, *commit, i as int),
        decreases frames.len() - i,
    {
        let frame = &frames[i];
        match frame.validate_integrity() {
            Err(e) => return Err(e),
            Ok(()) => {},
        }
        if !transaction_id_eq(&frame.header.transaction_id, &commit.transaction_id) {
            return Err(WalValidationError::TransactionIdMismatch);
        }
        if !writer_epoch_eq(&frame.header.writer_epoch, &commit.writer_epoch) {
            return Err(WalValidationError::WriterEpochMismatch);
        }
        let expected_index: u32 = if i <= u32::MAX as usize { i as u32 } else { u32::MAX };
        if frame.header.transaction_local_index.0 != expected_index {
            return Err(WalValidationError::TransactionLocalIndexMismatch);
        }
        if commit.first_lsn.0 > u64::MAX - (i as u64) || frame.header.lsn.0 != commit.first_lsn.0 + (i as u64) {
            return Err(WalValidationError::LsnContinuityMismatch);
        }
        i += 1;
    }
    let root = records_root(frames);
    if !hash_eq(&root, &commit.records_root) {
        return Err(WalValidationError::RecordsRootMismatch);
    }
    let digest = commit.compute_digest();
    if !hash_eq(&digest, &commit.commit_digest) {
        return Err(WalValidationError::CommitDigestMismatch);
    }
    Ok(())
}

/// Committed WAL transaction.
#[derive(Clone, Debug, PartialEq, Eq)]
pub struct WalCommittedTransaction {
    /// Transaction frames.
    pub frames: Vec<WalFrame>,
    /// Affected frontiers.
    pub affected_frontiers: Vec<AffectedFrontier>,
    /// Commit marker.
    pub commit: WalTransactionCommit,
}

/// Every record in `frames` requires the authority of transaction kind `k`.
pub open spec fn records_match_authority(frames: Seq<WalFrame>, k: WalTransactionKind) -> bool {
    forall|i: int| 0 <= i < frames.len() ==> #[trigger] frames[i].header.record_kind.required_authority_spec()
        == k.required_authority_spec()
}

/// Every frontier transition is one that transaction kind `k` may make.
pub open spec fn frontiers_allowed(fs: Seq<AffectedFrontier>, k: WalTransactionKind) -> bool {
    forall|i: int| 0 <= i < fs.len() ==> k.allows_frontier(#[trigger] fs[i].kind)
}

/// Full validation of a committed transaction, with the first failing check reported.
pub open spec fn committed_transaction_spec(t: WalCommittedTransaction) -> Result<(), WalValidationError> {
    match transaction_frames_spec(t.frames@, t.commit) {
        Err(e) => Err(e),
        Ok(_) => if !records_match_authority(t.frames@, t.commit.transaction_kind) {
            Err(WalValidationError::RecordAuthorityMismatch)
        } else if !frontiers_allowed(t.affected_frontiers@, t.commit.transaction_kind) {
            Err(WalValidationError::FrontierTransitionKindMismatch)
        } else if affected_frontiers_root_spec(t.affected_frontiers@) != t.commit.affected_frontiers_root@ {
            Err(WalValidationError::AffectedFrontiersRootMismatch)
        } else if commit_digest_spec(t.commit) != t.commit.commit_digest@ {
            Err(WalValidationError::CommitDigestMismatch)
        } else {
            Ok(())
        },
    }
}

fn validate_transaction_semantics(frames: &[WalFrame], kind: WalTransactionKind) -> (r: Result<(), WalValidationError>)
    ensures
        r is Ok <==> records_match_authority(frames@, kind),
        r is Err ==> r == Err::<(), WalValidationError>(WalValidationError::RecordAuthorityMismatch),
{
    let expected: WalAppendAuthority = kind.required_authority();
    let mut i: usize = 0;
    while i < frames.len()
        invariant
            i <= frames@.len(),
            expected == kind.required_authority_spec(),
            forall|j: int| 0 <= j < i ==> #[trigger] frames@[j].header.record_kind.required_authority_spec()
                == kind.required_authority_spec(),
        decreases frames.len() - i,
    {
        if frames[i].header.record_kind.required_authority() != expected {
            return Err(WalValidationError::RecordAuthorityMismatch);
        }
        i += 1;
    }
    Ok(())
}

fn validate_transaction_frontiers(fs: &[AffectedFrontier], kind: WalTransactionKind) -> (r: Result<(), WalValidationError>)
    ensures
        r is Ok <==> frontiers_allowed(fs@, kind),
        r is Err ==> r == Err::<(), WalValidationError>(WalValidationError::FrontierTransitionKindMismatch),
{
    let mut i: usize = 0;
    while i < fs.len()
        invariant
            i <= fs@.len(),
            forall|j: int| 0 <= j < i ==> kind.allows_frontier(#[trigger] fs@[j].kind),
        decreases fs.len() - i,
    {
        if !kind.frontier_kind_allowed(fs[i].kind) {
            return Err(WalValidationError::FrontierTransitionKindMismatch);
        }
        i += 1;
    }
    Ok(())
}

impl WalCommittedTransaction {
    /// Validates the transaction's structural and semantic commit invariants.
    pub fn validate(&self) -> (r: Result<(), WalValidationError>)
        ensures
            r == committed_transaction_spec(*self),
    {
        match validate_transaction_frames(self.frames.as_slice(), &self.commit) {
            Err(e) => return Err(e),
            Ok(()) => {},
        }
        match validate_transaction_semantics(self.frames.as_slice(), self.commit.transaction_kind) {
            Err(e) => return Err(e),
            Ok(()) => {},
        }
        match validate_transaction_frontiers(self.affected_frontiers.as_slice(), self.commit.transaction_kind) {
            Err(e) => return Err(e),
            Ok(()) => {},
        }
        let root = affected_frontiers_root(self.affected_frontiers.as_slice());
        if !hash_eq(&root, &self.commit.affected_frontiers_root) {
            return Err(WalValidationError::AffectedFrontiersRootMismatch);
        }
        let digest = self.commit.compute_digest();
        if !hash_eq(&digest, &self.commit.commit_digest) {
            return Err(WalValidationError::CommitDigestMismatch);
        }
        Ok(())
    }
}

/// Frame sequences with equal views are validated and rooted identically.
pub proof fn lemma_frames_view_congruence(s1: Seq<WalFrame>, s2: Seq<WalFrame>, c: WalTransactionCommit)
    requires
        frames_view(s1) == frames_view(s2),
    ensures
        s1.len() == s2.len(),
        transaction_frames_spec(s1, c) == transaction_frames_spec(s2, c),
        records_root_spec(s1) == records_root_spec(s2),
{
    assert(frames_view(s1).len() == s1.len());
    assert(frames_view(s2).len() == s2.len());
    assert forall|i: int| 0 <= i < s1.len() implies #[trigger] s1[i]@ == s2[i]@ by {
        assert(frames_view(s1)[i] == s1[i]@);
        assert(frames_view(s2)[i] == s2[i]@);
    }
    lemma_digests_concat_congruence(s1, s2);
    lemma_first_error_congruence(s1, s2, c, 0);
    if s1.len() > 0 {
        lemma_frame_view_congruence(s1[0], s2[0]);
        lemma_frame_view_congruence(s1.last(), s2.last());
    }
}

proof fn lemma_digests_concat_congruence(s1: Seq<WalFrame>, s2: Seq<WalFrame>)
    requires
        s1.len() == s2.len(),
        forall|i: int| 0 <= i < s1.len() ==> #[trigger] s1[i]@ == s2[i]@,
    ensures
        frame_digests_concat(s1) == frame_digests_concat(s2),
    decreases s1.len(),
{
    if s1.len() > 0 {
        lemma_digests_concat_congruence(s1.drop_last(), s2.drop_last());
        lemma_frame_view_congruence(s1.last(), s2.last());
    }
}

proof fn lemma_first_error_congruence(s1: Seq<WalFrame>, s2: Seq<WalFrame>, c: WalTransactionCommit, i: int)
    requires
        s1.len() == s2.len(),
        0 <= i,
        forall|j: int| 0 <= j < s1.len() ==> #[trigger] s1[j]@ == s2[j]@,
    ensures
        first_frame_error_from(s1, c, i) == first_frame_error_from(s2, c, i),
    decreases s1.len() - i,
{
    if i < s1.len() {
        lemma_first_error_congruence(s1, s2, c, i + 1);
        lemma_frame_view_congruence(s1[i], s2[i]);
    }
}

} // verus!
