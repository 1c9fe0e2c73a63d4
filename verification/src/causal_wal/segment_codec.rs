//! Binary encodings of frames and commit markers as they are stored in
//! segment files, with decoders that read them back field by field.
use vstd::prelude::*;
use vstd::bytes::*;
use vstd::slice::*;
use crate::causal_wal::frame::{
    frame_integrity_spec, WalFrame, WalFrameHeader, WalFrameTrailer, WalRecordPayload, WalTransactionCommit,
};
use crate::causal_wal::kinds::{
    WalCompressionKind, WalDurabilityMode, WalRecordKind, WalRedactionPosture, WalTransactionKind,
};
use crate::causal_wal::projection::{hash_of, lemma_hash_of};
use crate::causal_wal::{
    Lsn, PayloadCodecId, PayloadSchemaId, TransactionLocalIndex, WalDecodeError, WalSegmentId, WalTransactionId,
    WriterEpochId,
};
use crate::encoding::{push_hash, push_slice, push_u16_le, push_u32_le, push_u64_le, push_u8};

verus! {

/// Little-endian `u16` at byte offset `off`.
pub open spec fn u16_at(s: Seq<u8>, off: int) -> u16 {
    spec_u16_from_le_bytes(s.subrange(off, off + 2))
}

/// Little-endian `u32` at byte offset `off`.
pub open spec fn u32_at(s: Seq<u8>, off: int) -> u32 {
    spec_u32_from_le_bytes(s.subrange(off, off + 4))
}

/// Little-endian `u64` at byte offset `off`.
pub open spec fn u64_at(s: Seq<u8>, off: int) -> u64 {
    spec_u64_from_le_bytes(s.subrange(off, off + 8))
}

/// The 32-byte digest at byte offset `off`.
pub open spec fn hash_at(s: Seq<u8>, off: int) -> [u8; 32] {
    hash_of(s.subrange(off, off + 32))
}

fn read_u16_at(b: &[u8], off: usize) -> (r: u16)
    requires
        off + 2 <= b@.len(),
    ensures
        r == u16_at(b@, off as int),
{
    let _len = b.len();
    u16_from_le_bytes(slice_subrange(b, off, off + 2))
}

fn read_u32_at(b: &[u8], off: usize) -> (r: u32)
    requires
        off + 4 <= b@.len(),
    ensures
        r == u32_at(b@, off as int),
{
    let _len = b.len();
    u32_from_le_bytes(slice_subrange(b, off, off + 4))
}

pub(crate) fn read_u64_at(b: &[u8], off: usize) -> (r: u64)
    requires
        off + 8 <= b@.len(),
    ensures
        r == u64_at(b@, off as int),
{
    let _len = b.len();
    u64_from_le_bytes(slice_subrange(b, off, off + 8))
}

pub(crate) fn read_hash_at(b: &[u8], off: usize) -> (r: [u8; 32])
    requires
        off + 32 <= b@.len(),
    ensures
        r == hash_at(b@, off as int),
        r@ == b@.subrange(off as int, off + 32),
{
    let _len = b.len();
    let mut h = [0u8; 32];
    let mut i: usize = 0;
    while i < 32
        invariant
            i <= 32,
            b@.len() <= usize::MAX,
            off + 32 <= b@.len(),
            forall|j: int| 0 <= j < i ==> h[j] == b@[off + j],
        decreases 32 - i,
    {
        h[i] = b[off + i];
        i += 1;
    }
    proof {
        assert(h@ =~= b@.subrange(off as int, off + 32));
        lemma_hash_of(h, b@.subrange(off as int, off + 32));
    }
    h
}

// ---- frames ----

/// Stored bytes of a frame: every header field in order, the payload schema
/// version, the length-prefixed payload bytes, and the frame checksum.
pub open spec fn frame_parts_bytes(h: WalFrameHeader, schema_version: u16, body: Seq<u8>, t: WalFrameTrailer) -> Seq<u8> {
    spec_u16_to_le_bytes(h.wal_version) + h.writer_epoch.0@ + spec_u64_to_le_bytes(h.segment_id.0)
        + spec_u64_to_le_bytes(h.lsn.0) + h.transaction_id.0@ + spec_u32_to_le_bytes(h.transaction_local_index.0)
        + seq![h.record_kind.code_spec()] + spec_u64_to_le_bytes(h.payload_len) + h.payload_digest@
        + h.payload_codec_id.0@ + h.payload_schema_id.0@ + spec_u16_to_le_bytes(h.payload_schema_version)
        + spec_u16_to_le_bytes(h.canonical_encoding_version) + h.digest_domain@ + seq![h.compression_kind.code_spec()]
        + seq![h.encryption_or_redaction_posture.code_spec()] + h.previous_frame_digest@ + spec_u32_to_le_bytes(
        h.header_checksum,
    ) + spec_u16_to_le_bytes(schema_version) + spec_u64_to_le_bytes(body.len() as u64) + body
        + spec_u32_to_le_bytes(t.frame_checksum)
}

/// Stored bytes of a frame.
pub open spec fn frame_bytes(f: WalFrame) -> Seq<u8> {
    frame_parts_bytes(f.header, f.payload.schema_version, f.payload.canonical_bytes@, f.trailer)
}

/// The header whose fields sit at their offsets in `s`.
pub open spec fn header_at(
    s: Seq<u8>,
    kind: WalRecordKind,
    comp: WalCompressionKind,
    red: WalRedactionPosture,
) -> WalFrameHeader {
    WalFrameHeader {
        wal_version: u16_at(s, 0),
        writer_epoch: WriterEpochId(hash_at(s, 2)),
        segment_id: WalSegmentId(u64_at(s, 34)),
        lsn: Lsn(u64_at(s, 42)),
        transaction_id: WalTransactionId(hash_at(s, 50)),
        transaction_local_index: TransactionLocalIndex(u32_at(s, 82)),
        record_kind: kind,
        payload_len: u64_at(s, 87),
        payload_digest: hash_at(s, 95),
        payload_codec_id: PayloadCodecId(hash_at(s, 127)),
        payload_schema_id: PayloadSchemaId(hash_at(s, 159)),
        payload_schema_version: u16_at(s, 191),
        canonical_encoding_version: u16_at(s, 193),
        digest_domain: hash_at(s, 195),
        compression_kind: comp,
        encryption_or_redaction_posture: red,
        previous_frame_digest: hash_at(s, 229),
        header_checksum: u32_at(s, 261),
    }
}

/// A frame's view: header, payload (kind, schema version, bytes), trailer.
pub type FrameView = (WalFrameHeader, (WalRecordKind, u16, Seq<u8>), WalFrameTrailer);

/// Reads the fields of a stored frame in order, reporting the first field
/// that is missing or carries an unknown code, and trailing bytes.
pub open spec fn frame_layout(s: Seq<u8>) -> Result<FrameView, WalDecodeError> {
    if s.len() < 87 {
        Err(WalDecodeError::UnexpectedEof)
    } else {
        match WalRecordKind::from_code_spec(s[86]) {
            None => Err(WalDecodeError::UnknownEnumCode { enum_name: "WalRecordKind", code: s[86] }),
            Some(kind) => if s.len() < 228 {
                Err(WalDecodeError::UnexpectedEof)
            } else {
                match WalCompressionKind::from_code_spec(s[227]) {
                    None => Err(WalDecodeError::UnknownEnumCode { enum_name: "WalCompressionKind", code: s[227] }),
                    Some(comp) => if s.len() < 229 {
                        Err(WalDecodeError::UnexpectedEof)
                    } else {
                        match WalRedactionPosture::from_code_spec(s[228]) {
                            None => Err(WalDecodeError::UnknownEnumCode { enum_name: "WalRedactionPosture", code: s[228] }),
                            Some(red) => if s.len() < 275 {
                                Err(WalDecodeError::UnexpectedEof)
                            } else {
                                let n = u64_at(s, 267) as int;
                                if 275 + n + 4 > s.len() {
                                    Err(WalDecodeError::UnexpectedEof)
                                } else if 275 + n + 4 < s.len() {
                                    Err(WalDecodeError::TrailingBytes)
                                } else {
                                    Ok(
                                        (
                                            header_at(s, kind, comp, red),
                                            (kind, u16_at(s, 265), s.subrange(275, 275 + n)),
                                            WalFrameTrailer { frame_checksum: u32_at(s, 275 + n) },
                                        ),
                                    )
                                }
                            },
                        }
                    },
                }
            },
        }
    }
}

/// Every frame with view `v` passes its integrity checks.
pub open spec fn view_integral(v: FrameView) -> bool {
    forall|f: WalFrame| #[trigger] f@ == v ==> frame_integrity_spec(f) is Ok
}

/// Decoding of a stored frame: its layout, then its embedded integrity.
pub open spec fn frame_decode(s: Seq<u8>) -> Result<FrameView, WalDecodeError> {
    match frame_layout(s) {
        Err(e) => Err(e),
        Ok(v) => if view_integral(v) {
            Ok(v)
        } else {
            Err(WalDecodeError::InvalidEmbeddedFrame)
        },
    }
}

/// A frame's integrity depends on its view alone.
pub proof fn lemma_integrity_by_view(f: WalFrame, g: WalFrame)
    requires
        f@ == g@,
    ensures
        frame_integrity_spec(f) == frame_integrity_spec(g),
{
    assert(f.payload.canonical_bytes@ == g.payload.canonical_bytes@);
}

/// Encodes a frame for a segment file.
pub fn encode_frame(frame: &WalFrame) -> (r: Vec<u8>)
    ensures
        r@ == frame_bytes(*frame),
{
    let h = &frame.header;
    let mut out: Vec<u8> = Vec::new();
    push_u16_le(&mut out, h.wal_version);
    push_hash(&mut out, &h.writer_epoch.0);
    push_u64_le(&mut out, h.segment_id.0);
    push_u64_le(&mut out, h.lsn.0);
    push_hash(&mut out, &h.transaction_id.0);
    push_u32_le(&mut out, h.transaction_local_index.0);
    push_u8(&mut out, h.record_kind.stable_code());
    push_u64_le(&mut out, h.payload_len);
    push_hash(&mut out, &h.payload_digest);
    push_hash(&mut out, &h.payload_codec_id.0);
    push_hash(&mut out, &h.payload_schema_id.0);
    push_u16_le(&mut out, h.payload_schema_version);
    push_u16_le(&mut out, h.canonical_encoding_version);
    push_hash(&mut out, &h.digest_domain);
    push_u8(&mut out, h.compression_kind.stable_code());
    push_u8(&mut out, h.encryption_or_redaction_posture.stable_code());
    push_hash(&mut out, &h.previous_frame_digest);
    push_u32_le(&mut out, h.header_checksum);
    push_u16_le(&mut out, frame.payload.schema_version);
    push_u64_le(&mut out, frame.payload.canonical_bytes.len() as u64);
    push_slice(&mut out, frame.payload.canonical_bytes.as_slice());
    push_u32_le(&mut out, frame.trailer.frame_checksum);
    assert(out@ =~= frame_bytes(*frame));
    out
}

/// Decodes a stored frame and checks its embedded integrity.
#[verifier::rlimit(40)]
pub fn decode_frame(bytes: &[u8]) -> (r: Result<WalFrame, WalDecodeError>)
    ensures
        match frame_decode(bytes@) {
            Ok(v) => r matches Ok(f) && f@ == v,
            Err(e) => r == Err::<WalFrame, WalDecodeError>(e),
        },
{
    let ghost s = bytes@;
    if bytes.len() < 87 {
        return Err(WalDecodeError::UnexpectedEof);
    }
    let kind = WalRecordKind::from_code(bytes[86])?;
    if bytes.len() < 228 {
        return Err(WalDecodeError::UnexpectedEof);
    }
    let comp = WalCompressionKind::from_code(bytes[227])?;
    if bytes.len() < 229 {
        return Err(WalDecodeError::UnexpectedEof);
    }
    let red = WalRedactionPosture::from_code(bytes[228])?;
    if bytes.len() < 275 {
        return Err(WalDecodeError::UnexpectedEof);
    }
    let n = read_u64_at(bytes, 267);
    let rem = bytes.len() - 275;
    if (rem as u64) < n || rem - (n as usize) < 4 {
        return Err(WalDecodeError::UnexpectedEof);
    }
    let end = 275 + n as usize;
    if rem - (n as usize) > 4 {
        return Err(WalDecodeError::TrailingBytes);
    }
    let header = WalFrameHeader {
        wal_version: read_u16_at(bytes, 0),
        writer_epoch: WriterEpochId(read_hash_at(bytes, 2)),
        segment_id: WalSegmentId(read_u64_at(bytes, 34)),
        lsn: Lsn(read_u64_at(bytes, 42)),
        transaction_id: WalTransactionId(read_hash_at(bytes, 50)),
        transaction_local_index: TransactionLocalIndex(read_u32_at(bytes, 82)),
        record_kind: kind,
        payload_len: read_u64_at(bytes, 87),
        payload_digest: read_hash_at(bytes, 95),
        payload_codec_id: PayloadCodecId(read_hash_at(bytes, 127)),
        payload_schema_id: PayloadSchemaId(read_hash_at(bytes, 159)),
        payload_schema_version: read_u16_at(bytes, 191),
        canonical_encoding_version: read_u16_at(bytes, 193),
        digest_domain: read_hash_at(bytes, 195),
        compression_kind: comp,
        encryption_or_redaction_posture: red,
        previous_frame_digest: read_hash_at(bytes, 229),
        header_checksum: read_u32_at(bytes, 261),
    };
    let schema_version = read_u16_at(bytes, 265);
    let body = slice_to_vec(slice_subrange(bytes, 275, end));
    let trailer = WalFrameTrailer { frame_checksum: read_u32_at(bytes, end) };
    let frame = WalFrame { header, payload: WalRecordPayload::new(kind, schema_version, body), trailer };
    let ghost v = (header_at(s, kind, comp, red), (kind, u16_at(s, 265), s.subrange(275, 275 + n)), WalFrameTrailer {
        frame_checksum: u32_at(s, 275 + n),
    });
    assert(frame_layout(s) == Ok::<FrameView, WalDecodeError>(v));
    assert(frame@ == v);
    match frame.validate_integrity() {
        Ok(()) => {
            assert forall|g: WalFrame| #[trigger] g@ == v implies frame_integrity_spec(g) is Ok by {
                lemma_integrity_by_view(frame, g);
            }
            Ok(frame)
        },
        Err(_) => {
            assert(!view_integral(v));
            Err(WalDecodeError::InvalidEmbeddedFrame)
        },
    }
}

// ---- commit markers ----

/// Stored bytes of a commit marker: every field in order.
pub open spec fn commit_bytes(c: WalTransactionCommit) -> Seq<u8> {
    c.writer_epoch.0@ + c.transaction_id.0@ + seq![c.transaction_kind.code_spec()] + spec_u64_to_le_bytes(c.first_lsn.0)
        + spec_u64_to_le_bytes(c.last_lsn.0) + spec_u64_to_le_bytes(c.record_count) + c.records_root@
        + c.affected_frontiers_root@ + c.previous_committed_transaction_digest@ + seq![c.durability_mode.code_spec()]
        + spec_u16_to_le_bytes(c.schema_version) + c.commit_digest@
}

/// Reads the fields of a stored commit marker in order, reporting the first
/// field that is missing or carries an unknown code, and trailing bytes.
pub open spec fn commit_decode(s: Seq<u8>) -> Result<WalTransactionCommit, WalDecodeError> {
    if s.len() < 65 {
        Err(WalDecodeError::UnexpectedEof)
    } else {
        match WalTransactionKind::from_code_spec(s[64]) {
            None => Err(WalDecodeError::UnknownEnumCode { enum_name: "WalTransactionKind", code: s[64] }),
            Some(kind) => if s.len() < 186 {
                Err(WalDecodeError::UnexpectedEof)
            } else {
                match WalDurabilityMode::from_code_spec(s[185]) {
                    None => Err(WalDecodeError::UnknownEnumCode { enum_name: "WalDurabilityMode", code: s[185] }),
                    Some(mode) => if s.len() < 220 {
                        Err(WalDecodeError::UnexpectedEof)
                    } else if s.len() > 220 {
                        Err(WalDecodeError::TrailingBytes)
                    } else {
                        Ok(
                            WalTransactionCommit {
                                writer_epoch: WriterEpochId(hash_at(s, 0)),
                                transaction_id: WalTransactionId(hash_at(s, 32)),
                                transaction_kind: kind,
                                first_lsn: Lsn(u64_at(s, 65)),
                                last_lsn: Lsn(u64_at(s, 73)),
                                record_count: u64_at(s, 81),
                                records_root: hash_at(s, 89),
                                affected_frontiers_root: hash_at(s, 121),
                                previous_committed_transaction_digest: hash_at(s, 153),
                                durability_mode: mode,
                                schema_version: u16_at(s, 186),
                                commit_digest: hash_at(s, 188),
                            },
                        )
                    },
                }
            },
        }
    }
}

/// Encodes a commit marker for a segment file.
pub fn encode_commit(commit: &WalTransactionCommit) -> (r: Vec<u8>)
    ensures
        r@ == commit_bytes(*commit),
{
    let mut out: Vec<u8> = Vec::new();
    push_hash(&mut out, &commit.writer_epoch.0);
    push_hash(&mut out, &commit.transaction_id.0);
    push_u8(&mut out, commit.transaction_kind.stable_code());
    push_u64_le(&mut out, commit.first_lsn.0);
    push_u64_le(&mut out, commit.last_lsn.0);
    push_u64_le(&mut out, commit.record_count);
    push_hash(&mut out, &commit.records_root);
    push_hash(&mut out, &commit.affected_frontiers_root);
    push_hash(&mut out, &commit.previous_committed_transaction_digest);
    push_u8(&mut out, commit.durability_mode.stable_code());
    push_u16_le(&mut out, commit.schema_version);
    push_hash(&mut out, &commit.commit_digest);
    assert(out@ =~= commit_bytes(*commit));
    out
}

/// Decodes a stored commit marker.
pub fn decode_commit(bytes: &[u8]) -> (r: Result<WalTransactionCommit, WalDecodeError>)
    ensures
        r == commit_decode(bytes@),
{
    if bytes.len() < 65 {
        return Err(WalDecodeError::UnexpectedEof);
    }
    let transaction_kind = WalTransactionKind::from_code(bytes[64])?;
    if bytes.len() < 186 {
        return Err(WalDecodeError::UnexpectedEof);
    }
    let durability_mode = WalDurabilityMode::from_code(bytes[185])?;
    if bytes.len() < 220 {
        return Err(WalDecodeError::UnexpectedEof);
    }
    if bytes.len() > 220 {
        return Err(WalDecodeError::TrailingBytes);
    }
    Ok(
        WalTransactionCommit {
            writer_epoch: WriterEpochId(read_hash_at(bytes, 0)),
            transaction_id: WalTransactionId(read_hash_at(bytes, 32)),
            transaction_kind,
            first_lsn: Lsn(read_u64_at(bytes, 65)),
            last_lsn: Lsn(read_u64_at(bytes, 73)),
            record_count: read_u64_at(bytes, 81),
            records_root: read_hash_at(bytes, 89),
            affected_frontiers_root: read_hash_at(bytes, 121),
            previous_committed_transaction_digest: read_hash_at(bytes, 153),
            durability_mode,
            schema_version: read_u16_at(bytes, 186),
            commit_digest: read_hash_at(bytes, 188),
        },
    )
}

// ---- round trips ----

/// A stored commit marker reads back as written.
#[verifier::rlimit(60)]
#[verifier::spinoff_prover]
pub proof fn lemma_commit_round_trip(c: WalTransactionCommit)
    ensures
        commit_decode(commit_bytes(c)) == Ok::<WalTransactionCommit, WalDecodeError>(c),
{
    let s = commit_bytes(c);
    lemma_auto_spec_u64_to_from_le_bytes();
    lemma_auto_spec_u16_to_from_le_bytes();
    assert(s.len() == 220);
    assert(s[64] == c.transaction_kind.code_spec());
    assert(s[185] == c.durability_mode.code_spec());
    assert(s.subrange(0, 32) =~= c.writer_epoch.0@);
    assert(s.subrange(32, 64) =~= c.transaction_id.0@);
    assert(s.subrange(65, 73) =~= spec_u64_to_le_bytes(c.first_lsn.0));
    assert(s.subrange(73, 81) =~= spec_u64_to_le_bytes(c.last_lsn.0));
    assert(s.subrange(81, 89) =~= spec_u64_to_le_bytes(c.record_count));
    assert(s.subrange(89, 121) =~= c.records_root@);
    assert(s.subrange(121, 153) =~= c.affected_frontiers_root@);
    assert(s.subrange(153, 185) =~= c.previous_committed_transaction_digest@);
    assert(s.subrange(186, 188) =~= spec_u16_to_le_bytes(c.schema_version));
    assert(s.subrange(188, 220) =~= c.commit_digest@);
    lemma_hash_of(c.writer_epoch.0, s.subrange(0, 32));
    lemma_hash_of(c.transaction_id.0, s.subrange(32, 64));
    lemma_hash_of(c.records_root, s.subrange(89, 121));
    lemma_hash_of(c.affected_frontiers_root, s.subrange(121, 153));
    lemma_hash_of(c.previous_committed_transaction_digest, s.subrange(153, 185));
    lemma_hash_of(c.commit_digest, s.subrange(188, 220));
}

/// A stored frame's fields read back as written.
#[verifier::rlimit(100)]
#[verifier::spinoff_prover]
pub proof fn lemma_frame_layout_round_trip(f: WalFrame)
    requires
        f.payload.canonical_bytes@.len() <= usize::MAX,
        f.payload.kind == f.header.record_kind,
    ensures
        frame_layout(frame_bytes(f)) == Ok::<FrameView, WalDecodeError>(f@),
{
    let h = f.header;
    let body = f.payload.canonical_bytes@;
    let n = body.len() as int;
    let s = frame_bytes(f);
    lemma_auto_spec_u64_to_from_le_bytes();
    lemma_auto_spec_u32_to_from_le_bytes();
    lemma_auto_spec_u16_to_from_le_bytes();
    assert(s.len() == 279 + n);
    assert(s[86] == h.record_kind.code_spec());
    assert(s[227] == h.compression_kind.code_spec());
    assert(s[228] == h.encryption_or_redaction_posture.code_spec());
    assert(s.subrange(0, 2) =~= spec_u16_to_le_bytes(h.wal_version));
    assert(s.subrange(2, 34) =~= h.writer_epoch.0@);
    assert(s.subrange(34, 42) =~= spec_u64_to_le_bytes(h.segment_id.0));
    assert(s.subrange(42, 50) =~= spec_u64_to_le_bytes(h.lsn.0));
    assert(s.subrange(50, 82) =~= h.transaction_id.0@);
    assert(s.subrange(82, 86) =~= spec_u32_to_le_bytes(h.transaction_local_index.0));
    assert(s.subrange(87, 95) =~= spec_u64_to_le_bytes(h.payload_len));
    assert(s.subrange(95, 127) =~= h.payload_digest@);
    assert(s.subrange(127, 159) =~= h.payload_codec_id.0@);
    assert(s.subrange(159, 191) =~= h.payload_schema_id.0@);
    assert(s.subrange(191, 193) =~= spec_u16_to_le_bytes(h.payload_schema_version));
    assert(s.subrange(193, 195) =~= spec_u16_to_le_bytes(h.canonical_encoding_version));
    assert(s.subrange(195, 227) =~= h.digest_domain@);
    assert(s.subrange(229, 261) =~= h.previous_frame_digest@);
    assert(s.subrange(261, 265) =~= spec_u32_to_le_bytes(h.header_checksum));
    assert(s.subrange(265, 267) =~= spec_u16_to_le_bytes(f.payload.schema_version));
    assert(s.subrange(267, 275) =~= spec_u64_to_le_bytes(n as u64));
    assert(s.subrange(275, 275 + n) =~= body);
    assert(s.subrange(275 + n, 279 + n) =~= spec_u32_to_le_bytes(f.trailer.frame_checksum));
    lemma_hash_of(h.writer_epoch.0, s.subrange(2, 34));
    lemma_hash_of(h.transaction_id.0, s.subrange(50, 82));
    lemma_hash_of(h.payload_digest, s.subrange(95, 127));
    lemma_hash_of(h.payload_codec_id.0, s.subrange(127, 159));
    lemma_hash_of(h.payload_schema_id.0, s.subrange(159, 191));
    lemma_hash_of(h.digest_domain, s.subrange(195, 227));
    lemma_hash_of(h.previous_frame_digest, s.subrange(229, 261));
    assert(header_at(s, h.record_kind, h.compression_kind, h.encryption_or_redaction_posture) == h);
}

/// An integral frame, stored, decodes to a frame with the same view.
pub proof fn lemma_frame_round_trip(f: WalFrame)
    requires
        f.payload.canonical_bytes@.len() <= usize::MAX,
        frame_integrity_spec(f) is Ok,
    ensures
        frame_decode(frame_bytes(f)) == Ok::<FrameView, WalDecodeError>(f@),
{
    lemma_frame_layout_round_trip(f);
    assert forall|g: WalFrame| #[trigger] g@ == f@ implies frame_integrity_spec(g) is Ok by {
        lemma_integrity_by_view(f, g);
    }
}

} // verus!
