//! Segment files: a run of sealed records, each holding a frame or a commit
//! marker. A record is its magic, its kind, its length, its payload and a
//! digest over them; reading stops at a torn tail.
use vstd::prelude::*;
use vstd::bytes::*;
use vstd::slice::*;
use vstd::string::*;
use crate::causal_wal::frame::{clone_frame, frames_view, WalFrame, WalTransactionCommit};
use crate::causal_wal::segment_codec::{
    commit_bytes, commit_decode, decode_commit, decode_frame, encode_commit, encode_frame, frame_bytes, frame_decode,
    lemma_commit_round_trip, lemma_frame_round_trip, read_u64_at, u64_at, FrameView,
};
use crate::causal_wal::recovery::{
    max_last_lsn, recover_from_frames_and_commits, recovery_outcome, RecoveryAccessMode, RecoveryScanReport,
    RecoveryTailPosture, WalRecoveredTransaction,
};
use crate::causal_wal::store::{segment_digest, segment_digest_spec, WalStoreError};
use crate::causal_wal::{Lsn, WalDecodeError, WalRecoveryError, WalSegmentId};
use crate::causal_wal::frame::frame_integrity_spec;
use crate::causal_wal::projection::{hash_of, lemma_hash_of};
use crate::crypto::{blake3_digest, blake3_hash};
use crate::encoding::{push_hash, push_slice, push_u64_le, push_u8};
use crate::order::bytes_eq;

verus! {

/// Magic opening every segment record.
pub open spec fn record_magic() -> Seq<u8> {
    seq![0x45u8, 0x43u8, 0x57u8, 0x41u8, 0x4cu8, 0x52u8, 0x31u8, 0x21u8]
}

fn record_magic_bytes() -> (r: [u8; 8])
    ensures
        r@ == record_magic(),
{
    let r = [0x45u8, 0x43u8, 0x57u8, 0x41u8, 0x4cu8, 0x52u8, 0x31u8, 0x21u8];
    assert(r@ =~= record_magic());
    r
}

/// Domain prefix of segment record digests.
pub open spec fn disk_record_domain() -> Seq<u8> {
    "echo:causal_wal:disk_record:v1\0".spec_bytes()
}

/// Digest sealing a segment record of `kind` over `payload`.
pub open spec fn disk_record_digest_spec(kind: u8, payload: Seq<u8>) -> crate::ident::Hash {
    hash_of(blake3_digest(disk_record_domain() + seq![kind] + spec_u64_to_le_bytes(payload.len() as u64) + payload))
}

/// Stored bytes of a segment record.
pub open spec fn segment_record_bytes(kind: u8, payload: Seq<u8>) -> Seq<u8> {
    record_magic() + seq![kind] + spec_u64_to_le_bytes(payload.len() as u64) + payload + disk_record_digest_spec(
        kind,
        payload,
    )@
}

/// Record kind of a stored frame.
pub const FRAME_RECORD_KIND: u8 = 1;

/// Record kind of a stored commit marker.
pub const COMMIT_RECORD_KIND: u8 = 2;

/// What reading a segment gives: frame views, commit markers, and whether a
/// torn tail was met; the first bad record decides the error.
pub open spec fn segment_parse(s: Seq<u8>) -> Result<(Seq<FrameView>, Seq<WalTransactionCommit>, bool), WalStoreError>
    decreases s.len(),
{
    if s.len() == 0 {
        Ok((Seq::empty(), Seq::empty(), false))
    } else if s.len() < 17 {
        Ok((Seq::empty(), Seq::empty(), true))
    } else if s.take(8) != record_magic() {
        Err(WalStoreError::SegmentRecordDigestMismatch)
    } else {
        let kind = s[8];
        let len = u64_at(s, 9) as int;
        if len > usize::MAX {
            Err(WalStoreError::Decode(WalDecodeError::UnexpectedEof))
        } else if 17 + len + 32 > s.len() {
            Ok((Seq::empty(), Seq::empty(), true))
        } else {
            let payload = s.subrange(17, 17 + len);
            if s.subrange(17 + len, 49 + len) != disk_record_digest_spec(kind, payload)@ {
                Err(WalStoreError::SegmentRecordDigestMismatch)
            } else if kind == FRAME_RECORD_KIND {
                match frame_decode(payload) {
                    Err(e) => Err(WalStoreError::Decode(e)),
                    Ok(v) => match segment_parse(s.skip(49 + len)) {
                        Ok((fs, cs, t)) => Ok((seq![v] + fs, cs, t)),
                        Err(e) => Err(e),
                    },
                }
            } else if kind == COMMIT_RECORD_KIND {
                match commit_decode(payload) {
                    Err(e) => Err(WalStoreError::Decode(e)),
                    Ok(c) => match segment_parse(s.skip(49 + len)) {
                        Ok((fs, cs, t)) => Ok((fs, seq![c] + cs, t)),
                        Err(e) => Err(e),
                    },
                }
            } else {
                Err(WalStoreError::UnknownDiskRecordKind(kind))
            }
        }
    }
}

/// Records already read, put in front of what the rest of a segment gives.
pub open spec fn seg_prepend(
    fs: Seq<FrameView>,
    cs: Seq<WalTransactionCommit>,
    r: Result<(Seq<FrameView>, Seq<WalTransactionCommit>, bool), WalStoreError>,
) -> Result<(Seq<FrameView>, Seq<WalTransactionCommit>, bool), WalStoreError> {
    match r {
        Ok((a, b, t)) => Ok((fs + a, cs + b, t)),
        Err(e) => Err(e),
    }
}

fn disk_record_digest(kind: u8, payload: &[u8]) -> (r: crate::ident::Hash)
    ensures
        r == disk_record_digest_spec(kind, payload@),
{
    let mut input: Vec<u8> = Vec::new();
    push_slice(&mut input, "echo:causal_wal:disk_record:v1\0".as_bytes());
    push_u8(&mut input, kind);
    push_u64_le(&mut input, payload.len() as u64);
    push_slice(&mut input, payload);
    assert(input@ =~= disk_record_domain() + seq![kind] + spec_u64_to_le_bytes(payload@.len() as u64) + payload@);
    let d = blake3_hash(input.as_slice());
    proof {
        lemma_hash_of(d, blake3_digest(input@));
    }
    d
}

/// Seals a payload into a segment record of the given kind.
pub fn encode_segment_record(kind: u8, payload: &[u8]) -> (r: Vec<u8>)
    ensures
        r@ == segment_record_bytes(kind, payload@),
{
    let magic = record_magic_bytes();
    let mut out: Vec<u8> = Vec::new();
    push_slice(&mut out, magic.as_slice());
    push_u8(&mut out, kind);
    push_u64_le(&mut out, payload.len() as u64);
    push_slice(&mut out, payload);
    let d = disk_record_digest(kind, payload);
    push_hash(&mut out, &d);
    assert(out@ =~= segment_record_bytes(kind, payload@));
    out
}

/// The segment record that stores a frame.
pub fn encode_frame_record(frame: &WalFrame) -> (r: Vec<u8>)
    ensures
        r@ == segment_record_bytes(FRAME_RECORD_KIND, frame_bytes(*frame)),
{
    let payload = encode_frame(frame);
    encode_segment_record(FRAME_RECORD_KIND, payload.as_slice())
}

/// The segment record that stores a commit marker.
pub fn encode_commit_record(commit: &WalTransactionCommit) -> (r: Vec<u8>)
    ensures
        r@ == segment_record_bytes(COMMIT_RECORD_KIND, commit_bytes(*commit)),
{
    let payload = encode_commit(commit);
    encode_segment_record(COMMIT_RECORD_KIND, payload.as_slice())
}

/// Reads every record of a segment: frames and commit markers in file
/// order, and whether the file ends in a torn record.
#[verifier::rlimit(60)]
#[verifier::spinoff_prover]
pub fn read_segment_bytes(bytes: &[u8]) -> (r: Result<(Vec<WalFrame>, Vec<WalTransactionCommit>, bool), WalStoreError>)
    ensures
        match segment_parse(bytes@) {
            Ok((fvs, cs, torn)) => r matches Ok((fs, rcs, rt)) && frames_view(fs@) == fvs && rcs@ == cs && rt == torn,
            Err(e) => r == Err::<(Vec<WalFrame>, Vec<WalTransactionCommit>, bool), WalStoreError>(e),
        },
{
    let magic = record_magic_bytes();
    let mut frames: Vec<WalFrame> = Vec::new();
    let mut commits: Vec<WalTransactionCommit> = Vec::new();
    let mut offset: usize = 0;
    assert(bytes@.skip(0) =~= bytes@);
    while offset < bytes.len()
        invariant
            offset <= bytes@.len(),
            magic@ == record_magic(),
            segment_parse(bytes@) == seg_prepend(frames_view(frames@), commits@, segment_parse(bytes@.skip(offset as int))),
        decreases bytes@.len() - offset,
    {
        let ghost s = bytes@.skip(offset as int);
        let ghost before = (frames_view(frames@), commits@);
        if bytes.len() - offset < 17 {
            assert(frames_view(frames@) + Seq::<FrameView>::empty() =~= frames_view(frames@));
            assert(commits@ + Seq::<WalTransactionCommit>::empty() =~= commits@);
            return Ok((frames, commits, true));
        }
        assert(s.take(8) =~= bytes@.subrange(offset as int, offset + 8));
        if !bytes_eq(slice_subrange(bytes, offset, offset + 8), magic.as_slice()) {
            return Err(WalStoreError::SegmentRecordDigestMismatch);
        }
        let kind = bytes[offset + 8];
        let len = read_u64_at(bytes, offset + 9);
        assert(s.subrange(9, 17) =~= bytes@.subrange(offset + 9, offset + 17));
        if len > usize::MAX as u64 {
            return Err(WalStoreError::Decode(WalDecodeError::UnexpectedEof));
        }
        let plen = len as usize;
        let avail = bytes.len() - offset - 17;
        if plen > avail || avail - plen < 32 {
            assert(frames_view(frames@) + Seq::<FrameView>::empty() =~= frames_view(frames@));
            assert(commits@ + Seq::<WalTransactionCommit>::empty() =~= commits@);
            return Ok((frames, commits, true));
        }
        let pstart = offset + 17;
        let pend = pstart + plen;
        let payload = slice_subrange(bytes, pstart, pend);
        let stored = slice_subrange(bytes, pend, pend + 32);
        assert(payload@ =~= s.subrange(17, 17 + plen));
        assert(stored@ =~= s.subrange(17 + plen, 49 + plen));
        let d = disk_record_digest(kind, payload);
        if !bytes_eq(stored, d.as_slice()) {
            return Err(WalStoreError::SegmentRecordDigestMismatch);
        }
        let next = pend + 32;
        assert(s.skip(49 + plen) =~= bytes@.skip(next as int));
        if kind == FRAME_RECORD_KIND {
            match decode_frame(payload) {
                Ok(f) => {
                    frames.push(f);
                    proof {
                        assert(frames_view(frames@) =~= before.0.push(f@));
                        match segment_parse(s.skip(49 + plen)) {
                            Ok((a, b, t)) => {
                                assert(before.0 + (seq![f@] + a) =~= frames_view(frames@) + a);
                            },
                            Err(_) => {},
                        }
                    }
                },
                Err(e) => {
                    return Err(WalStoreError::Decode(e));
                },
            }
        } else if kind == COMMIT_RECORD_KIND {
            match decode_commit(payload) {
                Ok(c) => {
                    commits.push(c);
                    proof {
                        match segment_parse(s.skip(49 + plen)) {
                            Ok((a, b, t)) => {
                                assert(before.1 + (seq![c] + b) =~= commits@ + b);
                            },
                            Err(_) => {},
                        }
                    }
                },
                Err(e) => {
                    return Err(WalStoreError::Decode(e));
                },
            }
        } else {
            return Err(WalStoreError::UnknownDiskRecordKind(kind));
        }
        offset = next;
    }
    assert(bytes@.skip(offset as int) =~= Seq::<u8>::empty());
    assert(frames_view(frames@) + Seq::<FrameView>::empty() =~= frames_view(frames@));
    assert(commits@ + Seq::<WalTransactionCommit>::empty() =~= commits@);
    Ok((frames, commits, false))
}

/// A sealed record, followed by more bytes, reads as its payload and then
/// what the bytes after it give.
proof fn lemma_record_split(kind: u8, payload: Seq<u8>, rest: Seq<u8>)
    requires
        17 + payload.len() + 32 <= usize::MAX,
    ensures
        ({
            let s = segment_record_bytes(kind, payload) + rest;
            &&& s.len() >= 17
            &&& s.take(8) == record_magic()
            &&& s[8] == kind
            &&& u64_at(s, 9) == payload.len()
            &&& 17 + payload.len() + 32 <= s.len()
            &&& s.subrange(17, 17 + payload.len() as int) == payload
            &&& s.subrange(17 + payload.len() as int, 49 + payload.len() as int) == disk_record_digest_spec(kind, payload)@
            &&& s.skip(49 + payload.len() as int) == rest
        }),
{
    let s = segment_record_bytes(kind, payload) + rest;
    let n = payload.len() as int;
    lemma_auto_spec_u64_to_from_le_bytes();
    assert(s.take(8) =~= record_magic());
    assert(s.subrange(9, 17) =~= spec_u64_to_le_bytes(payload.len() as u64));
    assert(s.subrange(17, 17 + n) =~= payload);
    assert(s.subrange(17 + n, 49 + n) =~= disk_record_digest_spec(kind, payload)@);
    assert(s.skip(49 + n) =~= rest);
}

/// A stored integral frame reads back as written, ahead of the rest of the
/// segment.
pub proof fn lemma_frame_record_round_trip(f: WalFrame, rest: Seq<u8>)
    requires
        frame_integrity_spec(f) is Ok,
        frame_bytes(f).len() + 49 <= usize::MAX,
    ensures
        segment_parse(segment_record_bytes(FRAME_RECORD_KIND, frame_bytes(f)) + rest) == seg_prepend(
            seq![f@],
            Seq::empty(),
            segment_parse(rest),
        ),
{
    let p = frame_bytes(f);
    lemma_record_split(FRAME_RECORD_KIND, p, rest);
    lemma_frame_round_trip(f);
    match segment_parse(rest) {
        Ok((a, b, t)) => {
            assert(Seq::<WalTransactionCommit>::empty() + b =~= b);
        },
        Err(_) => {},
    }
}

/// A stored commit marker reads back as written, ahead of the rest of the
/// segment.
pub proof fn lemma_commit_record_round_trip(c: WalTransactionCommit, rest: Seq<u8>)
    ensures
        segment_parse(segment_record_bytes(COMMIT_RECORD_KIND, commit_bytes(c)) + rest) == seg_prepend(
            Seq::empty(),
            seq![c],
            segment_parse(rest),
        ),
{
    let p = commit_bytes(c);
    lemma_auto_spec_u64_to_from_le_bytes();
    lemma_auto_spec_u16_to_from_le_bytes();
    assert(p.len() == 220);
    lemma_record_split(COMMIT_RECORD_KIND, p, rest);
    lemma_commit_round_trip(c);
    match segment_parse(rest) {
        Ok((a, b, t)) => {
            assert(Seq::<FrameView>::empty() + a =~= a);
        },
        Err(_) => {},
    }
}

/// Recovery evidence decoded from the bytes of one WAL segment.
#[derive(Clone, Debug, PartialEq, Eq)]
pub struct WalSegmentBytesRecovery {
    /// Logical segment id.
    pub segment_id: WalSegmentId,
    /// Digest computed from the recovered segment frames.
    pub segment_digest: crate::ident::Hash,
    /// Recovery report built from the segment frames and commit markers.
    pub report: RecoveryScanReport,
}

/// Position of the first frame, from `i` on, that names another segment.
pub open spec fn first_foreign_from(fvs: Seq<FrameView>, id: WalSegmentId, i: int) -> Option<int>
    decreases fvs.len() - i,
{
    if i < 0 || i >= fvs.len() {
        None
    } else if fvs[i].0.segment_id != id {
        Some(i)
    } else {
        first_foreign_from(fvs, id, i + 1)
    }
}

/// Tail posture once a torn final record is accounted for: a clean scan of
/// a torn segment reports the tail after the last committed LSN (or the
/// whole segment) as truncated, or as truncatable when read-only.
pub open spec fn torn_tail_posture(
    posture: RecoveryTailPosture,
    ts: Seq<WalRecoveredTransaction>,
    torn: bool,
    mode: RecoveryAccessMode,
) -> RecoveryTailPosture {
    if torn && posture == RecoveryTailPosture::Clean {
        match (mode, max_last_lsn(ts)) {
            (RecoveryAccessMode::Writable, Some(l)) => RecoveryTailPosture::TruncatedAfter(l),
            (RecoveryAccessMode::Writable, None) => RecoveryTailPosture::TruncatedAll,
            (RecoveryAccessMode::ReadOnly, Some(l)) => RecoveryTailPosture::WouldTruncateAfter(l),
            (RecoveryAccessMode::ReadOnly, None) => RecoveryTailPosture::WouldTruncateAll,
        }
    } else {
        posture
    }
}

/// `r` is what recovering frames `fs` and commit markers `cs` of segment
/// `id` gives.
pub open spec fn segment_recovery_matches(
    fs: Seq<WalFrame>,
    cs: Seq<WalTransactionCommit>,
    torn: bool,
    mode: RecoveryAccessMode,
    id: WalSegmentId,
    r: Result<WalSegmentBytesRecovery, WalRecoveryError>,
) -> bool {
    match r {
        Ok(rec) => {
            &&& rec.segment_id == id
            &&& rec.segment_digest@ == segment_digest_spec(id, fs)
            &&& exists|rep: RecoveryScanReport| #[trigger]
                recovery_outcome(fs, cs, mode, Ok(rep)) && rec.report.transactions == rep.transactions
                    && rec.report.tail_posture == torn_tail_posture(rep.tail_posture, rep.transactions@, torn, mode)
        },
        Err(e) => recovery_outcome(fs, cs, mode, Err(e)),
    }
}

/// Recovers committed transactions from the bytes of one WAL segment: its
/// records are read and checked, every frame must belong to the segment,
/// and the frames and commit markers are recovered as a store's would be.
/// A torn final record on an otherwise clean scan is reported as a tail.
pub fn recover_wal_segment_bytes(
    segment_id: WalSegmentId,
    bytes: &[u8],
    mode: RecoveryAccessMode,
) -> (r: Result<WalSegmentBytesRecovery, WalRecoveryError>)
    ensures
        match segment_parse(bytes@) {
            Err(e) => r == Err::<WalSegmentBytesRecovery, WalRecoveryError>(WalRecoveryError::Store(e)),
            Ok((fvs, cs, torn)) => match first_foreign_from(fvs, segment_id, 0) {
                Some(i) => r == Err::<WalSegmentBytesRecovery, WalRecoveryError>(
                    WalRecoveryError::Store(WalStoreError::SegmentMismatch { expected: segment_id, actual: fvs[i].0.segment_id }),
                ),
                None => exists|fs: Seq<WalFrame>| #[trigger]
                    frames_view(fs) == fvs && segment_recovery_matches(fs, cs, torn, mode, segment_id, r),
            },
        },
{
    let (frames, commits, torn_tail) = match read_segment_bytes(bytes) {
        Ok(t) => t,
        Err(e) => return Err(WalRecoveryError::Store(e)),
    };
    let ghost fvs = frames_view(frames@);
    assert(segment_parse(bytes@) == Ok::<(Seq<FrameView>, Seq<WalTransactionCommit>, bool), WalStoreError>(
        (fvs, commits@, torn_tail),
    ));
    let mut i: usize = 0;
    while i < frames.len()
        invariant
            i <= frames@.len(),
            fvs == frames_view(frames@),
            segment_parse(bytes@) == Ok::<(Seq<FrameView>, Seq<WalTransactionCommit>, bool), WalStoreError>(
                (fvs, commits@, torn_tail),
            ),
            first_foreign_from(fvs, segment_id, 0) == first_foreign_from(fvs, segment_id, i as int),
        decreases frames@.len() - i,
    {
        assert(fvs[i as int].0 == frames@[i as int].header);
        if frames[i].header.segment_id.0 != segment_id.0 {
            assert(frames@[i as int].header.segment_id != segment_id);
            return Err(
                WalRecoveryError::Store(
                    WalStoreError::SegmentMismatch { expected: segment_id, actual: frames[i].header.segment_id },
                ),
            );
        }
        i += 1;
    }
    let digest = segment_digest(segment_id, frames.as_slice());
    let report = match recover_from_frames_and_commits(frames.as_slice(), commits.as_slice(), mode) {
        Ok(rep) => rep,
        Err(e) => {
            assert(segment_recovery_matches(frames@, commits@, torn_tail, mode, segment_id, Err(e)));
            return Err(e);
        },
    };
    let ghost rep0 = report;
    let report = account_for_torn_tail(report, torn_tail, mode);
    let r = WalSegmentBytesRecovery { segment_id, segment_digest: digest, report };
    assert(recovery_outcome(frames@, commits@, mode, Ok(rep0)));
    assert(segment_recovery_matches(frames@, commits@, torn_tail, mode, segment_id, Ok(r)));
    Ok(r)
}

/// The report once a torn final record is accounted for: its transactions,
/// and a clean tail turned into the truncated (or truncatable) tail.
pub fn account_for_torn_tail(report: RecoveryScanReport, torn: bool, mode: RecoveryAccessMode) -> (r: RecoveryScanReport)
    ensures
        r.transactions == report.transactions,
        r.tail_posture == torn_tail_posture(report.tail_posture, report.transactions@, torn, mode),
{
    let mut report = report;
    if torn {
        match report.tail_posture {
            RecoveryTailPosture::Clean => {
                let last = report.last_committed_lsn();
                report.tail_posture = match mode {
                    RecoveryAccessMode::Writable => match last {
                        Some(l) => RecoveryTailPosture::TruncatedAfter(l),
                        None => RecoveryTailPosture::TruncatedAll,
                    },
                    RecoveryAccessMode::ReadOnly => match last {
                        Some(l) => RecoveryTailPosture::WouldTruncateAfter(l),
                        None => RecoveryTailPosture::WouldTruncateAll,
                    },
                };
            },
            _ => {},
        }
    }
    report
}

/// What segments keep once the tail after `after` is truncated: the frames
/// and the commit markers at or before it, in order.
pub fn retained_after_truncation(
    frames: &[WalFrame],
    commits: &[WalTransactionCommit],
    after: Lsn,
) -> (r: (Vec<WalFrame>, Vec<WalTransactionCommit>))
    ensures
        frames_view(r.0@) == frames_view(frames@.filter(|f: WalFrame| f.header.lsn.0 <= after.0)),
        r.1@ == commits@.filter(|c: WalTransactionCommit| c.last_lsn.0 <= after.0),
{
    let mut kept: Vec<WalFrame> = Vec::new();
    let mut i: usize = 0;
    while i < frames.len()
        invariant
            i <= frames@.len(),
            frames_view(kept@) == frames_view(frames@.subrange(0, i as int).filter(|f: WalFrame| f.header.lsn.0 <= after.0)),
        decreases frames.len() - i,
    {
        proof {
            assert(frames@.subrange(0, i + 1) =~= frames@.subrange(0, i as int).push(frames@[i as int]));
            frames@.subrange(0, i as int).lemma_filter_push(frames@[i as int], |f: WalFrame| f.header.lsn.0 <= after.0);
        }
        if frames[i].header.lsn.0 <= after.0 {
            let g = clone_frame(&frames[i]);
            let ghost before = kept@;
            kept.push(g);
            proof {
                assert(frames_view(kept@) =~= frames_view(before).push(g@));
                let t = frames@.subrange(0, i as int).filter(|f: WalFrame| f.header.lsn.0 <= after.0);
                assert(frames_view(t.push(frames@[i as int])) =~= frames_view(t).push(frames@[i as int]@));
            }
        }
        i += 1;
    }
    assert(frames@.subrange(0, frames@.len() as int) =~= frames@);
    let mut kept_commits: Vec<WalTransactionCommit> = Vec::new();
    let mut k: usize = 0;
    while k < commits.len()
        invariant
            k <= commits@.len(),
            kept_commits@ == commits@.subrange(0, k as int).filter(|c: WalTransactionCommit| c.last_lsn.0 <= after.0),
        decreases commits.len() - k,
    {
        proof {
            assert(commits@.subrange(0, k + 1) =~= commits@.subrange(0, k as int).push(commits@[k as int]));
            commits@.subrange(0, k as int).lemma_filter_push(
                commits@[k as int],
                |c: WalTransactionCommit| c.last_lsn.0 <= after.0,
            );
        }
        if commits[k].last_lsn.0 <= after.0 {
            kept_commits.push(commits[k]);
        }
        k += 1;
    }
    assert(commits@.subrange(0, commits@.len() as int) =~= commits@);
    (kept, kept_commits)
}

} // verus!
