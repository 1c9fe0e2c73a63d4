//! The stored manifest and its validation against the segments it covers.
use vstd::prelude::*;
use vstd::bytes::*;
use crate::causal_wal::frame::{WalFrame, WalTransactionCommit};
use crate::causal_wal::store::{WalManifest, WalStoreError};
use crate::causal_wal::topology_codec::{
    lemma_take_hash, lemma_take_opt_hash, lemma_take_u64, lemma_take_u8, rd_hash, rd_opt_hash, rd_u64, rd_u8,
    take_hash, take_opt_hash, take_u64, take_u8, unread,
};
use crate::causal_wal::{Lsn, WalDecodeError};
use crate::encoding::{optional_hash_bytes, push_hash, push_optional_hash, push_u64_le, push_u8, ByteCursor};

verus! {

/// An optional LSN: `0`, or `1` then the LSN.
pub open spec fn optional_lsn_bytes(x: Option<Lsn>) -> Seq<u8> {
    match x {
        Some(l) => seq![1u8] + spec_u64_to_le_bytes(l.0),
        None => seq![0u8],
    }
}

/// An optional LSN, then the rest.
pub open spec fn take_opt_lsn(s: Seq<u8>) -> Option<(Option<Lsn>, Seq<u8>)> {
    match take_u8(s) {
        Some((0u8, r)) => Some((None, r)),
        Some((1u8, r)) => match take_u64(r) {
            Some((v, r2)) => Some((Some(Lsn(v)), r2)),
            None => None,
        },
        _ => None,
    }
}

proof fn lemma_take_opt_lsn(x: Option<Lsn>, rest: Seq<u8>)
    ensures
        take_opt_lsn(optional_lsn_bytes(x) + rest) == Some((x, rest)),
{
    match x {
        Some(l) => {
            assert(optional_lsn_bytes(x) + rest =~= seq![1u8] + (spec_u64_to_le_bytes(l.0) + rest));
            lemma_take_u8(1u8, spec_u64_to_le_bytes(l.0) + rest);
            lemma_take_u64(l.0, rest);
        },
        None => {
            lemma_take_u8(0u8, rest);
        },
    }
}

fn push_optional_lsn(out: &mut Vec<u8>, x: Option<Lsn>)
    ensures
        final(out)@ == old(out)@ + optional_lsn_bytes(x),
{
    match x {
        Some(l) => {
            push_u8(out, 1);
            push_u64_le(out, l.0);
            assert(final(out)@ =~= old(out)@ + optional_lsn_bytes(x));
        },
        None => {
            push_u8(out, 0);
        },
    }
}

fn rd_opt_lsn(c: &mut ByteCursor) -> (r: Result<Option<Lsn>, WalDecodeError>)
    requires
        old(c).pos <= old(c).bytes@.len(),
    ensures
        final(c).bytes@ == old(c).bytes@,
        final(c).pos <= final(c).bytes@.len(),
        match take_opt_lsn(unread(*old(c))) {
            Some((v, rest)) => r == Ok::<Option<Lsn>, WalDecodeError>(v) && unread(*final(c)) == rest,
            None => r is Err,
        },
{
    let tag = rd_u8(c)?;
    if tag == 0 {
        Ok(None)
    } else if tag == 1 {
        let v = rd_u64(c)?;
        Ok(Some(Lsn(v)))
    } else {
        Err(WalDecodeError::UnknownEnumCode { enum_name: "Option<Lsn>", code: tag })
    }
}

/// Stored bytes of a manifest.
pub open spec fn manifest_bytes(m: WalManifest) -> Seq<u8> {
    m.manifest_digest@ + optional_lsn_bytes(m.last_committed_lsn) + optional_hash_bytes(m.last_commit_digest)
        + spec_u64_to_le_bytes(m.sealed_segment_count)
}

/// The manifest that stored bytes hold, if any.
pub open spec fn manifest_parse(s: Seq<u8>) -> Option<WalManifest> {
    match take_hash(s) {
        Some((d, s1)) => match take_opt_lsn(s1) {
            Some((l, s2)) => match take_opt_hash(s2) {
                Some((h, s3)) => match take_u64(s3) {
                    Some((n, s4)) => if s4.len() == 0 {
                        Some(
                            WalManifest {
                                manifest_digest: d,
                                last_committed_lsn: l,
                                last_commit_digest: h,
                                sealed_segment_count: n,
                            },
                        )
                    } else {
                        None
                    },
                    None => None,
                },
                None => None,
            },
            None => None,
        },
        None => None,
    }
}

/// Encodes a manifest for the manifest file.
pub fn encode_manifest(manifest: &WalManifest) -> (r: Vec<u8>)
    ensures
        r@ == manifest_bytes(*manifest),
{
    let mut out: Vec<u8> = Vec::new();
    push_hash(&mut out, &manifest.manifest_digest);
    push_optional_lsn(&mut out, manifest.last_committed_lsn);
    push_optional_hash(&mut out, manifest.last_commit_digest);
    push_u64_le(&mut out, manifest.sealed_segment_count);
    assert(out@ =~= manifest_bytes(*manifest));
    out
}

/// Decodes the manifest file: the manifest its bytes hold, or an error when
/// they hold none.
pub fn decode_manifest(bytes: &[u8]) -> (r: Result<WalManifest, WalDecodeError>)
    ensures
        match manifest_parse(bytes@) {
            Some(m) => r == Ok::<WalManifest, WalDecodeError>(m),
            None => r is Err,
        },
{
    let mut c = ByteCursor::new(bytes);
    assert(unread(c) =~= bytes@);
    let manifest_digest = rd_hash(&mut c)?;
    let last_committed_lsn = rd_opt_lsn(&mut c)?;
    let last_commit_digest = rd_opt_hash(&mut c)?;
    let sealed_segment_count = rd_u64(&mut c)?;
    if !c.at_end() {
        return Err(WalDecodeError::TrailingBytes);
    }
    Ok(WalManifest { manifest_digest, last_committed_lsn, last_commit_digest, sealed_segment_count })
}

/// A stored manifest reads back as written.
pub proof fn lemma_manifest_round_trip(m: WalManifest)
    ensures
        manifest_parse(manifest_bytes(m)) == Some(m),
{
    let e = Seq::<u8>::empty();
    let s3 = spec_u64_to_le_bytes(m.sealed_segment_count) + e;
    let s2 = optional_hash_bytes(m.last_commit_digest) + s3;
    let s1 = optional_lsn_bytes(m.last_committed_lsn) + s2;
    assert(manifest_bytes(m) =~= m.manifest_digest@ + s1);
    lemma_take_hash(m.manifest_digest, s1);
    lemma_take_opt_lsn(m.last_committed_lsn, s2);
    lemma_take_opt_hash(m.last_commit_digest, s3);
    lemma_take_u64(m.sealed_segment_count, e);
}

/// Filesystem manifest validation report.
#[derive(Clone, Copy, Debug, PartialEq, Eq)]
pub struct WalManifestValidationReport {
    /// Manifest that was validated.
    pub manifest: WalManifest,
    /// Number of segment files observed.
    pub segment_count: u64,
    /// Last committed LSN observed in the segments.
    pub last_committed_lsn: Option<Lsn>,
    /// Last commit digest observed in the segments.
    pub last_commit_digest: Option<crate::ident::Hash>,
}

/// The commit marker with the greatest last LSN; of equals, the later one.
pub open spec fn latest_commit(cs: Seq<WalTransactionCommit>) -> Option<WalTransactionCommit>
    decreases cs.len(),
{
    if cs.len() == 0 {
        None
    } else {
        match latest_commit(cs.drop_last()) {
            None => Some(cs.last()),
            Some(b) => if cs.last().last_lsn.0 >= b.last_lsn.0 {
                Some(cs.last())
            } else {
                Some(b)
            },
        }
    }
}

/// Raw value of a committed LSN (zero when there is none).
pub open spec fn committed_lsn_value(last: Option<Lsn>) -> u64 {
    match last {
        Some(l) => l.0,
        None => 0,
    }
}

/// Some frame lies past the last committed LSN, or nothing is committed.
pub open spec fn has_uncommitted_frame(fs: Seq<WalFrame>, last: Option<Lsn>) -> bool {
    exists|i: int| 0 <= i < fs.len() && (last is None || (#[trigger] fs[i]).header.lsn.0 > committed_lsn_value(last))
}

/// What validating a manifest against the segments' frames and commit
/// markers gives: an uncommitted tail first, then the segment count, the
/// last committed LSN and the last commit digest, each compared in turn.
pub open spec fn manifest_validation(
    m: WalManifest,
    segment_count: u64,
    fs: Seq<WalFrame>,
    cs: Seq<WalTransactionCommit>,
    torn: bool,
) -> Result<WalManifestValidationReport, WalStoreError> {
    let last = match latest_commit(cs) {
        Some(c) => Some(c.last_lsn),
        None => None,
    };
    let digest = match latest_commit(cs) {
        Some(c) => Some(c.commit_digest),
        None => None,
    };
    if torn || has_uncommitted_frame(fs, last) {
        Err(WalStoreError::ManifestCannotValidateUncommittedTail)
    } else if m.sealed_segment_count != segment_count {
        Err(WalStoreError::ManifestSegmentCountMismatch { expected: segment_count, actual: m.sealed_segment_count })
    } else if m.last_committed_lsn != last {
        Err(WalStoreError::ManifestLastCommittedLsnMismatch { expected: last, actual: m.last_committed_lsn })
    } else if m.last_commit_digest != digest {
        Err(WalStoreError::ManifestLastCommitDigestMismatch { expected: digest, actual: m.last_commit_digest })
    } else {
        Ok(
            WalManifestValidationReport {
                manifest: m,
                segment_count,
                last_committed_lsn: last,
                last_commit_digest: digest,
            },
        )
    }
}

fn opt_lsn_eq(a: Option<Lsn>, b: Option<Lsn>) -> (r: bool)
    ensures
        r == (a == b),
{
    match (a, b) {
        (None, None) => true,
        (Some(x), Some(y)) => x.0 == y.0,
        _ => false,
    }
}

fn opt_hash_eq(a: Option<crate::ident::Hash>, b: Option<crate::ident::Hash>) -> (r: bool)
    ensures
        r == (a == b),
{
    match (a, b) {
        (None, None) => true,
        (Some(x), Some(y)) => crate::ident::hash_eq(&x, &y),
        _ => false,
    }
}

/// Validates a published manifest against the frames and commit markers of
/// the segments it covers (in segment order) and the number of segments.
pub fn validate_manifest_against_segments(
    manifest: &WalManifest,
    segment_count: u64,
    frames: &[WalFrame],
    commits: &[WalTransactionCommit],
    torn_tail: bool,
) -> (r: Result<WalManifestValidationReport, WalStoreError>)
    ensures
        r == manifest_validation(*manifest, segment_count, frames@, commits@, torn_tail),
{
    let mut latest: Option<WalTransactionCommit> = None;
    let mut i: usize = 0;
    while i < commits.len()
        invariant
            i <= commits@.len(),
            latest == latest_commit(commits@.take(i as int)),
        decreases commits@.len() - i,
    {
        proof {
            assert(commits@.take(i + 1).drop_last() =~= commits@.take(i as int));
        }
        let c = commits[i];
        latest = match latest {
            None => Some(c),
            Some(b) => if c.last_lsn.0 >= b.last_lsn.0 {
                Some(c)
            } else {
                Some(b)
            },
        };
        i += 1;
    }
    assert(commits@.take(commits@.len() as int) =~= commits@);
    let (last, digest) = match latest {
        Some(c) => (Some(c.last_lsn), Some(c.commit_digest)),
        None => (None, None),
    };
    if torn_tail {
        return Err(WalStoreError::ManifestCannotValidateUncommittedTail);
    }
    let mut k: usize = 0;
    while k < frames.len()
        invariant
            k <= frames@.len(),
            !torn_tail,
            last == (match latest_commit(commits@) {
                Some(c) => Some(c.last_lsn),
                None => None,
            }),
            forall|j: int| 0 <= j < k ==> !(last is None || (#[trigger] frames@[j]).header.lsn.0 > committed_lsn_value(last)),
        decreases frames@.len() - k,
    {
        let beyond = match last {
            None => true,
            Some(l) => frames[k].header.lsn.0 > l.0,
        };
        if beyond {
            assert(last is None || frames@[k as int].header.lsn.0 > committed_lsn_value(last));
            return Err(WalStoreError::ManifestCannotValidateUncommittedTail);
        }
        k += 1;
    }
    if manifest.sealed_segment_count != segment_count {
        return Err(
            WalStoreError::ManifestSegmentCountMismatch { expected: segment_count, actual: manifest.sealed_segment_count },
        );
    }
    if !opt_lsn_eq(manifest.last_committed_lsn, last) {
        return Err(
            WalStoreError::ManifestLastCommittedLsnMismatch { expected: last, actual: manifest.last_committed_lsn },
        );
    }
    if !opt_hash_eq(manifest.last_commit_digest, digest) {
        return Err(
            WalStoreError::ManifestLastCommitDigestMismatch { expected: digest, actual: manifest.last_commit_digest },
        );
    }
    Ok(
        WalManifestValidationReport {
            manifest: *manifest,
            segment_count,
            last_committed_lsn: last,
            last_commit_digest: digest,
        },
    )
}

} // verus!
