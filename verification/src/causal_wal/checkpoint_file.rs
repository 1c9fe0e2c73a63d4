//! Checkpoint files: magic, payload length, the checkpoint payload, and the
//! checkpoint digest.
use vstd::prelude::*;
use vstd::bytes::*;
use vstd::slice::*;
use crate::causal_wal::records::{checkpoint_digest_input, CheckpointRecord};
use crate::causal_wal::segment_codec::{read_u64_at, u64_at};
use crate::causal_wal::WalDecodeError;
use crate::causal_wal::projection::{hash_of, lemma_hash_of};
use crate::crypto::blake3_digest;
use crate::encoding::{push_hash, push_slice, push_u64_le};
use crate::order::bytes_eq;

verus! {

/// Checkpoint file read/write errors.
#[derive(Clone, Debug, PartialEq, Eq)]
pub enum WalCheckpointIoError {
    /// Checkpoint path has no parent directory.
    MissingParentDirectory,
    /// Checkpoint file magic is invalid.
    InvalidMagic,
    /// Checkpoint file digest does not match the checkpoint.
    DigestMismatch,
    /// Checkpoint payload failed to decode.
    Decode(WalDecodeError),
    /// Filesystem I/O failed; the message describes the failure.
    Io(String),
}

/// Magic opening a checkpoint file.
pub open spec fn checkpoint_magic() -> Seq<u8> {
    seq![0x45u8, 0x43u8, 0x57u8, 0x41u8, 0x4cu8, 0x43u8, 0x50u8, 0x31u8]
}

fn checkpoint_magic_bytes() -> (r: [u8; 8])
    ensures
        r@ == checkpoint_magic(),
{
    let r = [0x45u8, 0x43u8, 0x57u8, 0x41u8, 0x4cu8, 0x43u8, 0x50u8, 0x31u8];
    assert(r@ =~= checkpoint_magic());
    r
}

/// Digest of a checkpoint.
pub open spec fn checkpoint_digest_of(c: CheckpointRecord) -> crate::ident::Hash {
    hash_of(blake3_digest(checkpoint_digest_input(c)))
}

/// Stored bytes of a checkpoint file.
pub open spec fn checkpoint_file_spec(c: CheckpointRecord) -> Seq<u8> {
    checkpoint_magic() + spec_u64_to_le_bytes(c.payload_spec().len() as u64) + c.payload_spec()
        + checkpoint_digest_of(c)@
}

/// Encodes a checkpoint record as a checkpoint file.
pub fn checkpoint_file_bytes(checkpoint: &CheckpointRecord) -> (r: Vec<u8>)
    ensures
        r@ == checkpoint_file_spec(*checkpoint),
{
    let magic = checkpoint_magic_bytes();
    let payload = checkpoint.to_payload_bytes();
    let digest = checkpoint.checkpoint_digest();
    proof {
        lemma_hash_of(digest, blake3_digest(checkpoint_digest_input(*checkpoint)));
    }
    let mut out: Vec<u8> = Vec::new();
    push_slice(&mut out, magic.as_slice());
    push_u64_le(&mut out, payload.len() as u64);
    push_slice(&mut out, payload.as_slice());
    push_hash(&mut out, &digest);
    assert(out@ =~= checkpoint_file_spec(*checkpoint));
    out
}

/// The framing error of checkpoint file bytes, if any: the magic, then the
/// length, payload and digest must be present and end the file.
pub open spec fn checkpoint_frame_error(s: Seq<u8>) -> Option<WalCheckpointIoError> {
    if s.len() < 8 || s.take(8) != checkpoint_magic() {
        Some(WalCheckpointIoError::InvalidMagic)
    } else if s.len() < 16 {
        Some(WalCheckpointIoError::Decode(WalDecodeError::UnexpectedEof))
    } else {
        let n = u64_at(s, 8) as int;
        if n > usize::MAX || 16 + n + 32 > s.len() {
            Some(WalCheckpointIoError::Decode(WalDecodeError::UnexpectedEof))
        } else if 16 + n + 32 < s.len() {
            Some(WalCheckpointIoError::Decode(WalDecodeError::TrailingBytes))
        } else {
            None
        }
    }
}

/// The payload of well-framed checkpoint file bytes.
pub open spec fn checkpoint_file_payload(s: Seq<u8>) -> Seq<u8> {
    s.subrange(16, 16 + u64_at(s, 8) as int)
}

/// The digest stored in well-framed checkpoint file bytes.
pub open spec fn checkpoint_file_digest(s: Seq<u8>) -> Seq<u8> {
    s.subrange(16 + u64_at(s, 8) as int, s.len() as int)
}

/// What parsing checkpoint file bytes may give: the framing error, if any;
/// else a decode error when the payload encodes no checkpoint; else the
/// checkpoint it encodes, or a digest mismatch when the stored digest is not
/// that checkpoint's.
pub open spec fn checkpoint_parse_outcome(s: Seq<u8>, r: Result<CheckpointRecord, WalCheckpointIoError>) -> bool {
    match checkpoint_frame_error(s) {
        Some(e) => r == Err::<CheckpointRecord, WalCheckpointIoError>(e),
        None => {
            let payload = checkpoint_file_payload(s);
            if exists|c: CheckpointRecord| #[trigger] c.payload_spec() == payload {
                match r {
                    Ok(c) => c.payload_spec() == payload && checkpoint_file_digest(s) == checkpoint_digest_of(c)@,
                    Err(e) => e == WalCheckpointIoError::DigestMismatch && forall|c: CheckpointRecord|
                        #[trigger] c.payload_spec() == payload ==> checkpoint_file_digest(s) != checkpoint_digest_of(c)@,
                }
            } else {
                r matches Err(WalCheckpointIoError::Decode(_))
            }
        },
    }
}

/// Parses checkpoint file bytes: framing first, then the payload, then the
/// stored digest against the decoded checkpoint.
pub fn parse_checkpoint_file_bytes(bytes: &[u8]) -> (r: Result<CheckpointRecord, WalCheckpointIoError>)
    ensures
        checkpoint_parse_outcome(bytes@, r),
{
    let magic = checkpoint_magic_bytes();
    if bytes.len() < 8 {
        return Err(WalCheckpointIoError::InvalidMagic);
    }
    assert(bytes@.take(8) =~= bytes@.subrange(0, 8));
    if !bytes_eq(slice_subrange(bytes, 0, 8), magic.as_slice()) {
        return Err(WalCheckpointIoError::InvalidMagic);
    }
    if bytes.len() < 16 {
        return Err(WalCheckpointIoError::Decode(WalDecodeError::UnexpectedEof));
    }
    let n = read_u64_at(bytes, 8);
    if n > usize::MAX as u64 {
        return Err(WalCheckpointIoError::Decode(WalDecodeError::UnexpectedEof));
    }
    let len = n as usize;
    let avail = bytes.len() - 16;
    if len > avail || avail - len < 32 {
        return Err(WalCheckpointIoError::Decode(WalDecodeError::UnexpectedEof));
    }
    if avail - len > 32 {
        return Err(WalCheckpointIoError::Decode(WalDecodeError::TrailingBytes));
    }
    let payload = slice_subrange(bytes, 16, 16 + len);
    let stored = slice_subrange(bytes, 16 + len, bytes.len());
    let checkpoint = match CheckpointRecord::from_payload_bytes(payload) {
        Ok(c) => c,
        Err(e) => {
            return Err(WalCheckpointIoError::Decode(e));
        },
    };
    let digest = checkpoint.checkpoint_digest();
    proof {
        lemma_hash_of(digest, blake3_digest(checkpoint_digest_input(checkpoint)));
        assert(payload@ == checkpoint_file_payload(bytes@));
        assert(stored@ == checkpoint_file_digest(bytes@));
    }
    if !bytes_eq(stored, digest.as_slice()) {
        proof {
            assert forall|c: CheckpointRecord| #[trigger] c.payload_spec() == payload@ implies stored@ != checkpoint_digest_of(c)@ by {
                lemma_checkpoint_payload_injective(c, checkpoint);
            }
        }
        return Err(WalCheckpointIoError::DigestMismatch);
    }
    Ok(checkpoint)
}

/// Distinct checkpoints have distinct payloads.
pub proof fn lemma_checkpoint_payload_injective(a: CheckpointRecord, b: CheckpointRecord)
    requires
        a.payload_spec() == b.payload_spec(),
    ensures
        a == b,
{
    a.lemma_layout();
    b.lemma_layout();
    lemma_auto_spec_u64_to_from_le_bytes();
    lemma_auto_spec_u16_to_from_le_bytes();
    assert(spec_u64_from_le_bytes(spec_u64_to_le_bytes(a.last_included_lsn.0)) == a.last_included_lsn.0);
    assert(spec_u64_from_le_bytes(spec_u64_to_le_bytes(b.last_included_lsn.0)) == b.last_included_lsn.0);
    assert(spec_u16_from_le_bytes(spec_u16_to_le_bytes(a.schema_version)) == a.schema_version);
    assert(spec_u16_from_le_bytes(spec_u16_to_le_bytes(b.schema_version)) == b.schema_version);
    assert(a.checkpoint_id =~= b.checkpoint_id);
    assert(a.last_included_commit_digest =~= b.last_included_commit_digest);
    assert(a.state_root =~= b.state_root);
    assert(a.index_root =~= b.index_root);
    assert(a.retained_material_root =~= b.retained_material_root);
    assert(a.created_from_wal_digest =~= b.created_from_wal_digest);
}

/// Reading a written checkpoint file gives the checkpoint back.
pub proof fn lemma_checkpoint_file_round_trip(c: CheckpointRecord, r: Result<CheckpointRecord, WalCheckpointIoError>)
    requires
        checkpoint_parse_outcome(checkpoint_file_spec(c), r),
    ensures
        r == Ok::<CheckpointRecord, WalCheckpointIoError>(c),
{
    let s = checkpoint_file_spec(c);
    let p = c.payload_spec();
    c.lemma_layout();
    lemma_auto_spec_u64_to_from_le_bytes();
    assert(s.len() == 16 + 202 + 32);
    assert(s.take(8) =~= checkpoint_magic());
    assert(s.subrange(8, 16) =~= spec_u64_to_le_bytes(p.len() as u64));
    assert(u64_at(s, 8) == 202);
    assert(checkpoint_file_payload(s) =~= p);
    assert(checkpoint_file_digest(s) =~= checkpoint_digest_of(c)@);
    assert(c.payload_spec() == checkpoint_file_payload(s));
    match r {
        Ok(d) => {
            lemma_checkpoint_payload_injective(d, c);
        },
        Err(_) => {},
    }
}

} // verus!
