//! Builder for one contiguous WAL transaction.
use vstd::prelude::*;
use crate::causal_wal::frame::{
    affected_frontiers_root, affected_frontiers_root_spec, commit_digest_spec,
    committed_transaction_spec, first_frame_error_from, frame_checksum_spec, frame_digest_spec,
    frame_integrity_spec, frame_position_error, frontiers_allowed, header_checksum_spec,
    lemma_new_frame_checksums_match, local_index_of, payload_digest_spec, records_match_authority,
    records_root, records_root_spec, transaction_frames_spec, AffectedFrontier,
    WalCommittedTransaction, WalFrame, WalFrameHeader, WalRecordPayload, WalTransactionCommit,
};
use crate::causal_wal::kinds::{
    WalAppendAuthority, WalCompressionKind, WalDurabilityMode, WalRecordKind, WalRedactionPosture,
    WalTransactionKind,
};
use crate::causal_wal::{
    len_u64, Lsn, PayloadCodecId, PayloadSchemaId, TransactionLocalIndex, WalBuildError,
    WalSegmentId, WalTransactionId, WriterEpochId, CAUSAL_WAL_VERSION,
};

verus! {

/// Builder for a contiguous WAL transaction.
#[derive(Clone, Debug)]
pub struct WalTransactionBuilder {
    writer_epoch: WriterEpochId,
    segment_id: WalSegmentId,
    transaction_id: WalTransactionId,
    transaction_kind: WalTransactionKind,
    authority: WalAppendAuthority,
    next_lsn: Lsn,
    next_local_index: TransactionLocalIndex,
    previous_frame_digest: crate::ident::Hash,
    previous_committed_transaction_digest: crate::ident::Hash,
    durability_mode: WalDurabilityMode,
    payload_codec_id: PayloadCodecId,
    payload_schema_id: PayloadSchemaId,
    payload_schema_version: u16,
    canonical_encoding_version: u16,
    digest_domain: crate::ident::Hash,
    frames: Vec<WalFrame>,
    closed: bool,
}

impl WalTransactionBuilder {
    /// Writer epoch of the transaction.
    pub closed spec fn writer_epoch_spec(&self) -> WriterEpochId { self.writer_epoch }
    /// Segment receiving the frames.
    pub closed spec fn segment_id_spec(&self) -> WalSegmentId { self.segment_id }
    /// Transaction id.
    pub closed spec fn transaction_id_spec(&self) -> WalTransactionId { self.transaction_id }
    /// Transaction kind.
    pub closed spec fn transaction_kind_spec(&self) -> WalTransactionKind { self.transaction_kind }
    /// Authority under which records are appended.
    pub closed spec fn authority_spec(&self) -> WalAppendAuthority { self.authority }
    /// LSN the next record receives.
    pub closed spec fn next_lsn_spec(&self) -> Lsn { self.next_lsn }
    /// Local index the next record receives.
    pub closed spec fn next_local_index_spec(&self) -> TransactionLocalIndex { self.next_local_index }
    /// Digest chained into the next frame header.
    pub closed spec fn previous_frame_digest_spec(&self) -> crate::ident::Hash { self.previous_frame_digest }
    /// Digest of the previously committed transaction.
    pub closed spec fn previous_commit_digest_spec(&self) -> crate::ident::Hash { self.previous_committed_transaction_digest }
    /// Durability mode recorded in the commit.
    pub closed spec fn durability_mode_spec(&self) -> WalDurabilityMode { self.durability_mode }
    /// Payload codec id stamped on frames.
    pub closed spec fn payload_codec_id_spec(&self) -> PayloadCodecId { self.payload_codec_id }
    /// Payload schema id stamped on frames.
    pub closed spec fn payload_schema_id_spec(&self) -> PayloadSchemaId { self.payload_schema_id }
    /// Payload schema version stamped on frames.
    pub closed spec fn payload_schema_version_spec(&self) -> u16 { self.payload_schema_version }
    /// Canonical encoding version stamped on frames.
    pub closed spec fn canonical_encoding_version_spec(&self) -> u16 { self.canonical_encoding_version }
    /// Digest domain stamped on frames.
    pub closed spec fn digest_domain_spec(&self) -> crate::ident::Hash { self.digest_domain }
    /// Frames recorded so far.
    pub closed spec fn frames_spec(&self) -> Seq<WalFrame> { self.frames@ }
    /// `true` once the transaction has been committed.
    pub closed spec fn closed_spec(&self) -> bool { self.closed }

    /// Well-formedness: recorded frames are integral, carry this transaction's
    /// identity and authority, and are numbered contiguously from the first LSN.
    pub closed spec fn wf(&self) -> bool {
        let fs = self.frames@;
        &&& self.next_local_index.0 == fs.len()
        &&& (fs.len() > 0 && self.next_local_index.0 < u32::MAX) ==> self.next_lsn.0 == fs.last().header.lsn.0 + 1
        &&& forall|i: int| 0 <= i < fs.len() ==> {
            &&& frame_integrity_spec(#[trigger] fs[i]) == Ok::<(), crate::causal_wal::WalValidationError>(())
            &&& fs[i].header.transaction_id == self.transaction_id
            &&& fs[i].header.writer_epoch == self.writer_epoch
            &&& fs[i].header.transaction_local_index.0 == i
            &&& fs[i].header.lsn.0 == fs[0].header.lsn.0 + i
            &&& fs[i].header.record_kind.required_authority_spec() == self.authority
        }
    }

    /// Creates a transaction builder.
    pub fn new(
        writer_epoch: WriterEpochId,
        segment_id: WalSegmentId,
        transaction_id: WalTransactionId,
        transaction_kind: WalTransactionKind,
        authority: WalAppendAuthority,
        first_lsn: Lsn,
        previous_frame_digest: crate::ident::Hash,
        previous_committed_transaction_digest: crate::ident::Hash,
        durability_mode: WalDurabilityMode,
        payload_codec_id: PayloadCodecId,
        payload_schema_id: PayloadSchemaId,
        payload_schema_version: u16,
        canonical_encoding_version: u16,
        digest_domain: crate::ident::Hash,
    ) -> (r: Self)
        ensures
            r.wf(),
            r.writer_epoch_spec() == writer_epoch,
            r.segment_id_spec() == segment_id,
            r.transaction_id_spec() == transaction_id,
            r.transaction_kind_spec() == transaction_kind,
            r.authority_spec() == authority,
            r.next_lsn_spec() == first_lsn,
            r.next_local_index_spec().0 == 0,
            r.previous_frame_digest_spec() == previous_frame_digest,
            r.previous_commit_digest_spec() == previous_committed_transaction_digest,
            r.durability_mode_spec() == durability_mode,
            r.payload_codec_id_spec() == payload_codec_id,
            r.payload_schema_id_spec() == payload_schema_id,
            r.payload_schema_version_spec() == payload_schema_version,
            r.canonical_encoding_version_spec() == canonical_encoding_version,
            r.digest_domain_spec() == digest_domain,
            r.frames_spec() == Seq::<WalFrame>::empty(),
            !r.closed_spec(),
    {
        WalTransactionBuilder {
            writer_epoch,
            segment_id,
            transaction_id,
            transaction_kind,
            authority,
            next_lsn: first_lsn,
            next_local_index: TransactionLocalIndex(0),
            previous_frame_digest,
            previous_committed_transaction_digest,
            durability_mode,
            payload_codec_id,
            payload_schema_id,
            payload_schema_version,
            canonical_encoding_version,
            digest_domain,
            frames: Vec::new(),
            closed: false,
        }
    }

    /// The frame `push_record` appends for `kind` and `bytes` on builder state `b`.
    pub open spec fn is_appended_frame(b: Self, f: WalFrame, kind: WalRecordKind, bytes: Seq<u8>) -> bool {
        &&& f.payload.kind == kind
        &&& f.payload.schema_version == b.payload_schema_version_spec()
        &&& f.payload.canonical_bytes@ == bytes
        &&& f.header.wal_version == CAUSAL_WAL_VERSION
        &&& f.header.writer_epoch == b.writer_epoch_spec()
        &&& f.header.segment_id == b.segment_id_spec()
        &&& f.header.lsn == b.next_lsn_spec()
        &&& f.header.transaction_id == b.transaction_id_spec()
        &&& f.header.transaction_local_index == b.next_local_index_spec()
        &&& f.header.record_kind == kind
        &&& f.header.payload_len == bytes.len()
        &&& f.header.payload_digest@ == payload_digest_spec(f.payload)
        &&& f.header.payload_codec_id == b.payload_codec_id_spec()
        &&& f.header.payload_schema_id == b.payload_schema_id_spec()
        &&& f.header.payload_schema_version == b.payload_schema_version_spec()
        &&& f.header.canonical_encoding_version == b.canonical_encoding_version_spec()
        &&& f.header.digest_domain == b.digest_domain_spec()
        &&& f.header.compression_kind == WalCompressionKind::Uncompressed
        &&& f.header.encryption_or_redaction_posture == WalRedactionPosture::Present
        &&& f.header.previous_frame_digest == b.previous_frame_digest_spec()
        &&& f.header.header_checksum == header_checksum_spec(f.header)
        &&& f.trailer.frame_checksum == frame_checksum_spec(f.header, f.payload)
    }

    /// Appends a record to the transaction.
    ///
    /// The frame is chained to the previous frame digest; the LSN and the
    /// local index then advance, and an overflow of either is an error (the
    /// frame digest chain has then already advanced, as the frame was built).
    pub fn push_record(&mut self, kind: WalRecordKind, canonical_bytes: Vec<u8>) -> (r: Result<(), WalBuildError>)
        requires
            old(self).wf(),
        ensures
            final(self).wf(),
            final(self).writer_epoch_spec() == old(self).writer_epoch_spec(),
            final(self).segment_id_spec() == old(self).segment_id_spec(),
            final(self).transaction_id_spec() == old(self).transaction_id_spec(),
            final(self).transaction_kind_spec() == old(self).transaction_kind_spec(),
            final(self).authority_spec() == old(self).authority_spec(),
            final(self).previous_commit_digest_spec() == old(self).previous_commit_digest_spec(),
            final(self).durability_mode_spec() == old(self).durability_mode_spec(),
            final(self).payload_codec_id_spec() == old(self).payload_codec_id_spec(),
            final(self).payload_schema_id_spec() == old(self).payload_schema_id_spec(),
            final(self).payload_schema_version_spec() == old(self).payload_schema_version_spec(),
            final(self).canonical_encoding_version_spec() == old(self).canonical_encoding_version_spec(),
            final(self).digest_domain_spec() == old(self).digest_domain_spec(),
            final(self).closed_spec() == old(self).closed_spec(),
            old(self).closed_spec() ==> r == Err::<(), WalBuildError>(WalBuildError::TransactionClosed)
                && *final(self) == *old(self),
            !old(self).closed_spec() && kind.required_authority_spec() != old(self).authority_spec() ==> r
                == Err::<(), WalBuildError>(WalBuildError::WrongAppendAuthority {
                    record_kind: kind,
                    required: kind.required_authority_spec(),
                    actual: old(self).authority_spec(),
                }) && *final(self) == *old(self),
            !old(self).closed_spec() && kind.required_authority_spec() == old(self).authority_spec() ==> {
                let lsn = old(self).next_lsn_spec().0;
                let idx = old(self).next_local_index_spec().0;
                &&& final(self).previous_frame_digest_spec()@ == frame_digest_spec(
                    final(self).frames_spec().last(),
                ) || r is Err
                &&& lsn == u64::MAX ==> r == Err::<(), WalBuildError>(WalBuildError::LsnOverflow)
                    && final(self).frames_spec() == old(self).frames_spec()
                    && final(self).next_lsn_spec() == old(self).next_lsn_spec()
                    && final(self).next_local_index_spec() == old(self).next_local_index_spec()
                &&& lsn < u64::MAX && idx == u32::MAX ==> r == Err::<(), WalBuildError>(
                    WalBuildError::TransactionLocalIndexOverflow,
                ) && final(self).frames_spec() == old(self).frames_spec()
                    && final(self).next_lsn_spec().0 == lsn + 1
                    && final(self).next_local_index_spec() == old(self).next_local_index_spec()
                &&& lsn < u64::MAX && idx < u32::MAX ==> {
                    &&& r is Ok
                    &&& final(self).frames_spec().len() == old(self).frames_spec().len() + 1
                    &&& final(self).frames_spec().drop_last() == old(self).frames_spec()
                    &&& Self::is_appended_frame(*old(self), final(self).frames_spec().last(), kind, canonical_bytes@)
                    &&& final(self).previous_frame_digest_spec()@ == frame_digest_spec(final(self).frames_spec().last())
                    &&& final(self).next_lsn_spec().0 == lsn + 1
                    &&& final(self).next_local_index_spec().0 == idx + 1
                }
            },
    {
        if self.closed {
            return Err(WalBuildError::TransactionClosed);
        }
        let required = kind.required_authority();
        if required != self.authority {
            return Err(WalBuildError::WrongAppendAuthority {
                record_kind: kind,
                required,
                actual: self.authority,
            });
        }
        let payload = WalRecordPayload::new(kind, self.payload_schema_version, canonical_bytes);
        let payload_len = len_u64(payload.canonical_bytes.len());
        let payload_digest = payload.digest();
        let header = WalFrameHeader {
            wal_version: CAUSAL_WAL_VERSION,
            writer_epoch: self.writer_epoch,
            segment_id: self.segment_id,
            lsn: self.next_lsn,
            transaction_id: self.transaction_id,
            transaction_local_index: self.next_local_index,
            record_kind: kind,
            payload_len,
            payload_digest,
            payload_codec_id: self.payload_codec_id,
            payload_schema_id: self.payload_schema_id,
            payload_schema_version: self.payload_schema_version,
            canonical_encoding_version: self.canonical_encoding_version,
            digest_domain: self.digest_domain,
            compression_kind: WalCompressionKind::Uncompressed,
            encryption_or_redaction_posture: WalRedactionPosture::Present,
            previous_frame_digest: self.previous_frame_digest,
            header_checksum: 0,
        };
        let ghost h0 = header;
        let frame = WalFrame::new(header, payload);
        proof {
            lemma_new_frame_checksums_match(h0, frame.payload, frame);
        }
        self.previous_frame_digest = frame.digest();
        let next_lsn = match self.next_lsn.checked_next() {
            Some(l) => l,
            None => return Err(WalBuildError::LsnOverflow),
        };
        self.next_lsn = next_lsn;
        let next_index = match self.next_local_index.checked_next() {
            Some(i) => i,
            None => return Err(WalBuildError::TransactionLocalIndexOverflow),
        };
        self.next_local_index = next_index;
        let ghost old_frames = self.frames@;
        self.frames.push(frame);
        proof {
            let fs = self.frames@;
            assert(fs.drop_last() =~= old_frames);
            assert forall|i: int| 0 <= i < fs.len() implies {
                &&& frame_integrity_spec(#[trigger] fs[i]) == Ok::<(), crate::causal_wal::WalValidationError>(())
                &&& fs[i].header.transaction_id == self.transaction_id
                &&& fs[i].header.writer_epoch == self.writer_epoch
                &&& fs[i].header.transaction_local_index.0 == i
                &&& fs[i].header.lsn.0 == fs[0].header.lsn.0 + i
                &&& fs[i].header.record_kind.required_authority_spec() == self.authority
            } by {
                if i < old_frames.len() {
                    assert(fs[i] == old_frames[i]);
                    assert(fs[0] == old_frames[0]);
                } else if old_frames.len() > 0 {
                    assert(fs[0] == old_frames[0]);
                }
            }
        }
        Ok(())
    }

    /// The commit marker `commit` writes for builder state `b` and frontiers `afs`.
    pub open spec fn is_built_commit(b: Self, afs: Seq<AffectedFrontier>, c: WalTransactionCommit) -> bool {
        let fs = b.frames_spec();
        &&& c.writer_epoch == b.writer_epoch_spec()
        &&& c.transaction_id == b.transaction_id_spec()
        &&& c.transaction_kind == b.transaction_kind_spec()
        &&& c.first_lsn == fs[0].header.lsn
        &&& c.last_lsn == fs.last().header.lsn
        &&& c.record_count == fs.len()
        &&& c.records_root@ == records_root_spec(fs)
        &&& c.affected_frontiers_root@ == affected_frontiers_root_spec(afs)
        &&& c.previous_committed_transaction_digest == b.previous_commit_digest_spec()
        &&& c.durability_mode == b.durability_mode_spec()
        &&& c.schema_version == CAUSAL_WAL_VERSION
        &&& c.commit_digest@ == commit_digest_spec(c)
    }

    /// Commits the transaction.
    ///
    /// An empty transaction is refused. Otherwise the commit marker is built
    /// over the recorded frames and the frontiers, and the transaction is
    /// returned exactly when it validates: when the builder's authority is the
    /// one its transaction kind requires and every frontier is one that kind
    /// may transition.
    pub fn commit(self, affected_frontiers: Vec<AffectedFrontier>) -> (r: Result<WalCommittedTransaction, WalBuildError>)
        requires
            self.wf(),
        ensures
            self.frames_spec().len() == 0 ==> r == Err::<WalCommittedTransaction, WalBuildError>(
                WalBuildError::EmptyTransaction,
            ),
            self.frames_spec().len() > 0 && self.authority_spec()
                != self.transaction_kind_spec().required_authority_spec() ==> r
                == Err::<WalCommittedTransaction, WalBuildError>(
                WalBuildError::Validation(crate::causal_wal::WalValidationError::RecordAuthorityMismatch),
            ),
            self.frames_spec().len() > 0 && self.authority_spec()
                == self.transaction_kind_spec().required_authority_spec() && !frontiers_allowed(
                affected_frontiers@,
                self.transaction_kind_spec(),
            ) ==> r == Err::<WalCommittedTransaction, WalBuildError>(
                WalBuildError::Validation(crate::causal_wal::WalValidationError::FrontierTransitionKindMismatch),
            ),
            self.frames_spec().len() > 0 && self.authority_spec()
                == self.transaction_kind_spec().required_authority_spec() && frontiers_allowed(
                affected_frontiers@,
                self.transaction_kind_spec(),
            ) ==> {
                &&& r is Ok
                &&& r->Ok_0.frames@ == self.frames_spec()
                &&& r->Ok_0.affected_frontiers@ == affected_frontiers@
                &&& Self::is_built_commit(self, affected_frontiers@, r->Ok_0.commit)
                &&& committed_transaction_spec(r->Ok_0) == Ok::<(), crate::causal_wal::WalValidationError>(())
            },
    {
        let mut this = self;
        if this.frames.len() == 0 {
            return Err(WalBuildError::EmptyTransaction);
        }
        this.closed = true;
        let first_lsn = this.frames[0].header.lsn;
        let last_lsn = this.frames[this.frames.len() - 1].header.lsn;
        let record_count = len_u64(this.frames.len());
        let rr = records_root(this.frames.as_slice());
        let fr = affected_frontiers_root(affected_frontiers.as_slice());
        let mut commit = WalTransactionCommit {
            writer_epoch: this.writer_epoch,
            transaction_id: this.transaction_id,
            transaction_kind: this.transaction_kind,
            first_lsn,
            last_lsn,
            record_count,
            records_root: rr,
            affected_frontiers_root: fr,
            previous_committed_transaction_digest: this.previous_committed_transaction_digest,
            durability_mode: this.durability_mode,
            schema_version: CAUSAL_WAL_VERSION,
            commit_digest: [0u8; 32],
        };
        let d = commit.compute_digest();
        let ghost c0 = commit;
        commit.commit_digest = d;
        proof {
            assert(commit_digest_spec(commit) == d@) by {
                assert(crate::causal_wal::frame::commit_digest_input(commit)
                    =~= crate::causal_wal::frame::commit_digest_input(c0));
            }
            lemma_builder_frames_error_free(this.frames@, commit, 0);
            if this.authority != this.transaction_kind.required_authority_spec() {
                let f0 = this.frames@[0];
                assert(f0.header.record_kind.required_authority_spec() == this.authority);
                assert(!records_match_authority(this.frames@, this.transaction_kind));
            }
        }
        let transaction = WalCommittedTransaction { frames: this.frames, affected_frontiers, commit };
        match transaction.validate() {
            Ok(()) => Ok(transaction),
            Err(e) => Err(WalBuildError::Validation(e)),
        }
    }
}

impl WalTransactionBuilder {
    /// Writer epoch of the transaction.
    pub fn writer_epoch(&self) -> (r: WriterEpochId)
        ensures
            r == self.writer_epoch_spec(),
    {
        self.writer_epoch
    }

    /// Transaction id.
    pub fn transaction_id(&self) -> (r: WalTransactionId)
        ensures
            r == self.transaction_id_spec(),
    {
        self.transaction_id
    }

    /// LSN the next record receives.
    pub fn next_lsn(&self) -> (r: Lsn)
        ensures
            r == self.next_lsn_spec(),
    {
        self.next_lsn
    }
}

proof fn lemma_builder_frames_error_free(fs: Seq<WalFrame>, c: WalTransactionCommit, i: int)
    requires
        0 <= i <= fs.len(),
        fs.len() > 0,
        c.first_lsn == fs[0].header.lsn,
        forall|j: int| 0 <= j < fs.len() ==> {
            &&& frame_integrity_spec(#[trigger] fs[j]) == Ok::<(), crate::causal_wal::WalValidationError>(())
            &&& fs[j].header.transaction_id == c.transaction_id
            &&& fs[j].header.writer_epoch == c.writer_epoch
            &&& fs[j].header.transaction_local_index.0 == j
            &&& fs[j].header.lsn.0 == fs[0].header.lsn.0 + j
        },
    ensures
        first_frame_error_from(fs, c, i) is None,
    decreases fs.len() - i,
{
    if i < fs.len() {
        lemma_builder_frames_error_free(fs, c, i + 1);
        let f = fs[i];
        assert(frame_integrity_spec(f) == Ok::<(), crate::causal_wal::WalValidationError>(()));
        assert(local_index_of(i) == f.header.transaction_local_index.0);
        assert(frame_position_error(f, i, c) is None);
    }
}

} // verus!
