//! Fixed-layout WAL record payloads and the postures derived from them.
use vstd::prelude::*;
use vstd::bytes::*;
use vstd::string::*;
use crate::crypto::{blake3_digest, blake3_hash};
use crate::encoding::{
    optional_hash_bytes, push_hash, push_optional_hash, push_slice, push_u16_le, push_u64_le,
    push_u8, ByteCursor,
};
use crate::causal_wal::{Lsn, WalDecodeError};
use crate::causal_wal::recovery::RecoveryTailPosture;

verus! {

/// Scheduler-owned tick decision captured by a WAL receipt record.
#[derive(Clone, Copy, Debug, PartialEq, Eq, Structural)]
pub enum WalTickDecision {
    /// The scheduler applied the work.
    Applied,
    /// The scheduler lawfully rejected the work for a footprint conflict.
    RejectedFootprintConflict,
    /// The work is obstructed by retained material or runtime support posture.
    Obstructed,
}

impl WalTickDecision {
    /// Stable persisted code of the variant.
    pub open spec fn code_spec(self) -> u8 {
        match self {
            WalTickDecision::Applied => 1u8,
            WalTickDecision::RejectedFootprintConflict => 2u8,
            WalTickDecision::Obstructed => 3u8,
        }
    }

    /// The variant persisted under `code`, if any.
    pub open spec fn from_code_spec(code: u8) -> Option<Self> {
        if code == 1u8 {
            Some(WalTickDecision::Applied)
        } else if code == 2u8 {
            Some(WalTickDecision::RejectedFootprintConflict)
        } else if code == 3u8 {
            Some(WalTickDecision::Obstructed)
        } else {
            None
        }
    }

    /// Returns the stable persisted code.
    pub fn stable_code(self) -> (r: u8)
        ensures
            r == self.code_spec(),
    {
        match self {
            WalTickDecision::Applied => 1,
            WalTickDecision::RejectedFootprintConflict => 2,
            WalTickDecision::Obstructed => 3,
        }
    }

    /// Decodes a persisted code.
    pub fn from_code(code: u8) -> (r: Result<Self, WalDecodeError>)
        ensures
            r == (match Self::from_code_spec(code) {
                Some(k) => Ok::<Self, WalDecodeError>(k),
                None => Err(WalDecodeError::UnknownEnumCode { enum_name: "WalTickDecision", code }),
            }),
    {
        if code == 1 {
            Ok(WalTickDecision::Applied)
        } else if code == 2 {
            Ok(WalTickDecision::RejectedFootprintConflict)
        } else if code == 3 {
            Ok(WalTickDecision::Obstructed)
        } else {
            Err(WalDecodeError::UnknownEnumCode { enum_name: "WalTickDecision", code })
        }
    }

    /// Decoding a code gives the variant persisted under it, and back.
    pub proof fn lemma_code_round_trip(self)
        ensures
            Self::from_code_spec(self.code_spec()) == Some(self),
    {
    }

    /// A code that decodes is the code of the variant it decodes to.
    pub proof fn lemma_from_code_inverse(code: u8)
        ensures
            Self::from_code_spec(code) matches Some(k) ==> k.code_spec() == code,
    {
    }
}

impl WalTickDecision {
    /// Returns `true` when this decision is a lawful rejection, not a fault.
    pub fn is_lawful_rejection(self) -> (r: bool)
        ensures
            r == (self == WalTickDecision::RejectedFootprintConflict),
    {
        match self {
            WalTickDecision::RejectedFootprintConflict => true,
            _ => false,
        }
    }
}

/// Retained material family referenced by committed WAL history.
#[derive(Clone, Copy, Debug, PartialEq, Eq, Structural, PartialOrd, Ord)]
pub enum RetainedMaterialKind {
    /// Canonical submission payload material.
    SubmissionPayload,
    /// Tick receipt material.
    TickReceipt,
    /// Runtime state delta material.
    RuntimeStateDelta,
    /// Runtime control posture material.
    RuntimeControl,
    /// Reading payload material.
    ReadingPayload,
    /// Reading envelope material.
    ReadingEnvelope,
    /// Diagnostic-only material.
    Diagnostic,
}

impl RetainedMaterialKind {
    /// Stable persisted code of the variant.
    pub open spec fn code_spec(self) -> u8 {
        match self {
            RetainedMaterialKind::SubmissionPayload => 1u8,
            RetainedMaterialKind::TickReceipt => 2u8,
            RetainedMaterialKind::RuntimeStateDelta => 3u8,
            RetainedMaterialKind::RuntimeControl => 4u8,
            RetainedMaterialKind::ReadingPayload => 5u8,
            RetainedMaterialKind::ReadingEnvelope => 6u8,
            RetainedMaterialKind::Diagnostic => 7u8,
        }
    }

    /// The variant persisted under `code`, if any.
    pub open spec fn from_code_spec(code: u8) -> Option<Self> {
        if code == 1u8 {
            Some(RetainedMaterialKind::SubmissionPayload)
        } else if code == 2u8 {
            Some(RetainedMaterialKind::TickReceipt)
        } else if code == 3u8 {
            Some(RetainedMaterialKind::RuntimeStateDelta)
        } else if code == 4u8 {
            Some(RetainedMaterialKind::RuntimeControl)
        } else if code == 5u8 {
            Some(RetainedMaterialKind::ReadingPayload)
        } else if code == 6u8 {
            Some(RetainedMaterialKind::ReadingEnvelope)
        } else if code == 7u8 {
            Some(RetainedMaterialKind::Diagnostic)
        } else {
            None
        }
    }

    /// Returns the stable persisted code.
    pub fn stable_code(self) -> (r: u8)
        ensures
            r == self.code_spec(),
    {
        match self {
            RetainedMaterialKind::SubmissionPayload => 1,
            RetainedMaterialKind::TickReceipt => 2,
            RetainedMaterialKind::RuntimeStateDelta => 3,
            RetainedMaterialKind::RuntimeControl => 4,
            RetainedMaterialKind::ReadingPayload => 5,
            RetainedMaterialKind::ReadingEnvelope => 6,
            RetainedMaterialKind::Diagnostic => 7,
        }
    }

    /// Decodes a persisted code.
    pub fn from_code(code: u8) -> (r: Result<Self, WalDecodeError>)
        ensures
            r == (match Self::from_code_spec(code) {
                Some(k) => Ok::<Self, WalDecodeError>(k),
                None => Err(WalDecodeError::UnknownEnumCode { enum_name: "RetainedMaterialKind", code }),
            }),
    {
        if code == 1 {
            Ok(RetainedMaterialKind::SubmissionPayload)
        } else if code == 2 {
            Ok(RetainedMaterialKind::TickReceipt)
        } else if code == 3 {
            Ok(RetainedMaterialKind::RuntimeStateDelta)
        } else if code == 4 {
            Ok(RetainedMaterialKind::RuntimeControl)
        } else if code == 5 {
            Ok(RetainedMaterialKind::ReadingPayload)
        } else if code == 6 {
            Ok(RetainedMaterialKind::ReadingEnvelope)
        } else if code == 7 {
            Ok(RetainedMaterialKind::Diagnostic)
        } else {
            Err(WalDecodeError::UnknownEnumCode { enum_name: "RetainedMaterialKind", code })
        }
    }

    /// Decoding a code gives the variant persisted under it, and back.
    pub proof fn lemma_code_round_trip(self)
        ensures
            Self::from_code_spec(self.code_spec()) == Some(self),
    {
    }

    /// A code that decodes is the code of the variant it decodes to.
    pub proof fn lemma_from_code_inverse(code: u8)
        ensures
            Self::from_code_spec(code) matches Some(k) ==> k.code_spec() == code,
    {
    }
}

/// Evidence posture for retained material and readings.
#[derive(Clone, Copy, Debug, PartialEq, Eq, Structural)]
pub enum EvidenceMaterialPosture {
    /// Material is present.
    Present,
    /// Material is hidden by revelation policy.
    RedactedByPolicy,
    /// Material is encrypted and the key is unavailable.
    EncryptedKeyUnavailable,
    /// Material is missing.
    Missing,
    /// Material is corrupt.
    Corrupt,
    /// Material is obstructed by causal/runtime posture.
    Obstructed,
}

impl EvidenceMaterialPosture {
    /// Stable persisted code of the variant.
    pub open spec fn code_spec(self) -> u8 {
        match self {
            EvidenceMaterialPosture::Present => 1u8,
            EvidenceMaterialPosture::RedactedByPolicy => 2u8,
            EvidenceMaterialPosture::EncryptedKeyUnavailable => 3u8,
            EvidenceMaterialPosture::Missing => 4u8,
            EvidenceMaterialPosture::Corrupt => 5u8,
            EvidenceMaterialPosture::Obstructed => 6u8,
        }
    }

    /// The variant persisted under `code`, if any.
    pub open spec fn from_code_spec(code: u8) -> Option<Self> {
        if code == 1u8 {
            Some(EvidenceMaterialPosture::Present)
        } else if code == 2u8 {
            Some(EvidenceMaterialPosture::RedactedByPolicy)
        } else if code == 3u8 {
            Some(EvidenceMaterialPosture::EncryptedKeyUnavailable)
        } else if code == 4u8 {
            Some(EvidenceMaterialPosture::Missing)
        } else if code == 5u8 {
            Some(EvidenceMaterialPosture::Corrupt)
        } else if code == 6u8 {
            Some(EvidenceMaterialPosture::Obstructed)
        } else {
            None
        }
    }

    /// Returns the stable persisted code.
    pub fn stable_code(self) -> (r: u8)
        ensures
            r == self.code_spec(),
    {
        match self {
            EvidenceMaterialPosture::Present => 1,
            EvidenceMaterialPosture::RedactedByPolicy => 2,
            EvidenceMaterialPosture::EncryptedKeyUnavailable => 3,
            EvidenceMaterialPosture::Missing => 4,
            EvidenceMaterialPosture::Corrupt => 5,
            EvidenceMaterialPosture::Obstructed => 6,
        }
    }

    /// Decodes a persisted code.
    pub fn from_code(code: u8) -> (r: Result<Self, WalDecodeError>)
        ensures
            r == (match Self::from_code_spec(code) {
                Some(k) => Ok::<Self, WalDecodeError>(k),
                None => Err(WalDecodeError::UnknownEnumCode { enum_name: "EvidenceMaterialPosture", code }),
            }),
    {
        if code == 1 {
            Ok(EvidenceMaterialPosture::Present)
        } else if code == 2 {
            Ok(EvidenceMaterialPosture::RedactedByPolicy)
        } else if code == 3 {
            Ok(EvidenceMaterialPosture::EncryptedKeyUnavailable)
        } else if code == 4 {
            Ok(EvidenceMaterialPosture::Missing)
        } else if code == 5 {
            Ok(EvidenceMaterialPosture::Corrupt)
        } else if code == 6 {
            Ok(EvidenceMaterialPosture::Obstructed)
        } else {
            Err(WalDecodeError::UnknownEnumCode { enum_name: "EvidenceMaterialPosture", code })
        }
    }

    /// Decoding a code gives the variant persisted under it, and back.
    pub proof fn lemma_code_round_trip(self)
        ensures
            Self::from_code_spec(self.code_spec()) == Some(self),
    {
    }

    /// A code that decodes is the code of the variant it decodes to.
    pub proof fn lemma_from_code_inverse(code: u8)
        ensures
            Self::from_code_spec(code) matches Some(k) ==> k.code_spec() == code,
    {
    }
}

/// Inspector-facing material posture.
#[derive(Clone, Copy, Debug, PartialEq, Eq, Structural)]
pub enum MaterialInspectionPosture {
    /// Material is available.
    Present,
    /// Material is intentionally hidden by policy.
    PolicyHidden,
    /// Material is encrypted and the key is unavailable.
    EncryptedKeyUnavailable,
    /// Material is missing from storage.
    Missing,
    /// Material bytes are corrupt.
    Corrupt,
    /// Material is blocked by runtime or causal posture.
    Obstructed,
}

/// The inspector posture of a retained-material posture.
pub open spec fn inspection_posture_of(p: EvidenceMaterialPosture) -> MaterialInspectionPosture {
    match p {
        EvidenceMaterialPosture::Present => MaterialInspectionPosture::Present,
        EvidenceMaterialPosture::RedactedByPolicy => MaterialInspectionPosture::PolicyHidden,
        EvidenceMaterialPosture::EncryptedKeyUnavailable => MaterialInspectionPosture::EncryptedKeyUnavailable,
        EvidenceMaterialPosture::Missing => MaterialInspectionPosture::Missing,
        EvidenceMaterialPosture::Corrupt => MaterialInspectionPosture::Corrupt,
        EvidenceMaterialPosture::Obstructed => MaterialInspectionPosture::Obstructed,
    }
}

/// Converts retained material posture into an explicit inspector posture.
pub fn inspect_evidence_material_posture(posture: EvidenceMaterialPosture) -> (r: MaterialInspectionPosture)
    ensures
        r == inspection_posture_of(posture),
{
    match posture {
        EvidenceMaterialPosture::Present => MaterialInspectionPosture::Present,
        EvidenceMaterialPosture::RedactedByPolicy => MaterialInspectionPosture::PolicyHidden,
        EvidenceMaterialPosture::EncryptedKeyUnavailable => MaterialInspectionPosture::EncryptedKeyUnavailable,
        EvidenceMaterialPosture::Missing => MaterialInspectionPosture::Missing,
        EvidenceMaterialPosture::Corrupt => MaterialInspectionPosture::Corrupt,
        EvidenceMaterialPosture::Obstructed => MaterialInspectionPosture::Obstructed,
    }
}

/// Scope of a retained-material recovery obstruction.
#[derive(Clone, Copy, Debug, PartialEq, Eq, Structural)]
pub enum MissingMaterialScope {
    /// One recovered submission is obstructed.
    Submission,
    /// A receipt or ticket correlation is obstructed.
    ReceiptOrTicket,
    /// Runtime recovery must fault globally.
    RuntimeGlobal,
    /// A retained reading is obstructed.
    Reading,
    /// Diagnostic material loss does not block causal recovery.
    DiagnosticLoss,
}

/// Recovery scope of missing material of a kind.
pub open spec fn missing_scope_of(kind: RetainedMaterialKind) -> MissingMaterialScope {
    match kind {
        RetainedMaterialKind::SubmissionPayload => MissingMaterialScope::Submission,
        RetainedMaterialKind::TickReceipt => MissingMaterialScope::ReceiptOrTicket,
        RetainedMaterialKind::RuntimeStateDelta => MissingMaterialScope::RuntimeGlobal,
        RetainedMaterialKind::RuntimeControl => MissingMaterialScope::RuntimeGlobal,
        RetainedMaterialKind::ReadingPayload => MissingMaterialScope::Reading,
        RetainedMaterialKind::ReadingEnvelope => MissingMaterialScope::Reading,
        RetainedMaterialKind::Diagnostic => MissingMaterialScope::DiagnosticLoss,
    }
}

/// Classifies the recovery scope for missing retained material.
pub fn missing_material_scope(kind: RetainedMaterialKind) -> (r: MissingMaterialScope)
    ensures
        r == missing_scope_of(kind),
{
    match kind {
        RetainedMaterialKind::SubmissionPayload => MissingMaterialScope::Submission,
        RetainedMaterialKind::TickReceipt => MissingMaterialScope::ReceiptOrTicket,
        RetainedMaterialKind::RuntimeStateDelta => MissingMaterialScope::RuntimeGlobal,
        RetainedMaterialKind::RuntimeControl => MissingMaterialScope::RuntimeGlobal,
        RetainedMaterialKind::ReadingPayload => MissingMaterialScope::Reading,
        RetainedMaterialKind::ReadingEnvelope => MissingMaterialScope::Reading,
        RetainedMaterialKind::Diagnostic => MissingMaterialScope::DiagnosticLoss,
    }
}

/// WAL tick receipt record payload.
#[derive(Clone, Copy, Debug, PartialEq, Eq)]
pub struct TickReceiptRecord {
    /// Submission decided by the receipt.
    pub submission_id: crate::ident::Hash,
    /// Admission ticket digest.
    pub ticket_digest: crate::ident::Hash,
    /// Tick receipt digest.
    pub receipt_digest: crate::ident::Hash,
    /// Scheduler decision.
    pub decision: WalTickDecision,
}

impl TickReceiptRecord {
    /// Deterministic payload bytes: the fields in declaration order.
    pub open spec fn payload_spec(&self) -> Seq<u8> {
        self.submission_id@
            + self.ticket_digest@
            + self.receipt_digest@
            + seq![self.decision.code_spec()]
    }

    /// The payload is 97 bytes, each field at its fixed offset.
    pub proof fn lemma_layout(&self)
        ensures
            self.payload_spec().len() == 97,
            self.payload_spec().subrange(0, 32) == self.submission_id@,
            self.payload_spec().subrange(32, 64) == self.ticket_digest@,
            self.payload_spec().subrange(64, 96) == self.receipt_digest@,
            self.payload_spec()[96] == self.decision.code_spec(),
    {
        lemma_auto_spec_u64_to_from_le_bytes();
        lemma_auto_spec_u16_to_from_le_bytes();
        assert(self.payload_spec().subrange(0, 32) =~= self.submission_id@);
        assert(self.payload_spec().subrange(32, 64) =~= self.ticket_digest@);
        assert(self.payload_spec().subrange(64, 96) =~= self.receipt_digest@);
    }

    /// Encodes the record as deterministic WAL payload bytes.
    pub fn to_payload_bytes(&self) -> (r: Vec<u8>)
        ensures
            r@ == self.payload_spec(),
    {
        let mut out: Vec<u8> = Vec::new();
        push_hash(&mut out, &self.submission_id);
        push_hash(&mut out, &self.ticket_digest);
        push_hash(&mut out, &self.receipt_digest);
        push_u8(&mut out, self.decision.stable_code());
        assert(out@ =~= self.payload_spec());
        out
    }

    /// Decodes a deterministic payload: it succeeds exactly on the encoding of
    /// some record, and returns that record.
    pub fn from_payload_bytes(bytes: &[u8]) -> (r: Result<Self, WalDecodeError>)
        ensures
            r is Ok <==> exists|x: Self| #[trigger] x.payload_spec() == bytes@,
            r is Ok ==> r->Ok_0.payload_spec() == bytes@,
    {
        let mut c = ByteCursor::new(bytes);
        let ghost decodable = exists|x: Self| #[trigger] x.payload_spec() == bytes@;
        let submission_id = match c.read_hash() { Some(v) => v, None => { proof { if decodable { let x = choose|x: Self| #[trigger] x.payload_spec() == bytes@; x.lemma_layout(); } } return Err(WalDecodeError::UnexpectedEof); } };
        let ticket_digest = match c.read_hash() { Some(v) => v, None => { proof { if decodable { let x = choose|x: Self| #[trigger] x.payload_spec() == bytes@; x.lemma_layout(); } } return Err(WalDecodeError::UnexpectedEof); } };
        let receipt_digest = match c.read_hash() { Some(v) => v, None => { proof { if decodable { let x = choose|x: Self| #[trigger] x.payload_spec() == bytes@; x.lemma_layout(); } } return Err(WalDecodeError::UnexpectedEof); } };
        let decision_code = match c.read_u8() { Some(v) => v, None => { proof { if decodable { let x = choose|x: Self| #[trigger] x.payload_spec() == bytes@; x.lemma_layout(); } } return Err(WalDecodeError::UnexpectedEof); } };
        let decision = match WalTickDecision::from_code(decision_code) { Ok(v) => v, Err(e) => { proof { if decodable { let x = choose|x: Self| #[trigger] x.payload_spec() == bytes@; x.lemma_layout(); x.decision.lemma_code_round_trip(); } } return Err(e); } };
        proof { WalTickDecision::lemma_from_code_inverse(decision_code); }
        if !c.at_end() {
            proof { if decodable { let x = choose|x: Self| #[trigger] x.payload_spec() == bytes@; x.lemma_layout(); } }
            return Err(WalDecodeError::TrailingBytes);
        }
        let r = TickReceiptRecord { submission_id, ticket_digest, receipt_digest, decision };
        proof {
            r.lemma_layout();
            lemma_auto_spec_u64_to_from_le_bytes();
            lemma_auto_spec_u16_to_from_le_bytes();
            assert(bytes@ =~= bytes@.subrange(0, 32) + bytes@.subrange(32, 64) + bytes@.subrange(64, 96) + bytes@.subrange(96, 97));
            assert(r.payload_spec() =~= bytes@);
        }
        Ok(r)
    }
}

/// WAL receipt correlation record payload.
#[derive(Clone, Copy, Debug, PartialEq, Eq)]
pub struct WalReceiptCorrelationRecord {
    /// Submission correlated to the receipt.
    pub submission_id: crate::ident::Hash,
    /// Admission ticket digest.
    pub ticket_digest: crate::ident::Hash,
    /// Tick receipt digest.
    pub receipt_digest: crate::ident::Hash,
}

impl WalReceiptCorrelationRecord {
    /// Deterministic payload bytes: the fields in declaration order.
    pub open spec fn payload_spec(&self) -> Seq<u8> {
        self.submission_id@
            + self.ticket_digest@
            + self.receipt_digest@
    }

    /// The payload is 96 bytes, each field at its fixed offset.
    pub proof fn lemma_layout(&self)
        ensures
            self.payload_spec().len() == 96,
            self.payload_spec().subrange(0, 32) == self.submission_id@,
            self.payload_spec().subrange(32, 64) == self.ticket_digest@,
            self.payload_spec().subrange(64, 96) == self.receipt_digest@,
    {
        lemma_auto_spec_u64_to_from_le_bytes();
        lemma_auto_spec_u16_to_from_le_bytes();
        assert(self.payload_spec().subrange(0, 32) =~= self.submission_id@);
        assert(self.payload_spec().subrange(32, 64) =~= self.ticket_digest@);
        assert(self.payload_spec().subrange(64, 96) =~= self.receipt_digest@);
    }

    /// Encodes the record as deterministic WAL payload bytes.
    pub fn to_payload_bytes(&self) -> (r: Vec<u8>)
        ensures
            r@ == self.payload_spec(),
    {
        let mut out: Vec<u8> = Vec::new();
        push_hash(&mut out, &self.submission_id);
        push_hash(&mut out, &self.ticket_digest);
        push_hash(&mut out, &self.receipt_digest);
        assert(out@ =~= self.payload_spec());
        out
    }

    /// Decodes a deterministic payload: it succeeds exactly on the encoding of
    /// some record, and returns that record.
    pub fn from_payload_bytes(bytes: &[u8]) -> (r: Result<Self, WalDecodeError>)
        ensures
            r is Ok <==> exists|x: Self| #[trigger] x.payload_spec() == bytes@,
            r is Ok ==> r->Ok_0.payload_spec() == bytes@,
    {
        let mut c = ByteCursor::new(bytes);
        let ghost decodable = exists|x: Self| #[trigger] x.payload_spec() == bytes@;
        let submission_id = match c.read_hash() { Some(v) => v, None => { proof { if decodable { let x = choose|x: Self| #[trigger] x.payload_spec() == bytes@; x.lemma_layout(); } } return Err(WalDecodeError::UnexpectedEof); } };
        let ticket_digest = match c.read_hash() { Some(v) => v, None => { proof { if decodable { let x = choose|x: Self| #[trigger] x.payload_spec() == bytes@; x.lemma_layout(); } } return Err(WalDecodeError::UnexpectedEof); } };
        let receipt_digest = match c.read_hash() { Some(v) => v, None => { proof { if decodable { let x = choose|x: Self| #[trigger] x.payload_spec() == bytes@; x.lemma_layout(); } } return Err(WalDecodeError::UnexpectedEof); } };
        if !c.at_end() {
            proof { if decodable { let x = choose|x: Self| #[trigger] x.payload_spec() == bytes@; x.lemma_layout(); } }
            return Err(WalDecodeError::TrailingBytes);
        }
        let r = WalReceiptCorrelationRecord { submission_id, ticket_digest, receipt_digest };
        proof {
            r.lemma_layout();
            lemma_auto_spec_u64_to_from_le_bytes();
            lemma_auto_spec_u16_to_from_le_bytes();
            assert(bytes@ =~= bytes@.subrange(0, 32) + bytes@.subrange(32, 64) + bytes@.subrange(64, 96));
            assert(r.payload_spec() =~= bytes@);
        }
        Ok(r)
    }
}

/// WAL retained material reference payload.
#[derive(Clone, Copy, Debug, PartialEq, Eq)]
pub struct RetainedMaterialRecord {
    /// Material digest.
    pub material_digest: crate::ident::Hash,
    /// Semantic coordinate digest naming why the material matters.
    pub semantic_coordinate_digest: crate::ident::Hash,
    /// Material family.
    pub kind: RetainedMaterialKind,
    /// Material posture.
    pub posture: EvidenceMaterialPosture,
}

impl RetainedMaterialRecord {
    /// Deterministic payload bytes: the fields in declaration order.
    pub open spec fn payload_spec(&self) -> Seq<u8> {
        self.material_digest@
            + self.semantic_coordinate_digest@
            + seq![self.kind.code_spec()]
            + seq![self.posture.code_spec()]
    }

    /// The payload is 66 bytes, each field at its fixed offset.
    pub proof fn lemma_layout(&self)
        ensures
            self.payload_spec().len() == 66,
            self.payload_spec().subrange(0, 32) == self.material_digest@,
            self.payload_spec().subrange(32, 64) == self.semantic_coordinate_digest@,
            self.payload_spec()[64] == self.kind.code_spec(),
            self.payload_spec()[65] == self.posture.code_spec(),
    {
        lemma_auto_spec_u64_to_from_le_bytes();
        lemma_auto_spec_u16_to_from_le_bytes();
        assert(self.payload_spec().subrange(0, 32) =~= self.material_digest@);
        assert(self.payload_spec().subrange(32, 64) =~= self.semantic_coordinate_digest@);
    }

    /// Encodes the record as deterministic WAL payload bytes.
    pub fn to_payload_bytes(&self) -> (r: Vec<u8>)
        ensures
            r@ == self.payload_spec(),
    {
        let mut out: Vec<u8> = Vec::new();
        push_hash(&mut out, &self.material_digest);
        push_hash(&mut out, &self.semantic_coordinate_digest);
        push_u8(&mut out, self.kind.stable_code());
        push_u8(&mut out, self.posture.stable_code());
        assert(out@ =~= self.payload_spec());
        out
    }

    /// Decodes a deterministic payload: it succeeds exactly on the encoding of
    /// some record, and returns that record.
    pub fn from_payload_bytes(bytes: &[u8]) -> (r: Result<Self, WalDecodeError>)
        ensures
            r is Ok <==> exists|x: Self| #[trigger] x.payload_spec() == bytes@,
            r is Ok ==> r->Ok_0.payload_spec() == bytes@,
    {
        let mut c = ByteCursor::new(bytes);
        let ghost decodable = exists|x: Self| #[trigger] x.payload_spec() == bytes@;
        let material_digest = match c.read_hash() { Some(v) => v, None => { proof { if decodable { let x = choose|x: Self| #[trigger] x.payload_spec() == bytes@; x.lemma_layout(); } } return Err(WalDecodeError::UnexpectedEof); } };
        let semantic_coordinate_digest = match c.read_hash() { Some(v) => v, None => { proof { if decodable { let x = choose|x: Self| #[trigger] x.payload_spec() == bytes@; x.lemma_layout(); } } return Err(WalDecodeError::UnexpectedEof); } };
        let kind_code = match c.read_u8() { Some(v) => v, None => { proof { if decodable { let x = choose|x: Self| #[trigger] x.payload_spec() == bytes@; x.lemma_layout(); } } return Err(WalDecodeError::UnexpectedEof); } };
        let kind = match RetainedMaterialKind::from_code(kind_code) { Ok(v) => v, Err(e) => { proof { if decodable { let x = choose|x: Self| #[trigger] x.payload_spec() == bytes@; x.lemma_layout(); x.kind.lemma_code_round_trip(); } } return Err(e); } };
        proof { RetainedMaterialKind::lemma_from_code_inverse(kind_code); }
        let posture_code = match c.read_u8() { Some(v) => v, None => { proof { if decodable { let x = choose|x: Self| #[trigger] x.payload_spec() == bytes@; x.lemma_layout(); } } return Err(WalDecodeError::UnexpectedEof); } };
        let posture = match EvidenceMaterialPosture::from_code(posture_code) { Ok(v) => v, Err(e) => { proof { if decodable { let x = choose|x: Self| #[trigger] x.payload_spec() == bytes@; x.lemma_layout(); x.posture.lemma_code_round_trip(); } } return Err(e); } };
        proof { EvidenceMaterialPosture::lemma_from_code_inverse(posture_code); }
        if !c.at_end() {
            proof { if decodable { let x = choose|x: Self| #[trigger] x.payload_spec() == bytes@; x.lemma_layout(); } }
            return Err(WalDecodeError::TrailingBytes);
        }
        let r = RetainedMaterialRecord { material_digest, semantic_coordinate_digest, kind, posture };
        proof {
            r.lemma_layout();
            lemma_auto_spec_u64_to_from_le_bytes();
            lemma_auto_spec_u16_to_from_le_bytes();
            assert(bytes@ =~= bytes@.subrange(0, 32) + bytes@.subrange(32, 64) + bytes@.subrange(64, 65) + bytes@.subrange(65, 66));
            assert(r.payload_spec() =~= bytes@);
        }
        Ok(r)
    }
}

/// WAL reading reference payload.
#[derive(Clone, Copy, Debug, PartialEq, Eq)]
pub struct ReadingRefRecord {
    /// Reading identity digest.
    pub reading_id: crate::ident::Hash,
    /// Query or reading semantic coordinate digest.
    pub semantic_coordinate_digest: crate::ident::Hash,
    /// Retained payload digest.
    pub payload_digest: crate::ident::Hash,
    /// Retained envelope digest.
    pub envelope_digest: crate::ident::Hash,
    /// Reading evidence posture.
    pub posture: EvidenceMaterialPosture,
}

impl ReadingRefRecord {
    /// Deterministic payload bytes: the fields in declaration order.
    pub open spec fn payload_spec(&self) -> Seq<u8> {
        self.reading_id@
            + self.semantic_coordinate_digest@
            + self.payload_digest@
            + self.envelope_digest@
            + seq![self.posture.code_spec()]
    }

    /// The payload is 129 bytes, each field at its fixed offset.
    pub proof fn lemma_layout(&self)
        ensures
            self.payload_spec().len() == 129,
            self.payload_spec().subrange(0, 32) == self.reading_id@,
            self.payload_spec().subrange(32, 64) == self.semantic_coordinate_digest@,
            self.payload_spec().subrange(64, 96) == self.payload_digest@,
            self.payload_spec().subrange(96, 128) == self.envelope_digest@,
            self.payload_spec()[128] == self.posture.code_spec(),
    {
        lemma_auto_spec_u64_to_from_le_bytes();
        lemma_auto_spec_u16_to_from_le_bytes();
        assert(self.payload_spec().subrange(0, 32) =~= self.reading_id@);
        assert(self.payload_spec().subrange(32, 64) =~= self.semantic_coordinate_digest@);
        assert(self.payload_spec().subrange(64, 96) =~= self.payload_digest@);
        assert(self.payload_spec().subrange(96, 128) =~= self.envelope_digest@);
    }

    /// Encodes the record as deterministic WAL payload bytes.
    pub fn to_payload_bytes(&self) -> (r: Vec<u8>)
        ensures
            r@ == self.payload_spec(),
    {
        let mut out: Vec<u8> = Vec::new();
        push_hash(&mut out, &self.reading_id);
        push_hash(&mut out, &self.semantic_coordinate_digest);
        push_hash(&mut out, &self.payload_digest);
        push_hash(&mut out, &self.envelope_digest);
        push_u8(&mut out, self.posture.stable_code());
        assert(out@ =~= self.payload_spec());
        out
    }

    /// Decodes a deterministic payload: it succeeds exactly on the encoding of
    /// some record, and returns that record.
    pub fn from_payload_bytes(bytes: &[u8]) -> (r: Result<Self, WalDecodeError>)
        ensures
            r is Ok <==> exists|x: Self| #[trigger] x.payload_spec() == bytes@,
            r is Ok ==> r->Ok_0.payload_spec() == bytes@,
    {
        let mut c = ByteCursor::new(bytes);
        let ghost decodable = exists|x: Self| #[trigger] x.payload_spec() == bytes@;
        let reading_id = match c.read_hash() { Some(v) => v, None => { proof { if decodable { let x = choose|x: Self| #[trigger] x.payload_spec() == bytes@; x.lemma_layout(); } } return Err(WalDecodeError::UnexpectedEof); } };
        let semantic_coordinate_digest = match c.read_hash() { Some(v) => v, None => { proof { if decodable { let x = choose|x: Self| #[trigger] x.payload_spec() == bytes@; x.lemma_layout(); } } return Err(WalDecodeError::UnexpectedEof); } };
        let payload_digest = match c.read_hash() { Some(v) => v, None => { proof { if decodable { let x = choose|x: Self| #[trigger] x.payload_spec() == bytes@; x.lemma_layout(); } } return Err(WalDecodeError::UnexpectedEof); } };
        let envelope_digest = match c.read_hash() { Some(v) => v, None => { proof { if decodable { let x = choose|x: Self| #[trigger] x.payload_spec() == bytes@; x.lemma_layout(); } } return Err(WalDecodeError::UnexpectedEof); } };
        let posture_code = match c.read_u8() { Some(v) => v, None => { proof { if decodable { let x = choose|x: Self| #[trigger] x.payload_spec() == bytes@; x.lemma_layout(); } } return Err(WalDecodeError::UnexpectedEof); } };
        let posture = match EvidenceMaterialPosture::from_code(posture_code) { Ok(v) => v, Err(e) => { proof { if decodable { let x = choose|x: Self| #[trigger] x.payload_spec() == bytes@; x.lemma_layout(); x.posture.lemma_code_round_trip(); } } return Err(e); } };
        proof { EvidenceMaterialPosture::lemma_from_code_inverse(posture_code); }
        if !c.at_end() {
            proof { if decodable { let x = choose|x: Self| #[trigger] x.payload_spec() == bytes@; x.lemma_layout(); } }
            return Err(WalDecodeError::TrailingBytes);
        }
        let r = ReadingRefRecord { reading_id, semantic_coordinate_digest, payload_digest, envelope_digest, posture };
        proof {
            r.lemma_layout();
            lemma_auto_spec_u64_to_from_le_bytes();
            lemma_auto_spec_u16_to_from_le_bytes();
            assert(bytes@ =~= bytes@.subrange(0, 32) + bytes@.subrange(32, 64) + bytes@.subrange(64, 96) + bytes@.subrange(96, 128) + bytes@.subrange(128, 129));
            assert(r.payload_spec() =~= bytes@);
        }
        Ok(r)
    }
}

/// WAL checkpoint record.
#[derive(Clone, Copy, Debug, PartialEq, Eq)]
pub struct CheckpointRecord {
    /// Stable checkpoint id.
    pub checkpoint_id: crate::ident::Hash,
    /// Last included LSN.
    pub last_included_lsn: Lsn,
    /// Last included commit digest.
    pub last_included_commit_digest: crate::ident::Hash,
    /// Runtime state root.
    pub state_root: crate::ident::Hash,
    /// Rebuilt index root.
    pub index_root: crate::ident::Hash,
    /// Retained material root.
    pub retained_material_root: crate::ident::Hash,
    /// Checkpoint schema version.
    pub schema_version: u16,
    /// Digest of the WAL chain used to create the checkpoint.
    pub created_from_wal_digest: crate::ident::Hash,
}

impl CheckpointRecord {
    /// Deterministic payload bytes: the fields in declaration order.
    pub open spec fn payload_spec(&self) -> Seq<u8> {
        self.checkpoint_id@
            + spec_u64_to_le_bytes(self.last_included_lsn.0)
            + self.last_included_commit_digest@
            + self.state_root@
            + self.index_root@
            + self.retained_material_root@
            + spec_u16_to_le_bytes(self.schema_version)
            + self.created_from_wal_digest@
    }

    /// The payload is 202 bytes, each field at its fixed offset.
    pub proof fn lemma_layout(&self)
        ensures
            self.payload_spec().len() == 202,
            self.payload_spec().subrange(0, 32) == self.checkpoint_id@,
            self.payload_spec().subrange(32, 40) == spec_u64_to_le_bytes(self.last_included_lsn.0),
            self.payload_spec().subrange(40, 72) == self.last_included_commit_digest@,
            self.payload_spec().subrange(72, 104) == self.state_root@,
            self.payload_spec().subrange(104, 136) == self.index_root@,
            self.payload_spec().subrange(136, 168) == self.retained_material_root@,
            self.payload_spec().subrange(168, 170) == spec_u16_to_le_bytes(self.schema_version),
            self.payload_spec().subrange(170, 202) == self.created_from_wal_digest@,
    {
        lemma_auto_spec_u64_to_from_le_bytes();
        lemma_auto_spec_u16_to_from_le_bytes();
        assert(self.payload_spec().subrange(0, 32) =~= self.checkpoint_id@);
        assert(self.payload_spec().subrange(32, 40) =~= spec_u64_to_le_bytes(self.last_included_lsn.0));
        assert(self.payload_spec().subrange(40, 72) =~= self.last_included_commit_digest@);
        assert(self.payload_spec().subrange(72, 104) =~= self.state_root@);
        assert(self.payload_spec().subrange(104, 136) =~= self.index_root@);
        assert(self.payload_spec().subrange(136, 168) =~= self.retained_material_root@);
        assert(self.payload_spec().subrange(168, 170) =~= spec_u16_to_le_bytes(self.schema_version));
        assert(self.payload_spec().subrange(170, 202) =~= self.created_from_wal_digest@);
    }

    /// Encodes the record as deterministic WAL payload bytes.
    pub fn to_payload_bytes(&self) -> (r: Vec<u8>)
        ensures
            r@ == self.payload_spec(),
    {
        let mut out: Vec<u8> = Vec::new();
        push_hash(&mut out, &self.checkpoint_id);
        push_u64_le(&mut out, self.last_included_lsn.0);
        push_hash(&mut out, &self.last_included_commit_digest);
        push_hash(&mut out, &self.state_root);
        push_hash(&mut out, &self.index_root);
        push_hash(&mut out, &self.retained_material_root);
        push_u16_le(&mut out, self.schema_version);
        push_hash(&mut out, &self.created_from_wal_digest);
        assert(out@ =~= self.payload_spec());
        out
    }

    /// Decodes a deterministic payload: it succeeds exactly on the encoding of
    /// some record, and returns that record.
    pub fn from_payload_bytes(bytes: &[u8]) -> (r: Result<Self, WalDecodeError>)
        ensures
            r is Ok <==> exists|x: Self| #[trigger] x.payload_spec() == bytes@,
            r is Ok ==> r->Ok_0.payload_spec() == bytes@,
    {
        let mut c = ByteCursor::new(bytes);
        let ghost decodable = exists|x: Self| #[trigger] x.payload_spec() == bytes@;
        let checkpoint_id = match c.read_hash() { Some(v) => v, None => { proof { if decodable { let x = choose|x: Self| #[trigger] x.payload_spec() == bytes@; x.lemma_layout(); } } return Err(WalDecodeError::UnexpectedEof); } };
        let last_included_lsn_raw = match c.read_u64() { Some(v) => v, None => { proof { if decodable { let x = choose|x: Self| #[trigger] x.payload_spec() == bytes@; x.lemma_layout(); } } return Err(WalDecodeError::UnexpectedEof); } };
        let last_included_lsn = Lsn(last_included_lsn_raw);
        let last_included_commit_digest = match c.read_hash() { Some(v) => v, None => { proof { if decodable { let x = choose|x: Self| #[trigger] x.payload_spec() == bytes@; x.lemma_layout(); } } return Err(WalDecodeError::UnexpectedEof); } };
        let state_root = match c.read_hash() { Some(v) => v, None => { proof { if decodable { let x = choose|x: Self| #[trigger] x.payload_spec() == bytes@; x.lemma_layout(); } } return Err(WalDecodeError::UnexpectedEof); } };
        let index_root = match c.read_hash() { Some(v) => v, None => { proof { if decodable { let x = choose|x: Self| #[trigger] x.payload_spec() == bytes@; x.lemma_layout(); } } return Err(WalDecodeError::UnexpectedEof); } };
        let retained_material_root = match c.read_hash() { Some(v) => v, None => { proof { if decodable { let x = choose|x: Self| #[trigger] x.payload_spec() == bytes@; x.lemma_layout(); } } return Err(WalDecodeError::UnexpectedEof); } };
        let schema_version = match c.read_u16() { Some(v) => v, None => { proof { if decodable { let x = choose|x: Self| #[trigger] x.payload_spec() == bytes@; x.lemma_layout(); } } return Err(WalDecodeError::UnexpectedEof); } };
        let created_from_wal_digest = match c.read_hash() { Some(v) => v, None => { proof { if decodable { let x = choose|x: Self| #[trigger] x.payload_spec() == bytes@; x.lemma_layout(); } } return Err(WalDecodeError::UnexpectedEof); } };
        if !c.at_end() {
            proof { if decodable { let x = choose|x: Self| #[trigger] x.payload_spec() == bytes@; x.lemma_layout(); } }
            return Err(WalDecodeError::TrailingBytes);
        }
        let r = CheckpointRecord { checkpoint_id, last_included_lsn, last_included_commit_digest, state_root, index_root, retained_material_root, schema_version, created_from_wal_digest };
        proof {
            r.lemma_layout();
            lemma_auto_spec_u64_to_from_le_bytes();
            lemma_auto_spec_u16_to_from_le_bytes();
            assert(bytes@ =~= bytes@.subrange(0, 32) + bytes@.subrange(32, 40) + bytes@.subrange(40, 72) + bytes@.subrange(72, 104) + bytes@.subrange(104, 136) + bytes@.subrange(136, 168) + bytes@.subrange(168, 170) + bytes@.subrange(170, 202));
            assert(r.payload_spec() =~= bytes@);
        }
        Ok(r)
    }
}

/// Bytes hashed into a checkpoint digest.
pub open spec fn checkpoint_digest_input(c: CheckpointRecord) -> Seq<u8> {
    "echo:causal_wal:checkpoint:v1\0".spec_bytes() + c.checkpoint_id@ + spec_u64_to_le_bytes(c.last_included_lsn.0)
        + c.last_included_commit_digest@ + c.state_root@ + c.index_root@ + c.retained_material_root@
        + spec_u16_to_le_bytes(c.schema_version) + c.created_from_wal_digest@
}

impl CheckpointRecord {
    /// Computes the checkpoint digest.
    pub fn checkpoint_digest(&self) -> (r: crate::ident::Hash)
        ensures
            r@ == blake3_digest(checkpoint_digest_input(*self)),
    {
        let mut input: Vec<u8> = Vec::new();
        push_slice(&mut input, "echo:causal_wal:checkpoint:v1\0".as_bytes());
        push_hash(&mut input, &self.checkpoint_id);
        push_u64_le(&mut input, self.last_included_lsn.0);
        push_hash(&mut input, &self.last_included_commit_digest);
        push_hash(&mut input, &self.state_root);
        push_hash(&mut input, &self.index_root);
        push_hash(&mut input, &self.retained_material_root);
        push_u16_le(&mut input, self.schema_version);
        push_hash(&mut input, &self.created_from_wal_digest);
        assert(input@ =~= checkpoint_digest_input(*self));
        blake3_hash(input.as_slice())
    }
}

/// WAL checkpoint publication record.
#[derive(Clone, Copy, Debug, PartialEq, Eq)]
pub struct CheckpointPublicationRecord {
    /// Published checkpoint id.
    pub checkpoint_id: crate::ident::Hash,
    /// Published checkpoint digest.
    pub checkpoint_digest: crate::ident::Hash,
}

impl CheckpointPublicationRecord {
    /// Deterministic payload bytes: the fields in declaration order.
    pub open spec fn payload_spec(&self) -> Seq<u8> {
        self.checkpoint_id@
            + self.checkpoint_digest@
    }

    /// The payload is 64 bytes, each field at its fixed offset.
    pub proof fn lemma_layout(&self)
        ensures
            self.payload_spec().len() == 64,
            self.payload_spec().subrange(0, 32) == self.checkpoint_id@,
            self.payload_spec().subrange(32, 64) == self.checkpoint_digest@,
    {
        lemma_auto_spec_u64_to_from_le_bytes();
        lemma_auto_spec_u16_to_from_le_bytes();
        assert(self.payload_spec().subrange(0, 32) =~= self.checkpoint_id@);
        assert(self.payload_spec().subrange(32, 64) =~= self.checkpoint_digest@);
    }

    /// Encodes the record as deterministic WAL payload bytes.
    pub fn to_payload_bytes(&self) -> (r: Vec<u8>)
        ensures
            r@ == self.payload_spec(),
    {
        let mut out: Vec<u8> = Vec::new();
        push_hash(&mut out, &self.checkpoint_id);
        push_hash(&mut out, &self.checkpoint_digest);
        assert(out@ =~= self.payload_spec());
        out
    }

    /// Decodes a deterministic payload: it succeeds exactly on the encoding of
    /// some record, and returns that record.
    pub fn from_payload_bytes(bytes: &[u8]) -> (r: Result<Self, WalDecodeError>)
        ensures
            r is Ok <==> exists|x: Self| #[trigger] x.payload_spec() == bytes@,
            r is Ok ==> r->Ok_0.payload_spec() == bytes@,
    {
        let mut c = ByteCursor::new(bytes);
        let ghost decodable = exists|x: Self| #[trigger] x.payload_spec() == bytes@;
        let checkpoint_id = match c.read_hash() { Some(v) => v, None => { proof { if decodable { let x = choose|x: Self| #[trigger] x.payload_spec() == bytes@; x.lemma_layout(); } } return Err(WalDecodeError::UnexpectedEof); } };
        let checkpoint_digest = match c.read_hash() { Some(v) => v, None => { proof { if decodable { let x = choose|x: Self| #[trigger] x.payload_spec() == bytes@; x.lemma_layout(); } } return Err(WalDecodeError::UnexpectedEof); } };
        if !c.at_end() {
            proof { if decodable { let x = choose|x: Self| #[trigger] x.payload_spec() == bytes@; x.lemma_layout(); } }
            return Err(WalDecodeError::TrailingBytes);
        }
        let r = CheckpointPublicationRecord { checkpoint_id, checkpoint_digest };
        proof {
            r.lemma_layout();
            lemma_auto_spec_u64_to_from_le_bytes();
            lemma_auto_spec_u16_to_from_le_bytes();
            assert(bytes@ =~= bytes@.subrange(0, 32) + bytes@.subrange(32, 64));
            assert(r.payload_spec() =~= bytes@);
        }
        Ok(r)
    }
}

/// Side-effect materialization intent recorded after committed authorization.
#[derive(Clone, Copy, Debug, PartialEq, Eq)]
pub struct MaterializationIntentRecord {
    /// Stable effect id.
    pub effect_id: crate::ident::Hash,
    /// Expected external artifact digest.
    pub expected_artifact_digest: crate::ident::Hash,
    /// Materialization intent digest.
    pub materialization_intent_digest: crate::ident::Hash,
    /// Idempotency token for replay.
    pub idempotency_token: crate::ident::Hash,
    /// Target metadata digest.
    pub target_metadata_digest: crate::ident::Hash,
}

impl MaterializationIntentRecord {
    /// Deterministic payload bytes: the fields in declaration order.
    pub open spec fn payload_spec(&self) -> Seq<u8> {
        self.effect_id@
            + self.expected_artifact_digest@
            + self.materialization_intent_digest@
            + self.idempotency_token@
            + self.target_metadata_digest@
    }

    /// The payload is 160 bytes, each field at its fixed offset.
    pub proof fn lemma_layout(&self)
        ensures
            self.payload_spec().len() == 160,
            self.payload_spec().subrange(0, 32) == self.effect_id@,
            self.payload_spec().subrange(32, 64) == self.expected_artifact_digest@,
            self.payload_spec().subrange(64, 96) == self.materialization_intent_digest@,
            self.payload_spec().subrange(96, 128) == self.idempotency_token@,
            self.payload_spec().subrange(128, 160) == self.target_metadata_digest@,
    {
        lemma_auto_spec_u64_to_from_le_bytes();
        lemma_auto_spec_u16_to_from_le_bytes();
        assert(self.payload_spec().subrange(0, 32) =~= self.effect_id@);
        assert(self.payload_spec().subrange(32, 64) =~= self.expected_artifact_digest@);
        assert(self.payload_spec().subrange(64, 96) =~= self.materialization_intent_digest@);
        assert(self.payload_spec().subrange(96, 128) =~= self.idempotency_token@);
        assert(self.payload_spec().subrange(128, 160) =~= self.target_metadata_digest@);
    }

    /// Encodes the record as deterministic WAL payload bytes.
    pub fn to_payload_bytes(&self) -> (r: Vec<u8>)
        ensures
            r@ == self.payload_spec(),
    {
        let mut out: Vec<u8> = Vec::new();
        push_hash(&mut out, &self.effect_id);
        push_hash(&mut out, &self.expected_artifact_digest);
        push_hash(&mut out, &self.materialization_intent_digest);
        push_hash(&mut out, &self.idempotency_token);
        push_hash(&mut out, &self.target_metadata_digest);
        assert(out@ =~= self.payload_spec());
        out
    }

    /// Decodes a deterministic payload: it succeeds exactly on the encoding of
    /// some record, and returns that record.
    pub fn from_payload_bytes(bytes: &[u8]) -> (r: Result<Self, WalDecodeError>)
        ensures
            r is Ok <==> exists|x: Self| #[trigger] x.payload_spec() == bytes@,
            r is Ok ==> r->Ok_0.payload_spec() == bytes@,
    {
        let mut c = ByteCursor::new(bytes);
        let ghost decodable = exists|x: Self| #[trigger] x.payload_spec() == bytes@;
        let effect_id = match c.read_hash() { Some(v) => v, None => { proof { if decodable { let x = choose|x: Self| #[trigger] x.payload_spec() == bytes@; x.lemma_layout(); } } return Err(WalDecodeError::UnexpectedEof); } };
        let expected_artifact_digest = match c.read_hash() { Some(v) => v, None => { proof { if decodable { let x = choose|x: Self| #[trigger] x.payload_spec() == bytes@; x.lemma_layout(); } } return Err(WalDecodeError::UnexpectedEof); } };
        let materialization_intent_digest = match c.read_hash() { Some(v) => v, None => { proof { if decodable { let x = choose|x: Self| #[trigger] x.payload_spec() == bytes@; x.lemma_layout(); } } return Err(WalDecodeError::UnexpectedEof); } };
        let idempotency_token = match c.read_hash() { Some(v) => v, None => { proof { if decodable { let x = choose|x: Self| #[trigger] x.payload_spec() == bytes@; x.lemma_layout(); } } return Err(WalDecodeError::UnexpectedEof); } };
        let target_metadata_digest = match c.read_hash() { Some(v) => v, None => { proof { if decodable { let x = choose|x: Self| #[trigger] x.payload_spec() == bytes@; x.lemma_layout(); } } return Err(WalDecodeError::UnexpectedEof); } };
        if !c.at_end() {
            proof { if decodable { let x = choose|x: Self| #[trigger] x.payload_spec() == bytes@; x.lemma_layout(); } }
            return Err(WalDecodeError::TrailingBytes);
        }
        let r = MaterializationIntentRecord { effect_id, expected_artifact_digest, materialization_intent_digest, idempotency_token, target_metadata_digest };
        proof {
            r.lemma_layout();
            lemma_auto_spec_u64_to_from_le_bytes();
            lemma_auto_spec_u16_to_from_le_bytes();
            assert(bytes@ =~= bytes@.subrange(0, 32) + bytes@.subrange(32, 64) + bytes@.subrange(64, 96) + bytes@.subrange(96, 128) + bytes@.subrange(128, 160));
            assert(r.payload_spec() =~= bytes@);
        }
        Ok(r)
    }
}

/// Side-effect materialization observation recorded after external effect verification.
#[derive(Clone, Copy, Debug, PartialEq, Eq)]
pub struct MaterializationObservationRecord {
    /// Stable effect id.
    pub effect_id: crate::ident::Hash,
    /// Observed external artifact digest.
    pub observed_artifact_digest: crate::ident::Hash,
    /// Observed metadata digest.
    pub observed_metadata_digest: crate::ident::Hash,
}

impl MaterializationObservationRecord {
    /// Deterministic payload bytes: the fields in declaration order.
    pub open spec fn payload_spec(&self) -> Seq<u8> {
        self.effect_id@
            + self.observed_artifact_digest@
            + self.observed_metadata_digest@
    }

    /// The payload is 96 bytes, each field at its fixed offset.
    pub proof fn lemma_layout(&self)
        ensures
            self.payload_spec().len() == 96,
            self.payload_spec().subrange(0, 32) == self.effect_id@,
            self.payload_spec().subrange(32, 64) == self.observed_artifact_digest@,
            self.payload_spec().subrange(64, 96) == self.observed_metadata_digest@,
    {
        lemma_auto_spec_u64_to_from_le_bytes();
        lemma_auto_spec_u16_to_from_le_bytes();
        assert(self.payload_spec().subrange(0, 32) =~= self.effect_id@);
        assert(self.payload_spec().subrange(32, 64) =~= self.observed_artifact_digest@);
        assert(self.payload_spec().subrange(64, 96) =~= self.observed_metadata_digest@);
    }

    /// Encodes the record as deterministic WAL payload bytes.
    pub fn to_payload_bytes(&self) -> (r: Vec<u8>)
        ensures
            r@ == self.payload_spec(),
    {
        let mut out: Vec<u8> = Vec::new();
        push_hash(&mut out, &self.effect_id);
        push_hash(&mut out, &self.observed_artifact_digest);
        push_hash(&mut out, &self.observed_metadata_digest);
        assert(out@ =~= self.payload_spec());
        out
    }

    /// Decodes a deterministic payload: it succeeds exactly on the encoding of
    /// some record, and returns that record.
    pub fn from_payload_bytes(bytes: &[u8]) -> (r: Result<Self, WalDecodeError>)
        ensures
            r is Ok <==> exists|x: Self| #[trigger] x.payload_spec() == bytes@,
            r is Ok ==> r->Ok_0.payload_spec() == bytes@,
    {
        let mut c = ByteCursor::new(bytes);
        let ghost decodable = exists|x: Self| #[trigger] x.payload_spec() == bytes@;
        let effect_id = match c.read_hash() { Some(v) => v, None => { proof { if decodable { let x = choose|x: Self| #[trigger] x.payload_spec() == bytes@; x.lemma_layout(); } } return Err(WalDecodeError::UnexpectedEof); } };
        let observed_artifact_digest = match c.read_hash() { Some(v) => v, None => { proof { if decodable { let x = choose|x: Self| #[trigger] x.payload_spec() == bytes@; x.lemma_layout(); } } return Err(WalDecodeError::UnexpectedEof); } };
        let observed_metadata_digest = match c.read_hash() { Some(v) => v, None => { proof { if decodable { let x = choose|x: Self| #[trigger] x.payload_spec() == bytes@; x.lemma_layout(); } } return Err(WalDecodeError::UnexpectedEof); } };
        if !c.at_end() {
            proof { if decodable { let x = choose|x: Self| #[trigger] x.payload_spec() == bytes@; x.lemma_layout(); } }
            return Err(WalDecodeError::TrailingBytes);
        }
        let r = MaterializationObservationRecord { effect_id, observed_artifact_digest, observed_metadata_digest };
        proof {
            r.lemma_layout();
            lemma_auto_spec_u64_to_from_le_bytes();
            lemma_auto_spec_u16_to_from_le_bytes();
            assert(bytes@ =~= bytes@.subrange(0, 32) + bytes@.subrange(32, 64) + bytes@.subrange(64, 96));
            assert(r.payload_spec() =~= bytes@);
        }
        Ok(r)
    }
}

/// Existing external artifact evidence used for idempotent outbox replay.
#[derive(Clone, Copy, Debug, PartialEq, Eq)]
pub struct ExistingMaterializedArtifact {
    /// Stable effect id.
    pub effect_id: crate::ident::Hash,
    /// Existing artifact digest.
    pub artifact_digest: crate::ident::Hash,
    /// Existing metadata digest.
    pub metadata_digest: crate::ident::Hash,
}

/// Materialization replay posture.
#[derive(Clone, Copy, Debug, PartialEq, Eq, Structural)]
pub enum MaterializationReplayPosture {
    /// Effect is authorized but not observed.
    Pending,
    /// Effect has a committed observation.
    AlreadyObserved,
    /// External artifact already matches the authorized effect.
    ExistingArtifactMatches,
    /// External artifact exists but does not match authorization.
    Obstructed,
}

/// Recovered submission posture.
#[derive(Clone, Copy, Debug, PartialEq, Eq, Structural)]
pub enum RecoveredSubmissionPosture {
    /// Submission was accepted and has no committed decision yet.
    AcceptedPending,
    /// Submission was decided as applied.
    DecidedApplied,
    /// Submission was lawfully rejected.
    DecidedRejected,
    /// Submission is obstructed.
    Obstructed,
    /// Recovery found a fault for this submission.
    RecoveryFaulted,
}

impl RecoveredSubmissionPosture {
    /// Stable persisted code of the variant.
    pub open spec fn code_spec(self) -> u8 {
        match self {
            RecoveredSubmissionPosture::AcceptedPending => 1u8,
            RecoveredSubmissionPosture::DecidedApplied => 2u8,
            RecoveredSubmissionPosture::DecidedRejected => 3u8,
            RecoveredSubmissionPosture::Obstructed => 4u8,
            RecoveredSubmissionPosture::RecoveryFaulted => 5u8,
        }
    }

    /// The variant persisted under `code`, if any.
    pub open spec fn from_code_spec(code: u8) -> Option<Self> {
        if code == 1u8 {
            Some(RecoveredSubmissionPosture::AcceptedPending)
        } else if code == 2u8 {
            Some(RecoveredSubmissionPosture::DecidedApplied)
        } else if code == 3u8 {
            Some(RecoveredSubmissionPosture::DecidedRejected)
        } else if code == 4u8 {
            Some(RecoveredSubmissionPosture::Obstructed)
        } else if code == 5u8 {
            Some(RecoveredSubmissionPosture::RecoveryFaulted)
        } else {
            None
        }
    }

    /// Returns the stable persisted code.
    pub fn stable_code(self) -> (r: u8)
        ensures
            r == self.code_spec(),
    {
        match self {
            RecoveredSubmissionPosture::AcceptedPending => 1,
            RecoveredSubmissionPosture::DecidedApplied => 2,
            RecoveredSubmissionPosture::DecidedRejected => 3,
            RecoveredSubmissionPosture::Obstructed => 4,
            RecoveredSubmissionPosture::RecoveryFaulted => 5,
        }
    }

    /// Decodes a persisted code.
    pub fn from_code(code: u8) -> (r: Result<Self, WalDecodeError>)
        ensures
            r == (match Self::from_code_spec(code) {
                Some(k) => Ok::<Self, WalDecodeError>(k),
                None => Err(WalDecodeError::UnknownEnumCode { enum_name: "RecoveredSubmissionPosture", code }),
            }),
    {
        if code == 1 {
            Ok(RecoveredSubmissionPosture::AcceptedPending)
        } else if code == 2 {
            Ok(RecoveredSubmissionPosture::DecidedApplied)
        } else if code == 3 {
            Ok(RecoveredSubmissionPosture::DecidedRejected)
        } else if code == 4 {
            Ok(RecoveredSubmissionPosture::Obstructed)
        } else if code == 5 {
            Ok(RecoveredSubmissionPosture::RecoveryFaulted)
        } else {
            Err(WalDecodeError::UnknownEnumCode { enum_name: "RecoveredSubmissionPosture", code })
        }
    }

    /// Decoding a code gives the variant persisted under it, and back.
    pub proof fn lemma_code_round_trip(self)
        ensures
            Self::from_code_spec(self.code_spec()) == Some(self),
    {
    }

    /// A code that decodes is the code of the variant it decodes to.
    pub proof fn lemma_from_code_inverse(code: u8)
        ensures
            Self::from_code_spec(code) matches Some(k) ==> k.code_spec() == code,
    {
    }
}

/// Retry posture for a submitted id/envelope pair after recovery.
#[derive(Clone, Copy, Debug, PartialEq, Eq, Structural)]
pub enum SubmissionRetryPosture {
    /// No recovered acceptance exists for this submission id.
    NotAccepted,
    /// Same id and envelope recovered as accepted pending.
    AlreadyAcceptedPending,
    /// Same id and envelope recovered as decided applied.
    AlreadyDecidedApplied,
    /// Same id and envelope recovered as decided rejected.
    AlreadyDecidedRejected,
    /// Same id and envelope recovered as obstructed.
    AlreadyObstructed,
    /// Same id recovered with a different canonical envelope digest.
    ConflictSameIdDifferentEnvelope,
    /// New id with the same envelope: a new submission unless an explicit dedupe policy says otherwise.
    NewSubmissionWithoutPolicyDedupe,
}

/// Checkpoint validation posture.
#[derive(Clone, Copy, Debug, PartialEq, Eq, Structural)]
pub enum CheckpointValidationPosture {
    /// Checkpoint validates and no publication record is required for use.
    UsableWithoutPublicationRecord,
    /// Checkpoint validates and publication evidence matches.
    PublishedAndUsable,
    /// Publication evidence exists but checkpoint material is missing.
    PublishedCheckpointMaterialMissing,
    /// Checkpoint does not validate against recovered WAL.
    Invalid,
}

/// Outcome family of a witnessed suffix import.
#[derive(Clone, Copy, Debug, PartialEq, Eq, Structural)]
pub enum TopologyImportOutcomeKind {
    /// The import lowered to one derived result.
    Derived,
    /// The import retained lawful plurality.
    Plural,
    /// The import produced conflict residue.
    Conflict,
    /// The import was obstructed before admission completed.
    Obstruction,
}

impl TopologyImportOutcomeKind {
    /// Stable persisted code of the variant.
    pub open spec fn code_spec(self) -> u8 {
        match self {
            TopologyImportOutcomeKind::Derived => 1u8,
            TopologyImportOutcomeKind::Plural => 2u8,
            TopologyImportOutcomeKind::Conflict => 3u8,
            TopologyImportOutcomeKind::Obstruction => 4u8,
        }
    }

    /// The variant persisted under `code`, if any.
    pub open spec fn from_code_spec(code: u8) -> Option<Self> {
        if code == 1u8 {
            Some(TopologyImportOutcomeKind::Derived)
        } else if code == 2u8 {
            Some(TopologyImportOutcomeKind::Plural)
        } else if code == 3u8 {
            Some(TopologyImportOutcomeKind::Conflict)
        } else if code == 4u8 {
            Some(TopologyImportOutcomeKind::Obstruction)
        } else {
            None
        }
    }

    /// Returns the stable persisted code.
    pub fn stable_code(self) -> (r: u8)
        ensures
            r == self.code_spec(),
    {
        match self {
            TopologyImportOutcomeKind::Derived => 1,
            TopologyImportOutcomeKind::Plural => 2,
            TopologyImportOutcomeKind::Conflict => 3,
            TopologyImportOutcomeKind::Obstruction => 4,
        }
    }

    /// Decodes a persisted code.
    pub fn from_code(code: u8) -> (r: Result<Self, WalDecodeError>)
        ensures
            r == (match Self::from_code_spec(code) {
                Some(k) => Ok::<Self, WalDecodeError>(k),
                None => Err(WalDecodeError::UnknownEnumCode { enum_name: "TopologyImportOutcomeKind", code }),
            }),
    {
        if code == 1 {
            Ok(TopologyImportOutcomeKind::Derived)
        } else if code == 2 {
            Ok(TopologyImportOutcomeKind::Plural)
        } else if code == 3 {
            Ok(TopologyImportOutcomeKind::Conflict)
        } else if code == 4 {
            Ok(TopologyImportOutcomeKind::Obstruction)
        } else {
            Err(WalDecodeError::UnknownEnumCode { enum_name: "TopologyImportOutcomeKind", code })
        }
    }

    /// Decoding a code gives the variant persisted under it, and back.
    pub proof fn lemma_code_round_trip(self)
        ensures
            Self::from_code_spec(self.code_spec()) == Some(self),
    {
    }

    /// A code that decodes is the code of the variant it decodes to.
    pub proof fn lemma_from_code_inverse(code: u8)
        ensures
            Self::from_code_spec(code) matches Some(k) ==> k.code_spec() == code,
    {
    }
}

/// Retained material obstruction.
#[derive(Clone, Copy, Debug, PartialEq, Eq)]
pub struct RetainedMaterialObstruction {
    /// Missing or obstructed material digest.
    pub material_digest: crate::ident::Hash,
    /// Material kind.
    pub kind: RetainedMaterialKind,
    /// Recovery scope.
    pub scope: MissingMaterialScope,
    /// Evidence posture.
    pub posture: EvidenceMaterialPosture,
}

/// Recovery certificate produced after WAL recovery.
#[derive(Clone, Copy, Debug, PartialEq, Eq)]
pub struct RecoveryCertificate {
    /// Checkpoint digest used as replay base, if any.
    pub checkpoint_used: Option<crate::ident::Hash>,
    /// First scanned committed LSN.
    pub first_lsn: Option<Lsn>,
    /// Last scanned committed LSN.
    pub last_lsn: Option<Lsn>,
    /// Number of committed transactions replayed.
    pub committed_transactions_replayed: u64,
    /// Tail posture.
    pub tail_posture: RecoveryTailPosture,
    /// Obstruction count.
    pub obstruction_count: u64,
    /// Final frontier root.
    pub recovered_frontier_root: crate::ident::Hash,
    /// Final index root.
    pub recovered_indexes_root: crate::ident::Hash,
}

/// WAL submission acceptance record payload.
#[derive(Clone, Copy, Debug, PartialEq, Eq)]
pub struct SubmissionAcceptanceRecord {
    /// Stable submission id.
    pub submission_id: crate::ident::Hash,
    /// Canonical envelope digest accepted by Echo.
    pub canonical_envelope_digest: crate::ident::Hash,
    /// Optional explicit idempotency/dedupe key.
    pub idempotency_key_digest: Option<crate::ident::Hash>,
    /// Acceptance evidence digest returned to the caller after durable commit.
    pub acceptance_evidence_digest: crate::ident::Hash,
}

impl SubmissionAcceptanceRecord {
    /// Deterministic payload bytes: submission id, envelope digest, optional
    /// idempotency key (tag then digest), acceptance evidence digest.
    pub open spec fn payload_spec(&self) -> Seq<u8> {
        self.submission_id@ + self.canonical_envelope_digest@ + optional_hash_bytes(self.idempotency_key_digest)
            + self.acceptance_evidence_digest@
    }

    /// Encodes the record as deterministic WAL payload bytes.
    pub fn to_payload_bytes(&self) -> (r: Vec<u8>)
        ensures
            r@ == self.payload_spec(),
    {
        let mut out: Vec<u8> = Vec::new();
        push_hash(&mut out, &self.submission_id);
        push_hash(&mut out, &self.canonical_envelope_digest);
        push_optional_hash(&mut out, self.idempotency_key_digest);
        push_hash(&mut out, &self.acceptance_evidence_digest);
        assert(out@ =~= self.payload_spec());
        out
    }

    /// The payload layout: both ids, the optional key (a tag byte, then the
    /// digest when present), then the evidence digest.
    pub proof fn lemma_layout(&self)
        ensures
            self.payload_spec().subrange(0, 32) == self.submission_id@,
            self.payload_spec().subrange(32, 64) == self.canonical_envelope_digest@,
            self.idempotency_key_digest is None ==> self.payload_spec().len() == 97 && self.payload_spec()[64] == 0u8
                && self.payload_spec().subrange(65, 97) == self.acceptance_evidence_digest@,
            self.idempotency_key_digest matches Some(d) ==> self.payload_spec().len() == 129 && self.payload_spec()[64]
                == 1u8 && self.payload_spec().subrange(65, 97) == d@ && self.payload_spec().subrange(97, 129)
                == self.acceptance_evidence_digest@,
    {
        let b = self.payload_spec();
        assert(b.subrange(0, 32) =~= self.submission_id@);
        assert(b.subrange(32, 64) =~= self.canonical_envelope_digest@);
        match self.idempotency_key_digest {
            None => {
                assert(b.subrange(65, 97) =~= self.acceptance_evidence_digest@);
            },
            Some(d) => {
                assert(b.subrange(65, 97) =~= d@);
                assert(b.subrange(97, 129) =~= self.acceptance_evidence_digest@);
            },
        }
    }

    /// Decodes a deterministic submission acceptance payload: it succeeds
    /// exactly on the encoding of some record, and returns that record.
    pub fn from_payload_bytes(bytes: &[u8]) -> (r: Result<Self, WalDecodeError>)
        ensures
            r is Ok <==> exists|x: Self| #[trigger] x.payload_spec() == bytes@,
            r is Ok ==> r->Ok_0.payload_spec() == bytes@,
    {
        let ghost decodable = exists|x: Self| #[trigger] x.payload_spec() == bytes@;
        let mut c = ByteCursor::new(bytes);
        let submission_id = match c.read_hash() { Some(v) => v, None => { proof { if decodable { let x = choose|x: Self| #[trigger] x.payload_spec() == bytes@; x.lemma_layout(); } } return Err(WalDecodeError::UnexpectedEof); } };
        let canonical_envelope_digest = match c.read_hash() { Some(v) => v, None => { proof { if decodable { let x = choose|x: Self| #[trigger] x.payload_spec() == bytes@; x.lemma_layout(); } } return Err(WalDecodeError::UnexpectedEof); } };
        let tag = match c.read_u8() { Some(v) => v, None => { proof { if decodable { let x = choose|x: Self| #[trigger] x.payload_spec() == bytes@; x.lemma_layout(); } } return Err(WalDecodeError::UnexpectedEof); } };
        let idempotency_key_digest = if tag == 0 {
            None
        } else if tag == 1 {
            match c.read_hash() { Some(v) => Some(v), None => { proof { if decodable { let x = choose|x: Self| #[trigger] x.payload_spec() == bytes@; x.lemma_layout(); } } return Err(WalDecodeError::UnexpectedEof); } }
        } else {
            proof { if decodable { let x = choose|x: Self| #[trigger] x.payload_spec() == bytes@; x.lemma_layout(); } }
            return Err(WalDecodeError::UnknownEnumCode { enum_name: "Option<Hash>", code: tag });
        };
        let p = c.pos;
        let acceptance_evidence_digest = match c.read_hash() { Some(v) => v, None => { proof { if decodable { let x = choose|x: Self| #[trigger] x.payload_spec() == bytes@; x.lemma_layout(); } } return Err(WalDecodeError::UnexpectedEof); } };
        if !c.at_end() {
            proof { if decodable { let x = choose|x: Self| #[trigger] x.payload_spec() == bytes@; x.lemma_layout(); } }
            return Err(WalDecodeError::TrailingBytes);
        }
        let r = SubmissionAcceptanceRecord { submission_id, canonical_envelope_digest, idempotency_key_digest, acceptance_evidence_digest };
        proof {
            let b = bytes@;
            assert(b =~= b.subrange(0, 32) + b.subrange(32, 64) + b.subrange(64, p as int) + b.subrange(p as int, p + 32));
            assert(optional_hash_bytes(idempotency_key_digest) =~= b.subrange(64, p as int));
            assert(r.payload_spec() =~= b);
        }
        Ok(r)
    }
}

} // verus!
