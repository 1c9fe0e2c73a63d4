//! Persisted enumerations of the causal WAL and their stable codes.
use vstd::prelude::*;
use vstd::string::*;
use vstd::utf8::encode_utf8;
use crate::causal_wal::lint::{bytes_contain, contains_bytes};
use crate::causal_wal::WalDecodeError;

verus! {

/// Configured durability mode for a WAL transaction.
#[derive(Clone, Copy, Debug, PartialEq, Eq, Structural)]
pub enum WalDurabilityMode {
    /// File and directory sync semantics satisfy the ACK contract.
    StrictFilesystem,
    /// Object and manifest commit semantics satisfy the ACK contract.
    StrictObjectStore,
    /// Development or test mode only; not release durability.
    Buffered,
    /// Recover and inspect without appending or truncating.
    ReadOnlyRecovery,
    /// Process-local mode with no durable causal-history claim.
    Disabled,
}

impl WalDurabilityMode {
    /// Stable persisted code of the variant.
    pub open spec fn code_spec(self) -> u8 {
        match self {
            WalDurabilityMode::StrictFilesystem => 1u8,
            WalDurabilityMode::StrictObjectStore => 2u8,
            WalDurabilityMode::Buffered => 3u8,
            WalDurabilityMode::ReadOnlyRecovery => 4u8,
            WalDurabilityMode::Disabled => 5u8,
        }
    }

    /// The variant persisted under `code`, if any.
    pub open spec fn from_code_spec(code: u8) -> Option<Self> {
        if code == 1u8 {
            Some(WalDurabilityMode::StrictFilesystem)
        } else if code == 2u8 {
            Some(WalDurabilityMode::StrictObjectStore)
        } else if code == 3u8 {
            Some(WalDurabilityMode::Buffered)
        } else if code == 4u8 {
            Some(WalDurabilityMode::ReadOnlyRecovery)
        } else if code == 5u8 {
            Some(WalDurabilityMode::Disabled)
        } else {
            None
        }
    }

    /// Returns the stable persisted code.
    pub fn stable_code(self) -> (r: u8)
        ensures
            r == self.code_spec(),
    {
        match self {
            WalDurabilityMode::StrictFilesystem => 1,
            WalDurabilityMode::StrictObjectStore => 2,
            WalDurabilityMode::Buffered => 3,
            WalDurabilityMode::ReadOnlyRecovery => 4,
            WalDurabilityMode::Disabled => 5,
        }
    }

    /// Decodes a persisted code.
    pub fn from_code(code: u8) -> (r: Result<Self, WalDecodeError>)
        ensures
            r == (match Self::from_code_spec(code) {
                Some(k) => Ok::<Self, WalDecodeError>(k),
                None => Err(WalDecodeError::UnknownEnumCode { enum_name: "WalDurabilityMode", code }),
            }),
    {
        if code == 1 {
            Ok(WalDurabilityMode::StrictFilesystem)
        } else if code == 2 {
            Ok(WalDurabilityMode::StrictObjectStore)
        } else if code == 3 {
            Ok(WalDurabilityMode::Buffered)
        } else if code == 4 {
            Ok(WalDurabilityMode::ReadOnlyRecovery)
        } else if code == 5 {
            Ok(WalDurabilityMode::Disabled)
        } else {
            Err(WalDecodeError::UnknownEnumCode { enum_name: "WalDurabilityMode", code })
        }
    }

    /// Decoding a variant's persisted code gives the variant back, and
    /// distinct variants have distinct codes.
    pub proof fn lemma_code_round_trip(self)
        ensures
            Self::from_code_spec(self.code_spec()) == Some(self),
    {
    }
}

/// Authority plane allowed to record a WAL fact.
#[derive(Clone, Copy, Debug, PartialEq, Eq, Structural)]
pub enum WalAppendAuthority {
    /// Echo submission-intake authority.
    SubmissionIntake,
    /// Trusted scheduler/runtime authority.
    TrustedScheduler,
    /// Trusted runtime-control authority.
    RuntimeControl,
    /// Recovery authority.
    Recovery,
    /// Trusted causal-anchor admission kernel.
    AdmissionKernel,
}

/// Transaction kind.
#[derive(Clone, Copy, Debug, PartialEq, Eq, Structural)]
pub enum WalTransactionKind {
    /// Submission intake acceptance.
    SubmissionIntake,
    /// Scheduler-owned tick transaction.
    SchedulerTick,
    /// Runtime posture or control transaction.
    RuntimePosture,
    /// Checkpoint publication evidence.
    Checkpoint,
    /// Side-effect outbox transaction.
    MaterializationOutbox,
    /// Topology-changing strand, braid, or suffix-import intent evidence.
    TopologyIntent,
    /// Causal-anchor admission by the trusted admission kernel.
    CausalAnchorAdmission,
}

impl WalTransactionKind {
    /// Stable persisted code of the variant.
    pub open spec fn code_spec(self) -> u8 {
        match self {
            WalTransactionKind::SubmissionIntake => 1u8,
            WalTransactionKind::SchedulerTick => 2u8,
            WalTransactionKind::RuntimePosture => 3u8,
            WalTransactionKind::Checkpoint => 4u8,
            WalTransactionKind::MaterializationOutbox => 5u8,
            WalTransactionKind::TopologyIntent => 6u8,
            WalTransactionKind::CausalAnchorAdmission => 7u8,
        }
    }

    /// The variant persisted under `code`, if any.
    pub open spec fn from_code_spec(code: u8) -> Option<Self> {
        if code == 1u8 {
            Some(WalTransactionKind::SubmissionIntake)
        } else if code == 2u8 {
            Some(WalTransactionKind::SchedulerTick)
        } else if code == 3u8 {
            Some(WalTransactionKind::RuntimePosture)
        } else if code == 4u8 {
            Some(WalTransactionKind::Checkpoint)
        } else if code == 5u8 {
            Some(WalTransactionKind::MaterializationOutbox)
        } else if code == 6u8 {
            Some(WalTransactionKind::TopologyIntent)
        } else if code == 7u8 {
            Some(WalTransactionKind::CausalAnchorAdmission)
        } else {
            None
        }
    }

    /// Returns the stable persisted code.
    pub fn stable_code(self) -> (r: u8)
        ensures
            r == self.code_spec(),
    {
        match self {
            WalTransactionKind::SubmissionIntake => 1,
            WalTransactionKind::SchedulerTick => 2,
            WalTransactionKind::RuntimePosture => 3,
            WalTransactionKind::Checkpoint => 4,
            WalTransactionKind::MaterializationOutbox => 5,
            WalTransactionKind::TopologyIntent => 6,
            WalTransactionKind::CausalAnchorAdmission => 7,
        }
    }

    /// Decodes a persisted code.
    pub fn from_code(code: u8) -> (r: Result<Self, WalDecodeError>)
        ensures
            r == (match Self::from_code_spec(code) {
                Some(k) => Ok::<Self, WalDecodeError>(k),
                None => Err(WalDecodeError::UnknownEnumCode { enum_name: "WalTransactionKind", code }),
            }),
    {
        if code == 1 {
            Ok(WalTransactionKind::SubmissionIntake)
        } else if code == 2 {
            Ok(WalTransactionKind::SchedulerTick)
        } else if code == 3 {
            Ok(WalTransactionKind::RuntimePosture)
        } else if code == 4 {
            Ok(WalTransactionKind::Checkpoint)
        } else if code == 5 {
            Ok(WalTransactionKind::MaterializationOutbox)
        } else if code == 6 {
            Ok(WalTransactionKind::TopologyIntent)
        } else if code == 7 {
            Ok(WalTransactionKind::CausalAnchorAdmission)
        } else {
            Err(WalDecodeError::UnknownEnumCode { enum_name: "WalTransactionKind", code })
        }
    }

    /// Decoding a variant's persisted code gives the variant back, and
    /// distinct variants have distinct codes.
    pub proof fn lemma_code_round_trip(self)
        ensures
            Self::from_code_spec(self.code_spec()) == Some(self),
    {
    }

    /// Append authority required for records of this transaction kind.
    pub open spec fn required_authority_spec(self) -> WalAppendAuthority {
        match self {
            WalTransactionKind::SubmissionIntake => WalAppendAuthority::SubmissionIntake,
            WalTransactionKind::SchedulerTick => WalAppendAuthority::TrustedScheduler,
            WalTransactionKind::MaterializationOutbox => WalAppendAuthority::TrustedScheduler,
            WalTransactionKind::TopologyIntent => WalAppendAuthority::TrustedScheduler,
            WalTransactionKind::RuntimePosture => WalAppendAuthority::RuntimeControl,
            WalTransactionKind::Checkpoint => WalAppendAuthority::Recovery,
            WalTransactionKind::CausalAnchorAdmission => WalAppendAuthority::AdmissionKernel,
        }
    }

    /// Returns the append authority required for records of this transaction kind.
    pub fn required_authority(self) -> (r: WalAppendAuthority)
        ensures
            r == self.required_authority_spec(),
    {
        match self {
            WalTransactionKind::SubmissionIntake => WalAppendAuthority::SubmissionIntake,
            WalTransactionKind::SchedulerTick => WalAppendAuthority::TrustedScheduler,
            WalTransactionKind::MaterializationOutbox => WalAppendAuthority::TrustedScheduler,
            WalTransactionKind::TopologyIntent => WalAppendAuthority::TrustedScheduler,
            WalTransactionKind::RuntimePosture => WalAppendAuthority::RuntimeControl,
            WalTransactionKind::Checkpoint => WalAppendAuthority::Recovery,
            WalTransactionKind::CausalAnchorAdmission => WalAppendAuthority::AdmissionKernel,
        }
    }

    /// Frontier families a transaction of this kind may transition.
    pub open spec fn allows_frontier(self, frontier: AffectedFrontierKind) -> bool {
        match self {
            WalTransactionKind::SubmissionIntake => frontier == AffectedFrontierKind::SubmissionQueue,
            WalTransactionKind::SchedulerTick => frontier == AffectedFrontierKind::RuntimeState
                || frontier == AffectedFrontierKind::ReceiptIndex
                || frontier == AffectedFrontierKind::ReadingIndex,
            WalTransactionKind::RuntimePosture => frontier == AffectedFrontierKind::RuntimeControl,
            WalTransactionKind::Checkpoint => frontier == AffectedFrontierKind::CheckpointIndex,
            WalTransactionKind::MaterializationOutbox => frontier == AffectedFrontierKind::ReceiptIndex,
            WalTransactionKind::TopologyIntent => frontier == AffectedFrontierKind::TopologyIndex,
            WalTransactionKind::CausalAnchorAdmission => frontier == AffectedFrontierKind::CausalAnchorIndex,
        }
    }

    /// Returns `true` when a transaction of this kind may transition `frontier`.
    pub fn frontier_kind_allowed(self, frontier: AffectedFrontierKind) -> (r: bool)
        ensures
            r == self.allows_frontier(frontier),
    {
        match self {
            WalTransactionKind::SubmissionIntake => frontier == AffectedFrontierKind::SubmissionQueue,
            WalTransactionKind::SchedulerTick => frontier == AffectedFrontierKind::RuntimeState
                || frontier == AffectedFrontierKind::ReceiptIndex
                || frontier == AffectedFrontierKind::ReadingIndex,
            WalTransactionKind::RuntimePosture => frontier == AffectedFrontierKind::RuntimeControl,
            WalTransactionKind::Checkpoint => frontier == AffectedFrontierKind::CheckpointIndex,
            WalTransactionKind::MaterializationOutbox => frontier == AffectedFrontierKind::ReceiptIndex,
            WalTransactionKind::TopologyIntent => frontier == AffectedFrontierKind::TopologyIndex,
            WalTransactionKind::CausalAnchorAdmission => frontier == AffectedFrontierKind::CausalAnchorIndex,
        }
    }
}

/// Causal WAL record kind.
#[derive(Clone, Copy, Debug, PartialEq, Eq, PartialOrd, Ord, Structural)]
pub enum WalRecordKind {
    /// Echo accepted a canonical submission into semantic ingress history.
    SubmissionAcceptedRecorded,
    /// Echo recorded submission acceptance evidence.
    SubmissionAcceptanceEvidenceRecorded,
    /// Trusted runtime recorded a law witness.
    RuntimeLawWitnessRecorded,
    /// Trusted runtime issued runtime admission-ticket evidence.
    RuntimeAdmissionTicketIssued,
    /// Trusted runtime recorded ticketed runtime ingress.
    TicketedRuntimeIngressRecorded,
    /// Trusted scheduler recorded a tick receipt.
    TickReceiptRecorded,
    /// Trusted scheduler recorded a runtime state delta.
    RuntimeStateDeltaRecorded,
    /// Trusted scheduler recorded receipt-correlation index material.
    ReceiptCorrelationRecorded,
    /// Runtime recorded a retained reading envelope reference.
    ReadingEnvelopeRetained,
    /// Runtime recorded a durable retained-material reference.
    RetainedMaterialRefRecorded,
    /// Runtime recorded scoped scheduler-fault quarantine posture.
    SchedulerFaultQuarantined,
    /// Trusted runtime recorded runtime-control posture.
    TrustedRuntimeControlRecorded,
    /// Runtime recorded checkpoint publication evidence.
    CheckpointPublicationRecorded,
    /// Runtime recorded side-effect materialization intent.
    MaterializationIntentRecorded,
    /// Runtime recorded side-effect materialization observation.
    MaterializationEffectObserved,
    /// Runtime recorded recovery posture.
    RecoveryPostureRecorded,
    /// Runtime recorded accepted strand fork topology evidence.
    TopologyStrandForkRecorded,
    /// Runtime recorded accepted strand drop topology evidence.
    TopologyStrandDropRecorded,
    /// Runtime recorded accepted braid lifecycle event evidence.
    TopologyBraidEventRecorded,
    /// Runtime recorded retained braid-shell topology evidence.
    TopologyBraidShellRetained,
    /// Runtime recorded witnessed suffix import topology evidence.
    TopologySuffixImportRecorded,
    /// The admission kernel recorded an admitted causal-anchor fact.
    CausalAnchorFactRecorded,
    /// The admission kernel recorded a causal-anchor admission receipt.
    CausalAnchorAdmissionReceiptRecorded,
}

impl WalRecordKind {
    /// Stable persisted code of the variant.
    pub open spec fn code_spec(self) -> u8 {
        match self {
            WalRecordKind::SubmissionAcceptedRecorded => 1u8,
            WalRecordKind::SubmissionAcceptanceEvidenceRecorded => 2u8,
            WalRecordKind::RuntimeLawWitnessRecorded => 3u8,
            WalRecordKind::RuntimeAdmissionTicketIssued => 4u8,
            WalRecordKind::TicketedRuntimeIngressRecorded => 5u8,
            WalRecordKind::TickReceiptRecorded => 6u8,
            WalRecordKind::RuntimeStateDeltaRecorded => 7u8,
            WalRecordKind::ReceiptCorrelationRecorded => 8u8,
            WalRecordKind::ReadingEnvelopeRetained => 9u8,
            WalRecordKind::RetainedMaterialRefRecorded => 10u8,
            WalRecordKind::SchedulerFaultQuarantined => 11u8,
            WalRecordKind::TrustedRuntimeControlRecorded => 12u8,
            WalRecordKind::CheckpointPublicationRecorded => 13u8,
            WalRecordKind::MaterializationIntentRecorded => 14u8,
            WalRecordKind::MaterializationEffectObserved => 15u8,
            WalRecordKind::RecoveryPostureRecorded => 16u8,
            WalRecordKind::TopologyStrandForkRecorded => 17u8,
            WalRecordKind::TopologyStrandDropRecorded => 18u8,
            WalRecordKind::TopologyBraidEventRecorded => 19u8,
            WalRecordKind::TopologyBraidShellRetained => 20u8,
            WalRecordKind::TopologySuffixImportRecorded => 21u8,
            WalRecordKind::CausalAnchorFactRecorded => 23u8,
            WalRecordKind::CausalAnchorAdmissionReceiptRecorded => 24u8,
        }
    }

    /// The variant persisted under `code`, if any.
    pub open spec fn from_code_spec(code: u8) -> Option<Self> {
        if code == 1u8 {
            Some(WalRecordKind::SubmissionAcceptedRecorded)
        } else if code == 2u8 {
            Some(WalRecordKind::SubmissionAcceptanceEvidenceRecorded)
        } else if code == 3u8 {
            Some(WalRecordKind::RuntimeLawWitnessRecorded)
        } else if code == 4u8 {
            Some(WalRecordKind::RuntimeAdmissionTicketIssued)
        } else if code == 5u8 {
            Some(WalRecordKind::TicketedRuntimeIngressRecorded)
        } else if code == 6u8 {
            Some(WalRecordKind::TickReceiptRecorded)
        } else if code == 7u8 {
            Some(WalRecordKind::RuntimeStateDeltaRecorded)
        } else if code == 8u8 {
            Some(WalRecordKind::ReceiptCorrelationRecorded)
        } else if code == 9u8 {
            Some(WalRecordKind::ReadingEnvelopeRetained)
        } else if code == 10u8 {
            Some(WalRecordKind::RetainedMaterialRefRecorded)
        } else if code == 11u8 {
            Some(WalRecordKind::SchedulerFaultQuarantined)
        } else if code == 12u8 {
            Some(WalRecordKind::TrustedRuntimeControlRecorded)
        } else if code == 13u8 {
            Some(WalRecordKind::CheckpointPublicationRecorded)
        } else if code == 14u8 {
            Some(WalRecordKind::MaterializationIntentRecorded)
        } else if code == 15u8 {
            Some(WalRecordKind::MaterializationEffectObserved)
        } else if code == 16u8 {
            Some(WalRecordKind::RecoveryPostureRecorded)
        } else if code == 17u8 {
            Some(WalRecordKind::TopologyStrandForkRecorded)
        } else if code == 18u8 {
            Some(WalRecordKind::TopologyStrandDropRecorded)
        } else if code == 19u8 {
            Some(WalRecordKind::TopologyBraidEventRecorded)
        } else if code == 20u8 {
            Some(WalRecordKind::TopologyBraidShellRetained)
        } else if code == 21u8 {
            Some(WalRecordKind::TopologySuffixImportRecorded)
        } else if code == 23u8 {
            Some(WalRecordKind::CausalAnchorFactRecorded)
        } else if code == 24u8 {
            Some(WalRecordKind::CausalAnchorAdmissionReceiptRecorded)
        } else {
            None
        }
    }

    /// Returns the stable persisted code.
    pub fn stable_code(self) -> (r: u8)
        ensures
            r == self.code_spec(),
    {
        match self {
            WalRecordKind::SubmissionAcceptedRecorded => 1,
            WalRecordKind::SubmissionAcceptanceEvidenceRecorded => 2,
            WalRecordKind::RuntimeLawWitnessRecorded => 3,
            WalRecordKind::RuntimeAdmissionTicketIssued => 4,
            WalRecordKind::TicketedRuntimeIngressRecorded => 5,
            WalRecordKind::TickReceiptRecorded => 6,
            WalRecordKind::RuntimeStateDeltaRecorded => 7,
            WalRecordKind::ReceiptCorrelationRecorded => 8,
            WalRecordKind::ReadingEnvelopeRetained => 9,
            WalRecordKind::RetainedMaterialRefRecorded => 10,
            WalRecordKind::SchedulerFaultQuarantined => 11,
            WalRecordKind::TrustedRuntimeControlRecorded => 12,
            WalRecordKind::CheckpointPublicationRecorded => 13,
            WalRecordKind::MaterializationIntentRecorded => 14,
            WalRecordKind::MaterializationEffectObserved => 15,
            WalRecordKind::RecoveryPostureRecorded => 16,
            WalRecordKind::TopologyStrandForkRecorded => 17,
            WalRecordKind::TopologyStrandDropRecorded => 18,
            WalRecordKind::TopologyBraidEventRecorded => 19,
            WalRecordKind::TopologyBraidShellRetained => 20,
            WalRecordKind::TopologySuffixImportRecorded => 21,
            WalRecordKind::CausalAnchorFactRecorded => 23,
            WalRecordKind::CausalAnchorAdmissionReceiptRecorded => 24,
        }
    }

    /// Decodes a persisted code.
    pub fn from_code(code: u8) -> (r: Result<Self, WalDecodeError>)
        ensures
            r == (match Self::from_code_spec(code) {
                Some(k) => Ok::<Self, WalDecodeError>(k),
                None => Err(WalDecodeError::UnknownEnumCode { enum_name: "WalRecordKind", code }),
            }),
    {
        if code == 1 {
            Ok(WalRecordKind::SubmissionAcceptedRecorded)
        } else if code == 2 {
            Ok(WalRecordKind::SubmissionAcceptanceEvidenceRecorded)
        } else if code == 3 {
            Ok(WalRecordKind::RuntimeLawWitnessRecorded)
        } else if code == 4 {
            Ok(WalRecordKind::RuntimeAdmissionTicketIssued)
        } else if code == 5 {
            Ok(WalRecordKind::TicketedRuntimeIngressRecorded)
        } else if code == 6 {
            Ok(WalRecordKind::TickReceiptRecorded)
        } else if code == 7 {
            Ok(WalRecordKind::RuntimeStateDeltaRecorded)
        } else if code == 8 {
            Ok(WalRecordKind::ReceiptCorrelationRecorded)
        } else if code == 9 {
            Ok(WalRecordKind::ReadingEnvelopeRetained)
        } else if code == 10 {
            Ok(WalRecordKind::RetainedMaterialRefRecorded)
        } else if code == 11 {
            Ok(WalRecordKind::SchedulerFaultQuarantined)
        } else if code == 12 {
            Ok(WalRecordKind::TrustedRuntimeControlRecorded)
        } else if code == 13 {
            Ok(WalRecordKind::CheckpointPublicationRecorded)
        } else if code == 14 {
            Ok(WalRecordKind::MaterializationIntentRecorded)
        } else if code == 15 {
            Ok(WalRecordKind::MaterializationEffectObserved)
        } else if code == 16 {
            Ok(WalRecordKind::RecoveryPostureRecorded)
        } else if code == 17 {
            Ok(WalRecordKind::TopologyStrandForkRecorded)
        } else if code == 18 {
            Ok(WalRecordKind::TopologyStrandDropRecorded)
        } else if code == 19 {
            Ok(WalRecordKind::TopologyBraidEventRecorded)
        } else if code == 20 {
            Ok(WalRecordKind::TopologyBraidShellRetained)
        } else if code == 21 {
            Ok(WalRecordKind::TopologySuffixImportRecorded)
        } else if code == 23 {
            Ok(WalRecordKind::CausalAnchorFactRecorded)
        } else if code == 24 {
            Ok(WalRecordKind::CausalAnchorAdmissionReceiptRecorded)
        } else {
            Err(WalDecodeError::UnknownEnumCode { enum_name: "WalRecordKind", code })
        }
    }

    /// Decoding a variant's persisted code gives the variant back, and
    /// distinct variants have distinct codes.
    pub proof fn lemma_code_round_trip(self)
        ensures
            Self::from_code_spec(self.code_spec()) == Some(self),
    {
    }
    /// Canonical label of the record kind.
    pub open spec fn label_spec(self) -> Seq<char> {
        match self {
            WalRecordKind::SubmissionAcceptedRecorded => "SubmissionAcceptedRecorded"@,
            WalRecordKind::SubmissionAcceptanceEvidenceRecorded => "SubmissionAcceptanceEvidenceRecorded"@,
            WalRecordKind::RuntimeLawWitnessRecorded => "RuntimeLawWitnessRecorded"@,
            WalRecordKind::RuntimeAdmissionTicketIssued => "RuntimeAdmissionTicketIssued"@,
            WalRecordKind::TicketedRuntimeIngressRecorded => "TicketedRuntimeIngressRecorded"@,
            WalRecordKind::TickReceiptRecorded => "TickReceiptRecorded"@,
            WalRecordKind::RuntimeStateDeltaRecorded => "RuntimeStateDeltaRecorded"@,
            WalRecordKind::ReceiptCorrelationRecorded => "ReceiptCorrelationRecorded"@,
            WalRecordKind::ReadingEnvelopeRetained => "ReadingEnvelopeRetained"@,
            WalRecordKind::RetainedMaterialRefRecorded => "RetainedMaterialRefRecorded"@,
            WalRecordKind::SchedulerFaultQuarantined => "SchedulerFaultQuarantined"@,
            WalRecordKind::TrustedRuntimeControlRecorded => "TrustedRuntimeControlRecorded"@,
            WalRecordKind::CheckpointPublicationRecorded => "CheckpointPublicationRecorded"@,
            WalRecordKind::MaterializationIntentRecorded => "MaterializationIntentRecorded"@,
            WalRecordKind::MaterializationEffectObserved => "MaterializationEffectObserved"@,
            WalRecordKind::RecoveryPostureRecorded => "RecoveryPostureRecorded"@,
            WalRecordKind::TopologyStrandForkRecorded => "TopologyStrandForkRecorded"@,
            WalRecordKind::TopologyStrandDropRecorded => "TopologyStrandDropRecorded"@,
            WalRecordKind::TopologyBraidEventRecorded => "TopologyBraidEventRecorded"@,
            WalRecordKind::TopologyBraidShellRetained => "TopologyBraidShellRetained"@,
            WalRecordKind::TopologySuffixImportRecorded => "TopologySuffixImportRecorded"@,
            WalRecordKind::CausalAnchorFactRecorded => "CausalAnchorFactRecorded"@,
            WalRecordKind::CausalAnchorAdmissionReceiptRecorded => "CausalAnchorAdmissionReceiptRecorded"@,
        }
    }

    /// True when the label obeys the recorded-not-committed grammar: it does
    /// not contain `Committed`.
    pub fn obeys_recorded_not_committed_grammar(self) -> (r: bool)
        ensures
            r == !contains_bytes(encode_utf8(self.label_spec()), "Committed".spec_bytes()),
    {
        !bytes_contain(self.label().as_bytes(), "Committed".as_bytes())
    }

    /// Returns the canonical record kind label.
    pub fn label(self) -> (r: &'static str)
        ensures
            r@ == self.label_spec(),
    {
        match self {
            WalRecordKind::SubmissionAcceptedRecorded => "SubmissionAcceptedRecorded",
            WalRecordKind::SubmissionAcceptanceEvidenceRecorded => "SubmissionAcceptanceEvidenceRecorded",
            WalRecordKind::RuntimeLawWitnessRecorded => "RuntimeLawWitnessRecorded",
            WalRecordKind::RuntimeAdmissionTicketIssued => "RuntimeAdmissionTicketIssued",
            WalRecordKind::TicketedRuntimeIngressRecorded => "TicketedRuntimeIngressRecorded",
            WalRecordKind::TickReceiptRecorded => "TickReceiptRecorded",
            WalRecordKind::RuntimeStateDeltaRecorded => "RuntimeStateDeltaRecorded",
            WalRecordKind::ReceiptCorrelationRecorded => "ReceiptCorrelationRecorded",
            WalRecordKind::ReadingEnvelopeRetained => "ReadingEnvelopeRetained",
            WalRecordKind::RetainedMaterialRefRecorded => "RetainedMaterialRefRecorded",
            WalRecordKind::SchedulerFaultQuarantined => "SchedulerFaultQuarantined",
            WalRecordKind::TrustedRuntimeControlRecorded => "TrustedRuntimeControlRecorded",
            WalRecordKind::CheckpointPublicationRecorded => "CheckpointPublicationRecorded",
            WalRecordKind::MaterializationIntentRecorded => "MaterializationIntentRecorded",
            WalRecordKind::MaterializationEffectObserved => "MaterializationEffectObserved",
            WalRecordKind::RecoveryPostureRecorded => "RecoveryPostureRecorded",
            WalRecordKind::TopologyStrandForkRecorded => "TopologyStrandForkRecorded",
            WalRecordKind::TopologyStrandDropRecorded => "TopologyStrandDropRecorded",
            WalRecordKind::TopologyBraidEventRecorded => "TopologyBraidEventRecorded",
            WalRecordKind::TopologyBraidShellRetained => "TopologyBraidShellRetained",
            WalRecordKind::TopologySuffixImportRecorded => "TopologySuffixImportRecorded",
            WalRecordKind::CausalAnchorFactRecorded => "CausalAnchorFactRecorded",
            WalRecordKind::CausalAnchorAdmissionReceiptRecorded => "CausalAnchorAdmissionReceiptRecorded",
        }
    }

    /// Append authority required for this record kind.
    pub open spec fn required_authority_spec(self) -> WalAppendAuthority {
        match self {
            WalRecordKind::SubmissionAcceptedRecorded => WalAppendAuthority::SubmissionIntake,
            WalRecordKind::SubmissionAcceptanceEvidenceRecorded => WalAppendAuthority::SubmissionIntake,
            WalRecordKind::RuntimeLawWitnessRecorded => WalAppendAuthority::TrustedScheduler,
            WalRecordKind::RuntimeAdmissionTicketIssued => WalAppendAuthority::TrustedScheduler,
            WalRecordKind::TicketedRuntimeIngressRecorded => WalAppendAuthority::TrustedScheduler,
            WalRecordKind::TickReceiptRecorded => WalAppendAuthority::TrustedScheduler,
            WalRecordKind::RuntimeStateDeltaRecorded => WalAppendAuthority::TrustedScheduler,
            WalRecordKind::ReceiptCorrelationRecorded => WalAppendAuthority::TrustedScheduler,
            WalRecordKind::ReadingEnvelopeRetained => WalAppendAuthority::TrustedScheduler,
            WalRecordKind::RetainedMaterialRefRecorded => WalAppendAuthority::TrustedScheduler,
            WalRecordKind::SchedulerFaultQuarantined => WalAppendAuthority::RuntimeControl,
            WalRecordKind::TrustedRuntimeControlRecorded => WalAppendAuthority::RuntimeControl,
            WalRecordKind::CheckpointPublicationRecorded => WalAppendAuthority::Recovery,
            WalRecordKind::MaterializationIntentRecorded => WalAppendAuthority::TrustedScheduler,
            WalRecordKind::MaterializationEffectObserved => WalAppendAuthority::TrustedScheduler,
            WalRecordKind::RecoveryPostureRecorded => WalAppendAuthority::Recovery,
            WalRecordKind::TopologyStrandForkRecorded => WalAppendAuthority::TrustedScheduler,
            WalRecordKind::TopologyStrandDropRecorded => WalAppendAuthority::TrustedScheduler,
            WalRecordKind::TopologyBraidEventRecorded => WalAppendAuthority::TrustedScheduler,
            WalRecordKind::TopologyBraidShellRetained => WalAppendAuthority::TrustedScheduler,
            WalRecordKind::TopologySuffixImportRecorded => WalAppendAuthority::TrustedScheduler,
            WalRecordKind::CausalAnchorFactRecorded => WalAppendAuthority::AdmissionKernel,
            WalRecordKind::CausalAnchorAdmissionReceiptRecorded => WalAppendAuthority::AdmissionKernel,
        }
    }

    /// Returns the append authority required for this record kind.
    pub fn required_authority(self) -> (r: WalAppendAuthority)
        ensures
            r == self.required_authority_spec(),
    {
        match self {
            WalRecordKind::SubmissionAcceptedRecorded => WalAppendAuthority::SubmissionIntake,
            WalRecordKind::SubmissionAcceptanceEvidenceRecorded => WalAppendAuthority::SubmissionIntake,
            WalRecordKind::RuntimeLawWitnessRecorded => WalAppendAuthority::TrustedScheduler,
            WalRecordKind::RuntimeAdmissionTicketIssued => WalAppendAuthority::TrustedScheduler,
            WalRecordKind::TicketedRuntimeIngressRecorded => WalAppendAuthority::TrustedScheduler,
            WalRecordKind::TickReceiptRecorded => WalAppendAuthority::TrustedScheduler,
            WalRecordKind::RuntimeStateDeltaRecorded => WalAppendAuthority::TrustedScheduler,
            WalRecordKind::ReceiptCorrelationRecorded => WalAppendAuthority::TrustedScheduler,
            WalRecordKind::ReadingEnvelopeRetained => WalAppendAuthority::TrustedScheduler,
            WalRecordKind::RetainedMaterialRefRecorded => WalAppendAuthority::TrustedScheduler,
            WalRecordKind::SchedulerFaultQuarantined => WalAppendAuthority::RuntimeControl,
            WalRecordKind::TrustedRuntimeControlRecorded => WalAppendAuthority::RuntimeControl,
            WalRecordKind::CheckpointPublicationRecorded => WalAppendAuthority::Recovery,
            WalRecordKind::MaterializationIntentRecorded => WalAppendAuthority::TrustedScheduler,
            WalRecordKind::MaterializationEffectObserved => WalAppendAuthority::TrustedScheduler,
            WalRecordKind::RecoveryPostureRecorded => WalAppendAuthority::Recovery,
            WalRecordKind::TopologyStrandForkRecorded => WalAppendAuthority::TrustedScheduler,
            WalRecordKind::TopologyStrandDropRecorded => WalAppendAuthority::TrustedScheduler,
            WalRecordKind::TopologyBraidEventRecorded => WalAppendAuthority::TrustedScheduler,
            WalRecordKind::TopologyBraidShellRetained => WalAppendAuthority::TrustedScheduler,
            WalRecordKind::TopologySuffixImportRecorded => WalAppendAuthority::TrustedScheduler,
            WalRecordKind::CausalAnchorFactRecorded => WalAppendAuthority::AdmissionKernel,
            WalRecordKind::CausalAnchorAdmissionReceiptRecorded => WalAppendAuthority::AdmissionKernel,
        }
    }
}

/// WAL payload compression posture.
#[derive(Clone, Copy, Debug, PartialEq, Eq, Structural)]
pub enum WalCompressionKind {
    /// Payload bytes are not compressed.
    Uncompressed,
}

impl WalCompressionKind {
    /// Stable persisted code of the variant.
    pub open spec fn code_spec(self) -> u8 {
        match self {
            WalCompressionKind::Uncompressed => 0u8,
        }
    }

    /// The variant persisted under `code`, if any.
    pub open spec fn from_code_spec(code: u8) -> Option<Self> {
        if code == 0u8 {
            Some(WalCompressionKind::Uncompressed)
        } else {
            None
        }
    }

    /// Returns the stable persisted code.
    pub fn stable_code(self) -> (r: u8)
        ensures
            r == self.code_spec(),
    {
        match self {
            WalCompressionKind::Uncompressed => 0,
        }
    }

    /// Decodes a persisted code.
    pub fn from_code(code: u8) -> (r: Result<Self, WalDecodeError>)
        ensures
            r == (match Self::from_code_spec(code) {
                Some(k) => Ok::<Self, WalDecodeError>(k),
                None => Err(WalDecodeError::UnknownEnumCode { enum_name: "WalCompressionKind", code }),
            }),
    {
        if code == 0 {
            Ok(WalCompressionKind::Uncompressed)
        } else {
            Err(WalDecodeError::UnknownEnumCode { enum_name: "WalCompressionKind", code })
        }
    }

    /// Decoding a variant's persisted code gives the variant back, and
    /// distinct variants have distinct codes.
    pub proof fn lemma_code_round_trip(self)
        ensures
            Self::from_code_spec(self.code_spec()) == Some(self),
    {
    }
}

/// WAL payload revelation posture.
#[derive(Clone, Copy, Debug, PartialEq, Eq, Structural)]
pub enum WalRedactionPosture {
    /// Full payload bytes are present.
    Present,
    /// WAL carries digest-only evidence.
    DigestOnly,
    /// WAL carries retained-reference evidence.
    RetainedRef,
    /// Payload bytes are encrypted.
    Encrypted,
    /// Payload bytes are redacted by policy.
    RedactedByPolicy,
}

impl WalRedactionPosture {
    /// Stable persisted code of the variant.
    pub open spec fn code_spec(self) -> u8 {
        match self {
            WalRedactionPosture::Present => 1u8,
            WalRedactionPosture::DigestOnly => 2u8,
            WalRedactionPosture::RetainedRef => 3u8,
            WalRedactionPosture::Encrypted => 4u8,
            WalRedactionPosture::RedactedByPolicy => 5u8,
        }
    }

    /// The variant persisted under `code`, if any.
    pub open spec fn from_code_spec(code: u8) -> Option<Self> {
        if code == 1u8 {
            Some(WalRedactionPosture::Present)
        } else if code == 2u8 {
            Some(WalRedactionPosture::DigestOnly)
        } else if code == 3u8 {
            Some(WalRedactionPosture::RetainedRef)
        } else if code == 4u8 {
            Some(WalRedactionPosture::Encrypted)
        } else if code == 5u8 {
            Some(WalRedactionPosture::RedactedByPolicy)
        } else {
            None
        }
    }

    /// Returns the stable persisted code.
    pub fn stable_code(self) -> (r: u8)
        ensures
            r == self.code_spec(),
    {
        match self {
            WalRedactionPosture::Present => 1,
            WalRedactionPosture::DigestOnly => 2,
            WalRedactionPosture::RetainedRef => 3,
            WalRedactionPosture::Encrypted => 4,
            WalRedactionPosture::RedactedByPolicy => 5,
        }
    }

    /// Decodes a persisted code.
    pub fn from_code(code: u8) -> (r: Result<Self, WalDecodeError>)
        ensures
            r == (match Self::from_code_spec(code) {
                Some(k) => Ok::<Self, WalDecodeError>(k),
                None => Err(WalDecodeError::UnknownEnumCode { enum_name: "WalRedactionPosture", code }),
            }),
    {
        if code == 1 {
            Ok(WalRedactionPosture::Present)
        } else if code == 2 {
            Ok(WalRedactionPosture::DigestOnly)
        } else if code == 3 {
            Ok(WalRedactionPosture::RetainedRef)
        } else if code == 4 {
            Ok(WalRedactionPosture::Encrypted)
        } else if code == 5 {
            Ok(WalRedactionPosture::RedactedByPolicy)
        } else {
            Err(WalDecodeError::UnknownEnumCode { enum_name: "WalRedactionPosture", code })
        }
    }

    /// Decoding a variant's persisted code gives the variant back, and
    /// distinct variants have distinct codes.
    pub proof fn lemma_code_round_trip(self)
        ensures
            Self::from_code_spec(self.code_spec()) == Some(self),
    {
    }
}

/// Runtime frontier family affected by a transaction.
#[derive(Clone, Copy, Debug, PartialEq, Eq, PartialOrd, Ord, Structural)]
pub enum AffectedFrontierKind {
    /// Submission queue frontier.
    SubmissionQueue,
    /// Runtime state frontier.
    RuntimeState,
    /// Receipt/correlation frontier.
    ReceiptIndex,
    /// Reading/index frontier.
    ReadingIndex,
    /// Runtime control posture frontier.
    RuntimeControl,
    /// Checkpoint/index frontier.
    CheckpointIndex,
    /// Topology recovery index frontier.
    TopologyIndex,
    /// Causal-anchor admission index frontier.
    CausalAnchorIndex,
}

impl AffectedFrontierKind {
    /// Stable persisted code of the variant.
    pub open spec fn code_spec(self) -> u8 {
        match self {
            AffectedFrontierKind::SubmissionQueue => 1u8,
            AffectedFrontierKind::RuntimeState => 2u8,
            AffectedFrontierKind::ReceiptIndex => 3u8,
            AffectedFrontierKind::ReadingIndex => 4u8,
            AffectedFrontierKind::RuntimeControl => 5u8,
            AffectedFrontierKind::CheckpointIndex => 6u8,
            AffectedFrontierKind::TopologyIndex => 7u8,
            AffectedFrontierKind::CausalAnchorIndex => 8u8,
        }
    }

    /// The variant persisted under `code`, if any.
    pub open spec fn from_code_spec(code: u8) -> Option<Self> {
        if code == 1u8 {
            Some(AffectedFrontierKind::SubmissionQueue)
        } else if code == 2u8 {
            Some(AffectedFrontierKind::RuntimeState)
        } else if code == 3u8 {
            Some(AffectedFrontierKind::ReceiptIndex)
        } else if code == 4u8 {
            Some(AffectedFrontierKind::ReadingIndex)
        } else if code == 5u8 {
            Some(AffectedFrontierKind::RuntimeControl)
        } else if code == 6u8 {
            Some(AffectedFrontierKind::CheckpointIndex)
        } else if code == 7u8 {
            Some(AffectedFrontierKind::TopologyIndex)
        } else if code == 8u8 {
            Some(AffectedFrontierKind::CausalAnchorIndex)
        } else {
            None
        }
    }

    /// Returns the stable persisted code.
    pub fn stable_code(self) -> (r: u8)
        ensures
            r == self.code_spec(),
    {
        match self {
            AffectedFrontierKind::SubmissionQueue => 1,
            AffectedFrontierKind::RuntimeState => 2,
            AffectedFrontierKind::ReceiptIndex => 3,
            AffectedFrontierKind::ReadingIndex => 4,
            AffectedFrontierKind::RuntimeControl => 5,
            AffectedFrontierKind::CheckpointIndex => 6,
            AffectedFrontierKind::TopologyIndex => 7,
            AffectedFrontierKind::CausalAnchorIndex => 8,
        }
    }

    /// Decodes a persisted code.
    pub fn from_code(code: u8) -> (r: Result<Self, WalDecodeError>)
        ensures
            r == (match Self::from_code_spec(code) {
                Some(k) => Ok::<Self, WalDecodeError>(k),
                None => Err(WalDecodeError::UnknownEnumCode { enum_name: "AffectedFrontierKind", code }),
            }),
    {
        if code == 1 {
            Ok(AffectedFrontierKind::SubmissionQueue)
        } else if code == 2 {
            Ok(AffectedFrontierKind::RuntimeState)
        } else if code == 3 {
            Ok(AffectedFrontierKind::ReceiptIndex)
        } else if code == 4 {
            Ok(AffectedFrontierKind::ReadingIndex)
        } else if code == 5 {
            Ok(AffectedFrontierKind::RuntimeControl)
        } else if code == 6 {
            Ok(AffectedFrontierKind::CheckpointIndex)
        } else if code == 7 {
            Ok(AffectedFrontierKind::TopologyIndex)
        } else if code == 8 {
            Ok(AffectedFrontierKind::CausalAnchorIndex)
        } else {
            Err(WalDecodeError::UnknownEnumCode { enum_name: "AffectedFrontierKind", code })
        }
    }

    /// Decoding a variant's persisted code gives the variant back, and
    /// distinct variants have distinct codes.
    pub proof fn lemma_code_round_trip(self)
        ensures
            Self::from_code_spec(self.code_spec()) == Some(self),
    {
    }
}

} // verus!
