//! Witness receipts.
use vstd::prelude::*;

verus! {

/// Kind of witness behind a receipt.
#[derive(Clone, Copy, Debug, PartialEq, Eq, Structural)]
pub enum WitnessKind {
    /// The record witnesses itself.
    SelfWitness,
}

/// Compatibility rule a receipt was issued under.
#[derive(Clone, Copy, Debug, PartialEq, Eq, Structural)]
pub enum WitnessCompatibilityRule {
    /// Current scaffold rule.
    E1Scaffold,
}

/// Strength of a receipt's attestation.
#[derive(Clone, Copy, Debug, PartialEq, Eq, Structural)]
pub enum WitnessAttestation {
    /// Integrity only, no independent attestation.
    IntegrityOnly,
}

/// Typed witness receipt binding a subject digest to its evidence digest.
#[derive(Clone, Copy, Debug, PartialEq, Eq)]
pub struct WitnessReceipt {
    kind: WitnessKind,
    subject_digest: crate::ident::Hash,
    evidence_digest: crate::ident::Hash,
    compatibility: WitnessCompatibilityRule,
    attestation: WitnessAttestation,
}

impl WitnessReceipt {
    /// Witness kind.
    pub closed spec fn kind_spec(&self) -> WitnessKind { self.kind }
    /// Subject digest.
    pub closed spec fn subject_spec(&self) -> crate::ident::Hash { self.subject_digest }
    /// Evidence digest.
    pub closed spec fn evidence_spec(&self) -> crate::ident::Hash { self.evidence_digest }
    /// Compatibility rule.
    pub closed spec fn compatibility_spec(&self) -> WitnessCompatibilityRule { self.compatibility }
    /// Attestation strength.
    pub closed spec fn attestation_spec(&self) -> WitnessAttestation { self.attestation }

    /// A self-witness receipt: integrity-only evidence for `subject`.
    pub fn self_witness(subject: crate::ident::Hash, evidence: crate::ident::Hash) -> (r: Self)
        ensures
            r.kind_spec() == WitnessKind::SelfWitness,
            r.subject_spec() == subject,
            r.evidence_spec() == evidence,
            r.compatibility_spec() == WitnessCompatibilityRule::E1Scaffold,
            r.attestation_spec() == WitnessAttestation::IntegrityOnly,
    {
        WitnessReceipt {
            kind: WitnessKind::SelfWitness,
            subject_digest: subject,
            evidence_digest: evidence,
            compatibility: WitnessCompatibilityRule::E1Scaffold,
            attestation: WitnessAttestation::IntegrityOnly,
        }
    }

    /// Witness kind.
    pub fn kind(&self) -> (r: WitnessKind)
        ensures
            r == self.kind_spec(),
    {
        self.kind
    }

    /// Subject digest.
    pub fn subject_digest(&self) -> (r: crate::ident::Hash)
        ensures
            r == self.subject_spec(),
    {
        self.subject_digest
    }

    /// Evidence digest.
    pub fn evidence_digest(&self) -> (r: crate::ident::Hash)
        ensures
            r == self.evidence_spec(),
    {
        self.evidence_digest
    }

    /// Compatibility rule.
    pub fn compatibility(&self) -> (r: WitnessCompatibilityRule)
        ensures
            r == self.compatibility_spec(),
    {
        self.compatibility
    }

    /// Attestation strength.
    pub fn attestation(&self) -> (r: WitnessAttestation)
        ensures
            r == self.attestation_spec(),
    {
        self.attestation
    }
}

} // verus!
