//! Named laws that interpret retained plurality.
use vstd::prelude::*;
use crate::ident::{hash_eq, hash_is_zero, is_zero_hash};
use crate::sealed_membership::DisclosureBudget;
use crate::witness::{WitnessAttestation, WitnessReceipt};

verus! {

/// Family of a plurality law.
#[derive(Clone, Copy, Debug, PartialEq, Eq, Structural)]
pub enum PluralityLawFamily {
    /// The settlement policy that judged the members.
    Settlement,
    /// A collapse policy that resolved retained plurality.
    Collapse,
}

/// A plurality law reference was refused.
#[derive(Clone, Copy, Debug, PartialEq, Eq, Structural)]
pub enum PluralityLawRefError {
    /// The policy id is all zero bytes.
    EmptyPolicyId,
}

/// Reference to a named plurality law.
#[derive(Clone, Copy, Debug, PartialEq, Eq)]
pub struct PluralityLawRef {
    family: PluralityLawFamily,
    policy_id: crate::ident::Hash,
}

impl PluralityLawRef {
    /// Law family.
    pub closed spec fn family_spec(&self) -> PluralityLawFamily { self.family }
    /// Policy id.
    pub closed spec fn policy_spec(&self) -> crate::ident::Hash { self.policy_id }

    /// The settlement law named by `policy_id`.
    pub fn settlement_policy(policy_id: crate::ident::Hash) -> (r: Result<Self, PluralityLawRefError>)
        ensures
            r is Err <==> is_zero_hash(policy_id),
            r is Err ==> r == Err::<Self, PluralityLawRefError>(PluralityLawRefError::EmptyPolicyId),
            r matches Ok(l) ==> l.family_spec() == PluralityLawFamily::Settlement && l.policy_spec() == policy_id,
    {
        if hash_is_zero(&policy_id) {
            return Err(PluralityLawRefError::EmptyPolicyId);
        }
        Ok(PluralityLawRef { family: PluralityLawFamily::Settlement, policy_id })
    }

    /// The collapse law named by `policy_id`.
    pub fn collapse_policy(policy_id: crate::ident::Hash) -> (r: Result<Self, PluralityLawRefError>)
        ensures
            r is Err <==> is_zero_hash(policy_id),
            r is Err ==> r == Err::<Self, PluralityLawRefError>(PluralityLawRefError::EmptyPolicyId),
            r matches Ok(l) ==> l.family_spec() == PluralityLawFamily::Collapse && l.policy_spec() == policy_id,
    {
        if hash_is_zero(&policy_id) {
            return Err(PluralityLawRefError::EmptyPolicyId);
        }
        Ok(PluralityLawRef { family: PluralityLawFamily::Collapse, policy_id })
    }

    /// Law family.
    pub fn family(&self) -> (r: PluralityLawFamily)
        ensures
            r == self.family_spec(),
    {
        self.family
    }

    /// Policy id.
    pub fn policy_id(&self) -> (r: crate::ident::Hash)
        ensures
            r == self.policy_spec(),
    {
        self.policy_id
    }
}

/// Evidence posture of a law reading.
#[derive(Clone, Copy, Debug, PartialEq, Eq, Structural)]
pub enum PluralityLawEvidencePosture {
    /// Backed by a self-witness that guarantees integrity only.
    SelfWitnessIntegrityOnly,
}

/// A law reading was refused.
#[derive(Clone, Copy, Debug, PartialEq, Eq, Structural)]
pub enum PluralityLawReadingError {
    /// The support digest is all zero bytes.
    EmptySupportDigest,
    /// The witness receipt attests a different subject than the support digest.
    WitnessSubjectMismatch,
}

/// A witnessed reading of a plurality law over a supporting record.
#[derive(Clone, Copy, Debug, PartialEq, Eq)]
pub struct PluralityLawReading {
    law_ref: PluralityLawRef,
    support_digest: crate::ident::Hash,
    witness_receipt: WitnessReceipt,
    disclosure_budget: DisclosureBudget,
}

impl PluralityLawReading {
    /// Law read.
    pub closed spec fn law_spec(&self) -> PluralityLawRef { self.law_ref }
    /// Supporting record digest.
    pub closed spec fn support_spec(&self) -> crate::ident::Hash { self.support_digest }
    /// Witness receipt.
    pub closed spec fn receipt_spec(&self) -> WitnessReceipt { self.witness_receipt }
    /// Disclosure budget.
    pub closed spec fn budget_spec(&self) -> DisclosureBudget { self.disclosure_budget }

    /// Builds a reading; the witness must attest the supporting record.
    pub fn new(
        law_ref: PluralityLawRef,
        support_digest: crate::ident::Hash,
        witness_receipt: WitnessReceipt,
        disclosure_budget: DisclosureBudget,
    ) -> (r: Result<Self, PluralityLawReadingError>)
        ensures
            is_zero_hash(support_digest) ==> r == Err::<Self, PluralityLawReadingError>(
                PluralityLawReadingError::EmptySupportDigest,
            ),
            !is_zero_hash(support_digest) && witness_receipt.subject_spec() != support_digest ==> r == Err::<
                Self,
                PluralityLawReadingError,
            >(PluralityLawReadingError::WitnessSubjectMismatch),
            r is Ok <==> !is_zero_hash(support_digest) && witness_receipt.subject_spec() == support_digest,
            r matches Ok(x) ==> x.law_spec() == law_ref && x.support_spec() == support_digest && x.receipt_spec()
                == witness_receipt && x.budget_spec() == disclosure_budget,
    {
        if hash_is_zero(&support_digest) {
            return Err(PluralityLawReadingError::EmptySupportDigest);
        }
        let subject = witness_receipt.subject_digest();
        if !hash_eq(&subject, &support_digest) {
            return Err(PluralityLawReadingError::WitnessSubjectMismatch);
        }
        Ok(PluralityLawReading { law_ref, support_digest, witness_receipt, disclosure_budget })
    }

    /// Law read.
    pub fn law_ref(&self) -> (r: PluralityLawRef)
        ensures
            r == self.law_spec(),
    {
        self.law_ref
    }

    /// Supporting record digest.
    pub fn support_digest(&self) -> (r: crate::ident::Hash)
        ensures
            r == self.support_spec(),
    {
        self.support_digest
    }

    /// Witness receipt.
    pub fn witness_receipt(&self) -> (r: WitnessReceipt)
        ensures
            r == self.receipt_spec(),
    {
        self.witness_receipt
    }

    /// Evidence posture implied by the witness attestation.
    pub fn evidence_posture(&self) -> (r: PluralityLawEvidencePosture)
        ensures
            self.receipt_spec().attestation_spec() == WitnessAttestation::IntegrityOnly ==> r
                == PluralityLawEvidencePosture::SelfWitnessIntegrityOnly,
    {
        match self.witness_receipt.attestation() {
            WitnessAttestation::IntegrityOnly => PluralityLawEvidencePosture::SelfWitnessIntegrityOnly,
        }
    }

    /// Disclosure budget.
    pub fn disclosure_budget(&self) -> (r: DisclosureBudget)
        ensures
            r == self.budget_spec(),
    {
        self.disclosure_budget
    }
}

} // verus!
