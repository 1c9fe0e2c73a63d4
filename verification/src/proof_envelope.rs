//! Proof-shaped evidence envelopes.
use vstd::prelude::*;
use vstd::bytes::*;
use vstd::string::*;
use crate::crypto::{blake3_digest, blake3_hash};
use crate::encoding::{push_hash, push_slice, push_u64_le};
use crate::ident::hash_eq;

verus! {

/// Kind of proof evidence.
#[derive(Clone, Copy, Debug, PartialEq, Eq, Hash, Structural)]
pub enum ProofKind {
    /// A replay trace that can be re-executed locally.
    ReplayTrace,
    /// A zero-knowledge SNARK; needs a verifier backend.
    ZkSnark,
    /// A vector-commitment opening; needs a verifier backend.
    VectorOpening,
}

impl ProofKind {
    /// Stable wire tag.
    pub open spec fn tag_spec(self) -> u8 {
        match self {
            ProofKind::ReplayTrace => 1u8,
            ProofKind::ZkSnark => 2u8,
            ProofKind::VectorOpening => 3u8,
        }
    }

    /// Stable wire tag.
    pub fn canonical_tag(self) -> (r: u8)
        ensures
            r == self.tag_spec(),
    {
        match self {
            ProofKind::ReplayTrace => 1,
            ProofKind::ZkSnark => 2,
            ProofKind::VectorOpening => 3,
        }
    }
}

/// Why an envelope's shape was refused.
#[derive(Clone, Copy, Debug, PartialEq, Eq)]
pub enum ProofError {
    /// The proof kind needs a verifier backend this build lacks.
    UnsupportedKind {
        /// Refused kind.
        kind: ProofKind,
    },
    /// The proof carries no bytes.
    EmptyPayload,
    /// The envelope binds different public inputs than expected.
    PublicInputsMismatch {
        /// Expected public-inputs hash.
        expected: crate::ident::Hash,
        /// crate::ident::Hash the envelope carries.
        actual: crate::ident::Hash,
    },
}

/// Proof-shaped evidence bound to a public-inputs hash.
#[derive(Clone, Debug, PartialEq, Eq)]
pub struct ProofEnvelope {
    /// Proof kind.
    pub kind: ProofKind,
    /// Opaque proof bytes.
    pub proof_bytes: Vec<u8>,
    /// crate::ident::Hash of the public inputs the proof is about.
    pub public_inputs_hash: crate::ident::Hash,
}

/// Domain prefix of envelope digests.
pub open spec fn proof_domain() -> Seq<u8> {
    "echo.proof.envelope.v1\0".spec_bytes()
}

/// Canonical envelope digest: domain, kind tag, length-prefixed bytes, public inputs.
pub open spec fn proof_digest_spec(p: ProofEnvelope) -> Seq<u8> {
    blake3_digest(proof_domain() + seq![p.kind.tag_spec()] + spec_u64_to_le_bytes(p.proof_bytes@.len() as u64)
        + p.proof_bytes@ + p.public_inputs_hash@)
}

/// Shape check of an envelope against the expected public-inputs hash.
pub open spec fn proof_shape_spec(p: ProofEnvelope, expected: crate::ident::Hash) -> Result<(), ProofError> {
    if p.kind != ProofKind::ReplayTrace {
        Err(ProofError::UnsupportedKind { kind: p.kind })
    } else if p.proof_bytes@.len() == 0 {
        Err(ProofError::EmptyPayload)
    } else if p.public_inputs_hash != expected {
        Err(ProofError::PublicInputsMismatch { expected, actual: p.public_inputs_hash })
    } else {
        Ok(())
    }
}

/// The envelope's shape is valid against public inputs with bytes `expected`.
pub open spec fn proof_shape_ok(p: ProofEnvelope, expected: Seq<u8>) -> bool {
    p.kind == ProofKind::ReplayTrace && p.proof_bytes@.len() > 0 && p.public_inputs_hash@ == expected
}

/// `e` is the error the shape check reports against public inputs with bytes `expected`.
pub open spec fn proof_shape_error_matches(p: ProofEnvelope, expected: Seq<u8>, e: ProofError) -> bool {
    if p.kind != ProofKind::ReplayTrace {
        e == ProofError::UnsupportedKind { kind: p.kind }
    } else if p.proof_bytes@.len() == 0 {
        e == ProofError::EmptyPayload
    } else {
        e matches ProofError::PublicInputsMismatch { expected: x, actual } && x@ == expected && actual
            == p.public_inputs_hash
    }
}

impl ProofEnvelope {
    /// Validates the envelope's shape: a supported kind, a non-empty payload,
    /// and public inputs equal to `expected`. Cryptographic validity is not checked.
    pub fn validate_shape(&self, expected: crate::ident::Hash) -> (r: Result<(), ProofError>)
        ensures
            r == proof_shape_spec(*self, expected),
            r is Ok <==> proof_shape_ok(*self, expected@),
            r matches Err(e) ==> proof_shape_error_matches(*self, expected@, e),
    {
        match self.kind {
            ProofKind::ReplayTrace => {},
            _ => return Err(ProofError::UnsupportedKind { kind: self.kind }),
        }
        if self.proof_bytes.len() == 0 {
            return Err(ProofError::EmptyPayload);
        }
        if !hash_eq(&self.public_inputs_hash, &expected) {
            return Err(ProofError::PublicInputsMismatch { expected, actual: self.public_inputs_hash });
        }
        assert(self.public_inputs_hash@ == expected@);
        Ok(())
    }

    /// Canonical envelope digest.
    pub fn digest(&self) -> (r: crate::ident::Hash)
        ensures
            r@ == proof_digest_spec(*self),
    {
        let mut input: Vec<u8> = Vec::new();
        push_slice(&mut input, "echo.proof.envelope.v1\0".as_bytes());
        input.push(self.kind.canonical_tag());
        push_u64_le(&mut input, self.proof_bytes.len() as u64);
        push_slice(&mut input, self.proof_bytes.as_slice());
        push_hash(&mut input, &self.public_inputs_hash);
        proof {
            reveal_strlit("echo.proof.envelope.v1\0");
            assert(input@ =~= proof_domain() + seq![self.kind.tag_spec()] + spec_u64_to_le_bytes(
                self.proof_bytes@.len() as u64,
            ) + self.proof_bytes@ + self.public_inputs_hash@);
        }
        blake3_hash(input.as_slice())
    }

    /// Copies the envelope.
    pub fn duplicate(&self) -> (r: Self)
        ensures
            r.kind == self.kind,
            r.proof_bytes@ == self.proof_bytes@,
            r.public_inputs_hash == self.public_inputs_hash,
    {
        ProofEnvelope {
            kind: self.kind,
            proof_bytes: self.proof_bytes.clone(),
            public_inputs_hash: self.public_inputs_hash,
        }
    }
}

} // verus!
