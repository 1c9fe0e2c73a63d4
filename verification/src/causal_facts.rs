//! Native causal graph fact publication primitives. Facts are world
//! statements; receipts reference fact digests and never replace facts.
use vstd::prelude::*;
use vstd::string::*;
use vstd::utf8::encode_utf8;
use crate::crypto::{blake3_digest, blake3_hash};
use crate::encoding::push_slice;

verus! {

/// Stable digest for one canonical graph fact.
#[derive(Clone, Copy, Debug, PartialEq, Eq, PartialOrd, Ord)]
pub struct FactDigest(crate::ident::Hash);

impl FactDigest {
    /// The digest bytes.
    pub closed spec fn bytes_spec(&self) -> crate::ident::Hash {
        self.0
    }

    /// Returns the raw digest bytes.
    pub fn bytes(&self) -> (r: &crate::ident::Hash)
        ensures
            *r == self.bytes_spec(),
    {
        &self.0
    }
}

/// Obstruction kind recorded when artifact registration fails before a handle
/// is issued.
#[derive(Clone, Copy, Debug, PartialEq, Eq, Structural)]
pub enum ArtifactRegistrationObstructionKind {
    /// Descriptor artifact id did not match artifact identity.
    ArtifactIdMismatch,
    /// Descriptor artifact hash did not match artifact identity.
    ArtifactHashMismatch,
    /// Descriptor schema id did not match artifact schema id.
    SchemaIdMismatch,
    /// Descriptor operation id did not match artifact operation id.
    OperationIdMismatch,
    /// Descriptor requirements digest did not match artifact requirements.
    RequirementsDigestMismatch,
}

/// Obstruction kind recorded when optic invocation admission refuses before a
/// success ticket, witness, scheduler selection, or execution boundary.
#[derive(Clone, Copy, Debug, PartialEq, Eq, Structural)]
pub enum InvocationObstructionKind {
    /// Echo did not issue the supplied artifact handle.
    UnknownHandle,
    /// Invocation operation id did not match the registered artifact operation.
    OperationMismatch,
    /// Invocation supplied no basis request bytes.
    MissingBasisRequest,
    /// Invocation supplied no aperture request bytes.
    MissingApertureRequest,
    /// Invocation reached the basis boundary before Echo had a resolver that
    /// can bind the request to a causal basis.
    UnsupportedBasisResolution,
    /// Invocation reached the aperture boundary after basis resolution, but
    /// Echo had no aperture resolver that could bind the request to a graph
    /// region.
    UnsupportedApertureResolution,
    /// Invocation supplied no capability presentation.
    MissingCapability,
    /// Invocation supplied a malformed capability presentation.
    MalformedCapabilityPresentation,
    /// Invocation supplied a presentation not bound to a grant id.
    UnboundCapabilityPresentation,
    /// Invocation supplied a placeholder presentation before grant validation
    /// is wired into invocation admission.
    CapabilityValidationUnavailable,
}

/// Obstruction kind recorded when capability grant validation fails before any
/// successful admission ticket, law witness, scheduler selection, or execution
/// boundary.
#[derive(Clone, Copy, Debug, PartialEq, Eq, Structural)]
pub enum CapabilityGrantValidationObstructionKind {
    /// Presentation supplied unusable shape for grant validation.
    MalformedCapabilityPresentation,
    /// Presentation did not bind to a grant id.
    UnboundCapabilityPresentation,
    /// Presentation named grant material Echo has not recorded.
    UnknownGrant,
    /// Grant artifact hash did not cover the registered artifact.
    ArtifactHashMismatch,
    /// Grant operation id did not cover the registered artifact operation.
    OperationIdMismatch,
    /// Grant requirements digest did not cover the registered artifact
    /// requirements.
    RequirementsDigestMismatch,
    /// Grant expiry posture obstructed validation.
    ExpiredGrant,
}

impl ArtifactRegistrationObstructionKind {
    /// Stable label bound into fact digests.
    pub open spec fn label_spec(self) -> Seq<u8> {
        match self {
            ArtifactRegistrationObstructionKind::ArtifactIdMismatch => "artifact-id-mismatch".spec_bytes(),
            ArtifactRegistrationObstructionKind::ArtifactHashMismatch => "artifact-hash-mismatch".spec_bytes(),
            ArtifactRegistrationObstructionKind::SchemaIdMismatch => "schema-id-mismatch".spec_bytes(),
            ArtifactRegistrationObstructionKind::OperationIdMismatch => "operation-id-mismatch".spec_bytes(),
            ArtifactRegistrationObstructionKind::RequirementsDigestMismatch => "requirements-digest-mismatch".spec_bytes(),
        }
    }

    fn digest_label(self) -> (r: &'static [u8])
        ensures
            r@ == self.label_spec(),
    {
        proof {
            reveal_strlit("artifact-id-mismatch");
            reveal_strlit("artifact-hash-mismatch");
            reveal_strlit("schema-id-mismatch");
            reveal_strlit("operation-id-mismatch");
            reveal_strlit("requirements-digest-mismatch");
        }
        match self {
            ArtifactRegistrationObstructionKind::ArtifactIdMismatch => "artifact-id-mismatch".as_bytes(),
            ArtifactRegistrationObstructionKind::ArtifactHashMismatch => "artifact-hash-mismatch".as_bytes(),
            ArtifactRegistrationObstructionKind::SchemaIdMismatch => "schema-id-mismatch".as_bytes(),
            ArtifactRegistrationObstructionKind::OperationIdMismatch => "operation-id-mismatch".as_bytes(),
            ArtifactRegistrationObstructionKind::RequirementsDigestMismatch => "requirements-digest-mismatch".as_bytes(),
        }
    }
}

impl InvocationObstructionKind {
    /// Stable label bound into fact digests.
    pub open spec fn label_spec(self) -> Seq<u8> {
        match self {
            InvocationObstructionKind::UnknownHandle => "unknown-handle".spec_bytes(),
            InvocationObstructionKind::OperationMismatch => "operation-mismatch".spec_bytes(),
            InvocationObstructionKind::MissingBasisRequest => "missing-basis-request".spec_bytes(),
            InvocationObstructionKind::MissingApertureRequest => "missing-aperture-request".spec_bytes(),
            InvocationObstructionKind::UnsupportedBasisResolution => "unsupported-basis-resolution".spec_bytes(),
            InvocationObstructionKind::UnsupportedApertureResolution => "unsupported-aperture-resolution".spec_bytes(),
            InvocationObstructionKind::MissingCapability => "missing-capability".spec_bytes(),
            InvocationObstructionKind::MalformedCapabilityPresentation => "malformed-capability-presentation".spec_bytes(),
            InvocationObstructionKind::UnboundCapabilityPresentation => "unbound-capability-presentation".spec_bytes(),
            InvocationObstructionKind::CapabilityValidationUnavailable => "capability-validation-unavailable".spec_bytes(),
        }
    }

    fn digest_label(self) -> (r: &'static [u8])
        ensures
            r@ == self.label_spec(),
    {
        proof {
            reveal_strlit("unknown-handle");
            reveal_strlit("operation-mismatch");
            reveal_strlit("missing-basis-request");
            reveal_strlit("missing-aperture-request");
            reveal_strlit("unsupported-basis-resolution");
            reveal_strlit("unsupported-aperture-resolution");
            reveal_strlit("missing-capability");
            reveal_strlit("malformed-capability-presentation");
            reveal_strlit("unbound-capability-presentation");
            reveal_strlit("capability-validation-unavailable");
        }
        match self {
            InvocationObstructionKind::UnknownHandle => "unknown-handle".as_bytes(),
            InvocationObstructionKind::OperationMismatch => "operation-mismatch".as_bytes(),
            InvocationObstructionKind::MissingBasisRequest => "missing-basis-request".as_bytes(),
            InvocationObstructionKind::MissingApertureRequest => "missing-aperture-request".as_bytes(),
            InvocationObstructionKind::UnsupportedBasisResolution => "unsupported-basis-resolution".as_bytes(),
            InvocationObstructionKind::UnsupportedApertureResolution => "unsupported-aperture-resolution".as_bytes(),
            InvocationObstructionKind::MissingCapability => "missing-capability".as_bytes(),
            InvocationObstructionKind::MalformedCapabilityPresentation => "malformed-capability-presentation".as_bytes(),
            InvocationObstructionKind::UnboundCapabilityPresentation => "unbound-capability-presentation".as_bytes(),
            InvocationObstructionKind::CapabilityValidationUnavailable => "capability-validation-unavailable".as_bytes(),
        }
    }
}

impl CapabilityGrantValidationObstructionKind {
    /// Stable label bound into fact digests.
    pub open spec fn label_spec(self) -> Seq<u8> {
        match self {
            CapabilityGrantValidationObstructionKind::MalformedCapabilityPresentation => "malformed-capability-presentation".spec_bytes(),
            CapabilityGrantValidationObstructionKind::UnboundCapabilityPresentation => "unbound-capability-presentation".spec_bytes(),
            CapabilityGrantValidationObstructionKind::UnknownGrant => "unknown-grant".spec_bytes(),
            CapabilityGrantValidationObstructionKind::ArtifactHashMismatch => "artifact-hash-mismatch".spec_bytes(),
            CapabilityGrantValidationObstructionKind::OperationIdMismatch => "operation-id-mismatch".spec_bytes(),
            CapabilityGrantValidationObstructionKind::RequirementsDigestMismatch => "requirements-digest-mismatch".spec_bytes(),
            CapabilityGrantValidationObstructionKind::ExpiredGrant => "expired-grant".spec_bytes(),
        }
    }

    fn digest_label(self) -> (r: &'static [u8])
        ensures
            r@ == self.label_spec(),
    {
        proof {
            reveal_strlit("malformed-capability-presentation");
            reveal_strlit("unbound-capability-presentation");
            reveal_strlit("unknown-grant");
            reveal_strlit("artifact-hash-mismatch");
            reveal_strlit("operation-id-mismatch");
            reveal_strlit("requirements-digest-mismatch");
            reveal_strlit("expired-grant");
        }
        match self {
            CapabilityGrantValidationObstructionKind::MalformedCapabilityPresentation => "malformed-capability-presentation".as_bytes(),
            CapabilityGrantValidationObstructionKind::UnboundCapabilityPresentation => "unbound-capability-presentation".as_bytes(),
            CapabilityGrantValidationObstructionKind::UnknownGrant => "unknown-grant".as_bytes(),
            CapabilityGrantValidationObstructionKind::ArtifactHashMismatch => "artifact-hash-mismatch".as_bytes(),
            CapabilityGrantValidationObstructionKind::OperationIdMismatch => "operation-id-mismatch".as_bytes(),
            CapabilityGrantValidationObstructionKind::RequirementsDigestMismatch => "requirements-digest-mismatch".as_bytes(),
            CapabilityGrantValidationObstructionKind::ExpiredGrant => "expired-grant".as_bytes(),
        }
    }
}

/// Native Echo graph fact.
#[derive(Clone, Debug, PartialEq, Eq)]
pub enum GraphFact {
    /// Echo registered a Wesley-compiled optic artifact and issued a
    /// runtime-local handle.
    ArtifactRegistered {
        /// Echo-owned runtime-local handle id.
        handle_id: String,
        /// Wesley artifact hash.
        artifact_hash: String,
        /// Wesley schema id.
        schema_id: String,
        /// Wesley operation id.
        operation_id: String,
        /// Wesley requirements digest.
        requirements_digest: String,
    },
    /// Echo refused artifact registration before issuing a handle.
    ArtifactRegistrationObstructed {
        /// Artifact hash named by the attempted registration, if available.
        artifact_hash: Option<String>,
        /// Structured obstruction kind.
        obstruction: ArtifactRegistrationObstructionKind,
    },
    /// Echo refused optic invocation before admission success.
    OpticInvocationObstructed {
        /// Echo-owned runtime-local artifact handle id named by the invocation.
        artifact_handle_id: String,
        /// Operation id named by the invocation.
        operation_id: String,
        /// Digest of the invocation's canonical variable bytes.
        canonical_variables_digest: Vec<u8>,
        /// Digest of the opaque basis request bytes.
        basis_request_digest: crate::ident::Hash,
        /// Digest of the opaque aperture request bytes.
        aperture_request_digest: crate::ident::Hash,
        /// Structured invocation obstruction kind.
        obstruction: InvocationObstructionKind,
    },
    /// Echo refused capability grant validation before treating grant material
    /// as authority.
    CapabilityGrantValidationObstructed {
        /// Presentation identity supplied by the caller.
        presentation_id: String,
        /// Grant id named by the presentation, when structurally available.
        grant_id: Option<String>,
        /// Echo-owned runtime-local artifact handle id being covered.
        artifact_handle_id: String,
        /// Registered artifact hash Echo expected the grant to cover.
        expected_artifact_hash: String,
        /// Artifact hash named by the grant material, when available.
        grant_artifact_hash: Option<String>,
        /// Registered operation id Echo expected the grant to cover.
        expected_operation_id: String,
        /// Operation id named by the grant material, when available.
        grant_operation_id: Option<String>,
        /// Registered requirements digest Echo expected the grant to cover.
        expected_requirements_digest: String,
        /// Requirements digest named by the grant material, when available.
        grant_requirements_digest: Option<String>,
        /// Structured capability grant validation obstruction kind.
        obstruction: CapabilityGrantValidationObstructionKind,
    },
}

/// Big-endian bytes of a 64-bit length.
pub open spec fn u64_be(n: u64) -> Seq<u8> {
    seq![
        (n >> 56) as u8,
        (n >> 48) as u8,
        (n >> 40) as u8,
        (n >> 32) as u8,
        (n >> 24) as u8,
        (n >> 16) as u8,
        (n >> 8) as u8,
        n as u8,
    ]
}

/// A value prefixed by its big-endian 64-bit length.
pub open spec fn be_len_prefixed(v: Seq<u8>) -> Seq<u8> {
    u64_be(v.len() as u64) + v
}

/// A tagged digest field: the tag, then the value, each length-prefixed.
pub open spec fn digest_field(tag: Seq<u8>, value: Seq<u8>) -> Seq<u8> {
    be_len_prefixed(tag) + be_len_prefixed(value)
}

/// A tagged optional field: the tag, then `0`, or `1` and the length-prefixed value.
pub open spec fn optional_digest_field(tag: Seq<u8>, value: Option<Seq<u8>>) -> Seq<u8> {
    be_len_prefixed(tag) + match value {
        Some(v) => seq![1u8] + be_len_prefixed(v),
        None => seq![0u8],
    }
}

/// UTF-8 bytes of an optional string.
pub open spec fn opt_text(s: Option<String>) -> Option<Seq<u8>> {
    match s {
        Some(x) => Some(encode_utf8(x@)),
        None => None,
    }
}

fn push_be_len_prefixed(out: &mut Vec<u8>, v: &[u8])
    ensures
        final(out)@ == old(out)@ + be_len_prefixed(v@),
{
    let n = v.len() as u64;
    out.push((n >> 56) as u8);
    out.push((n >> 48) as u8);
    out.push((n >> 40) as u8);
    out.push((n >> 32) as u8);
    out.push((n >> 24) as u8);
    out.push((n >> 16) as u8);
    out.push((n >> 8) as u8);
    out.push(n as u8);
    push_slice(out, v);
    assert(out@ =~= old(out)@ + be_len_prefixed(v@));
}

fn push_digest_field(out: &mut Vec<u8>, tag: &[u8], value: &[u8])
    ensures
        final(out)@ == old(out)@ + digest_field(tag@, value@),
{
    push_be_len_prefixed(out, tag);
    push_be_len_prefixed(out, value);
    assert(out@ =~= old(out)@ + digest_field(tag@, value@));
}

fn push_optional_digest_field(out: &mut Vec<u8>, tag: &[u8], value: &Option<String>)
    ensures
        final(out)@ == old(out)@ + optional_digest_field(tag@, opt_text(*value)),
{
    push_be_len_prefixed(out, tag);
    match value {
        Some(v) => {
            out.push(1u8);
            push_be_len_prefixed(out, v.as_str().as_bytes());
        },
        None => {
            out.push(0u8);
        },
    }
    assert(out@ =~= old(out)@ + optional_digest_field(tag@, opt_text(*value)));
}

/// Domain of fact digests.
pub open spec fn fact_domain() -> Seq<u8> {
    "echo.causal-fact.v0".spec_bytes()
}

/// Canonical bytes a fact digest is taken over: the domain, the variant, then
/// each field, each tagged.
pub open spec fn fact_digest_input(f: GraphFact) -> Seq<u8> {
    digest_field("domain".spec_bytes(), fact_domain()) + fact_body(f)
}

/// Variant and fields of a fact, each tagged.
pub open spec fn fact_body(f: GraphFact) -> Seq<u8> {
    match f {
        GraphFact::ArtifactRegistered { handle_id, artifact_hash, schema_id, operation_id, requirements_digest } =>
            digest_field("variant".spec_bytes(), "artifact-registered".spec_bytes()) + digest_field(
            "handle-id".spec_bytes(),
            encode_utf8(handle_id@),
        ) + digest_field("artifact-hash".spec_bytes(), encode_utf8(artifact_hash@)) + digest_field(
            "schema-id".spec_bytes(),
            encode_utf8(schema_id@),
        ) + digest_field("operation-id".spec_bytes(), encode_utf8(operation_id@)) + digest_field(
            "requirements-digest".spec_bytes(),
            encode_utf8(requirements_digest@),
        ),
        GraphFact::ArtifactRegistrationObstructed { artifact_hash, obstruction } => digest_field(
            "variant".spec_bytes(),
            "artifact-registration-obstructed".spec_bytes(),
        ) + optional_digest_field("artifact-hash".spec_bytes(), opt_text(artifact_hash)) + digest_field(
            "obstruction".spec_bytes(),
            obstruction.label_spec(),
        ),
        GraphFact::OpticInvocationObstructed {
            artifact_handle_id,
            operation_id,
            canonical_variables_digest,
            basis_request_digest,
            aperture_request_digest,
            obstruction,
        } => digest_field("variant".spec_bytes(), "optic-invocation-obstructed".spec_bytes()) + digest_field(
            "artifact-handle-id".spec_bytes(),
            encode_utf8(artifact_handle_id@),
        ) + digest_field("operation-id".spec_bytes(), encode_utf8(operation_id@)) + digest_field(
            "canonical-variables-digest".spec_bytes(),
            canonical_variables_digest@,
        ) + digest_field("basis-request-digest".spec_bytes(), basis_request_digest@) + digest_field(
            "aperture-request-digest".spec_bytes(),
            aperture_request_digest@,
        ) + digest_field("obstruction".spec_bytes(), obstruction.label_spec()),
        GraphFact::CapabilityGrantValidationObstructed {
            presentation_id,
            grant_id,
            artifact_handle_id,
            expected_artifact_hash,
            grant_artifact_hash,
            expected_operation_id,
            grant_operation_id,
            expected_requirements_digest,
            grant_requirements_digest,
            obstruction,
        } => digest_field("variant".spec_bytes(), "capability-grant-validation-obstructed".spec_bytes())
            + digest_field("presentation-id".spec_bytes(), encode_utf8(presentation_id@)) + optional_digest_field(
            "grant-id".spec_bytes(),
            opt_text(grant_id),
        ) + digest_field("artifact-handle-id".spec_bytes(), encode_utf8(artifact_handle_id@)) + digest_field(
            "expected-artifact-hash".spec_bytes(),
            encode_utf8(expected_artifact_hash@),
        ) + optional_digest_field("grant-artifact-hash".spec_bytes(), opt_text(grant_artifact_hash)) + digest_field(
            "expected-operation-id".spec_bytes(),
            encode_utf8(expected_operation_id@),
        ) + optional_digest_field("grant-operation-id".spec_bytes(), opt_text(grant_operation_id)) + digest_field(
            "expected-requirements-digest".spec_bytes(),
            encode_utf8(expected_requirements_digest@),
        ) + optional_digest_field("grant-requirements-digest".spec_bytes(), opt_text(grant_requirements_digest))
            + digest_field("obstruction".spec_bytes(), obstruction.label_spec()),
    }
}

fn push_artifact_registered(out: &mut Vec<u8>, f: &GraphFact)
    requires
        f is ArtifactRegistered,
    ensures
        final(out)@ == old(out)@ + fact_body(*f),
{
    proof {
        reveal_strlit("variant");
    }
    match f {
            GraphFact::ArtifactRegistered { handle_id, artifact_hash, schema_id, operation_id, requirements_digest } => {
                push_digest_field(out, "variant".as_bytes(), "artifact-registered".as_bytes());
                push_digest_field(out, "handle-id".as_bytes(), handle_id.as_str().as_bytes());
                push_digest_field(out, "artifact-hash".as_bytes(), artifact_hash.as_str().as_bytes());
                push_digest_field(out, "schema-id".as_bytes(), schema_id.as_str().as_bytes());
                push_digest_field(out, "operation-id".as_bytes(), operation_id.as_str().as_bytes());
                push_digest_field(out, "requirements-digest".as_bytes(), requirements_digest.as_str().as_bytes());
                proof {
                    reveal_strlit("artifact-registered");
                    reveal_strlit("handle-id");
                    reveal_strlit("artifact-hash");
                    reveal_strlit("schema-id");
                    reveal_strlit("operation-id");
                    reveal_strlit("requirements-digest");
                }
            },
        _ => {},
    }
    assert(out@ =~= old(out)@ + fact_body(*f));
}

fn push_artifact_registration_obstructed(out: &mut Vec<u8>, f: &GraphFact)
    requires
        f is ArtifactRegistrationObstructed,
    ensures
        final(out)@ == old(out)@ + fact_body(*f),
{
    proof {
        reveal_strlit("variant");
    }
    match f {
            GraphFact::ArtifactRegistrationObstructed { artifact_hash, obstruction } => {
                push_digest_field(out, "variant".as_bytes(), "artifact-registration-obstructed".as_bytes());
                push_optional_digest_field(out, "artifact-hash".as_bytes(), artifact_hash);
                push_digest_field(out, "obstruction".as_bytes(), obstruction.digest_label());
                proof {
                    reveal_strlit("artifact-registration-obstructed");
                    reveal_strlit("artifact-hash");
                    reveal_strlit("obstruction");
                }
            },
        _ => {},
    }
    assert(out@ =~= old(out)@ + fact_body(*f));
}

fn push_optic_invocation_obstructed(out: &mut Vec<u8>, f: &GraphFact)
    requires
        f is OpticInvocationObstructed,
    ensures
        final(out)@ == old(out)@ + fact_body(*f),
{
    proof {
        reveal_strlit("variant");
    }
    match f {
            GraphFact::OpticInvocationObstructed {
                artifact_handle_id,
                operation_id,
                canonical_variables_digest,
                basis_request_digest,
                aperture_request_digest,
                obstruction,
            } => {
                push_digest_field(out, "variant".as_bytes(), "optic-invocation-obstructed".as_bytes());
                push_digest_field(out, "artifact-handle-id".as_bytes(), artifact_handle_id.as_str().as_bytes());
                push_digest_field(out, "operation-id".as_bytes(), operation_id.as_str().as_bytes());
                push_digest_field(
                    out,
                    "canonical-variables-digest".as_bytes(),
                    canonical_variables_digest.as_slice(),
                );
                push_digest_field(out, "basis-request-digest".as_bytes(), basis_request_digest.as_slice());
                push_digest_field(out, "aperture-request-digest".as_bytes(), aperture_request_digest.as_slice());
                push_digest_field(out, "obstruction".as_bytes(), obstruction.digest_label());
                proof {
                    reveal_strlit("optic-invocation-obstructed");
                    reveal_strlit("artifact-handle-id");
                    reveal_strlit("operation-id");
                    reveal_strlit("canonical-variables-digest");
                    reveal_strlit("basis-request-digest");
                    reveal_strlit("aperture-request-digest");
                    reveal_strlit("obstruction");
                }
            },
        _ => {},
    }
    assert(out@ =~= old(out)@ + fact_body(*f));
}

#[verifier::spinoff_prover]
fn push_capability_grant_validation_obstructed(out: &mut Vec<u8>, f: &GraphFact)
    requires
        f is CapabilityGrantValidationObstructed,
    ensures
        final(out)@ == old(out)@ + fact_body(*f),
{
    proof {
        reveal_strlit("variant");
    }
    match f {
            GraphFact::CapabilityGrantValidationObstructed {
                presentation_id,
                grant_id,
                artifact_handle_id,
                expected_artifact_hash,
                grant_artifact_hash,
                expected_operation_id,
                grant_operation_id,
                expected_requirements_digest,
                grant_requirements_digest,
                obstruction,
            } => {
                push_digest_field(out, "variant".as_bytes(), "capability-grant-validation-obstructed".as_bytes());
                push_digest_field(out, "presentation-id".as_bytes(), presentation_id.as_str().as_bytes());
                push_optional_digest_field(out, "grant-id".as_bytes(), grant_id);
                push_digest_field(out, "artifact-handle-id".as_bytes(), artifact_handle_id.as_str().as_bytes());
                push_digest_field(
                    out,
                    "expected-artifact-hash".as_bytes(),
                    expected_artifact_hash.as_str().as_bytes(),
                );
                push_optional_digest_field(out, "grant-artifact-hash".as_bytes(), grant_artifact_hash);
                push_digest_field(
                    out,
                    "expected-operation-id".as_bytes(),
                    expected_operation_id.as_str().as_bytes(),
                );
                push_optional_digest_field(out, "grant-operation-id".as_bytes(), grant_operation_id);
                push_digest_field(
                    out,
                    "expected-requirements-digest".as_bytes(),
                    expected_requirements_digest.as_str().as_bytes(),
                );
                push_optional_digest_field(out, "grant-requirements-digest".as_bytes(), grant_requirements_digest);
                push_digest_field(out, "obstruction".as_bytes(), obstruction.digest_label());
                proof {
                    reveal_strlit("capability-grant-validation-obstructed");
                    reveal_strlit("presentation-id");
                    reveal_strlit("grant-id");
                    reveal_strlit("artifact-handle-id");
                    reveal_strlit("expected-artifact-hash");
                    reveal_strlit("grant-artifact-hash");
                    reveal_strlit("expected-operation-id");
                    reveal_strlit("grant-operation-id");
                    reveal_strlit("expected-requirements-digest");
                    reveal_strlit("grant-requirements-digest");
                    reveal_strlit("obstruction");
                }
            },
        _ => {},
    }
    assert(out@ =~= old(out)@ + fact_body(*f));
}

impl GraphFact {
    /// Computes the deterministic fact digest.
    pub fn digest(&self) -> (r: FactDigest)
        ensures
            r.bytes_spec()@ == blake3_digest(fact_digest_input(*self)),
    {
        let mut bytes: Vec<u8> = Vec::new();
        push_digest_field(&mut bytes, "domain".as_bytes(), "echo.causal-fact.v0".as_bytes());
        let ghost start = bytes@;
        proof {
            reveal_strlit("domain");
            reveal_strlit("echo.causal-fact.v0");
            reveal_strlit("variant");
        }
        match self {
            GraphFact::ArtifactRegistered { .. } => push_artifact_registered(&mut bytes, self),
            GraphFact::ArtifactRegistrationObstructed { .. } => push_artifact_registration_obstructed(&mut bytes, self),
            GraphFact::OpticInvocationObstructed { .. } => push_optic_invocation_obstructed(&mut bytes, self),
            GraphFact::CapabilityGrantValidationObstructed { .. } => push_capability_grant_validation_obstructed(
                &mut bytes,
                self,
            ),
        }
        assert(bytes@ =~= fact_digest_input(*self));
        FactDigest(blake3_hash(bytes.as_slice()))
    }
}

/// Deterministic digest of opaque invocation request bytes named inside graph facts.
pub fn digest_invocation_request_bytes(domain: &[u8], bytes: &[u8]) -> (r: crate::ident::Hash)
    ensures
        r@ == blake3_digest(digest_field("domain".spec_bytes(), domain@) + digest_field("bytes".spec_bytes(), bytes@)),
{
    let mut input: Vec<u8> = Vec::new();
    push_digest_field(&mut input, "domain".as_bytes(), domain);
    push_digest_field(&mut input, "bytes".as_bytes(), bytes);
    blake3_hash(input.as_slice())
}

/// Graph fact plus its deterministic digest.
#[derive(Clone, Debug, PartialEq, Eq)]
pub struct PublishedGraphFact {
    /// Published fact.
    pub fact: GraphFact,
    /// Digest computed from the fact.
    pub digest: FactDigest,
}

impl PublishedGraphFact {
    /// Publishes a fact by computing its digest.
    pub fn new(fact: GraphFact) -> (r: Self)
        ensures
            r.fact == fact,
            r.digest.bytes_spec()@ == blake3_digest(fact_digest_input(fact)),
    {
        let digest = fact.digest();
        PublishedGraphFact { fact, digest }
    }
}

/// Receipt kind for artifact registration publication.
pub const ARTIFACT_REGISTRATION_RECEIPT_KIND: &'static str = "artifact-registration-receipt";

/// Receipt linking artifact registration to the graph fact it published.
#[derive(Clone, Debug, PartialEq, Eq)]
pub struct ArtifactRegistrationReceipt {
    /// Stable discriminator for callers and wire adapters.
    pub kind: String,
    /// Echo-owned runtime-local handle id issued by registration.
    pub handle_id: String,
    /// Wesley artifact hash registered by Echo.
    pub artifact_hash: String,
    /// Wesley operation id registered by Echo.
    pub operation_id: String,
    /// Digest of the `ArtifactRegistered` graph fact.
    pub fact_digest: FactDigest,
}

/// The bytes of an ASCII string are its characters, one byte each.
proof fn lemma_ascii_bytes(s: &str)
    requires
        is_ascii(s),
    ensures
        s.spec_bytes().len() == s@.len(),
        forall|i: int| 0 <= i < s@.len() ==> #[trigger] s.spec_bytes()[i] == s@[i] as u8,
{
    broadcast use vstd::string::is_ascii_spec_bytes;
    assert(s.spec_bytes() =~= Seq::new(s@.len(), |i| s@.index(i) as u8));
}

/// Distinct registration obstructions carry distinct labels.
pub proof fn lemma_registration_labels_distinct(a: ArtifactRegistrationObstructionKind, b: ArtifactRegistrationObstructionKind)
    requires
        a.label_spec() == b.label_spec(),
    ensures
        a == b,
{
    reveal_strlit("artifact-id-mismatch");
    reveal_strlit("artifact-hash-mismatch");
    reveal_strlit("schema-id-mismatch");
    reveal_strlit("operation-id-mismatch");
    reveal_strlit("requirements-digest-mismatch");
    lemma_ascii_bytes("artifact-id-mismatch");
    lemma_ascii_bytes("artifact-hash-mismatch");
    lemma_ascii_bytes("schema-id-mismatch");
    lemma_ascii_bytes("operation-id-mismatch");
    lemma_ascii_bytes("requirements-digest-mismatch");
}

/// Distinct invocation obstructions carry distinct labels.
pub proof fn lemma_invocation_labels_distinct(a: InvocationObstructionKind, b: InvocationObstructionKind)
    requires
        a.label_spec() == b.label_spec(),
    ensures
        a == b,
{
    reveal_strlit("unknown-handle");
    lemma_ascii_bytes("unknown-handle");
    reveal_strlit("operation-mismatch");
    lemma_ascii_bytes("operation-mismatch");
    reveal_strlit("missing-basis-request");
    lemma_ascii_bytes("missing-basis-request");
    reveal_strlit("missing-aperture-request");
    lemma_ascii_bytes("missing-aperture-request");
    reveal_strlit("unsupported-basis-resolution");
    lemma_ascii_bytes("unsupported-basis-resolution");
    reveal_strlit("unsupported-aperture-resolution");
    lemma_ascii_bytes("unsupported-aperture-resolution");
    reveal_strlit("missing-capability");
    lemma_ascii_bytes("missing-capability");
    reveal_strlit("malformed-capability-presentation");
    lemma_ascii_bytes("malformed-capability-presentation");
    reveal_strlit("unbound-capability-presentation");
    lemma_ascii_bytes("unbound-capability-presentation");
    reveal_strlit("capability-validation-unavailable");
    lemma_ascii_bytes("capability-validation-unavailable");
    assert("operation-mismatch".spec_bytes()[0] != "missing-capability".spec_bytes()[0]);
    assert("unsupported-aperture-resolution".spec_bytes()[2] != "unbound-capability-presentation".spec_bytes()[2]);
    assert("malformed-capability-presentation".spec_bytes()[0] != "capability-validation-unavailable".spec_bytes()[0]);
}

/// Distinct grant-validation obstructions carry distinct labels.
pub proof fn lemma_grant_labels_distinct(a: CapabilityGrantValidationObstructionKind, b: CapabilityGrantValidationObstructionKind)
    requires
        a.label_spec() == b.label_spec(),
    ensures
        a == b,
{
    reveal_strlit("malformed-capability-presentation");
    lemma_ascii_bytes("malformed-capability-presentation");
    reveal_strlit("unbound-capability-presentation");
    lemma_ascii_bytes("unbound-capability-presentation");
    reveal_strlit("unknown-grant");
    lemma_ascii_bytes("unknown-grant");
    reveal_strlit("artifact-hash-mismatch");
    lemma_ascii_bytes("artifact-hash-mismatch");
    reveal_strlit("operation-id-mismatch");
    lemma_ascii_bytes("operation-id-mismatch");
    reveal_strlit("requirements-digest-mismatch");
    lemma_ascii_bytes("requirements-digest-mismatch");
    reveal_strlit("expired-grant");
    lemma_ascii_bytes("expired-grant");
    assert("unknown-grant".spec_bytes()[0] != "expired-grant".spec_bytes()[0]);
}

/// Views of an optional string.
pub open spec fn opt_view(s: Option<String>) -> Option<Seq<char>> {
    match s {
        Some(x) => Some(x@),
        None => None,
    }
}

proof fn lemma_u64_be_injective(a: u64, b: u64)
    requires
        u64_be(a) == u64_be(b),
    ensures
        a == b,
{
    assert(u64_be(a)[0] == u64_be(b)[0]);
    assert(u64_be(a)[1] == u64_be(b)[1]);
    assert(u64_be(a)[2] == u64_be(b)[2]);
    assert(u64_be(a)[3] == u64_be(b)[3]);
    assert(u64_be(a)[4] == u64_be(b)[4]);
    assert(u64_be(a)[5] == u64_be(b)[5]);
    assert(u64_be(a)[6] == u64_be(b)[6]);
    assert(u64_be(a)[7] == u64_be(b)[7]);
    assert(a == b) by (bit_vector)
        requires
            (a >> 56) as u8 == (b >> 56) as u8,
            (a >> 48) as u8 == (b >> 48) as u8,
            (a >> 40) as u8 == (b >> 40) as u8,
            (a >> 32) as u8 == (b >> 32) as u8,
            (a >> 24) as u8 == (b >> 24) as u8,
            (a >> 16) as u8 == (b >> 16) as u8,
            (a >> 8) as u8 == (b >> 8) as u8,
            a as u8 == b as u8,
    ;
}

/// Peels a length-prefixed value off two equal byte strings.
proof fn lemma_peel_be(v1: Seq<u8>, r1: Seq<u8>, v2: Seq<u8>, r2: Seq<u8>)
    requires
        be_len_prefixed(v1) + r1 == be_len_prefixed(v2) + r2,
        v1.len() <= u64::MAX,
        v2.len() <= u64::MAX,
    ensures
        v1 == v2,
        r1 == r2,
{
    let s1 = be_len_prefixed(v1) + r1;
    let s2 = be_len_prefixed(v2) + r2;
    assert(s1.take(8) =~= u64_be(v1.len() as u64));
    assert(s2.take(8) =~= u64_be(v2.len() as u64));
    lemma_u64_be_injective(v1.len() as u64, v2.len() as u64);
    assert(s1.subrange(8, 8 + v1.len() as int) =~= v1);
    assert(s2.subrange(8, 8 + v2.len() as int) =~= v2);
    assert(s1.skip(8 + v1.len() as int) =~= r1);
    assert(s2.skip(8 + v2.len() as int) =~= r2);
}

proof fn lemma_peel_field(t: Seq<u8>, v1: Seq<u8>, r1: Seq<u8>, v2: Seq<u8>, r2: Seq<u8>)
    requires
        digest_field(t, v1) + r1 == digest_field(t, v2) + r2,
        (digest_field(t, v1) + r1).len() <= u64::MAX,
    ensures
        v1 == v2,
        r1 == r2,
{
    assert(digest_field(t, v1) + r1 =~= be_len_prefixed(t) + (be_len_prefixed(v1) + r1));
    assert(digest_field(t, v2) + r2 =~= be_len_prefixed(t) + (be_len_prefixed(v2) + r2));
    lemma_peel_be(t, be_len_prefixed(v1) + r1, t, be_len_prefixed(v2) + r2);
    lemma_peel_be(v1, r1, v2, r2);
}

proof fn lemma_peel_opt_field(t: Seq<u8>, o1: Option<Seq<u8>>, r1: Seq<u8>, o2: Option<Seq<u8>>, r2: Seq<u8>)
    requires
        optional_digest_field(t, o1) + r1 == optional_digest_field(t, o2) + r2,
        (optional_digest_field(t, o1) + r1).len() <= u64::MAX,
    ensures
        o1 == o2,
        r1 == r2,
{
    let b1 = match o1 {
        Some(v) => seq![1u8] + be_len_prefixed(v),
        None => seq![0u8],
    };
    let b2 = match o2 {
        Some(v) => seq![1u8] + be_len_prefixed(v),
        None => seq![0u8],
    };
    assert(optional_digest_field(t, o1) + r1 =~= be_len_prefixed(t) + (b1 + r1));
    assert(optional_digest_field(t, o2) + r2 =~= be_len_prefixed(t) + (b2 + r2));
    lemma_peel_be(t, b1 + r1, t, b2 + r2);
    let c1 = b1 + r1;
    let c2 = b2 + r2;
    assert(c1[0] == c2[0]);
    match (o1, o2) {
        (Some(v1), Some(v2)) => {
            assert(c1.drop_first() =~= be_len_prefixed(v1) + r1);
            assert(c2.drop_first() =~= be_len_prefixed(v2) + r2);
            lemma_peel_be(v1, r1, v2, r2);
        },
        (None, None) => {
            assert(c1.drop_first() =~= r1);
            assert(c2.drop_first() =~= r2);
        },
        _ => {},
    }
}

proof fn lemma_text_eq(a: Seq<char>, b: Seq<char>)
    requires
        encode_utf8(a) == encode_utf8(b),
    ensures
        a == b,
{
    vstd::utf8::encode_utf8_decode_utf8(a);
    vstd::utf8::encode_utf8_decode_utf8(b);
}

proof fn lemma_opt_text_eq(a: Option<String>, b: Option<String>)
    requires
        opt_text(a) == opt_text(b),
    ensures
        opt_view(a) == opt_view(b),
{
    match (a, b) {
        (Some(x), Some(y)) => lemma_text_eq(x@, y@),
        _ => {},
    }
}

proof fn lemma_hash_eq_by_view(a: crate::ident::Hash, b: crate::ident::Hash)
    requires
        a@ == b@,
    ensures
        a == b,
{
    assert forall|i: int| 0 <= i < 32 implies a[i] == b[i] by {
        assert(a@[i] == b@[i]);
    }
    assert(a =~= b);
}

/// Two facts hold the same variant and the same field contents (strings by
/// their characters).
pub open spec fn facts_same(a: GraphFact, b: GraphFact) -> bool {
    match (a, b) {
        (GraphFact::ArtifactRegistered { handle_id: handle_id1, artifact_hash: artifact_hash1, schema_id: schema_id1, operation_id: operation_id1, requirements_digest: requirements_digest1 }, GraphFact::ArtifactRegistered { handle_id: handle_id2, artifact_hash: artifact_hash2, schema_id: schema_id2, operation_id: operation_id2, requirements_digest: requirements_digest2 }) => handle_id1@ == handle_id2@ && artifact_hash1@ == artifact_hash2@ && schema_id1@ == schema_id2@ && operation_id1@ == operation_id2@ && requirements_digest1@ == requirements_digest2@,
        (GraphFact::ArtifactRegistrationObstructed { artifact_hash: artifact_hash1, obstruction: obstruction1 }, GraphFact::ArtifactRegistrationObstructed { artifact_hash: artifact_hash2, obstruction: obstruction2 }) => opt_view(artifact_hash1) == opt_view(artifact_hash2) && obstruction1 == obstruction2,
        (GraphFact::OpticInvocationObstructed { artifact_handle_id: artifact_handle_id1, operation_id: operation_id1, canonical_variables_digest: canonical_variables_digest1, basis_request_digest: basis_request_digest1, aperture_request_digest: aperture_request_digest1, obstruction: obstruction1 }, GraphFact::OpticInvocationObstructed { artifact_handle_id: artifact_handle_id2, operation_id: operation_id2, canonical_variables_digest: canonical_variables_digest2, basis_request_digest: basis_request_digest2, aperture_request_digest: aperture_request_digest2, obstruction: obstruction2 }) => artifact_handle_id1@ == artifact_handle_id2@ && operation_id1@ == operation_id2@ && canonical_variables_digest1@ == canonical_variables_digest2@ && basis_request_digest1 == basis_request_digest2 && aperture_request_digest1 == aperture_request_digest2 && obstruction1 == obstruction2,
        (GraphFact::CapabilityGrantValidationObstructed { presentation_id: presentation_id1, grant_id: grant_id1, artifact_handle_id: artifact_handle_id1, expected_artifact_hash: expected_artifact_hash1, grant_artifact_hash: grant_artifact_hash1, expected_operation_id: expected_operation_id1, grant_operation_id: grant_operation_id1, expected_requirements_digest: expected_requirements_digest1, grant_requirements_digest: grant_requirements_digest1, obstruction: obstruction1 }, GraphFact::CapabilityGrantValidationObstructed { presentation_id: presentation_id2, grant_id: grant_id2, artifact_handle_id: artifact_handle_id2, expected_artifact_hash: expected_artifact_hash2, grant_artifact_hash: grant_artifact_hash2, expected_operation_id: expected_operation_id2, grant_operation_id: grant_operation_id2, expected_requirements_digest: expected_requirements_digest2, grant_requirements_digest: grant_requirements_digest2, obstruction: obstruction2 }) => presentation_id1@ == presentation_id2@ && opt_view(grant_id1) == opt_view(grant_id2) && artifact_handle_id1@ == artifact_handle_id2@ && expected_artifact_hash1@ == expected_artifact_hash2@ && opt_view(grant_artifact_hash1) == opt_view(grant_artifact_hash2) && expected_operation_id1@ == expected_operation_id2@ && opt_view(grant_operation_id1) == opt_view(grant_operation_id2) && expected_requirements_digest1@ == expected_requirements_digest2@ && opt_view(grant_requirements_digest1) == opt_view(grant_requirements_digest2) && obstruction1 == obstruction2,
        _ => false,
    }
}

/// Facts of one variant with equal bodies hold equal fields.
#[verifier::spinoff_prover]
#[verifier::rlimit(60)]
proof fn lemma_artifact_registered_body_injective(a: GraphFact, b: GraphFact)
    requires
        a is ArtifactRegistered,
        b is ArtifactRegistered,
        fact_body(a) == fact_body(b),
        fact_body(a).len() <= u64::MAX,
    ensures
        facts_same(a, b),
{
    match (a, b) {
        (GraphFact::ArtifactRegistered { handle_id: handle_id1, artifact_hash: artifact_hash1, schema_id: schema_id1, operation_id: operation_id1, requirements_digest: requirements_digest1 }, GraphFact::ArtifactRegistered { handle_id: handle_id2, artifact_hash: artifact_hash2, schema_id: schema_id2, operation_id: operation_id2, requirements_digest: requirements_digest2 }) => {
    let pa1 = digest_field("variant".spec_bytes(), "artifact-registered".spec_bytes());
    let pa2 = digest_field("handle-id".spec_bytes(), encode_utf8(handle_id1@));
    let pa3 = digest_field("artifact-hash".spec_bytes(), encode_utf8(artifact_hash1@));
    let pa4 = digest_field("schema-id".spec_bytes(), encode_utf8(schema_id1@));
    let pa5 = digest_field("operation-id".spec_bytes(), encode_utf8(operation_id1@));
    let pa6 = digest_field("requirements-digest".spec_bytes(), encode_utf8(requirements_digest1@));
    let la1 = pa1;
    let la2 = la1 + pa2;
    let la3 = la2 + pa3;
    let la4 = la3 + pa4;
    let la5 = la4 + pa5;
    let la6 = la5 + pa6;
    let ra6 = pa6;
    let ra5 = pa5 + ra6;
    let ra4 = pa4 + ra5;
    let ra3 = pa3 + ra4;
    let ra2 = pa2 + ra3;
    let ra1 = pa1 + ra2;
    assert(fact_body(a) == la6);
    vstd::seq_lib::lemma_concat_associative(la4, pa5, ra6);
    vstd::seq_lib::lemma_concat_associative(la3, pa4, ra5);
    vstd::seq_lib::lemma_concat_associative(la2, pa3, ra4);
    vstd::seq_lib::lemma_concat_associative(la1, pa2, ra3);
    assert(fact_body(a) == ra1);
    let pb1 = digest_field("variant".spec_bytes(), "artifact-registered".spec_bytes());
    let pb2 = digest_field("handle-id".spec_bytes(), encode_utf8(handle_id2@));
    let pb3 = digest_field("artifact-hash".spec_bytes(), encode_utf8(artifact_hash2@));
    let pb4 = digest_field("schema-id".spec_bytes(), encode_utf8(schema_id2@));
    let pb5 = digest_field("operation-id".spec_bytes(), encode_utf8(operation_id2@));
    let pb6 = digest_field("requirements-digest".spec_bytes(), encode_utf8(requirements_digest2@));
    let lb1 = pb1;
    let lb2 = lb1 + pb2;
    let lb3 = lb2 + pb3;
    let lb4 = lb3 + pb4;
    let lb5 = lb4 + pb5;
    let lb6 = lb5 + pb6;
    let rb6 = pb6;
    let rb5 = pb5 + rb6;
    let rb4 = pb4 + rb5;
    let rb3 = pb3 + rb4;
    let rb2 = pb2 + rb3;
    let rb1 = pb1 + rb2;
    assert(fact_body(b) == lb6);
    vstd::seq_lib::lemma_concat_associative(lb4, pb5, rb6);
    vstd::seq_lib::lemma_concat_associative(lb3, pb4, rb5);
    vstd::seq_lib::lemma_concat_associative(lb2, pb3, rb4);
    vstd::seq_lib::lemma_concat_associative(lb1, pb2, rb3);
    assert(fact_body(b) == rb1);
    lemma_peel_field("variant".spec_bytes(), "artifact-registered".spec_bytes(), ra2, "artifact-registered".spec_bytes(), rb2);
    lemma_peel_field("handle-id".spec_bytes(), encode_utf8(handle_id1@), ra3, encode_utf8(handle_id2@), rb3);
    lemma_text_eq(handle_id1@, handle_id2@);
    lemma_peel_field("artifact-hash".spec_bytes(), encode_utf8(artifact_hash1@), ra4, encode_utf8(artifact_hash2@), rb4);
    lemma_text_eq(artifact_hash1@, artifact_hash2@);
    lemma_peel_field("schema-id".spec_bytes(), encode_utf8(schema_id1@), ra5, encode_utf8(schema_id2@), rb5);
    lemma_text_eq(schema_id1@, schema_id2@);
    lemma_peel_field("operation-id".spec_bytes(), encode_utf8(operation_id1@), ra6, encode_utf8(operation_id2@), rb6);
    lemma_text_eq(operation_id1@, operation_id2@);
    assert(ra6 + Seq::<u8>::empty() =~= ra6);
    assert(rb6 + Seq::<u8>::empty() =~= rb6);
    lemma_peel_field("requirements-digest".spec_bytes(), encode_utf8(requirements_digest1@), Seq::empty(), encode_utf8(requirements_digest2@), Seq::empty());
    lemma_text_eq(requirements_digest1@, requirements_digest2@);
        },
        _ => {},
    }
}

/// Facts of one variant with equal bodies hold equal fields.
#[verifier::spinoff_prover]
#[verifier::rlimit(60)]
proof fn lemma_registration_obstructed_body_injective(a: GraphFact, b: GraphFact)
    requires
        a is ArtifactRegistrationObstructed,
        b is ArtifactRegistrationObstructed,
        fact_body(a) == fact_body(b),
        fact_body(a).len() <= u64::MAX,
    ensures
        facts_same(a, b),
{
    match (a, b) {
        (GraphFact::ArtifactRegistrationObstructed { artifact_hash: artifact_hash1, obstruction: obstruction1 }, GraphFact::ArtifactRegistrationObstructed { artifact_hash: artifact_hash2, obstruction: obstruction2 }) => {
    let pa1 = digest_field("variant".spec_bytes(), "artifact-registration-obstructed".spec_bytes());
    let pa2 = optional_digest_field("artifact-hash".spec_bytes(), opt_text(artifact_hash1));
    let pa3 = digest_field("obstruction".spec_bytes(), obstruction1.label_spec());
    let la1 = pa1;
    let la2 = la1 + pa2;
    let la3 = la2 + pa3;
    let ra3 = pa3;
    let ra2 = pa2 + ra3;
    let ra1 = pa1 + ra2;
    assert(fact_body(a) == la3);
    vstd::seq_lib::lemma_concat_associative(la1, pa2, ra3);
    assert(fact_body(a) == ra1);
    let pb1 = digest_field("variant".spec_bytes(), "artifact-registration-obstructed".spec_bytes());
    let pb2 = optional_digest_field("artifact-hash".spec_bytes(), opt_text(artifact_hash2));
    let pb3 = digest_field("obstruction".spec_bytes(), obstruction2.label_spec());
    let lb1 = pb1;
    let lb2 = lb1 + pb2;
    let lb3 = lb2 + pb3;
    let rb3 = pb3;
    let rb2 = pb2 + rb3;
    let rb1 = pb1 + rb2;
    assert(fact_body(b) == lb3);
    vstd::seq_lib::lemma_concat_associative(lb1, pb2, rb3);
    assert(fact_body(b) == rb1);
    lemma_peel_field("variant".spec_bytes(), "artifact-registration-obstructed".spec_bytes(), ra2, "artifact-registration-obstructed".spec_bytes(), rb2);
    lemma_peel_opt_field("artifact-hash".spec_bytes(), opt_text(artifact_hash1), ra3, opt_text(artifact_hash2), rb3);
    lemma_opt_text_eq(artifact_hash1, artifact_hash2);
    assert(ra3 + Seq::<u8>::empty() =~= ra3);
    assert(rb3 + Seq::<u8>::empty() =~= rb3);
    lemma_peel_field("obstruction".spec_bytes(), obstruction1.label_spec(), Seq::empty(), obstruction2.label_spec(), Seq::empty());
    lemma_registration_labels_distinct(obstruction1, obstruction2);
        },
        _ => {},
    }
}

/// Facts of one variant with equal bodies hold equal fields.
#[verifier::spinoff_prover]
#[verifier::rlimit(60)]
proof fn lemma_invocation_obstructed_body_injective(a: GraphFact, b: GraphFact)
    requires
        a is OpticInvocationObstructed,
        b is OpticInvocationObstructed,
        fact_body(a) == fact_body(b),
        fact_body(a).len() <= u64::MAX,
    ensures
        facts_same(a, b),
{
    match (a, b) {
        (GraphFact::OpticInvocationObstructed { artifact_handle_id: artifact_handle_id1, operation_id: operation_id1, canonical_variables_digest: canonical_variables_digest1, basis_request_digest: basis_request_digest1, aperture_request_digest: aperture_request_digest1, obstruction: obstruction1 }, GraphFact::OpticInvocationObstructed { artifact_handle_id: artifact_handle_id2, operation_id: operation_id2, canonical_variables_digest: canonical_variables_digest2, basis_request_digest: basis_request_digest2, aperture_request_digest: aperture_request_digest2, obstruction: obstruction2 }) => {
    let pa1 = digest_field("variant".spec_bytes(), "optic-invocation-obstructed".spec_bytes());
    let pa2 = digest_field("artifact-handle-id".spec_bytes(), encode_utf8(artifact_handle_id1@));
    let pa3 = digest_field("operation-id".spec_bytes(), encode_utf8(operation_id1@));
    let pa4 = digest_field("canonical-variables-digest".spec_bytes(), canonical_variables_digest1@);
    let pa5 = digest_field("basis-request-digest".spec_bytes(), basis_request_digest1@);
    let pa6 = digest_field("aperture-request-digest".spec_bytes(), aperture_request_digest1@);
    let pa7 = digest_field("obstruction".spec_bytes(), obstruction1.label_spec());
    let la1 = pa1;
    let la2 = la1 + pa2;
    let la3 = la2 + pa3;
    let la4 = la3 + pa4;
    let la5 = la4 + pa5;
    let la6 = la5 + pa6;
    let la7 = la6 + pa7;
    let ra7 = pa7;
    let ra6 = pa6 + ra7;
    let ra5 = pa5 + ra6;
    let ra4 = pa4 + ra5;
    let ra3 = pa3 + ra4;
    let ra2 = pa2 + ra3;
    let ra1 = pa1 + ra2;
    assert(fact_body(a) == la7);
    vstd::seq_lib::lemma_concat_associative(la5, pa6, ra7);
    vstd::seq_lib::lemma_concat_associative(la4, pa5, ra6);
    vstd::seq_lib::lemma_concat_associative(la3, pa4, ra5);
    vstd::seq_lib::lemma_concat_associative(la2, pa3, ra4);
    vstd::seq_lib::lemma_concat_associative(la1, pa2, ra3);
    assert(fact_body(a) == ra1);
    let pb1 = digest_field("variant".spec_bytes(), "optic-invocation-obstructed".spec_bytes());
    let pb2 = digest_field("artifact-handle-id".spec_bytes(), encode_utf8(artifact_handle_id2@));
    let pb3 = digest_field("operation-id".spec_bytes(), encode_utf8(operation_id2@));
    let pb4 = digest_field("canonical-variables-digest".spec_bytes(), canonical_variables_digest2@);
    let pb5 = digest_field("basis-request-digest".spec_bytes(), basis_request_digest2@);
    let pb6 = digest_field("aperture-request-digest".spec_bytes(), aperture_request_digest2@);
    let pb7 = digest_field("obstruction".spec_bytes(), obstruction2.label_spec());
    let lb1 = pb1;
    let lb2 = lb1 + pb2;
    let lb3 = lb2 + pb3;
    let lb4 = lb3 + pb4;
    let lb5 = lb4 + pb5;
    let lb6 = lb5 + pb6;
    let lb7 = lb6 + pb7;
    let rb7 = pb7;
    let rb6 = pb6 + rb7;
    let rb5 = pb5 + rb6;
    let rb4 = pb4 + rb5;
    let rb3 = pb3 + rb4;
    let rb2 = pb2 + rb3;
    let rb1 = pb1 + rb2;
    assert(fact_body(b) == lb7);
    vstd::seq_lib::lemma_concat_associative(lb5, pb6, rb7);
    vstd::seq_lib::lemma_concat_associative(lb4, pb5, rb6);
    vstd::seq_lib::lemma_concat_associative(lb3, pb4, rb5);
    vstd::seq_lib::lemma_concat_associative(lb2, pb3, rb4);
    vstd::seq_lib::lemma_concat_associative(lb1, pb2, rb3);
    assert(fact_body(b) == rb1);
    lemma_peel_field("variant".spec_bytes(), "optic-invocation-obstructed".spec_bytes(), ra2, "optic-invocation-obstructed".spec_bytes(), rb2);
    lemma_peel_field("artifact-handle-id".spec_bytes(), encode_utf8(artifact_handle_id1@), ra3, encode_utf8(artifact_handle_id2@), rb3);
    lemma_text_eq(artifact_handle_id1@, artifact_handle_id2@);
    lemma_peel_field("operation-id".spec_bytes(), encode_utf8(operation_id1@), ra4, encode_utf8(operation_id2@), rb4);
    lemma_text_eq(operation_id1@, operation_id2@);
    lemma_peel_field("canonical-variables-digest".spec_bytes(), canonical_variables_digest1@, ra5, canonical_variables_digest2@, rb5);
    lemma_peel_field("basis-request-digest".spec_bytes(), basis_request_digest1@, ra6, basis_request_digest2@, rb6);
    lemma_hash_eq_by_view(basis_request_digest1, basis_request_digest2);
    lemma_peel_field("aperture-request-digest".spec_bytes(), aperture_request_digest1@, ra7, aperture_request_digest2@, rb7);
    lemma_hash_eq_by_view(aperture_request_digest1, aperture_request_digest2);
    assert(ra7 + Seq::<u8>::empty() =~= ra7);
    assert(rb7 + Seq::<u8>::empty() =~= rb7);
    lemma_peel_field("obstruction".spec_bytes(), obstruction1.label_spec(), Seq::empty(), obstruction2.label_spec(), Seq::empty());
    lemma_invocation_labels_distinct(obstruction1, obstruction2);
        },
        _ => {},
    }
}

/// Facts of one variant with equal bodies hold equal fields.
#[verifier::spinoff_prover]
#[verifier::rlimit(60)]
proof fn lemma_grant_obstructed_body_injective(a: GraphFact, b: GraphFact)
    requires
        a is CapabilityGrantValidationObstructed,
        b is CapabilityGrantValidationObstructed,
        fact_body(a) == fact_body(b),
        fact_body(a).len() <= u64::MAX,
    ensures
        facts_same(a, b),
{
    match (a, b) {
        (GraphFact::CapabilityGrantValidationObstructed { presentation_id: presentation_id1, grant_id: grant_id1, artifact_handle_id: artifact_handle_id1, expected_artifact_hash: expected_artifact_hash1, grant_artifact_hash: grant_artifact_hash1, expected_operation_id: expected_operation_id1, grant_operation_id: grant_operation_id1, expected_requirements_digest: expected_requirements_digest1, grant_requirements_digest: grant_requirements_digest1, obstruction: obstruction1 }, GraphFact::CapabilityGrantValidationObstructed { presentation_id: presentation_id2, grant_id: grant_id2, artifact_handle_id: artifact_handle_id2, expected_artifact_hash: expected_artifact_hash2, grant_artifact_hash: grant_artifact_hash2, expected_operation_id: expected_operation_id2, grant_operation_id: grant_operation_id2, expected_requirements_digest: expected_requirements_digest2, grant_requirements_digest: grant_requirements_digest2, obstruction: obstruction2 }) => {
    let pa1 = digest_field("variant".spec_bytes(), "capability-grant-validation-obstructed".spec_bytes());
    let pa2 = digest_field("presentation-id".spec_bytes(), encode_utf8(presentation_id1@));
    let pa3 = optional_digest_field("grant-id".spec_bytes(), opt_text(grant_id1));
    let pa4 = digest_field("artifact-handle-id".spec_bytes(), encode_utf8(artifact_handle_id1@));
    let pa5 = digest_field("expected-artifact-hash".spec_bytes(), encode_utf8(expected_artifact_hash1@));
    let pa6 = optional_digest_field("grant-artifact-hash".spec_bytes(), opt_text(grant_artifact_hash1));
    let pa7 = digest_field("expected-operation-id".spec_bytes(), encode_utf8(expected_operation_id1@));
    let pa8 = optional_digest_field("grant-operation-id".spec_bytes(), opt_text(grant_operation_id1));
    let pa9 = digest_field("expected-requirements-digest".spec_bytes(), encode_utf8(expected_requirements_digest1@));
    let pa10 = optional_digest_field("grant-requirements-digest".spec_bytes(), opt_text(grant_requirements_digest1));
    let pa11 = digest_field("obstruction".spec_bytes(), obstruction1.label_spec());
    let la1 = pa1;
    let la2 = la1 + pa2;
    let la3 = la2 + pa3;
    let la4 = la3 + pa4;
    let la5 = la4 + pa5;
    let la6 = la5 + pa6;
    let la7 = la6 + pa7;
    let la8 = la7 + pa8;
    let la9 = la8 + pa9;
    let la10 = la9 + pa10;
    let la11 = la10 + pa11;
    let ra11 = pa11;
    let ra10 = pa10 + ra11;
    let ra9 = pa9 + ra10;
    let ra8 = pa8 + ra9;
    let ra7 = pa7 + ra8;
    let ra6 = pa6 + ra7;
    let ra5 = pa5 + ra6;
    let ra4 = pa4 + ra5;
    let ra3 = pa3 + ra4;
    let ra2 = pa2 + ra3;
    let ra1 = pa1 + ra2;
    assert(fact_body(a) == la11);
    vstd::seq_lib::lemma_concat_associative(la9, pa10, ra11);
    vstd::seq_lib::lemma_concat_associative(la8, pa9, ra10);
    vstd::seq_lib::lemma_concat_associative(la7, pa8, ra9);
    vstd::seq_lib::lemma_concat_associative(la6, pa7, ra8);
    vstd::seq_lib::lemma_concat_associative(la5, pa6, ra7);
    vstd::seq_lib::lemma_concat_associative(la4, pa5, ra6);
    vstd::seq_lib::lemma_concat_associative(la3, pa4, ra5);
    vstd::seq_lib::lemma_concat_associative(la2, pa3, ra4);
    vstd::seq_lib::lemma_concat_associative(la1, pa2, ra3);
    assert(fact_body(a) == ra1);
    let pb1 = digest_field("variant".spec_bytes(), "capability-grant-validation-obstructed".spec_bytes());
    let pb2 = digest_field("presentation-id".spec_bytes(), encode_utf8(presentation_id2@));
    let pb3 = optional_digest_field("grant-id".spec_bytes(), opt_text(grant_id2));
    let pb4 = digest_field("artifact-handle-id".spec_bytes(), encode_utf8(artifact_handle_id2@));
    let pb5 = digest_field("expected-artifact-hash".spec_bytes(), encode_utf8(expected_artifact_hash2@));
    let pb6 = optional_digest_field("grant-artifact-hash".spec_bytes(), opt_text(grant_artifact_hash2));
    let pb7 = digest_field("expected-operation-id".spec_bytes(), encode_utf8(expected_operation_id2@));
    let pb8 = optional_digest_field("grant-operation-id".spec_bytes(), opt_text(grant_operation_id2));
    let pb9 = digest_field("expected-requirements-digest".spec_bytes(), encode_utf8(expected_requirements_digest2@));
    let pb10 = optional_digest_field("grant-requirements-digest".spec_bytes(), opt_text(grant_requirements_digest2));
    let pb11 = digest_field("obstruction".spec_bytes(), obstruction2.label_spec());
    let lb1 = pb1;
    let lb2 = lb1 + pb2;
    let lb3 = lb2 + pb3;
    let lb4 = lb3 + pb4;
    let lb5 = lb4 + pb5;
    let lb6 = lb5 + pb6;
    let lb7 = lb6 + pb7;
    let lb8 = lb7 + pb8;
    let lb9 = lb8 + pb9;
    let lb10 = lb9 + pb10;
    let lb11 = lb10 + pb11;
    let rb11 = pb11;
    let rb10 = pb10 + rb11;
    let rb9 = pb9 + rb10;
    let rb8 = pb8 + rb9;
    let rb7 = pb7 + rb8;
    let rb6 = pb6 + rb7;
    let rb5 = pb5 + rb6;
    let rb4 = pb4 + rb5;
    let rb3 = pb3 + rb4;
    let rb2 = pb2 + rb3;
    let rb1 = pb1 + rb2;
    assert(fact_body(b) == lb11);
    vstd::seq_lib::lemma_concat_associative(lb9, pb10, rb11);
    vstd::seq_lib::lemma_concat_associative(lb8, pb9, rb10);
    vstd::seq_lib::lemma_concat_associative(lb7, pb8, rb9);
    vstd::seq_lib::lemma_concat_associative(lb6, pb7, rb8);
    vstd::seq_lib::lemma_concat_associative(lb5, pb6, rb7);
    vstd::seq_lib::lemma_concat_associative(lb4, pb5, rb6);
    vstd::seq_lib::lemma_concat_associative(lb3, pb4, rb5);
    vstd::seq_lib::lemma_concat_associative(lb2, pb3, rb4);
    vstd::seq_lib::lemma_concat_associative(lb1, pb2, rb3);
    assert(fact_body(b) == rb1);
    lemma_peel_field("variant".spec_bytes(), "capability-grant-validation-obstructed".spec_bytes(), ra2, "capability-grant-validation-obstructed".spec_bytes(), rb2);
    lemma_peel_field("presentation-id".spec_bytes(), encode_utf8(presentation_id1@), ra3, encode_utf8(presentation_id2@), rb3);
    lemma_text_eq(presentation_id1@, presentation_id2@);
    lemma_peel_opt_field("grant-id".spec_bytes(), opt_text(grant_id1), ra4, opt_text(grant_id2), rb4);
    lemma_opt_text_eq(grant_id1, grant_id2);
    lemma_peel_field("artifact-handle-id".spec_bytes(), encode_utf8(artifact_handle_id1@), ra5, encode_utf8(artifact_handle_id2@), rb5);
    lemma_text_eq(artifact_handle_id1@, artifact_handle_id2@);
    lemma_peel_field("expected-artifact-hash".spec_bytes(), encode_utf8(expected_artifact_hash1@), ra6, encode_utf8(expected_artifact_hash2@), rb6);
    lemma_text_eq(expected_artifact_hash1@, expected_artifact_hash2@);
    lemma_peel_opt_field("grant-artifact-hash".spec_bytes(), opt_text(grant_artifact_hash1), ra7, opt_text(grant_artifact_hash2), rb7);
    lemma_opt_text_eq(grant_artifact_hash1, grant_artifact_hash2);
    lemma_peel_field("expected-operation-id".spec_bytes(), encode_utf8(expected_operation_id1@), ra8, encode_utf8(expected_operation_id2@), rb8);
    lemma_text_eq(expected_operation_id1@, expected_operation_id2@);
    lemma_peel_opt_field("grant-operation-id".spec_bytes(), opt_text(grant_operation_id1), ra9, opt_text(grant_operation_id2), rb9);
    lemma_opt_text_eq(grant_operation_id1, grant_operation_id2);
    lemma_peel_field("expected-requirements-digest".spec_bytes(), encode_utf8(expected_requirements_digest1@), ra10, encode_utf8(expected_requirements_digest2@), rb10);
    lemma_text_eq(expected_requirements_digest1@, expected_requirements_digest2@);
    lemma_peel_opt_field("grant-requirements-digest".spec_bytes(), opt_text(grant_requirements_digest1), ra11, opt_text(grant_requirements_digest2), rb11);
    lemma_opt_text_eq(grant_requirements_digest1, grant_requirements_digest2);
    assert(ra11 + Seq::<u8>::empty() =~= ra11);
    assert(rb11 + Seq::<u8>::empty() =~= rb11);
    lemma_peel_field("obstruction".spec_bytes(), obstruction1.label_spec(), Seq::empty(), obstruction2.label_spec(), Seq::empty());
    lemma_grant_labels_distinct(obstruction1, obstruction2);
        },
        _ => {},
    }
}

/// A fact body opens with its variant field.
#[verifier::spinoff_prover]
#[verifier::rlimit(60)]
proof fn lemma_artifact_registered_split(f: GraphFact)
    requires
        f is ArtifactRegistered,
    ensures
        exists|r: Seq<u8>| fact_body(f) == digest_field("variant".spec_bytes(), variant_label(f)) + r,
{
    match f {
        GraphFact::ArtifactRegistered { handle_id: handle_id1, artifact_hash: artifact_hash1, schema_id: schema_id1, operation_id: operation_id1, requirements_digest: requirements_digest1 } => {
            let p1 = digest_field("variant".spec_bytes(), "artifact-registered".spec_bytes());
            let p2 = digest_field("handle-id".spec_bytes(), encode_utf8(handle_id1@));
            let p3 = digest_field("artifact-hash".spec_bytes(), encode_utf8(artifact_hash1@));
            let p4 = digest_field("schema-id".spec_bytes(), encode_utf8(schema_id1@));
            let p5 = digest_field("operation-id".spec_bytes(), encode_utf8(operation_id1@));
            let p6 = digest_field("requirements-digest".spec_bytes(), encode_utf8(requirements_digest1@));
            let l1 = p1;
            let l2 = l1 + p2;
            let l3 = l2 + p3;
            let l4 = l3 + p4;
            let l5 = l4 + p5;
            let l6 = l5 + p6;
            let r6 = p6;
            let r5 = p5 + r6;
            let r4 = p4 + r5;
            let r3 = p3 + r4;
            let r2 = p2 + r3;
            let r1 = p1 + r2;
            assert(fact_body(f) == l6);
            vstd::seq_lib::lemma_concat_associative(l4, p5, r6);
            vstd::seq_lib::lemma_concat_associative(l3, p4, r5);
            vstd::seq_lib::lemma_concat_associative(l2, p3, r4);
            vstd::seq_lib::lemma_concat_associative(l1, p2, r3);
            assert(fact_body(f) == p1 + r2);
            assert(fact_body(f) == digest_field("variant".spec_bytes(), variant_label(f)) + r2);
        },
        _ => {},
    }
}

/// A fact body opens with its variant field.
#[verifier::spinoff_prover]
#[verifier::rlimit(60)]
proof fn lemma_registration_obstructed_split(f: GraphFact)
    requires
        f is ArtifactRegistrationObstructed,
    ensures
        exists|r: Seq<u8>| fact_body(f) == digest_field("variant".spec_bytes(), variant_label(f)) + r,
{
    match f {
        GraphFact::ArtifactRegistrationObstructed { artifact_hash: artifact_hash1, obstruction: obstruction1 } => {
            let p1 = digest_field("variant".spec_bytes(), "artifact-registration-obstructed".spec_bytes());
            let p2 = optional_digest_field("artifact-hash".spec_bytes(), opt_text(artifact_hash1));
            let p3 = digest_field("obstruction".spec_bytes(), obstruction1.label_spec());
            let l1 = p1;
            let l2 = l1 + p2;
            let l3 = l2 + p3;
            let r3 = p3;
            let r2 = p2 + r3;
            let r1 = p1 + r2;
            assert(fact_body(f) == l3);
            vstd::seq_lib::lemma_concat_associative(l1, p2, r3);
            assert(fact_body(f) == p1 + r2);
            assert(fact_body(f) == digest_field("variant".spec_bytes(), variant_label(f)) + r2);
        },
        _ => {},
    }
}

/// A fact body opens with its variant field.
#[verifier::spinoff_prover]
#[verifier::rlimit(60)]
proof fn lemma_invocation_obstructed_split(f: GraphFact)
    requires
        f is OpticInvocationObstructed,
    ensures
        exists|r: Seq<u8>| fact_body(f) == digest_field("variant".spec_bytes(), variant_label(f)) + r,
{
    match f {
        GraphFact::OpticInvocationObstructed { artifact_handle_id: artifact_handle_id1, operation_id: operation_id1, canonical_variables_digest: canonical_variables_digest1, basis_request_digest: basis_request_digest1, aperture_request_digest: aperture_request_digest1, obstruction: obstruction1 } => {
            let p1 = digest_field("variant".spec_bytes(), "optic-invocation-obstructed".spec_bytes());
            let p2 = digest_field("artifact-handle-id".spec_bytes(), encode_utf8(artifact_handle_id1@));
            let p3 = digest_field("operation-id".spec_bytes(), encode_utf8(operation_id1@));
            let p4 = digest_field("canonical-variables-digest".spec_bytes(), canonical_variables_digest1@);
            let p5 = digest_field("basis-request-digest".spec_bytes(), basis_request_digest1@);
            let p6 = digest_field("aperture-request-digest".spec_bytes(), aperture_request_digest1@);
            let p7 = digest_field("obstruction".spec_bytes(), obstruction1.label_spec());
            let l1 = p1;
            let l2 = l1 + p2;
            let l3 = l2 + p3;
            let l4 = l3 + p4;
            let l5 = l4 + p5;
            let l6 = l5 + p6;
            let l7 = l6 + p7;
            let r7 = p7;
            let r6 = p6 + r7;
            let r5 = p5 + r6;
            let r4 = p4 + r5;
            let r3 = p3 + r4;
            let r2 = p2 + r3;
            let r1 = p1 + r2;
            assert(fact_body(f) == l7);
            vstd::seq_lib::lemma_concat_associative(l5, p6, r7);
            vstd::seq_lib::lemma_concat_associative(l4, p5, r6);
            vstd::seq_lib::lemma_concat_associative(l3, p4, r5);
            vstd::seq_lib::lemma_concat_associative(l2, p3, r4);
            vstd::seq_lib::lemma_concat_associative(l1, p2, r3);
            assert(fact_body(f) == p1 + r2);
            assert(fact_body(f) == digest_field("variant".spec_bytes(), variant_label(f)) + r2);
        },
        _ => {},
    }
}

/// A fact body opens with its variant field.
#[verifier::spinoff_prover]
#[verifier::rlimit(60)]
proof fn lemma_grant_obstructed_split(f: GraphFact)
    requires
        f is CapabilityGrantValidationObstructed,
    ensures
        exists|r: Seq<u8>| fact_body(f) == digest_field("variant".spec_bytes(), variant_label(f)) + r,
{
    match f {
        GraphFact::CapabilityGrantValidationObstructed { presentation_id: presentation_id1, grant_id: grant_id1, artifact_handle_id: artifact_handle_id1, expected_artifact_hash: expected_artifact_hash1, grant_artifact_hash: grant_artifact_hash1, expected_operation_id: expected_operation_id1, grant_operation_id: grant_operation_id1, expected_requirements_digest: expected_requirements_digest1, grant_requirements_digest: grant_requirements_digest1, obstruction: obstruction1 } => {
            let p1 = digest_field("variant".spec_bytes(), "capability-grant-validation-obstructed".spec_bytes());
            let p2 = digest_field("presentation-id".spec_bytes(), encode_utf8(presentation_id1@));
            let p3 = optional_digest_field("grant-id".spec_bytes(), opt_text(grant_id1));
            let p4 = digest_field("artifact-handle-id".spec_bytes(), encode_utf8(artifact_handle_id1@));
            let p5 = digest_field("expected-artifact-hash".spec_bytes(), encode_utf8(expected_artifact_hash1@));
            let p6 = optional_digest_field("grant-artifact-hash".spec_bytes(), opt_text(grant_artifact_hash1));
            let p7 = digest_field("expected-operation-id".spec_bytes(), encode_utf8(expected_operation_id1@));
            let p8 = optional_digest_field("grant-operation-id".spec_bytes(), opt_text(grant_operation_id1));
            let p9 = digest_field("expected-requirements-digest".spec_bytes(), encode_utf8(expected_requirements_digest1@));
            let p10 = optional_digest_field("grant-requirements-digest".spec_bytes(), opt_text(grant_requirements_digest1));
            let p11 = digest_field("obstruction".spec_bytes(), obstruction1.label_spec());
            let l1 = p1;
            let l2 = l1 + p2;
            let l3 = l2 + p3;
            let l4 = l3 + p4;
            let l5 = l4 + p5;
            let l6 = l5 + p6;
            let l7 = l6 + p7;
            let l8 = l7 + p8;
            let l9 = l8 + p9;
            let l10 = l9 + p10;
            let l11 = l10 + p11;
            let r11 = p11;
            let r10 = p10 + r11;
            let r9 = p9 + r10;
            let r8 = p8 + r9;
            let r7 = p7 + r8;
            let r6 = p6 + r7;
            let r5 = p5 + r6;
            let r4 = p4 + r5;
            let r3 = p3 + r4;
            let r2 = p2 + r3;
            let r1 = p1 + r2;
            assert(fact_body(f) == l11);
            vstd::seq_lib::lemma_concat_associative(l9, p10, r11);
            vstd::seq_lib::lemma_concat_associative(l8, p9, r10);
            vstd::seq_lib::lemma_concat_associative(l7, p8, r9);
            vstd::seq_lib::lemma_concat_associative(l6, p7, r8);
            vstd::seq_lib::lemma_concat_associative(l5, p6, r7);
            vstd::seq_lib::lemma_concat_associative(l4, p5, r6);
            vstd::seq_lib::lemma_concat_associative(l3, p4, r5);
            vstd::seq_lib::lemma_concat_associative(l2, p3, r4);
            vstd::seq_lib::lemma_concat_associative(l1, p2, r3);
            assert(fact_body(f) == p1 + r2);
            assert(fact_body(f) == digest_field("variant".spec_bytes(), variant_label(f)) + r2);
        },
        _ => {},
    }
}

proof fn lemma_variant_labels_distinct()
    ensures
        "artifact-registered".spec_bytes().len() == 19,
        "artifact-registration-obstructed".spec_bytes().len() == 32,
        "optic-invocation-obstructed".spec_bytes().len() == 27,
        "capability-grant-validation-obstructed".spec_bytes().len() == 38,
{
    reveal_strlit("artifact-registered");
    reveal_strlit("artifact-registration-obstructed");
    reveal_strlit("optic-invocation-obstructed");
    reveal_strlit("capability-grant-validation-obstructed");
    lemma_ascii_bytes("artifact-registered");
    lemma_ascii_bytes("artifact-registration-obstructed");
    lemma_ascii_bytes("optic-invocation-obstructed");
    lemma_ascii_bytes("capability-grant-validation-obstructed");
}

/// The variant label of a fact.
pub open spec fn variant_label(f: GraphFact) -> Seq<u8> {
    match f {
        GraphFact::ArtifactRegistered { .. } => "artifact-registered".spec_bytes(),
        GraphFact::ArtifactRegistrationObstructed { .. } => "artifact-registration-obstructed".spec_bytes(),
        GraphFact::OpticInvocationObstructed { .. } => "optic-invocation-obstructed".spec_bytes(),
        GraphFact::CapabilityGrantValidationObstructed { .. } => "capability-grant-validation-obstructed".spec_bytes(),
    }
}

proof fn lemma_has_variant_split(f: GraphFact)
    ensures
        exists|r: Seq<u8>| fact_body(f) == digest_field("variant".spec_bytes(), variant_label(f)) + r,
{
    match f {
        GraphFact::ArtifactRegistered { .. } => lemma_artifact_registered_split(f),
        GraphFact::ArtifactRegistrationObstructed { .. } => lemma_registration_obstructed_split(f),
        GraphFact::OpticInvocationObstructed { .. } => lemma_invocation_obstructed_split(f),
        GraphFact::CapabilityGrantValidationObstructed { .. } => lemma_grant_obstructed_split(f),
    }
}

proof fn lemma_body_variant(a: GraphFact, b: GraphFact)
    requires
        fact_body(a) == fact_body(b),
        fact_body(a).len() <= u64::MAX,
    ensures
        variant_label(a) == variant_label(b),
{
    let vt = "variant".spec_bytes();
    lemma_has_variant_split(a);
    lemma_has_variant_split(b);
    let ra = choose|r: Seq<u8>| fact_body(a) == digest_field(vt, variant_label(a)) + r;
    let rb = choose|r: Seq<u8>| fact_body(b) == digest_field(vt, variant_label(b)) + r;
    lemma_peel_field(vt, variant_label(a), ra, variant_label(b), rb);
}

/// The fact digest encoding is injective: two facts whose digest inputs are
/// equal are the same fact (strings compared by their characters), so their
/// digests differ unless the hash collides.
pub proof fn lemma_fact_encoding_injective(a: GraphFact, b: GraphFact)
    requires
        fact_digest_input(a) == fact_digest_input(b),
        fact_digest_input(a).len() <= u64::MAX,
    ensures
        facts_same(a, b),
{
    lemma_peel_field("domain".spec_bytes(), fact_domain(), fact_body(a), fact_domain(), fact_body(b));
    lemma_body_variant(a, b);
    lemma_variant_labels_distinct();
    match a {
        GraphFact::ArtifactRegistered { .. } => {
            assert(b is ArtifactRegistered);
            lemma_artifact_registered_body_injective(a, b);
        },
        GraphFact::ArtifactRegistrationObstructed { .. } => {
            assert(b is ArtifactRegistrationObstructed);
            lemma_registration_obstructed_body_injective(a, b);
        },
        GraphFact::OpticInvocationObstructed { .. } => {
            assert(b is OpticInvocationObstructed);
            lemma_invocation_obstructed_body_injective(a, b);
        },
        GraphFact::CapabilityGrantValidationObstructed { .. } => {
            assert(b is CapabilityGrantValidationObstructed);
            lemma_grant_obstructed_body_injective(a, b);
        },
    }
}

} // verus!
