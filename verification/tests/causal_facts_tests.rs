use warp_core::causal_facts::{
    digest_invocation_request_bytes, ArtifactRegistrationObstructionKind, GraphFact, InvocationObstructionKind,
    PublishedGraphFact,
};

fn be_prefixed(v: &[u8]) -> Vec<u8> {
    let mut out = (v.len() as u64).to_be_bytes().to_vec();
    out.extend_from_slice(v);
    out
}

fn field(tag: &[u8], value: &[u8]) -> Vec<u8> {
    let mut out = be_prefixed(tag);
    out.extend_from_slice(&be_prefixed(value));
    out
}

#[test]
fn artifact_registered_digest_is_blake3_of_tagged_fields() {
    let fact = GraphFact::ArtifactRegistered {
        handle_id: "h-1".to_string(),
        artifact_hash: "a".to_string(),
        schema_id: "s".to_string(),
        operation_id: "op".to_string(),
        requirements_digest: "r".to_string(),
    };
    let mut input = field(b"domain", b"echo.causal-fact.v0");
    input.extend(field(b"variant", b"artifact-registered"));
    input.extend(field(b"handle-id", b"h-1"));
    input.extend(field(b"artifact-hash", b"a"));
    input.extend(field(b"schema-id", b"s"));
    input.extend(field(b"operation-id", b"op"));
    input.extend(field(b"requirements-digest", b"r"));
    assert_eq!(fact.digest().bytes(), blake3::hash(&input).as_bytes());
}

#[test]
fn optional_absent_field_is_a_zero_marker() {
    let fact = GraphFact::ArtifactRegistrationObstructed {
        artifact_hash: None,
        obstruction: ArtifactRegistrationObstructionKind::SchemaIdMismatch,
    };
    let mut input = field(b"domain", b"echo.causal-fact.v0");
    input.extend(field(b"variant", b"artifact-registration-obstructed"));
    input.extend(be_prefixed(b"artifact-hash"));
    input.push(0);
    input.extend(field(b"obstruction", b"schema-id-mismatch"));
    assert_eq!(fact.digest().bytes(), blake3::hash(&input).as_bytes());
}

#[test]
fn obstruction_kind_moves_the_digest() {
    let fact = |obstruction| GraphFact::OpticInvocationObstructed {
        artifact_handle_id: "h".to_string(),
        operation_id: "op".to_string(),
        canonical_variables_digest: vec![1, 2],
        basis_request_digest: [3; 32],
        aperture_request_digest: [4; 32],
        obstruction,
    };
    assert_ne!(
        fact(InvocationObstructionKind::UnknownHandle).digest(),
        fact(InvocationObstructionKind::MissingCapability).digest()
    );
}

#[test]
fn published_fact_carries_its_digest() {
    let fact = GraphFact::ArtifactRegistrationObstructed {
        artifact_hash: Some("x".to_string()),
        obstruction: ArtifactRegistrationObstructionKind::ArtifactIdMismatch,
    };
    let published = PublishedGraphFact::new(fact.clone());
    assert_eq!(published.digest, fact.digest());
    assert_eq!(published.fact, fact);
}

#[test]
fn invocation_request_digest_binds_domain_and_bytes() {
    let mut input = field(b"domain", b"d");
    input.extend(field(b"bytes", b"payload"));
    assert_eq!(&digest_invocation_request_bytes(b"d", b"payload"), blake3::hash(&input).as_bytes());
}

#[test]
fn field_boundaries_cannot_be_shifted_between_fields() {
    let a = GraphFact::ArtifactRegistered {
        handle_id: "ab".to_owned(),
        artifact_hash: "c".to_owned(),
        schema_id: "s".to_owned(),
        operation_id: "o".to_owned(),
        requirements_digest: "r".to_owned(),
    };
    let b = GraphFact::ArtifactRegistered {
        handle_id: "a".to_owned(),
        artifact_hash: "bc".to_owned(),
        schema_id: "s".to_owned(),
        operation_id: "o".to_owned(),
        requirements_digest: "r".to_owned(),
    };
    assert_ne!(a.digest(), b.digest());
    let c = GraphFact::ArtifactRegistrationObstructed {
        artifact_hash: None,
        obstruction: ArtifactRegistrationObstructionKind::SchemaIdMismatch,
    };
    let d = GraphFact::ArtifactRegistrationObstructed {
        artifact_hash: Some(String::new()),
        obstruction: ArtifactRegistrationObstructionKind::SchemaIdMismatch,
    };
    assert_ne!(c.digest(), d.digest());
}
