//! Canonical causal-anchor claims, their admission evidence, and host-owned
//! root-support policy.
//!
//! An application request binds a subject, causal-frontier digest, claimed
//! authority/evidence roots, optional projection roots, and purpose into a
//! deterministic claim. Claim construction does not confer admission: only the
//! trusted admission path attaches a receipt and constructs an admitted fact.
use vstd::prelude::*;
use vstd::bytes::*;
use vstd::string::*;
use vstd::utf8::{decode_utf8, encode_utf8, valid_utf8};
use crate::crypto::{blake3_digest, blake3_hash};
use crate::encoding::{
    escaped, len_prefixed, push_escaped, push_hash, push_len_prefixed, push_slice,
    push_str_len_prefixed, push_u32_le, push_u64_le, push_u8, ByteCursor,
};
use crate::ident::hash_eq;
use crate::text::string_from_utf8;
use crate::order::{
    bytes_eq, key_le, lex_le, sort_by_key, sorted_by_key, SortKey,
};

pub mod policy;

pub use crate::causal_anchor::policy::{
    CausalAnchorRootSupportGrant, CausalAnchorRootSupportPolicy, CausalAnchorSupportError, CausalAnchorSupportSet,
};

verus! {

broadcast use vstd::seq_lib::group_to_multiset_ensures, vstd::multiset::group_multiset_axioms;

/// Current causal anchor schema version.
pub const CAUSAL_ANCHOR_SCHEMA_VERSION: u32 = 1;

/// Causal anchor validation error.
#[derive(Clone, Copy, Debug, PartialEq, Eq)]
pub enum CausalAnchorError {
    /// The request uses a schema this implementation cannot canonicalize.
    UnsupportedSchemaVersion {
        /// Supported schema version.
        expected: u32,
        /// Requested schema version.
        actual: u32,
    },
    /// A causal-anchor payload ended before all required fields were decoded.
    UnexpectedPayloadEnd,
    /// A causal-anchor payload contained bytes after its canonical final field.
    TrailingPayloadBytes,
    /// A causal-anchor payload used the wrong versioned magic.
    InvalidPayloadMagic {
        /// Payload family whose magic was invalid.
        payload_kind: &'static str,
    },
    /// A causal-anchor string field was not valid UTF-8.
    InvalidUtf8 {
        /// String field that failed decoding.
        field: &'static str,
    },
    /// A causal-anchor payload length cannot be represented by this runtime.
    PayloadLengthOverflow,
    /// A causal-anchor payload carried an unknown enum code.
    UnknownEnumCode {
        /// Enum whose code was unknown.
        enum_name: &'static str,
        /// Unknown persisted code.
        code: u8,
    },
    /// A decoded payload did not use the one canonical byte representation.
    NonCanonicalPayload,
    /// The encoded claim digest did not match the canonical claim fields.
    ClaimDigestMismatch,
    /// The encoded admitted-fact digest did not match the claim and receipt.
    AnchorDigestMismatch,
    /// The encoded anchor id did not match the admitted-fact digest.
    AnchorIdMismatch,
    /// The encoded admission receipt id did not match its WAL coordinate.
    AdmissionReceiptIdMismatch,
    /// An anchor fact and receipt did not describe the same admission.
    AdmissionEvidenceMismatch,
    /// Subject field cannot be empty.
    EmptySubjectField {
        /// Empty subject field name.
        field: &'static str,
    },
    /// An application root field cannot be empty.
    EmptyRootField {
        /// Root family containing the empty field.
        root_kind: &'static str,
        /// Empty application-root field.
        field: &'static str,
    },
    /// Anchor must retain at least one authority or evidence root.
    EmptyRetainedRoots,
    /// Retained root set includes a duplicate root.
    DuplicateRetainedRoot,
    /// Materialization root set includes a duplicate root.
    DuplicateMaterializationRoot,
    /// Materialization roots cannot declare authority.
    AuthorityMaterializationRoot,
    /// A root cannot be both retained authority/evidence and materialization.
    RootAppearsInRetainedAndMaterialization,
}

/// Subject named by a causal anchor.
#[derive(Clone, Debug, PartialEq, Eq, PartialOrd, Ord, Hash)]
pub struct CausalAnchorSubject {
    /// Application namespace owning the subject.
    pub app_id: String,
    /// Application-scoped subject kind.
    pub subject_kind: String,
    /// Application-scoped subject id.
    pub subject_id: String,
}

impl CausalAnchorSubject {
    /// Builds a causal anchor subject.
    pub fn new(app_id: String, subject_kind: String, subject_id: String) -> (r: Self)
        ensures
            r.app_id == app_id,
            r.subject_kind == subject_kind,
            r.subject_id == subject_id,
    {
        CausalAnchorSubject { app_id, subject_kind, subject_id }
    }

    /// Canonical bytes: each field as length-prefixed UTF-8.
    pub open spec fn canonical_bytes(&self) -> Seq<u8> {
        len_prefixed(encode_utf8(self.app_id@)) + len_prefixed(encode_utf8(self.subject_kind@))
            + len_prefixed(encode_utf8(self.subject_id@))
    }

    /// Order key: each field escaped and terminated, so that byte order of
    /// keys is field-by-field lexicographic order.
    pub open spec fn order_key(&self) -> Seq<u8> {
        escaped(encode_utf8(self.app_id@)) + escaped(encode_utf8(self.subject_kind@))
            + escaped(encode_utf8(self.subject_id@))
    }

    /// Appends the canonical bytes.
    pub fn push_canonical(&self, out: &mut Vec<u8>)
        ensures
            final(out)@ == old(out)@ + self.canonical_bytes(),
    {
        push_str_len_prefixed(out, self.app_id.as_str());
        push_str_len_prefixed(out, self.subject_kind.as_str());
        push_str_len_prefixed(out, self.subject_id.as_str());
        assert(out@ =~= old(out)@ + self.canonical_bytes());
    }

    /// Appends the order key.
    pub fn push_order_key(&self, out: &mut Vec<u8>)
        ensures
            final(out)@ == old(out)@ + self.order_key(),
    {
        push_escaped(out, self.app_id.as_str().as_bytes());
        push_escaped(out, self.subject_kind.as_str().as_bytes());
        push_escaped(out, self.subject_id.as_str().as_bytes());
        assert(out@ =~= old(out)@ + self.order_key());
    }

    /// Copies the subject.
    pub fn duplicate(&self) -> (r: Self)
        ensures
            r == *self,
    {
        CausalAnchorSubject {
            app_id: self.app_id.clone(),
            subject_kind: self.subject_kind.clone(),
            subject_id: self.subject_id.clone(),
        }
    }
}

/// Opaque caller-provided reference to a causal frontier.
///
/// Possession of this value is not evidence that the frontier was admitted.
#[derive(Clone, Copy, Debug, PartialEq, Eq, PartialOrd, Ord, Hash)]
pub struct CausalFrontierRef {
    /// Caller-provided digest of the frontier being referenced.
    pub frontier_digest: crate::ident::Hash,
}

impl CausalFrontierRef {
    /// Builds a causal frontier reference from its digest.
    pub fn from_digest(frontier_digest: crate::ident::Hash) -> (r: Self)
        ensures
            r.frontier_digest == frontier_digest,
    {
        CausalFrontierRef { frontier_digest }
    }
}

/// Claimed purpose encoded into a causal-anchor request.
#[derive(Clone, Copy, Debug, PartialEq, Eq, PartialOrd, Ord, Hash, Structural)]
pub enum CausalAnchorPurpose {
    /// Recovery basis.
    Recovery,
    /// Retention boundary.
    Retention,
    /// Export basis.
    Export,
    /// User-visible save basis.
    UserSave,
    /// Automatic save basis.
    Autosave,
    /// Debug or diagnostic basis.
    Debug,
    /// Cache-warming basis.
    CacheWarm,
}

impl CausalAnchorPurpose {
    /// Persisted tag of the variant.
    pub open spec fn tag_spec(self) -> u8 {
        match self {
            CausalAnchorPurpose::Recovery => 1u8,
            CausalAnchorPurpose::Retention => 2u8,
            CausalAnchorPurpose::Export => 3u8,
            CausalAnchorPurpose::UserSave => 4u8,
            CausalAnchorPurpose::Autosave => 5u8,
            CausalAnchorPurpose::Debug => 6u8,
            CausalAnchorPurpose::CacheWarm => 7u8,
        }
    }

    /// The variant persisted under `tag`, if any.
    pub open spec fn from_tag_spec(tag: u8) -> Option<Self> {
        if tag == 1u8 {
            Some(CausalAnchorPurpose::Recovery)
        } else if tag == 2u8 {
            Some(CausalAnchorPurpose::Retention)
        } else if tag == 3u8 {
            Some(CausalAnchorPurpose::Export)
        } else if tag == 4u8 {
            Some(CausalAnchorPurpose::UserSave)
        } else if tag == 5u8 {
            Some(CausalAnchorPurpose::Autosave)
        } else if tag == 6u8 {
            Some(CausalAnchorPurpose::Debug)
        } else if tag == 7u8 {
            Some(CausalAnchorPurpose::CacheWarm)
        } else {
            None
        }
    }

    /// Returns the persisted tag.
    pub fn tag(self) -> (r: u8)
        ensures
            r == self.tag_spec(),
    {
        match self {
            CausalAnchorPurpose::Recovery => 1,
            CausalAnchorPurpose::Retention => 2,
            CausalAnchorPurpose::Export => 3,
            CausalAnchorPurpose::UserSave => 4,
            CausalAnchorPurpose::Autosave => 5,
            CausalAnchorPurpose::Debug => 6,
            CausalAnchorPurpose::CacheWarm => 7,
        }
    }

    /// Decodes a persisted tag.
    pub fn from_tag(tag: u8) -> (r: Result<Self, CausalAnchorError>)
        ensures
            r == (match Self::from_tag_spec(tag) {
                Some(v) => Ok::<Self, CausalAnchorError>(v),
                None => Err(CausalAnchorError::UnknownEnumCode { enum_name: "CausalAnchorPurpose", code: tag }),
            }),
    {
        if tag == 1 {
            Ok(CausalAnchorPurpose::Recovery)
        } else if tag == 2 {
            Ok(CausalAnchorPurpose::Retention)
        } else if tag == 3 {
            Ok(CausalAnchorPurpose::Export)
        } else if tag == 4 {
            Ok(CausalAnchorPurpose::UserSave)
        } else if tag == 5 {
            Ok(CausalAnchorPurpose::Autosave)
        } else if tag == 6 {
            Ok(CausalAnchorPurpose::Debug)
        } else if tag == 7 {
            Ok(CausalAnchorPurpose::CacheWarm)
        } else {
            Err(CausalAnchorError::UnknownEnumCode { enum_name: "CausalAnchorPurpose", code: tag })
        }
    }

    /// Decoding a variant's tag gives the variant back.
    pub proof fn lemma_tag_round_trip(self)
        ensures
            Self::from_tag_spec(self.tag_spec()) == Some(self),
    {
    }
}

/// Role for a CAS object named by a causal anchor.
#[derive(Clone, Copy, Debug, PartialEq, Eq, PartialOrd, Ord, Hash, Structural)]
pub enum CausalAnchorCasRole {
    /// Derived materialized projection.
    Materialization,
    /// Manifest that describes retained material.
    Manifest,
    /// Derived acceleration index.
    Index,
}

impl CausalAnchorCasRole {
    /// Persisted tag of the variant.
    pub open spec fn tag_spec(self) -> u8 {
        match self {
            CausalAnchorCasRole::Materialization => 1u8,
            CausalAnchorCasRole::Manifest => 2u8,
            CausalAnchorCasRole::Index => 3u8,
        }
    }

    /// The variant persisted under `tag`, if any.
    pub open spec fn from_tag_spec(tag: u8) -> Option<Self> {
        if tag == 1u8 {
            Some(CausalAnchorCasRole::Materialization)
        } else if tag == 2u8 {
            Some(CausalAnchorCasRole::Manifest)
        } else if tag == 3u8 {
            Some(CausalAnchorCasRole::Index)
        } else {
            None
        }
    }

    /// Returns the persisted tag.
    pub fn tag(self) -> (r: u8)
        ensures
            r == self.tag_spec(),
    {
        match self {
            CausalAnchorCasRole::Materialization => 1,
            CausalAnchorCasRole::Manifest => 2,
            CausalAnchorCasRole::Index => 3,
        }
    }

    /// Decodes a persisted tag.
    pub fn from_tag(tag: u8) -> (r: Result<Self, CausalAnchorError>)
        ensures
            r == (match Self::from_tag_spec(tag) {
                Some(v) => Ok::<Self, CausalAnchorError>(v),
                None => Err(CausalAnchorError::UnknownEnumCode { enum_name: "CausalAnchorCasRole", code: tag }),
            }),
    {
        if tag == 1 {
            Ok(CausalAnchorCasRole::Materialization)
        } else if tag == 2 {
            Ok(CausalAnchorCasRole::Manifest)
        } else if tag == 3 {
            Ok(CausalAnchorCasRole::Index)
        } else {
            Err(CausalAnchorError::UnknownEnumCode { enum_name: "CausalAnchorCasRole", code: tag })
        }
    }

    /// Decoding a variant's tag gives the variant back.
    pub proof fn lemma_tag_round_trip(self)
        ensures
            Self::from_tag_spec(self.tag_spec()) == Some(self),
    {
    }
}

/// Role for an Echo graph fact named by a causal anchor.
#[derive(Clone, Copy, Debug, PartialEq, Eq, PartialOrd, Ord, Hash, Structural)]
pub enum CausalAnchorGraphRole {
    /// Authoritative graph fact root.
    Authority,
    /// Evidence graph fact root.
    Evidence,
    /// Rebuildable graph index fact.
    Index,
}

impl CausalAnchorGraphRole {
    /// Persisted tag of the variant.
    pub open spec fn tag_spec(self) -> u8 {
        match self {
            CausalAnchorGraphRole::Authority => 1u8,
            CausalAnchorGraphRole::Evidence => 2u8,
            CausalAnchorGraphRole::Index => 3u8,
        }
    }

    /// The variant persisted under `tag`, if any.
    pub open spec fn from_tag_spec(tag: u8) -> Option<Self> {
        if tag == 1u8 {
            Some(CausalAnchorGraphRole::Authority)
        } else if tag == 2u8 {
            Some(CausalAnchorGraphRole::Evidence)
        } else if tag == 3u8 {
            Some(CausalAnchorGraphRole::Index)
        } else {
            None
        }
    }

    /// Returns the persisted tag.
    pub fn tag(self) -> (r: u8)
        ensures
            r == self.tag_spec(),
    {
        match self {
            CausalAnchorGraphRole::Authority => 1,
            CausalAnchorGraphRole::Evidence => 2,
            CausalAnchorGraphRole::Index => 3,
        }
    }

    /// Decodes a persisted tag.
    pub fn from_tag(tag: u8) -> (r: Result<Self, CausalAnchorError>)
        ensures
            r == (match Self::from_tag_spec(tag) {
                Some(v) => Ok::<Self, CausalAnchorError>(v),
                None => Err(CausalAnchorError::UnknownEnumCode { enum_name: "CausalAnchorGraphRole", code: tag }),
            }),
    {
        if tag == 1 {
            Ok(CausalAnchorGraphRole::Authority)
        } else if tag == 2 {
            Ok(CausalAnchorGraphRole::Evidence)
        } else if tag == 3 {
            Ok(CausalAnchorGraphRole::Index)
        } else {
            Err(CausalAnchorError::UnknownEnumCode { enum_name: "CausalAnchorGraphRole", code: tag })
        }
    }

    /// Decoding a variant's tag gives the variant back.
    pub proof fn lemma_tag_round_trip(self)
        ensures
            Self::from_tag_spec(self.tag_spec()) == Some(self),
    {
    }
}

/// Role for an application subject root named by a causal anchor.
#[derive(Clone, Copy, Debug, PartialEq, Eq, PartialOrd, Ord, Hash, Structural)]
pub enum CausalAnchorAppRootRole {
    /// Authoritative application-domain root.
    Authority,
    /// Evidence application-domain root.
    Evidence,
}

impl CausalAnchorAppRootRole {
    /// Persisted tag of the variant.
    pub open spec fn tag_spec(self) -> u8 {
        match self {
            CausalAnchorAppRootRole::Authority => 1u8,
            CausalAnchorAppRootRole::Evidence => 2u8,
        }
    }

    /// The variant persisted under `tag`, if any.
    pub open spec fn from_tag_spec(tag: u8) -> Option<Self> {
        if tag == 1u8 {
            Some(CausalAnchorAppRootRole::Authority)
        } else if tag == 2u8 {
            Some(CausalAnchorAppRootRole::Evidence)
        } else {
            None
        }
    }

    /// Returns the persisted tag.
    pub fn tag(self) -> (r: u8)
        ensures
            r == self.tag_spec(),
    {
        match self {
            CausalAnchorAppRootRole::Authority => 1,
            CausalAnchorAppRootRole::Evidence => 2,
        }
    }

    /// Decodes a persisted tag.
    pub fn from_tag(tag: u8) -> (r: Result<Self, CausalAnchorError>)
        ensures
            r == (match Self::from_tag_spec(tag) {
                Some(v) => Ok::<Self, CausalAnchorError>(v),
                None => Err(CausalAnchorError::UnknownEnumCode { enum_name: "CausalAnchorAppRootRole", code: tag }),
            }),
    {
        if tag == 1 {
            Ok(CausalAnchorAppRootRole::Authority)
        } else if tag == 2 {
            Ok(CausalAnchorAppRootRole::Evidence)
        } else {
            Err(CausalAnchorError::UnknownEnumCode { enum_name: "CausalAnchorAppRootRole", code: tag })
        }
    }

    /// Decoding a variant's tag gives the variant back.
    pub proof fn lemma_tag_round_trip(self)
        ensures
            Self::from_tag_spec(self.tag_spec()) == Some(self),
    {
    }
}

/// Root claimed as retained by or attached to a causal-anchor request.
#[derive(Clone, Debug, PartialEq, Eq, PartialOrd, Ord, Hash)]
#[allow(inconsistent_fields)]
pub enum CausalAnchorRoot {
    /// Content-addressed object root.
    CasObject {
        /// CAS object id.
        id: crate::ident::Hash,
        /// CAS role.
        role: CausalAnchorCasRole,
    },
    /// Echo graph fact root.
    GraphFact {
        /// Graph fact id.
        id: crate::ident::Hash,
        /// Graph fact role.
        role: CausalAnchorGraphRole,
    },
    /// Application-domain subject root.
    AppSubjectRoot {
        /// Application namespace owning the root.
        app_id: String,
        /// Application-scoped root kind.
        subject_kind: String,
        /// Application-scoped root id.
        id: String,
        /// Application root role.
        role: CausalAnchorAppRootRole,
    },
}

impl CausalAnchorRoot {
    /// `true` when this root declares itself as authority.
    pub open spec fn is_authority_spec(&self) -> bool {
        match self {
            CausalAnchorRoot::CasObject { .. } => false,
            CausalAnchorRoot::GraphFact { role, .. } => *role == CausalAnchorGraphRole::Authority,
            CausalAnchorRoot::AppSubjectRoot { role, .. } => *role == CausalAnchorAppRootRole::Authority,
        }
    }

    /// Returns true when this root declares itself as authority.
    pub fn is_authority(&self) -> (r: bool)
        ensures
            r == self.is_authority_spec(),
    {
        match self {
            CausalAnchorRoot::CasObject { .. } => false,
            CausalAnchorRoot::GraphFact { role, .. } => *role == CausalAnchorGraphRole::Authority,
            CausalAnchorRoot::AppSubjectRoot { role, .. } => *role == CausalAnchorAppRootRole::Authority,
        }
    }

    /// Bytes of the root as it enters a digest.
    pub open spec fn digest_bytes(&self) -> Seq<u8> {
        match self {
            CausalAnchorRoot::CasObject { id, role } => seq![1u8, role.tag_spec()] + id@,
            CausalAnchorRoot::GraphFact { id, role } => seq![2u8, role.tag_spec()] + id@,
            CausalAnchorRoot::AppSubjectRoot { app_id, subject_kind, id, role } => seq![3u8, role.tag_spec()]
                + len_prefixed(encode_utf8(app_id@)) + len_prefixed(encode_utf8(subject_kind@))
                + len_prefixed(encode_utf8(id@)),
        }
    }

    /// Bytes of the root in a persisted payload.
    pub open spec fn payload_bytes(&self) -> Seq<u8> {
        match self {
            CausalAnchorRoot::CasObject { id, role } => seq![1u8] + id@ + seq![role.tag_spec()],
            CausalAnchorRoot::GraphFact { id, role } => seq![2u8] + id@ + seq![role.tag_spec()],
            CausalAnchorRoot::AppSubjectRoot { app_id, subject_kind, id, role } => seq![3u8]
                + len_prefixed(encode_utf8(app_id@)) + len_prefixed(encode_utf8(subject_kind@))
                + len_prefixed(encode_utf8(id@)) + seq![role.tag_spec()],
        }
    }

    /// A root is well-formed when no application-root field is empty.
    pub open spec fn first_field_error(&self) -> Option<CausalAnchorError> {
        match self {
            CausalAnchorRoot::AppSubjectRoot { app_id, subject_kind, id, .. } => if app_id@.len() == 0 {
                Some(CausalAnchorError::EmptyRootField { root_kind: "app-subject", field: "app_id" })
            } else if subject_kind@.len() == 0 {
                Some(CausalAnchorError::EmptyRootField { root_kind: "app-subject", field: "subject_kind" })
            } else if id@.len() == 0 {
                Some(CausalAnchorError::EmptyRootField { root_kind: "app-subject", field: "id" })
            } else {
                None
            },
            _ => None,
        }
    }

    /// Checks that no application-root field is empty.
    pub fn validate(&self) -> (r: Result<(), CausalAnchorError>)
        ensures
            r == (match self.first_field_error() {
                Some(e) => Err::<(), CausalAnchorError>(e),
                None => Ok(()),
            }),
    {
        match self {
            CausalAnchorRoot::AppSubjectRoot { app_id, subject_kind, id, .. } => {
                if app_id.as_str().is_empty() {
                    return Err(CausalAnchorError::EmptyRootField { root_kind: "app-subject", field: "app_id" });
                }
                if subject_kind.as_str().is_empty() {
                    return Err(CausalAnchorError::EmptyRootField { root_kind: "app-subject", field: "subject_kind" });
                }
                if id.as_str().is_empty() {
                    return Err(CausalAnchorError::EmptyRootField { root_kind: "app-subject", field: "id" });
                }
                Ok(())
            },
            _ => Ok(()),
        }
    }

    /// Appends the digest bytes of the root.
    pub fn push_digest_bytes(&self, out: &mut Vec<u8>)
        ensures
            final(out)@ == old(out)@ + self.digest_bytes(),
    {
        match self {
            CausalAnchorRoot::CasObject { id, role } => {
                push_u8(out, 1);
                push_u8(out, role.tag());
                push_hash(out, id);
            },
            CausalAnchorRoot::GraphFact { id, role } => {
                push_u8(out, 2);
                push_u8(out, role.tag());
                push_hash(out, id);
            },
            CausalAnchorRoot::AppSubjectRoot { app_id, subject_kind, id, role } => {
                push_u8(out, 3);
                push_u8(out, role.tag());
                push_str_len_prefixed(out, app_id.as_str());
                push_str_len_prefixed(out, subject_kind.as_str());
                push_str_len_prefixed(out, id.as_str());
            },
        }
        assert(out@ =~= old(out)@ + self.digest_bytes());
    }

    /// Appends the payload bytes of the root.
    pub fn push_payload_bytes(&self, out: &mut Vec<u8>)
        ensures
            final(out)@ == old(out)@ + self.payload_bytes(),
    {
        match self {
            CausalAnchorRoot::CasObject { id, role } => {
                push_u8(out, 1);
                push_hash(out, id);
                push_u8(out, role.tag());
            },
            CausalAnchorRoot::GraphFact { id, role } => {
                push_u8(out, 2);
                push_hash(out, id);
                push_u8(out, role.tag());
            },
            CausalAnchorRoot::AppSubjectRoot { app_id, subject_kind, id, role } => {
                push_u8(out, 3);
                push_str_len_prefixed(out, app_id.as_str());
                push_str_len_prefixed(out, subject_kind.as_str());
                push_str_len_prefixed(out, id.as_str());
                push_u8(out, role.tag());
            },
        }
        assert(out@ =~= old(out)@ + self.payload_bytes());
    }

    /// Copies the root.
    pub fn duplicate(&self) -> (r: Self)
        ensures
            r == *self,
    {
        match self {
            CausalAnchorRoot::CasObject { id, role } => CausalAnchorRoot::CasObject { id: *id, role: *role },
            CausalAnchorRoot::GraphFact { id, role } => CausalAnchorRoot::GraphFact { id: *id, role: *role },
            CausalAnchorRoot::AppSubjectRoot { app_id, subject_kind, id, role } => CausalAnchorRoot::AppSubjectRoot {
                app_id: app_id.clone(),
                subject_kind: subject_kind.clone(),
                id: id.clone(),
                role: *role,
            },
        }
    }
}

impl SortKey for CausalAnchorRoot {
    /// Variant tag, then the fields in declaration order; strings escaped and
    /// terminated so that key order is the field-by-field order of roots.
    open spec fn key(&self) -> Seq<u8> {
        match self {
            CausalAnchorRoot::CasObject { id, role } => seq![1u8] + id@ + seq![role.tag_spec()],
            CausalAnchorRoot::GraphFact { id, role } => seq![2u8] + id@ + seq![role.tag_spec()],
            CausalAnchorRoot::AppSubjectRoot { app_id, subject_kind, id, role } => seq![3u8]
                + escaped(encode_utf8(app_id@)) + escaped(encode_utf8(subject_kind@))
                + escaped(encode_utf8(id@)) + seq![role.tag_spec()],
        }
    }

    fn key_bytes(&self) -> (k: Vec<u8>) {
        let mut out: Vec<u8> = Vec::new();
        match self {
            CausalAnchorRoot::CasObject { id, role } => {
                push_u8(&mut out, 1);
                push_hash(&mut out, id);
                push_u8(&mut out, role.tag());
            },
            CausalAnchorRoot::GraphFact { id, role } => {
                push_u8(&mut out, 2);
                push_hash(&mut out, id);
                push_u8(&mut out, role.tag());
            },
            CausalAnchorRoot::AppSubjectRoot { app_id, subject_kind, id, role } => {
                push_u8(&mut out, 3);
                push_escaped(&mut out, app_id.as_str().as_bytes());
                push_escaped(&mut out, subject_kind.as_str().as_bytes());
                push_escaped(&mut out, id.as_str().as_bytes());
                push_u8(&mut out, role.tag());
            },
        }
        assert(out@ =~= self.key());
        out
    }
}

/// Roots are in canonical order: keys strictly increasing.
pub open spec fn roots_canonical(rs: Seq<CausalAnchorRoot>) -> bool {
    forall|i: int, j: int| 0 <= i < j < rs.len() ==> key_le(#[trigger] rs[i], #[trigger] rs[j]) && rs[i].key()
        != rs[j].key()
}

/// Two positions of `rs` hold roots with the same key.
pub open spec fn has_duplicate_root(rs: Seq<CausalAnchorRoot>) -> bool {
    exists|i: int, j: int| 0 <= i < j < rs.len() && #[trigger] rs[i].key() == #[trigger] rs[j].key()
}

/// The first malformed root at or after position `i`.
pub open spec fn first_root_error_from(rs: Seq<CausalAnchorRoot>, i: int) -> Option<CausalAnchorError>
    decreases rs.len() - i,
{
    if i < 0 || i >= rs.len() {
        None
    } else {
        match rs[i].first_field_error() {
            Some(e) => Some(e),
            None => first_root_error_from(rs, i + 1),
        }
    }
}

/// Which root set a canonicalization concerns.
#[derive(Clone, Copy, Debug, PartialEq, Eq, Structural)]
pub enum CausalAnchorRootSet {
    /// Retained authority/evidence roots.
    Retained,
    /// Derived materialization roots.
    Materialization,
}

/// Error for a duplicate root in the given set.
pub open spec fn duplicate_root_error(set: CausalAnchorRootSet) -> CausalAnchorError {
    match set {
        CausalAnchorRootSet::Retained => CausalAnchorError::DuplicateRetainedRoot,
        CausalAnchorRootSet::Materialization => CausalAnchorError::DuplicateMaterializationRoot,
    }
}

/// Outcome of canonicalizing a root list: the first malformed root, else a
/// duplicate, else success.
pub open spec fn canonicalize_outcome(rs: Seq<CausalAnchorRoot>, set: CausalAnchorRootSet) -> Option<CausalAnchorError> {
    match first_root_error_from(rs, 0) {
        Some(e) => Some(e),
        None => if has_duplicate_root(rs) {
            Some(duplicate_root_error(set))
        } else {
            None
        },
    }
}

/// Validates each root, then orders the roots canonically, refusing duplicates.
pub fn canonicalize_roots(roots: Vec<CausalAnchorRoot>, set: CausalAnchorRootSet) -> (r: Result<Vec<CausalAnchorRoot>, CausalAnchorError>)
    ensures
        canonicalize_outcome(roots@, set) is Some ==> r == Err::<Vec<CausalAnchorRoot>, CausalAnchorError>(
            canonicalize_outcome(roots@, set)->Some_0,
        ),
        canonicalize_outcome(roots@, set) is None ==> {
            &&& r is Ok
            &&& r->Ok_0@.to_multiset() == roots@.to_multiset()
            &&& roots_canonical(r->Ok_0@)
        },
{
    let mut i: usize = 0;
    while i < roots.len()
        invariant
            i <= roots@.len(),
            first_root_error_from(roots@, 0) == first_root_error_from(roots@, i as int),
        decreases roots.len() - i,
    {
        match roots[i].validate() {
            Err(e) => return Err(e),
            Ok(()) => {},
        }
        i += 1;
    }
    let mut out: Vec<CausalAnchorRoot> = Vec::new();
    let mut k: usize = 0;
    while k < roots.len()
        invariant
            k <= roots@.len(),
            first_root_error_from(roots@, 0) is None,
            roots_canonical(out@),
            out@.to_multiset() == roots@.subrange(0, k as int).to_multiset(),
            !has_duplicate_root(roots@.subrange(0, k as int)),
        decreases roots.len() - k,
    {
        let x = roots[k].duplicate();
        let xk = x.key_bytes();
        let ghost prefix = roots@.subrange(0, k as int);
        proof {
            assert(roots@.subrange(0, k + 1) =~= prefix.push(x));
        }
        let mut pos: usize = 0;
        let mut dup = false;
        while pos < out.len()
            invariant
                pos <= out@.len(),
                xk@ == x.key(),
                roots_canonical(out@),
                forall|j: int| 0 <= j < pos ==> key_le(#[trigger] out@[j], x) && out@[j].key() != x.key(),
                dup ==> pos < out@.len() && out@[pos as int].key() == x.key(),
            ensures
                pos <= out@.len(),
                forall|j: int| 0 <= j < pos ==> key_le(#[trigger] out@[j], x) && out@[j].key() != x.key(),
                dup ==> pos < out@.len() && out@[pos as int].key() == x.key(),
                !dup ==> pos < out@.len() ==> !key_le(out@[pos as int], x),
            decreases out.len() - pos,
        {
            let yk = out[pos].key_bytes();
            if bytes_eq(yk.as_slice(), xk.as_slice()) {
                dup = true;
                break;
            }
            if !crate::order::bytes_le(yk.as_slice(), xk.as_slice()) {
                break;
            }
            pos += 1;
        }
        if dup {
            proof {
                let y = out@[pos as int];
                assert(out@.to_multiset().count(y) > 0) by {
                    assert(out@.contains(y));
                }
                assert(prefix.contains(y));
                let p = choose|p: int| 0 <= p < prefix.len() && prefix[p] == y;
                let s = roots@.subrange(0, k + 1);
                assert(s[p] == y && s[k as int] == x);
                assert(s[p].key() == s[k as int].key());
                assert(has_duplicate_root(roots@));
                assert(roots@[p] == s[p] && roots@[k as int] == s[k as int]);
            }
            return Err(match set {
                CausalAnchorRootSet::Retained => CausalAnchorError::DuplicateRetainedRoot,
                CausalAnchorRootSet::Materialization => CausalAnchorError::DuplicateMaterializationRoot,
            });
        }
        let ghost old_out = out@;
        let ghost p = pos as int;
        proof {
            crate::order::lemma_lex_le_total_ordering();
            if p < old_out.len() {
                crate::order::lemma_lex_le_connected(old_out[p].key(), x.key());
                if old_out[p].key() == x.key() {
                    crate::order::lemma_lex_le_reflexive(x.key());
                }
            }
            assert forall|j: int| p <= j < old_out.len() implies key_le(x, #[trigger] old_out[j]) && old_out[j].key()
                != x.key() by {
                if j > p {
                    crate::order::lemma_lex_le_transitive(x.key(), old_out[p].key(), old_out[j].key());
                    if old_out[j].key() == x.key() {
                        crate::order::lemma_lex_le_antisymmetric(x.key(), old_out[p].key());
                    }
                } else {
                    if old_out[p].key() == x.key() {
                        crate::order::lemma_lex_le_reflexive(x.key());
                    }
                }
            }
            // no duplicate among the first k + 1 roots
            assert forall|a: int, b: int| 0 <= a < b < k + 1 implies #[trigger] roots@.subrange(0, k + 1)[a].key()
                != #[trigger] roots@.subrange(0, k + 1)[b].key() by {
                let s = roots@.subrange(0, k + 1);
                if b == k {
                    let ya = s[a];
                    assert(prefix[a] == ya);
                    assert(prefix.contains(ya));
                    assert(prefix.to_multiset().count(ya) > 0);
                    assert(old_out.to_multiset().count(ya) > 0);
                    assert(old_out.contains(ya));
                    let q = choose|q: int| 0 <= q < old_out.len() && old_out[q] == ya;
                    if q < p {
                    } else {
                    }
                } else {
                    assert(prefix[a] == s[a] && prefix[b] == s[b]);
                }
            }
        }
        out.insert(pos, x);
        proof {
            let t = out@;
            assert(t == old_out.insert(p, x));
            assert forall|a: int, b: int| 0 <= a < b < t.len() implies key_le(#[trigger] t[a], #[trigger] t[b])
                && t[a].key() != t[b].key() by {
                if b < p {
                } else if b == p {
                } else if a < p {
                    crate::order::lemma_lex_le_transitive(t[a].key(), x.key(), t[b].key());
                    if t[a].key() == t[b].key() {
                        crate::order::lemma_lex_le_antisymmetric(t[a].key(), x.key());
                    }
                } else if a == p {
                } else {
                }
            }
            assert(t.to_multiset() == old_out.to_multiset().insert(x));
            assert(roots@.subrange(0, k + 1).to_multiset() == prefix.to_multiset().insert(x));
        }
        k += 1;
    }
    assert(roots@.subrange(0, roots@.len() as int) =~= roots@);
    Ok(out)
}

/// Bytes of a root list as it enters a digest: count, then each root.
pub open spec fn roots_digest_bytes(rs: Seq<CausalAnchorRoot>) -> Seq<u8> {
    spec_u64_to_le_bytes(rs.len() as u64) + roots_digest_concat(rs)
}

/// Digest bytes of each root, concatenated.
pub open spec fn roots_digest_concat(rs: Seq<CausalAnchorRoot>) -> Seq<u8>
    decreases rs.len(),
{
    if rs.len() == 0 {
        Seq::empty()
    } else {
        roots_digest_concat(rs.drop_last()) + rs.last().digest_bytes()
    }
}

/// Bytes of a root list in a payload: count, then each root.
pub open spec fn roots_payload_bytes(rs: Seq<CausalAnchorRoot>) -> Seq<u8> {
    spec_u64_to_le_bytes(rs.len() as u64) + roots_payload_concat(rs)
}

/// Payload bytes of each root, concatenated.
pub open spec fn roots_payload_concat(rs: Seq<CausalAnchorRoot>) -> Seq<u8>
    decreases rs.len(),
{
    if rs.len() == 0 {
        Seq::empty()
    } else {
        roots_payload_concat(rs.drop_last()) + rs.last().payload_bytes()
    }
}

/// Appends the digest bytes of a root list.
pub fn push_roots_digest(out: &mut Vec<u8>, rs: &[CausalAnchorRoot])
    ensures
        final(out)@ == old(out)@ + roots_digest_bytes(rs@),
{
    push_u64_le(out, rs.len() as u64);
    let ghost start = out@;
    let mut i: usize = 0;
    while i < rs.len()
        invariant
            i <= rs@.len(),
            out@ == start + roots_digest_concat(rs@.subrange(0, i as int)),
        decreases rs.len() - i,
    {
        rs[i].push_digest_bytes(out);
        proof {
            assert(rs@.subrange(0, i + 1).drop_last() =~= rs@.subrange(0, i as int));
        }
        i += 1;
    }
    assert(rs@.subrange(0, rs@.len() as int) =~= rs@);
}

/// Appends the payload bytes of a root list.
pub fn push_roots_payload(out: &mut Vec<u8>, rs: &[CausalAnchorRoot])
    ensures
        final(out)@ == old(out)@ + roots_payload_bytes(rs@),
{
    push_u64_le(out, rs.len() as u64);
    let ghost start = out@;
    let mut i: usize = 0;
    while i < rs.len()
        invariant
            i <= rs@.len(),
            out@ == start + roots_payload_concat(rs@.subrange(0, i as int)),
        decreases rs.len() - i,
    {
        rs[i].push_payload_bytes(out);
        proof {
            assert(rs@.subrange(0, i + 1).drop_last() =~= rs@.subrange(0, i as int));
        }
        i += 1;
    }
    assert(rs@.subrange(0, rs@.len() as int) =~= rs@);
}

/// Domain prefix of claim digests.
pub open spec fn claim_digest_domain() -> Seq<u8> {
    "echo:causal-anchor:claim:v1\0".spec_bytes()
}

/// Bytes hashed into a claim digest.
pub open spec fn claim_digest_input(
    schema_version: u32,
    subject: CausalAnchorSubject,
    basis_frontier: CausalFrontierRef,
    retained: Seq<CausalAnchorRoot>,
    materialization: Seq<CausalAnchorRoot>,
    purpose: CausalAnchorPurpose,
) -> Seq<u8> {
    claim_digest_domain() + spec_u32_to_le_bytes(schema_version) + subject.canonical_bytes()
        + basis_frontier.frontier_digest@ + roots_digest_bytes(retained) + roots_digest_bytes(materialization)
        + seq![purpose.tag_spec()]
}

fn compute_claim_digest(
    schema_version: u32,
    subject: &CausalAnchorSubject,
    basis_frontier: &CausalFrontierRef,
    retained: &[CausalAnchorRoot],
    materialization: &[CausalAnchorRoot],
    purpose: CausalAnchorPurpose,
) -> (r: crate::ident::Hash)
    ensures
        r@ == blake3_digest(claim_digest_input(schema_version, *subject, *basis_frontier, retained@, materialization@, purpose)),
{
    let mut input: Vec<u8> = Vec::new();
    push_slice(&mut input, "echo:causal-anchor:claim:v1\0".as_bytes());
    push_u32_le(&mut input, schema_version);
    subject.push_canonical(&mut input);
    push_hash(&mut input, &basis_frontier.frontier_digest);
    push_roots_digest(&mut input, retained);
    push_roots_digest(&mut input, materialization);
    push_u8(&mut input, purpose.tag());
    assert(input@ =~= claim_digest_input(schema_version, *subject, *basis_frontier, retained@, materialization@, purpose));
    blake3_hash(input.as_slice())
}

/// Application request for Echo to consider a causal-anchor claim for admission.
///
/// The request intentionally contains no admission receipt.
#[derive(Clone, Debug, PartialEq, Eq)]
pub struct CausalAnchorAdmissionRequest {
    /// Schema version for the requested anchor claim.
    pub schema_version: u32,
    /// Application subject being anchored.
    pub subject: CausalAnchorSubject,
    /// Caller-provided causal-frontier reference.
    pub basis_frontier: CausalFrontierRef,
    /// Roots claimed as retained authority or evidence.
    pub retained_roots: Vec<CausalAnchorRoot>,
    /// Optional derived projection roots attached to the anchor.
    pub materialization_roots: Vec<CausalAnchorRoot>,
    /// Purpose of the anchor.
    pub purpose: CausalAnchorPurpose,
}

/// Canonical, shape-validated application claim awaiting Echo admission.
#[derive(Clone, Debug, PartialEq, Eq)]
pub struct CausalAnchorClaim {
    schema_version: u32,
    subject: CausalAnchorSubject,
    basis_frontier: CausalFrontierRef,
    retained_roots: Vec<CausalAnchorRoot>,
    materialization_roots: Vec<CausalAnchorRoot>,
    purpose: CausalAnchorPurpose,
    claim_digest: crate::ident::Hash,
}

/// Some root of `rs` declares authority.
pub open spec fn any_authority(rs: Seq<CausalAnchorRoot>) -> bool {
    exists|i: int| 0 <= i < rs.len() && (#[trigger] rs[i]).is_authority_spec()
}

/// Some root of `a` has the key of some root of `b`.
pub open spec fn shares_root(a: Seq<CausalAnchorRoot>, b: Seq<CausalAnchorRoot>) -> bool {
    exists|i: int, j: int| 0 <= i < a.len() && 0 <= j < b.len() && #[trigger] a[i].key() == #[trigger] b[j].key()
}

/// The first refusal of an admission request, in the order the checks run.
pub open spec fn request_error(r: CausalAnchorAdmissionRequest) -> Option<CausalAnchorError> {
    if r.schema_version != CAUSAL_ANCHOR_SCHEMA_VERSION {
        Some(CausalAnchorError::UnsupportedSchemaVersion { expected: CAUSAL_ANCHOR_SCHEMA_VERSION, actual: r.schema_version })
    } else if r.subject.app_id@.len() == 0 {
        Some(CausalAnchorError::EmptySubjectField { field: "app_id" })
    } else if r.subject.subject_kind@.len() == 0 {
        Some(CausalAnchorError::EmptySubjectField { field: "subject_kind" })
    } else if r.subject.subject_id@.len() == 0 {
        Some(CausalAnchorError::EmptySubjectField { field: "subject_id" })
    } else if canonicalize_outcome(r.retained_roots@, CausalAnchorRootSet::Retained) is Some {
        canonicalize_outcome(r.retained_roots@, CausalAnchorRootSet::Retained)
    } else if r.retained_roots@.len() == 0 {
        Some(CausalAnchorError::EmptyRetainedRoots)
    } else if canonicalize_outcome(r.materialization_roots@, CausalAnchorRootSet::Materialization) is Some {
        canonicalize_outcome(r.materialization_roots@, CausalAnchorRootSet::Materialization)
    } else if any_authority(r.materialization_roots@) {
        Some(CausalAnchorError::AuthorityMaterializationRoot)
    } else if shares_root(r.retained_roots@, r.materialization_roots@) {
        Some(CausalAnchorError::RootAppearsInRetainedAndMaterialization)
    } else {
        None
    }
}

proof fn lemma_any_authority_permutation(a: Seq<CausalAnchorRoot>, b: Seq<CausalAnchorRoot>)
    requires
        a.to_multiset() == b.to_multiset(),
    ensures
        any_authority(a) == any_authority(b),
{
    if any_authority(a) {
        let i = choose|i: int| 0 <= i < a.len() && (#[trigger] a[i]).is_authority_spec();
        assert(a.contains(a[i]));
        assert(b.to_multiset().count(a[i]) > 0);
        assert(b.contains(a[i]));
    }
    if any_authority(b) {
        let i = choose|i: int| 0 <= i < b.len() && (#[trigger] b[i]).is_authority_spec();
        assert(b.contains(b[i]));
        assert(a.to_multiset().count(b[i]) > 0);
        assert(a.contains(b[i]));
    }
}

proof fn lemma_shares_root_permutation(a: Seq<CausalAnchorRoot>, a2: Seq<CausalAnchorRoot>, b: Seq<CausalAnchorRoot>, b2: Seq<CausalAnchorRoot>)
    requires
        a.to_multiset() == a2.to_multiset(),
        b.to_multiset() == b2.to_multiset(),
    ensures
        shares_root(a, b) == shares_root(a2, b2),
{
    if shares_root(a, b) {
        let (i, j) = choose|i: int, j: int| 0 <= i < a.len() && 0 <= j < b.len() && #[trigger] a[i].key() == #[trigger] b[j].key();
        assert(a.contains(a[i]) && b.contains(b[j]));
        assert(a2.to_multiset().count(a[i]) > 0 && b2.to_multiset().count(b[j]) > 0);
        assert(a2.contains(a[i]) && b2.contains(b[j]));
        let p = choose|p: int| 0 <= p < a2.len() && a2[p] == a[i];
        let q = choose|q: int| 0 <= q < b2.len() && b2[q] == b[j];
        assert(a2[p].key() == b2[q].key());
    }
    if shares_root(a2, b2) {
        let (i, j) = choose|i: int, j: int| 0 <= i < a2.len() && 0 <= j < b2.len() && #[trigger] a2[i].key() == #[trigger] b2[j].key();
        assert(a2.contains(a2[i]) && b2.contains(b2[j]));
        assert(a.to_multiset().count(a2[i]) > 0 && b.to_multiset().count(b2[j]) > 0);
        assert(a.contains(a2[i]) && b.contains(b2[j]));
        let p = choose|p: int| 0 <= p < a.len() && a[p] == a2[i];
        let q = choose|q: int| 0 <= q < b.len() && b[q] == b2[j];
        assert(a[p].key() == b[q].key());
    }
}

proof fn lemma_root_error_none(s: Seq<CausalAnchorRoot>, i: int)
    requires
        0 <= i,
    ensures
        (first_root_error_from(s, i) is None) <==> (forall|j: int| i <= j < s.len() ==> (#[trigger] s[j]).first_field_error() is None),
    decreases s.len() - i,
{
    if i < s.len() {
        lemma_root_error_none(s, i + 1);
    }
}

proof fn lemma_no_root_error_permutation(a: Seq<CausalAnchorRoot>, b: Seq<CausalAnchorRoot>)
    requires
        a.to_multiset() == b.to_multiset(),
        first_root_error_from(b, 0) is None,
    ensures
        first_root_error_from(a, 0) is None,
{
    lemma_root_error_none(a, 0);
    lemma_root_error_none(b, 0);
    assert forall|j: int| 0 <= j < a.len() implies (#[trigger] a[j]).first_field_error() is None by {
        assert(a.contains(a[j]));
        assert(b.to_multiset().count(a[j]) > 0);
        assert(b.contains(a[j]));
        let k = choose|k: int| 0 <= k < b.len() && b[k] == a[j];
        assert(b[k].first_field_error() is None);
    }
}

fn find_authority(rs: &[CausalAnchorRoot]) -> (r: bool)
    ensures
        r == any_authority(rs@),
{
    let mut i: usize = 0;
    while i < rs.len()
        invariant
            i <= rs@.len(),
            forall|j: int| 0 <= j < i ==> !(#[trigger] rs@[j]).is_authority_spec(),
        decreases rs.len() - i,
    {
        if rs[i].is_authority() {
            return true;
        }
        i += 1;
    }
    false
}

fn find_shared(a: &[CausalAnchorRoot], b: &[CausalAnchorRoot]) -> (r: bool)
    ensures
        r == shares_root(a@, b@),
{
    let mut i: usize = 0;
    while i < a.len()
        invariant
            i <= a@.len(),
            forall|x: int, y: int| 0 <= x < i && 0 <= y < b@.len() ==> #[trigger] a@[x].key() != #[trigger] b@[y].key(),
        decreases a.len() - i,
    {
        let ak = a[i].key_bytes();
        let mut j: usize = 0;
        while j < b.len()
            invariant
                j <= b@.len(),
                i < a@.len(),
                ak@ == a@[i as int].key(),
                forall|y: int| 0 <= y < j ==> a@[i as int].key() != #[trigger] b@[y].key(),
            decreases b.len() - j,
        {
            let bk = b[j].key_bytes();
            if bytes_eq(ak.as_slice(), bk.as_slice()) {
                return true;
            }
            j += 1;
        }
        i += 1;
    }
    false
}

impl CausalAnchorClaim {
    /// Schema version used to canonicalize the claim.
    pub closed spec fn schema_version_spec(&self) -> u32 { self.schema_version }
    /// Application subject named by the claim.
    pub closed spec fn subject_spec(&self) -> CausalAnchorSubject { self.subject }
    /// Caller-provided causal-frontier reference.
    pub closed spec fn basis_frontier_spec(&self) -> CausalFrontierRef { self.basis_frontier }
    /// Canonical retained roots.
    pub closed spec fn retained_spec(&self) -> Seq<CausalAnchorRoot> { self.retained_roots@ }
    /// Canonical materialization roots.
    pub closed spec fn materialization_spec(&self) -> Seq<CausalAnchorRoot> { self.materialization_roots@ }
    /// Claimed purpose.
    pub closed spec fn purpose_spec(&self) -> CausalAnchorPurpose { self.purpose }
    /// Digest over the canonical claim fields.
    pub closed spec fn claim_digest_spec(&self) -> crate::ident::Hash { self.claim_digest }

    /// A claim is canonical: a supported schema, a complete subject, canonical
    /// root sets meeting the admission shape rules, and a digest over them.
    pub open spec fn wf(&self) -> bool {
        let ret = self.retained_spec();
        let mat = self.materialization_spec();
        &&& self.schema_version_spec() == CAUSAL_ANCHOR_SCHEMA_VERSION
        &&& self.subject_spec().app_id@.len() > 0
        &&& self.subject_spec().subject_kind@.len() > 0
        &&& self.subject_spec().subject_id@.len() > 0
        &&& roots_canonical(ret) && roots_canonical(mat)
        &&& first_root_error_from(ret, 0) is None && first_root_error_from(mat, 0) is None
        &&& ret.len() > 0
        &&& !any_authority(mat)
        &&& !shares_root(ret, mat)
        &&& self.claim_digest_spec()@ == blake3_digest(claim_digest_input(
            self.schema_version_spec(),
            self.subject_spec(),
            self.basis_frontier_spec(),
            ret,
            mat,
            self.purpose_spec(),
        ))
    }

    /// Builds a canonical claim without conferring Echo admission.
    ///
    /// Root lists are ordered canonically and duplicate roots are refused, so
    /// the digest represents root sets rather than caller order. Nothing here
    /// verifies frontier admission, root existence, authority or retention.
    pub fn from_admission_request(request: CausalAnchorAdmissionRequest) -> (r: Result<Self, CausalAnchorError>)
        ensures
            request_error(request) is Some ==> r == Err::<Self, CausalAnchorError>(request_error(request)->Some_0),
            request_error(request) is None ==> {
                &&& r is Ok
                &&& r->Ok_0.wf()
                &&& r->Ok_0.schema_version_spec() == request.schema_version
                &&& r->Ok_0.subject_spec() == request.subject
                &&& r->Ok_0.basis_frontier_spec() == request.basis_frontier
                &&& r->Ok_0.retained_spec().to_multiset() == request.retained_roots@.to_multiset()
                &&& r->Ok_0.materialization_spec().to_multiset() == request.materialization_roots@.to_multiset()
                &&& r->Ok_0.purpose_spec() == request.purpose
            },
    {
        if request.schema_version != CAUSAL_ANCHOR_SCHEMA_VERSION {
            return Err(CausalAnchorError::UnsupportedSchemaVersion {
                expected: CAUSAL_ANCHOR_SCHEMA_VERSION,
                actual: request.schema_version,
            });
        }
        if request.subject.app_id.as_str().is_empty() {
            return Err(CausalAnchorError::EmptySubjectField { field: "app_id" });
        }
        if request.subject.subject_kind.as_str().is_empty() {
            return Err(CausalAnchorError::EmptySubjectField { field: "subject_kind" });
        }
        if request.subject.subject_id.as_str().is_empty() {
            return Err(CausalAnchorError::EmptySubjectField { field: "subject_id" });
        }
        let ghost req = request;
        let CausalAnchorAdmissionRequest { schema_version, subject, basis_frontier, retained_roots, materialization_roots, purpose } = request;
        let retained = match canonicalize_roots(retained_roots, CausalAnchorRootSet::Retained) {
            Ok(v) => v,
            Err(e) => return Err(e),
        };
        if retained.len() == 0 {
            proof {
                assert(req.retained_roots@.to_multiset().len() == 0);
                assert(req.retained_roots@.len() == 0) by {
                    if req.retained_roots@.len() > 0 {
                        assert(req.retained_roots@.contains(req.retained_roots@[0]));
                    }
                }
            }
            return Err(CausalAnchorError::EmptyRetainedRoots);
        }
        proof {
            if req.retained_roots@.len() == 0 {
                assert(retained@.contains(retained@[0]));
                assert(req.retained_roots@.to_multiset().count(retained@[0]) > 0);
                assert(req.retained_roots@.contains(retained@[0]));
            }
        }
        let materialization = match canonicalize_roots(materialization_roots, CausalAnchorRootSet::Materialization) {
            Ok(v) => v,
            Err(e) => return Err(e),
        };
        proof {
            lemma_any_authority_permutation(materialization@, req.materialization_roots@);
            lemma_shares_root_permutation(retained@, req.retained_roots@, materialization@, req.materialization_roots@);
            lemma_no_root_error_permutation(retained@, req.retained_roots@);
            lemma_no_root_error_permutation(materialization@, req.materialization_roots@);
        }
        if find_authority(materialization.as_slice()) {
            return Err(CausalAnchorError::AuthorityMaterializationRoot);
        }
        if find_shared(retained.as_slice(), materialization.as_slice()) {
            return Err(CausalAnchorError::RootAppearsInRetainedAndMaterialization);
        }
        let claim_digest = compute_claim_digest(
            schema_version,
            &subject,
            &basis_frontier,
            retained.as_slice(),
            materialization.as_slice(),
            purpose,
        );
        Ok(CausalAnchorClaim {
            schema_version,
            subject,
            basis_frontier,
            retained_roots: retained,
            materialization_roots: materialization,
            purpose,
            claim_digest,
        })
    }

    /// Returns the schema version used to canonicalize this claim.
    pub fn schema_version(&self) -> (r: u32)
        ensures
            r == self.schema_version_spec(),
    {
        self.schema_version
    }

    /// Returns the application subject named by this claim.
    pub fn subject(&self) -> (r: &CausalAnchorSubject)
        ensures
            *r == self.subject_spec(),
    {
        &self.subject
    }

    /// Returns the caller-provided causal-frontier reference.
    pub fn basis_frontier(&self) -> (r: &CausalFrontierRef)
        ensures
            *r == self.basis_frontier_spec(),
    {
        &self.basis_frontier
    }

    /// Returns the canonical retained root set.
    pub fn retained_roots(&self) -> (r: &[CausalAnchorRoot])
        ensures
            r@ == self.retained_spec(),
    {
        self.retained_roots.as_slice()
    }

    /// Returns the canonical materialization root set.
    pub fn materialization_roots(&self) -> (r: &[CausalAnchorRoot])
        ensures
            r@ == self.materialization_spec(),
    {
        self.materialization_roots.as_slice()
    }

    /// Returns the claimed anchor purpose.
    pub fn purpose(&self) -> (r: CausalAnchorPurpose)
        ensures
            r == self.purpose_spec(),
    {
        self.purpose
    }

    /// Returns the canonical digest of this claim.
    pub fn claim_digest(&self) -> (r: &crate::ident::Hash)
        ensures
            *r == self.claim_digest_spec(),
    {
        &self.claim_digest
    }
}

/// Opaque identity of an Echo-admitted causal anchor.
#[derive(Clone, Copy, Debug, PartialEq, Eq, PartialOrd, Ord, Hash)]
pub struct CausalAnchorId(pub(crate) crate::ident::Hash);

impl CausalAnchorId {
    /// The identity bytes.
    pub closed spec fn bytes_spec(&self) -> crate::ident::Hash {
        self.0
    }

    /// Returns the canonical anchor-id bytes.
    pub fn as_bytes(&self) -> (r: &crate::ident::Hash)
        ensures
            *r == self.bytes_spec(),
    {
        &self.0
    }
}

/// Opaque identity of an Echo causal-anchor admission receipt.
#[derive(Clone, Copy, Debug, PartialEq, Eq, PartialOrd, Ord, Hash)]
pub struct CausalAnchorAdmissionReceiptId(pub(crate) crate::ident::Hash);

impl CausalAnchorAdmissionReceiptId {
    /// The identity bytes.
    pub closed spec fn bytes_spec(&self) -> crate::ident::Hash {
        self.0
    }

    /// Returns the canonical admission-receipt-id bytes.
    pub fn as_bytes(&self) -> (r: &crate::ident::Hash)
        ensures
            *r == self.bytes_spec(),
    {
        &self.0
    }
}

/// Bytes hashed into an admission receipt id.
pub open spec fn receipt_id_input(
    claim_digest: crate::ident::Hash,
    support_policy_digest: crate::ident::Hash,
    writer_epoch_id: crate::ident::Hash,
    wal_transaction_id: crate::ident::Hash,
    wal_first_lsn: u64,
) -> Seq<u8> {
    "echo:causal-anchor:admission-receipt-id:v1\0".spec_bytes() + claim_digest@ + support_policy_digest@
        + writer_epoch_id@ + wal_transaction_id@ + spec_u64_to_le_bytes(wal_first_lsn)
}

/// Bytes hashed into an admitted-fact digest.
pub open spec fn anchor_digest_input(claim_digest: crate::ident::Hash, receipt_id: crate::ident::Hash) -> Seq<u8> {
    "echo:causal-anchor:fact-digest:v1\0".spec_bytes() + claim_digest@ + receipt_id@
}

/// Bytes hashed into an anchor id.
pub open spec fn anchor_id_input(anchor_digest: crate::ident::Hash) -> Seq<u8> {
    "echo:causal-anchor:id:v1\0".spec_bytes() + anchor_digest@
}

fn compute_admission_receipt_id(
    claim_digest: &crate::ident::Hash,
    support_policy_digest: &crate::ident::Hash,
    writer_epoch_id: &crate::ident::Hash,
    wal_transaction_id: &crate::ident::Hash,
    wal_first_lsn: u64,
) -> (r: CausalAnchorAdmissionReceiptId)
    ensures
        r.0@ == blake3_digest(receipt_id_input(*claim_digest, *support_policy_digest, *writer_epoch_id, *wal_transaction_id, wal_first_lsn)),
{
    let mut input: Vec<u8> = Vec::new();
    push_slice(&mut input, "echo:causal-anchor:admission-receipt-id:v1\0".as_bytes());
    push_hash(&mut input, claim_digest);
    push_hash(&mut input, support_policy_digest);
    push_hash(&mut input, writer_epoch_id);
    push_hash(&mut input, wal_transaction_id);
    push_u64_le(&mut input, wal_first_lsn);
    assert(input@ =~= receipt_id_input(*claim_digest, *support_policy_digest, *writer_epoch_id, *wal_transaction_id, wal_first_lsn));
    CausalAnchorAdmissionReceiptId(blake3_hash(input.as_slice()))
}

fn compute_anchor_digest(claim_digest: &crate::ident::Hash, receipt_id: &CausalAnchorAdmissionReceiptId) -> (r: crate::ident::Hash)
    ensures
        r@ == blake3_digest(anchor_digest_input(*claim_digest, receipt_id.0)),
{
    let mut input: Vec<u8> = Vec::new();
    push_slice(&mut input, "echo:causal-anchor:fact-digest:v1\0".as_bytes());
    push_hash(&mut input, claim_digest);
    push_hash(&mut input, &receipt_id.0);
    assert(input@ =~= anchor_digest_input(*claim_digest, receipt_id.0));
    blake3_hash(input.as_slice())
}

fn compute_anchor_id(anchor_digest: &crate::ident::Hash) -> (r: CausalAnchorId)
    ensures
        r.0@ == blake3_digest(anchor_id_input(*anchor_digest)),
{
    let mut input: Vec<u8> = Vec::new();
    push_slice(&mut input, "echo:causal-anchor:id:v1\0".as_bytes());
    push_hash(&mut input, anchor_digest);
    assert(input@ =~= anchor_id_input(*anchor_digest));
    CausalAnchorId(blake3_hash(input.as_slice()))
}

/// Echo-admitted causal-anchor fact.
///
/// Only the trusted admission path and recovery construct one; decoded bytes
/// alone are not proof of a durable commit.
#[derive(Clone, Debug, PartialEq, Eq)]
pub struct CausalAnchorFact {
    claim: CausalAnchorClaim,
    anchor_id: CausalAnchorId,
    admitted_by_receipt_id: CausalAnchorAdmissionReceiptId,
    anchor_digest: crate::ident::Hash,
}

/// Receipt evidence committed by Echo for one causal-anchor admission.
#[derive(Clone, Debug, PartialEq, Eq)]
pub struct CausalAnchorAdmissionReceipt {
    receipt_id: CausalAnchorAdmissionReceiptId,
    anchor_id: CausalAnchorId,
    claim_digest: crate::ident::Hash,
    basis_frontier: CausalFrontierRef,
    support_policy_digest: crate::ident::Hash,
    writer_epoch_id: crate::ident::Hash,
    wal_transaction_id: crate::ident::Hash,
    wal_first_lsn: u64,
}

/// Persisted bytes of a claim.
pub open spec fn claim_payload_bytes(c: CausalAnchorClaim) -> Seq<u8> {
    "EACLM001".spec_bytes() + spec_u32_to_le_bytes(c.schema_version_spec()) + c.subject_spec().canonical_bytes()
        + c.basis_frontier_spec().frontier_digest@ + roots_payload_bytes(c.retained_spec())
        + roots_payload_bytes(c.materialization_spec()) + seq![c.purpose_spec().tag_spec()]
        + c.claim_digest_spec()@
}

impl CausalAnchorFact {
    /// The admitted claim.
    pub closed spec fn claim_spec(&self) -> CausalAnchorClaim { self.claim }
    /// The admitted anchor's identity.
    pub closed spec fn anchor_id_spec(&self) -> CausalAnchorId { self.anchor_id }
    /// The receipt identity that admitted the fact.
    pub closed spec fn receipt_id_spec(&self) -> CausalAnchorAdmissionReceiptId { self.admitted_by_receipt_id }
    /// The admitted-fact digest.
    pub closed spec fn anchor_digest_spec(&self) -> crate::ident::Hash { self.anchor_digest }

    /// The fact binds its claim and receipt: its digest and id derive from them.
    pub open spec fn wf(&self) -> bool {
        &&& self.claim_spec().wf()
        &&& self.anchor_digest_spec()@ == blake3_digest(anchor_digest_input(
            self.claim_spec().claim_digest_spec(),
            self.receipt_id_spec().bytes_spec(),
        ))
        &&& self.anchor_id_spec().bytes_spec()@ == blake3_digest(anchor_id_input(self.anchor_digest_spec()))
    }

    /// Persisted bytes of the fact.
    pub open spec fn payload_bytes_spec(&self) -> Seq<u8> {
        "EAFCT001".spec_bytes() + len_prefixed(claim_payload_bytes(self.claim_spec()))
            + self.receipt_id_spec().bytes_spec()@ + self.anchor_digest_spec()@ + self.anchor_id_spec().bytes_spec()@
    }

    /// Returns the canonical application claim Echo admitted.
    pub fn claim(&self) -> (r: &CausalAnchorClaim)
        ensures
            *r == self.claim_spec(),
    {
        &self.claim
    }

    /// Returns this admitted anchor's stable identity.
    pub fn anchor_id(&self) -> (r: &CausalAnchorId)
        ensures
            *r == self.anchor_id_spec(),
    {
        &self.anchor_id
    }

    /// Returns the Echo receipt identity that admitted this fact.
    pub fn admitted_by_receipt_id(&self) -> (r: &CausalAnchorAdmissionReceiptId)
        ensures
            *r == self.receipt_id_spec(),
    {
        &self.admitted_by_receipt_id
    }

    /// Returns the admitted fact digest.
    pub fn anchor_digest(&self) -> (r: &crate::ident::Hash)
        ensures
            *r == self.anchor_digest_spec(),
    {
        &self.anchor_digest
    }
}

impl CausalAnchorAdmissionReceipt {
    /// The receipt identity.
    pub closed spec fn receipt_id_spec(&self) -> CausalAnchorAdmissionReceiptId { self.receipt_id }
    /// The admitted anchor identity.
    pub closed spec fn anchor_id_spec(&self) -> CausalAnchorId { self.anchor_id }
    /// Digest of the admitted claim.
    pub closed spec fn claim_digest_spec(&self) -> crate::ident::Hash { self.claim_digest }
    /// Frontier named by the admitted claim.
    pub closed spec fn basis_frontier_spec(&self) -> CausalFrontierRef { self.basis_frontier }
    /// Host support policy applied at admission.
    pub closed spec fn support_policy_digest_spec(&self) -> crate::ident::Hash { self.support_policy_digest }
    /// WAL writer epoch that ordered the admission.
    pub closed spec fn writer_epoch_id_spec(&self) -> crate::ident::Hash { self.writer_epoch_id }
    /// WAL transaction that ordered the admission.
    pub closed spec fn wal_transaction_id_spec(&self) -> crate::ident::Hash { self.wal_transaction_id }
    /// First WAL LSN of the admission transaction.
    pub closed spec fn wal_first_lsn_spec(&self) -> u64 { self.wal_first_lsn }

    /// The receipt id derives from its WAL coordinate and the anchor id from
    /// the claim digest and receipt id.
    pub open spec fn wf(&self) -> bool {
        &&& self.receipt_id_spec().bytes_spec()@ == blake3_digest(receipt_id_input(
            self.claim_digest_spec(),
            self.support_policy_digest_spec(),
            self.writer_epoch_id_spec(),
            self.wal_transaction_id_spec(),
            self.wal_first_lsn_spec(),
        ))
        &&& exists|d: crate::ident::Hash| d@ == blake3_digest(anchor_digest_input(self.claim_digest_spec(), self.receipt_id_spec().bytes_spec()))
            && self.anchor_id_spec().bytes_spec()@ == blake3_digest(anchor_id_input(d))
    }

    /// Persisted bytes of the receipt.
    pub open spec fn payload_bytes_spec(&self) -> Seq<u8> {
        "EARCP001".spec_bytes() + self.receipt_id_spec().bytes_spec()@ + self.anchor_id_spec().bytes_spec()@ + self.claim_digest_spec()@
            + self.basis_frontier_spec().frontier_digest@ + self.support_policy_digest_spec()@
            + self.writer_epoch_id_spec()@ + self.wal_transaction_id_spec()@
            + spec_u64_to_le_bytes(self.wal_first_lsn_spec())
    }

    /// Returns this receipt's stable identity.
    pub fn receipt_id(&self) -> (r: &CausalAnchorAdmissionReceiptId)
        ensures
            *r == self.receipt_id_spec(),
    {
        &self.receipt_id
    }

    /// Returns the admitted anchor identity.
    pub fn anchor_id(&self) -> (r: &CausalAnchorId)
        ensures
            *r == self.anchor_id_spec(),
    {
        &self.anchor_id
    }

    /// Returns the digest of the exact application claim admitted by Echo.
    pub fn claim_digest(&self) -> (r: &crate::ident::Hash)
        ensures
            *r == self.claim_digest_spec(),
    {
        &self.claim_digest
    }

    /// Returns the causal frontier named by the admitted claim.
    pub fn basis_frontier(&self) -> (r: &CausalFrontierRef)
        ensures
            *r == self.basis_frontier_spec(),
    {
        &self.basis_frontier
    }

    /// Returns the host-owned root-support policy applied at admission.
    pub fn support_policy_digest(&self) -> (r: &crate::ident::Hash)
        ensures
            *r == self.support_policy_digest_spec(),
    {
        &self.support_policy_digest
    }

    /// Returns the WAL writer epoch that ordered this admission.
    pub fn writer_epoch_id(&self) -> (r: &crate::ident::Hash)
        ensures
            *r == self.writer_epoch_id_spec(),
    {
        &self.writer_epoch_id
    }

    /// Returns the WAL transaction identity that ordered this admission.
    pub fn wal_transaction_id(&self) -> (r: &crate::ident::Hash)
        ensures
            *r == self.wal_transaction_id_spec(),
    {
        &self.wal_transaction_id
    }

    /// Returns the first WAL LSN occupied by this admission transaction.
    pub fn wal_first_lsn(&self) -> (r: u64)
        ensures
            r == self.wal_first_lsn_spec(),
    {
        self.wal_first_lsn
    }
}

/// Derives the admission receipt and admitted fact for `claim` at a WAL
/// coordinate under a host support policy.
pub fn prepare_causal_anchor_admission(
    claim: CausalAnchorClaim,
    support_policy_digest: crate::ident::Hash,
    writer_epoch_id: crate::ident::Hash,
    wal_transaction_id: crate::ident::Hash,
    wal_first_lsn: u64,
) -> (r: (CausalAnchorFact, CausalAnchorAdmissionReceipt))
    requires
        claim.wf(),
    ensures
        r.0.wf(),
        r.1.wf(),
        r.0.claim_spec() == claim,
        r.0.receipt_id_spec() == r.1.receipt_id_spec(),
        r.0.anchor_id_spec() == r.1.anchor_id_spec(),
        r.1.claim_digest_spec() == claim.claim_digest_spec(),
        r.1.basis_frontier_spec() == claim.basis_frontier_spec(),
        r.1.support_policy_digest_spec() == support_policy_digest,
        r.1.writer_epoch_id_spec() == writer_epoch_id,
        r.1.wal_transaction_id_spec() == wal_transaction_id,
        r.1.wal_first_lsn_spec() == wal_first_lsn,
{
    let receipt_id = compute_admission_receipt_id(
        &claim.claim_digest,
        &support_policy_digest,
        &writer_epoch_id,
        &wal_transaction_id,
        wal_first_lsn,
    );
    let anchor_digest = compute_anchor_digest(&claim.claim_digest, &receipt_id);
    let anchor_id = compute_anchor_id(&anchor_digest);
    let receipt = CausalAnchorAdmissionReceipt {
        receipt_id,
        anchor_id,
        claim_digest: claim.claim_digest,
        basis_frontier: claim.basis_frontier,
        support_policy_digest,
        writer_epoch_id,
        wal_transaction_id,
        wal_first_lsn,
    };
    let fact = CausalAnchorFact { claim, anchor_id, admitted_by_receipt_id: receipt_id, anchor_digest };
    (fact, receipt)
}

/// A fact and a receipt describe the same admission.
pub open spec fn evidence_matches(f: CausalAnchorFact, r: CausalAnchorAdmissionReceipt) -> bool {
    &&& f.receipt_id_spec() == r.receipt_id_spec()
    &&& f.anchor_id_spec() == r.anchor_id_spec()
    &&& f.claim_spec().claim_digest_spec() == r.claim_digest_spec()
    &&& f.claim_spec().basis_frontier_spec() == r.basis_frontier_spec()
}

/// Checks that a fact and a receipt describe the same admission.
pub fn validate_causal_anchor_admission_evidence(
    fact: &CausalAnchorFact,
    receipt: &CausalAnchorAdmissionReceipt,
) -> (r: Result<(), CausalAnchorError>)
    ensures
        r == (if evidence_matches(*fact, *receipt) {
            Ok::<(), CausalAnchorError>(())
        } else {
            Err(CausalAnchorError::AdmissionEvidenceMismatch)
        }),
{
    let receipt_matches = hash_eq(&fact.admitted_by_receipt_id.0, &receipt.receipt_id.0);
    let anchor_matches = hash_eq(&fact.anchor_id.0, &receipt.anchor_id.0);
    let claim_matches = hash_eq(&fact.claim.claim_digest, &receipt.claim_digest);
    let basis_matches = hash_eq(&fact.claim.basis_frontier.frontier_digest, &receipt.basis_frontier.frontier_digest);
    if !(receipt_matches && anchor_matches && claim_matches && basis_matches) {
        return Err(CausalAnchorError::AdmissionEvidenceMismatch);
    }
    Ok(())
}

/// Prepared evidence always matches.
pub proof fn lemma_prepared_evidence_matches(f: CausalAnchorFact, r: CausalAnchorAdmissionReceipt, claim: CausalAnchorClaim)
    requires
        f.claim_spec() == claim,
        f.receipt_id_spec() == r.receipt_id_spec(),
        f.anchor_id_spec() == r.anchor_id_spec(),
        r.claim_digest_spec() == claim.claim_digest_spec(),
        r.basis_frontier_spec() == claim.basis_frontier_spec(),
    ensures
        evidence_matches(f, r),
{
}

/// Unread bytes of a cursor.
pub open spec fn rest_of(c: ByteCursor) -> Seq<u8> {
    c.bytes@.skip(c.pos as int)
}

/// A length-prefixed byte string: its bytes, then the rest.
pub open spec fn take_str(s: Seq<u8>) -> Option<(Seq<u8>, Seq<u8>)> {
    if s.len() < 8 {
        None
    } else {
        let n = spec_u64_from_le_bytes(s.take(8)) as int;
        if 8 + n > s.len() {
            None
        } else {
            Some((s.subrange(8, 8 + n), s.skip(8 + n)))
        }
    }
}

/// A length-prefixed UTF-8 string, then the rest.
pub open spec fn take_utf8(s: Seq<u8>) -> Option<Seq<u8>> {
    match take_str(s) {
        Some((body, rest)) => if valid_utf8(body) {
            Some(rest)
        } else {
            None
        },
        None => None,
    }
}

/// The rest after one encoded root, if `s` starts with one.
pub open spec fn root_take(s: Seq<u8>) -> Option<Seq<u8>> {
    if s.len() < 1 {
        None
    } else {
        let t = s.skip(1);
        if s[0] == 1u8 {
            if t.len() >= 33 && CausalAnchorCasRole::from_tag_spec(t[32]) is Some {
                Some(t.skip(33))
            } else {
                None
            }
        } else if s[0] == 2u8 {
            if t.len() >= 33 && CausalAnchorGraphRole::from_tag_spec(t[32]) is Some {
                Some(t.skip(33))
            } else {
                None
            }
        } else if s[0] == 3u8 {
            match take_utf8(t) {
                Some(t1) => match take_utf8(t1) {
                    Some(t2) => match take_utf8(t2) {
                        Some(t3) => if t3.len() >= 1 && CausalAnchorAppRootRole::from_tag_spec(t3[0]) is Some {
                            Some(t3.skip(1))
                        } else {
                            None
                        },
                        None => None,
                    },
                    None => None,
                },
                None => None,
            }
        } else {
            None
        }
    }
}

/// The rest after `k` encoded roots, if `s` starts with them.
pub open spec fn roots_take(s: Seq<u8>, k: nat) -> Option<Seq<u8>>
    decreases k,
{
    if k == 0 {
        Some(s)
    } else {
        match root_take(s) {
            Some(r) => roots_take(r, (k - 1) as nat),
            None => None,
        }
    }
}

/// The rest after an encoded root list (count, then roots), if any.
pub open spec fn root_list_take(s: Seq<u8>) -> Option<Seq<u8>> {
    if s.len() < 8 {
        None
    } else {
        roots_take(s.skip(8), spec_u64_from_le_bytes(s.take(8)) as nat)
    }
}

fn read_magic(c: &mut ByteCursor, magic: &str, payload_kind: &'static str) -> (r: Result<(), CausalAnchorError>)
    requires
        old(c).pos <= old(c).bytes@.len(),
    ensures
        final(c).bytes@ == old(c).bytes@,
        final(c).pos <= final(c).bytes@.len(),
        ({
            let s = rest_of(*old(c));
            let m = magic.spec_bytes().len() as int;
            if s.len() < m {
                r == Err::<(), CausalAnchorError>(CausalAnchorError::UnexpectedPayloadEnd)
            } else if s.take(m) == magic.spec_bytes() {
                r is Ok && rest_of(*final(c)) == s.skip(m)
            } else {
                r == Err::<(), CausalAnchorError>(CausalAnchorError::InvalidPayloadMagic { payload_kind })
            }
        }),
        r is Ok ==> final(c).pos == old(c).pos + magic.spec_bytes().len() && old(c).bytes@.subrange(
            old(c).pos as int,
            old(c).pos + magic.spec_bytes().len(),
        ) == magic.spec_bytes(),
{
    let ghost s = rest_of(*c);
    let ghost p = c.pos as int;
    match c.read_exact(magic.as_bytes().len()) {
        None => Err(CausalAnchorError::UnexpectedPayloadEnd),
        Some(sl) => {
            assert(s.take(magic.spec_bytes().len() as int) =~= sl@);
            assert(rest_of(*c) =~= s.skip(magic.spec_bytes().len() as int));
            if bytes_eq(sl, magic.as_bytes()) {
                Ok(())
            } else {
                Err(CausalAnchorError::InvalidPayloadMagic { payload_kind })
            }
        },
    }
}

fn read_hash(c: &mut ByteCursor) -> (r: Result<crate::ident::Hash, CausalAnchorError>)
    requires
        old(c).pos <= old(c).bytes@.len(),
    ensures
        final(c).bytes@ == old(c).bytes@,
        final(c).pos <= final(c).bytes@.len(),
        r is Ok ==> final(c).pos == old(c).pos + 32 && r->Ok_0@ == old(c).bytes@.subrange(old(c).pos as int, old(c).pos + 32),
        rest_of(*old(c)).len() >= 32 ==> r is Ok && r->Ok_0@ == rest_of(*old(c)).take(32) && rest_of(*final(c))
            == rest_of(*old(c)).skip(32),
        rest_of(*old(c)).len() < 32 ==> r == Err::<crate::ident::Hash, CausalAnchorError>(
            CausalAnchorError::UnexpectedPayloadEnd,
        ),
{
    let ghost s = rest_of(*c);
    match c.read_hash() {
        Some(h) => {
            assert(h@ =~= s.take(32));
            assert(rest_of(*c) =~= s.skip(32));
            Ok(h)
        },
        None => Err(CausalAnchorError::UnexpectedPayloadEnd),
    }
}

fn read_u8(c: &mut ByteCursor) -> (r: Result<u8, CausalAnchorError>)
    requires
        old(c).pos <= old(c).bytes@.len(),
    ensures
        final(c).bytes@ == old(c).bytes@,
        final(c).pos <= final(c).bytes@.len(),
        r is Ok ==> final(c).pos == old(c).pos + 1 && r->Ok_0 == old(c).bytes@[old(c).pos as int],
        rest_of(*old(c)).len() >= 1 ==> r == Ok::<u8, CausalAnchorError>(rest_of(*old(c))[0]) && rest_of(*final(c))
            == rest_of(*old(c)).skip(1),
        rest_of(*old(c)).len() < 1 ==> r == Err::<u8, CausalAnchorError>(CausalAnchorError::UnexpectedPayloadEnd),
{
    let ghost s = rest_of(*c);
    match c.read_u8() {
        Some(b) => {
            assert(rest_of(*c) =~= s.skip(1));
            Ok(b)
        },
        None => Err(CausalAnchorError::UnexpectedPayloadEnd),
    }
}

fn read_string(c: &mut ByteCursor, field: &'static str) -> (r: Result<String, CausalAnchorError>)
    requires
        old(c).pos <= old(c).bytes@.len(),
    ensures
        final(c).bytes@ == old(c).bytes@,
        final(c).pos <= final(c).bytes@.len(),
        match take_str(rest_of(*old(c))) {
            None => r == Err::<String, CausalAnchorError>(CausalAnchorError::UnexpectedPayloadEnd),
            Some((body, rest)) => if valid_utf8(body) {
                r matches Ok(st) && encode_utf8(st@) == body && st@ == decode_utf8(body) && rest_of(*final(c)) == rest
            } else {
                r == Err::<String, CausalAnchorError>(CausalAnchorError::InvalidUtf8 { field })
            },
        },
{
    let ghost s = rest_of(*c);
    let ghost p = c.pos as int;
    proof {
        if s.len() >= 8 {
            assert(s.take(8) =~= c.bytes@.subrange(p, p + 8));
        }
    }
    match c.read_len_prefixed() {
        None => Err(CausalAnchorError::UnexpectedPayloadEnd),
        Some(v) => {
            proof {
                let n = spec_u64_from_le_bytes(s.take(8)) as int;
                assert(v@ =~= s.subrange(8, 8 + n));
                assert(rest_of(*c) =~= s.skip(8 + n));
            }
            match string_from_utf8(v) {
                Some(st) => Ok(st),
                None => Err(CausalAnchorError::InvalidUtf8 { field }),
            }
        },
    }
}

fn read_root(c: &mut ByteCursor) -> (r: Result<CausalAnchorRoot, CausalAnchorError>)
    requires
        old(c).pos <= old(c).bytes@.len(),
    ensures
        final(c).bytes@ == old(c).bytes@,
        final(c).pos <= final(c).bytes@.len(),
        match root_take(rest_of(*old(c))) {
            Some(rest) => r matches Ok(root) && rest_of(*old(c)) == root.payload_bytes() + rest && rest_of(*final(c))
                == rest,
            None => r is Err,
        },
{
    let ghost s = rest_of(*c);
    let tag = read_u8(c)?;
    let ghost t = rest_of(*c);
    if tag == 1 {
        let id = read_hash(c)?;
        let rt = read_u8(c)?;
        let role = CausalAnchorCasRole::from_tag(rt)?;
        proof {
            role.lemma_tag_round_trip();
            assert(t[32] == rt);
            assert(s =~= (CausalAnchorRoot::CasObject { id, role }).payload_bytes() + t.skip(33));
            assert(rest_of(*c) =~= t.skip(33));
        }
        Ok(CausalAnchorRoot::CasObject { id, role })
    } else if tag == 2 {
        let id = read_hash(c)?;
        let rt = read_u8(c)?;
        let role = CausalAnchorGraphRole::from_tag(rt)?;
        proof {
            role.lemma_tag_round_trip();
            assert(t[32] == rt);
            assert(s =~= (CausalAnchorRoot::GraphFact { id, role }).payload_bytes() + t.skip(33));
            assert(rest_of(*c) =~= t.skip(33));
        }
        Ok(CausalAnchorRoot::GraphFact { id, role })
    } else if tag == 3 {
        let app_id = read_string(c, "root.app_id")?;
        let ghost t1 = rest_of(*c);
        let subject_kind = read_string(c, "root.subject_kind")?;
        let ghost t2 = rest_of(*c);
        let id = read_string(c, "root.id")?;
        let ghost t3 = rest_of(*c);
        let rt = read_u8(c)?;
        let role = CausalAnchorAppRootRole::from_tag(rt)?;
        proof {
            role.lemma_tag_round_trip();
            lemma_take_str_split(t);
            lemma_take_str_split(t1);
            lemma_take_str_split(t2);
            lemma_app_root_bytes(s, t, t1, t2, t3, app_id@, subject_kind@, id@, role);
        }
        Ok(CausalAnchorRoot::AppSubjectRoot { app_id, subject_kind, id, role })
    } else {
        Err(CausalAnchorError::UnknownEnumCode { enum_name: "CausalAnchorRoot", code: tag })
    }
}

proof fn lemma_app_root_bytes(
    s: Seq<u8>,
    t: Seq<u8>,
    t1: Seq<u8>,
    t2: Seq<u8>,
    t3: Seq<u8>,
    a: Seq<char>,
    k: Seq<char>,
    i: Seq<char>,
    role: CausalAnchorAppRootRole,
)
    requires
        s.len() >= 1 && s[0] == 3u8 && t == s.skip(1),
        t == len_prefixed(encode_utf8(a)) + t1,
        t1 == len_prefixed(encode_utf8(k)) + t2,
        t2 == len_prefixed(encode_utf8(i)) + t3,
        t3.len() >= 1 && t3[0] == role.tag_spec(),
    ensures
        s == seq![3u8] + len_prefixed(encode_utf8(a)) + len_prefixed(encode_utf8(k)) + len_prefixed(encode_utf8(i))
            + seq![role.tag_spec()] + t3.skip(1),
{
    assert(t3 =~= seq![role.tag_spec()] + t3.skip(1));
    assert(s =~= seq![3u8] + t);
    assert(s =~= seq![3u8] + len_prefixed(encode_utf8(a)) + len_prefixed(encode_utf8(k)) + len_prefixed(encode_utf8(i))
        + seq![role.tag_spec()] + t3.skip(1));
}

/// A digest, then the rest: reading 32 bytes gives the digest back.
proof fn lemma_split_hash(h: crate::ident::Hash, r: Seq<u8>)
    ensures
        (h@ + r).len() >= 32,
        (h@ + r).take(32) == h@,
        (h@ + r).skip(32) == r,
{
    assert((h@ + r).take(32) =~= h@);
    assert((h@ + r).skip(32) =~= r);
}

/// A length-prefixed string splits into its prefix, body and rest.
proof fn lemma_take_str_split(s: Seq<u8>)
    requires
        take_str(s) is Some,
    ensures
        ({
            let (body, rest) = take_str(s)->Some_0;
            s == len_prefixed(body) + rest
        }),
{
    vstd::bytes::lemma_auto_spec_u64_to_from_le_bytes();
    let (body, rest) = take_str(s)->Some_0;
    let n = spec_u64_from_le_bytes(s.take(8));
    assert(body.len() == n);
    assert(spec_u64_to_le_bytes(spec_u64_from_le_bytes(s.take(8))) == s.take(8));
    assert(s =~= s.take(8) + body + rest);
}

fn read_roots(c: &mut ByteCursor) -> (r: Result<Vec<CausalAnchorRoot>, CausalAnchorError>)
    requires
        old(c).pos <= old(c).bytes@.len(),
    ensures
        final(c).bytes@ == old(c).bytes@,
        final(c).pos <= final(c).bytes@.len(),
        match root_list_take(rest_of(*old(c))) {
            Some(rest) => r matches Ok(v) && rest_of(*old(c)) == roots_payload_bytes(v@) + rest && rest_of(*final(c))
                == rest,
            None => r is Err,
        },
{
    let ghost s = rest_of(*c);
    let ghost p = c.pos as int;
    proof {
        if s.len() >= 8 {
            assert(s.take(8) =~= c.bytes@.subrange(p, p + 8));
        }
    }
    let count = match c.read_u64() {
        Some(n) => n,
        None => return Err(CausalAnchorError::UnexpectedPayloadEnd),
    };
    let ghost start = rest_of(*c);
    proof {
        assert(start =~= s.skip(8));
        vstd::bytes::lemma_auto_spec_u64_to_from_le_bytes();
        assert(spec_u64_to_le_bytes(count) == s.take(8));
        assert(root_list_take(s) == roots_take(start, count as nat));
    }
    let mut roots: Vec<CausalAnchorRoot> = Vec::new();
    let mut k: u64 = 0;
    while k < count
        invariant
            c.bytes@ == old(c).bytes@,
            c.pos <= c.bytes@.len(),
            k <= count,
            roots@.len() == k,
            start == roots_payload_concat(roots@) + rest_of(*c),
            roots_take(start, count as nat) == roots_take(rest_of(*c), (count - k) as nat),
            s == rest_of(*old(c)),
            root_list_take(s) == roots_take(start, count as nat),
        decreases count - k,
    {
        let ghost before = roots@;
        let ghost cur = rest_of(*c);
        let root = match read_root(c) {
            Ok(root) => root,
            Err(e) => {
                proof {
                    assert(root_take(cur) is None);
                    assert(roots_take(cur, (count - k) as nat) is None);
                }
                return Err(e);
            },
        };
        proof {
            assert(root_take(cur) == Some(rest_of(*c)));
            assert(roots_take(cur, (count - k) as nat) == roots_take(rest_of(*c), (count - k - 1) as nat));
        }
        roots.push(root);
        proof {
            assert(roots@.drop_last() =~= before);
            assert(roots_payload_concat(roots@) == roots_payload_concat(before) + root.payload_bytes());
            assert(start =~= roots_payload_concat(roots@) + rest_of(*c));
        }
        k += 1;
    }
    proof {
        assert(k == count);
        assert(roots_take(rest_of(*c), 0) == Some(rest_of(*c)));
        assert(s =~= s.take(8) + s.skip(8));
        assert(roots_payload_bytes(roots@) == spec_u64_to_le_bytes(count) + roots_payload_concat(roots@));
        assert(s =~= roots_payload_bytes(roots@) + rest_of(*c));
    }
    Ok(roots)
}

impl CausalAnchorClaim {
    /// Encodes the claim as its canonical payload bytes.
    pub fn to_payload_bytes(&self) -> (r: Vec<u8>)
        ensures
            r@ == claim_payload_bytes(*self),
    {
        let mut out: Vec<u8> = Vec::new();
        push_slice(&mut out, "EACLM001".as_bytes());
        push_u32_le(&mut out, self.schema_version);
        self.subject.push_canonical(&mut out);
        push_hash(&mut out, &self.basis_frontier.frontier_digest);
        push_roots_payload(&mut out, self.retained_roots.as_slice());
        push_roots_payload(&mut out, self.materialization_roots.as_slice());
        push_u8(&mut out, self.purpose.tag());
        push_hash(&mut out, &self.claim_digest);
        assert(out@ =~= claim_payload_bytes(*self));
        out
    }

    /// Decodes a claim. The fields are re-canonicalized as an admission
    /// request would be; the encoded digest must match and the bytes must be
    /// the one canonical encoding of the resulting claim. It succeeds exactly
    /// on the encoding of a canonical claim.
    pub fn from_payload_bytes(bytes: &[u8]) -> (r: Result<Self, CausalAnchorError>)
        ensures
            r is Ok ==> r->Ok_0.wf() && claim_payload_bytes(r->Ok_0) == bytes@,
            (exists|x: Self| #[trigger] claim_payload_bytes(x) == bytes@ && x.wf()) ==> r is Ok,
    {
        let (request, encoded_claim_digest) = read_claim_fields(bytes)?;
        let ghost req = request;
        proof {
            if encodes_claim(bytes@) {
                lemma_claim_request_ok(encoded_claim(bytes@), req);
            }
        }
        let claim = Self::from_admission_request(request)?;
        proof {
            if encodes_claim(bytes@) {
                lemma_claim_rebuilt(encoded_claim(bytes@), req, claim);
                assert(encoded_claim_digest =~= encoded_claim(bytes@).claim_digest_spec());
            }
        }
        if !hash_eq(&claim.claim_digest, &encoded_claim_digest) {
            return Err(CausalAnchorError::ClaimDigestMismatch);
        }
        let encoded = claim.to_payload_bytes();
        if !bytes_eq(encoded.as_slice(), bytes) {
            return Err(CausalAnchorError::NonCanonicalPayload);
        }
        Ok(claim)
    }
}

/// The bytes encode some canonical claim.
pub open spec fn encodes_claim(b: Seq<u8>) -> bool {
    exists|x: CausalAnchorClaim| #[trigger] claim_payload_bytes(x) == b && x.wf()
}

/// A canonical claim the bytes encode, when there is one.
pub open spec fn encoded_claim(b: Seq<u8>) -> CausalAnchorClaim {
    choose|x: CausalAnchorClaim| #[trigger] claim_payload_bytes(x) == b && x.wf()
}

/// The request carries the claim's fields, strings by content and roots up
/// to equivalence.
pub open spec fn request_matches(req: CausalAnchorAdmissionRequest, x: CausalAnchorClaim) -> bool {
    &&& req.schema_version == x.schema_version_spec()
    &&& req.subject.app_id@ == x.subject_spec().app_id@
    &&& req.subject.subject_kind@ == x.subject_spec().subject_kind@
    &&& req.subject.subject_id@ == x.subject_spec().subject_id@
    &&& req.basis_frontier == x.basis_frontier_spec()
    &&& req.purpose == x.purpose_spec()
    &&& req.retained_roots@.len() == x.retained_spec().len()
    &&& forall|i: int| 0 <= i < req.retained_roots@.len() ==> root_equiv(#[trigger] req.retained_roots@[i], x.retained_spec()[i])
    &&& req.materialization_roots@.len() == x.materialization_spec().len()
    &&& forall|i: int| 0 <= i < req.materialization_roots@.len() ==> root_equiv(
        #[trigger] req.materialization_roots@[i],
        x.materialization_spec()[i],
    )
}

/// Reads the fields of an encoded claim, in order, as an admission request
/// and the encoded digest; on the encoding of a canonical claim it reads
/// that claim's fields.
#[verifier::rlimit(100)]
#[verifier::spinoff_prover]
fn read_claim_fields(bytes: &[u8]) -> (r: Result<(CausalAnchorAdmissionRequest, crate::ident::Hash), CausalAnchorError>)
    ensures
        encodes_claim(bytes@) ==> (r matches Ok((req, d)) && request_matches(req, encoded_claim(bytes@)) && d@
            == encoded_claim(bytes@).claim_digest_spec()@),
{
    let _len = bytes.len();
    let ghost good = encodes_claim(bytes@);
    let ghost x = encoded_claim(bytes@);
    let ghost sub = x.subject_spec();
    let ghost r8 = seq![x.purpose_spec().tag_spec()] + x.claim_digest_spec()@;
    let ghost r7 = roots_payload_bytes(x.materialization_spec()) + r8;
    let ghost r6 = roots_payload_bytes(x.retained_spec()) + r7;
    let ghost r5 = x.basis_frontier_spec().frontier_digest@ + r6;
    let ghost r4 = len_prefixed(encode_utf8(sub.subject_id@)) + r5;
    let ghost r3 = len_prefixed(encode_utf8(sub.subject_kind@)) + r4;
    let ghost r2 = len_prefixed(encode_utf8(sub.app_id@)) + r3;
    let ghost r1 = spec_u32_to_le_bytes(x.schema_version_spec()) + r2;
    let mut c = ByteCursor::new(bytes);
    proof {
        assert(rest_of(c) =~= bytes@);
        if good {
            let mb = "EACLM001".spec_bytes();
            assert(bytes@ =~= mb + r1);
            assert((mb + r1).take(mb.len() as int) =~= mb);
            assert((mb + r1).skip(mb.len() as int) =~= r1);
        }
    }
    read_magic(&mut c, "EACLM001", "claim")?;
    proof {
        if good {
            vstd::bytes::lemma_auto_spec_u32_to_from_le_bytes();
            assert(c.bytes@.subrange(c.pos as int, c.pos + 4) =~= r1.take(4));
            assert(r1.take(4) =~= spec_u32_to_le_bytes(x.schema_version_spec()));
        }
    }
    let schema_version = match c.read_u32() {
        Some(v) => v,
        None => return Err(CausalAnchorError::UnexpectedPayloadEnd),
    };
    proof {
        if good {
            assert(rest_of(c) =~= r2);
            lemma_take_utf8_lp(sub.app_id@, r3);
            vstd::utf8::encode_utf8_decode_utf8(sub.app_id@);
        }
    }
    let app_id = read_string(&mut c, "subject.app_id")?;
    proof {
        if good {
            lemma_take_utf8_lp(sub.subject_kind@, r4);
            vstd::utf8::encode_utf8_decode_utf8(sub.subject_kind@);
        }
    }
    let subject_kind = read_string(&mut c, "subject.subject_kind")?;
    proof {
        if good {
            lemma_take_utf8_lp(sub.subject_id@, r5);
            vstd::utf8::encode_utf8_decode_utf8(sub.subject_id@);
        }
    }
    let subject_id = read_string(&mut c, "subject.subject_id")?;
    let subject = CausalAnchorSubject::new(app_id, subject_kind, subject_id);
    proof {
        if good {
            lemma_split_hash(x.basis_frontier_spec().frontier_digest, r6);
        }
    }
    let basis_frontier = CausalFrontierRef::from_digest(read_hash(&mut c)?);
    proof {
        if good {
            assert(basis_frontier.frontier_digest =~= x.basis_frontier_spec().frontier_digest);
            lemma_root_list_take(x.retained_spec(), r7);
        }
    }
    let retained_roots = read_roots(&mut c)?;
    proof {
        if good {
            lemma_root_list_unique(retained_roots@, r7, x.retained_spec(), r7);
            lemma_root_list_take(x.materialization_spec(), r8);
        }
    }
    let materialization_roots = read_roots(&mut c)?;
    proof {
        if good {
            lemma_root_list_unique(materialization_roots@, r8, x.materialization_spec(), r8);
            x.purpose_spec().lemma_tag_round_trip();
            assert(r8[0] == x.purpose_spec().tag_spec());
            assert(r8.skip(1) =~= x.claim_digest_spec()@);
        }
    }
    let purpose = CausalAnchorPurpose::from_tag(read_u8(&mut c)?)?;
    proof {
        if good {
            lemma_split_hash(x.claim_digest_spec(), Seq::empty());
            assert(x.claim_digest_spec()@ + Seq::<u8>::empty() =~= x.claim_digest_spec()@);
        }
    }
    let encoded_claim_digest = read_hash(&mut c)?;
    if !c.at_end() {
        return Err(CausalAnchorError::TrailingPayloadBytes);
    }
    Ok(
        (
            CausalAnchorAdmissionRequest {
                schema_version,
                subject,
                basis_frontier,
                retained_roots,
                materialization_roots,
                purpose,
            },
            encoded_claim_digest,
        ),
    )
}

/// The fields read back from a canonical claim's encoding form a request
/// that is admitted.
proof fn lemma_claim_request_ok(x: CausalAnchorClaim, req: CausalAnchorAdmissionRequest)
    requires
        x.wf(),
        request_matches(req, x),
    ensures
        request_error(req) is None,
        roots_canonical(req.retained_roots@),
        roots_canonical(req.materialization_roots@),
{
    let v1 = req.retained_roots@;
    let v2 = req.materialization_roots@;
    lemma_equiv_lists(v1, x.retained_spec());
    lemma_equiv_lists(v2, x.materialization_spec());
    lemma_canonical_no_duplicate(v1);
    lemma_canonical_no_duplicate(v2);
    lemma_shares_equiv(v1, x.retained_spec(), v2, x.materialization_spec());
}

/// The claim rebuilt from those fields is the encoded claim, up to string
/// representation: same digest and same encoding.
proof fn lemma_claim_rebuilt(x: CausalAnchorClaim, req: CausalAnchorAdmissionRequest, c: CausalAnchorClaim)
    requires
        x.wf(),
        c.wf(),
        request_matches(req, x),
        roots_canonical(req.retained_roots@),
        roots_canonical(req.materialization_roots@),
        c.schema_version_spec() == req.schema_version,
        c.subject_spec() == req.subject,
        c.basis_frontier_spec() == req.basis_frontier,
        c.retained_spec().to_multiset() == req.retained_roots@.to_multiset(),
        c.materialization_spec().to_multiset() == req.materialization_roots@.to_multiset(),
        c.purpose_spec() == req.purpose,
    ensures
        c.claim_digest_spec() == x.claim_digest_spec(),
        claim_payload_bytes(c) == claim_payload_bytes(x),
{
    lemma_canonical_unique(c.retained_spec(), req.retained_roots@);
    lemma_canonical_unique(c.materialization_spec(), req.materialization_roots@);
    lemma_equiv_lists(req.retained_roots@, x.retained_spec());
    lemma_equiv_lists(req.materialization_roots@, x.materialization_spec());
    assert(c.subject_spec().canonical_bytes() == x.subject_spec().canonical_bytes());
    assert(roots_digest_bytes(c.retained_spec()) == roots_digest_bytes(x.retained_spec()));
    assert(roots_digest_bytes(c.materialization_spec()) == roots_digest_bytes(x.materialization_spec()));
    assert(roots_payload_bytes(c.retained_spec()) == roots_payload_bytes(x.retained_spec()));
    assert(roots_payload_bytes(c.materialization_spec()) == roots_payload_bytes(x.materialization_spec()));
    assert(c.claim_digest_spec() =~= x.claim_digest_spec());
}

impl CausalAnchorFact {
    /// Encodes the fact as its canonical payload bytes.
    pub fn to_payload_bytes(&self) -> (r: Vec<u8>)
        ensures
            r@ == self.payload_bytes_spec(),
    {
        let claim_bytes = self.claim.to_payload_bytes();
        let mut out: Vec<u8> = Vec::new();
        push_slice(&mut out, "EAFCT001".as_bytes());
        push_len_prefixed(&mut out, claim_bytes.as_slice());
        push_hash(&mut out, &self.admitted_by_receipt_id.0);
        push_hash(&mut out, &self.anchor_digest);
        push_hash(&mut out, &self.anchor_id.0);
        assert(out@ =~= self.payload_bytes_spec());
        out
    }

    /// Decodes an admitted fact; its digest and id must derive from the
    /// decoded claim and receipt id. It succeeds exactly on the encoding of a
    /// well-formed fact.
    #[verifier::rlimit(100)]
    #[verifier::spinoff_prover]
    pub fn from_payload_bytes(bytes: &[u8]) -> (r: Result<Self, CausalAnchorError>)
        ensures
            r is Ok ==> r->Ok_0.wf() && r->Ok_0.payload_bytes_spec() == bytes@,
            (exists|x: Self| #[trigger] x.payload_bytes_spec() == bytes@ && x.wf()) ==> r is Ok,
    {
        let _len = bytes.len();
        let ghost good = exists|x: Self| #[trigger] x.payload_bytes_spec() == bytes@ && x.wf();
        let ghost x = choose|x: Self| #[trigger] x.payload_bytes_spec() == bytes@ && x.wf();
        let ghost cb = claim_payload_bytes(x.claim_spec());
        let ghost q2 = x.anchor_digest_spec()@ + x.anchor_id_spec().bytes_spec()@;
        let ghost q1 = x.receipt_id_spec().bytes_spec()@ + q2;
        let ghost q0 = len_prefixed(cb) + q1;
        let mut c = ByteCursor::new(bytes);
        proof {
            assert(rest_of(c) =~= bytes@);
            if good {
                let mb = "EAFCT001".spec_bytes();
                assert(bytes@ =~= mb + q0);
                assert((mb + q0).take(mb.len() as int) =~= mb);
                assert((mb + q0).skip(mb.len() as int) =~= q0);
            }
        }
        read_magic(&mut c, "EAFCT001", "fact")?;
        let p0 = c.pos;
        proof {
            if good {
                vstd::bytes::lemma_auto_spec_u64_to_from_le_bytes();
                assert(rest_of(c) == q0);
                assert(c.bytes@.subrange(p0 as int, p0 + 8) =~= spec_u64_to_le_bytes(cb.len() as u64));
                assert(c.bytes@.subrange(p0 + 8, p0 + 8 + cb.len()) =~= cb);
            }
        }
        let claim_bytes = match c.read_len_prefixed() {
            Some(v) => v,
            None => return Err(CausalAnchorError::UnexpectedPayloadEnd),
        };
        let p1 = c.pos;
        proof {
            if good {
                assert(claim_bytes@ == cb);
                assert(rest_of(c) =~= q1);
                assert(claim_payload_bytes(x.claim_spec()) == claim_bytes@ && x.claim_spec().wf());
            }
        }
        let claim = CausalAnchorClaim::from_payload_bytes(claim_bytes.as_slice())?;
        proof {
            if good {
                lemma_claim_digest_by_bytes(claim, x.claim_spec());
                lemma_split_hash(x.receipt_id_spec().bytes_spec(), q2);
            }
        }
        let rid = read_hash(&mut c)?;
        let admitted_by_receipt_id = CausalAnchorAdmissionReceiptId(rid);
        proof {
            if good {
                lemma_split_hash(x.anchor_digest_spec(), x.anchor_id_spec().bytes_spec()@);
            }
        }
        let anchor_digest = read_hash(&mut c)?;
        proof {
            if good {
                lemma_split_hash(x.anchor_id_spec().bytes_spec(), Seq::empty());
                assert(x.anchor_id_spec().bytes_spec()@ + Seq::<u8>::empty() =~= x.anchor_id_spec().bytes_spec()@);
            }
        }
        let aid = read_hash(&mut c)?;
        let anchor_id = CausalAnchorId(aid);
        if !c.at_end() {
            return Err(CausalAnchorError::TrailingPayloadBytes);
        }
        let expected_anchor_digest = compute_anchor_digest(&claim.claim_digest, &admitted_by_receipt_id);
        proof {
            if good {
                assert(rid =~= x.receipt_id_spec().bytes_spec());
                assert(anchor_digest =~= x.anchor_digest_spec());
                assert(aid =~= x.anchor_id_spec().bytes_spec());
                assert(anchor_digest =~= expected_anchor_digest);
            }
        }
        if !hash_eq(&anchor_digest, &expected_anchor_digest) {
            return Err(CausalAnchorError::AnchorDigestMismatch);
        }
        let expected_id = compute_anchor_id(&anchor_digest);
        proof {
            if good {
                assert(anchor_id.0 =~= expected_id.0);
            }
        }
        if !hash_eq(&anchor_id.0, &expected_id.0) {
            return Err(CausalAnchorError::AnchorIdMismatch);
        }
        let fact = CausalAnchorFact { claim, anchor_id, admitted_by_receipt_id, anchor_digest };
        proof {
            let b = bytes@;
            vstd::bytes::lemma_auto_spec_u64_to_from_le_bytes();
            let m = p0 as int;
            let n = spec_u64_from_le_bytes(b.subrange(m, m + 8));
            assert(b.subrange(m, m + 8) == spec_u64_to_le_bytes(n));
            assert(claim_bytes@.len() == n);
            assert(b =~= b.subrange(0, m) + b.subrange(m, m + 8) + b.subrange(m + 8, p1 as int)
                + b.subrange(p1 as int, p1 + 32) + b.subrange(p1 + 32, p1 + 64) + b.subrange(p1 + 64, p1 + 96));
            assert(len_prefixed(claim_bytes@) =~= b.subrange(m, m + 8) + b.subrange(m + 8, p1 as int));
            assert(fact.payload_bytes_spec() =~= b);
        }
        Ok(fact)
    }
}

impl CausalAnchorAdmissionReceipt {
    /// Encodes the receipt as its canonical payload bytes.
    pub fn to_payload_bytes(&self) -> (r: Vec<u8>)
        ensures
            r@ == self.payload_bytes_spec(),
    {
        let mut out: Vec<u8> = Vec::new();
        push_slice(&mut out, "EARCP001".as_bytes());
        push_hash(&mut out, &self.receipt_id.0);
        push_hash(&mut out, &self.anchor_id.0);
        push_hash(&mut out, &self.claim_digest);
        push_hash(&mut out, &self.basis_frontier.frontier_digest);
        push_hash(&mut out, &self.support_policy_digest);
        push_hash(&mut out, &self.writer_epoch_id);
        push_hash(&mut out, &self.wal_transaction_id);
        push_u64_le(&mut out, self.wal_first_lsn);
        assert(out@ =~= self.payload_bytes_spec());
        out
    }

    /// Decodes a receipt; its id must derive from its WAL coordinate and its
    /// anchor id from the claim digest and receipt id. It succeeds exactly on
    /// the encoding of a well-formed receipt.
    #[verifier::rlimit(100)]
    #[verifier::spinoff_prover]
    pub fn from_payload_bytes(bytes: &[u8]) -> (r: Result<Self, CausalAnchorError>)
        ensures
            r is Ok ==> r->Ok_0.wf() && r->Ok_0.payload_bytes_spec() == bytes@,
            (exists|x: Self| #[trigger] x.payload_bytes_spec() == bytes@ && x.wf()) ==> r is Ok,
    {
        let ghost good = exists|x: Self| #[trigger] x.payload_bytes_spec() == bytes@ && x.wf();
        let ghost x = choose|x: Self| #[trigger] x.payload_bytes_spec() == bytes@ && x.wf();
        let ghost p1 = x.anchor_id_spec().bytes_spec()@ + (x.claim_digest_spec()@ + (x.basis_frontier_spec().frontier_digest@
            + (x.support_policy_digest_spec()@ + (x.writer_epoch_id_spec()@ + (x.wal_transaction_id_spec()@
            + spec_u64_to_le_bytes(x.wal_first_lsn_spec()))))));
        let ghost p0 = x.receipt_id_spec().bytes_spec()@ + p1;
        let mut c = ByteCursor::new(bytes);
        proof {
            assert(rest_of(c) =~= bytes@);
            if good {
                let mb = "EARCP001".spec_bytes();
                assert(bytes@ =~= mb + p0);
                assert((mb + p0).take(mb.len() as int) =~= mb);
                assert((mb + p0).skip(mb.len() as int) =~= p0);
            }
        }
        read_magic(&mut c, "EARCP001", "admission receipt")?;
        let m0 = c.pos;
        proof { if good { lemma_split_hash(x.receipt_id_spec().bytes_spec(), p1); } }
        let receipt_id = CausalAnchorAdmissionReceiptId(read_hash(&mut c)?);
        let ghost p2 = x.claim_digest_spec()@ + (x.basis_frontier_spec().frontier_digest@
            + (x.support_policy_digest_spec()@ + (x.writer_epoch_id_spec()@ + (x.wal_transaction_id_spec()@
            + spec_u64_to_le_bytes(x.wal_first_lsn_spec())))));
        proof { if good { lemma_split_hash(x.anchor_id_spec().bytes_spec(), p2); } }
        let anchor_id = CausalAnchorId(read_hash(&mut c)?);
        let ghost p3 = x.basis_frontier_spec().frontier_digest@ + (x.support_policy_digest_spec()@
            + (x.writer_epoch_id_spec()@ + (x.wal_transaction_id_spec()@ + spec_u64_to_le_bytes(x.wal_first_lsn_spec()))));
        proof { if good { lemma_split_hash(x.claim_digest_spec(), p3); } }
        let claim_digest = read_hash(&mut c)?;
        let ghost p4 = x.support_policy_digest_spec()@ + (x.writer_epoch_id_spec()@ + (x.wal_transaction_id_spec()@
            + spec_u64_to_le_bytes(x.wal_first_lsn_spec())));
        proof { if good { lemma_split_hash(x.basis_frontier_spec().frontier_digest, p4); } }
        let basis_frontier = CausalFrontierRef::from_digest(read_hash(&mut c)?);
        let ghost p5 = x.writer_epoch_id_spec()@ + (x.wal_transaction_id_spec()@ + spec_u64_to_le_bytes(
            x.wal_first_lsn_spec(),
        ));
        proof { if good { lemma_split_hash(x.support_policy_digest_spec(), p5); } }
        let support_policy_digest = read_hash(&mut c)?;
        let ghost p6 = x.wal_transaction_id_spec()@ + spec_u64_to_le_bytes(x.wal_first_lsn_spec());
        proof { if good { lemma_split_hash(x.writer_epoch_id_spec(), p6); } }
        let writer_epoch_id = read_hash(&mut c)?;
        let ghost p7 = spec_u64_to_le_bytes(x.wal_first_lsn_spec());
        proof {
            if good {
                lemma_split_hash(x.wal_transaction_id_spec(), p7);
            }
        }
        let wal_transaction_id = read_hash(&mut c)?;
        proof {
            if good {
                vstd::bytes::lemma_auto_spec_u64_to_from_le_bytes();
                assert(rest_of(c) == p7);
                assert(c.bytes@.subrange(c.pos as int, c.pos + 8) =~= p7);
            }
        }
        let wal_first_lsn = match c.read_u64() {
            Some(v) => v,
            None => return Err(CausalAnchorError::UnexpectedPayloadEnd),
        };
        if !c.at_end() {
            return Err(CausalAnchorError::TrailingPayloadBytes);
        }
        proof {
            if good {
                assert(receipt_id.0 =~= x.receipt_id_spec().bytes_spec());
                assert(anchor_id.0 =~= x.anchor_id_spec().bytes_spec());
                assert(claim_digest =~= x.claim_digest_spec());
                assert(support_policy_digest =~= x.support_policy_digest_spec());
                assert(writer_epoch_id =~= x.writer_epoch_id_spec());
                assert(wal_transaction_id =~= x.wal_transaction_id_spec());
                assert(wal_first_lsn == x.wal_first_lsn_spec());
            }
        }
        let expected_receipt_id = compute_admission_receipt_id(
            &claim_digest,
            &support_policy_digest,
            &writer_epoch_id,
            &wal_transaction_id,
            wal_first_lsn,
        );
        if !hash_eq(&receipt_id.0, &expected_receipt_id.0) {
            return Err(CausalAnchorError::AdmissionReceiptIdMismatch);
        }
        let anchor_digest = compute_anchor_digest(&claim_digest, &receipt_id);
        let expected_anchor_id = compute_anchor_id(&anchor_digest);
        proof {
            if good {
                let d = choose|d: crate::ident::Hash| d@ == blake3_digest(anchor_digest_input(x.claim_digest_spec(), x.receipt_id_spec().bytes_spec()))
                    && x.anchor_id_spec().bytes_spec()@ == blake3_digest(anchor_id_input(d));
                assert(anchor_digest =~= d);
                assert(anchor_id.0 =~= expected_anchor_id.0);
            }
        }
        if !hash_eq(&anchor_id.0, &expected_anchor_id.0) {
            return Err(CausalAnchorError::AnchorIdMismatch);
        }
        let receipt = CausalAnchorAdmissionReceipt {
            receipt_id,
            anchor_id,
            claim_digest,
            basis_frontier,
            support_policy_digest,
            writer_epoch_id,
            wal_transaction_id,
            wal_first_lsn,
        };
        proof {
            let b = bytes@;
            vstd::bytes::lemma_auto_spec_u64_to_from_le_bytes();
            let m = m0 as int;
            assert(b.subrange(m + 224, m + 232) == spec_u64_to_le_bytes(wal_first_lsn));
            assert(b =~= b.subrange(0, m) + b.subrange(m, m + 32) + b.subrange(m + 32, m + 64) + b.subrange(m + 64, m + 96)
                + b.subrange(m + 96, m + 128) + b.subrange(m + 128, m + 160) + b.subrange(m + 160, m + 192) + b.subrange(m + 192, m + 224)
                + b.subrange(m + 224, m + 232));
            assert(receipt.payload_bytes_spec() =~= b);
        }
        Ok(receipt)
    }
}

/// Two roots agree in variant, identifiers, roles and string contents.
pub open spec fn root_equiv(a: CausalAnchorRoot, b: CausalAnchorRoot) -> bool {
    match (a, b) {
        (CausalAnchorRoot::CasObject { id: i1, role: r1 }, CausalAnchorRoot::CasObject { id: i2, role: r2 }) => i1 == i2
            && r1 == r2,
        (CausalAnchorRoot::GraphFact { id: i1, role: r1 }, CausalAnchorRoot::GraphFact { id: i2, role: r2 }) => i1 == i2
            && r1 == r2,
        (
            CausalAnchorRoot::AppSubjectRoot { app_id: a1, subject_kind: k1, id: i1, role: r1 },
            CausalAnchorRoot::AppSubjectRoot { app_id: a2, subject_kind: k2, id: i2, role: r2 },
        ) => a1@ == a2@ && k1@ == k2@ && i1@ == i2@ && r1 == r2,
        _ => false,
    }
}

/// Equivalent roots have the same bytes, key and checks.
proof fn lemma_root_equiv(a: CausalAnchorRoot, b: CausalAnchorRoot)
    requires
        root_equiv(a, b),
    ensures
        a.payload_bytes() == b.payload_bytes(),
        a.digest_bytes() == b.digest_bytes(),
        a.key() == b.key(),
        a.is_authority_spec() == b.is_authority_spec(),
        a.first_field_error() == b.first_field_error(),
{
}

proof fn lemma_take_str_lp(e: Seq<u8>, r: Seq<u8>)
    requires
        e.len() <= u64::MAX,
    ensures
        take_str(len_prefixed(e) + r) == Some((e, r)),
{
    vstd::bytes::lemma_auto_spec_u64_to_from_le_bytes();
    let s = len_prefixed(e) + r;
    assert(s.take(8) =~= spec_u64_to_le_bytes(e.len() as u64));
    assert(s.subrange(8, 8 + e.len() as int) =~= e);
    assert(s.skip(8 + e.len() as int) =~= r);
}

proof fn lemma_take_utf8_lp(cs: Seq<char>, r: Seq<u8>)
    requires
        encode_utf8(cs).len() <= u64::MAX,
    ensures
        take_utf8(len_prefixed(encode_utf8(cs)) + r) == Some(r),
        take_str(len_prefixed(encode_utf8(cs)) + r) == Some((encode_utf8(cs), r)),
{
    lemma_take_str_lp(encode_utf8(cs), r);
    vstd::utf8::encode_utf8_valid_utf8(cs);
}

proof fn lemma_root_take_app(a1: Seq<char>, k1: Seq<char>, i1: Seq<char>, role: CausalAnchorAppRootRole, r: Seq<u8>)
    requires
        encode_utf8(a1).len() <= u64::MAX,
        encode_utf8(k1).len() <= u64::MAX,
        encode_utf8(i1).len() <= u64::MAX,
    ensures
        ({
            let t3 = seq![role.tag_spec()] + r;
            let t2 = len_prefixed(encode_utf8(i1)) + t3;
            let t1 = len_prefixed(encode_utf8(k1)) + t2;
            let t = len_prefixed(encode_utf8(a1)) + t1;
            &&& take_utf8(t) == Some(t1)
            &&& take_utf8(t1) == Some(t2)
            &&& take_utf8(t2) == Some(t3)
            &&& t3.len() >= 1 && t3[0] == role.tag_spec() && t3.skip(1) == r
        }),
{
    let t3 = seq![role.tag_spec()] + r;
    let t2 = len_prefixed(encode_utf8(i1)) + t3;
    let t1 = len_prefixed(encode_utf8(k1)) + t2;
    lemma_take_utf8_lp(a1, t1);
    lemma_take_utf8_lp(k1, t2);
    lemma_take_utf8_lp(i1, t3);
    assert(t3.skip(1) =~= r);
}

/// Reading an encoded root gives the rest back.
#[verifier::rlimit(60)]
#[verifier::spinoff_prover]
proof fn lemma_root_take(a: CausalAnchorRoot, r: Seq<u8>)
    requires
        a.payload_bytes().len() <= u64::MAX,
    ensures
        root_take(a.payload_bytes() + r) == Some(r),
{
    let s = a.payload_bytes() + r;
    let t = s.skip(1);
    match a {
        CausalAnchorRoot::CasObject { id, role } => {
            role.lemma_tag_round_trip();
            assert(t =~= id@ + seq![role.tag_spec()] + r);
            assert(t[32] == role.tag_spec());
            assert(t.skip(33) =~= r);
        },
        CausalAnchorRoot::GraphFact { id, role } => {
            role.lemma_tag_round_trip();
            assert(t =~= id@ + seq![role.tag_spec()] + r);
            assert(t[32] == role.tag_spec());
            assert(t.skip(33) =~= r);
        },
        CausalAnchorRoot::AppSubjectRoot { app_id, subject_kind, id, role } => {
            role.lemma_tag_round_trip();
            lemma_root_take_app(app_id@, subject_kind@, id@, role, r);
            let t3 = seq![role.tag_spec()] + r;
            let t2 = len_prefixed(encode_utf8(id@)) + t3;
            let t1 = len_prefixed(encode_utf8(subject_kind@)) + t2;
            assert(t =~= len_prefixed(encode_utf8(app_id@)) + t1);
        },
    }
}

proof fn lemma_decode_utf8_eq(c1: Seq<char>, c2: Seq<char>)
    requires
        encode_utf8(c1) == encode_utf8(c2),
    ensures
        c1 == c2,
{
    vstd::utf8::encode_utf8_decode_utf8(c1);
    vstd::utf8::encode_utf8_decode_utf8(c2);
}

proof fn lemma_unique_fixed(i1: crate::ident::Hash, t1: u8, i2: crate::ident::Hash, t2: u8, tag: u8, ra: Seq<u8>, rb: Seq<u8>)
    requires
        seq![tag] + i1@ + seq![t1] + ra == seq![tag] + i2@ + seq![t2] + rb,
    ensures
        i1 == i2,
        t1 == t2,
{
    let s = seq![tag] + i1@ + seq![t1] + ra;
    let u = seq![tag] + i2@ + seq![t2] + rb;
    assert(s.subrange(1, 33) =~= i1@);
    assert(u.subrange(1, 33) =~= i2@);
    assert(i1 =~= i2);
    assert(s[33] == t1);
    assert(u[33] == t2);
}

proof fn lemma_unique_app(
    a1: Seq<char>,
    k1: Seq<char>,
    i1: Seq<char>,
    t1: u8,
    a2: Seq<char>,
    k2: Seq<char>,
    i2: Seq<char>,
    t2: u8,
    ra: Seq<u8>,
    rb: Seq<u8>,
)
    requires
        len_prefixed(encode_utf8(a1)) + (len_prefixed(encode_utf8(k1)) + (len_prefixed(encode_utf8(i1)) + (seq![t1]
            + ra))) == len_prefixed(encode_utf8(a2)) + (len_prefixed(encode_utf8(k2)) + (len_prefixed(encode_utf8(i2))
            + (seq![t2] + rb))),
        encode_utf8(a1).len() <= u64::MAX,
        encode_utf8(k1).len() <= u64::MAX,
        encode_utf8(i1).len() <= u64::MAX,
        encode_utf8(a2).len() <= u64::MAX,
        encode_utf8(k2).len() <= u64::MAX,
        encode_utf8(i2).len() <= u64::MAX,
    ensures
        a1 == a2 && k1 == k2 && i1 == i2 && t1 == t2,
{
    let u3 = seq![t1] + ra;
    let u2 = len_prefixed(encode_utf8(i1)) + u3;
    let u1 = len_prefixed(encode_utf8(k1)) + u2;
    let v3 = seq![t2] + rb;
    let v2 = len_prefixed(encode_utf8(i2)) + v3;
    let v1 = len_prefixed(encode_utf8(k2)) + v2;
    lemma_take_str_lp(encode_utf8(a1), u1);
    lemma_take_str_lp(encode_utf8(a2), v1);
    lemma_take_str_lp(encode_utf8(k1), u2);
    lemma_take_str_lp(encode_utf8(k2), v2);
    lemma_take_str_lp(encode_utf8(i1), u3);
    lemma_take_str_lp(encode_utf8(i2), v3);
    lemma_decode_utf8_eq(a1, a2);
    lemma_decode_utf8_eq(k1, k2);
    lemma_decode_utf8_eq(i1, i2);
    assert(u3[0] == v3[0]);
}

/// Variant tag of a root: the first byte of its encoding.
pub open spec fn root_tag(a: CausalAnchorRoot) -> u8 {
    match a {
        CausalAnchorRoot::CasObject { .. } => 1u8,
        CausalAnchorRoot::GraphFact { .. } => 2u8,
        CausalAnchorRoot::AppSubjectRoot { .. } => 3u8,
    }
}

proof fn lemma_root_first_byte(a: CausalAnchorRoot, ra: Seq<u8>)
    ensures
        (a.payload_bytes() + ra).len() > 0,
        (a.payload_bytes() + ra)[0] == root_tag(a),
{
}

proof fn lemma_root_rest_unique(a: CausalAnchorRoot, ra: Seq<u8>, b: CausalAnchorRoot, rb: Seq<u8>)
    requires
        a.payload_bytes() + ra == b.payload_bytes() + rb,
        a.payload_bytes().len() <= u64::MAX,
        b.payload_bytes().len() <= u64::MAX,
    ensures
        ra == rb,
{
    lemma_root_take(a, ra);
    lemma_root_take(b, rb);
}

proof fn lemma_unique_cas_roots(a: CausalAnchorRoot, ra: Seq<u8>, b: CausalAnchorRoot, rb: Seq<u8>)
    requires
        a.payload_bytes() + ra == b.payload_bytes() + rb,
        a is CasObject,
        b is CasObject,
    ensures
        root_equiv(a, b),
{
    match (a, b) {
        (CausalAnchorRoot::CasObject { id: i1, role: r1 }, CausalAnchorRoot::CasObject { id: i2, role: r2 }) => {
            assert(a.payload_bytes() + ra =~= seq![1u8] + i1@ + seq![r1.tag_spec()] + ra);
            assert(b.payload_bytes() + rb =~= seq![1u8] + i2@ + seq![r2.tag_spec()] + rb);
            lemma_unique_fixed(i1, r1.tag_spec(), i2, r2.tag_spec(), 1u8, ra, rb);
            r1.lemma_tag_round_trip();
            r2.lemma_tag_round_trip();
        },
        _ => {},
    }
}

proof fn lemma_unique_graph_roots(a: CausalAnchorRoot, ra: Seq<u8>, b: CausalAnchorRoot, rb: Seq<u8>)
    requires
        a.payload_bytes() + ra == b.payload_bytes() + rb,
        a is GraphFact,
        b is GraphFact,
    ensures
        root_equiv(a, b),
{
    match (a, b) {
        (CausalAnchorRoot::GraphFact { id: i1, role: r1 }, CausalAnchorRoot::GraphFact { id: i2, role: r2 }) => {
            assert(a.payload_bytes() + ra =~= seq![2u8] + i1@ + seq![r1.tag_spec()] + ra);
            assert(b.payload_bytes() + rb =~= seq![2u8] + i2@ + seq![r2.tag_spec()] + rb);
            lemma_unique_fixed(i1, r1.tag_spec(), i2, r2.tag_spec(), 2u8, ra, rb);
            r1.lemma_tag_round_trip();
            r2.lemma_tag_round_trip();
        },
        _ => {},
    }
}

proof fn lemma_unique_app_roots(a: CausalAnchorRoot, ra: Seq<u8>, b: CausalAnchorRoot, rb: Seq<u8>)
    requires
        a.payload_bytes() + ra == b.payload_bytes() + rb,
        a.payload_bytes().len() <= u64::MAX,
        b.payload_bytes().len() <= u64::MAX,
        a is AppSubjectRoot,
        b is AppSubjectRoot,
    ensures
        root_equiv(a, b),
{
    match (a, b) {
        (
            CausalAnchorRoot::AppSubjectRoot { app_id: a1, subject_kind: k1, id: i1, role: r1 },
            CausalAnchorRoot::AppSubjectRoot { app_id: a2, subject_kind: k2, id: i2, role: r2 },
        ) => {
            let lhs = len_prefixed(encode_utf8(a1@)) + (len_prefixed(encode_utf8(k1@)) + (len_prefixed(encode_utf8(i1@))
                + (seq![r1.tag_spec()] + ra)));
            let rhs = len_prefixed(encode_utf8(a2@)) + (len_prefixed(encode_utf8(k2@)) + (len_prefixed(encode_utf8(i2@))
                + (seq![r2.tag_spec()] + rb)));
            assert(a.payload_bytes() + ra =~= seq![3u8] + lhs);
            assert(b.payload_bytes() + rb =~= seq![3u8] + rhs);
            assert((seq![3u8] + lhs).skip(1) =~= lhs);
            assert((seq![3u8] + rhs).skip(1) =~= rhs);
            lemma_unique_app(a1@, k1@, i1@, r1.tag_spec(), a2@, k2@, i2@, r2.tag_spec(), ra, rb);
            r1.lemma_tag_round_trip();
            r2.lemma_tag_round_trip();
        },
        _ => {},
    }
}

/// An encoded root determines the root up to equivalence, and its end.
proof fn lemma_root_unique(a: CausalAnchorRoot, ra: Seq<u8>, b: CausalAnchorRoot, rb: Seq<u8>)
    requires
        a.payload_bytes() + ra == b.payload_bytes() + rb,
        a.payload_bytes().len() <= u64::MAX,
        b.payload_bytes().len() <= u64::MAX,
    ensures
        root_equiv(a, b),
        ra == rb,
{
    lemma_root_rest_unique(a, ra, b, rb);
    lemma_root_first_byte(a, ra);
    lemma_root_first_byte(b, rb);
    assert(root_tag(a) == root_tag(b));
    if a is CasObject {
        lemma_unique_cas_roots(a, ra, b, rb);
    } else if a is GraphFact {
        lemma_unique_graph_roots(a, ra, b, rb);
    } else {
        lemma_unique_app_roots(a, ra, b, rb);
    }
}

proof fn lemma_concat_front(s: Seq<CausalAnchorRoot>)
    requires
        s.len() > 0,
    ensures
        roots_payload_concat(s) == s[0].payload_bytes() + roots_payload_concat(s.drop_first()),
    decreases s.len(),
{
    if s.len() > 1 {
        lemma_concat_front(s.drop_last());
        assert(s.drop_last().drop_first() =~= s.drop_first().drop_last());
        assert(s.drop_first().last() == s.last());
        assert(s.drop_last()[0] == s[0]);
    } else {
        assert(s.drop_last() =~= Seq::<CausalAnchorRoot>::empty());
        assert(s.drop_first() =~= Seq::<CausalAnchorRoot>::empty());
    }
}

/// Reading `xs.len()` encoded roots gives the rest back.
proof fn lemma_roots_take_list(xs: Seq<CausalAnchorRoot>, r: Seq<u8>)
    requires
        roots_payload_concat(xs).len() <= u64::MAX,
    ensures
        roots_take(roots_payload_concat(xs) + r, xs.len()) == Some(r),
    decreases xs.len(),
{
    if xs.len() > 0 {
        lemma_concat_front(xs);
        let tail = roots_payload_concat(xs.drop_first()) + r;
        assert(roots_payload_concat(xs) + r =~= xs[0].payload_bytes() + tail);
        lemma_root_take(xs[0], tail);
        lemma_roots_take_list(xs.drop_first(), r);
    }
}

/// Encoded root lists of equal length determine their roots up to
/// equivalence, and their end.
proof fn lemma_roots_unique(v: Seq<CausalAnchorRoot>, rv: Seq<u8>, xs: Seq<CausalAnchorRoot>, rx: Seq<u8>)
    requires
        roots_payload_concat(v) + rv == roots_payload_concat(xs) + rx,
        v.len() == xs.len(),
        roots_payload_concat(v).len() <= u64::MAX,
        roots_payload_concat(xs).len() <= u64::MAX,
    ensures
        forall|i: int| 0 <= i < v.len() ==> root_equiv(#[trigger] v[i], xs[i]),
        rv == rx,
    decreases v.len(),
{
    if v.len() > 0 {
        lemma_concat_front(v);
        lemma_concat_front(xs);
        let tv = roots_payload_concat(v.drop_first()) + rv;
        let tx = roots_payload_concat(xs.drop_first()) + rx;
        assert(roots_payload_concat(v) + rv =~= v[0].payload_bytes() + tv);
        assert(roots_payload_concat(xs) + rx =~= xs[0].payload_bytes() + tx);
        lemma_root_unique(v[0], tv, xs[0], tx);
        lemma_roots_unique(v.drop_first(), rv, xs.drop_first(), rx);
        assert forall|i: int| 0 <= i < v.len() implies root_equiv(#[trigger] v[i], xs[i]) by {
            if i > 0 {
                assert(v[i] == v.drop_first()[i - 1]);
                assert(xs[i] == xs.drop_first()[i - 1]);
            }
        }
    } else {
        assert(roots_payload_concat(v) =~= Seq::<u8>::empty());
        assert(roots_payload_concat(xs) =~= Seq::<u8>::empty());
        assert(rv =~= roots_payload_concat(v) + rv);
        assert(rx =~= roots_payload_concat(xs) + rx);
    }
}

/// Pointwise-equivalent root lists have the same bytes and pass the same
/// checks.
proof fn lemma_equiv_lists(v: Seq<CausalAnchorRoot>, xs: Seq<CausalAnchorRoot>)
    requires
        v.len() == xs.len(),
        forall|i: int| 0 <= i < v.len() ==> root_equiv(#[trigger] v[i], xs[i]),
    ensures
        roots_payload_concat(v) == roots_payload_concat(xs),
        roots_digest_concat(v) == roots_digest_concat(xs),
        first_root_error_from(v, 0) == first_root_error_from(xs, 0),
        roots_canonical(v) == roots_canonical(xs),
        any_authority(v) == any_authority(xs),
        forall|i: int| 0 <= i < v.len() ==> (#[trigger] v[i]).key() == xs[i].key(),
    decreases v.len(),
{
    assert forall|i: int| 0 <= i < v.len() implies (#[trigger] v[i]).key() == xs[i].key() by {
        lemma_root_equiv(v[i], xs[i]);
    }
    if v.len() > 0 {
        let n = v.len() - 1;
        assert forall|i: int| 0 <= i < n implies root_equiv(#[trigger] v.drop_last()[i], xs.drop_last()[i]) by {
            assert(v.drop_last()[i] == v[i]);
        }
        lemma_equiv_lists(v.drop_last(), xs.drop_last());
        lemma_root_equiv(v[n], xs[n]);
        lemma_first_error_equiv(v, xs, 0);
    }
    assert(roots_canonical(v) == roots_canonical(xs)) by {
        if roots_canonical(v) {
            assert forall|i: int, j: int| 0 <= i < j < xs.len() implies key_le(#[trigger] xs[i], #[trigger] xs[j])
                && xs[i].key() != xs[j].key() by {
                assert(key_le(v[i], v[j]));
            }
        }
        if roots_canonical(xs) {
            assert forall|i: int, j: int| 0 <= i < j < v.len() implies key_le(#[trigger] v[i], #[trigger] v[j])
                && v[i].key() != v[j].key() by {
                assert(key_le(xs[i], xs[j]));
            }
        }
    }
    assert(any_authority(v) == any_authority(xs)) by {
        if any_authority(v) {
            let i = choose|i: int| 0 <= i < v.len() && (#[trigger] v[i]).is_authority_spec();
            lemma_root_equiv(v[i], xs[i]);
        }
        if any_authority(xs) {
            let i = choose|i: int| 0 <= i < xs.len() && (#[trigger] xs[i]).is_authority_spec();
            lemma_root_equiv(v[i], xs[i]);
        }
    }
}

proof fn lemma_first_error_equiv(v: Seq<CausalAnchorRoot>, xs: Seq<CausalAnchorRoot>, i: int)
    requires
        v.len() == xs.len(),
        forall|k: int| 0 <= k < v.len() ==> root_equiv(#[trigger] v[k], xs[k]),
        0 <= i,
    ensures
        first_root_error_from(v, i) == first_root_error_from(xs, i),
    decreases v.len() - i,
{
    if i < v.len() {
        lemma_root_equiv(v[i], xs[i]);
        lemma_first_error_equiv(v, xs, i + 1);
    }
}

/// Sharing a root depends on keys alone.
proof fn lemma_shares_equiv(v1: Seq<CausalAnchorRoot>, x1: Seq<CausalAnchorRoot>, v2: Seq<CausalAnchorRoot>, x2: Seq<CausalAnchorRoot>)
    requires
        v1.len() == x1.len(),
        v2.len() == x2.len(),
        forall|i: int| 0 <= i < v1.len() ==> (#[trigger] v1[i]).key() == x1[i].key(),
        forall|i: int| 0 <= i < v2.len() ==> (#[trigger] v2[i]).key() == x2[i].key(),
    ensures
        shares_root(v1, v2) == shares_root(x1, x2),
{
    if shares_root(v1, v2) {
        let (i, j) = choose|i: int, j: int| 0 <= i < v1.len() && 0 <= j < v2.len() && #[trigger] v1[i].key()
            == #[trigger] v2[j].key();
        assert(x1[i].key() == x2[j].key());
    }
    if shares_root(x1, x2) {
        let (i, j) = choose|i: int, j: int| 0 <= i < x1.len() && 0 <= j < x2.len() && #[trigger] x1[i].key()
            == #[trigger] x2[j].key();
        assert(v1[i].key() == v2[j].key());
    }
}

/// A canonical list holds no duplicate root.
proof fn lemma_canonical_no_duplicate(v: Seq<CausalAnchorRoot>)
    requires
        roots_canonical(v),
    ensures
        !has_duplicate_root(v),
{
    if has_duplicate_root(v) {
        let (i, j) = choose|i: int, j: int| 0 <= i < j < v.len() && #[trigger] v[i].key() == #[trigger] v[j].key();
        assert(key_le(v[i], v[j]));
    }
}

/// The digest names root sets, not caller order: two canonical claims over
/// the same schema, subject, frontier, purpose and root multisets hold the same
/// root lists and the same digest, whatever order the roots were given in.
pub proof fn lemma_claim_independent_of_root_order(a: CausalAnchorClaim, b: CausalAnchorClaim)
    requires
        a.wf(),
        b.wf(),
        a.schema_version_spec() == b.schema_version_spec(),
        a.subject_spec() == b.subject_spec(),
        a.basis_frontier_spec() == b.basis_frontier_spec(),
        a.purpose_spec() == b.purpose_spec(),
        a.retained_spec().to_multiset() == b.retained_spec().to_multiset(),
        a.materialization_spec().to_multiset() == b.materialization_spec().to_multiset(),
    ensures
        a.retained_spec() == b.retained_spec(),
        a.materialization_spec() == b.materialization_spec(),
        a.claim_digest_spec() == b.claim_digest_spec(),
{
    lemma_canonical_unique(a.retained_spec(), b.retained_spec());
    lemma_canonical_unique(a.materialization_spec(), b.materialization_spec());
    let (x, y) = (a.claim_digest_spec(), b.claim_digest_spec());
    assert(x@ == y@);
    assert forall|i: int| 0 <= i < 32 implies x[i] == y[i] by {
        assert(x@[i] == y@[i]);
    }
    assert(x =~= y);
}

/// A root declares authority exactly when it is a graph-fact or application
/// root whose role is the authority role; content-addressed objects never do.
pub proof fn lemma_authority_is_the_authority_role(r: CausalAnchorRoot)
    ensures
        r.is_authority_spec() <==> (r matches CausalAnchorRoot::GraphFact { role: CausalAnchorGraphRole::Authority, .. }
            || r matches CausalAnchorRoot::AppSubjectRoot { role: CausalAnchorAppRootRole::Authority, .. }),
{
}

/// Materialization roots may not declare authority: a request that passes
/// every admission check names no materialization root with an authority
/// role, and one that passes the checks before this one but names such a
/// root is refused with `AuthorityMaterializationRoot`.
pub proof fn lemma_materialization_roots_cannot_declare_authority(req: CausalAnchorAdmissionRequest, i: int)
    requires
        0 <= i < req.materialization_roots@.len(),
        req.materialization_roots@[i] matches CausalAnchorRoot::GraphFact { role: CausalAnchorGraphRole::Authority, .. }
            || req.materialization_roots@[i] matches CausalAnchorRoot::AppSubjectRoot {
            role: CausalAnchorAppRootRole::Authority,
            ..
        },
    ensures
        request_error(req) is Some,
        (request_error(req) != Some(CausalAnchorError::AuthorityMaterializationRoot)) ==> (req.schema_version
            != CAUSAL_ANCHOR_SCHEMA_VERSION || req.subject.app_id@.len() == 0 || req.subject.subject_kind@.len() == 0
            || req.subject.subject_id@.len() == 0 || canonicalize_outcome(req.retained_roots@, CausalAnchorRootSet::Retained) is Some
            || req.retained_roots@.len() == 0 || canonicalize_outcome(
            req.materialization_roots@,
            CausalAnchorRootSet::Materialization,
        ) is Some),
{
    lemma_authority_is_the_authority_role(req.materialization_roots@[i]);
    assert(any_authority(req.materialization_roots@));
}

/// Two canonical lists with the same roots are the same list.
proof fn lemma_canonical_unique(v: Seq<CausalAnchorRoot>, w: Seq<CausalAnchorRoot>)
    requires
        roots_canonical(v),
        roots_canonical(w),
        v.to_multiset() == w.to_multiset(),
    ensures
        v == w,
    decreases v.len(),
{
    broadcast use vstd::seq_lib::group_to_multiset_ensures, vstd::multiset::group_multiset_axioms;

    if v.len() == 0 {
        assert(w.to_multiset().len() == 0);
        assert(w.len() == 0);
        assert(v =~= w);
    } else {
        assert(v.contains(v[0]));
        assert(w.to_multiset().count(v[0]) > 0);
        assert(w.contains(v[0]));
        let j = choose|j: int| 0 <= j < w.len() && w[j] == v[0];
        assert(w.contains(w[0]));
        assert(v.to_multiset().count(w[0]) > 0);
        assert(v.contains(w[0]));
        let i = choose|i: int| 0 <= i < v.len() && v[i] == w[0];
        crate::order::lemma_lex_le_reflexive(v[0].key());
        crate::order::lemma_lex_le_reflexive(w[0].key());
        assert(lex_le(v[0].key(), w[0].key())) by {
            if i > 0 {
                assert(key_le(v[0], v[i]));
            }
        }
        assert(lex_le(w[0].key(), v[0].key())) by {
            if j > 0 {
                assert(key_le(w[0], w[j]));
            }
        }
        crate::order::lemma_lex_le_antisymmetric(v[0].key(), w[0].key());
        if i > 0 {
            assert(v[0].key() != v[i].key());
        }
        assert(w[0] == v[0]);
        let v1 = v.drop_first();
        let w1 = w.drop_first();
        vstd::seq_lib::to_multiset_remove(v, 0);
        vstd::seq_lib::to_multiset_remove(w, 0);
        assert(v.remove(0) =~= v1);
        assert(w.remove(0) =~= w1);
        assert forall|a: int, b: int| 0 <= a < b < v1.len() implies key_le(#[trigger] v1[a], #[trigger] v1[b])
            && v1[a].key() != v1[b].key() by {
            assert(v1[a] == v[a + 1] && v1[b] == v[b + 1]);
        }
        assert forall|a: int, b: int| 0 <= a < b < w1.len() implies key_le(#[trigger] w1[a], #[trigger] w1[b])
            && w1[a].key() != w1[b].key() by {
            assert(w1[a] == w[a + 1] && w1[b] == w[b + 1]);
        }
        lemma_canonical_unique(v1, w1);
        assert(v =~= w) by {
            assert forall|k: int| 0 <= k < v.len() implies v[k] == w[k] by {
                if k > 0 {
                    assert(v[k] == v1[k - 1]);
                    assert(w[k] == w1[k - 1]);
                }
            }
        }
    }
}

proof fn lemma_concat_len(xs: Seq<CausalAnchorRoot>)
    ensures
        roots_payload_concat(xs).len() >= xs.len(),
    decreases xs.len(),
{
    if xs.len() > 0 {
        lemma_concat_len(xs.drop_last());
    }
}

/// Reading an encoded root list gives the rest back.
proof fn lemma_root_list_take(xs: Seq<CausalAnchorRoot>, r: Seq<u8>)
    requires
        roots_payload_bytes(xs).len() <= u64::MAX,
    ensures
        root_list_take(roots_payload_bytes(xs) + r) == Some(r),
{
    vstd::bytes::lemma_auto_spec_u64_to_from_le_bytes();
    lemma_concat_len(xs);
    let s = roots_payload_bytes(xs) + r;
    assert(s.take(8) =~= spec_u64_to_le_bytes(xs.len() as u64));
    assert(s.skip(8) =~= roots_payload_concat(xs) + r);
    lemma_roots_take_list(xs, r);
}

/// An encoded root list determines its roots up to equivalence, and its end.
proof fn lemma_root_list_unique(v: Seq<CausalAnchorRoot>, rv: Seq<u8>, xs: Seq<CausalAnchorRoot>, rx: Seq<u8>)
    requires
        roots_payload_bytes(v) + rv == roots_payload_bytes(xs) + rx,
        roots_payload_bytes(v).len() <= u64::MAX,
        roots_payload_bytes(xs).len() <= u64::MAX,
    ensures
        v.len() == xs.len(),
        forall|i: int| 0 <= i < v.len() ==> root_equiv(#[trigger] v[i], xs[i]),
        rv == rx,
{
    vstd::bytes::lemma_auto_spec_u64_to_from_le_bytes();
    lemma_concat_len(v);
    lemma_concat_len(xs);
    let s = roots_payload_bytes(v) + rv;
    let u = roots_payload_bytes(xs) + rx;
    assert(s.take(8) =~= spec_u64_to_le_bytes(v.len() as u64));
    assert(u.take(8) =~= spec_u64_to_le_bytes(xs.len() as u64));
    assert(v.len() == xs.len());
    assert(s.skip(8) =~= roots_payload_concat(v) + rv);
    assert(u.skip(8) =~= roots_payload_concat(xs) + rx);
    lemma_roots_unique(v, rv, xs, rx);
}

/// Peels a length-prefixed UTF-8 field off two equal byte strings.
proof fn lemma_peel_utf8(c1: Seq<char>, r1: Seq<u8>, c2: Seq<char>, r2: Seq<u8>)
    requires
        len_prefixed(encode_utf8(c1)) + r1 == len_prefixed(encode_utf8(c2)) + r2,
        (len_prefixed(encode_utf8(c1)) + r1).len() <= u64::MAX,
    ensures
        c1 == c2,
        r1 == r2,
{
    assert(encode_utf8(c1).len() <= u64::MAX);
    assert(encode_utf8(c2).len() <= u64::MAX);
    lemma_take_str_lp(encode_utf8(c1), r1);
    lemma_take_str_lp(encode_utf8(c2), r2);
    lemma_decode_utf8_eq(c1, c2);
}

/// A claim's bytes after the magic, grouped field by field from the right.
pub open spec fn claim_body(c: CausalAnchorClaim) -> Seq<u8> {
    let s = c.subject_spec();
    spec_u32_to_le_bytes(c.schema_version_spec()) + (len_prefixed(encode_utf8(s.app_id@)) + (len_prefixed(
        encode_utf8(s.subject_kind@),
    ) + (len_prefixed(encode_utf8(s.subject_id@)) + (c.basis_frontier_spec().frontier_digest@ + (
    roots_payload_bytes(c.retained_spec()) + (roots_payload_bytes(c.materialization_spec()) + (seq![
        c.purpose_spec().tag_spec(),
    ] + c.claim_digest_spec()@)))))))
}

#[verifier::spinoff_prover]
proof fn lemma_claim_bytes_shape(c: CausalAnchorClaim)
    ensures
        claim_payload_bytes(c) == "EACLM001".spec_bytes() + claim_body(c),
{
    assert(claim_payload_bytes(c) =~= "EACLM001".spec_bytes() + claim_body(c));
}

proof fn lemma_peel_prefix(p: Seq<u8>, x: Seq<u8>, y: Seq<u8>)
    requires
        p + x == p + y,
    ensures
        x == y,
{
    assert(x =~= (p + x).skip(p.len() as int));
    assert(y =~= (p + y).skip(p.len() as int));
}

proof fn lemma_peel_u32(v1: u32, x: Seq<u8>, v2: u32, y: Seq<u8>)
    requires
        spec_u32_to_le_bytes(v1) + x == spec_u32_to_le_bytes(v2) + y,
    ensures
        v1 == v2,
        x == y,
{
    vstd::bytes::lemma_auto_spec_u32_to_from_le_bytes();
    let s = spec_u32_to_le_bytes(v1) + x;
    assert(s.take(4) =~= spec_u32_to_le_bytes(v1));
    assert((spec_u32_to_le_bytes(v2) + y).take(4) =~= spec_u32_to_le_bytes(v2));
    assert(x =~= s.skip(4));
    assert(y =~= (spec_u32_to_le_bytes(v2) + y).skip(4));
}

proof fn lemma_peel_hash(h1: crate::ident::Hash, x: Seq<u8>, h2: crate::ident::Hash, y: Seq<u8>)
    requires
        h1@ + x == h2@ + y,
    ensures
        h1 == h2,
        x == y,
{
    lemma_split_hash(h1, x);
    lemma_split_hash(h2, y);
    assert forall|i: int| 0 <= i < 32 implies h1[i] == h2[i] by {
        assert(h1@[i] == h2@[i]);
    }
    assert(h1 =~= h2);
}

proof fn lemma_peel_tag(t1: u8, d1: crate::ident::Hash, t2: u8, d2: crate::ident::Hash)
    requires
        seq![t1] + d1@ == seq![t2] + d2@,
    ensures
        t1 == t2,
        d1 == d2,
{
    assert((seq![t1] + d1@)[0] == t1);
    assert((seq![t2] + d2@)[0] == t2);
    lemma_peel_prefix(seq![t1], d1@, d2@);
    lemma_peel_hash(d1, Seq::empty(), d2, Seq::empty());
}

/// The claim encoding is injective: two claims with the same persisted bytes
/// carry the same schema, subject strings, frontier, roots (up to the string
/// representation of app roots), purpose and digest. Decoding the bytes of a
/// claim therefore gives that claim back.
#[verifier::spinoff_prover]
pub proof fn lemma_claim_encoding_injective(a: CausalAnchorClaim, b: CausalAnchorClaim)
    requires
        claim_payload_bytes(a) == claim_payload_bytes(b),
        claim_payload_bytes(a).len() <= u64::MAX,
    ensures
        a.schema_version_spec() == b.schema_version_spec(),
        a.subject_spec().app_id@ == b.subject_spec().app_id@,
        a.subject_spec().subject_kind@ == b.subject_spec().subject_kind@,
        a.subject_spec().subject_id@ == b.subject_spec().subject_id@,
        a.basis_frontier_spec() == b.basis_frontier_spec(),
        a.retained_spec().len() == b.retained_spec().len(),
        forall|i: int| 0 <= i < a.retained_spec().len() ==> root_equiv(#[trigger] a.retained_spec()[i], b.retained_spec()[i]),
        a.materialization_spec().len() == b.materialization_spec().len(),
        forall|i: int| 0 <= i < a.materialization_spec().len() ==> root_equiv(
            #[trigger] a.materialization_spec()[i],
            b.materialization_spec()[i],
        ),
        a.purpose_spec() == b.purpose_spec(),
        a.claim_digest_spec() == b.claim_digest_spec(),
{
    let (sa, sb) = (a.subject_spec(), b.subject_spec());
    let a8 = seq![a.purpose_spec().tag_spec()] + a.claim_digest_spec()@;
    let a7 = roots_payload_bytes(a.materialization_spec()) + a8;
    let a6 = roots_payload_bytes(a.retained_spec()) + a7;
    let a5 = a.basis_frontier_spec().frontier_digest@ + a6;
    let a4 = len_prefixed(encode_utf8(sa.subject_id@)) + a5;
    let a3 = len_prefixed(encode_utf8(sa.subject_kind@)) + a4;
    let a2 = len_prefixed(encode_utf8(sa.app_id@)) + a3;
    let b8 = seq![b.purpose_spec().tag_spec()] + b.claim_digest_spec()@;
    let b7 = roots_payload_bytes(b.materialization_spec()) + b8;
    let b6 = roots_payload_bytes(b.retained_spec()) + b7;
    let b5 = b.basis_frontier_spec().frontier_digest@ + b6;
    let b4 = len_prefixed(encode_utf8(sb.subject_id@)) + b5;
    let b3 = len_prefixed(encode_utf8(sb.subject_kind@)) + b4;
    let b2 = len_prefixed(encode_utf8(sb.app_id@)) + b3;
    lemma_claim_bytes_shape(a);
    lemma_claim_bytes_shape(b);
    assert(claim_body(a) == spec_u32_to_le_bytes(a.schema_version_spec()) + a2);
    assert(claim_body(b) == spec_u32_to_le_bytes(b.schema_version_spec()) + b2);
    lemma_peel_prefix("EACLM001".spec_bytes(), claim_body(a), claim_body(b));
    lemma_peel_u32(a.schema_version_spec(), a2, b.schema_version_spec(), b2);
    assert(a2.len() <= claim_payload_bytes(a).len());
    lemma_peel_utf8(sa.app_id@, a3, sb.app_id@, b3);
    lemma_peel_utf8(sa.subject_kind@, a4, sb.subject_kind@, b4);
    lemma_peel_utf8(sa.subject_id@, a5, sb.subject_id@, b5);
    lemma_peel_hash(a.basis_frontier_spec().frontier_digest, a6, b.basis_frontier_spec().frontier_digest, b6);
    lemma_root_list_unique(a.retained_spec(), a7, b.retained_spec(), b7);
    lemma_root_list_unique(a.materialization_spec(), a8, b.materialization_spec(), b8);
    lemma_peel_tag(a.purpose_spec().tag_spec(), a.claim_digest_spec(), b.purpose_spec().tag_spec(), b.claim_digest_spec());
    a.purpose_spec().lemma_tag_round_trip();
    b.purpose_spec().lemma_tag_round_trip();
}

/// A receipt's bytes after the magic, grouped field by field from the right.
pub open spec fn receipt_body(r: CausalAnchorAdmissionReceipt) -> Seq<u8> {
    r.receipt_id_spec().bytes_spec()@ + (r.anchor_id_spec().bytes_spec()@ + (r.claim_digest_spec()@ + (
    r.basis_frontier_spec().frontier_digest@ + (r.support_policy_digest_spec()@ + (r.writer_epoch_id_spec()@
        + (r.wal_transaction_id_spec()@ + spec_u64_to_le_bytes(r.wal_first_lsn_spec())))))))
}

/// The receipt encoding is injective: two receipts with the same persisted
/// bytes carry the same fields. Decoding the bytes of a receipt therefore
/// gives that receipt back.
#[verifier::spinoff_prover]
pub proof fn lemma_receipt_encoding_injective(a: CausalAnchorAdmissionReceipt, b: CausalAnchorAdmissionReceipt)
    requires
        a.payload_bytes_spec() == b.payload_bytes_spec(),
    ensures
        a.receipt_id_spec().bytes_spec() == b.receipt_id_spec().bytes_spec(),
        a.anchor_id_spec().bytes_spec() == b.anchor_id_spec().bytes_spec(),
        a.claim_digest_spec() == b.claim_digest_spec(),
        a.basis_frontier_spec() == b.basis_frontier_spec(),
        a.support_policy_digest_spec() == b.support_policy_digest_spec(),
        a.writer_epoch_id_spec() == b.writer_epoch_id_spec(),
        a.wal_transaction_id_spec() == b.wal_transaction_id_spec(),
        a.wal_first_lsn_spec() == b.wal_first_lsn_spec(),
{
    vstd::bytes::lemma_auto_spec_u64_to_from_le_bytes();
    let m = "EARCP001".spec_bytes();
    assert(a.payload_bytes_spec() =~= m + receipt_body(a));
    assert(b.payload_bytes_spec() =~= m + receipt_body(b));
    lemma_peel_prefix(m, receipt_body(a), receipt_body(b));
    let a7 = a.wal_transaction_id_spec()@ + spec_u64_to_le_bytes(a.wal_first_lsn_spec());
    let b7 = b.wal_transaction_id_spec()@ + spec_u64_to_le_bytes(b.wal_first_lsn_spec());
    let a6 = a.writer_epoch_id_spec()@ + a7;
    let b6 = b.writer_epoch_id_spec()@ + b7;
    let a5 = a.support_policy_digest_spec()@ + a6;
    let b5 = b.support_policy_digest_spec()@ + b6;
    let a4 = a.basis_frontier_spec().frontier_digest@ + a5;
    let b4 = b.basis_frontier_spec().frontier_digest@ + b5;
    let a3 = a.claim_digest_spec()@ + a4;
    let b3 = b.claim_digest_spec()@ + b4;
    let a2 = a.anchor_id_spec().bytes_spec()@ + a3;
    let b2 = b.anchor_id_spec().bytes_spec()@ + b3;
    lemma_peel_hash(a.receipt_id_spec().bytes_spec(), a2, b.receipt_id_spec().bytes_spec(), b2);
    lemma_peel_hash(a.anchor_id_spec().bytes_spec(), a3, b.anchor_id_spec().bytes_spec(), b3);
    lemma_peel_hash(a.claim_digest_spec(), a4, b.claim_digest_spec(), b4);
    lemma_peel_hash(a.basis_frontier_spec().frontier_digest, a5, b.basis_frontier_spec().frontier_digest, b5);
    lemma_peel_hash(a.support_policy_digest_spec(), a6, b.support_policy_digest_spec(), b6);
    lemma_peel_hash(a.writer_epoch_id_spec(), a7, b.writer_epoch_id_spec(), b7);
    lemma_peel_hash(
        a.wal_transaction_id_spec(),
        spec_u64_to_le_bytes(a.wal_first_lsn_spec()),
        b.wal_transaction_id_spec(),
        spec_u64_to_le_bytes(b.wal_first_lsn_spec()),
    );
}

/// The fact encoding is injective: two facts with the same persisted bytes
/// carry claims with the same bytes (so the same claim, by the claim law) and
/// the same receipt id, digest and anchor id.
#[verifier::spinoff_prover]
pub proof fn lemma_fact_encoding_injective(a: CausalAnchorFact, b: CausalAnchorFact)
    requires
        a.payload_bytes_spec() == b.payload_bytes_spec(),
        a.payload_bytes_spec().len() <= u64::MAX,
    ensures
        claim_payload_bytes(a.claim_spec()) == claim_payload_bytes(b.claim_spec()),
        a.receipt_id_spec().bytes_spec() == b.receipt_id_spec().bytes_spec(),
        a.anchor_digest_spec() == b.anchor_digest_spec(),
        a.anchor_id_spec().bytes_spec() == b.anchor_id_spec().bytes_spec(),
{
    let m = "EAFCT001".spec_bytes();
    let a3 = a.anchor_digest_spec()@ + a.anchor_id_spec().bytes_spec()@;
    let b3 = b.anchor_digest_spec()@ + b.anchor_id_spec().bytes_spec()@;
    let a2 = a.receipt_id_spec().bytes_spec()@ + a3;
    let b2 = b.receipt_id_spec().bytes_spec()@ + b3;
    let ca = claim_payload_bytes(a.claim_spec());
    let cb = claim_payload_bytes(b.claim_spec());
    assert(a.payload_bytes_spec() =~= m + (len_prefixed(ca) + a2));
    assert(b.payload_bytes_spec() =~= m + (len_prefixed(cb) + b2));
    lemma_peel_prefix(m, len_prefixed(ca) + a2, len_prefixed(cb) + b2);
    assert(ca.len() <= u64::MAX);
    assert(cb.len() <= u64::MAX);
    lemma_take_str_lp(ca, a2);
    lemma_take_str_lp(cb, b2);
    lemma_peel_hash(a.receipt_id_spec().bytes_spec(), a3, b.receipt_id_spec().bytes_spec(), b3);
    lemma_peel_hash(
        a.anchor_digest_spec(),
        a.anchor_id_spec().bytes_spec()@,
        b.anchor_digest_spec(),
        b.anchor_id_spec().bytes_spec()@,
    );
    lemma_peel_hash(a.anchor_id_spec().bytes_spec(), Seq::empty(), b.anchor_id_spec().bytes_spec(), Seq::empty());
}

/// Claims with the same encoding carry the same digest: it ends the
/// encoding.
proof fn lemma_claim_digest_by_bytes(a: CausalAnchorClaim, b: CausalAnchorClaim)
    requires
        claim_payload_bytes(a) == claim_payload_bytes(b),
    ensures
        a.claim_digest_spec() == b.claim_digest_spec(),
{
    let pa = claim_payload_bytes(a);
    let n = pa.len();
    assert(pa.subrange(n - 32, n as int) =~= a.claim_digest_spec()@);
    assert(claim_payload_bytes(b).subrange(n - 32, n as int) =~= b.claim_digest_spec()@);
    assert(a.claim_digest_spec() =~= b.claim_digest_spec());
}

} // verus!
