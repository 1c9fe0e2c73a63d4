//! Contract inverse intents and refusals, and the stable ids of
//! suffix-import results.
use vstd::prelude::*;
use vstd::string::*;
use crate::crypto::{blake3_digest, blake3_hash};
use crate::encoding::{push_hash, push_slice};
use crate::ident::{EdgeId, NodeId};

verus! {

/// Canonical mutation intent produced by an installed contract inverse law.
#[derive(Clone, Debug, PartialEq, Eq)]
pub struct ContractInverseIntent {
    /// Generated mutation operation id to admit.
    pub op_id: u32,
    /// Canonical generated variables for the mutation operation.
    pub vars_bytes: Vec<u8>,
}

impl ContractInverseIntent {
    /// Builds one canonical contract mutation intent.
    pub fn new(op_id: u32, vars_bytes: Vec<u8>) -> (r: Self)
        ensures
            r.op_id == op_id,
            r.vars_bytes@ == vars_bytes@,
    {
        ContractInverseIntent { op_id, vars_bytes }
    }
}

/// Typed refusal emitted by an installed contract inverse law.
#[derive(Clone, Debug, PartialEq, Eq)]
pub enum ContractInverseHandlerError {
    /// Retained material required to construct the inverse is unavailable.
    InverseFragmentUnavailable {
        /// Deterministic contract-provided explanation.
        message: String,
    },
    /// The original causal span cannot be mapped to the current frontier.
    CausalSpanUnmappable {
        /// Deterministic contract-provided explanation.
        message: String,
    },
    /// Retained compressed history must be rehydrated before inversion.
    HistoryRehydrationRequired {
        /// Deterministic contract-provided explanation.
        message: String,
    },
    /// The contract rejected the request for another typed application reason.
    ContractDefined {
        /// Stable application-defined obstruction code.
        code: String,
        /// Deterministic contract-provided explanation.
        message: String,
    },
}

impl ContractInverseHandlerError {
    /// A typed unavailable-fragment obstruction.
    pub fn inverse_fragment_unavailable(message: String) -> (r: Self)
        ensures
            r == (ContractInverseHandlerError::InverseFragmentUnavailable { message }),
    {
        ContractInverseHandlerError::InverseFragmentUnavailable { message }
    }

    /// A typed unmappable-causal-span obstruction.
    pub fn causal_span_unmappable(message: String) -> (r: Self)
        ensures
            r == (ContractInverseHandlerError::CausalSpanUnmappable { message }),
    {
        ContractInverseHandlerError::CausalSpanUnmappable { message }
    }

    /// A typed rehydration-required obstruction.
    pub fn history_rehydration_required(message: String) -> (r: Self)
        ensures
            r == (ContractInverseHandlerError::HistoryRehydrationRequired { message }),
    {
        ContractInverseHandlerError::HistoryRehydrationRequired { message }
    }

    /// A stable application-defined inverse obstruction.
    pub fn contract_defined(code: String, message: String) -> (r: Self)
        ensures
            r == (ContractInverseHandlerError::ContractDefined { code, message }),
    {
        ContractInverseHandlerError::ContractDefined { code, message }
    }
}

/// Human-readable command rule for witnessed suffix import proposals.
pub const IMPORT_SUFFIX_INTENT_RULE_NAME: &'static str = "cmd/import_suffix_intent";
/// Type identifier label for import-suffix result nodes.
pub const IMPORT_SUFFIX_RESULT_NODE_TYPE: &'static str = "echo/import-suffix-result";
/// Type identifier label for result edges from ingress event to import result.
pub const IMPORT_SUFFIX_RESULT_EDGE_TYPE: &'static str = "echo/import-suffix-result-edge";
/// Type identifier label for canonical import-suffix result atoms.
pub const IMPORT_SUFFIX_RESULT_ATTACHMENT_TYPE: &'static str = "echo/import-suffix-result/cbor-v1";

pub open spec fn result_node_domain() -> Seq<u8> {
    "echo.import_suffix.result.node.v1:".spec_bytes()
}

pub open spec fn result_edge_domain() -> Seq<u8> {
    "echo.import_suffix.result.edge.v1:".spec_bytes()
}

/// Stable result node id for one import-suffix ingress event.
pub fn import_suffix_result_node_id(event_id: &NodeId) -> (r: NodeId)
    ensures
        r.0@ == blake3_digest(result_node_domain() + event_id.0@),
{
    let mut input: Vec<u8> = Vec::new();
    push_slice(&mut input, "echo.import_suffix.result.node.v1:".as_bytes());
    push_hash(&mut input, &event_id.0);
    proof {
        reveal_strlit("echo.import_suffix.result.node.v1:");
    }
    NodeId(blake3_hash(input.as_slice()))
}

/// Stable result edge id for one import-suffix ingress event.
pub fn import_suffix_result_edge_id(event_id: &NodeId, result_id: &NodeId) -> (r: EdgeId)
    ensures
        r.0@ == blake3_digest(result_edge_domain() + event_id.0@ + result_id.0@),
{
    let mut input: Vec<u8> = Vec::new();
    push_slice(&mut input, "echo.import_suffix.result.edge.v1:".as_bytes());
    push_hash(&mut input, &event_id.0);
    push_hash(&mut input, &result_id.0);
    proof {
        reveal_strlit("echo.import_suffix.result.edge.v1:");
    }
    EdgeId(blake3_hash(input.as_slice()))
}

} // verus!
