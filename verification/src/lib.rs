//! Verified core of the WARP causal engine: causal write-ahead log records,
//! causal anchors, braid coordination and settlement shells, footprint
//! soundness, and shard routing.
#![allow(unused_imports)]

pub mod crypto;
pub mod constants;
pub mod encoding;
pub mod ident;
pub mod order;
pub mod keyset;
pub mod shard;
pub mod braid;
pub mod revelation;
pub mod provenance_store;
pub mod sealed_membership;
pub mod witness;
pub mod plurality_law;
pub mod proof_envelope;
pub mod braid_shell;
pub mod causal_receipt;
pub mod causal_facts;
pub mod causal_wal;
pub mod causal_anchor;
pub mod text;
pub mod attachment;
pub mod footprint;
pub mod actual_footprint;
pub mod admission;
pub mod contract;
pub mod head;
