//! Verified state machines for the Orizon agent contracts: an agent registry,
//! a rating ledger with decayed, value-weighted evidence (and a plain
//! undecayed one), an escrow that authorizes and charges per-call payments,
//! and a write-once attestation registry.
//!
//! Each contract is a value holding its storage; its calls are methods whose
//! contracts give the next storage state, or the error that refuses the call,
//! as a function of the state before. The `*_laws` modules prove what holds
//! across calls.

pub mod ids;
pub mod table;
pub mod shared;
pub mod codes;
pub mod registry;
pub mod attestation;
pub mod escrow;
pub mod score_ledger;
pub mod reputation;
pub mod registry_laws;
pub mod attestation_laws;
pub mod escrow_laws;
pub mod score_ledger_laws;
pub mod reputation_laws;
