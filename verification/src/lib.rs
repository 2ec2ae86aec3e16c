//! An N-of-M multisignature approval engine coupled with a Merkle-proof-gated
//! token claim distributor.
//!
//! The multisig engine collects owner approvals on proposed transactions and
//! releases the instruction bundle for execution exactly once, when the
//! approval count reaches the configured threshold. The distributor holds a
//! Merkle root and pays out claims whose inclusion proofs fold to that root,
//! within fixed budget caps. Storage allocation, address derivation, token
//! transfers and event emission are the surrounding environment's concern;
//! this crate holds the state machines and their invariants.

pub mod distributor;
pub mod errors;
pub mod merkle_proof;
pub mod multisig;
pub mod state;
