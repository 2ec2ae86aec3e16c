//! The error kinds that the engine's operations return.

use vstd::prelude::*;

verus! {

/// Every way an operation of this crate can fail. Failures of the surrounding
/// environment (a sub-instruction invocation, a token transfer) are surfaced
/// by the environment itself and do not appear here.
#[derive(Clone, Copy, Debug, PartialEq, Eq, Structural)]
pub enum Errors {
    /// A duplicate identity appeared in an owner list.
    UniqueOwners,
    /// An owner list was empty.
    InvalidOwnersLen,
    /// The acting identity is not a member of the owner set.
    InvalidOwner,
    /// A threshold was zero or larger than the owner list.
    InvalidThreshold,
    /// The approval count is below the threshold, so a gated operation ran too early.
    NotEnoughSigners,
    /// The transaction's instruction bundle was already released for execution.
    AlreadyExecuted,
    /// The transaction was proposed under an owner set version that has since changed.
    StaleTransaction,
    /// The claim's leaf index was already claimed.
    DropAlreadyClaimed,
    /// The Merkle inclusion proof does not fold to the distributor's root.
    InvalidProof,
    /// The claim would push the distributor past its total payout cap.
    ExceededMaxTotalClaim,
    /// The claim would push the distributor past its node count cap.
    ExceededMaxNumNodes,
}

} // verus!
