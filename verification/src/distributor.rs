//! The Merkle-root-anchored claim distributor: created only through an
//! approved multisig execution, then paying out claims whose inclusion proofs
//! fold to its root, within fixed budget caps, exactly once per leaf index.

use vstd::prelude::*;
use crate::errors::Errors;
use crate::merkle_proof::hash_leaf;
use crate::merkle_proof::leaf_hash;
use crate::merkle_proof::proof_verifies;
use crate::merkle_proof::verify;
use crate::state::count_true;
use crate::state::count_signers;
use crate::state::is_owner;
use crate::state::lemma_count_true_update;
use crate::state::multisig_wf;
use crate::state::owner_index;
use crate::state::owner_index_spec;
use crate::state::same_transaction;
use crate::state::Multisig;
use crate::state::Pubkey;
use crate::state::Transaction;

verus! {

/// The claim budget and its counters, anchored to an immutable Merkle root.
#[derive(Clone, Copy, Debug)]
pub struct Distributor {
    /// The base identity the distributor's storage address derives from.
    pub multisig_base: Pubkey,
    /// The derivation bump of that address.
    pub bump: u8,
    /// The Merkle root every claim is verified against; immutable.
    pub root: [u8; 32],
    /// The token mint this distributor pays out.
    pub mint: Pubkey,
    /// The payout cap.
    pub max_total_claim: u64,
    /// The claim count cap.
    pub max_num_nodes: u64,
    /// The running payout sum; never exceeds `max_total_claim`.
    pub total_claimed: u64,
    /// The running claim count; never exceeds `max_num_nodes`.
    pub num_nodes_claimed: u64,
}

/// One claim record per leaf index. Once `is_claimed` is set the record is
/// never written again.
#[derive(Clone, Copy, Debug)]
pub struct ClaimStatus {
    pub is_claimed: bool,
    pub claimant: Pubkey,
    pub amount: u64,
    pub claimed_at: i64,
}

impl ClaimStatus {
    /// A fresh, unclaimed record, as the storage layer materializes it on the
    /// first claim attempt for an index.
    pub fn new() -> (r: ClaimStatus)
        ensures
            !r.is_claimed,
            r.claimed_at == 0,
            r.amount == 0,
            r.claimant@ == Seq::<u8>::new(32, |i: int| 0u8),
    {
        ClaimStatus { is_claimed: false, claimant: Pubkey::zeroed(), amount: 0, claimed_at: 0 }
    }
}

/// The distributor's budget invariant: the counters never pass their caps.
pub open spec fn distributor_wf(d: Distributor) -> bool {
    &&& d.total_claimed <= d.max_total_claim
    &&& d.num_nodes_claimed <= d.max_num_nodes
}

/// The inputs on which a claim succeeds: an unclaimed record, a proof that
/// folds to the root, and both budgets still open.
pub open spec fn claim_allowed(
    d: Distributor,
    cs: ClaimStatus,
    index: u64,
    proof: Seq<Seq<u8>>,
    claimant: Pubkey,
    amount: u64,
) -> bool {
    &&& !cs.is_claimed
    &&& cs.claimed_at == 0
    &&& proof_verifies(leaf_hash(index, claimant@, amount), proof, d.root@)
    &&& d.total_claimed + amount <= d.max_total_claim
    &&& d.num_nodes_claimed + 1 <= d.max_num_nodes
}

/// The error a rejected claim returns, by the order the checks run in:
/// exclusivity, proof, payout budget, count budget.
pub open spec fn claim_err(
    d: Distributor,
    cs: ClaimStatus,
    index: u64,
    proof: Seq<Seq<u8>>,
    claimant: Pubkey,
    amount: u64,
) -> Errors {
    if cs.is_claimed || cs.claimed_at != 0 {
        Errors::DropAlreadyClaimed
    } else if !proof_verifies(leaf_hash(index, claimant@, amount), proof, d.root@) {
        Errors::InvalidProof
    } else if d.total_claimed + amount > d.max_total_claim {
        Errors::ExceededMaxTotalClaim
    } else {
        Errors::ExceededMaxNumNodes
    }
}

/// The distributor after a successful claim of `amount`: both counters moved,
/// everything else untouched.
pub open spec fn distributor_after_claim(d: Distributor, amount: u64) -> Distributor {
    Distributor {
        total_claimed: (d.total_claimed + amount) as u64,
        num_nodes_claimed: (d.num_nodes_claimed + 1) as u64,
        ..d
    }
}

/// The claim record after a successful claim: marked claimed and immutable
/// from here on.
pub open spec fn status_after_claim(claimant: Pubkey, amount: u64, now: i64) -> ClaimStatus {
    ClaimStatus { is_claimed: true, claimant, amount, claimed_at: now }
}

/// Creates the distributor as the payload of an approved multisig execution:
/// the caller's approval is counted against the same owner set, and the
/// record comes into being only when the threshold is met. A rejected call
/// leaves the transaction record untouched.
pub fn new_distributor(
    multisig: &Multisig,
    transaction: &mut Transaction,
    owner: &Pubkey,
    multisig_base: Pubkey,
    mint: Pubkey,
    bump: u8,
    root: [u8; 32],
    max_total_claim: u64,
    max_num_nodes: u64,
) -> (r: Result<Distributor, Errors>)
    requires
        multisig_wf(*multisig),
        old(transaction).signers@.len() == multisig.owners@.len(),
    ensures
        r is Err ==> same_transaction(*final(transaction), *old(transaction)),
        !is_owner(multisig.owners@, owner@) ==> r == Err::<Distributor, Errors>(
            Errors::InvalidOwner,
        ),
        is_owner(multisig.owners@, owner@) ==> ({
            let idx = owner_index_spec(multisig.owners@, owner@);
            let approved = old(transaction).signers@.update(idx, true);
            &&& count_true(approved) < multisig.threshold ==> r == Err::<Distributor, Errors>(
                Errors::NotEnoughSigners,
            )
            &&& count_true(approved) >= multisig.threshold ==> ({
                &&& final(transaction).signers@ == approved
                &&& final(transaction).multisig@ == old(transaction).multisig@
                &&& final(transaction).program_ids@ == old(transaction).program_ids@
                &&& final(transaction).accounts@ == old(transaction).accounts@
                &&& final(transaction).data@ == old(transaction).data@
                &&& final(transaction).did_execute == old(transaction).did_execute
                &&& final(transaction).owner_set_seqno == old(transaction).owner_set_seqno
                &&& r == Ok::<Distributor, Errors>(
                    Distributor {
                        multisig_base,
                        bump,
                        root,
                        mint,
                        max_total_claim,
                        max_num_nodes,
                        total_claimed: 0,
                        num_nodes_claimed: 0,
                    },
                )
            })
        }),
        r matches Ok(d) ==> distributor_wf(d),
{
    let idx = match owner_index(&multisig.owners, owner) {
        Some(i) => i,
        None => {
            return Err(Errors::InvalidOwner);
        },
    };
    // Count the approvals as they would stand with this owner's flag set, and
    // commit nothing before the threshold decision falls.
    let count = count_signers(&transaction.signers);
    proof {
        lemma_count_true_update(transaction.signers@, idx as int);
    }
    let meets_threshold = if transaction.signers[idx] {
        count >= multisig.threshold
    } else {
        count >= multisig.threshold - 1
    };
    if !meets_threshold {
        return Err(Errors::NotEnoughSigners);
    }
    transaction.signers[idx] = true;
    Ok(
        Distributor {
            multisig_base,
            bump,
            root,
            mint,
            max_total_claim,
            max_num_nodes,
            total_claimed: 0,
            num_nodes_claimed: 0,
        },
    )
}

/// Authorizes the payout of `(index, claimant, amount)` exactly once.
///
/// The checks run in order: exclusivity, Merkle proof, payout budget, count
/// budget; all complete before any state is written, and a rejected call
/// leaves both records untouched. On success the claim record is marked
/// claimed and both counters move; the actual token transfer and the claim
/// event are the environment's to perform, after this call returns. `now` is
/// the environment's clock reading.
pub fn claim(
    distributor: &mut Distributor,
    claim_status: &mut ClaimStatus,
    index: u64,
    proof: &Vec<[u8; 32]>,
    claimant: Pubkey,
    amount: u64,
    now: i64,
) -> (r: Result<(), Errors>)
    requires
        distributor_wf(*old(distributor)),
    ensures
        distributor_wf(*final(distributor)),
        r is Ok <==> claim_allowed(
            *old(distributor),
            *old(claim_status),
            index,
            proof.deep_view(),
            claimant,
            amount,
        ),
        r is Ok ==> *final(distributor) == distributor_after_claim(*old(distributor), amount)
            && *final(claim_status) == status_after_claim(claimant, amount, now),
        r is Err ==> *final(distributor) == *old(distributor) && *final(claim_status) == *old(
            claim_status,
        ),
        r matches Err(e) ==> e == claim_err(
            *old(distributor),
            *old(claim_status),
            index,
            proof.deep_view(),
            claimant,
            amount,
        ),
{
    if claim_status.is_claimed || claim_status.claimed_at != 0 {
        return Err(Errors::DropAlreadyClaimed);
    }
    let leaf = hash_leaf(index, &claimant, amount);
    if !verify(proof, &distributor.root, &leaf) {
        return Err(Errors::InvalidProof);
    }
    if amount > distributor.max_total_claim - distributor.total_claimed {
        return Err(Errors::ExceededMaxTotalClaim);
    }
    if distributor.num_nodes_claimed >= distributor.max_num_nodes {
        return Err(Errors::ExceededMaxNumNodes);
    }
    claim_status.is_claimed = true;
    claim_status.claimant = claimant;
    claim_status.amount = amount;
    claim_status.claimed_at = now;
    distributor.total_claimed = distributor.total_claimed + amount;
    distributor.num_nodes_claimed = distributor.num_nodes_claimed + 1;
    Ok(())
}

/// A claim is paid exactly once: after a successful claim the counters have
/// moved by exactly `amount` and one node, and the identical second call is
/// rejected as already claimed — and, by `claim`'s contract, a rejected call
/// changes nothing.
pub proof fn lemma_claim_exactly_once(
    d: Distributor,
    cs: ClaimStatus,
    index: u64,
    proof: Seq<Seq<u8>>,
    claimant: Pubkey,
    amount: u64,
    now: i64,
)
    requires
        claim_allowed(d, cs, index, proof, claimant, amount),
    ensures
        distributor_after_claim(d, amount).total_claimed == d.total_claimed + amount,
        distributor_after_claim(d, amount).num_nodes_claimed == d.num_nodes_claimed + 1,
        !claim_allowed(
            distributor_after_claim(d, amount),
            status_after_claim(claimant, amount, now),
            index,
            proof,
            claimant,
            amount,
        ),
        claim_err(
            distributor_after_claim(d, amount),
            status_after_claim(claimant, amount, now),
            index,
            proof,
            claimant,
            amount,
        ) == Errors::DropAlreadyClaimed,
{
}

/// Budget enforcement: a claim that would pass either cap is rejected even
/// when its proof is valid.
pub proof fn lemma_budget_enforced(
    d: Distributor,
    cs: ClaimStatus,
    index: u64,
    proof: Seq<Seq<u8>>,
    claimant: Pubkey,
    amount: u64,
)
    requires
        d.total_claimed + amount > d.max_total_claim || d.num_nodes_claimed + 1
            > d.max_num_nodes,
    ensures
        !claim_allowed(d, cs, index, proof, claimant, amount),
{
}

} // verus!
