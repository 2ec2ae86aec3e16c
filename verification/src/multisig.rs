//! The N-of-M multisig engine: creating an owner set, proposing a
//! transaction, and recording approvals until the threshold releases the
//! instruction bundle for execution.

use vstd::prelude::*;
use crate::errors::Errors;
use crate::state::count_true;
use crate::state::count_signers;
use crate::state::is_owner;
use crate::state::multisig_wf;
use crate::state::owner_index;
use crate::state::owner_index_spec;
use crate::state::owners_unique;
use crate::state::same_transaction;
use crate::state::transaction_wf;
use crate::state::assert_unique_owners;
use crate::state::blank_signers;
use crate::state::Instruction;
use crate::state::Multisig;
use crate::state::Pubkey;
use crate::state::Transaction;
use crate::state::TransactionAccount;

verus! {

/// The inputs on which creating an owner set succeeds.
pub open spec fn create_multisig_ok(owners: Seq<Pubkey>, threshold: u64) -> bool {
    &&& owners.len() > 0
    &&& owners_unique(owners)
    &&& 1 <= threshold
    &&& threshold <= owners.len()
}

/// The error creating an owner set returns, by the order the checks run in:
/// emptiness, uniqueness, threshold range.
pub open spec fn create_multisig_err(owners: Seq<Pubkey>, threshold: u64) -> Errors {
    if owners.len() == 0 {
        Errors::InvalidOwnersLen
    } else if !owners_unique(owners) {
        Errors::UniqueOwners
    } else {
        Errors::InvalidThreshold
    }
}

/// Initializes an owner set. Succeeds exactly when `owners` is non-empty and
/// duplicate-free and `1 <= threshold <= owners.len()`; the fresh set carries
/// version number zero.
pub fn create_multisig(owners: Vec<Pubkey>, threshold: u64, nonce: u8) -> (r: Result<
    Multisig,
    Errors,
>)
    ensures
        r is Ok <==> create_multisig_ok(owners@, threshold),
        r matches Ok(ms) ==> ms.owners@ == owners@ && ms.threshold == threshold && ms.nonce
            == nonce && ms.owner_set_seqno == 0 && multisig_wf(ms),
        r matches Err(e) ==> e == create_multisig_err(owners@, threshold),
{
    if owners.len() == 0 {
        return Err(Errors::InvalidOwnersLen);
    }
    if let Err(e) = assert_unique_owners(&owners) {
        return Err(e);
    }
    if threshold == 0 || threshold > owners.len() as u64 {
        return Err(Errors::InvalidThreshold);
    }
    Ok(Multisig { owners, threshold, nonce, owner_set_seqno: 0 })
}

/// Proposes a transaction holding one sub-instruction. Succeeds exactly when
/// `proposer` is a current owner; the record snapshots the owner set version,
/// starts with every approval flag clear, and is not executed. The proposal
/// records no approval: approving is a separate, explicit step.
pub fn create_transaction(
    multisig: &Multisig,
    multisig_key: Pubkey,
    proposer: &Pubkey,
    pid: Pubkey,
    accs: Vec<TransactionAccount>,
    data: Vec<u8>,
) -> (r: Result<Transaction, Errors>)
    ensures
        r is Ok <==> is_owner(multisig.owners@, proposer@),
        r matches Ok(tx) ==> ({
            &&& tx.multisig@ == multisig_key@
            &&& tx.program_ids@ == seq![pid]
            &&& tx.accounts@ == seq![accs]
            &&& tx.data@ == seq![data]
            &&& tx.signers@ == Seq::new(multisig.owners@.len(), |i: int| false)
            &&& tx.did_execute == false
            &&& tx.owner_set_seqno == multisig.owner_set_seqno
            &&& transaction_wf(tx, *multisig)
        }),
        r matches Err(e) ==> e == Errors::InvalidOwner,
{
    if owner_index(&multisig.owners, proposer).is_none() {
        return Err(Errors::InvalidOwner);
    }
    let signers = blank_signers(multisig.owners.len());
    let tx = Transaction {
        multisig: multisig_key,
        program_ids: vec![pid],
        accounts: vec![accs],
        data: vec![data],
        signers,
        did_execute: false,
        owner_set_seqno: multisig.owner_set_seqno,
    };
    Ok(tx)
}

/// `fresh` is `orig` with the signer flag raised wherever the account is the
/// engine's own execution authority: this is how the engine grants its
/// delegated signing authority to the approved payload.
pub open spec fn meta_rewritten(
    orig: TransactionAccount,
    fresh: TransactionAccount,
    signer_key: Seq<u8>,
) -> bool {
    &&& fresh.pubkey@ == orig.pubkey@
    &&& fresh.is_writable == orig.is_writable
    &&& fresh.is_signer == (orig.is_signer || orig.pubkey@ == signer_key)
}

/// `ixs` is the transaction's bundle, column by column, with every account
/// reference rewritten for `signer_key`.
pub open spec fn instructions_rewritten(
    tx: Transaction,
    ixs: Seq<Instruction>,
    signer_key: Seq<u8>,
) -> bool {
    &&& ixs.len() == tx.program_ids@.len()
    &&& forall|i: int| 0 <= i < ixs.len() ==> (#[trigger] ixs[i]).program_id@ == tx.program_ids@[i]@
    &&& forall|i: int| 0 <= i < ixs.len() ==> (#[trigger] ixs[i]).data@ == tx.data@[i]@
    &&& forall|i: int| 0 <= i < ixs.len() ==> (#[trigger] ixs[i]).accounts@.len()
        == tx.accounts@[i]@.len()
    &&& forall|i: int, j: int|
        0 <= i < ixs.len() && 0 <= j < tx.accounts@[i]@.len() ==> meta_rewritten(
            tx.accounts@[i]@[j],
            #[trigger] ixs[i].accounts@[j],
            signer_key,
        )
}

/// What an approval call hands back: either the approval was recorded below
/// the threshold, or the threshold is met and the rewritten bundle must now
/// be run by the execution environment.
#[derive(Debug)]
pub enum ExecuteAction {
    /// The approval is persisted; the threshold is not yet met.
    Approved,
    /// The threshold is met. The bundle is released exactly once: the record
    /// is marked executed the moment this action is handed out, so no later
    /// call can release it again.
    Execute(Vec<Instruction>),
}

/// Copies `accs` with the signer flag raised on every reference to `signer_key`.
fn rewrite_metas(accs: &Vec<TransactionAccount>, signer_key: &Pubkey) -> (r: Vec<
    TransactionAccount,
>)
    ensures
        r@.len() == accs@.len(),
        forall|j: int| 0 <= j < accs@.len() ==> meta_rewritten(accs@[j], #[trigger] r@[j], signer_key@),
{
    let mut r: Vec<TransactionAccount> = Vec::new();
    let mut i: usize = 0;
    while i < accs.len()
        invariant
            i <= accs@.len(),
            r@.len() == i,
            forall|j: int| 0 <= j < i ==> meta_rewritten(accs@[j], #[trigger] r@[j], signer_key@),
        decreases accs@.len() - i,
    {
        let acc = accs[i];
        let is_signer = acc.is_signer || acc.pubkey.key_eq(signer_key);
        r.push(TransactionAccount { pubkey: acc.pubkey, is_signer, is_writable: acc.is_writable });
        i = i + 1;
    }
    r
}

/// A verified copy of a payload column.
fn copy_bytes(v: &Vec<u8>) -> (r: Vec<u8>)
    ensures
        r@ == v@,
{
    let mut r: Vec<u8> = Vec::new();
    let mut i: usize = 0;
    while i < v.len()
        invariant
            i <= v@.len(),
            r@ =~= v@.take(i as int),
        decreases v@.len() - i,
    {
        r.push(v[i]);
        i = i + 1;
    }
    proof {
        assert(v@.take(v@.len() as int) =~= v@);
    }
    r
}

/// Builds the bundle to execute: each sub-instruction of `tx`, with account
/// references rewritten for the engine's execution authority.
fn build_instructions(tx: &Transaction, signer_key: &Pubkey) -> (r: Vec<Instruction>)
    requires
        tx.program_ids@.len() == tx.accounts@.len(),
        tx.program_ids@.len() == tx.data@.len(),
    ensures
        instructions_rewritten(*tx, r@, signer_key@),
{
    let mut r: Vec<Instruction> = Vec::new();
    let mut i: usize = 0;
    while i < tx.program_ids.len()
        invariant
            i <= tx.program_ids@.len(),
            tx.program_ids@.len() == tx.accounts@.len(),
            tx.program_ids@.len() == tx.data@.len(),
            r@.len() == i,
            forall|k: int| 0 <= k < i ==> (#[trigger] r@[k]).program_id@ == tx.program_ids@[k]@,
            forall|k: int| 0 <= k < i ==> (#[trigger] r@[k]).data@ == tx.data@[k]@,
            forall|k: int| 0 <= k < i ==> (#[trigger] r@[k]).accounts@.len()
                == tx.accounts@[k]@.len(),
            forall|k: int, j: int|
                0 <= k < i && 0 <= j < tx.accounts@[k]@.len() ==> meta_rewritten(
                    tx.accounts@[k]@[j],
                    #[trigger] r@[k].accounts@[j],
                    signer_key@,
                ),
        decreases tx.program_ids@.len() - i,
    {
        let accounts = rewrite_metas(&tx.accounts[i], signer_key);
        let data = copy_bytes(&tx.data[i]);
        r.push(Instruction { program_id: tx.program_ids[i], accounts, data });
        i = i + 1;
    }
    r
}

/// Records `owner`'s approval on `transaction` and, once the approval count
/// reaches the threshold, releases the rewritten instruction bundle exactly
/// once.
///
/// The checks run in order: membership, owner-set version, exactly-once. A
/// failed call leaves the record untouched. Approving is idempotent: the flag
/// is boolean, so a repeated approval by the same owner never double-counts.
/// The execution environment runs the released bundle in order, surfacing the
/// first sub-instruction failure to its caller; the record is already marked
/// executed when the bundle is handed out, so a mid-bundle failure is
/// explicit and the bundle is never replayed.
pub fn approve_and_execute_tx(
    multisig: &Multisig,
    transaction: &mut Transaction,
    owner: &Pubkey,
    multisig_signer: &Pubkey,
) -> (r: Result<ExecuteAction, Errors>)
    requires
        multisig_wf(*multisig),
        transaction_wf(*old(transaction), *multisig),
    ensures
        r is Ok <==> (is_owner(multisig.owners@, owner@) && old(transaction).owner_set_seqno
            == multisig.owner_set_seqno && !old(transaction).did_execute),
        !is_owner(multisig.owners@, owner@) ==> r == Err::<ExecuteAction, Errors>(
            Errors::InvalidOwner,
        ),
        is_owner(multisig.owners@, owner@) && old(transaction).owner_set_seqno
            != multisig.owner_set_seqno ==> r == Err::<ExecuteAction, Errors>(
            Errors::StaleTransaction,
        ),
        is_owner(multisig.owners@, owner@) && old(transaction).owner_set_seqno
            == multisig.owner_set_seqno && old(transaction).did_execute ==> r == Err::<
            ExecuteAction,
            Errors,
        >(Errors::AlreadyExecuted),
        r is Err ==> same_transaction(*final(transaction), *old(transaction)),
        r is Ok ==> ({
            let idx = owner_index_spec(multisig.owners@, owner@);
            let approved = old(transaction).signers@.update(idx, true);
            &&& final(transaction).signers@ == approved
            &&& final(transaction).multisig@ == old(transaction).multisig@
            &&& final(transaction).program_ids@ == old(transaction).program_ids@
            &&& final(transaction).accounts@ == old(transaction).accounts@
            &&& final(transaction).data@ == old(transaction).data@
            &&& final(transaction).owner_set_seqno == old(transaction).owner_set_seqno
            &&& if count_true(approved) < multisig.threshold {
                &&& r == Ok::<ExecuteAction, Errors>(ExecuteAction::Approved)
                &&& final(transaction).did_execute == false
            } else {
                &&& r matches Ok(ExecuteAction::Execute(ixs)) && instructions_rewritten(
                    *old(transaction),
                    ixs@,
                    multisig_signer@,
                )
                &&& final(transaction).did_execute == true
            }
        }),
{
    let idx = match owner_index(&multisig.owners, owner) {
        Some(i) => i,
        None => {
            return Err(Errors::InvalidOwner);
        },
    };
    if transaction.owner_set_seqno != multisig.owner_set_seqno {
        return Err(Errors::StaleTransaction);
    }
    if transaction.did_execute {
        return Err(Errors::AlreadyExecuted);
    }
    transaction.signers[idx] = true;
    let count = count_signers(&transaction.signers);
    if count < multisig.threshold {
        return Ok(ExecuteAction::Approved);
    }
    let ixs = build_instructions(transaction, multisig_signer);
    transaction.did_execute = true;
    Ok(ExecuteAction::Execute(ixs))
}

/// Approval is idempotent: a repeated approval by the same owner leaves the
/// approval flags, and so the approval count, unchanged.
pub proof fn lemma_approve_idempotent(signers: Seq<bool>, idx: int)
    requires
        0 <= idx < signers.len(),
    ensures
        signers.update(idx, true).update(idx, true) == signers.update(idx, true),
        count_true(signers.update(idx, true).update(idx, true)) == count_true(
            signers.update(idx, true),
        ),
{
    assert(signers.update(idx, true).update(idx, true) =~= signers.update(idx, true));
}

/// Approvals commute: two owners' approvals land in the same approval set
/// whatever order the calls run in, so any serialization order triggers
/// execution at the same point.
pub proof fn lemma_approve_commutes(signers: Seq<bool>, a: int, b: int)
    requires
        0 <= a < signers.len(),
        0 <= b < signers.len(),
    ensures
        signers.update(a, true).update(b, true) == signers.update(b, true).update(a, true),
{
    assert(signers.update(a, true).update(b, true) =~= signers.update(b, true).update(a, true));
}

/// An owner set accepts a threshold exactly when it lies between one and the
/// owner count: for a duplicate-free owner list, creation succeeds if and
/// only if `1 <= threshold <= owners.len()`.
pub proof fn lemma_threshold_bounds(owners: Seq<Pubkey>, threshold: u64)
    requires
        owners_unique(owners),
    ensures
        create_multisig_ok(owners, threshold) <==> (1 <= threshold && threshold <= owners.len()),
{
}

/// A duplicate identity makes creation fail, whatever the threshold.
pub proof fn lemma_duplicate_owners_rejected(owners: Seq<Pubkey>, threshold: u64)
    requires
        !owners_unique(owners),
    ensures
        !create_multisig_ok(owners, threshold),
{
}

} // verus!
