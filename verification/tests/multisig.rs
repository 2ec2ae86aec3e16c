use multisig_distributor::errors::Errors;
use multisig_distributor::multisig::approve_and_execute_tx;
use multisig_distributor::multisig::create_multisig;
use multisig_distributor::multisig::create_transaction;
use multisig_distributor::multisig::ExecuteAction;
use multisig_distributor::state::Pubkey;
use multisig_distributor::state::TransactionAccount;

fn key(b: u8) -> Pubkey {
    Pubkey::new([b; 32])
}

fn three_owner_multisig(threshold: u64) -> multisig_distributor::state::Multisig {
    create_multisig(vec![key(1), key(2), key(3)], threshold, 7).unwrap()
}

#[test]
fn create_multisig_succeeds_in_threshold_range() {
    for t in 1..=3u64 {
        let ms = create_multisig(vec![key(1), key(2), key(3)], t, 0).unwrap();
        assert_eq!(ms.threshold, t);
        assert_eq!(ms.owner_set_seqno, 0);
        assert_eq!(ms.owners.len(), 3);
    }
}

#[test]
fn create_multisig_rejects_zero_threshold() {
    let r = create_multisig(vec![key(1), key(2)], 0, 0);
    assert_eq!(r.unwrap_err(), Errors::InvalidThreshold);
}

#[test]
fn create_multisig_rejects_threshold_above_owner_count() {
    let r = create_multisig(vec![key(1), key(2)], 3, 0);
    assert_eq!(r.unwrap_err(), Errors::InvalidThreshold);
}

#[test]
fn create_multisig_rejects_empty_owner_list() {
    let r = create_multisig(vec![], 1, 0);
    assert_eq!(r.unwrap_err(), Errors::InvalidOwnersLen);
}

#[test]
fn create_multisig_rejects_duplicate_owners() {
    let r = create_multisig(vec![key(1), key(2), key(1)], 2, 0);
    assert_eq!(r.unwrap_err(), Errors::UniqueOwners);
}

#[test]
fn create_transaction_by_owner_starts_unapproved() {
    let ms = three_owner_multisig(2);
    let accs = vec![TransactionAccount {
        pubkey: key(9),
        is_signer: false,
        is_writable: true,
    }];
    let tx = create_transaction(&ms, key(50), &key(2), key(8), accs, vec![1, 2, 3]).unwrap();
    assert_eq!(tx.signers, vec![false, false, false]);
    assert!(!tx.did_execute);
    assert_eq!(tx.owner_set_seqno, 0);
    assert_eq!(tx.program_ids.len(), 1);
    assert_eq!(tx.data[0], vec![1, 2, 3]);
}

#[test]
fn create_transaction_rejects_non_owner_proposer() {
    let ms = three_owner_multisig(2);
    let r = create_transaction(&ms, key(50), &key(9), key(8), vec![], vec![]);
    assert_eq!(r.unwrap_err(), Errors::InvalidOwner);
}

#[test]
fn threshold_trigger_executes_exactly_once() {
    let ms = three_owner_multisig(2);
    let signer_authority = key(40);
    let mut tx = create_transaction(&ms, key(50), &key(1), key(8), vec![], vec![]).unwrap();

    let first = approve_and_execute_tx(&ms, &mut tx, &key(1), &signer_authority).unwrap();
    assert!(matches!(first, ExecuteAction::Approved));
    assert!(!tx.did_execute);

    let second = approve_and_execute_tx(&ms, &mut tx, &key(2), &signer_authority).unwrap();
    assert!(matches!(second, ExecuteAction::Execute(_)));
    assert!(tx.did_execute);

    let third = approve_and_execute_tx(&ms, &mut tx, &key(3), &signer_authority);
    assert_eq!(third.unwrap_err(), Errors::AlreadyExecuted);
    assert!(tx.did_execute);
}

#[test]
fn approve_is_idempotent_per_owner() {
    let ms = three_owner_multisig(3);
    let mut tx = create_transaction(&ms, key(50), &key(1), key(8), vec![], vec![]).unwrap();

    approve_and_execute_tx(&ms, &mut tx, &key(2), &key(40)).unwrap();
    let after_first = tx.signers.clone();
    let approvals_first = tx.signers.iter().filter(|s| **s).count();

    approve_and_execute_tx(&ms, &mut tx, &key(2), &key(40)).unwrap();
    let approvals_second = tx.signers.iter().filter(|s| **s).count();

    assert_eq!(tx.signers, after_first);
    assert_eq!(approvals_first, approvals_second);
    assert_eq!(approvals_second, 1);
    assert!(!tx.did_execute);
}

#[test]
fn approve_rejects_non_owner() {
    let ms = three_owner_multisig(2);
    let mut tx = create_transaction(&ms, key(50), &key(1), key(8), vec![], vec![]).unwrap();
    let r = approve_and_execute_tx(&ms, &mut tx, &key(9), &key(40));
    assert_eq!(r.unwrap_err(), Errors::InvalidOwner);
    assert_eq!(tx.signers, vec![false, false, false]);
}

#[test]
fn stale_snapshot_rejected_regardless_of_approvals() {
    let mut ms = three_owner_multisig(2);
    let mut tx = create_transaction(&ms, key(50), &key(1), key(8), vec![], vec![]).unwrap();
    approve_and_execute_tx(&ms, &mut tx, &key(1), &key(40)).unwrap();

    // The owner set changes after the proposal: its version moves on.
    ms.owner_set_seqno = 1;

    let r = approve_and_execute_tx(&ms, &mut tx, &key(2), &key(40));
    assert_eq!(r.unwrap_err(), Errors::StaleTransaction);
    assert_eq!(tx.signers, vec![true, false, false]);
    assert!(!tx.did_execute);
}

#[test]
fn execution_grants_signer_flag_to_own_authority() {
    let ms = create_multisig(vec![key(1)], 1, 0).unwrap();
    let authority = key(40);
    let accs = vec![
        TransactionAccount { pubkey: authority, is_signer: false, is_writable: false },
        TransactionAccount { pubkey: key(9), is_signer: false, is_writable: true },
        TransactionAccount { pubkey: key(10), is_signer: true, is_writable: false },
    ];
    let mut tx = create_transaction(&ms, key(50), &key(1), key(8), accs, vec![5, 6]).unwrap();

    let action = approve_and_execute_tx(&ms, &mut tx, &key(1), &authority).unwrap();
    let ixs = match action {
        ExecuteAction::Execute(ixs) => ixs,
        ExecuteAction::Approved => panic!("threshold of one must execute at once"),
    };
    assert_eq!(ixs.len(), 1);
    assert_eq!(ixs[0].program_id.bytes, [8; 32]);
    assert_eq!(ixs[0].data, vec![5, 6]);
    // The engine's own authority becomes a signer; the others keep their flags.
    assert!(ixs[0].accounts[0].is_signer);
    assert!(!ixs[0].accounts[1].is_signer);
    assert!(ixs[0].accounts[1].is_writable);
    assert!(ixs[0].accounts[2].is_signer);
}
