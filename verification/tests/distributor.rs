use multisig_distributor::distributor::claim;
use multisig_distributor::distributor::new_distributor;
use multisig_distributor::distributor::ClaimStatus;
use multisig_distributor::distributor::Distributor;
use multisig_distributor::errors::Errors;
use multisig_distributor::merkle_proof::hash_leaf;
use multisig_distributor::merkle_proof::hash_pair;
use multisig_distributor::merkle_proof::verify;
use multisig_distributor::multisig::approve_and_execute_tx;
use multisig_distributor::multisig::create_multisig;
use multisig_distributor::multisig::create_transaction;
use multisig_distributor::state::Pubkey;

fn key(b: u8) -> Pubkey {
    Pubkey::new([b; 32])
}

/// A four-leaf tree over the given claim entries; returns the root and each
/// leaf's proof (sibling leaf, then sibling subtree hash).
fn four_leaf_tree(entries: &[(u64, Pubkey, u64); 4]) -> ([u8; 32], Vec<Vec<[u8; 32]>>) {
    let leaves: Vec<[u8; 32]> =
        entries.iter().map(|(i, c, a)| hash_leaf(*i, c, *a)).collect();
    let left = hash_pair(&leaves[0], &leaves[1]);
    let right = hash_pair(&leaves[2], &leaves[3]);
    let root = hash_pair(&left, &right);
    let proofs = vec![
        vec![leaves[1], right],
        vec![leaves[0], right],
        vec![leaves[3], left],
        vec![leaves[2], left],
    ];
    (root, proofs)
}

fn distributor_with(root: [u8; 32], max_total_claim: u64, max_num_nodes: u64) -> Distributor {
    Distributor {
        multisig_base: key(60),
        bump: 255,
        root,
        mint: key(61),
        max_total_claim,
        max_num_nodes,
        total_claimed: 0,
        num_nodes_claimed: 0,
    }
}

#[test]
fn new_distributor_requires_threshold_of_approvals() {
    let ms = create_multisig(vec![key(1), key(2)], 2, 0).unwrap();
    let mut tx = create_transaction(&ms, key(50), &key(1), key(8), vec![], vec![]).unwrap();

    // A single owner cannot create the distributor alone.
    let alone = new_distributor(&ms, &mut tx, &key(1), key(60), key(61), 255, [3; 32], 1000, 10);
    assert_eq!(alone.unwrap_err(), Errors::NotEnoughSigners);
    assert_eq!(tx.signers, vec![false, false]);

    // After the other owner's approval, the triggering call meets the threshold.
    approve_and_execute_tx(&ms, &mut tx, &key(2), &key(40)).unwrap();
    let d = new_distributor(&ms, &mut tx, &key(1), key(60), key(61), 255, [3; 32], 1000, 10)
        .unwrap();
    assert_eq!(d.root, [3; 32]);
    assert_eq!(d.max_total_claim, 1000);
    assert_eq!(d.max_num_nodes, 10);
    assert_eq!(d.total_claimed, 0);
    assert_eq!(d.num_nodes_claimed, 0);
}

#[test]
fn new_distributor_rejects_non_owner() {
    let ms = create_multisig(vec![key(1), key(2)], 1, 0).unwrap();
    let mut tx = create_transaction(&ms, key(50), &key(1), key(8), vec![], vec![]).unwrap();
    let r = new_distributor(&ms, &mut tx, &key(9), key(60), key(61), 255, [3; 32], 1000, 10);
    assert_eq!(r.unwrap_err(), Errors::InvalidOwner);
}

#[test]
fn proof_round_trip_verifies_and_tampering_fails() {
    let entries = [(0u64, key(11), 100u64), (1, key(12), 200), (2, key(13), 300), (3, key(14), 400)];
    let (root, proofs) = four_leaf_tree(&entries);

    for (e, proof) in entries.iter().zip(proofs.iter()) {
        let leaf = hash_leaf(e.0, &e.1, e.2);
        assert!(verify(proof, &root, &leaf));

        // Any single flipped bit in any proof element breaks verification.
        for k in 0..proof.len() {
            for bit in [0u8, 7] {
                for byte in [0usize, 31] {
                    let mut tampered = proof.clone();
                    tampered[k][byte] ^= 1 << bit;
                    assert!(!verify(&tampered, &root, &leaf));
                }
            }
        }

        // A changed amount changes the leaf and breaks verification.
        let wrong_amount = hash_leaf(e.0, &e.1, e.2 + 1);
        assert!(!verify(proof, &root, &wrong_amount));
    }
}

#[test]
fn first_claim_succeeds_second_is_rejected_unchanged() {
    let entries = [(0u64, key(11), 100u64), (1, key(12), 200), (2, key(13), 300), (3, key(14), 400)];
    let (root, proofs) = four_leaf_tree(&entries);
    let mut d = distributor_with(root, 1000, 10);
    let mut cs = ClaimStatus::new();

    claim(&mut d, &mut cs, 0, &proofs[0], key(11), 100, 777).unwrap();
    assert!(cs.is_claimed);
    assert_eq!(cs.amount, 100);
    assert_eq!(cs.claimed_at, 777);
    assert_eq!(cs.claimant.bytes, [11; 32]);
    assert_eq!(d.total_claimed, 100);
    assert_eq!(d.num_nodes_claimed, 1);

    let again = claim(&mut d, &mut cs, 0, &proofs[0], key(11), 100, 888);
    assert_eq!(again.unwrap_err(), Errors::DropAlreadyClaimed);
    assert_eq!(d.total_claimed, 100);
    assert_eq!(d.num_nodes_claimed, 1);
    assert_eq!(cs.claimed_at, 777);
}

#[test]
fn claim_rejects_invalid_proof_without_mutation() {
    let entries = [(0u64, key(11), 100u64), (1, key(12), 200), (2, key(13), 300), (3, key(14), 400)];
    let (root, proofs) = four_leaf_tree(&entries);
    let mut d = distributor_with(root, 1000, 10);
    let mut cs = ClaimStatus::new();

    // The right proof for the wrong claimed amount.
    let r = claim(&mut d, &mut cs, 0, &proofs[0], key(11), 101, 777);
    assert_eq!(r.unwrap_err(), Errors::InvalidProof);
    assert!(!cs.is_claimed);
    assert_eq!(d.total_claimed, 0);
    assert_eq!(d.num_nodes_claimed, 0);
}

#[test]
fn claim_rejects_when_total_budget_would_be_passed() {
    let entries = [(0u64, key(11), 100u64), (1, key(12), 200), (2, key(13), 300), (3, key(14), 400)];
    let (root, proofs) = four_leaf_tree(&entries);
    // The cap admits the first entry but not the second on top of it.
    let mut d = distributor_with(root, 250, 10);
    let mut cs0 = ClaimStatus::new();
    claim(&mut d, &mut cs0, 0, &proofs[0], key(11), 100, 1).unwrap();

    let mut cs1 = ClaimStatus::new();
    let r = claim(&mut d, &mut cs1, 1, &proofs[1], key(12), 200, 2);
    assert_eq!(r.unwrap_err(), Errors::ExceededMaxTotalClaim);
    assert!(!cs1.is_claimed);
    assert_eq!(d.total_claimed, 100);
    assert_eq!(d.num_nodes_claimed, 1);
}

#[test]
fn claim_rejects_when_node_budget_would_be_passed() {
    let entries = [(0u64, key(11), 100u64), (1, key(12), 200), (2, key(13), 300), (3, key(14), 400)];
    let (root, proofs) = four_leaf_tree(&entries);
    let mut d = distributor_with(root, 1000, 1);
    let mut cs0 = ClaimStatus::new();
    claim(&mut d, &mut cs0, 0, &proofs[0], key(11), 100, 1).unwrap();

    let mut cs1 = ClaimStatus::new();
    let r = claim(&mut d, &mut cs1, 1, &proofs[1], key(12), 200, 2);
    assert_eq!(r.unwrap_err(), Errors::ExceededMaxNumNodes);
    assert!(!cs1.is_claimed);
    assert_eq!(d.total_claimed, 100);
    assert_eq!(d.num_nodes_claimed, 1);
}
