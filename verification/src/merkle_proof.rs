//! Merkle inclusion proofs.
//!
//! A proof is an ordered sequence of 32-byte sibling hashes. Verification
//! folds the proof over the leaf hash, hashing each pair in canonical order
//! (lexicographically smaller operand first), and compares the folded value
//! with the committed root. The digest itself comes from the environment's
//! keccak implementation; everything around it is verified.

use vstd::prelude::*;
use vstd::bytes::spec_u64_to_le_bytes;
use vstd::bytes::u64_to_le_bytes;

verus! {

/// The keccak-256 digest of a byte sequence, as the environment computes it.
pub uninterp spec fn keccak_of(data: Seq<u8>) -> Seq<u8>;

/// Relies on anchor_lang::solana_program::keccak::hash: the keccak-256 digest
/// of the slice, 32 bytes, a function of the input bytes alone.
#[verifier::external_body]
fn keccak_bytes(data: &[u8]) -> (r: [u8; 32])
    ensures
        r@ == keccak_of(data@),
{
    anchor_lang::solana_program::keccak::hash(data).to_bytes()
}

/// Lexicographic order on byte sequences: `a` is less than or equal to `b`.
pub open spec fn lex_le(a: Seq<u8>, b: Seq<u8>) -> bool
    decreases a.len(),
{
    if a.len() == 0 {
        true
    } else if b.len() == 0 {
        false
    } else if a[0] < b[0] {
        true
    } else if a[0] > b[0] {
        false
    } else {
        lex_le(a.skip(1), b.skip(1))
    }
}

/// The hash of an interior node whose children are `a` and `b`, in canonical
/// (lexicographic) order, so that verification needs no left/right bookkeeping.
pub open spec fn node_hash(a: Seq<u8>, b: Seq<u8>) -> Seq<u8> {
    if lex_le(a, b) {
        keccak_of(a + b)
    } else {
        keccak_of(b + a)
    }
}

/// The value a proof folds to, starting from `node` and absorbing the sibling
/// hashes in order.
pub open spec fn fold_proof(node: Seq<u8>, proof: Seq<Seq<u8>>) -> Seq<u8>
    decreases proof.len(),
{
    if proof.len() == 0 {
        node
    } else {
        fold_proof(node_hash(node, proof[0]), proof.skip(1))
    }
}

/// A proof is valid for `leaf` under `root` when it folds to `root`.
pub open spec fn proof_verifies(leaf: Seq<u8>, proof: Seq<Seq<u8>>, root: Seq<u8>) -> bool {
    fold_proof(leaf, proof) == root
}

/// The leaf hash of a claim entry: the digest of the little-endian index,
/// the claimant identity and the little-endian amount, concatenated.
pub open spec fn leaf_hash(index: u64, claimant: Seq<u8>, amount: u64) -> Seq<u8> {
    keccak_of(spec_u64_to_le_bytes(index) + claimant + spec_u64_to_le_bytes(amount))
}

/// Folding one more sibling onto a folded prefix is one more `node_hash` step.
proof fn lemma_fold_proof_push(node: Seq<u8>, proof: Seq<Seq<u8>>, sibling: Seq<u8>)
    ensures
        fold_proof(node, proof.push(sibling)) == node_hash(fold_proof(node, proof), sibling),
    decreases proof.len(),
{
    let extended = proof.push(sibling);
    if proof.len() == 0 {
        assert(extended[0] == sibling);
        assert(extended.skip(1) =~= Seq::<Seq<u8>>::empty());
        assert(fold_proof(node, extended) == fold_proof(node_hash(node, sibling), extended.skip(1)));
        assert(fold_proof(node_hash(node, sibling), extended.skip(1)) == node_hash(node, sibling));
        assert(fold_proof(node, proof) == node);
    } else {
        assert(extended[0] == proof[0]);
        assert(extended.skip(1) =~= proof.skip(1).push(sibling));
        assert(fold_proof(node, extended) == fold_proof(node_hash(node, proof[0]), extended.skip(1)));
        lemma_fold_proof_push(node_hash(node, proof[0]), proof.skip(1), sibling);
        assert(fold_proof(node, proof) == fold_proof(node_hash(node, proof[0]), proof.skip(1)));
    }
}

/// Byte-for-byte equality of two 32-byte hashes.
fn hash_eq(a: &[u8; 32], b: &[u8; 32]) -> (r: bool)
    ensures
        r == (a@ == b@),
{
    let mut i: usize = 0;
    while i < 32
        invariant
            i <= 32,
            forall|j: int| 0 <= j < i ==> a@[j] == b@[j],
        decreases 32 - i,
    {
        if a[i] != b[i] {
            return false;
        }
        i = i + 1;
    }
    proof {
        assert(a@ =~= b@);
    }
    true
}

/// Decides the lexicographic order of two 32-byte hashes.
fn lex_le_exec(a: &[u8; 32], b: &[u8; 32]) -> (r: bool)
    ensures
        r == lex_le(a@, b@),
{
    let mut i: usize = 0;
    proof {
        assert(a@.skip(0) =~= a@);
        assert(b@.skip(0) =~= b@);
    }
    while i < 32
        invariant
            i <= 32,
            forall|j: int| 0 <= j < i ==> a@[j] == b@[j],
            lex_le(a@, b@) == lex_le(a@.skip(i as int), b@.skip(i as int)),
        decreases 32 - i,
    {
        if a[i] < b[i] {
            return true;
        }
        if a[i] > b[i] {
            return false;
        }
        proof {
            assert(a@.skip(i as int)[0] == a@[i as int]);
            assert(b@.skip(i as int)[0] == b@[i as int]);
            assert(a@.skip(i as int).skip(1) =~= a@.skip(i as int + 1));
            assert(b@.skip(i as int).skip(1) =~= b@.skip(i as int + 1));
        }
        i = i + 1;
    }
    proof {
        assert(a@.skip(32) =~= Seq::<u8>::empty());
        assert(b@.skip(32) =~= Seq::<u8>::empty());
    }
    true
}

/// The bytes of `a` followed by the bytes of `b`.
fn concat_bytes(a: &[u8], b: &[u8]) -> (r: Vec<u8>)
    ensures
        r@ == a@ + b@,
{
    let mut r: Vec<u8> = Vec::new();
    let mut i: usize = 0;
    while i < a.len()
        invariant
            i <= a@.len(),
            r@ =~= a@.take(i as int),
        decreases a@.len() - i,
    {
        r.push(a[i]);
        i = i + 1;
    }
    let mut j: usize = 0;
    while j < b.len()
        invariant
            j <= b@.len(),
            r@ =~= a@ + b@.take(j as int),
        decreases b@.len() - j,
    {
        r.push(b[j]);
        j = j + 1;
    }
    proof {
        assert(r@ =~= a@ + b@);
    }
    r
}

/// Hashes a pair of nodes in canonical order.
pub fn hash_pair(a: &[u8; 32], b: &[u8; 32]) -> (r: [u8; 32])
    ensures
        r@ == node_hash(a@, b@),
{
    let bytes = if lex_le_exec(a, b) {
        concat_bytes(a.as_slice(), b.as_slice())
    } else {
        concat_bytes(b.as_slice(), a.as_slice())
    };
    keccak_bytes(bytes.as_slice())
}

/// Hashes the claim entry `(index, claimant, amount)` into its leaf.
pub fn hash_leaf(index: u64, claimant: &crate::state::Pubkey, amount: u64) -> (r: [u8; 32])
    ensures
        r@ == leaf_hash(index, claimant@, amount),
{
    let index_bytes = u64_to_le_bytes(index);
    let amount_bytes = u64_to_le_bytes(amount);
    let head = concat_bytes(index_bytes.as_slice(), claimant.bytes.as_slice());
    let all = concat_bytes(head.as_slice(), amount_bytes.as_slice());
    proof {
        assert(all@ =~= spec_u64_to_le_bytes(index) + claimant@ + spec_u64_to_le_bytes(amount));
    }
    keccak_bytes(all.as_slice())
}

/// Folds `proof` over `leaf` and compares the result with `root`.
pub fn verify(proof: &Vec<[u8; 32]>, root: &[u8; 32], leaf: &[u8; 32]) -> (r: bool)
    ensures
        r == proof_verifies(leaf@, proof.deep_view(), root@),
{
    let mut computed: [u8; 32] = *leaf;
    let mut i: usize = 0;
    proof {
        assert(proof.deep_view().take(0) =~= Seq::<Seq<u8>>::empty());
    }
    while i < proof.len()
        invariant
            i <= proof@.len(),
            proof.deep_view().len() == proof@.len(),
            forall|j: int| 0 <= j < proof@.len() ==> proof.deep_view()[j] == proof@[j]@,
            computed@ == fold_proof(leaf@, proof.deep_view().take(i as int)),
        decreases proof@.len() - i,
    {
        let next = hash_pair(&computed, &proof[i]);
        proof {
            lemma_fold_proof_push(leaf@, proof.deep_view().take(i as int), proof@[i as int]@);
            assert(proof.deep_view().take(i as int).push(proof.deep_view()[i as int])
                =~= proof.deep_view().take(i as int + 1));
        }
        computed = next;
        i = i + 1;
    }
    proof {
        assert(proof.deep_view().take(proof@.len() as int) =~= proof.deep_view());
    }
    hash_eq(&computed, root)
}

} // verus!
