//! The records the engine works on: identities, the owner set, proposed
//! transactions and their instruction bundles.

use vstd::prelude::*;
use crate::errors::Errors;

verus! {

/// A 32-byte identity: an owner, a program target, an account or a mint.
#[derive(Clone, Copy, Debug)]
pub struct Pubkey {
    pub bytes: [u8; 32],
}

impl View for Pubkey {
    type V = Seq<u8>;

    open spec fn view(&self) -> Seq<u8> {
        self.bytes@
    }
}

impl Pubkey {
    pub fn new(bytes: [u8; 32]) -> (r: Pubkey)
        ensures
            r@ == bytes@,
    {
        Pubkey { bytes }
    }

    /// The all-zero identity, the placeholder of an unclaimed claim record.
    pub fn zeroed() -> (r: Pubkey)
        ensures
            r@ == Seq::<u8>::new(32, |i: int| 0u8),
    {
        let bytes: [u8; 32] = [0u8; 32];
        proof {
            assert(bytes@ =~= Seq::<u8>::new(32, |i: int| 0u8));
        }
        Pubkey { bytes }
    }

    /// Byte-for-byte equality of two identities.
    pub fn key_eq(&self, other: &Pubkey) -> (r: bool)
        ensures
            r == (self@ == other@),
    {
        let mut i: usize = 0;
        while i < 32
            invariant
                i <= 32,
                forall|j: int| 0 <= j < i ==> self.bytes@[j] == other.bytes@[j],
            decreases 32 - i,
        {
            if self.bytes[i] != other.bytes[i] {
                proof {
                    assert(self@[i as int] != other@[i as int]);
                }
                return false;
            }
            i = i + 1;
        }
        proof {
            assert(self@ =~= other@);
        }
        true
    }
}

/// An account reference inside a proposed instruction.
#[derive(Clone, Copy, Debug)]
pub struct TransactionAccount {
    pub pubkey: Pubkey,
    pub is_signer: bool,
    pub is_writable: bool,
}

/// One sub-instruction of a transaction's bundle: a target program, its
/// account references and an opaque payload, interpreted by the execution
/// environment, never by this crate.
#[derive(Clone, Debug)]
pub struct Instruction {
    pub program_id: Pubkey,
    pub accounts: Vec<TransactionAccount>,
    pub data: Vec<u8>,
}

/// The owner set: the authorized identities and the approval threshold.
#[derive(Clone, Debug)]
pub struct Multisig {
    pub owners: Vec<Pubkey>,
    pub threshold: u64,
    pub nonce: u8,
    pub owner_set_seqno: u32,
}

/// A proposed, not-yet-executed bundle of sub-instructions plus per-owner
/// approval flags. `signers` has one slot per owner-set position.
#[derive(Clone, Debug)]
pub struct Transaction {
    pub multisig: Pubkey,
    pub program_ids: Vec<Pubkey>,
    pub accounts: Vec<Vec<TransactionAccount>>,
    pub data: Vec<Vec<u8>>,
    pub signers: Vec<bool>,
    pub did_execute: bool,
    pub owner_set_seqno: u32,
}

/// No identity appears twice in `owners`.
pub open spec fn owners_unique(owners: Seq<Pubkey>) -> bool {
    forall|i: int, j: int| 0 <= i < j < owners.len() ==> owners[i]@ != owners[j]@
}

/// `key` is a member of `owners`.
pub open spec fn is_owner(owners: Seq<Pubkey>, key: Seq<u8>) -> bool {
    exists|i: int| 0 <= i < owners.len() && owners[i]@ == key
}

/// The position of the first occurrence of `key` in `owners`; `owners.len()`
/// when `key` is not a member.
pub open spec fn owner_index_spec(owners: Seq<Pubkey>, key: Seq<u8>) -> int
    decreases owners.len(),
{
    if owners.len() == 0 {
        0
    } else if owners[0]@ == key {
        0
    } else {
        1 + owner_index_spec(owners.skip(1), key)
    }
}

/// How many flags of `s` are set.
pub open spec fn count_true(s: Seq<bool>) -> nat
    decreases s.len(),
{
    if s.len() == 0 {
        0
    } else {
        count_true(s.drop_last()) + if s.last() {
            1nat
        } else {
            0nat
        }
    }
}

/// Setting a flag raises the count by one when it was clear and leaves it
/// unchanged when it was already set.
pub proof fn lemma_count_true_update(s: Seq<bool>, i: int)
    requires
        0 <= i < s.len(),
    ensures
        count_true(s.update(i, true)) == count_true(s) + if s[i] {
            0int
        } else {
            1int
        },
    decreases s.len(),
{
    let t = s.update(i, true);
    if i == s.len() - 1 {
        assert(t.drop_last() =~= s.drop_last());
        assert(t.last());
    } else {
        assert(t.drop_last() =~= s.drop_last().update(i, true));
        assert(t.last() == s.last());
        lemma_count_true_update(s.drop_last(), i);
    }
}

/// Scanning past a prefix free of `key` shifts the first-occurrence index.
proof fn lemma_owner_index_prefix(owners: Seq<Pubkey>, key: Seq<u8>, i: int)
    requires
        0 <= i <= owners.len(),
        forall|j: int| 0 <= j < i ==> owners[j]@ != key,
    ensures
        owner_index_spec(owners, key) == i + owner_index_spec(owners.skip(i), key),
    decreases i,
{
    if i == 0 {
        assert(owners.skip(0) =~= owners);
    } else {
        lemma_owner_index_prefix(owners, key, i - 1);
        assert(owners.skip(i - 1)[0] == owners[i - 1]);
        assert(owners.skip(i - 1).skip(1) =~= owners.skip(i));
    }
}

/// The validity of an owner set: non-empty, duplicate-free, and a threshold
/// between one and the member count.
pub open spec fn multisig_wf(ms: Multisig) -> bool {
    &&& ms.owners@.len() > 0
    &&& owners_unique(ms.owners@)
    &&& 1 <= ms.threshold
    &&& ms.threshold <= ms.owners@.len()
}

/// The validity of a transaction record against its owner set: one approval
/// slot per owner, and the three bundle columns of equal length.
pub open spec fn transaction_wf(tx: Transaction, ms: Multisig) -> bool {
    &&& tx.signers@.len() == ms.owners@.len()
    &&& tx.program_ids@.len() == tx.accounts@.len()
    &&& tx.program_ids@.len() == tx.data@.len()
}

/// All record fields of two transactions agree.
pub open spec fn same_transaction(a: Transaction, b: Transaction) -> bool {
    &&& a.multisig@ == b.multisig@
    &&& a.program_ids@ == b.program_ids@
    &&& a.accounts@ == b.accounts@
    &&& a.data@ == b.data@
    &&& a.signers@ == b.signers@
    &&& a.did_execute == b.did_execute
    &&& a.owner_set_seqno == b.owner_set_seqno
}

/// The position of `key` in `owners`, or `None` when it is not a member.
pub fn owner_index(owners: &Vec<Pubkey>, key: &Pubkey) -> (r: Option<usize>)
    ensures
        match r {
            Some(i) => is_owner(owners@, key@) && i == owner_index_spec(owners@, key@)
                && i < owners@.len() && owners@[i as int]@ == key@,
            None => !is_owner(owners@, key@),
        },
{
    let mut i: usize = 0;
    while i < owners.len()
        invariant
            i <= owners@.len(),
            forall|j: int| 0 <= j < i ==> owners@[j]@ != key@,
        decreases owners@.len() - i,
    {
        if owners[i].key_eq(key) {
            proof {
                lemma_owner_index_prefix(owners@, key@, i as int);
                assert(owners@.skip(i as int)[0] == owners@[i as int]);
            }
            return Some(i);
        }
        i = i + 1;
    }
    None
}

/// How many approval flags of `signers` are set.
pub fn count_signers(signers: &Vec<bool>) -> (r: u64)
    ensures
        r == count_true(signers@),
{
    let n = signers.len();
    let mut count: u64 = 0;
    let mut i: usize = 0;
    proof {
        assert(signers@.take(0) =~= Seq::<bool>::empty());
    }
    while i < n
        invariant
            n == signers@.len(),
            i <= n,
            count == count_true(signers@.take(i as int)),
            count <= i,
        decreases n - i,
    {
        proof {
            assert(signers@.take(i as int + 1).drop_last() =~= signers@.take(i as int));
            assert(signers@.take(i as int + 1).last() == signers@[i as int]);
        }
        if signers[i] {
            count = count + 1;
        }
        i = i + 1;
    }
    proof {
        assert(signers@.take(signers@.len() as int) =~= signers@);
    }
    count
}

/// Rejects an owner list with a duplicate identity.
pub fn assert_unique_owners(owners: &Vec<Pubkey>) -> (r: Result<(), Errors>)
    ensures
        r is Ok <==> owners_unique(owners@),
        r is Err ==> r == Err::<(), Errors>(Errors::UniqueOwners),
{
    let mut i: usize = 0;
    while i < owners.len()
        invariant
            i <= owners@.len(),
            forall|p: int, q: int| 0 <= p < q < owners@.len() && p < i ==> owners@[p]@ != owners@[q]@,
        decreases owners@.len() - i,
    {
        let mut j: usize = i + 1;
        while j < owners.len()
            invariant
                i < j,
                j <= owners@.len(),
                i < owners@.len(),
                forall|q: int| i < q < j ==> owners@[i as int]@ != owners@[q]@,
            decreases owners@.len() - j,
        {
            if owners[i].key_eq(&owners[j]) {
                return Err(Errors::UniqueOwners);
            }
            j = j + 1;
        }
        i = i + 1;
    }
    Ok(())
}

/// A cleared approval vector, one slot per owner.
pub fn blank_signers(n: usize) -> (r: Vec<bool>)
    ensures
        r@ =~= Seq::new(n as nat, |i: int| false),
{
    let mut r: Vec<bool> = Vec::new();
    let mut i: usize = 0;
    while i < n
        invariant
            i <= n,
            r@ =~= Seq::new(i as nat, |k: int| false),
        decreases n - i,
    {
        r.push(false);
        proof {
            assert(r@ =~= Seq::new(i as nat + 1, |k: int| false));
        }
        i = i + 1;
    }
    r
}

} // verus!
