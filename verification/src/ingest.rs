use vstd::prelude::*;
use crate::b256::{B256, be8, push_u64_be};
use crate::errors::MiningError;
use crate::hashing::{TAG_LEAF, spec_keccak_word, keccak_word};
use crate::tree::{DepositHashTree, TREE_CAPACITY};

verus! {

/// The on-chain record one deposit leaves behind: the commitment to the
/// depositor's public key and salt, the token deposited, and the amount.
#[derive(Clone, Copy, Debug)]
pub struct DepositLeaf {
    pub pubkey_salt_hash: B256,
    pub token_index: u32,
    pub amount: B256,
}

/// A deposit event as the chain's event source hands it over: the sender,
/// the deposit record, and the account nonce of the issuing transaction.
#[derive(Clone, Copy, Debug)]
pub struct DepositedEvent {
    pub sender: B256,
    pub leaf: DepositLeaf,
    pub tx_nonce: u64,
}

/// Preimage of a deposit's tree leaf.
pub open spec fn spec_leaf_preimage(leaf: DepositLeaf) -> Seq<u8> {
    seq![TAG_LEAF] + leaf.pubkey_salt_hash@ + be8(leaf.token_index as u64) + leaf.amount@
}

/// The tree leaf standing for one observed deposit.
pub open spec fn spec_deposit_leaf_hash(leaf: DepositLeaf) -> B256 {
    spec_keccak_word(spec_leaf_preimage(leaf))
}

/// Hashes a deposit record down to its tree leaf.
pub fn deposit_leaf_hash(leaf: &DepositLeaf) -> (h: B256)
    ensures
        h == spec_deposit_leaf_hash(*leaf),
{
    let mut pre: Vec<u8> = Vec::new();
    pre.push(TAG_LEAF);
    let mut cb = leaf.pubkey_salt_hash.to_bytes_be();
    pre.append(&mut cb);
    push_u64_be(&mut pre, leaf.token_index as u64);
    let mut ab = leaf.amount.to_bytes_be();
    pre.append(&mut ab);
    proof {
        assert(pre@ =~= spec_leaf_preimage(*leaf));
    }
    keccak_word(&pre)
}

/// The leaf list after ingesting a deposit whose leaf hash is `h`.
pub open spec fn spec_ingest(leaves: Seq<B256>, h: B256) -> Seq<B256> {
    if leaves.contains(h) {
        leaves
    } else {
        leaves.push(h)
    }
}

/// Ingests one observed deposit: recomputes its leaf hash and appends it to
/// the ledger unless it is already present, returning the leaf's index
/// either way. The leaf list and the reverse lookup move in one atomic step.
pub fn ingest_deposit(tree: &mut DepositHashTree, event: &DepositedEvent) -> (r: Result<
    u64,
    MiningError,
>)
    requires
        old(tree).wf(),
    ensures
        final(tree).wf(),
        ({
            let h = spec_deposit_leaf_hash(event.leaf);
            let before = old(tree)@;
            &&& (before.contains(h) || before.len() < TREE_CAPACITY) ==> final(tree)@
                == spec_ingest(before, h)
            &&& before.contains(h) ==> (r matches Ok(i) && i < before.len() && before[
                i as int
            ] == h)
            &&& !before.contains(h) && before.len() < TREE_CAPACITY ==> r == Ok::<
                u64,
                MiningError,
            >(before.len() as u64)
            &&& !before.contains(h) && before.len() == TREE_CAPACITY ==> r == Err::<
                u64,
                MiningError,
            >(MiningError::TreeFull) && final(tree)@ == before
        }),
{
    let h = deposit_leaf_hash(&event.leaf);
    match tree.index_of(&h) {
        Some(i) => {
            proof {
                assert(tree@.contains(h));
            }
            Ok(i)
        },
        None => {
            proof {
                if tree@.contains(h) {
                    let w = choose|j: int| 0 <= j < tree@.len() && tree@[j] == h;
                    assert(tree@[w] != h);
                }
            }
            tree.insert(h)
        },
    }
}

/// Ingestion is idempotent: re-ingesting a leaf already in the ledger leaves
/// the leaf list, and with it the root, unchanged.
pub proof fn lemma_ingest_idempotent(leaves: Seq<B256>, h: B256)
    ensures
        spec_ingest(spec_ingest(leaves, h), h) == spec_ingest(leaves, h),
        crate::tree::spec_root(spec_ingest(spec_ingest(leaves, h), h)) == crate::tree::spec_root(
            spec_ingest(leaves, h),
        ),
{
    if !leaves.contains(h) {
        assert(leaves.push(h)[leaves.len() as int] == h);
        assert(leaves.push(h).contains(h));
    }
}

} // verus!
