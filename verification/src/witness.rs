use vstd::prelude::*;
use crate::b256::B256;
use crate::errors::MiningError;
use crate::hashing::spec_salt;
use crate::ingest::{DepositedEvent, spec_deposit_leaf_hash, deposit_leaf_hash};
use crate::keys::{AccountKey, spec_valid_secret, spec_pubkey_word, derive_keypair};
use crate::tree::{
    DepositHashTree, MerkleProof, TREE_HEIGHT, spec_root, spec_siblings, spec_fold_path,
    lemma_proof_verifies,
};

verus! {

/// The structured value handed to the external proof engine for one claim:
/// the tree snapshot, the deposit's place in it, and the re-derived secrets
/// binding the on-chain commitment to the local key.
pub struct WithdrawalWitness {
    pub deposit_root: B256,
    pub deposit_index: u64,
    pub deposit_leaf: crate::ingest::DepositLeaf,
    pub deposit_merkle_proof: MerkleProof,
    pub recipient: B256,
    pub pubkey: B256,
    pub salt: B256,
}

/// Builds the withdrawal witness for an already-ingested deposit: looks the
/// leaf up, takes root and membership proof from one consistent snapshot,
/// and re-derives the public key and salt from the secret and the event's
/// original nonce. Fails with `DepositNotIndexed` when the deposit was never
/// ingested, and with `InvalidSecret` when the key's secret is not a valid
/// scalar.
pub fn generate_withdrawa_witness(
    tree: &DepositHashTree,
    key: &AccountKey,
    event: &DepositedEvent,
) -> (r: Result<WithdrawalWitness, MiningError>)
    requires
        tree.wf(),
        key.withdrawal_address is Some,
    ensures
        ({
            let h = spec_deposit_leaf_hash(event.leaf);
            &&& (r is Ok <==> tree@.contains(h) && spec_valid_secret(key.deposit_private_key@))
            &&& !tree@.contains(h) ==> r == Err::<WithdrawalWitness, MiningError>(
                MiningError::DepositNotIndexed,
            )
            &&& tree@.contains(h) && !spec_valid_secret(key.deposit_private_key@) ==> r == Err::<
                WithdrawalWitness,
                MiningError,
            >(MiningError::InvalidSecret)
            &&& r matches Ok(w) ==> {
                &&& w.deposit_root == spec_root(tree@)
                &&& w.deposit_index < tree@.len()
                &&& tree@[w.deposit_index as int] == h
                &&& (forall|j: int| 0 <= j < w.deposit_index ==> tree@[j] != h)
                &&& w.deposit_leaf == event.leaf
                &&& w.deposit_merkle_proof.siblings@ == spec_siblings(
                    tree@,
                    0,
                    TREE_HEIGHT as nat,
                    w.deposit_index as int,
                )
                &&& spec_fold_path(h, w.deposit_index as int, w.deposit_merkle_proof.siblings@)
                    == w.deposit_root
                &&& w.recipient == key.withdrawal_address.unwrap()
                &&& w.pubkey == spec_pubkey_word(key.deposit_private_key)
                &&& w.salt == spec_salt(key.deposit_private_key, event.tx_nonce)
            }
        }),
{
    let h = deposit_leaf_hash(&event.leaf);
    let deposit_index = match tree.index_of(&h) {
        Some(i) => i,
        None => {
            proof {
                if tree@.contains(h) {
                    let w = choose|j: int| 0 <= j < tree@.len() && tree@[j] == h;
                    assert(tree@[w] != h);
                }
            }
            return Err(MiningError::DepositNotIndexed);
        },
    };
    proof {
        assert(tree@.contains(h));
    }
    let deposit_root = tree.root();
    let deposit_merkle_proof = match tree.prove(deposit_index) {
        Ok(p) => p,
        Err(_) => {
            return Err(MiningError::IndexOutOfRange);
        },
    };
    let (pubkey, salt) = match derive_keypair(&key.deposit_private_key, event.tx_nonce) {
        Ok(pair) => pair,
        Err(e) => {
            return Err(e);
        },
    };
    let recipient = match key.withdrawal_address {
        Some(a) => a,
        None => {
            return Err(MiningError::DepositNotIndexed);
        },
    };
    proof {
        tree.lemma_wf_len();
        lemma_proof_verifies(tree@, deposit_index as int);
    }
    Ok(
        WithdrawalWitness {
            deposit_root,
            deposit_index,
            deposit_leaf: event.leaf,
            deposit_merkle_proof,
            recipient,
            pubkey,
            salt,
        },
    )
}

} // verus!
