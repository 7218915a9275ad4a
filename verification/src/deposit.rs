use vstd::prelude::*;
use crate::b256::B256;
use crate::errors::MiningError;
use crate::hashing::{spec_salt, spec_pubkey_salt_hash, pubkey_salt_hash};
use crate::keys::{AccountKey, spec_valid_secret, spec_pubkey_word, derive_keypair};

verus! {

/// Everything one deposit call needs: the commitment that goes on-chain,
/// the value to attach, and the account nonce the transaction must carry.
pub struct DepositRequest {
    pub pubkey: B256,
    pub salt: B256,
    pub pubkey_salt_hash: B256,
    pub account_nonce: u64,
    pub mining_unit: B256,
}

/// Computes the commitment side of one deposit: re-derives the public key
/// and the per-nonce salt from the key's secret and binds them into the
/// commitment the contract records. The caller fetches `account_nonce` from
/// the chain right before this call, and submits the result exactly once.
pub fn prepare_deposit(key: &AccountKey, account_nonce: u64, mining_unit: &B256) -> (r: Result<
    DepositRequest,
    MiningError,
>)
    ensures
        r is Ok <==> spec_valid_secret(key.deposit_private_key@),
        r is Err ==> r == Err::<DepositRequest, MiningError>(MiningError::InvalidSecret),
        r matches Ok(d) ==> {
            &&& d.pubkey == spec_pubkey_word(key.deposit_private_key)
            &&& d.salt == spec_salt(key.deposit_private_key, account_nonce)
            &&& d.pubkey_salt_hash == spec_pubkey_salt_hash(
                spec_pubkey_word(key.deposit_private_key),
                spec_salt(key.deposit_private_key, account_nonce),
            )
            &&& d.account_nonce == account_nonce
            &&& d.mining_unit == *mining_unit
        },
{
    let (pubkey, salt) = match derive_keypair(&key.deposit_private_key, account_nonce) {
        Ok(pair) => pair,
        Err(e) => {
            return Err(e);
        },
    };
    let commitment = pubkey_salt_hash(&pubkey, &salt);
    Ok(
        DepositRequest {
            pubkey,
            salt,
            pubkey_salt_hash: commitment,
            account_nonce,
            mining_unit: *mining_unit,
        },
    )
}

} // verus!
