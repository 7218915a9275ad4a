use vstd::prelude::*;
use crate::b256::{B256, b256_of_bytes, lemma_b256_of_bytes, lemma_view_injective};
use crate::errors::MiningError;
use crate::hashing::{spec_salt, derive_salt};

verus! {

/// One mining cycle's key material: the master secret, the address deposits
/// are issued from, and the optional address withdrawals are sent to.
#[derive(Clone, Copy, Debug)]
pub struct AccountKey {
    pub deposit_private_key: B256,
    pub deposit_address: B256,
    pub withdrawal_address: Option<B256>,
}

/// Whether 32 big-endian bytes decode to a valid nonzero secret scalar of
/// the secp256k1 group.
pub uninterp spec fn spec_valid_secret(secret: Seq<u8>) -> bool;

/// The 32-byte x-coordinate of the public key derived from a valid secret.
pub uninterp spec fn spec_pubkey_of(secret: Seq<u8>) -> Seq<u8>;

/// Relies on `k256::SecretKey::from_slice` (re-exported by ethers), which
/// accepts exactly the 32-byte encodings of valid nonzero secret scalars,
/// and on `SecretKey::public_key` with the compressed SEC1 encoding, whose
/// bytes 1..33 are the public key's x-coordinate. Both results are functions
/// of the secret bytes alone.
#[verifier::external_body]
fn secp_pubkey_x(secret: &Vec<u8>) -> (r: Option<Vec<u8>>)
    requires
        secret@.len() == 32,
    ensures
        r is Some <==> spec_valid_secret(secret@),
        r matches Some(v) ==> v@ == spec_pubkey_of(secret@) && v@.len() == 32,
{
    match ethers::core::k256::SecretKey::from_slice(secret.as_slice()) {
        Ok(sk) => {
            let point = ethers::core::k256::elliptic_curve::sec1::ToEncodedPoint::to_encoded_point(
                &sk.public_key(),
                true,
            );
            Some(point.as_bytes()[1..33].to_vec())
        },
        Err(_) => None,
    }
}

/// The derived public key as one 256-bit word.
pub open spec fn spec_pubkey_word(secret: B256) -> B256 {
    b256_of_bytes(spec_pubkey_of(secret@))
}

/// Deterministically derives the public key and the per-nonce salt from the
/// master secret: the same secret and nonce always yield the same pair, with
/// no other randomness source. Fails with `InvalidSecret` exactly when the
/// secret is not a valid scalar.
pub fn derive_keypair(secret: &B256, nonce: u64) -> (r: Result<(B256, B256), MiningError>)
    ensures
        r is Ok <==> spec_valid_secret(secret@),
        r matches Ok(p) ==> p.0 == spec_pubkey_word(*secret) && p.1 == spec_salt(
            *secret,
            nonce,
        ),
        r is Err ==> r == Err::<(B256, B256), MiningError>(MiningError::InvalidSecret),
{
    let sb = secret.to_bytes_be();
    match secp_pubkey_x(&sb) {
        Some(pk) => {
            let pubkey = B256::from_bytes_be(&pk);
            proof {
                lemma_b256_of_bytes(spec_pubkey_of(secret@));
                lemma_view_injective(pubkey, spec_pubkey_word(*secret));
            }
            let salt = derive_salt(secret, nonce);
            Ok((pubkey, salt))
        },
        None => Err(MiningError::InvalidSecret),
    }
}

} // verus!
