use vstd::prelude::*;
use crate::b256::{B256, b256_of_bytes, be8, lemma_b256_of_bytes, lemma_view_injective,
    push_u64_be};

verus! {

/// Domain tags keeping the ledger's distinct hash uses apart.
pub const TAG_SALT: u8 = 1;

pub const TAG_COMMITMENT: u8 = 2;

pub const TAG_LEAF: u8 = 3;

pub const TAG_NODE: u8 = 4;

/// What `ethers::core::utils::keccak256` returns on a byte sequence.
pub uninterp spec fn keccak_of(data: Seq<u8>) -> Seq<u8>;

/// Relies on `ethers::core::utils::keccak256`: the digest is 32 bytes and a
/// function of the input bytes alone.
#[verifier::external_body]
fn keccak256_bytes(data: &Vec<u8>) -> (r: Vec<u8>)
    ensures
        r@ == keccak_of(data@),
        r@.len() == 32,
{
    ethers::core::utils::keccak256(data.as_slice()).to_vec()
}

/// The 256-bit word form of a Keccak digest.
pub open spec fn spec_keccak_word(data: Seq<u8>) -> B256 {
    b256_of_bytes(keccak_of(data))
}

/// Hashes a byte string down to one word.
pub(crate) fn keccak_word(data: &Vec<u8>) -> (h: B256)
    ensures
        h == spec_keccak_word(data@),
{
    let digest = keccak256_bytes(data);
    let h = B256::from_bytes_be(&digest);
    proof {
        lemma_b256_of_bytes(keccak_of(data@));
        lemma_view_injective(h, spec_keccak_word(data@));
    }
    h
}

/// Preimage of the per-nonce salt.
pub open spec fn spec_salt_preimage(secret: Seq<u8>, nonce: u64) -> Seq<u8> {
    seq![TAG_SALT] + secret + be8(nonce)
}

/// The salt bound to a master secret and a derivation nonce: a pure function
/// of the two, with no other randomness source.
pub open spec fn spec_salt(secret: B256, nonce: u64) -> B256 {
    spec_keccak_word(spec_salt_preimage(secret@, nonce))
}

/// Derives the salt for one deposit from the master secret and the nonce.
pub fn derive_salt(secret: &B256, nonce: u64) -> (s: B256)
    ensures
        s == spec_salt(*secret, nonce),
{
    let mut pre: Vec<u8> = Vec::new();
    pre.push(TAG_SALT);
    let mut sb = secret.to_bytes_be();
    pre.append(&mut sb);
    push_u64_be(&mut pre, nonce);
    proof {
        assert(pre@ =~= spec_salt_preimage(secret@, nonce));
    }
    keccak_word(&pre)
}

/// Preimage of the deposit commitment.
pub open spec fn spec_commitment_preimage(pubkey: Seq<u8>, salt: Seq<u8>) -> Seq<u8> {
    seq![TAG_COMMITMENT] + pubkey + salt
}

/// The commitment binding a public key to a salt, recorded on-chain when the
/// deposit is made and recomputed locally at witness time.
pub open spec fn spec_pubkey_salt_hash(pubkey: B256, salt: B256) -> B256 {
    spec_keccak_word(spec_commitment_preimage(pubkey@, salt@))
}

/// Commits to a public key and a salt.
pub fn pubkey_salt_hash(pubkey: &B256, salt: &B256) -> (h: B256)
    ensures
        h == spec_pubkey_salt_hash(*pubkey, *salt),
{
    let mut pre: Vec<u8> = Vec::new();
    pre.push(TAG_COMMITMENT);
    let mut pb = pubkey.to_bytes_be();
    pre.append(&mut pb);
    let mut sb = salt.to_bytes_be();
    pre.append(&mut sb);
    proof {
        assert(pre@ =~= spec_commitment_preimage(pubkey@, salt@));
    }
    keccak_word(&pre)
}

/// The hash of an inner tree node over its two children.
pub open spec fn spec_node_hash(l: B256, r: B256) -> B256 {
    spec_keccak_word(seq![TAG_NODE] + l@ + r@)
}

/// Hashes two sibling nodes into their parent.
pub fn node_hash(l: &B256, r: &B256) -> (h: B256)
    ensures
        h == spec_node_hash(*l, *r),
{
    let mut pre: Vec<u8> = Vec::new();
    pre.push(TAG_NODE);
    let mut lb = l.to_bytes_be();
    pre.append(&mut lb);
    let mut rb = r.to_bytes_be();
    pre.append(&mut rb);
    proof {
        assert(pre@ =~= seq![TAG_NODE] + l@ + r@);
    }
    keccak_word(&pre)
}

} // verus!
