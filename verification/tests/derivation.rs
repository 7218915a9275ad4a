use mining_core::b256::{B256, u256_as_bytes_be};
use mining_core::errors::MiningError;
use mining_core::hashing::node_hash;
use mining_core::deposit::prepare_deposit;
use mining_core::hashing::pubkey_salt_hash;
use mining_core::keys::{AccountKey, derive_keypair};

fn word(n: u64) -> B256 {
    B256 { w0: 0, w1: 0, w2: 0, w3: n }
}

#[test]
fn test_derive_is_deterministic() {
    let secret = word(1);
    let (pk_a, salt_a) = derive_keypair(&secret, 5).unwrap();
    let (pk_b, salt_b) = derive_keypair(&secret, 5).unwrap();
    assert_eq!(pk_a.to_bytes_be(), pk_b.to_bytes_be());
    assert_eq!(salt_a.to_bytes_be(), salt_b.to_bytes_be());
}

#[test]
fn test_different_nonce_gives_different_salt() {
    let secret = word(1);
    let (pk_5, salt_5) = derive_keypair(&secret, 5).unwrap();
    let (pk_6, salt_6) = derive_keypair(&secret, 6).unwrap();
    assert_eq!(pk_5, pk_6);
    assert_ne!(salt_5, salt_6);
}

#[test]
fn test_zero_secret_is_invalid() {
    let secret = B256::zero();
    match derive_keypair(&secret, 0) {
        Err(MiningError::InvalidSecret) => {}
        other => panic!("expected InvalidSecret, got {:?}", other.map(|_| ())),
    }
}

#[test]
fn test_secret_past_group_order_is_invalid() {
    // Larger than the secp256k1 group order, so no valid scalar.
    let secret = B256 {
        w0: u64::MAX,
        w1: u64::MAX,
        w2: u64::MAX,
        w3: u64::MAX,
    };
    match derive_keypair(&secret, 0) {
        Err(MiningError::InvalidSecret) => {}
        other => panic!("expected InvalidSecret, got {:?}", other.map(|_| ())),
    }
}

#[test]
fn test_derived_pubkey_matches_secp256k1_generator() {
    // The public key of secret 1 is the generator; its x-coordinate is the
    // well-known secp256k1 constant.
    let (pk, _) = derive_keypair(&word(1), 0).unwrap();
    let expected = [
        0x79u8, 0xbe, 0x66, 0x7e, 0xf9, 0xdc, 0xbb, 0xac, 0x55, 0xa0, 0x62, 0x95, 0xce, 0x87,
        0x0b, 0x07, 0x02, 0x9b, 0xfc, 0xdb, 0x2d, 0xce, 0x28, 0xd9, 0x59, 0xf2, 0x81, 0x5b,
        0x16, 0xf8, 0x17, 0x98,
    ];
    assert_eq!(pk.to_bytes_be(), expected.to_vec());
}

#[test]
fn test_node_hash_matches_keccak256() {
    let l = word(1);
    let r = word(2);
    let h = node_hash(&l, &r);
    let mut pre: Vec<u8> = vec![4u8];
    pre.extend_from_slice(&l.to_bytes_be());
    pre.extend_from_slice(&r.to_bytes_be());
    let expected = ethers::core::utils::keccak256(&pre);
    assert_eq!(h.to_bytes_be(), expected.to_vec());
}

#[test]
fn test_u256_as_bytes_be_layout() {
    let v = B256 {
        w0: 0x0102030405060708,
        w1: 0x1112131415161718,
        w2: 0x2122232425262728,
        w3: 0x3132333435363738,
    };
    let bytes = u256_as_bytes_be(&v);
    let expected: Vec<u8> = vec![
        0x01, 0x02, 0x03, 0x04, 0x05, 0x06, 0x07, 0x08, 0x11, 0x12, 0x13, 0x14, 0x15, 0x16,
        0x17, 0x18, 0x21, 0x22, 0x23, 0x24, 0x25, 0x26, 0x27, 0x28, 0x31, 0x32, 0x33, 0x34,
        0x35, 0x36, 0x37, 0x38,
    ];
    assert_eq!(bytes, expected);
    let back = B256::from_bytes_be(&bytes);
    assert_eq!(back, v);
}

#[test]
fn test_prepare_deposit_commitment() {

    let key = AccountKey {
        deposit_private_key: word(1),
        deposit_address: word(500),
        withdrawal_address: None,
    };
    let unit = word(1_000_000);
    let d = prepare_deposit(&key, 9, &unit).unwrap();
    let (pubkey, salt) = derive_keypair(&key.deposit_private_key, 9).unwrap();
    assert_eq!(d.pubkey, pubkey);
    assert_eq!(d.salt, salt);
    assert_eq!(d.pubkey_salt_hash, pubkey_salt_hash(&pubkey, &salt));
    assert_eq!(d.account_nonce, 9);
    assert_eq!(d.mining_unit, unit);
    // The commitment is the tagged keccak of pubkey and salt.
    let mut pre: Vec<u8> = vec![2u8];
    pre.extend_from_slice(&pubkey.to_bytes_be());
    pre.extend_from_slice(&salt.to_bytes_be());
    let expected = ethers::core::utils::keccak256(&pre);
    assert_eq!(d.pubkey_salt_hash.to_bytes_be(), expected.to_vec());
}

#[test]
fn test_prepare_deposit_invalid_secret() {

    let key = AccountKey {
        deposit_private_key: B256::zero(),
        deposit_address: word(500),
        withdrawal_address: None,
    };
    match prepare_deposit(&key, 9, &word(1)) {
        Err(MiningError::InvalidSecret) => {}
        other => panic!("expected InvalidSecret, got {:?}", other.map(|_| ())),
    }
}
