use mining_core::b256::B256;
use mining_core::errors::MiningError;
use mining_core::tree::{DepositHashTree, verify_merkle_proof};

fn word(n: u64) -> B256 {
    B256 { w0: 0, w1: 0, w2: 0, w3: n }
}

#[test]
fn test_root_is_pure_function_of_leaves() {
    let mut a = DepositHashTree::new();
    let mut b = DepositHashTree::new();
    assert_eq!(a.root(), b.root());
    for n in [7u64, 11, 13] {
        a.insert(word(n)).unwrap();
        b.insert(word(n)).unwrap();
        assert_eq!(a.root(), b.root());
    }
}

#[test]
fn test_insert_returns_positions_in_order() {
    let mut t = DepositHashTree::new();
    assert_eq!(t.size(), 0);
    assert_eq!(t.insert(word(1)).unwrap(), 0);
    assert_eq!(t.insert(word(2)).unwrap(), 1);
    assert_eq!(t.insert(word(3)).unwrap(), 2);
    assert_eq!(t.size(), 3);
}

#[test]
fn test_index_of_none_before_and_correct_after() {
    let mut t = DepositHashTree::new();
    let leaf = word(42);
    assert_eq!(t.index_of(&leaf), None);
    t.insert(word(5)).unwrap();
    assert_eq!(t.index_of(&leaf), None);
    let at = t.insert(leaf).unwrap();
    assert_eq!(t.index_of(&leaf), Some(at));
    assert_eq!(at, 1);
}

#[test]
fn test_proof_verifies_against_current_root() {
    let mut t = DepositHashTree::new();
    for n in 0..5u64 {
        t.insert(word(100 + n)).unwrap();
    }
    let root = t.root();
    for n in 0..5u64 {
        let proof = t.prove(n).unwrap();
        assert!(verify_merkle_proof(&word(100 + n), n, &proof, &root));
    }
}

#[test]
fn test_earlier_proof_still_verifies_against_frozen_root() {
    let mut t = DepositHashTree::new();
    t.insert(word(1)).unwrap();
    t.insert(word(2)).unwrap();
    let frozen_root = t.root();
    let frozen_proof = t.prove(1).unwrap();
    t.insert(word(3)).unwrap();
    // The snapshot statement is unchanged by the later append.
    assert!(verify_merkle_proof(&word(2), 1, &frozen_proof, &frozen_root));
    // And a fresh proof verifies against the advanced root.
    let new_proof = t.prove(1).unwrap();
    assert!(verify_merkle_proof(&word(2), 1, &new_proof, &t.root()));
}

#[test]
fn test_three_leaves_scenario() {
    let mut t = DepositHashTree::new();
    let empty_root = t.root();
    t.insert(word(10)).unwrap();
    let r0 = t.root();
    t.insert(word(20)).unwrap();
    let r1 = t.root();
    t.insert(word(30)).unwrap();
    let r2 = t.root();
    assert_ne!(empty_root, r0);
    assert_ne!(r0, r1);
    assert_ne!(r1, r2);
    let proof = t.prove(1).unwrap();
    assert!(verify_merkle_proof(&word(20), 1, &proof, &r2));
    // Against the frozen two-leaf root the three-leaf proof does not verify.
    assert!(!verify_merkle_proof(&word(20), 1, &proof, &r1));
}

#[test]
fn test_prove_index_out_of_range() {
    let mut t = DepositHashTree::new();
    t.insert(word(1)).unwrap();
    t.insert(word(2)).unwrap();
    match t.prove(2) {
        Err(MiningError::IndexOutOfRange) => {}
        other => panic!("expected IndexOutOfRange, got {:?}", other.map(|_| ())),
    }
}

#[test]
fn test_proof_fails_for_wrong_leaf() {
    let mut t = DepositHashTree::new();
    t.insert(word(1)).unwrap();
    t.insert(word(2)).unwrap();
    let root = t.root();
    let proof = t.prove(0).unwrap();
    assert!(verify_merkle_proof(&word(1), 0, &proof, &root));
    assert!(!verify_merkle_proof(&word(9), 0, &proof, &root));
    assert!(!verify_merkle_proof(&word(1), 1, &proof, &root));
}

#[test]
fn test_rehydration_reproduces_root() {
    let mut t = DepositHashTree::new();
    for n in [3u64, 1, 4, 1, 5] {
        t.insert(word(n)).unwrap();
    }
    let persisted = t.leaves();
    let back = DepositHashTree::rehydrate(persisted);
    assert_eq!(back.size(), t.size());
    assert_eq!(back.root(), t.root());
    assert_eq!(back.index_of(&word(4)), t.index_of(&word(4)));
}
