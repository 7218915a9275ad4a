use mining_core::b256::B256;
use mining_core::errors::MiningError;
use mining_core::ingest::{DepositLeaf, DepositedEvent, ingest_deposit};
use mining_core::keys::{AccountKey, derive_keypair};
use mining_core::lifecycle::{PollStatus, Receipt, ReceiptPoll, poll_transaction};
use mining_core::session::{MinerState, RunMode, cycle_plan};
use mining_core::tree::{DepositHashTree, verify_merkle_proof};
use mining_core::witness::generate_withdrawa_witness;

fn word(n: u64) -> B256 {
    B256 { w0: 0, w1: 0, w2: 0, w3: n }
}

fn sample_event(nonce: u64) -> DepositedEvent {
    DepositedEvent {
        sender: word(900),
        leaf: DepositLeaf {
            pubkey_salt_hash: word(70 + nonce),
            token_index: 0,
            amount: word(1000),
        },
        tx_nonce: nonce,
    }
}

#[test]
fn test_poll_times_out_after_exactly_three_attempts() {
    let tx = word(77);
    let script: Vec<Option<Receipt>> = vec![None, None, None];
    let p = poll_transaction(tx, 3, &script);
    assert_eq!(p.status, PollStatus::TimedOut);
    assert_eq!(p.attempts, 3);
    match p.outcome() {
        Some(Err(MiningError::ConfirmationTimeout { tx_id })) => assert_eq!(tx_id, tx),
        other => panic!("expected ConfirmationTimeout, got {:?}", other),
    }
    // Two misses are not enough to time out.
    let early: Vec<Option<Receipt>> = vec![None, None];
    let q = poll_transaction(tx, 3, &early);
    assert_eq!(q.status, PollStatus::Pending);
    assert_eq!(q.attempts, 2);
    assert_eq!(q.outcome(), None);
    // Further misses past the timeout change nothing: never more than three.
    let longer: Vec<Option<Receipt>> = vec![None, None, None, None, None];
    let r = poll_transaction(tx, 3, &longer);
    assert_eq!(r.status, PollStatus::TimedOut);
    assert_eq!(r.attempts, 3);
}

#[test]
fn test_poll_confirms_on_receipt() {
    let tx = word(78);
    let receipt = Receipt { tx_hash: tx, block_number: 11, success: true };
    let script: Vec<Option<Receipt>> = vec![None, Some(receipt), None];
    let p = poll_transaction(tx, 20, &script);
    assert_eq!(p.status, PollStatus::Confirmed { receipt });
    assert_eq!(p.attempts, 1);
    assert_eq!(p.outcome(), Some(Ok(receipt)));
}

#[test]
fn test_poll_step_by_step() {
    let mut p = ReceiptPoll::new(word(5), 2);
    p.step(None);
    assert_eq!(p.status, PollStatus::Pending);
    assert_eq!(p.attempts, 1);
    p.step(None);
    assert_eq!(p.status, PollStatus::TimedOut);
    assert_eq!(p.attempts, 2);
}

#[test]
fn test_ingest_is_idempotent() {
    let mut tree = DepositHashTree::new();
    let event = sample_event(3);
    let first = ingest_deposit(&mut tree, &event).unwrap();
    let size = tree.size();
    let root = tree.root();
    let again = ingest_deposit(&mut tree, &event).unwrap();
    assert_eq!(first, again);
    assert_eq!(tree.size(), size);
    assert_eq!(tree.root(), root);
}

#[test]
fn test_ingest_orders_events() {
    let mut tree = DepositHashTree::new();
    assert_eq!(ingest_deposit(&mut tree, &sample_event(0)).unwrap(), 0);
    assert_eq!(ingest_deposit(&mut tree, &sample_event(1)).unwrap(), 1);
    assert_eq!(ingest_deposit(&mut tree, &sample_event(0)).unwrap(), 0);
    assert_eq!(tree.size(), 2);
}

#[test]
fn test_witness_for_never_ingested_deposit() {
    let tree = DepositHashTree::new();
    let key = AccountKey {
        deposit_private_key: word(1),
        deposit_address: word(500),
        withdrawal_address: Some(word(600)),
    };
    match generate_withdrawa_witness(&tree, &key, &sample_event(3)) {
        Err(MiningError::DepositNotIndexed) => {}
        other => panic!("expected DepositNotIndexed, got {:?}", other.map(|_| ())),
    }
}

#[test]
fn test_witness_binds_tree_and_rederived_secrets() {
    let mut tree = DepositHashTree::new();
    let event = sample_event(3);
    ingest_deposit(&mut tree, &sample_event(9)).unwrap();
    let index = ingest_deposit(&mut tree, &event).unwrap();
    let key = AccountKey {
        deposit_private_key: word(1),
        deposit_address: word(500),
        withdrawal_address: Some(word(600)),
    };
    let w = generate_withdrawa_witness(&tree, &key, &event).unwrap();
    assert_eq!(w.deposit_root, tree.root());
    assert_eq!(w.deposit_index, index);
    assert_eq!(w.recipient, word(600));
    // The witness's salt is exactly the one derived at deposit time from the
    // same secret and the event's original nonce.
    let (pubkey, salt) = derive_keypair(&key.deposit_private_key, event.tx_nonce).unwrap();
    assert_eq!(w.salt, salt);
    assert_eq!(w.pubkey, pubkey);
    // Its membership proof verifies against its root.
    let leaf_hash = mining_core::ingest::deposit_leaf_hash(&event.leaf);
    assert!(verify_merkle_proof(&leaf_hash, w.deposit_index, &w.deposit_merkle_proof,
        &w.deposit_root));
}

#[test]
fn test_witness_with_invalid_secret() {
    let mut tree = DepositHashTree::new();
    let event = sample_event(3);
    ingest_deposit(&mut tree, &event).unwrap();
    let key = AccountKey {
        deposit_private_key: B256::zero(),
        deposit_address: word(500),
        withdrawal_address: Some(word(600)),
    };
    match generate_withdrawa_witness(&tree, &key, &event) {
        Err(MiningError::InvalidSecret) => {}
        other => panic!("expected InvalidSecret, got {:?}", other.map(|_| ())),
    }
}

#[test]
fn test_cycle_plan_decisions() {
    for (mode, prover, pause) in [
        (RunMode::Mining, true, false),
        (RunMode::Claim, true, true),
        (RunMode::Exit, true, true),
        (RunMode::Export, false, true),
        (RunMode::CheckUpdate, false, true),
    ] {
        let plan = cycle_plan(mode, true);
        assert_eq!(plan.needs_prover, prover);
        assert_eq!(plan.pause_after, pause);
        assert!(plan.continue_after);
        assert!(!cycle_plan(mode, false).continue_after);
    }
}

#[test]
fn test_miner_state_prover_initialization() {
    let mut s = MinerState::new();
    assert!(!s.prover_ready);
    assert_eq!(s.deposit_hash_tree.size(), 0);
    s.initialize_prover();
    assert!(s.prover_ready);
    s.initialize_prover();
    assert!(s.prover_ready);
}

#[test]
fn test_error_labels() {
    assert_eq!(MiningError::InvalidSecret.label(), "invalid secret");
    assert_eq!(MiningError::TreeFull.label(), "tree full");
    assert_eq!(MiningError::IndexOutOfRange.label(), "index out of range");
    assert_eq!(MiningError::DepositNotIndexed.label(), "deposit not indexed");
    assert_eq!(
        MiningError::ConfirmationTimeout { tx_id: word(1) }.label(),
        "confirmation timeout"
    );
    assert_eq!(MiningError::NetworkError.label(), "network error");
}
