use ethers::signers::{LocalWallet, Signer};
use sequencer::{
    AccountState, Address, AppState, BatchConfig, BatchOrchestrator, ConfirmationStatus,
    ForcedEventType, ForcedQueue, ForcedTransaction, H256, Registry, SchedulingPolicyType,
    SealTimer, Signature, StateCache, Transaction, TransactionPool, UserTransaction,
    ValidationError, Validator, U256,
};

fn u256_from_ethers(x: ethers::types::U256) -> U256 {
    let mut b = [0u8; 32];
    x.to_big_endian(&mut b);
    let mut hi = [0u8; 16];
    let mut lo = [0u8; 16];
    hi.copy_from_slice(&b[..16]);
    lo.copy_from_slice(&b[16..]);
    U256::from_halves(u128::from_be_bytes(hi), u128::from_be_bytes(lo))
}

fn wallet() -> LocalWallet {
    LocalWallet::from_bytes(&[7u8; 32]).unwrap()
}

fn sender(w: &LocalWallet) -> Address {
    Address { bytes: w.address().0 }
}

fn unsigned_tx(from: Address, nonce: u64, value: u64, gas_price: u64) -> UserTransaction {
    UserTransaction {
        from,
        to: Address { bytes: [9u8; 20] },
        value: U256::from(value),
        nonce,
        gas_price: U256::from(gas_price),
        gas_limit: 21000,
        signature: Signature::default(),
        timestamp: 1000 + nonce,
        boost_bid: None,
    }
}

fn sign(w: &LocalWallet, mut tx: UserTransaction) -> UserTransaction {
    let h = tx.hash();
    let sig = w.sign_hash(ethers::types::H256(h.bytes)).unwrap();
    tx.signature = Signature { r: u256_from_ethers(sig.r), s: u256_from_ethers(sig.s), v: sig.v };
    tx
}

fn funded_app(addr: Address, balance: u64) -> AppState {
    let mut app = AppState::new(StateCache::new());
    app.upsert_account(AccountState { address: addr, balance: U256::from(balance), nonce: 0 });
    app
}

fn user_tx(nonce: u64, gas_price: u64, gas_limit: u64) -> UserTransaction {
    let mut tx = unsigned_tx(Address::zero(), nonce, 1, gas_price);
    tx.gas_limit = gas_limit;
    tx
}

fn forced_tx(nonce: u64, gas_limit: u64) -> ForcedTransaction {
    ForcedTransaction {
        tx_hash: H256::zero(),
        from: Address::zero(),
        to: Address::zero(),
        value: U256::from(5),
        nonce,
        gas_limit,
        l1_tx_hash: H256::zero(),
        l1_block_number: 7,
        event_type: ForcedEventType::ForcedExit,
        timestamp: 0,
    }
}

fn config(max_batch_size: usize, max_gas_limit: u64) -> BatchConfig {
    BatchConfig { max_batch_size, timeout_interval_ms: 50, min_batch_size: 1, max_gas_limit }
}

fn nonces_of(txs: &[Transaction]) -> Vec<u64> {
    txs.iter()
        .map(|t| match t {
            Transaction::Normal(u) => u.nonce,
            Transaction::Forced(f) => f.nonce,
        })
        .collect()
}

#[test]
fn nonce_sequencing_accepts_consecutive_nonces() {
    let w = wallet();
    let a = sender(&w);
    let mut app = funded_app(a, 1_000_000_000_000_000_000);
    for n in 0..3u64 {
        let c = app.submit(sign(&w, unsigned_tx(a, n, 1, 1)));
        assert!(matches!(c.status, ConfirmationStatus::Accepted));
    }
    assert_eq!(app.state_cache().get_nonce(&a), Some(3));
}

#[test]
fn nonce_replay_is_rejected_with_expected_and_got() {
    let w = wallet();
    let a = sender(&w);
    let mut app = funded_app(a, 1_000_000_000_000_000_000);
    for n in 0..3u64 {
        app.submit(sign(&w, unsigned_tx(a, n, 1, 1)));
    }
    let replay = sign(&w, unsigned_tx(a, 1, 1, 1));
    let c = app.submit(replay);
    match c.status {
        ConfirmationStatus::Rejected { reason } => {
            assert_eq!(reason, "Invalid nonce: expected 3, got 1")
        }
        _ => panic!("replayed nonce was accepted"),
    }
    assert_eq!(app.state_cache().get_nonce(&a), Some(3));
}

#[test]
fn signed_transaction_passes_and_mutated_one_fails_signature_check() {
    let w = wallet();
    let a = sender(&w);
    let mut cache = StateCache::new();
    cache.update(AccountState { address: a, balance: U256::from(1_000_000), nonce: 0 });
    let tx = sign(&w, unsigned_tx(a, 0, 1, 1));
    let validator = Validator::new(cache);
    assert_eq!(validator.validate(&tx), Ok(()));
    let mut changed_value = tx;
    changed_value.value = U256::from(2);
    assert_eq!(validator.validate(&changed_value), Err(ValidationError::InvalidSignature));
    let mut changed_bid = tx;
    changed_bid.boost_bid = Some(U256::from(1));
    assert_eq!(validator.validate(&changed_bid), Err(ValidationError::InvalidSignature));
    let mut changed_gas_limit = tx;
    changed_gas_limit.gas_limit = 99;
    assert_eq!(validator.validate(&changed_gas_limit), Ok(()));
}

#[test]
fn validator_reports_nonce_mismatch() {
    let w = wallet();
    let a = sender(&w);
    let mut cache = StateCache::new();
    cache.update(AccountState { address: a, balance: U256::from(1_000_000), nonce: 3 });
    let validator = Validator::new(cache);
    let replay = sign(&w, unsigned_tx(a, 1, 1, 1));
    assert_eq!(validator.validate(&replay), Err(ValidationError::InvalidNonce { expected: 3, got: 1 }));
    let gap = sign(&w, unsigned_tx(a, 4, 1, 1));
    assert_eq!(validator.validate(&gap), Err(ValidationError::InvalidNonce { expected: 3, got: 4 }));
    let next = sign(&w, unsigned_tx(a, 3, 1, 1));
    assert_eq!(validator.validate(&next), Ok(()));
}

#[test]
fn insufficient_balance_reports_required_and_available() {
    let w = wallet();
    let a = sender(&w);
    let mut app = funded_app(a, 21_000);
    let c = app.submit(sign(&w, unsigned_tx(a, 0, 1, 1)));
    match c.status {
        ConfirmationStatus::Rejected { reason } => {
            assert_eq!(reason, "Insufficient balance: required 21001, available 21000")
        }
        _ => panic!("underfunded transaction was accepted"),
    }
    assert_eq!(app.state_cache().get_nonce(&a), Some(0));
}

#[test]
fn wrong_sender_is_an_invalid_signature() {
    let w = wallet();
    let a = sender(&w);
    let mut app = funded_app(Address::zero(), 1_000_000);
    let mut tx = unsigned_tx(a, 0, 1, 1);
    tx = sign(&w, tx);
    tx.from = Address::zero();
    let c = app.submit(tx);
    match c.status {
        ConfirmationStatus::Rejected { reason } => assert_eq!(reason, "Invalid transaction signature"),
        _ => panic!("transaction from another sender was accepted"),
    }
}

#[test]
fn confirmation_carries_the_canonical_hash() {
    let w = wallet();
    let a = sender(&w);
    let mut app = funded_app(a, 1_000_000);
    let tx = sign(&w, unsigned_tx(a, 0, 1, 1));
    let expected = ethers::utils::keccak256(tx.hash_input());
    let c = app.submit_at(tx, 42);
    assert_eq!(c.tx_hash.bytes, expected);
    assert_eq!(c.timestamp, 42);
    assert_ne!(c.tx_hash.bytes.to_vec(), tx.hash_input()[..32].to_vec());
}

#[test]
fn hash_input_layout_is_big_endian_fields_in_order() {
    let mut tx = unsigned_tx(Address { bytes: [1u8; 20] }, 0x0102, 0x0a0b, 3);
    tx.timestamp = 5;
    tx.boost_bid = Some(U256::from(6));
    let input = tx.hash_input();
    assert_eq!(input.len(), 152);
    assert_eq!(&input[0..20], &[1u8; 20]);
    assert_eq!(&input[20..40], &[9u8; 20]);
    assert_eq!(&input[70..72], &[0x0a, 0x0b]);
    assert_eq!(&input[72..80], &[0, 0, 0, 0, 0, 0, 1, 2]);
    assert_eq!(input[111], 3);
    assert_eq!(input[119], 5);
    assert_eq!(input[151], 6);
}

#[test]
fn forced_first_then_fee_priority_normals() {
    let mut orch = BatchOrchestrator::new(config(100, 1_000_000), SchedulingPolicyType::FeePriority);
    let mut fq = ForcedQueue::new();
    let mut pool = TransactionPool::new();
    fq.add(forced_tx(100, 21000));
    fq.add(forced_tx(101, 21000));
    pool.add(user_tx(1, 1000, 21000));
    pool.add(user_tx(2, 500, 21000));
    let batch = orch.produce_batch_at(&mut fq, &mut pool, 9).unwrap();
    assert_eq!(nonces_of(&batch.transactions), vec![100, 101, 1, 2]);
    assert!(matches!(batch.transactions[0], Transaction::Forced(_)));
    assert!(matches!(batch.transactions[1], Transaction::Forced(_)));
    assert!(matches!(batch.transactions[2], Transaction::Normal(_)));
    assert_eq!(batch.batch_id, 1);
    assert_eq!(batch.timestamp, 9);
    assert_eq!(batch.prev_state_root, H256::zero());
}

#[test]
fn fee_priority_reorders_normals_after_gas_gate() {
    let mut orch = BatchOrchestrator::new(config(100, 1_000_000), SchedulingPolicyType::FeePriority);
    let mut fq = ForcedQueue::new();
    let mut pool = TransactionPool::new();
    pool.add(user_tx(1, 10, 21000));
    pool.add(user_tx(2, 500, 21000));
    fq.add(forced_tx(100, 21000));
    let batch = orch.produce_batch_at(&mut fq, &mut pool, 0).unwrap();
    assert_eq!(nonces_of(&batch.transactions), vec![100, 2, 1]);
}

#[test]
fn gas_gate_stops_at_first_overflow() {
    let mut orch = BatchOrchestrator::new(config(100, 100_000), SchedulingPolicyType::Fcfs);
    let mut fq = ForcedQueue::new();
    let mut pool = TransactionPool::new();
    pool.add(user_tx(1, 1, 40000));
    pool.add(user_tx(2, 1, 40000));
    pool.add(user_tx(3, 1, 30000));
    pool.add(user_tx(4, 1, 10000));
    let batch = orch.produce_batch_at(&mut fq, &mut pool, 0).unwrap();
    assert_eq!(nonces_of(&batch.transactions), vec![1, 2]);
    let gas: u64 = batch.transactions.iter().map(|t| t.gas_limit()).sum();
    assert_eq!(gas, 80000);
    assert_eq!(pool.len(), 0);
}

#[test]
fn forced_that_overflow_gas_are_dropped() {
    let mut orch = BatchOrchestrator::new(config(100, 50_000), SchedulingPolicyType::Fcfs);
    let mut fq = ForcedQueue::new();
    let mut pool = TransactionPool::new();
    fq.add(forced_tx(1, 30000));
    fq.add(forced_tx(2, 30000));
    fq.add(forced_tx(3, 20000));
    pool.add(user_tx(4, 1, 1));
    let batch = orch.produce_batch_at(&mut fq, &mut pool, 0).unwrap();
    assert_eq!(nonces_of(&batch.transactions), vec![1, 3]);
    assert_eq!(fq.len(), 0);
    assert_eq!(pool.len(), 0);
}

#[test]
fn count_cap_leaves_rest_in_pool() {
    let mut orch = BatchOrchestrator::new(config(3, 1_000_000), SchedulingPolicyType::Fcfs);
    let mut fq = ForcedQueue::new();
    let mut pool = TransactionPool::new();
    fq.add(forced_tx(10, 1));
    for n in 1..=4u64 {
        pool.add(user_tx(n, 1, 1));
    }
    let batch = orch.produce_batch_at(&mut fq, &mut pool, 0).unwrap();
    assert_eq!(nonces_of(&batch.transactions), vec![10, 1, 2]);
    assert_eq!(pool.len(), 2);
    let next = orch.produce_batch_at(&mut fq, &mut pool, 0).unwrap();
    assert_eq!(nonces_of(&next.transactions), vec![3, 4]);
}

#[test]
fn batch_ids_count_up_without_gaps() {
    let mut orch = BatchOrchestrator::new(config(10, 1_000_000), SchedulingPolicyType::Fcfs);
    let mut fq = ForcedQueue::new();
    let mut pool = TransactionPool::new();
    let mut ids = Vec::new();
    for n in 0..3u64 {
        pool.add(user_tx(n, 1, 1));
        ids.push(orch.produce_batch_at(&mut fq, &mut pool, 0).unwrap().batch_id);
        assert!(orch.produce_batch_at(&mut fq, &mut pool, 0).is_none());
    }
    assert_eq!(ids, vec![1, 2, 3]);
    assert_eq!(orch.next_batch_id(), 4);
}

#[test]
fn empty_queues_produce_nothing_and_timer_still_advances() {
    let mut orch = BatchOrchestrator::new(config(10, 1_000_000), SchedulingPolicyType::Fcfs);
    let mut fq = ForcedQueue::new();
    let mut pool = TransactionPool::new();
    let mut timer = SealTimer::new(50, 0);
    let mut sealed = 0;
    let mut now = 0u64;
    while now < 200 {
        now += 100;
        if timer.is_due(now) {
            let produced = orch.produce_batch_at(&mut fq, &mut pool, now);
            if produced.is_some() {
                sealed += 1;
            }
            timer.record_attempt(false, now);
        }
    }
    assert_eq!(sealed, 0);
    assert_eq!(timer.last_seal_ms, 200);
    assert!(!timer.is_due(230));
    assert!(timer.is_due(250));
    timer.record_attempt(true, 300);
    assert_eq!(timer.last_seal_ms, 200);
}

#[test]
fn metadata_counts_forced_entries_and_names_policy() {
    let mut orch = BatchOrchestrator::new(
        config(10, 1_000_000),
        SchedulingPolicyType::TimeBoost { time_window_ms: 5000 },
    );
    let mut fq = ForcedQueue::new();
    let mut pool = TransactionPool::new();
    fq.add(forced_tx(1, 1));
    pool.add(user_tx(2, 1, 1));
    pool.add(user_tx(3, 1, 1));
    let batch = orch.produce_batch_at(&mut fq, &mut pool, 77).unwrap();
    let meta = orch.metadata(&batch);
    assert_eq!(meta.tx_count, 3);
    assert_eq!(meta.forced_tx_count, 1);
    assert_eq!(meta.timestamp, 77);
    assert_eq!(meta.scheduling_policy, "TimeBoost");
    let mut registry = Registry::new();
    registry.store(meta);
    assert_eq!(registry.len(), 1);
}

#[test]
fn state_cache_defaults_without_inserting_and_increments() {
    let mut cache = StateCache::new();
    let a = Address { bytes: [3u8; 20] };
    let acct = cache.get_or_init_account(&a);
    assert_eq!(acct.nonce, 0);
    assert_eq!(acct.balance, U256::zero());
    assert_eq!(cache.get_nonce(&a), None);
    cache.increment_nonce(&a);
    assert_eq!(cache.get_nonce(&a), Some(1));
    assert_eq!(cache.get_balance(&a), Some(U256::zero()));
    cache.update(AccountState { address: a, balance: U256::from(9), nonce: 5 });
    cache.increment_nonce(&a);
    assert_eq!(cache.get_nonce(&a), Some(6));
    assert_eq!(cache.get_balance(&a), Some(U256::from(9)));
}

#[test]
fn u256_arithmetic_saturates_and_prints_decimal() {
    let max = U256::max_value();
    assert_eq!(
        max.to_decimal(),
        "115792089237316195423570985008687907853269984665640564039457584007913129639935"
    );
    assert_eq!(max.saturating_add(&U256::from(1)), max);
    assert_eq!(max.checked_add(&U256::from(1)), None);
    assert_eq!(U256::from(7).saturating_mul_u64(21000), U256::from(147000));
    let big = U256::from_halves(0, u128::MAX);
    assert_eq!(big.checked_mul_u64(2), Some(U256::from_halves(1, u128::MAX - 1)));
    assert_eq!(U256::from_halves(u128::MAX, 0).checked_mul_u64(2), None);
    assert_eq!(U256::from(0).to_decimal(), "0");
    assert_eq!(U256::from_halves(1, 0).to_decimal(), "340282366920938463463374607431768211456");
    assert!(U256::from(3).lt(&U256::from_halves(1, 0)));
    let bytes = U256::from_halves(1, 2).to_be_bytes();
    assert_eq!(bytes[15], 1);
    assert_eq!(bytes[31], 2);
}

#[test]
fn clock_reads_a_time_after_2020() {
    assert!(sequencer::clock::current_time_ms() > 1_577_836_800_000);
}

#[test]
fn forced_transactions_are_not_capped_by_count() {
    let mut orch = BatchOrchestrator::new(config(2, 1_000_000), SchedulingPolicyType::Fcfs);
    let mut fq = ForcedQueue::new();
    let mut pool = TransactionPool::new();
    for n in 1..=3u64 {
        fq.add(forced_tx(n, 1));
    }
    pool.add(user_tx(9, 1, 1));
    let batch = orch.produce_batch_at(&mut fq, &mut pool, 0).unwrap();
    assert_eq!(nonces_of(&batch.transactions), vec![1, 2, 3]);
    assert_eq!(pool.len(), 1);
}
