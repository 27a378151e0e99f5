use sequencer::{
    Address, FairBftPolicy, FcfsPolicy, FeePriorityPolicy, ForcedEventType, ForcedTransaction,
    H256, Scheduler, SchedulingPolicy, SchedulingPolicyType, Signature, TimeBoostPolicy,
    Transaction, UserTransaction, U256, create_policy,
};

fn create_test_tx(nonce: u64, gas_price: u64, timestamp: u64, boost_bid: Option<u64>) -> UserTransaction {
    UserTransaction {
        from: Address::zero(),
        to: Address::zero(),
        value: U256::from(1000),
        nonce,
        gas_price: U256::from(gas_price),
        gas_limit: 21000,
        signature: Signature::default(),
        timestamp,
        boost_bid: boost_bid.map(U256::from),
    }
}

fn create_forced_tx(nonce: u64) -> ForcedTransaction {
    ForcedTransaction {
        tx_hash: H256::zero(),
        from: Address::zero(),
        to: Address::zero(),
        value: U256::from(1000),
        nonce,
        gas_limit: 21000,
        l1_tx_hash: H256::zero(),
        l1_block_number: 1,
        event_type: ForcedEventType::Deposit,
        timestamp: 0,
    }
}

#[test]
fn test_fcfs_policy_maintains_order() {
    let policy = FcfsPolicy;
    let txs = vec![
        create_test_tx(1, 100, 1000, None),
        create_test_tx(2, 500, 2000, None),
        create_test_tx(3, 50, 3000, None),
    ];
    let ordered = policy.order_transactions(txs.clone());
    assert_eq!(ordered.len(), 3);
    assert_eq!(ordered[0].nonce, 1);
    assert_eq!(ordered[1].nonce, 2);
    assert_eq!(ordered[2].nonce, 3);
}

#[test]
fn test_fee_priority_orders_by_gas_price() {
    let policy = FeePriorityPolicy;
    let txs = vec![
        create_test_tx(1, 100, 1000, None),
        create_test_tx(2, 500, 2000, None),
        create_test_tx(3, 50, 3000, None),
        create_test_tx(4, 300, 4000, None),
    ];
    let ordered = policy.order_transactions(txs);
    assert_eq!(ordered.len(), 4);
    assert_eq!(ordered[0].gas_price, U256::from(500));
    assert_eq!(ordered[1].gas_price, U256::from(300));
    assert_eq!(ordered[2].gas_price, U256::from(100));
    assert_eq!(ordered[3].gas_price, U256::from(50));
}

#[test]
fn test_time_boost_groups_by_window() {
    let policy = TimeBoostPolicy { time_window_ms: 5000 };
    let txs = vec![
        create_test_tx(1, 100, 1000, None),
        create_test_tx(2, 200, 6000, None),
        create_test_tx(3, 300, 12000, None),
        create_test_tx(4, 150, 2000, None),
    ];
    let ordered = policy.order_transactions(txs);
    assert_eq!(ordered.len(), 4);
    assert_eq!(ordered[0].timestamp / 5000, 0);
    assert_eq!(ordered[1].timestamp / 5000, 0);
    assert_eq!(ordered[2].timestamp / 5000, 1);
    assert_eq!(ordered[3].timestamp / 5000, 2);
}

#[test]
fn test_time_boost_prioritizes_boost_bids() {
    let policy = TimeBoostPolicy { time_window_ms: 5000 };
    let txs = vec![
        create_test_tx(1, 100, 1000, None),
        create_test_tx(2, 100, 2000, Some(500)),
        create_test_tx(3, 100, 3000, Some(200)),
        create_test_tx(4, 100, 4000, Some(800)),
    ];
    let ordered = policy.order_transactions(txs);
    assert_eq!(ordered.len(), 4);
    assert_eq!(ordered[0].boost_bid, Some(U256::from(800)));
    assert_eq!(ordered[1].boost_bid, Some(U256::from(500)));
    assert_eq!(ordered[2].boost_bid, Some(U256::from(200)));
    assert_eq!(ordered[3].boost_bid, None);
}

#[test]
fn test_time_boost_falls_back_to_gas_price() {
    let policy = TimeBoostPolicy { time_window_ms: 5000 };
    let txs = vec![
        create_test_tx(1, 100, 1000, Some(500)),
        create_test_tx(2, 300, 2000, Some(500)),
        create_test_tx(3, 200, 3000, Some(500)),
    ];
    let ordered = policy.order_transactions(txs);
    assert_eq!(ordered.len(), 3);
    assert_eq!(ordered[0].gas_price, U256::from(300));
    assert_eq!(ordered[1].gas_price, U256::from(200));
    assert_eq!(ordered[2].gas_price, U256::from(100));
}

#[test]
fn test_fair_bft_orders_by_timestamp() {
    let policy = FairBftPolicy;
    let txs = vec![
        create_test_tx(1, 500, 5000, None),
        create_test_tx(2, 100, 1000, None),
        create_test_tx(3, 300, 3000, None),
    ];
    let ordered = policy.order_transactions(txs);
    assert_eq!(ordered.len(), 3);
    assert_eq!(ordered[0].timestamp, 1000);
    assert_eq!(ordered[1].timestamp, 3000);
    assert_eq!(ordered[2].timestamp, 5000);
}

#[test]
fn test_scheduler_forced_transactions_always_first() {
    let policy = create_policy(SchedulingPolicyType::FeePriority);
    let scheduler = Scheduler::new(policy);
    let forced = vec![create_forced_tx(100), create_forced_tx(101)];
    let normal = vec![create_test_tx(1, 1000, 1000, None), create_test_tx(2, 500, 2000, None)];
    let ordered = scheduler.schedule(forced, normal);
    assert_eq!(ordered.len(), 4);
    match &ordered[0] {
        Transaction::Forced(tx) => assert_eq!(tx.nonce, 100),
        _ => panic!("Expected forced transaction first"),
    }
    match &ordered[1] {
        Transaction::Forced(tx) => assert_eq!(tx.nonce, 101),
        _ => panic!("Expected forced transaction second"),
    }
    match &ordered[2] {
        Transaction::Normal(tx) => assert_eq!(tx.gas_price, U256::from(1000)),
        _ => panic!("Expected normal transaction third"),
    }
    match &ordered[3] {
        Transaction::Normal(tx) => assert_eq!(tx.gas_price, U256::from(500)),
        _ => panic!("Expected normal transaction fourth"),
    }
}

#[test]
fn test_policy_factory_creates_correct_instances() {
    let fcfs = create_policy(SchedulingPolicyType::Fcfs);
    assert_eq!(fcfs.name(), "FCFS");
    let fee = create_policy(SchedulingPolicyType::FeePriority);
    assert_eq!(fee.name(), "FeePriority");
    let time_boost = create_policy(SchedulingPolicyType::TimeBoost { time_window_ms: 3000 });
    assert_eq!(time_boost.name(), "TimeBoost");
    let fair_bft = create_policy(SchedulingPolicyType::FairBft);
    assert_eq!(fair_bft.name(), "FairBFT");
}

#[test]
fn test_policy_switching() {
    let txs = vec![
        create_test_tx(1, 100, 1000, None),
        create_test_tx(2, 500, 2000, None),
        create_test_tx(3, 50, 3000, None),
    ];
    let fcfs_policy = create_policy(SchedulingPolicyType::Fcfs);
    let fcfs_ordered = fcfs_policy.order_transactions(txs.clone());
    assert_eq!(fcfs_ordered[0].nonce, 1);
    let fee_policy = create_policy(SchedulingPolicyType::FeePriority);
    let fee_ordered = fee_policy.order_transactions(txs.clone());
    assert_eq!(fee_ordered[0].gas_price, U256::from(500));
    let bft_policy = create_policy(SchedulingPolicyType::FairBft);
    let bft_ordered = bft_policy.order_transactions(txs.clone());
    assert_eq!(bft_ordered[0].timestamp, 1000);
}

#[test]
fn test_empty_transaction_list() {
    let policy = FeePriorityPolicy;
    let txs = vec![];
    let ordered = policy.order_transactions(txs);
    assert_eq!(ordered.len(), 0);
}

#[test]
fn test_single_transaction() {
    let policy = TimeBoostPolicy { time_window_ms: 5000 };
    let txs = vec![create_test_tx(1, 100, 1000, None)];
    let ordered = policy.order_transactions(txs);
    assert_eq!(ordered.len(), 1);
    assert_eq!(ordered[0].nonce, 1);
}

#[test]
fn time_boost_window_scenario_orders_by_bid() {
    let policy = TimeBoostPolicy { time_window_ms: 5000 };
    let txs = vec![
        create_test_tx(1, 100, 1000, None),
        create_test_tx(2, 100, 2000, Some(500)),
        create_test_tx(3, 100, 3000, Some(200)),
        create_test_tx(4, 100, 4000, Some(800)),
    ];
    let nonces: Vec<u64> = policy.order_transactions(txs).iter().map(|t| t.nonce).collect();
    assert_eq!(nonces, vec![4, 2, 3, 1]);
}

#[test]
fn fee_priority_keeps_input_order_among_equal_prices() {
    let policy = FeePriorityPolicy;
    let txs = vec![
        create_test_tx(1, 100, 9000, None),
        create_test_tx(2, 300, 1000, None),
        create_test_tx(3, 100, 1000, None),
        create_test_tx(4, 300, 5000, None),
        create_test_tx(5, 100, 2000, None),
    ];
    let nonces: Vec<u64> = policy.order_transactions(txs).iter().map(|t| t.nonce).collect();
    assert_eq!(nonces, vec![2, 4, 1, 3, 5]);
}

#[test]
fn fair_bft_keeps_input_order_among_equal_timestamps() {
    let policy = FairBftPolicy;
    let txs = vec![
        create_test_tx(1, 100, 3000, None),
        create_test_tx(2, 900, 1000, None),
        create_test_tx(3, 50, 3000, None),
        create_test_tx(4, 700, 1000, None),
    ];
    let nonces: Vec<u64> = policy.order_transactions(txs).iter().map(|t| t.nonce).collect();
    assert_eq!(nonces, vec![2, 4, 1, 3]);
}

#[test]
fn time_boost_ties_keep_input_order_and_windows_ascend() {
    let policy = TimeBoostPolicy { time_window_ms: 1000 };
    let txs = vec![
        create_test_tx(1, 10, 2500, Some(5)),
        create_test_tx(2, 10, 1999, None),
        create_test_tx(3, 10, 2100, Some(5)),
        create_test_tx(4, 20, 1500, Some(0)),
        create_test_tx(5, 10, 1000, None),
    ];
    let nonces: Vec<u64> = policy.order_transactions(txs).iter().map(|t| t.nonce).collect();
    assert_eq!(nonces, vec![4, 2, 5, 1, 3]);
}

#[test]
fn fcfs_returns_input_unchanged() {
    let policy = FcfsPolicy;
    let txs = vec![
        create_test_tx(7, 1, 300, Some(9)),
        create_test_tx(3, 900, 100, None),
        create_test_tx(5, 40, 200, None),
    ];
    let nonces: Vec<u64> = policy.order_transactions(txs).iter().map(|t| t.nonce).collect();
    assert_eq!(nonces, vec![7, 3, 5]);
}
