use ahash::AHashMap;
use stake_indexer::processor::{StakeProcessor, StakeProcessorConfig, QUERY_DEFAULT_RETRIES};
use stake_indexer::stake::PriorState;
use stake_indexer::txn::{ResourcePayload, Timestamp, Transaction, TransactionInfo, WriteSetChange};
use stake_indexer::upsert::ConflictAction;
use stake_indexer::address::standardize_address;
use stake_indexer::txn::EventPayload;
use stake_indexer::upsert::{MemoryTable, TableRow};

fn txn(version: i64) -> Transaction {
    Transaction {
        version,
        timestamp: Some(Timestamp { seconds: version, nanos: 0 }),
        info: Some(TransactionInfo {
            changes: vec![WriteSetChange::WriteResource {
                address: "0xa".to_string(),
                payload: ResourcePayload::StakePool {
                    operator_address: "0xd".to_string(),
                    delegated_voter: "0xb".to_string(),
                },
            }],
        }),
        events: vec![],
    }
}

#[test]
fn process_transactions_plans_every_table() {
    let mut sizes: AHashMap<String, usize> = AHashMap::new();
    sizes.insert("current_staking_pool_voter".to_string(), 3);
    let p = StakeProcessor::new(StakeProcessorConfig::default(), sizes);
    assert_eq!(p.name(), "stake_processor");
    assert_eq!(p.config.query_retries, QUERY_DEFAULT_RETRIES);
    let out = p.process_transactions(vec![txn(100), txn(101)], 100, 101, &PriorState::new()).unwrap();
    assert_eq!((out.start_version, out.end_version), (100, 101));
    assert_eq!(out.last_transaction_timestamp, Some(Timestamp { seconds: 101, nanos: 0 }));
    let w = &out.writes;
    assert_eq!(w.current_stake_pool_voters.chunk_size, 3);
    assert_eq!(w.current_stake_pool_voters.query.rows.len(), 1);
    assert_eq!(w.current_stake_pool_voters.query.rows[0].last_transaction_version, 101);
    assert_eq!(w.proposal_votes.chunk_size, 65535 / 7);
    assert_eq!(w.delegator_pools.query.action, ConflictAction::UpdateIfNotOlder);
    assert_eq!(w.delegator_pools.chunk_size, 65535 / 2);
    assert!(w.delegator_balances.where_clause.is_none());
}

#[test]
fn processed_pool_balances_are_sorted_within_a_transaction() {
    let p = StakeProcessor::new(StakeProcessorConfig::default(), AHashMap::new());
    let mut t = txn(9);
    let pool = |a: &str| WriteSetChange::WriteResource {
        address: a.to_string(),
        payload: ResourcePayload::DelegationPool {
            active_shares_handle: format!("{}1", a),
            inactive_shares_handle: format!("{}2", a),
            total_coins: 1,
            total_shares: 1,
            operator_commission_percentage: 0,
        },
    };
    t.info = Some(TransactionInfo { changes: vec![pool("0x5"), pool("0x3")] });
    let out = p.process_transactions(vec![t], 9, 9, &PriorState::new()).unwrap();
    let rows = &out.writes.delegator_pool_balances.query.rows;
    assert_eq!(rows.len(), 2);
    assert!(rows[0].staking_pool_address < rows[1].staking_pool_address);
}

#[test]
fn process_transactions_reports_parse_errors() {
    let p = StakeProcessor::new(StakeProcessorConfig::default(), AHashMap::new());
    let mut bad = txn(5);
    bad.info = None;
    let r = p.process_transactions(vec![bad], 5, 5, &PriorState::new());
    assert_eq!(r.err().map(|e| e.version), Some(5));
}


fn voter_txn(version: i64, voter: &str) -> Transaction {
    let mut t = txn(version);
    t.info = Some(TransactionInfo {
        changes: vec![WriteSetChange::WriteResource {
            address: "0xa".to_string(),
            payload: ResourcePayload::StakePool {
                operator_address: "0xd".to_string(),
                delegated_voter: voter.to_string(),
            },
        }],
    });
    t
}

fn pool_txn(version: i64) -> Transaction {
    let mut t = txn(version);
    t.info = Some(TransactionInfo {
        changes: vec![WriteSetChange::WriteResource {
            address: "0xp".to_string(),
            payload: ResourcePayload::DelegationPool {
                active_shares_handle: "0xaa".to_string(),
                inactive_shares_handle: "0xbb".to_string(),
                total_coins: 1,
                total_shares: 1,
                operator_commission_percentage: 0,
            },
        }],
    });
    t
}

fn processor() -> StakeProcessor {
    StakeProcessor::new(StakeProcessorConfig::default(), AHashMap::new())
}

#[test]
fn single_txn_stake_batch_end_to_end() {
    let out = processor().process_transactions(vec![voter_txn(100, "0xb")], 100, 100, &PriorState::new()).unwrap();
    let w = out.writes;
    assert_eq!(w.proposal_votes.query.rows.len(), 0);
    assert_eq!(w.delegator_activities.query.rows.len(), 0);
    assert_eq!(w.delegator_balances.query.rows.len(), 0);
    assert_eq!(w.current_delegator_balances.query.rows.len(), 0);
    assert_eq!(w.delegator_pools.query.rows.len(), 0);
    assert_eq!(w.delegator_pool_balances.query.rows.len(), 0);
    assert_eq!(w.current_delegator_pool_balances.query.rows.len(), 0);
    assert_eq!(w.current_delegated_voters.query.rows.len(), 0);
    let mut voters = MemoryTable::new();
    voters.apply(w.current_stake_pool_voters.query);
    assert_eq!(voters.len(), 1);
    let out2 = processor().process_transactions(vec![voter_txn(100, "0xb")], 100, 100, &PriorState::new()).unwrap();
    let row = &out2.writes.current_stake_pool_voters.query.rows[0];
    let stored = voters.get(&row.pk()).unwrap();
    assert_eq!(stored.staking_pool_address, standardize_address("0xa"));
    assert_eq!(stored.voter_address, standardize_address("0xb"));
    assert_eq!(stored.last_transaction_version, 100);
}

#[test]
fn monotonic_regress_end_to_end() {
    let mut voters = MemoryTable::new();
    let first = processor().process_transactions(vec![voter_txn(100, "0xb")], 100, 100, &PriorState::new()).unwrap();
    let key = first.writes.current_stake_pool_voters.query.rows[0].pk();
    voters.apply(first.writes.current_stake_pool_voters.query);
    let second = processor().process_transactions(vec![voter_txn(50, "0xc")], 50, 50, &PriorState::new()).unwrap();
    voters.apply(second.writes.current_stake_pool_voters.query);
    let stored = voters.get(&key).unwrap();
    assert_eq!(stored.voter_address, standardize_address("0xb"));
    assert_eq!(stored.last_transaction_version, 100);
}

#[test]
fn earliest_wins_end_to_end() {
    let mut pools = MemoryTable::new();
    let later = processor().process_transactions(vec![pool_txn(200)], 200, 200, &PriorState::new()).unwrap();
    let key = later.writes.delegator_pools.query.rows[0].pk();
    pools.apply(later.writes.delegator_pools.query);
    let earlier = processor().process_transactions(vec![pool_txn(100)], 100, 100, &PriorState::new()).unwrap();
    pools.apply(earlier.writes.delegator_pools.query);
    assert_eq!(pools.get(&key).unwrap().first_transaction_version, 100);
}

#[test]
fn proposal_vote_idempotence_end_to_end() {
    let mut t = txn(7);
    t.info = Some(TransactionInfo { changes: vec![] });
    t.events = vec![EventPayload::GovernanceVote {
        proposal_id: 3,
        voter_address: "0xv".to_string(),
        staking_pool_address: "0xp".to_string(),
        num_votes: 4,
        should_pass: true,
    }];
    let mut votes = MemoryTable::new();
    let once = processor().process_transactions(vec![t.clone()], 7, 7, &PriorState::new()).unwrap();
    let key = once.writes.proposal_votes.query.rows[0].pk();
    votes.apply(once.writes.proposal_votes.query);
    let after_first = votes.get(&key).cloned();
    let twice = processor().process_transactions(vec![t], 7, 7, &PriorState::new()).unwrap();
    votes.apply(twice.writes.proposal_votes.query);
    assert_eq!(votes.len(), 1);
    assert_eq!(votes.get(&key).cloned(), after_first);
}
