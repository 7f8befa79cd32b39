use stake_indexer::address::standardize_address;
use stake_indexer::rows::{CurrentStakingPoolVoter, DelegatorPool, ProposalVote, DelegatedStakingActivity};
use stake_indexer::txn::Timestamp;
use stake_indexer::upsert::{
    insert_current_delegated_voter_query, insert_current_delegator_balances_query,
    insert_current_delegator_pool_balances_query, insert_current_stake_pool_voter_query,
    insert_delegator_activities_query, insert_delegator_balances_query,
    insert_delegator_pool_balances_query, insert_delegator_pools_query, insert_proposal_votes_query,
    ConflictAction, MemoryTable, TableRow,
};

fn voter(pool: &str, voter: &str, version: i64) -> CurrentStakingPoolVoter {
    CurrentStakingPoolVoter {
        staking_pool_address: standardize_address(pool),
        voter_address: standardize_address(voter),
        last_transaction_version: version,
        operator_address: standardize_address("0xd"),
    }
}

fn pool(p: &str, version: i64) -> DelegatorPool {
    DelegatorPool { staking_pool_address: standardize_address(p), first_transaction_version: version }
}

fn vote(version: i64, pid: i64, v: &str, n: u64) -> ProposalVote {
    ProposalVote {
        transaction_version: version,
        proposal_id: pid,
        voter_address: standardize_address(v),
        staking_pool_address: standardize_address("0xp"),
        num_votes: n,
        should_pass: true,
        transaction_timestamp: Timestamp { seconds: 1, nanos: 0 },
    }
}

#[test]
fn builders_carry_table_policy_and_guard() {
    let (q, g) = insert_current_stake_pool_voter_query(vec![voter("0xa", "0xb", 1)]);
    assert_eq!(q.table, "current_staking_pool_voter");
    assert_eq!(q.action, ConflictAction::UpdateIfNotNewer);
    assert_eq!(q.rows.len(), 1);
    assert_eq!(
        g,
        Some(" WHERE current_staking_pool_voter.last_transaction_version <= EXCLUDED.last_transaction_version ")
    );
    let (q, g) = insert_proposal_votes_query(vec![]);
    assert_eq!((q.table, q.action, g), ("proposal_votes", ConflictAction::DoNothing, None));
    let (q, g) = insert_delegator_activities_query(vec![]);
    assert_eq!((q.table, q.action, g), ("delegated_staking_activities", ConflictAction::DoNothing, None));
    let (q, g) = insert_delegator_balances_query(vec![]);
    assert_eq!((q.table, q.action, g), ("delegator_balances", ConflictAction::DoNothing, None));
    let (q, g) = insert_delegator_pool_balances_query(vec![]);
    assert_eq!((q.table, q.action, g), ("delegated_staking_pool_balances", ConflictAction::DoNothing, None));
    let (q, g) = insert_current_delegator_balances_query(vec![]);
    assert_eq!(q.table, "current_delegator_balances");
    assert_eq!(q.action, ConflictAction::UpdateIfNotNewer);
    assert_eq!(
        g,
        Some(" WHERE current_delegator_balances.last_transaction_version <= EXCLUDED.last_transaction_version ")
    );
    let (q, g) = insert_delegator_pools_query(vec![]);
    assert_eq!(q.table, "delegated_staking_pools");
    assert_eq!(q.action, ConflictAction::UpdateIfNotOlder);
    assert_eq!(
        g,
        Some(" WHERE delegated_staking_pools.first_transaction_version >= EXCLUDED.first_transaction_version ")
    );
    let (q, g) = insert_current_delegator_pool_balances_query(vec![]);
    assert_eq!(q.table, "current_delegated_staking_pool_balances");
    assert_eq!(q.action, ConflictAction::UpdateIfNotNewer);
    assert_eq!(
        g,
        Some(" WHERE current_delegated_staking_pool_balances.last_transaction_version <= EXCLUDED.last_transaction_version ")
    );
    let (q, g) = insert_current_delegated_voter_query(vec![]);
    assert_eq!(q.table, "current_delegated_voter");
    assert_eq!(q.action, ConflictAction::UpdateIfNotNewer);
    assert_eq!(
        g,
        Some(" WHERE current_delegated_voter.last_transaction_version <= EXCLUDED.last_transaction_version ")
    );
}

#[test]
fn monotonic_regress_is_blocked() {
    let mut t = MemoryTable::new();
    t.apply(insert_current_stake_pool_voter_query(vec![voter("0xa", "0xb", 100)]).0);
    t.apply(insert_current_stake_pool_voter_query(vec![voter("0xa", "0xc", 50)]).0);
    let k = voter("0xa", "0xb", 100).pk();
    let stored = t.get(&k).unwrap();
    assert_eq!(stored.voter_address, standardize_address("0xb"));
    assert_eq!(stored.last_transaction_version, 100);
    assert_eq!(t.len(), 1);
}

#[test]
fn newer_version_replaces_stored_row() {
    let mut t = MemoryTable::new();
    t.apply(insert_current_stake_pool_voter_query(vec![voter("0xa", "0xb", 100)]).0);
    t.apply(insert_current_stake_pool_voter_query(vec![voter("0xa", "0xc", 150)]).0);
    let stored = t.get(&voter("0xa", "0xb", 0).pk()).unwrap();
    assert_eq!(stored.voter_address, standardize_address("0xc"));
    assert_eq!(stored.last_transaction_version, 150);
}

#[test]
fn batches_in_either_order_give_same_state() {
    let b1 = vec![voter("0x1", "0xb", 10), voter("0x2", "0xb", 30)];
    let b2 = vec![voter("0x1", "0xc", 20), voter("0x2", "0xc", 5)];
    let mut t1 = MemoryTable::new();
    t1.apply(insert_current_stake_pool_voter_query(b1.clone()).0);
    t1.apply(insert_current_stake_pool_voter_query(b2.clone()).0);
    let mut t2 = MemoryTable::new();
    t2.apply(insert_current_stake_pool_voter_query(b2).0);
    t2.apply(insert_current_stake_pool_voter_query(b1).0);
    for p in ["0x1", "0x2"] {
        let k = voter(p, "0x0", 0).pk();
        assert_eq!(t1.get(&k), t2.get(&k));
    }
    assert_eq!(t1.get(&voter("0x1", "0x0", 0).pk()).unwrap().last_transaction_version, 20);
    assert_eq!(t1.get(&voter("0x2", "0x0", 0).pk()).unwrap().last_transaction_version, 30);
}

#[test]
fn earliest_wins_on_delegated_staking_pools() {
    let mut t = MemoryTable::new();
    t.apply(insert_delegator_pools_query(vec![pool("0xp", 200)]).0);
    t.apply(insert_delegator_pools_query(vec![pool("0xp", 100)]).0);
    t.apply(insert_delegator_pools_query(vec![pool("0xp", 150)]).0);
    assert_eq!(t.get(&pool("0xp", 0).pk()).unwrap().first_transaction_version, 100);
}

#[test]
fn proposal_vote_idempotence() {
    let mut t = MemoryTable::new();
    t.apply(insert_proposal_votes_query(vec![vote(7, 3, "0xv", 10)]).0);
    t.apply(insert_proposal_votes_query(vec![vote(7, 3, "0xv", 99)]).0);
    assert_eq!(t.len(), 1);
    assert_eq!(t.get(&vote(7, 3, "0xv", 0).pk()).unwrap().num_votes, 10);
}

#[test]
fn append_only_reingest_is_noop() {
    let rows = vec![
        DelegatedStakingActivity {
            transaction_version: 1,
            event_index: 0,
            delegator_address: standardize_address("0xd"),
            pool_address: standardize_address("0xp"),
            event_type: "add".to_string(),
            amount: 5,
        },
        DelegatedStakingActivity {
            transaction_version: 1,
            event_index: 1,
            delegator_address: standardize_address("0xd"),
            pool_address: standardize_address("0xp"),
            event_type: "unlock".to_string(),
            amount: 2,
        },
    ];
    let mut t = MemoryTable::new();
    t.apply(insert_delegator_activities_query(rows.clone()).0);
    let first: Vec<_> = rows.iter().map(|r| t.get(&r.pk()).cloned()).collect();
    t.apply(insert_delegator_activities_query(rows.clone()).0);
    let second: Vec<_> = rows.iter().map(|r| t.get(&r.pk()).cloned()).collect();
    assert_eq!(t.len(), 2);
    assert_eq!(first, second);
}

#[test]
fn row_watermarks_and_field_counts() {
    assert_eq!(voter("0xa", "0xb", 42).watermark(), 42);
    assert_eq!(pool("0xa", 7).watermark(), 7);
    assert_eq!(CurrentStakingPoolVoter::field_count(), 4);
    assert_eq!(DelegatorPool::field_count(), 2);
}
