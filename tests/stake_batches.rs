use stake_indexer::address::standardize_address;
use stake_indexer::stake::{parse_stake_data, ParseError, ParseErrorKind, PriorState};
use stake_indexer::txn::{
    EventPayload, ResourcePayload, TableItemPayload, Timestamp, Transaction, TransactionInfo,
    WriteSetChange,
};

fn addr(s: &str) -> String {
    standardize_address(s)
}

fn ts(seconds: i64) -> Timestamp {
    Timestamp { seconds, nanos: 0 }
}

fn txn(version: i64, changes: Vec<WriteSetChange>, events: Vec<EventPayload>) -> Transaction {
    Transaction {
        version,
        timestamp: Some(ts(version * 10)),
        info: Some(TransactionInfo { changes }),
        events,
    }
}

fn stake_pool(pool: &str, operator: &str, voter: &str) -> WriteSetChange {
    WriteSetChange::WriteResource {
        address: pool.to_string(),
        payload: ResourcePayload::StakePool {
            operator_address: operator.to_string(),
            delegated_voter: voter.to_string(),
        },
    }
}

fn delegation_pool(pool: &str, active: &str, inactive: &str, coins: u64) -> WriteSetChange {
    WriteSetChange::WriteResource {
        address: pool.to_string(),
        payload: ResourcePayload::DelegationPool {
            active_shares_handle: active.to_string(),
            inactive_shares_handle: inactive.to_string(),
            total_coins: coins,
            total_shares: coins / 2,
            operator_commission_percentage: 10,
        },
    }
}

fn shares(handle: &str, delegator: &str, amount: u64) -> WriteSetChange {
    WriteSetChange::WriteTableItem {
        handle: handle.to_string(),
        item: TableItemPayload::DelegatorShares {
            delegator_address: delegator.to_string(),
            shares: amount,
        },
    }
}

fn governance(pool: &str, handle: &str) -> WriteSetChange {
    WriteSetChange::WriteResource {
        address: pool.to_string(),
        payload: ResourcePayload::GovernanceRecords { vote_delegation_handle: handle.to_string() },
    }
}

fn vote_delegation(handle: &str, delegator: &str, voter: &str, pending: &str) -> WriteSetChange {
    WriteSetChange::WriteTableItem {
        handle: handle.to_string(),
        item: TableItemPayload::VoteDelegation {
            delegator_address: delegator.to_string(),
            voter: voter.to_string(),
            pending_voter: pending.to_string(),
        },
    }
}

#[test]
fn single_txn_stake_batch() {
    let batch = vec![txn(100, vec![stake_pool("0xa", "0xd", "0xb")], vec![])];
    let out = parse_stake_data(&batch, &PriorState::new()).unwrap();
    assert_eq!(out.current_stake_pool_voters.len(), 1);
    let v = &out.current_stake_pool_voters[0];
    assert_eq!(v.last_transaction_version, 100);
    assert_eq!(v.staking_pool_address, addr("0xa"));
    assert_eq!(v.voter_address, addr("0xb"));
    assert_eq!(v.operator_address, addr("0xd"));
    assert!(out.proposal_votes.is_empty());
    assert!(out.delegator_activities.is_empty());
    assert!(out.delegator_balances.is_empty());
    assert!(out.current_delegator_balances.is_empty());
    assert!(out.delegator_pools.is_empty());
    assert!(out.delegator_pool_balances.is_empty());
    assert!(out.current_delegator_pool_balances.is_empty());
    assert!(out.current_delegated_voters.is_empty());
}

#[test]
fn empty_batch_gives_no_rows() {
    let out = parse_stake_data(&vec![], &PriorState::new()).unwrap();
    assert!(out.current_stake_pool_voters.is_empty());
    assert!(out.proposal_votes.is_empty());
}

#[test]
fn later_write_in_batch_wins_for_current_tables() {
    let batch = vec![
        txn(10, vec![stake_pool("0xa", "0x1", "0xb")], vec![]),
        txn(11, vec![stake_pool("0xa", "0x1", "0xc")], vec![]),
    ];
    let out = parse_stake_data(&batch, &PriorState::new()).unwrap();
    assert_eq!(out.current_stake_pool_voters.len(), 1);
    assert_eq!(out.current_stake_pool_voters[0].voter_address, addr("0xc"));
    assert_eq!(out.current_stake_pool_voters[0].last_transaction_version, 11);
}

#[test]
fn deadlock_avoidance_same_submission_order() {
    let b1 = vec![txn(
        5,
        vec![stake_pool("0x3", "0x9", "0x9"), stake_pool("0x1", "0x9", "0x9"), stake_pool("0x2", "0x9", "0x9")],
        vec![],
    )];
    let b2 = vec![txn(
        6,
        vec![stake_pool("0x2", "0x8", "0x8"), stake_pool("0x3", "0x8", "0x8"), stake_pool("0x1", "0x8", "0x8")],
        vec![],
    )];
    let o1 = parse_stake_data(&b1, &PriorState::new()).unwrap();
    let o2 = parse_stake_data(&b2, &PriorState::new()).unwrap();
    let k1: Vec<String> = o1.current_stake_pool_voters.iter().map(|r| r.staking_pool_address.clone()).collect();
    let k2: Vec<String> = o2.current_stake_pool_voters.iter().map(|r| r.staking_pool_address.clone()).collect();
    assert_eq!(k1, vec![addr("0x1"), addr("0x2"), addr("0x3")]);
    assert_eq!(k1, k2);
}

#[test]
fn missing_timestamp_is_a_parse_error() {
    let mut t = txn(7, vec![], vec![]);
    t.timestamp = None;
    let batch = vec![txn(6, vec![], vec![]), t];
    assert_eq!(
        parse_stake_data(&batch, &PriorState::new()).err(),
        Some(ParseError { version: 7, kind: ParseErrorKind::MissingTimestamp })
    );
}

#[test]
fn missing_info_is_a_parse_error() {
    let mut t = txn(8, vec![], vec![]);
    t.info = None;
    assert_eq!(
        parse_stake_data(&vec![t], &PriorState::new()).err(),
        Some(ParseError { version: 8, kind: ParseErrorKind::MissingInfo })
    );
}

#[test]
fn events_give_votes_and_activities() {
    let events = vec![
        EventPayload::Other,
        EventPayload::GovernanceVote {
            proposal_id: 3,
            voter_address: "0xV".to_string(),
            staking_pool_address: "0xP".to_string(),
            num_votes: 50,
            should_pass: true,
        },
        EventPayload::DelegationActivity {
            event_type: "0x1::delegation_pool::AddStakeEvent".to_string(),
            pool_address: "0xP".to_string(),
            delegator_address: "0xD".to_string(),
            amount: 9,
        },
    ];
    let out = parse_stake_data(&vec![txn(7, vec![], events)], &PriorState::new()).unwrap();
    assert_eq!(out.proposal_votes.len(), 1);
    let v = &out.proposal_votes[0];
    assert_eq!((v.transaction_version, v.proposal_id), (7, 3));
    assert_eq!(v.voter_address, addr("0xv"));
    assert_eq!(v.staking_pool_address, addr("0xp"));
    assert_eq!(v.num_votes, 50);
    assert!(v.should_pass);
    assert_eq!(v.transaction_timestamp, ts(70));
    assert_eq!(out.delegator_activities.len(), 1);
    let a = &out.delegator_activities[0];
    assert_eq!(a.event_index, 2);
    assert_eq!(a.delegator_address, addr("0xd"));
    assert_eq!(a.event_type, "0x1::delegation_pool::AddStakeEvent");
    assert_eq!(a.amount, 9);
}

#[test]
fn delegation_pool_rows_and_balances() {
    let batch = vec![
        txn(20, vec![delegation_pool("0xp", "0xaa", "0xbb", 1000), shares("0xaa", "0xd1", 40)], vec![]),
        txn(21, vec![delegation_pool("0xp", "0xaa", "0xbb", 1200), shares("0xbb", "0xd1", 5)], vec![]),
    ];
    let out = parse_stake_data(&batch, &PriorState::new()).unwrap();
    assert_eq!(out.delegator_pools.len(), 1);
    assert_eq!(out.delegator_pools[0].first_transaction_version, 20);
    assert_eq!(out.delegator_pool_balances.len(), 2);
    assert_eq!(out.delegator_pool_balances[1].total_coins, 1200);
    assert_eq!(out.current_delegator_pool_balances.len(), 1);
    assert_eq!(out.current_delegator_pool_balances[0].total_coins, 1200);
    assert_eq!(out.current_delegator_pool_balances[0].last_transaction_version, 21);
    assert_eq!(out.current_delegator_pool_balances[0].active_table_handle, addr("0xaa"));
    assert_eq!(out.delegator_balances.len(), 2);
    assert_eq!(out.delegator_balances[0].pool_type, "active_shares");
    assert_eq!(out.delegator_balances[0].write_set_change_index, 1);
    assert_eq!(out.delegator_balances[1].pool_type, "inactive_shares");
    assert_eq!(out.current_delegator_balances.len(), 2);
    assert_eq!(out.current_delegator_balances[0].pool_type, "active_shares");
    assert_eq!(out.current_delegator_balances[0].shares, 40);
    // the active-share delegator had no voter: it votes for itself
    assert_eq!(out.current_delegated_voters.len(), 1);
    let dv = &out.current_delegated_voters[0];
    assert_eq!(dv.delegation_pool_address, addr("0xp"));
    assert_eq!(dv.voter, Some(addr("0xd1")));
    assert_eq!(dv.pending_voter, Some(addr("0xd1")));
    assert_eq!(dv.table_handle, None);
    assert_eq!(dv.last_transaction_version, 20);
}

#[test]
fn shares_in_unknown_table_are_skipped() {
    let out = parse_stake_data(&vec![txn(3, vec![shares("0xee", "0xd", 1)], vec![])], &PriorState::new()).unwrap();
    assert!(out.delegator_balances.is_empty());
    assert!(out.current_delegated_voters.is_empty());
}

#[test]
fn prior_share_tables_and_voters_are_used() {
    let mut prior = PriorState::new();
    prior.add_share_table("0xaa", "0xp", true);
    prior.add_delegated_voter("0xp", "0xd1");
    let out = parse_stake_data(
        &vec![txn(4, vec![shares("0xAA", "0xd1", 8), shares("0xaa", "0xd2", 9)], vec![])],
        &prior,
    )
    .unwrap();
    assert_eq!(out.delegator_balances.len(), 2);
    assert_eq!(out.delegator_balances[0].pool_address, addr("0xp"));
    assert_eq!(out.current_delegated_voters.len(), 1);
    assert_eq!(out.current_delegated_voters[0].delegator_address, addr("0xd2"));
}

#[test]
fn vote_delegation_uses_governance_handle() {
    let batch = vec![txn(
        30,
        vec![
            governance("0xp", "0xh"),
            vote_delegation("0xh", "0xd", "0xv", "0xw"),
            vote_delegation("0xother", "0xd", "0xv", "0xw"),
        ],
        vec![],
    )];
    let out = parse_stake_data(&batch, &PriorState::new()).unwrap();
    assert_eq!(out.current_delegated_voters.len(), 1);
    let dv = &out.current_delegated_voters[0];
    assert_eq!(dv.delegation_pool_address, addr("0xp"));
    assert_eq!(dv.delegator_address, addr("0xd"));
    assert_eq!(dv.voter, Some(addr("0xv")));
    assert_eq!(dv.pending_voter, Some(addr("0xw")));
    assert_eq!(dv.table_handle, Some(addr("0xh")));
    assert_eq!(dv.last_transaction_timestamp, ts(300));
}

#[test]
fn recorded_voter_blocks_self_vote() {
    let batch = vec![txn(
        31,
        vec![
            delegation_pool("0xp", "0xaa", "0xbb", 1),
            governance("0xp", "0xh"),
            vote_delegation("0xh", "0xd", "0xv", "0xv"),
            shares("0xaa", "0xd", 3),
        ],
        vec![],
    )];
    let out = parse_stake_data(&batch, &PriorState::new()).unwrap();
    assert_eq!(out.current_delegated_voters.len(), 1);
    assert_eq!(out.current_delegated_voters[0].voter, Some(addr("0xv")));
}

fn vote_event(proposal_id: i64, voter: &str) -> EventPayload {
    EventPayload::GovernanceVote {
        proposal_id,
        voter_address: voter.to_string(),
        staking_pool_address: "0xp".to_string(),
        num_votes: 1,
        should_pass: false,
    }
}

#[test]
fn append_only_rows_come_out_sorted_by_key() {
    let batch = vec![txn(7, vec![], vec![vote_event(5, "0xv"), vote_event(3, "0xv"), vote_event(3, "0xu")])];
    let out = parse_stake_data(&batch, &PriorState::new()).unwrap();
    let keys: Vec<(i64, String)> =
        out.proposal_votes.iter().map(|v| (v.proposal_id, v.voter_address.clone())).collect();
    assert_eq!(keys, vec![(3, addr("0xu")), (3, addr("0xv")), (5, addr("0xv"))]);
}

#[test]
fn duplicate_append_only_keys_keep_every_row_in_order() {
    let mut second = vote_event(3, "0xv");
    if let EventPayload::GovernanceVote { num_votes, .. } = &mut second {
        *num_votes = 99;
    }
    let batch = vec![txn(7, vec![], vec![vote_event(3, "0xv"), second])];
    let out = parse_stake_data(&batch, &PriorState::new()).unwrap();
    assert_eq!(out.proposal_votes.len(), 2);
    assert_eq!(out.proposal_votes[0].num_votes, 1);
    assert_eq!(out.proposal_votes[1].num_votes, 99);
}

#[test]
fn balances_carry_parent_table_handle() {
    let batch = vec![txn(20, vec![delegation_pool("0xp", "0xaa", "0xbb", 10), shares("0xaa", "0xd", 4)], vec![])];
    let out = parse_stake_data(&batch, &PriorState::new()).unwrap();
    assert_eq!(out.delegator_balances[0].parent_table_handle, addr("0xaa"));
    assert_eq!(out.current_delegator_balances[0].parent_table_handle, addr("0xaa"));
}
