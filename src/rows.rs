//! Rows of the stake tables, their mathematical views and primary keys.

use vstd::prelude::*;
use vstd::utf8::encode_utf8;
use crate::keyed::PrimaryKey;
use crate::txn::Timestamp;

verus! {

/// One component of an encoded primary key: the text's UTF-8 bytes and a
/// zero byte that ends the component.
pub open spec fn key_part(s: Seq<char>) -> Seq<u8> {
    encode_utf8(s).push(0u8)
}

/// Appends one component to an encoded primary key.
pub fn push_key_part(key: &mut Vec<u8>, part: &str)
    ensures
        final(key)@ == old(key)@ + key_part(part@),
{
    let ghost start = key@;
    let b = part.as_bytes();
    let mut i: usize = 0;
    while i < b.len()
        invariant
            i <= b@.len(),
            b@ == encode_utf8(part@),
            key@ == start + b@.subrange(0, i as int),
        decreases b.len() - i,
    {
        key.push(b[i]);
        assert(b@.subrange(0, i + 1) =~= b@.subrange(0, i as int).push(b@[i as int]));
        i = i + 1;
    }
    key.push(0u8);
    assert(b@.subrange(0, b@.len() as int) =~= b@);
    assert(key@ =~= start + key_part(part@));
}

/// An integer component of an encoded primary key: eight bytes, most
/// significant first.
pub open spec fn u64_key(x: u64) -> Seq<u8> {
    seq![
        (x >> 56u64) as u8,
        (x >> 48u64) as u8,
        (x >> 40u64) as u8,
        (x >> 32u64) as u8,
        (x >> 24u64) as u8,
        (x >> 16u64) as u8,
        (x >> 8u64) as u8,
        x as u8,
    ]
}

/// Appends an integer component to an encoded primary key.
pub fn push_u64_key(key: &mut Vec<u8>, x: u64)
    ensures
        final(key)@ == old(key)@ + u64_key(x),
{
    key.push((x >> 56u64) as u8);
    key.push((x >> 48u64) as u8);
    key.push((x >> 40u64) as u8);
    key.push((x >> 32u64) as u8);
    key.push((x >> 24u64) as u8);
    key.push((x >> 16u64) as u8);
    key.push((x >> 8u64) as u8);
    key.push(x as u8);
    assert(key@ =~= old(key)@ + u64_key(x));
}

pub open spec fn opt_text(o: Option<String>) -> Option<Seq<char>> {
    match o {
        Some(s) => Some(s@),
        None => None,
    }
}

/// current_staking_pool_voter: the voter and operator of each stake pool.
#[derive(Clone, Debug, PartialEq, Eq)]
pub struct CurrentStakingPoolVoter {
    pub staking_pool_address: String,
    pub voter_address: String,
    pub last_transaction_version: i64,
    pub operator_address: String,
}

pub struct StakingPoolVoterView {
    pub staking_pool_address: Seq<char>,
    pub voter_address: Seq<char>,
    pub last_transaction_version: i64,
    pub operator_address: Seq<char>,
}

impl View for CurrentStakingPoolVoter {
    type V = StakingPoolVoterView;

    open spec fn view(&self) -> StakingPoolVoterView {
        StakingPoolVoterView {
            staking_pool_address: self.staking_pool_address@,
            voter_address: self.voter_address@,
            last_transaction_version: self.last_transaction_version,
            operator_address: self.operator_address@,
        }
    }
}

impl PrimaryKey for StakingPoolVoterView {
    open spec fn pk(&self) -> Seq<u8> {
        key_part(self.staking_pool_address)
    }

    open spec fn version(&self) -> i64 {
        self.last_transaction_version
    }
}


/// proposal_votes: one vote of one pool's voter on one proposal.
#[derive(Clone, Debug, PartialEq, Eq)]
pub struct ProposalVote {
    pub transaction_version: i64,
    pub proposal_id: i64,
    pub voter_address: String,
    pub staking_pool_address: String,
    pub num_votes: u64,
    pub should_pass: bool,
    pub transaction_timestamp: Timestamp,
}

pub struct ProposalVoteView {
    pub transaction_version: i64,
    pub proposal_id: i64,
    pub voter_address: Seq<char>,
    pub staking_pool_address: Seq<char>,
    pub num_votes: u64,
    pub should_pass: bool,
    pub transaction_timestamp: Timestamp,
}

impl View for ProposalVote {
    type V = ProposalVoteView;

    open spec fn view(&self) -> ProposalVoteView {
        ProposalVoteView {
            transaction_version: self.transaction_version,
            proposal_id: self.proposal_id,
            voter_address: self.voter_address@,
            staking_pool_address: self.staking_pool_address@,
            num_votes: self.num_votes,
            should_pass: self.should_pass,
            transaction_timestamp: self.transaction_timestamp,
        }
    }
}

/// delegated_staking_activities: one delegation event.
#[derive(Clone, Debug, PartialEq, Eq)]
pub struct DelegatedStakingActivity {
    pub transaction_version: i64,
    pub event_index: i64,
    pub delegator_address: String,
    pub pool_address: String,
    pub event_type: String,
    pub amount: u64,
}

pub struct DelegatedStakingActivityView {
    pub transaction_version: i64,
    pub event_index: i64,
    pub delegator_address: Seq<char>,
    pub pool_address: Seq<char>,
    pub event_type: Seq<char>,
    pub amount: u64,
}

impl View for DelegatedStakingActivity {
    type V = DelegatedStakingActivityView;

    open spec fn view(&self) -> DelegatedStakingActivityView {
        DelegatedStakingActivityView {
            transaction_version: self.transaction_version,
            event_index: self.event_index,
            delegator_address: self.delegator_address@,
            pool_address: self.pool_address@,
            event_type: self.event_type@,
            amount: self.amount,
        }
    }
}

/// delegator_balances: a delegator's shares as written by one change.
#[derive(Clone, Debug, PartialEq, Eq)]
pub struct DelegatorBalance {
    pub transaction_version: i64,
    pub write_set_change_index: i64,
    pub delegator_address: String,
    pub pool_address: String,
    pub pool_type: String,
    pub table_handle: String,
    pub shares: u64,
    pub parent_table_handle: String,
}

pub struct DelegatorBalanceView {
    pub transaction_version: i64,
    pub write_set_change_index: i64,
    pub delegator_address: Seq<char>,
    pub pool_address: Seq<char>,
    pub pool_type: Seq<char>,
    pub table_handle: Seq<char>,
    pub shares: u64,
    pub parent_table_handle: Seq<char>,
}

impl View for DelegatorBalance {
    type V = DelegatorBalanceView;

    open spec fn view(&self) -> DelegatorBalanceView {
        DelegatorBalanceView {
            transaction_version: self.transaction_version,
            write_set_change_index: self.write_set_change_index,
            delegator_address: self.delegator_address@,
            pool_address: self.pool_address@,
            pool_type: self.pool_type@,
            table_handle: self.table_handle@,
            shares: self.shares,
            parent_table_handle: self.parent_table_handle@,
        }
    }
}

/// current_delegator_balances: a delegator's latest shares in one share table.
#[derive(Clone, Debug, PartialEq, Eq)]
pub struct CurrentDelegatorBalance {
    pub delegator_address: String,
    pub pool_address: String,
    pub pool_type: String,
    pub table_handle: String,
    pub last_transaction_version: i64,
    pub shares: u64,
    pub parent_table_handle: String,
}

pub struct CurrentDelegatorBalanceView {
    pub delegator_address: Seq<char>,
    pub pool_address: Seq<char>,
    pub pool_type: Seq<char>,
    pub table_handle: Seq<char>,
    pub last_transaction_version: i64,
    pub shares: u64,
    pub parent_table_handle: Seq<char>,
}

impl View for CurrentDelegatorBalance {
    type V = CurrentDelegatorBalanceView;

    open spec fn view(&self) -> CurrentDelegatorBalanceView {
        CurrentDelegatorBalanceView {
            delegator_address: self.delegator_address@,
            pool_address: self.pool_address@,
            pool_type: self.pool_type@,
            table_handle: self.table_handle@,
            last_transaction_version: self.last_transaction_version,
            shares: self.shares,
            parent_table_handle: self.parent_table_handle@,
        }
    }
}

impl PrimaryKey for CurrentDelegatorBalanceView {
    open spec fn pk(&self) -> Seq<u8> {
        key_part(self.delegator_address) + key_part(self.pool_address) + key_part(self.pool_type)
            + key_part(self.table_handle)
    }

    open spec fn version(&self) -> i64 {
        self.last_transaction_version
    }
}


/// delegated_staking_pools: the first version at which a delegation pool was seen.
#[derive(Clone, Debug, PartialEq, Eq)]
pub struct DelegatorPool {
    pub staking_pool_address: String,
    pub first_transaction_version: i64,
}

pub struct DelegatorPoolView {
    pub staking_pool_address: Seq<char>,
    pub first_transaction_version: i64,
}

impl View for DelegatorPool {
    type V = DelegatorPoolView;

    open spec fn view(&self) -> DelegatorPoolView {
        DelegatorPoolView {
            staking_pool_address: self.staking_pool_address@,
            first_transaction_version: self.first_transaction_version,
        }
    }
}

impl PrimaryKey for DelegatorPoolView {
    open spec fn pk(&self) -> Seq<u8> {
        key_part(self.staking_pool_address)
    }

    open spec fn version(&self) -> i64 {
        self.first_transaction_version
    }
}


/// delegated_staking_pool_balances: a pool's balance as of one version.
#[derive(Clone, Debug, PartialEq, Eq)]
pub struct DelegatorPoolBalance {
    pub transaction_version: i64,
    pub staking_pool_address: String,
    pub total_coins: u64,
    pub total_shares: u64,
    pub operator_commission_percentage: u64,
    pub inactive_table_handle: String,
    pub active_table_handle: String,
}

pub struct DelegatorPoolBalanceView {
    pub transaction_version: i64,
    pub staking_pool_address: Seq<char>,
    pub total_coins: u64,
    pub total_shares: u64,
    pub operator_commission_percentage: u64,
    pub inactive_table_handle: Seq<char>,
    pub active_table_handle: Seq<char>,
}

impl View for DelegatorPoolBalance {
    type V = DelegatorPoolBalanceView;

    open spec fn view(&self) -> DelegatorPoolBalanceView {
        DelegatorPoolBalanceView {
            transaction_version: self.transaction_version,
            staking_pool_address: self.staking_pool_address@,
            total_coins: self.total_coins,
            total_shares: self.total_shares,
            operator_commission_percentage: self.operator_commission_percentage,
            inactive_table_handle: self.inactive_table_handle@,
            active_table_handle: self.active_table_handle@,
        }
    }
}

/// current_delegated_staking_pool_balances: a pool's latest balance.
#[derive(Clone, Debug, PartialEq, Eq)]
pub struct CurrentDelegatorPoolBalance {
    pub staking_pool_address: String,
    pub total_coins: u64,
    pub total_shares: u64,
    pub last_transaction_version: i64,
    pub operator_commission_percentage: u64,
    pub inactive_table_handle: String,
    pub active_table_handle: String,
}

pub struct CurrentDelegatorPoolBalanceView {
    pub staking_pool_address: Seq<char>,
    pub total_coins: u64,
    pub total_shares: u64,
    pub last_transaction_version: i64,
    pub operator_commission_percentage: u64,
    pub inactive_table_handle: Seq<char>,
    pub active_table_handle: Seq<char>,
}

impl View for CurrentDelegatorPoolBalance {
    type V = CurrentDelegatorPoolBalanceView;

    open spec fn view(&self) -> CurrentDelegatorPoolBalanceView {
        CurrentDelegatorPoolBalanceView {
            staking_pool_address: self.staking_pool_address@,
            total_coins: self.total_coins,
            total_shares: self.total_shares,
            last_transaction_version: self.last_transaction_version,
            operator_commission_percentage: self.operator_commission_percentage,
            inactive_table_handle: self.inactive_table_handle@,
            active_table_handle: self.active_table_handle@,
        }
    }
}

impl PrimaryKey for CurrentDelegatorPoolBalanceView {
    open spec fn pk(&self) -> Seq<u8> {
        key_part(self.staking_pool_address)
    }

    open spec fn version(&self) -> i64 {
        self.last_transaction_version
    }
}


/// current_delegated_voter: a delegator's voter in one delegation pool.
#[derive(Clone, Debug, PartialEq, Eq)]
pub struct CurrentDelegatedVoter {
    pub delegation_pool_address: String,
    pub delegator_address: String,
    pub table_handle: Option<String>,
    pub voter: Option<String>,
    pub pending_voter: Option<String>,
    pub last_transaction_version: i64,
    pub last_transaction_timestamp: Timestamp,
}

pub struct CurrentDelegatedVoterView {
    pub delegation_pool_address: Seq<char>,
    pub delegator_address: Seq<char>,
    pub table_handle: Option<Seq<char>>,
    pub voter: Option<Seq<char>>,
    pub pending_voter: Option<Seq<char>>,
    pub last_transaction_version: i64,
    pub last_transaction_timestamp: Timestamp,
}

impl View for CurrentDelegatedVoter {
    type V = CurrentDelegatedVoterView;

    open spec fn view(&self) -> CurrentDelegatedVoterView {
        CurrentDelegatedVoterView {
            delegation_pool_address: self.delegation_pool_address@,
            delegator_address: self.delegator_address@,
            table_handle: opt_text(self.table_handle),
            voter: opt_text(self.voter),
            pending_voter: opt_text(self.pending_voter),
            last_transaction_version: self.last_transaction_version,
            last_transaction_timestamp: self.last_transaction_timestamp,
        }
    }
}

impl PrimaryKey for CurrentDelegatedVoterView {
    open spec fn pk(&self) -> Seq<u8> {
        key_part(self.delegation_pool_address) + key_part(self.delegator_address)
    }

    open spec fn version(&self) -> i64 {
        self.last_transaction_version
    }
}



impl PrimaryKey for ProposalVoteView {
    open spec fn pk(&self) -> Seq<u8> {
        u64_key(self.transaction_version as u64) + u64_key(self.proposal_id as u64) + key_part(self.voter_address)
    }

    open spec fn version(&self) -> i64 {
        self.transaction_version
    }
}

impl PrimaryKey for DelegatedStakingActivityView {
    open spec fn pk(&self) -> Seq<u8> {
        u64_key(self.transaction_version as u64) + u64_key(self.event_index as u64)
    }

    open spec fn version(&self) -> i64 {
        self.transaction_version
    }
}

impl PrimaryKey for DelegatorBalanceView {
    open spec fn pk(&self) -> Seq<u8> {
        u64_key(self.transaction_version as u64) + u64_key(self.write_set_change_index as u64)
    }

    open spec fn version(&self) -> i64 {
        self.transaction_version
    }
}

impl PrimaryKey for DelegatorPoolBalanceView {
    open spec fn pk(&self) -> Seq<u8> {
        u64_key(self.transaction_version as u64) + key_part(self.staking_pool_address)
    }

    open spec fn version(&self) -> i64 {
        self.transaction_version
    }
}

} // verus!
