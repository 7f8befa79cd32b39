//! The input model: committed transactions and their write-set changes, with
//! resource and table-item payloads already decoded into typed variants.

use vstd::prelude::*;

verus! {

/// A point in time as carried by a transaction.
#[derive(Clone, Copy, Debug, PartialEq, Eq, Structural)]
pub struct Timestamp {
    pub seconds: i64,
    pub nanos: i32,
}

/// A decoded on-chain resource.
#[derive(Clone, Debug, PartialEq, Eq)]
pub enum ResourcePayload {
    /// A stake pool, with its operator and delegated voter.
    StakePool { operator_address: String, delegated_voter: String },
    /// A delegation pool: its share tables and its balance.
    DelegationPool {
        active_shares_handle: String,
        inactive_shares_handle: String,
        total_coins: u64,
        total_shares: u64,
        operator_commission_percentage: u64,
    },
    /// Governance records of a delegation pool: the table of vote delegations.
    GovernanceRecords { vote_delegation_handle: String },
    Other,
}

/// A decoded table item.
#[derive(Clone, Debug, PartialEq, Eq)]
pub enum TableItemPayload {
    /// A delegator's shares in one of a pool's share tables.
    DelegatorShares { delegator_address: String, shares: u64 },
    /// A delegator's voter and pending voter.
    VoteDelegation { delegator_address: String, voter: String, pending_voter: String },
    Other,
}

/// One mutation of on-chain state.
#[derive(Clone, Debug, PartialEq, Eq)]
pub enum WriteSetChange {
    WriteResource { address: String, payload: ResourcePayload },
    WriteTableItem { handle: String, item: TableItemPayload },
    Other,
}

/// A decoded event.
#[derive(Clone, Debug, PartialEq, Eq)]
pub enum EventPayload {
    /// A vote on a governance proposal.
    GovernanceVote {
        proposal_id: i64,
        voter_address: String,
        staking_pool_address: String,
        num_votes: u64,
        should_pass: bool,
    },
    /// An add, unlock, reactivate or withdraw on a delegation pool.
    DelegationActivity {
        event_type: String,
        pool_address: String,
        delegator_address: String,
        amount: u64,
    },
    Other,
}

#[derive(Clone, Debug, PartialEq, Eq)]
pub struct TransactionInfo {
    pub changes: Vec<WriteSetChange>,
}

/// A committed transaction.
#[derive(Clone, Debug, PartialEq, Eq)]
pub struct Transaction {
    pub version: i64,
    pub timestamp: Option<Timestamp>,
    pub info: Option<TransactionInfo>,
    pub events: Vec<EventPayload>,
}

} // verus!
