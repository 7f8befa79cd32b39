//! The stake processor: from a batch of transactions to the statements that
//! persist it, each with the chunk size its table is written in.

use vstd::prelude::*;
use vstd::seq_lib::to_multiset_contains;
use crate::keyed::{sorted_permutation_of, sorted_rows_of, PrimaryKey};
use ahash::AHashMap;
use crate::chunks::{chunk_size_for, get_config_table_chunk_size};
use crate::rows::{CurrentDelegatedVoter, CurrentDelegatorBalance, CurrentDelegatorPoolBalance, CurrentStakingPoolVoter, DelegatedStakingActivity, DelegatorBalance, DelegatorPool, DelegatorPoolBalance, ProposalVote};
use crate::stake::{
    PriorView,
    batch_fold, batch_rows_match, lemma_batch_versions, versions_of, parsable, parse_error_of, parse_stake_data, ParseError, PriorState,
    StakeBatch,
};
use crate::txn::{Timestamp, Transaction};
use crate::upsert::{
    insert_current_stake_pool_voter_query, insert_proposal_votes_query, insert_delegator_activities_query, insert_delegator_balances_query, insert_current_delegator_balances_query, insert_delegator_pools_query, insert_delegator_pool_balances_query, insert_current_delegator_pool_balances_query, insert_current_delegated_voter_query,
    apply_rows, lemma_batches_commute, lemma_rows_stored, lemma_stored_rows_ignored, order_free, ConflictAction, TableRow, UpsertQuery,
};

verus! {

/// Retries of a read against the store, by default.
pub const QUERY_DEFAULT_RETRIES: u32 = 5;

/// Delay between retries of a read, in milliseconds, by default.
pub const QUERY_DEFAULT_RETRY_DELAY_MS: u64 = 500;

/// Settings of the stake processor.
#[derive(Clone, Copy, Debug, PartialEq, Eq, Structural)]
pub struct StakeProcessorConfig {
    pub query_retries: u32,
    pub query_retry_delay_ms: u64,
}

impl Default for StakeProcessorConfig {
    fn default() -> (r: Self)
        ensures
            r.query_retries == QUERY_DEFAULT_RETRIES,
            r.query_retry_delay_ms == QUERY_DEFAULT_RETRY_DELAY_MS,
    {
        StakeProcessorConfig {
            query_retries: QUERY_DEFAULT_RETRIES,
            query_retry_delay_ms: QUERY_DEFAULT_RETRY_DELAY_MS,
        }
    }
}

/// The statement for one table and the chunk size it is written in.
pub struct TableWrite<R> {
    pub query: UpsertQuery<R>,
    pub where_clause: Option<&'static str>,
    pub chunk_size: usize,
}

/// The statements that persist one batch, one per stake table.
pub struct StakeWritePlan {
    pub current_stake_pool_voters: TableWrite<CurrentStakingPoolVoter>,
    pub proposal_votes: TableWrite<ProposalVote>,
    pub delegator_activities: TableWrite<DelegatedStakingActivity>,
    pub delegator_balances: TableWrite<DelegatorBalance>,
    pub current_delegator_balances: TableWrite<CurrentDelegatorBalance>,
    pub delegator_pools: TableWrite<DelegatorPool>,
    pub delegator_pool_balances: TableWrite<DelegatorPoolBalance>,
    pub current_delegator_pool_balances: TableWrite<CurrentDelegatorPoolBalance>,
    pub current_delegated_voters: TableWrite<CurrentDelegatedVoter>,
}

/// The rows the plan writes, table by table.
pub open spec fn plan_rows(p: StakeWritePlan) -> StakeBatch {
    StakeBatch {
        current_stake_pool_voters: p.current_stake_pool_voters.query.rows,
        proposal_votes: p.proposal_votes.query.rows,
        delegator_activities: p.delegator_activities.query.rows,
        delegator_balances: p.delegator_balances.query.rows,
        current_delegator_balances: p.current_delegator_balances.query.rows,
        delegator_pools: p.delegator_pools.query.rows,
        delegator_pool_balances: p.delegator_pool_balances.query.rows,
        current_delegator_pool_balances: p.current_delegator_pool_balances.query.rows,
        current_delegated_voters: p.current_delegated_voters.query.rows,
    }
}

/// Every table of `p` is written to its own table, with its own conflict
/// policy and guard, in its own chunk size.
pub open spec fn plan_policies(p: StakeWritePlan, sizes: AHashMap<String, usize>) -> bool {
    &&& p.current_stake_pool_voters.query.table == "current_staking_pool_voter"
    &&& p.current_stake_pool_voters.query.action == ConflictAction::UpdateIfNotNewer
    &&& p.current_stake_pool_voters.where_clause == Some(" WHERE current_staking_pool_voter.last_transaction_version <= EXCLUDED.last_transaction_version ")
    &&& p.current_stake_pool_voters.chunk_size == chunk_size_for(sizes, "current_staking_pool_voter"@, CurrentStakingPoolVoter::spec_field_count())
    &&& p.proposal_votes.query.table == "proposal_votes"
    &&& p.proposal_votes.query.action == ConflictAction::DoNothing
    &&& p.proposal_votes.where_clause == None::<&'static str>
    &&& p.proposal_votes.chunk_size == chunk_size_for(sizes, "proposal_votes"@, ProposalVote::spec_field_count())
    &&& p.delegator_activities.query.table == "delegated_staking_activities"
    &&& p.delegator_activities.query.action == ConflictAction::DoNothing
    &&& p.delegator_activities.where_clause == None::<&'static str>
    &&& p.delegator_activities.chunk_size == chunk_size_for(sizes, "delegated_staking_activities"@, DelegatedStakingActivity::spec_field_count())
    &&& p.delegator_balances.query.table == "delegator_balances"
    &&& p.delegator_balances.query.action == ConflictAction::DoNothing
    &&& p.delegator_balances.where_clause == None::<&'static str>
    &&& p.delegator_balances.chunk_size == chunk_size_for(sizes, "delegator_balances"@, DelegatorBalance::spec_field_count())
    &&& p.current_delegator_balances.query.table == "current_delegator_balances"
    &&& p.current_delegator_balances.query.action == ConflictAction::UpdateIfNotNewer
    &&& p.current_delegator_balances.where_clause == Some(" WHERE current_delegator_balances.last_transaction_version <= EXCLUDED.last_transaction_version ")
    &&& p.current_delegator_balances.chunk_size == chunk_size_for(sizes, "current_delegator_balances"@, CurrentDelegatorBalance::spec_field_count())
    &&& p.delegator_pools.query.table == "delegated_staking_pools"
    &&& p.delegator_pools.query.action == ConflictAction::UpdateIfNotOlder
    &&& p.delegator_pools.where_clause == Some(" WHERE delegated_staking_pools.first_transaction_version >= EXCLUDED.first_transaction_version ")
    &&& p.delegator_pools.chunk_size == chunk_size_for(sizes, "delegated_staking_pools"@, DelegatorPool::spec_field_count())
    &&& p.delegator_pool_balances.query.table == "delegated_staking_pool_balances"
    &&& p.delegator_pool_balances.query.action == ConflictAction::DoNothing
    &&& p.delegator_pool_balances.where_clause == None::<&'static str>
    &&& p.delegator_pool_balances.chunk_size == chunk_size_for(sizes, "delegated_staking_pool_balances"@, DelegatorPoolBalance::spec_field_count())
    &&& p.current_delegator_pool_balances.query.table == "current_delegated_staking_pool_balances"
    &&& p.current_delegator_pool_balances.query.action == ConflictAction::UpdateIfNotNewer
    &&& p.current_delegator_pool_balances.where_clause == Some(" WHERE current_delegated_staking_pool_balances.last_transaction_version <= EXCLUDED.last_transaction_version ")
    &&& p.current_delegator_pool_balances.chunk_size == chunk_size_for(sizes, "current_delegated_staking_pool_balances"@, CurrentDelegatorPoolBalance::spec_field_count())
    &&& p.current_delegated_voters.query.table == "current_delegated_voter"
    &&& p.current_delegated_voters.query.action == ConflictAction::UpdateIfNotNewer
    &&& p.current_delegated_voters.where_clause == Some(" WHERE current_delegated_voter.last_transaction_version <= EXCLUDED.last_transaction_version ")
    &&& p.current_delegated_voters.chunk_size == chunk_size_for(sizes, "current_delegated_voter"@, CurrentDelegatedVoter::spec_field_count())
}

/// Builds the statements that persist `batch`.
pub fn plan_stake_writes(batch: StakeBatch, per_table_chunk_sizes: &AHashMap<String, usize>) -> (p: StakeWritePlan)
    ensures
        plan_rows(p) == batch,
        plan_policies(p, *per_table_chunk_sizes),
{
    let (query, where_clause) = insert_current_stake_pool_voter_query(batch.current_stake_pool_voters);
    let current_stake_pool_voters = TableWrite {
        query,
        where_clause,
        chunk_size: get_config_table_chunk_size("current_staking_pool_voter", per_table_chunk_sizes, CurrentStakingPoolVoter::field_count()),
    };
    let (query, where_clause) = insert_proposal_votes_query(batch.proposal_votes);
    let proposal_votes = TableWrite {
        query,
        where_clause,
        chunk_size: get_config_table_chunk_size("proposal_votes", per_table_chunk_sizes, ProposalVote::field_count()),
    };
    let (query, where_clause) = insert_delegator_activities_query(batch.delegator_activities);
    let delegator_activities = TableWrite {
        query,
        where_clause,
        chunk_size: get_config_table_chunk_size("delegated_staking_activities", per_table_chunk_sizes, DelegatedStakingActivity::field_count()),
    };
    let (query, where_clause) = insert_delegator_balances_query(batch.delegator_balances);
    let delegator_balances = TableWrite {
        query,
        where_clause,
        chunk_size: get_config_table_chunk_size("delegator_balances", per_table_chunk_sizes, DelegatorBalance::field_count()),
    };
    let (query, where_clause) = insert_current_delegator_balances_query(batch.current_delegator_balances);
    let current_delegator_balances = TableWrite {
        query,
        where_clause,
        chunk_size: get_config_table_chunk_size("current_delegator_balances", per_table_chunk_sizes, CurrentDelegatorBalance::field_count()),
    };
    let (query, where_clause) = insert_delegator_pools_query(batch.delegator_pools);
    let delegator_pools = TableWrite {
        query,
        where_clause,
        chunk_size: get_config_table_chunk_size("delegated_staking_pools", per_table_chunk_sizes, DelegatorPool::field_count()),
    };
    let (query, where_clause) = insert_delegator_pool_balances_query(batch.delegator_pool_balances);
    let delegator_pool_balances = TableWrite {
        query,
        where_clause,
        chunk_size: get_config_table_chunk_size("delegated_staking_pool_balances", per_table_chunk_sizes, DelegatorPoolBalance::field_count()),
    };
    let (query, where_clause) = insert_current_delegator_pool_balances_query(batch.current_delegator_pool_balances);
    let current_delegator_pool_balances = TableWrite {
        query,
        where_clause,
        chunk_size: get_config_table_chunk_size("current_delegated_staking_pool_balances", per_table_chunk_sizes, CurrentDelegatorPoolBalance::field_count()),
    };
    let (query, where_clause) = insert_current_delegated_voter_query(batch.current_delegated_voters);
    let current_delegated_voters = TableWrite {
        query,
        where_clause,
        chunk_size: get_config_table_chunk_size("current_delegated_voter", per_table_chunk_sizes, CurrentDelegatedVoter::field_count()),
    };
    let p = StakeWritePlan {
        current_stake_pool_voters,
        proposal_votes,
        delegator_activities,
        delegator_balances,
        current_delegator_balances,
        delegator_pools,
        delegator_pool_balances,
        current_delegator_pool_balances,
        current_delegated_voters,
    };
    assert(plan_rows(p) == batch);
    p
}

/// What processing a batch yields: its version range, the timestamp of its
/// last transaction, and the statements that persist it.
pub struct StakeProcessing {
    pub start_version: u64,
    pub end_version: u64,
    pub last_transaction_timestamp: Option<Timestamp>,
    pub writes: StakeWritePlan,
}

/// The stake processor: its settings and the chunk sizes configured per
/// table.
pub struct StakeProcessor {
    pub config: StakeProcessorConfig,
    pub per_table_chunk_sizes: AHashMap<String, usize>,
}

impl StakeProcessor {
    pub fn new(config: StakeProcessorConfig, per_table_chunk_sizes: AHashMap<String, usize>) -> (r: Self)
        ensures
            r.config == config,
            r.per_table_chunk_sizes == per_table_chunk_sizes,
    {
        StakeProcessor { config, per_table_chunk_sizes }
    }

    pub fn name(&self) -> (r: &'static str)
        ensures
            r == "stake_processor",
    {
        "stake_processor"
    }

    /// Derives the rows of a batch and the statements that persist them.
    ///
    /// A batch holds at least one transaction. Fails exactly when
    /// `parse_stake_data` does.
    pub fn process_transactions(
        &self,
        transactions: Vec<Transaction>,
        start_version: u64,
        end_version: u64,
        prior: &PriorState,
    ) -> (r: Result<StakeProcessing, ParseError>)
        requires
            transactions@.len() > 0,
            prior.wf(),
        ensures
            match r {
                Ok(p) => {
                    &&& forall|i: int| 0 <= i < transactions@.len() ==> parsable(#[trigger] transactions@[i])
                    &&& p.start_version == start_version
                    &&& p.end_version == end_version
                    &&& p.last_transaction_timestamp == transactions@[transactions@.len() - 1].timestamp
                    &&& batch_rows_match(plan_rows(p.writes), batch_fold(transactions@, prior.view(), transactions@.len()))
                    &&& plan_policies(p.writes, self.per_table_chunk_sizes)
                },
                Err(e) => exists|i: int|
                    0 <= i < transactions@.len() && !parsable(#[trigger] transactions@[i]) && (forall|j: int|
                        0 <= j < i ==> parsable(#[trigger] transactions@[j])) && e == parse_error_of(transactions@[i]),
            },
    {
        let last_transaction_timestamp = transactions[transactions.len() - 1].timestamp;
        match parse_stake_data(&transactions, prior) {
            Ok(batch) => {
                let writes = plan_stake_writes(batch, &self.per_table_chunk_sizes);
                Ok(StakeProcessing { start_version, end_version, last_transaction_timestamp, writes })
            },
            Err(e) => Err(e),
        }
    }
}

/// No transaction of `t1` shares its version with one of `t2`.
pub open spec fn versions_disjoint(t1: Seq<Transaction>, t2: Seq<Transaction>) -> bool {
    forall|i: int, j: int| 0 <= i < t1.len() && 0 <= j < t2.len() ==> t1[i].version != t2[j].version
}

proof fn lemma_disjoint_versions(t1: Seq<Transaction>, t2: Seq<Transaction>, x: i64, y: i64)
    requires
        versions_disjoint(t1, t2),
        versions_of(t1).contains(x),
        versions_of(t2).contains(y),
    ensures
        x != y,
{
    let i = choose|i: int| 0 <= i < t1.len() && t1[i].version == x;
    let j = choose|j: int| 0 <= j < t2.len() && t2[j].version == y;
    assert(t1[i].version != t2[j].version);
}

/// Every row of `m` carries one of the versions in `vs`.
pub open spec fn versions_within<V: PrimaryKey>(m: Map<Seq<u8>, V>, vs: Set<i64>) -> bool {
    forall|k: Seq<u8>| #[trigger] m.contains_key(k) ==> vs.contains(m[k].version())
}

/// The rows of one table from two batches over disjoint versions commute
/// under a guarded update.
proof fn lemma_disjoint_rows_commute<R: TableRow + View>(
    s: Map<Seq<u8>, R>,
    r1: Seq<R>,
    r2: Seq<R>,
    v1: Seq<R::V>,
    v2: Seq<R::V>,
    m1: Map<Seq<u8>, R::V>,
    m2: Map<Seq<u8>, R::V>,
    t1: Seq<Transaction>,
    t2: Seq<Transaction>,
    action: ConflictAction,
) where R::V: PrimaryKey
    requires
        action != ConflictAction::DoNothing,
        v1.len() == r1.len(),
        v2.len() == r2.len(),
        forall|i: int| 0 <= i < r1.len() ==> v1[i] == (#[trigger] r1[i])@ && r1[i].spec_watermark() == v1[i].version(),
        forall|i: int| 0 <= i < r2.len() ==> v2[i] == (#[trigger] r2[i])@ && r2[i].spec_watermark() == v2[i].version(),
        sorted_rows_of(v1, m1),
        sorted_rows_of(v2, m2),
        versions_within(m1, versions_of(t1)),
        versions_within(m2, versions_of(t2)),
        versions_disjoint(t1, t2),
    ensures
        apply_rows(apply_rows(s, r1, action), r2, action) == apply_rows(apply_rows(s, r2, action), r1, action),
{
    assert forall|i: int, j: int| 0 <= i < r1.len() && 0 <= j < r2.len() implies order_free(
        #[trigger] r1[i],
        #[trigger] r2[j],
        action,
    ) by {
        assert(m1.contains_key(v1[i].pk()));
        assert(m2.contains_key(v2[j].pk()));
        lemma_disjoint_versions(t1, t2, v1[i].version(), v2[j].version());
    }
    lemma_batches_commute(s, r1, r2, action);
}

/// Two batches over disjoint versions, written to the same store in either
/// order, leave every current table and `delegated_staking_pools` in the same
/// state: their rows never tie on a version, so each guard settles every key
/// the same way whichever batch lands first.
pub proof fn lemma_disjoint_batches_commute(
    t1: Seq<Transaction>,
    t2: Seq<Transaction>,
    prior1: PriorView,
    prior2: PriorView,
    b1: StakeBatch,
    b2: StakeBatch,
    voters: Map<Seq<u8>, CurrentStakingPoolVoter>,
    balances: Map<Seq<u8>, CurrentDelegatorBalance>,
    pools: Map<Seq<u8>, DelegatorPool>,
    pool_balances: Map<Seq<u8>, CurrentDelegatorPoolBalance>,
    delegated_voters: Map<Seq<u8>, CurrentDelegatedVoter>,
)
    requires
        batch_rows_match(b1, batch_fold(t1, prior1, t1.len())),
        batch_rows_match(b2, batch_fold(t2, prior2, t2.len())),
        versions_disjoint(t1, t2),
    ensures
        apply_rows(apply_rows(voters, b1.current_stake_pool_voters@, ConflictAction::UpdateIfNotNewer), b2.current_stake_pool_voters@, ConflictAction::UpdateIfNotNewer)
            == apply_rows(apply_rows(voters, b2.current_stake_pool_voters@, ConflictAction::UpdateIfNotNewer), b1.current_stake_pool_voters@, ConflictAction::UpdateIfNotNewer),
        apply_rows(apply_rows(balances, b1.current_delegator_balances@, ConflictAction::UpdateIfNotNewer), b2.current_delegator_balances@, ConflictAction::UpdateIfNotNewer)
            == apply_rows(apply_rows(balances, b2.current_delegator_balances@, ConflictAction::UpdateIfNotNewer), b1.current_delegator_balances@, ConflictAction::UpdateIfNotNewer),
        apply_rows(apply_rows(pools, b1.delegator_pools@, ConflictAction::UpdateIfNotOlder), b2.delegator_pools@, ConflictAction::UpdateIfNotOlder)
            == apply_rows(apply_rows(pools, b2.delegator_pools@, ConflictAction::UpdateIfNotOlder), b1.delegator_pools@, ConflictAction::UpdateIfNotOlder),
        apply_rows(apply_rows(pool_balances, b1.current_delegator_pool_balances@, ConflictAction::UpdateIfNotNewer), b2.current_delegator_pool_balances@, ConflictAction::UpdateIfNotNewer)
            == apply_rows(apply_rows(pool_balances, b2.current_delegator_pool_balances@, ConflictAction::UpdateIfNotNewer), b1.current_delegator_pool_balances@, ConflictAction::UpdateIfNotNewer),
        apply_rows(apply_rows(delegated_voters, b1.current_delegated_voters@, ConflictAction::UpdateIfNotNewer), b2.current_delegated_voters@, ConflictAction::UpdateIfNotNewer)
            == apply_rows(apply_rows(delegated_voters, b2.current_delegated_voters@, ConflictAction::UpdateIfNotNewer), b1.current_delegated_voters@, ConflictAction::UpdateIfNotNewer),
{
    lemma_batch_versions(t1, prior1, t1.len());
    lemma_batch_versions(t2, prior2, t2.len());
    let v1 = batch_fold(t1, prior1, t1.len());
    let v2 = batch_fold(t2, prior2, t2.len());
    lemma_disjoint_rows_commute(
        voters,
        b1.current_stake_pool_voters@,
        b2.current_stake_pool_voters@,
        b1.current_stake_pool_voters@.map_values(|r: CurrentStakingPoolVoter| r@),
        b2.current_stake_pool_voters@.map_values(|r: CurrentStakingPoolVoter| r@),
        v1.current_stake_pool_voters,
        v2.current_stake_pool_voters,
        t1,
        t2,
        ConflictAction::UpdateIfNotNewer,
    );
    lemma_disjoint_rows_commute(
        balances,
        b1.current_delegator_balances@,
        b2.current_delegator_balances@,
        b1.current_delegator_balances@.map_values(|r: CurrentDelegatorBalance| r@),
        b2.current_delegator_balances@.map_values(|r: CurrentDelegatorBalance| r@),
        v1.current_delegator_balances,
        v2.current_delegator_balances,
        t1,
        t2,
        ConflictAction::UpdateIfNotNewer,
    );
    lemma_disjoint_rows_commute(
        pools,
        b1.delegator_pools@,
        b2.delegator_pools@,
        b1.delegator_pools@.map_values(|r: DelegatorPool| r@),
        b2.delegator_pools@.map_values(|r: DelegatorPool| r@),
        v1.delegator_pools,
        v2.delegator_pools,
        t1,
        t2,
        ConflictAction::UpdateIfNotOlder,
    );
    lemma_disjoint_rows_commute(
        pool_balances,
        b1.current_delegator_pool_balances@,
        b2.current_delegator_pool_balances@,
        b1.current_delegator_pool_balances@.map_values(|r: CurrentDelegatorPoolBalance| r@),
        b2.current_delegator_pool_balances@.map_values(|r: CurrentDelegatorPoolBalance| r@),
        v1.current_delegator_pool_balances,
        v2.current_delegator_pool_balances,
        t1,
        t2,
        ConflictAction::UpdateIfNotNewer,
    );
    lemma_disjoint_rows_commute(
        delegated_voters,
        b1.current_delegated_voters@,
        b2.current_delegated_voters@,
        b1.current_delegated_voters@.map_values(|r: CurrentDelegatedVoter| r@),
        b2.current_delegated_voters@.map_values(|r: CurrentDelegatedVoter| r@),
        v1.current_delegated_voters,
        v2.current_delegated_voters,
        t1,
        t2,
        ConflictAction::UpdateIfNotNewer,
    );
}

/// Rows of one append-only table derived twice from the same model: the
/// second do-nothing statement finds every key stored and changes nothing.
proof fn lemma_same_rows_reingested<R: TableRow + View>(
    s: Map<Seq<u8>, R>,
    r1: Seq<R>,
    r2: Seq<R>,
    v1: Seq<R::V>,
    v2: Seq<R::V>,
    model: Seq<R::V>,
) where R::V: PrimaryKey
    requires
        v1.len() == r1.len(),
        v2.len() == r2.len(),
        forall|i: int| 0 <= i < r1.len() ==> v1[i] == (#[trigger] r1[i])@ && r1[i].spec_pk() == v1[i].pk(),
        forall|i: int| 0 <= i < r2.len() ==> v2[i] == (#[trigger] r2[i])@ && r2[i].spec_pk() == v2[i].pk(),
        sorted_permutation_of(v1, model),
        sorted_permutation_of(v2, model),
    ensures
        apply_rows(apply_rows(s, r1, ConflictAction::DoNothing), r2, ConflictAction::DoNothing) == apply_rows(
            s,
            r1,
            ConflictAction::DoNothing,
        ),
{
    let s1 = apply_rows(s, r1, ConflictAction::DoNothing);
    lemma_rows_stored(s, r1, ConflictAction::DoNothing);
    assert forall|i: int| 0 <= i < r2.len() implies s1.contains_key(#[trigger] r2[i].spec_pk()) by {
        to_multiset_contains(v2, v2[i]);
        assert(v2.contains(v2[i]));
        to_multiset_contains(v1, v2[i]);
        let j = choose|j: int| 0 <= j < v1.len() && v1[j] == v2[i];
        assert(s1.contains_key(r1[j].spec_pk()));
    }
    lemma_stored_rows_ignored(s1, r2);
}

/// Ingesting a batch a second time, with the same prior store state, leaves
/// the append-only tables as the first time did.
pub proof fn lemma_reingest_append_only_noop(
    txns: Seq<Transaction>,
    prior: PriorView,
    b1: StakeBatch,
    b2: StakeBatch,
    votes: Map<Seq<u8>, ProposalVote>,
    activities: Map<Seq<u8>, DelegatedStakingActivity>,
    balances: Map<Seq<u8>, DelegatorBalance>,
    pool_balances: Map<Seq<u8>, DelegatorPoolBalance>,
)
    requires
        batch_rows_match(b1, batch_fold(txns, prior, txns.len())),
        batch_rows_match(b2, batch_fold(txns, prior, txns.len())),
    ensures
        apply_rows(apply_rows(votes, b1.proposal_votes@, ConflictAction::DoNothing), b2.proposal_votes@, ConflictAction::DoNothing)
            == apply_rows(votes, b1.proposal_votes@, ConflictAction::DoNothing),
        apply_rows(apply_rows(activities, b1.delegator_activities@, ConflictAction::DoNothing), b2.delegator_activities@, ConflictAction::DoNothing)
            == apply_rows(activities, b1.delegator_activities@, ConflictAction::DoNothing),
        apply_rows(apply_rows(balances, b1.delegator_balances@, ConflictAction::DoNothing), b2.delegator_balances@, ConflictAction::DoNothing)
            == apply_rows(balances, b1.delegator_balances@, ConflictAction::DoNothing),
        apply_rows(apply_rows(pool_balances, b1.delegator_pool_balances@, ConflictAction::DoNothing), b2.delegator_pool_balances@, ConflictAction::DoNothing)
            == apply_rows(pool_balances, b1.delegator_pool_balances@, ConflictAction::DoNothing),
{
    let v = batch_fold(txns, prior, txns.len());
    lemma_same_rows_reingested(
        votes,
        b1.proposal_votes@,
        b2.proposal_votes@,
        b1.proposal_votes@.map_values(|r: ProposalVote| r@),
        b2.proposal_votes@.map_values(|r: ProposalVote| r@),
        v.proposal_votes,
    );
    lemma_same_rows_reingested(
        activities,
        b1.delegator_activities@,
        b2.delegator_activities@,
        b1.delegator_activities@.map_values(|r: DelegatedStakingActivity| r@),
        b2.delegator_activities@.map_values(|r: DelegatedStakingActivity| r@),
        v.delegator_activities,
    );
    lemma_same_rows_reingested(
        balances,
        b1.delegator_balances@,
        b2.delegator_balances@,
        b1.delegator_balances@.map_values(|r: DelegatorBalance| r@),
        b2.delegator_balances@.map_values(|r: DelegatorBalance| r@),
        v.delegator_balances,
    );
    lemma_same_rows_reingested(
        pool_balances,
        b1.delegator_pool_balances@,
        b2.delegator_pool_balances@,
        b1.delegator_pool_balances@.map_values(|r: DelegatorPoolBalance| r@),
        b2.delegator_pool_balances@.map_values(|r: DelegatorPoolBalance| r@),
        v.delegator_pool_balances,
    );
}

} // verus!
