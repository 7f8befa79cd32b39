//! The stake processor: derives the rows of every stake table from a batch of
//! transactions.
//!
//! Within a batch the current tables keep the last state observed per primary
//! key (the earliest for `delegated_staking_pools`), and each collection comes
//! out sorted ascending by its encoded primary key.

use vstd::prelude::*;
use vstd::seq_lib::to_multiset_build;
use crate::address::{lemma_normalize_idempotent, normalize, standardize_address};
use crate::keyed::{sorted_permutation_of, SortedRows, keyed_by_pk, lemma_view_contents_insert, sorted_rows_of, KeyedRows, PrimaryKey};
use crate::rows::{
    key_part, push_key_part, CurrentDelegatedVoter, CurrentDelegatedVoterView,
    CurrentDelegatorBalance, CurrentDelegatorBalanceView, CurrentDelegatorPoolBalance,
    CurrentDelegatorPoolBalanceView, CurrentStakingPoolVoter, DelegatedStakingActivity,
    DelegatedStakingActivityView, DelegatorBalance, DelegatorBalanceView, DelegatorPool,
    DelegatorPoolBalance, DelegatorPoolBalanceView, DelegatorPoolView, ProposalVote,
    ProposalVoteView, StakingPoolVoterView,
};
use crate::upsert::TableRow;
use crate::txn::{
    EventPayload, ResourcePayload, TableItemPayload, Timestamp, Transaction, WriteSetChange,
};

verus! {

/// A share table of a delegation pool: the pool it belongs to, and whether it
/// holds active (or else inactive) shares.
pub struct ShareTable {
    pub pool_address: String,
    pub active: bool,
}

pub struct ShareTableView {
    pub pool_address: Seq<char>,
    pub active: bool,
}

impl View for ShareTable {
    type V = ShareTableView;

    open spec fn view(&self) -> ShareTableView {
        ShareTableView { pool_address: self.pool_address@, active: self.active }
    }
}

/// What the store already knew before the batch, as read by the caller:
/// share tables by handle, and the keys of delegated voters already stored.
pub struct PriorState {
    share_tables: KeyedRows<ShareTable>,
    delegated_voters: KeyedRows<()>,
}

pub struct PriorView {
    pub share_tables: Map<Seq<u8>, ShareTableView>,
    pub delegated_voters: Set<Seq<u8>>,
}

impl PriorState {
    /// Well formed, with every pool address in canonical form.
    pub closed spec fn wf(&self) -> bool {
        self.share_tables.wf() && self.delegated_voters.wf() && prior_addresses_canonical(self.view())
    }

    pub closed spec fn view(&self) -> PriorView {
        PriorView {
            share_tables: self.share_tables.view_contents(),
            delegated_voters: self.delegated_voters.contents().dom(),
        }
    }

    pub fn new() -> (r: Self)
        ensures
            r.wf(),
            r.view().share_tables.is_empty(),
            r.view().delegated_voters.is_empty(),
    {
        let r = PriorState { share_tables: KeyedRows::new(), delegated_voters: KeyedRows::new() };
        assert(r.view().share_tables =~= Map::empty());
        assert(r.view().delegated_voters =~= Set::empty());
        r
    }

    /// Records a share table known to the store.
    pub fn add_share_table(&mut self, handle: &str, pool_address: &str, active: bool)
        requires
            old(self).wf(),
        ensures
            final(self).wf(),
            final(self).view().share_tables == old(self).view().share_tables.insert(
                key_part(normalize(handle@)),
                ShareTableView { pool_address: normalize(pool_address@), active },
            ),
            final(self).view().delegated_voters == old(self).view().delegated_voters,
    {
        let h = standardize_address(handle);
        let mut k: Vec<u8> = Vec::new();
        push_key_part(&mut k, h.as_str());
        assert(k@ =~= key_part(normalize(handle@)));
        let t = ShareTable { pool_address: standardize_address(pool_address), active };
        proof {
            lemma_view_contents_insert(self.share_tables.contents(), k@, t);
        }
        let ghost kv = k@;
        self.share_tables.upsert(k, t);
        proof {
            lemma_normalize_idempotent(pool_address@);
            assert forall|x: Seq<u8>| #[trigger] self.view().share_tables.contains_key(x) implies canonical(
                self.view().share_tables[x].pool_address,
            ) by {
                if x != kv {
                    assert(old(self).view().share_tables.contains_key(x));
                }
            }
        }
    }

    /// Records a delegated voter already stored for `(pool, delegator)`.
    pub fn add_delegated_voter(&mut self, pool_address: &str, delegator_address: &str)
        requires
            old(self).wf(),
        ensures
            final(self).wf(),
            final(self).view().delegated_voters == old(self).view().delegated_voters.insert(
                voter_key(normalize(pool_address@), normalize(delegator_address@)),
            ),
            final(self).view().share_tables == old(self).view().share_tables,
    {
        let p = standardize_address(pool_address);
        let d = standardize_address(delegator_address);
        let mut k: Vec<u8> = Vec::new();
        push_key_part(&mut k, p.as_str());
        push_key_part(&mut k, d.as_str());
        assert(k@ =~= voter_key(normalize(pool_address@), normalize(delegator_address@)));
        self.delegated_voters.upsert(k, ());
        assert(self.view().share_tables == old(self).view().share_tables);
        assert(prior_addresses_canonical(self.view()));
        assert(self.view().delegated_voters =~= old(self).view().delegated_voters.insert(
            voter_key(normalize(pool_address@), normalize(delegator_address@)),
        ));
    }
}

pub open spec fn voter_key(pool: Seq<char>, delegator: Seq<char>) -> Seq<u8> {
    key_part(pool) + key_part(delegator)
}

/// The state accumulated over a batch, seen mathematically.
pub struct BatchView {
    pub current_stake_pool_voters: Map<Seq<u8>, StakingPoolVoterView>,
    pub proposal_votes: Seq<ProposalVoteView>,
    pub delegator_activities: Seq<DelegatedStakingActivityView>,
    pub delegator_balances: Seq<DelegatorBalanceView>,
    pub current_delegator_balances: Map<Seq<u8>, CurrentDelegatorBalanceView>,
    pub delegator_pools: Map<Seq<u8>, DelegatorPoolView>,
    pub delegator_pool_balances: Seq<DelegatorPoolBalanceView>,
    pub current_delegator_pool_balances: Map<Seq<u8>, CurrentDelegatorPoolBalanceView>,
    pub current_delegated_voters: Map<Seq<u8>, CurrentDelegatedVoterView>,
    /// vote delegation table handle -> delegation pool address
    pub vote_delegation_handles: Map<Seq<u8>, Seq<char>>,
    /// share table handle -> its pool
    pub share_tables: Map<Seq<u8>, ShareTableView>,
}

pub open spec fn empty_batch() -> BatchView {
    BatchView {
        current_stake_pool_voters: Map::empty(),
        proposal_votes: Seq::empty(),
        delegator_activities: Seq::empty(),
        delegator_balances: Seq::empty(),
        current_delegator_balances: Map::empty(),
        delegator_pools: Map::empty(),
        delegator_pool_balances: Seq::empty(),
        current_delegator_pool_balances: Map::empty(),
        current_delegated_voters: Map::empty(),
        vote_delegation_handles: Map::empty(),
        share_tables: Map::empty(),
    }
}

pub open spec fn pool_type_of(active: bool) -> Seq<char> {
    if active {
        "active_shares"@
    } else {
        "inactive_shares"@
    }
}

/// Effect of one event of a transaction at `version`.
pub open spec fn event_step(acc: BatchView, version: i64, ts: Timestamp, e: EventPayload, index: int) -> BatchView {
    match e {
        EventPayload::GovernanceVote { proposal_id, voter_address, staking_pool_address, num_votes, should_pass } =>
            BatchView {
            proposal_votes: acc.proposal_votes.push(
                ProposalVoteView {
                    transaction_version: version,
                    proposal_id,
                    voter_address: normalize(voter_address@),
                    staking_pool_address: normalize(staking_pool_address@),
                    num_votes,
                    should_pass,
                    transaction_timestamp: ts,
                },
            ),
            ..acc
        },
        EventPayload::DelegationActivity { event_type, pool_address, delegator_address, amount } =>
            BatchView {
            delegator_activities: acc.delegator_activities.push(
                DelegatedStakingActivityView {
                    transaction_version: version,
                    event_index: index as i64,
                    delegator_address: normalize(delegator_address@),
                    pool_address: normalize(pool_address@),
                    event_type: event_type@,
                    amount,
                },
            ),
            ..acc
        },
        EventPayload::Other => acc,
    }
}

/// Effect of one resource write of a transaction at `version`.
pub open spec fn resource_step(acc: BatchView, version: i64, c: WriteSetChange) -> BatchView {
    match c {
        WriteSetChange::WriteResource { address, payload } => {
            let pool = normalize(address@);
            match payload {
                ResourcePayload::StakePool { operator_address, delegated_voter } => BatchView {
                    current_stake_pool_voters: acc.current_stake_pool_voters.insert(
                        key_part(pool),
                        StakingPoolVoterView {
                            staking_pool_address: pool,
                            voter_address: normalize(delegated_voter@),
                            last_transaction_version: version,
                            operator_address: normalize(operator_address@),
                        },
                    ),
                    ..acc
                },
                ResourcePayload::DelegationPool {
                    active_shares_handle,
                    inactive_shares_handle,
                    total_coins,
                    total_shares,
                    operator_commission_percentage,
                } => {
                    let active = normalize(active_shares_handle@);
                    let inactive = normalize(inactive_shares_handle@);
                    BatchView {
                        delegator_pools: if acc.delegator_pools.contains_key(key_part(pool)) {
                            acc.delegator_pools
                        } else {
                            acc.delegator_pools.insert(
                                key_part(pool),
                                DelegatorPoolView { staking_pool_address: pool, first_transaction_version: version },
                            )
                        },
                        delegator_pool_balances: acc.delegator_pool_balances.push(
                            DelegatorPoolBalanceView {
                                transaction_version: version,
                                staking_pool_address: pool,
                                total_coins,
                                total_shares,
                                operator_commission_percentage,
                                inactive_table_handle: inactive,
                                active_table_handle: active,
                            },
                        ),
                        current_delegator_pool_balances: acc.current_delegator_pool_balances.insert(
                            key_part(pool),
                            CurrentDelegatorPoolBalanceView {
                                staking_pool_address: pool,
                                total_coins,
                                total_shares,
                                last_transaction_version: version,
                                operator_commission_percentage,
                                inactive_table_handle: inactive,
                                active_table_handle: active,
                            },
                        ),
                        share_tables: acc.share_tables.insert(
                            key_part(active),
                            ShareTableView { pool_address: pool, active: true },
                        ).insert(key_part(inactive), ShareTableView { pool_address: pool, active: false }),
                        ..acc
                    }
                },
                ResourcePayload::GovernanceRecords { vote_delegation_handle } => BatchView {
                    vote_delegation_handles: acc.vote_delegation_handles.insert(
                        key_part(normalize(vote_delegation_handle@)),
                        pool,
                    ),
                    ..acc
                },
                ResourcePayload::Other => acc,
            }
        },
        _ => acc,
    }
}

/// The share table behind a handle: from this batch first, else from the store.
pub open spec fn share_table_lookup(acc: BatchView, prior: PriorView, hk: Seq<u8>) -> Option<ShareTableView> {
    if acc.share_tables.contains_key(hk) {
        Some(acc.share_tables[hk])
    } else if prior.share_tables.contains_key(hk) {
        Some(prior.share_tables[hk])
    } else {
        None
    }
}

/// Effect of one table-item write (the change at `index`): delegator
/// balances and delegated voters.
pub open spec fn table_step(
    acc: BatchView,
    prior: PriorView,
    version: i64,
    ts: Timestamp,
    c: WriteSetChange,
    index: int,
) -> BatchView {
    match c {
        WriteSetChange::WriteTableItem { handle, item } => {
            let h = normalize(handle@);
            match item {
                TableItemPayload::DelegatorShares { delegator_address, shares } => {
                    match share_table_lookup(acc, prior, key_part(h)) {
                        Some(t) => {
                            let d = normalize(delegator_address@);
                            let cur = CurrentDelegatorBalanceView {
                                delegator_address: d,
                                pool_address: t.pool_address,
                                pool_type: pool_type_of(t.active),
                                table_handle: h,
                                last_transaction_version: version,
                                shares,
                                parent_table_handle: h,
                            };
                            BatchView {
                                delegator_balances: acc.delegator_balances.push(
                                    DelegatorBalanceView {
                                        transaction_version: version,
                                        write_set_change_index: index as i64,
                                        delegator_address: d,
                                        pool_address: t.pool_address,
                                        pool_type: pool_type_of(t.active),
                                        table_handle: h,
                                        shares,
                                        parent_table_handle: h,
                                    },
                                ),
                                current_delegator_balances: acc.current_delegator_balances.insert(cur.pk(), cur),
                                ..acc
                            }
                        },
                        None => acc,
                    }
                },
                TableItemPayload::VoteDelegation { delegator_address, voter, pending_voter } => {
                    if acc.vote_delegation_handles.contains_key(key_part(h)) {
                        let pool = acc.vote_delegation_handles[key_part(h)];
                        let d = normalize(delegator_address@);
                        BatchView {
                            current_delegated_voters: acc.current_delegated_voters.insert(
                                voter_key(pool, d),
                                CurrentDelegatedVoterView {
                                    delegation_pool_address: pool,
                                    delegator_address: d,
                                    table_handle: Some(h),
                                    voter: Some(normalize(voter@)),
                                    pending_voter: Some(normalize(pending_voter@)),
                                    last_transaction_version: version,
                                    last_transaction_timestamp: ts,
                                },
                            ),
                            ..acc
                        }
                    } else {
                        acc
                    }
                },
                TableItemPayload::Other => acc,
            }
        },
        _ => acc,
    }
}

/// Effect of one table-item write in the last sweep: a delegator with active
/// shares and no delegated voter, in this batch or in the store, votes for
/// itself.
pub open spec fn sweep_step(
    acc: BatchView,
    prior: PriorView,
    version: i64,
    ts: Timestamp,
    c: WriteSetChange,
) -> BatchView {
    match c {
        WriteSetChange::WriteTableItem { handle, item } => {
            match item {
                TableItemPayload::DelegatorShares { delegator_address, shares } => {
                    match share_table_lookup(acc, prior, key_part(normalize(handle@))) {
                        Some(t) => {
                            let d = normalize(delegator_address@);
                            let k = voter_key(t.pool_address, d);
                            if t.active && !acc.current_delegated_voters.contains_key(k)
                                && !prior.delegated_voters.contains(k) {
                                BatchView {
                                    current_delegated_voters: acc.current_delegated_voters.insert(
                                        k,
                                        CurrentDelegatedVoterView {
                                            delegation_pool_address: t.pool_address,
                                            delegator_address: d,
                                            table_handle: None,
                                            voter: Some(d),
                                            pending_voter: Some(d),
                                            last_transaction_version: version,
                                            last_transaction_timestamp: ts,
                                        },
                                    ),
                                    ..acc
                                }
                            } else {
                                acc
                            }
                        },
                        None => acc,
                    }
                },
                _ => acc,
            }
        },
        _ => acc,
    }
}

pub open spec fn events_fold(acc: BatchView, version: i64, ts: Timestamp, es: Seq<EventPayload>, n: nat) -> BatchView
    decreases n,
{
    if n == 0 {
        acc
    } else {
        event_step(events_fold(acc, version, ts, es, (n - 1) as nat), version, ts, es[n - 1], n - 1)
    }
}

pub open spec fn resources_fold(acc: BatchView, version: i64, cs: Seq<WriteSetChange>, n: nat) -> BatchView
    decreases n,
{
    if n == 0 {
        acc
    } else {
        resource_step(resources_fold(acc, version, cs, (n - 1) as nat), version, cs[n - 1])
    }
}

pub open spec fn tables_fold(
    acc: BatchView,
    prior: PriorView,
    version: i64,
    ts: Timestamp,
    cs: Seq<WriteSetChange>,
    n: nat,
) -> BatchView
    decreases n,
{
    if n == 0 {
        acc
    } else {
        table_step(tables_fold(acc, prior, version, ts, cs, (n - 1) as nat), prior, version, ts, cs[n - 1], n - 1)
    }
}

pub open spec fn sweep_fold(
    acc: BatchView,
    prior: PriorView,
    version: i64,
    ts: Timestamp,
    cs: Seq<WriteSetChange>,
    n: nat,
) -> BatchView
    decreases n,
{
    if n == 0 {
        acc
    } else {
        sweep_step(sweep_fold(acc, prior, version, ts, cs, (n - 1) as nat), prior, version, ts, cs[n - 1])
    }
}

/// A transaction carries what the stake passes need.
pub open spec fn parsable(t: Transaction) -> bool {
    t.timestamp.is_some() && t.info.is_some()
}

pub open spec fn changes_of(t: Transaction) -> Seq<WriteSetChange> {
    match t.info {
        Some(i) => i.changes@,
        None => Seq::empty(),
    }
}

pub open spec fn timestamp_of(t: Transaction) -> Timestamp {
    match t.timestamp {
        Some(ts) => ts,
        None => Timestamp { seconds: 0, nanos: 0 },
    }
}

/// Effect of one whole transaction: its events, then resource writes, then
/// table items, then the self-voter sweep.
pub open spec fn txn_step(acc: BatchView, prior: PriorView, t: Transaction) -> BatchView {
    let cs = changes_of(t);
    let ts = timestamp_of(t);
    let a1 = events_fold(acc, t.version, ts, t.events@, t.events@.len());
    let a2 = resources_fold(a1, t.version, cs, cs.len());
    let a3 = tables_fold(a2, prior, t.version, ts, cs, cs.len());
    sweep_fold(a3, prior, t.version, ts, cs, cs.len())
}

/// The state after the first `n` transactions of a batch.
pub open spec fn batch_fold(txns: Seq<Transaction>, prior: PriorView, n: nat) -> BatchView
    decreases n,
{
    if n == 0 {
        empty_batch()
    } else {
        txn_step(batch_fold(txns, prior, (n - 1) as nat), prior, txns[n - 1])
    }
}

/// Why a batch could not be parsed.
#[derive(Clone, Copy, Debug, PartialEq, Eq, Structural)]
pub enum ParseErrorKind {
    MissingTimestamp,
    MissingInfo,
}

/// A transaction of the batch lacks a field that the stake passes need.
#[derive(Clone, Copy, Debug, PartialEq, Eq, Structural)]
pub struct ParseError {
    pub version: i64,
    pub kind: ParseErrorKind,
}

pub open spec fn parse_error_of(t: Transaction) -> ParseError {
    ParseError {
        version: t.version,
        kind: if t.timestamp.is_none() {
            ParseErrorKind::MissingTimestamp
        } else {
            ParseErrorKind::MissingInfo
        },
    }
}

/// The rows of every stake table derived from one batch.
pub struct StakeBatch {
    pub current_stake_pool_voters: Vec<CurrentStakingPoolVoter>,
    pub proposal_votes: Vec<ProposalVote>,
    pub delegator_activities: Vec<DelegatedStakingActivity>,
    pub delegator_balances: Vec<DelegatorBalance>,
    pub current_delegator_balances: Vec<CurrentDelegatorBalance>,
    pub delegator_pools: Vec<DelegatorPool>,
    pub delegator_pool_balances: Vec<DelegatorPoolBalance>,
    pub current_delegator_pool_balances: Vec<CurrentDelegatorPoolBalance>,
    pub current_delegated_voters: Vec<CurrentDelegatedVoter>,
}

/// `b` holds exactly the rows of `v`, each collection sorted strictly
/// ascending by its table's primary key.
pub open spec fn batch_rows_match(b: StakeBatch, v: BatchView) -> bool {
    &&& sorted_rows_of(b.current_stake_pool_voters@.map_values(|r: CurrentStakingPoolVoter| r@), v.current_stake_pool_voters)
    &&& sorted_permutation_of(b.proposal_votes@.map_values(|r: ProposalVote| r@), v.proposal_votes)
    &&& sorted_permutation_of(b.delegator_activities@.map_values(|r: DelegatedStakingActivity| r@), v.delegator_activities)
    &&& sorted_permutation_of(b.delegator_balances@.map_values(|r: DelegatorBalance| r@), v.delegator_balances)
    &&& sorted_rows_of(b.current_delegator_balances@.map_values(|r: CurrentDelegatorBalance| r@), v.current_delegator_balances)
    &&& sorted_rows_of(b.delegator_pools@.map_values(|r: DelegatorPool| r@), v.delegator_pools)
    &&& sorted_permutation_of(b.delegator_pool_balances@.map_values(|r: DelegatorPoolBalance| r@), v.delegator_pool_balances)
    &&& sorted_rows_of(
        b.current_delegator_pool_balances@.map_values(|r: CurrentDelegatorPoolBalance| r@),
        v.current_delegator_pool_balances,
    )
    &&& sorted_rows_of(b.current_delegated_voters@.map_values(|r: CurrentDelegatedVoter| r@), v.current_delegated_voters)
}

/// The batch-scoped accumulators.
struct StakeAccumulator {
    voters: KeyedRows<CurrentStakingPoolVoter>,
    votes: SortedRows<ProposalVote>,
    votes_model: Ghost<Seq<ProposalVoteView>>,
    activities: SortedRows<DelegatedStakingActivity>,
    activities_model: Ghost<Seq<DelegatedStakingActivityView>>,
    balances: SortedRows<DelegatorBalance>,
    balances_model: Ghost<Seq<DelegatorBalanceView>>,
    current_balances: KeyedRows<CurrentDelegatorBalance>,
    pools: KeyedRows<DelegatorPool>,
    pool_balances: SortedRows<DelegatorPoolBalance>,
    pool_balances_model: Ghost<Seq<DelegatorPoolBalanceView>>,
    current_pool_balances: KeyedRows<CurrentDelegatorPoolBalance>,
    delegated_voters: KeyedRows<CurrentDelegatedVoter>,
    vote_handles: KeyedRows<String>,
    share_tables: KeyedRows<ShareTable>,
}

impl StakeAccumulator {
    spec fn view(&self) -> BatchView {
        BatchView {
            current_stake_pool_voters: self.voters.view_contents(),
            proposal_votes: self.votes_model@,
            delegator_activities: self.activities_model@,
            delegator_balances: self.balances_model@,
            current_delegator_balances: self.current_balances.view_contents(),
            delegator_pools: self.pools.view_contents(),
            delegator_pool_balances: self.pool_balances_model@,
            current_delegator_pool_balances: self.current_pool_balances.view_contents(),
            current_delegated_voters: self.delegated_voters.view_contents(),
            vote_delegation_handles: self.vote_handles.view_contents(),
            share_tables: self.share_tables.view_contents(),
        }
    }

    spec fn wf(&self) -> bool {
        &&& self.voters.wf()
        &&& self.current_balances.wf()
        &&& self.pools.wf()
        &&& self.current_pool_balances.wf()
        &&& self.delegated_voters.wf()
        &&& self.vote_handles.wf()
        &&& self.share_tables.wf()
        &&& self.votes.wf()
        &&& self.activities.wf()
        &&& self.balances.wf()
        &&& self.pool_balances.wf()
        &&& self.votes.view_seq().to_multiset() == self.votes_model@.to_multiset()
        &&& self.activities.view_seq().to_multiset() == self.activities_model@.to_multiset()
        &&& self.balances.view_seq().to_multiset() == self.balances_model@.to_multiset()
        &&& self.pool_balances.view_seq().to_multiset() == self.pool_balances_model@.to_multiset()
        &&& keyed_by_pk(self.voters.view_contents())
        &&& keyed_by_pk(self.current_balances.view_contents())
        &&& keyed_by_pk(self.pools.view_contents())
        &&& keyed_by_pk(self.current_pool_balances.view_contents())
        &&& keyed_by_pk(self.delegated_voters.view_contents())
    }

    fn new() -> (r: Self)
        ensures
            r.wf(),
            r.view() == empty_batch(),
    {
        let r = StakeAccumulator {
            voters: KeyedRows::new(),
            votes: SortedRows::new(),
            votes_model: Ghost(Seq::empty()),
            activities: SortedRows::new(),
            activities_model: Ghost(Seq::empty()),
            balances: SortedRows::new(),
            balances_model: Ghost(Seq::empty()),
            current_balances: KeyedRows::new(),
            pools: KeyedRows::new(),
            pool_balances: SortedRows::new(),
            pool_balances_model: Ghost(Seq::empty()),
            current_pool_balances: KeyedRows::new(),
            delegated_voters: KeyedRows::new(),
            vote_handles: KeyedRows::new(),
            share_tables: KeyedRows::new(),
        };
        assert(r.view().current_stake_pool_voters =~= Map::empty());
        assert(r.view().proposal_votes =~= Seq::empty());
        assert(r.view().delegator_activities =~= Seq::empty());
        assert(r.view().delegator_balances =~= Seq::empty());
        assert(r.view().current_delegator_balances =~= Map::empty());
        assert(r.view().delegator_pools =~= Map::empty());
        assert(r.view().delegator_pool_balances =~= Seq::empty());
        assert(r.view().current_delegator_pool_balances =~= Map::empty());
        assert(r.view().current_delegated_voters =~= Map::empty());
        assert(r.view().vote_delegation_handles =~= Map::empty());
        assert(r.view().share_tables =~= Map::empty());
        r
    }

    fn add_event(&mut self, version: i64, ts: Timestamp, e: &EventPayload, index: usize)
        requires
            old(self).wf(),
        ensures
            final(self).wf(),
            final(self).view() == event_step(old(self).view(), version, ts, *e, index as int),
    {
        match e {
            EventPayload::GovernanceVote {
                proposal_id,
                voter_address,
                staking_pool_address,
                num_votes,
                should_pass,
            } => {
                let row = ProposalVote {
                    transaction_version: version,
                    proposal_id: *proposal_id,
                    voter_address: standardize_address(voter_address.as_str()),
                    staking_pool_address: standardize_address(staking_pool_address.as_str()),
                    num_votes: *num_votes,
                    should_pass: *should_pass,
                    transaction_timestamp: ts,
                };
                let row_key = row.pk();
                let ghost row_view = row@;
                self.votes.insert(row_key, row);
                proof {
                    to_multiset_build(self.votes_model@, row_view);
                }
                self.votes_model = Ghost(self.votes_model@.push(row_view));
                assert(self.view() == event_step(old(self).view(), version, ts, *e, index as int));
            },
            EventPayload::DelegationActivity { event_type, pool_address, delegator_address, amount } => {
                let row = DelegatedStakingActivity {
                    transaction_version: version,
                    event_index: index as i64,
                    delegator_address: standardize_address(delegator_address.as_str()),
                    pool_address: standardize_address(pool_address.as_str()),
                    event_type: event_type.clone(),
                    amount: *amount,
                };
                let row_key = row.pk();
                let ghost row_view = row@;
                self.activities.insert(row_key, row);
                proof {
                    to_multiset_build(self.activities_model@, row_view);
                }
                self.activities_model = Ghost(self.activities_model@.push(row_view));
                assert(self.view() == event_step(old(self).view(), version, ts, *e, index as int));
            },
            EventPayload::Other => {},
        }
    }

    fn add_resource(&mut self, version: i64, c: &WriteSetChange)
        requires
            old(self).wf(),
        ensures
            final(self).wf(),
            final(self).view() == resource_step(old(self).view(), version, *c),
    {
        match c {
            WriteSetChange::WriteResource { address, payload } => {
                let pool = standardize_address(address.as_str());
                match payload {
                    ResourcePayload::StakePool { operator_address, delegated_voter } => {
                        let row = CurrentStakingPoolVoter {
                            staking_pool_address: pool,
                            voter_address: standardize_address(delegated_voter.as_str()),
                            last_transaction_version: version,
                            operator_address: standardize_address(operator_address.as_str()),
                        };
                        let k = row.pk();
                        proof {
                            lemma_view_contents_insert(self.voters.contents(), k@, row);
                        }
                        self.voters.upsert(k, row);
                        assert(self.view() == resource_step(old(self).view(), version, *c));
                    },
                    ResourcePayload::DelegationPool {
                        active_shares_handle,
                        inactive_shares_handle,
                        total_coins,
                        total_shares,
                        operator_commission_percentage,
                    } => {
                        let active = standardize_address(active_shares_handle.as_str());
                        let inactive = standardize_address(inactive_shares_handle.as_str());
                        let first = DelegatorPool {
                            staking_pool_address: pool.clone(),
                            first_transaction_version: version,
                        };
                        let pk = first.pk();
                        if self.pools.get(&pk).is_none() {
                            proof {
                                lemma_view_contents_insert(self.pools.contents(), pk@, first);
                            }
                            self.pools.upsert(pk, first);
                        }
                        let hist = DelegatorPoolBalance {
                            transaction_version: version,
                            staking_pool_address: pool.clone(),
                            total_coins: *total_coins,
                            total_shares: *total_shares,
                            operator_commission_percentage: *operator_commission_percentage,
                            inactive_table_handle: inactive.clone(),
                            active_table_handle: active.clone(),
                        };
                        let hist_key = hist.pk();
                        let ghost hist_view = hist@;
                        self.pool_balances.insert(hist_key, hist);
                        proof {
                            to_multiset_build(self.pool_balances_model@, hist_view);
                        }
                        self.pool_balances_model = Ghost(self.pool_balances_model@.push(hist_view));
                        let cur = CurrentDelegatorPoolBalance {
                            staking_pool_address: pool.clone(),
                            total_coins: *total_coins,
                            total_shares: *total_shares,
                            last_transaction_version: version,
                            operator_commission_percentage: *operator_commission_percentage,
                            inactive_table_handle: inactive.clone(),
                            active_table_handle: active.clone(),
                        };
                        let ck = cur.pk();
                        proof {
                            lemma_view_contents_insert(self.current_pool_balances.contents(), ck@, cur);
                        }
                        self.current_pool_balances.upsert(ck, cur);
                        let mut ak: Vec<u8> = Vec::new();
                        push_key_part(&mut ak, active.as_str());
                        let at = ShareTable { pool_address: pool.clone(), active: true };
                        proof {
                            lemma_view_contents_insert(self.share_tables.contents(), ak@, at);
                        }
                        self.share_tables.upsert(ak, at);
                        let mut ik: Vec<u8> = Vec::new();
                        push_key_part(&mut ik, inactive.as_str());
                        let it = ShareTable { pool_address: pool, active: false };
                        proof {
                            lemma_view_contents_insert(self.share_tables.contents(), ik@, it);
                        }
                        self.share_tables.upsert(ik, it);
                        assert(ak@ =~= key_part(active@));
                        assert(ik@ =~= key_part(inactive@));
                        assert(self.view() == resource_step(old(self).view(), version, *c));
                    },
                    ResourcePayload::GovernanceRecords { vote_delegation_handle } => {
                        let h = standardize_address(vote_delegation_handle.as_str());
                        let mut hk: Vec<u8> = Vec::new();
                        push_key_part(&mut hk, h.as_str());
                        assert(hk@ =~= key_part(h@));
                        proof {
                            lemma_view_contents_insert(self.vote_handles.contents(), hk@, pool);
                        }
                        self.vote_handles.upsert(hk, pool);
                        assert(self.view() == resource_step(old(self).view(), version, *c));
                    },
                    ResourcePayload::Other => {},
                }
            },
            _ => {},
        }
    }

    fn lookup_share_table(&self, prior: &PriorState, hk: &Vec<u8>) -> (r: Option<ShareTable>)
        requires
            self.wf(),
            prior.wf(),
        ensures
            match r {
                Some(t) => share_table_lookup(self.view(), prior.view(), hk@) == Some(t@),
                None => share_table_lookup(self.view(), prior.view(), hk@).is_none(),
            },
    {
        match self.share_tables.get(hk) {
            Some(t) => Some(ShareTable { pool_address: t.pool_address.clone(), active: t.active }),
            None => match prior.share_tables.get(hk) {
                Some(t) => Some(ShareTable { pool_address: t.pool_address.clone(), active: t.active }),
                None => None,
            },
        }
    }

    fn add_table_item(
        &mut self,
        prior: &PriorState,
        version: i64,
        ts: Timestamp,
        c: &WriteSetChange,
        index: usize,
    )
        requires
            old(self).wf(),
            prior.wf(),
        ensures
            final(self).wf(),
            final(self).view() == table_step(old(self).view(), prior.view(), version, ts, *c, index as int),
    {
        match c {
            WriteSetChange::WriteTableItem { handle, item } => {
                let h = standardize_address(handle.as_str());
                let mut hk: Vec<u8> = Vec::new();
                push_key_part(&mut hk, h.as_str());
                assert(hk@ =~= key_part(h@));
                match item {
                    TableItemPayload::DelegatorShares { delegator_address, shares } => {
                        match self.lookup_share_table(prior, &hk) {
                            Some(t) => {
                                let d = standardize_address(delegator_address.as_str());
                                let pool_type = if t.active {
                                    String::from_str("active_shares")
                                } else {
                                    String::from_str("inactive_shares")
                                };
                                let hist = DelegatorBalance {
                                    transaction_version: version,
                                    write_set_change_index: index as i64,
                                    delegator_address: d.clone(),
                                    pool_address: t.pool_address.clone(),
                                    pool_type: pool_type.clone(),
                                    table_handle: h.clone(),
                                    shares: *shares,
                                    parent_table_handle: h.clone(),
                                };
                                let hist_key = hist.pk();
                                let ghost hist_view = hist@;
                                self.balances.insert(hist_key, hist);
                                proof {
                                    to_multiset_build(self.balances_model@, hist_view);
                                }
                                self.balances_model = Ghost(self.balances_model@.push(hist_view));
                                let cur = CurrentDelegatorBalance {
                                    delegator_address: d,
                                    pool_address: t.pool_address,
                                    pool_type,
                                    table_handle: h.clone(),
                                    last_transaction_version: version,
                                    shares: *shares,
                                    parent_table_handle: h,
                                };
                                let ck = cur.pk();
                                proof {
                                    lemma_view_contents_insert(self.current_balances.contents(), ck@, cur);
                                }
                                self.current_balances.upsert(ck, cur);
                                assert(self.view() == table_step(old(self).view(), prior.view(), version, ts, *c, index as int));
                            },
                            None => {},
                        }
                    },
                    TableItemPayload::VoteDelegation { delegator_address, voter, pending_voter } => {
                        match self.vote_handles.get(&hk) {
                            Some(pool) => {
                                let d = standardize_address(delegator_address.as_str());
                                let row = CurrentDelegatedVoter {
                                    delegation_pool_address: pool.clone(),
                                    delegator_address: d,
                                    table_handle: Some(h),
                                    voter: Some(standardize_address(voter.as_str())),
                                    pending_voter: Some(standardize_address(pending_voter.as_str())),
                                    last_transaction_version: version,
                                    last_transaction_timestamp: ts,
                                };
                                let k = row.pk();
                                proof {
                                    lemma_view_contents_insert(self.delegated_voters.contents(), k@, row);
                                }
                                self.delegated_voters.upsert(k, row);
                                assert(self.view() == table_step(old(self).view(), prior.view(), version, ts, *c, index as int));
                            },
                            None => {},
                        }
                    },
                    TableItemPayload::Other => {},
                }
            },
            _ => {},
        }
    }

    fn add_events(&mut self, version: i64, ts: Timestamp, events: &Vec<EventPayload>)
        requires
            old(self).wf(),
        ensures
            final(self).wf(),
            final(self).view() == events_fold(old(self).view(), version, ts, events@, events@.len()),
    {
        let ghost start = self.view();
        let mut j: usize = 0;
        while j < events.len()
            invariant
                self.wf(),
                j <= events@.len(),
                self.view() == events_fold(start, version, ts, events@, j as nat),
            decreases events.len() - j,
        {
            self.add_event(version, ts, &events[j], j);
            j = j + 1;
        }
    }

    fn add_resources(&mut self, version: i64, changes: &Vec<WriteSetChange>)
        requires
            old(self).wf(),
        ensures
            final(self).wf(),
            final(self).view() == resources_fold(old(self).view(), version, changes@, changes@.len()),
    {
        let ghost start = self.view();
        let mut j: usize = 0;
        while j < changes.len()
            invariant
                self.wf(),
                j <= changes@.len(),
                self.view() == resources_fold(start, version, changes@, j as nat),
            decreases changes.len() - j,
        {
            self.add_resource(version, &changes[j]);
            j = j + 1;
        }
    }

    fn add_table_items(&mut self, prior: &PriorState, version: i64, ts: Timestamp, changes: &Vec<WriteSetChange>)
        requires
            old(self).wf(),
            prior.wf(),
        ensures
            final(self).wf(),
            final(self).view() == tables_fold(old(self).view(), prior.view(), version, ts, changes@, changes@.len()),
    {
        let ghost start = self.view();
        let mut j: usize = 0;
        while j < changes.len()
            invariant
                self.wf(),
                prior.wf(),
                j <= changes@.len(),
                self.view() == tables_fold(start, prior.view(), version, ts, changes@, j as nat),
            decreases changes.len() - j,
        {
            self.add_table_item(prior, version, ts, &changes[j], j);
            j = j + 1;
        }
    }

    fn sweep_table_items(&mut self, prior: &PriorState, version: i64, ts: Timestamp, changes: &Vec<WriteSetChange>)
        requires
            old(self).wf(),
            prior.wf(),
        ensures
            final(self).wf(),
            final(self).view() == sweep_fold(old(self).view(), prior.view(), version, ts, changes@, changes@.len()),
    {
        let ghost start = self.view();
        let mut j: usize = 0;
        while j < changes.len()
            invariant
                self.wf(),
                prior.wf(),
                j <= changes@.len(),
                self.view() == sweep_fold(start, prior.view(), version, ts, changes@, j as nat),
            decreases changes.len() - j,
        {
            self.sweep_table_item(prior, version, ts, &changes[j]);
            j = j + 1;
        }
    }

    fn finish(self) -> (b: StakeBatch)
        requires
            self.wf(),
        ensures
            batch_rows_match(b, self.view()),
    {
        proof {
            self.voters.lemma_sorted_rows();
            self.current_balances.lemma_sorted_rows();
            self.pools.lemma_sorted_rows();
            self.current_pool_balances.lemma_sorted_rows();
            self.delegated_voters.lemma_sorted_rows();
        }
        StakeBatch {
            current_stake_pool_voters: self.voters.into_rows(),
            proposal_votes: self.votes.into_rows(),
            delegator_activities: self.activities.into_rows(),
            delegator_balances: self.balances.into_rows(),
            current_delegator_balances: self.current_balances.into_rows(),
            delegator_pools: self.pools.into_rows(),
            delegator_pool_balances: self.pool_balances.into_rows(),
            current_delegator_pool_balances: self.current_pool_balances.into_rows(),
            current_delegated_voters: self.delegated_voters.into_rows(),
        }
    }

    fn sweep_table_item(&mut self, prior: &PriorState, version: i64, ts: Timestamp, c: &WriteSetChange)
        requires
            old(self).wf(),
            prior.wf(),
        ensures
            final(self).wf(),
            final(self).view() == sweep_step(old(self).view(), prior.view(), version, ts, *c),
    {
        match c {
            WriteSetChange::WriteTableItem { handle, item } => {
                match item {
                    TableItemPayload::DelegatorShares { delegator_address, shares } => {
                        let h = standardize_address(handle.as_str());
                        let mut hk: Vec<u8> = Vec::new();
                        push_key_part(&mut hk, h.as_str());
                        assert(hk@ =~= key_part(h@));
                        match self.lookup_share_table(prior, &hk) {
                            Some(t) => {
                                if t.active {
                                    let d = standardize_address(delegator_address.as_str());
                                    let row = CurrentDelegatedVoter {
                                        delegation_pool_address: t.pool_address,
                                        delegator_address: d.clone(),
                                        table_handle: None,
                                        voter: Some(d.clone()),
                                        pending_voter: Some(d),
                                        last_transaction_version: version,
                                        last_transaction_timestamp: ts,
                                    };
                                    let k = row.pk();
                                    if self.delegated_voters.get(&k).is_none() && prior.delegated_voters.get(&k).is_none() {
                                        proof {
                                            lemma_view_contents_insert(self.delegated_voters.contents(), k@, row);
                                        }
                                        self.delegated_voters.upsert(k, row);
                                    }
                                    assert(self.view() == sweep_step(old(self).view(), prior.view(), version, ts, *c));
                                }
                            },
                            None => {},
                        }
                    },
                    _ => {},
                }
            },
            _ => {},
        }
    }
}

/// Derives the rows of every stake table from a batch of transactions.
///
/// Fails on the first transaction without a timestamp or without its info;
/// otherwise returns exactly the rows of the batch model, the current tables
/// sorted ascending by primary key.
pub fn parse_stake_data(transactions: &Vec<Transaction>, prior: &PriorState) -> (r: Result<StakeBatch, ParseError>)
    requires
        prior.wf(),
    ensures
        match r {
            Ok(b) => {
                &&& forall|i: int| 0 <= i < transactions@.len() ==> parsable(#[trigger] transactions@[i])
                &&& batch_rows_match(b, batch_fold(transactions@, prior.view(), transactions@.len()))
                &&& batch_addresses_canonical(batch_fold(transactions@, prior.view(), transactions@.len()))
            },
            Err(e) => exists|i: int|
                0 <= i < transactions@.len() && !parsable(#[trigger] transactions@[i]) && (forall|j: int|
                    0 <= j < i ==> parsable(#[trigger] transactions@[j])) && e == parse_error_of(transactions@[i]),
        },
{
    let mut acc = StakeAccumulator::new();
    let mut i: usize = 0;
    while i < transactions.len()
        invariant
            acc.wf(),
            prior.wf(),
            i <= transactions@.len(),
            forall|j: int| 0 <= j < i ==> parsable(#[trigger] transactions@[j]),
            acc.view() == batch_fold(transactions@, prior.view(), i as nat),
        decreases transactions.len() - i,
    {
        let txn = &transactions[i];
        let ts = match txn.timestamp {
            Some(ts) => ts,
            None => {
                return Err(ParseError { version: txn.version, kind: ParseErrorKind::MissingTimestamp });
            },
        };
        let info = match &txn.info {
            Some(info) => info,
            None => {
                return Err(ParseError { version: txn.version, kind: ParseErrorKind::MissingInfo });
            },
        };
        acc.add_events(txn.version, ts, &txn.events);
        acc.add_resources(txn.version, &info.changes);
        acc.add_table_items(prior, txn.version, ts, &info.changes);
        acc.sweep_table_items(prior, txn.version, ts, &info.changes);
        i = i + 1;
    }
    proof {
        lemma_batch_addresses_canonical(transactions@, prior.view(), transactions@.len());
    }
    Ok(acc.finish())
}

/// An address in canonical form: normalizing it changes nothing.
pub open spec fn canonical(a: Seq<char>) -> bool {
    normalize(a) == a
}

pub open spec fn opt_canonical(a: Option<Seq<char>>) -> bool {
    match a {
        Some(x) => canonical(x),
        None => true,
    }
}

/// Every address column of every row of `v`, and every pool address its
/// lookup maps hand out, is in canonical form.
pub open spec fn batch_addresses_canonical(v: BatchView) -> bool {
    &&& forall|k: Seq<u8>| #[trigger] v.current_stake_pool_voters.contains_key(k) ==> {
        let r = v.current_stake_pool_voters[k];
        canonical(r.staking_pool_address) && canonical(r.voter_address) && canonical(r.operator_address)
    }
    &&& forall|i: int| 0 <= i < v.proposal_votes.len() ==> {
        let r = #[trigger] v.proposal_votes[i];
        canonical(r.voter_address) && canonical(r.staking_pool_address)
    }
    &&& forall|i: int| 0 <= i < v.delegator_activities.len() ==> {
        let r = #[trigger] v.delegator_activities[i];
        canonical(r.delegator_address) && canonical(r.pool_address)
    }
    &&& forall|i: int| 0 <= i < v.delegator_balances.len() ==> {
        let r = #[trigger] v.delegator_balances[i];
        canonical(r.delegator_address) && canonical(r.pool_address) && canonical(r.table_handle) && canonical(
            r.parent_table_handle,
        )
    }
    &&& forall|k: Seq<u8>| #[trigger] v.current_delegator_balances.contains_key(k) ==> {
        let r = v.current_delegator_balances[k];
        canonical(r.delegator_address) && canonical(r.pool_address) && canonical(r.table_handle) && canonical(
            r.parent_table_handle,
        )
    }
    &&& forall|k: Seq<u8>| #[trigger] v.delegator_pools.contains_key(k) ==> canonical(
        v.delegator_pools[k].staking_pool_address,
    )
    &&& forall|i: int| 0 <= i < v.delegator_pool_balances.len() ==> {
        let r = #[trigger] v.delegator_pool_balances[i];
        canonical(r.staking_pool_address) && canonical(r.inactive_table_handle) && canonical(r.active_table_handle)
    }
    &&& forall|k: Seq<u8>| #[trigger] v.current_delegator_pool_balances.contains_key(k) ==> {
        let r = v.current_delegator_pool_balances[k];
        canonical(r.staking_pool_address) && canonical(r.inactive_table_handle) && canonical(r.active_table_handle)
    }
    &&& forall|k: Seq<u8>| #[trigger] v.current_delegated_voters.contains_key(k) ==> {
        let r = v.current_delegated_voters[k];
        &&& canonical(r.delegation_pool_address)
        &&& canonical(r.delegator_address)
        &&& opt_canonical(r.table_handle)
        &&& opt_canonical(r.voter)
        &&& opt_canonical(r.pending_voter)
    }
    &&& forall|k: Seq<u8>| #[trigger] v.vote_delegation_handles.contains_key(k) ==> canonical(
        v.vote_delegation_handles[k],
    )
    &&& forall|k: Seq<u8>| #[trigger] v.share_tables.contains_key(k) ==> canonical(v.share_tables[k].pool_address)
}

/// The pools of the store's share tables are in canonical form.
pub open spec fn prior_addresses_canonical(p: PriorView) -> bool {
    forall|k: Seq<u8>| #[trigger] p.share_tables.contains_key(k) ==> canonical(p.share_tables[k].pool_address)
}

proof fn lemma_event_step_canonical(acc: BatchView, version: i64, ts: Timestamp, e: EventPayload, index: int)
    requires
        batch_addresses_canonical(acc),
    ensures
        batch_addresses_canonical(event_step(acc, version, ts, e, index)),
{
    match e {
        EventPayload::GovernanceVote { voter_address, staking_pool_address, .. } => {
            lemma_normalize_idempotent(voter_address@);
            lemma_normalize_idempotent(staking_pool_address@);
        },
        EventPayload::DelegationActivity { pool_address, delegator_address, .. } => {
            lemma_normalize_idempotent(pool_address@);
            lemma_normalize_idempotent(delegator_address@);
        },
        EventPayload::Other => {},
    }
}

proof fn lemma_resource_step_canonical(acc: BatchView, version: i64, c: WriteSetChange)
    requires
        batch_addresses_canonical(acc),
    ensures
        batch_addresses_canonical(resource_step(acc, version, c)),
{
    match c {
        WriteSetChange::WriteResource { address, payload } => {
            lemma_normalize_idempotent(address@);
            match payload {
                ResourcePayload::StakePool { operator_address, delegated_voter } => {
                    lemma_normalize_idempotent(operator_address@);
                    lemma_normalize_idempotent(delegated_voter@);
                },
                ResourcePayload::DelegationPool { active_shares_handle, inactive_shares_handle, .. } => {
                    lemma_normalize_idempotent(active_shares_handle@);
                    lemma_normalize_idempotent(inactive_shares_handle@);
                },
                _ => {},
            }
        },
        _ => {},
    }
}

proof fn lemma_table_step_canonical(
    acc: BatchView,
    prior: PriorView,
    version: i64,
    ts: Timestamp,
    c: WriteSetChange,
    index: int,
)
    requires
        batch_addresses_canonical(acc),
        prior_addresses_canonical(prior),
    ensures
        batch_addresses_canonical(table_step(acc, prior, version, ts, c, index)),
{
    match c {
        WriteSetChange::WriteTableItem { handle, item } => {
            lemma_normalize_idempotent(handle@);
            match item {
                TableItemPayload::DelegatorShares { delegator_address, .. } => {
                    lemma_normalize_idempotent(delegator_address@);
                },
                TableItemPayload::VoteDelegation { delegator_address, voter, pending_voter } => {
                    lemma_normalize_idempotent(delegator_address@);
                    lemma_normalize_idempotent(voter@);
                    lemma_normalize_idempotent(pending_voter@);
                },
                _ => {},
            }
        },
        _ => {},
    }
}

proof fn lemma_sweep_step_canonical(acc: BatchView, prior: PriorView, version: i64, ts: Timestamp, c: WriteSetChange)
    requires
        batch_addresses_canonical(acc),
        prior_addresses_canonical(prior),
    ensures
        batch_addresses_canonical(sweep_step(acc, prior, version, ts, c)),
{
    match c {
        WriteSetChange::WriteTableItem { handle, item } => {
            match item {
                TableItemPayload::DelegatorShares { delegator_address, .. } => {
                    lemma_normalize_idempotent(delegator_address@);
                },
                _ => {},
            }
        },
        _ => {},
    }
}

proof fn lemma_txn_step_canonical(acc: BatchView, prior: PriorView, t: Transaction)
    requires
        batch_addresses_canonical(acc),
        prior_addresses_canonical(prior),
    ensures
        batch_addresses_canonical(txn_step(acc, prior, t)),
{
    let cs = changes_of(t);
    let ts = timestamp_of(t);
    let es = t.events@;
    lemma_events_fold_canonical(acc, t.version, ts, es, es.len());
    let a1 = events_fold(acc, t.version, ts, es, es.len());
    lemma_resources_fold_canonical(a1, t.version, cs, cs.len());
    let a2 = resources_fold(a1, t.version, cs, cs.len());
    lemma_tables_fold_canonical(a2, prior, t.version, ts, cs, cs.len());
    let a3 = tables_fold(a2, prior, t.version, ts, cs, cs.len());
    lemma_sweep_fold_canonical(a3, prior, t.version, ts, cs, cs.len());
}

proof fn lemma_events_fold_canonical(acc: BatchView, version: i64, ts: Timestamp, es: Seq<EventPayload>, n: nat)
    requires
        batch_addresses_canonical(acc),
    ensures
        batch_addresses_canonical(events_fold(acc, version, ts, es, n)),
    decreases n,
{
    if n > 0 {
        lemma_events_fold_canonical(acc, version, ts, es, (n - 1) as nat);
        lemma_event_step_canonical(events_fold(acc, version, ts, es, (n - 1) as nat), version, ts, es[n - 1], n - 1);
    }
}

proof fn lemma_resources_fold_canonical(acc: BatchView, version: i64, cs: Seq<WriteSetChange>, n: nat)
    requires
        batch_addresses_canonical(acc),
    ensures
        batch_addresses_canonical(resources_fold(acc, version, cs, n)),
    decreases n,
{
    if n > 0 {
        lemma_resources_fold_canonical(acc, version, cs, (n - 1) as nat);
        lemma_resource_step_canonical(resources_fold(acc, version, cs, (n - 1) as nat), version, cs[n - 1]);
    }
}

proof fn lemma_tables_fold_canonical(
    acc: BatchView,
    prior: PriorView,
    version: i64,
    ts: Timestamp,
    cs: Seq<WriteSetChange>,
    n: nat,
)
    requires
        batch_addresses_canonical(acc),
        prior_addresses_canonical(prior),
    ensures
        batch_addresses_canonical(tables_fold(acc, prior, version, ts, cs, n)),
    decreases n,
{
    if n > 0 {
        lemma_tables_fold_canonical(acc, prior, version, ts, cs, (n - 1) as nat);
        lemma_table_step_canonical(tables_fold(acc, prior, version, ts, cs, (n - 1) as nat), prior, version, ts, cs[n - 1], n - 1);
    }
}

proof fn lemma_sweep_fold_canonical(
    acc: BatchView,
    prior: PriorView,
    version: i64,
    ts: Timestamp,
    cs: Seq<WriteSetChange>,
    n: nat,
)
    requires
        batch_addresses_canonical(acc),
        prior_addresses_canonical(prior),
    ensures
        batch_addresses_canonical(sweep_fold(acc, prior, version, ts, cs, n)),
    decreases n,
{
    if n > 0 {
        lemma_sweep_fold_canonical(acc, prior, version, ts, cs, (n - 1) as nat);
        lemma_sweep_step_canonical(sweep_fold(acc, prior, version, ts, cs, (n - 1) as nat), prior, version, ts, cs[n - 1]);
    }
}

/// Every address a batch persists is in canonical form: each address column
/// of each derived row equals the normalized form of itself, given that the
/// share tables read from the store carry canonical pool addresses.
pub proof fn lemma_batch_addresses_canonical(txns: Seq<Transaction>, prior: PriorView, n: nat)
    requires
        prior_addresses_canonical(prior),
    ensures
        batch_addresses_canonical(batch_fold(txns, prior, n)),
    decreases n,
{
    if n > 0 {
        lemma_batch_addresses_canonical(txns, prior, (n - 1) as nat);
        lemma_txn_step_canonical(batch_fold(txns, prior, (n - 1) as nat), prior, txns[n - 1]);
    }
}

/// Every row of the current tables and of `delegated_staking_pools` in `v`
/// carries one of the versions in `vs`.
pub open spec fn batch_versions_within(v: BatchView, vs: Set<i64>) -> bool {
    &&& forall|k: Seq<u8>| #[trigger] v.current_stake_pool_voters.contains_key(k) ==> vs.contains(
        v.current_stake_pool_voters[k].last_transaction_version,
    )
    &&& forall|k: Seq<u8>| #[trigger] v.current_delegator_balances.contains_key(k) ==> vs.contains(
        v.current_delegator_balances[k].last_transaction_version,
    )
    &&& forall|k: Seq<u8>| #[trigger] v.delegator_pools.contains_key(k) ==> vs.contains(
        v.delegator_pools[k].first_transaction_version,
    )
    &&& forall|k: Seq<u8>| #[trigger] v.current_delegator_pool_balances.contains_key(k) ==> vs.contains(
        v.current_delegator_pool_balances[k].last_transaction_version,
    )
    &&& forall|k: Seq<u8>| #[trigger] v.current_delegated_voters.contains_key(k) ==> vs.contains(
        v.current_delegated_voters[k].last_transaction_version,
    )
}

/// The versions of the transactions of a batch.
pub open spec fn versions_of(txns: Seq<Transaction>) -> Set<i64> {
    Set::new(|v: i64| exists|i: int| 0 <= i < txns.len() && txns[i].version == v)
}

proof fn lemma_txn_step_versions(acc: BatchView, prior: PriorView, t: Transaction, vs: Set<i64>)
    requires
        batch_versions_within(acc, vs),
        vs.contains(t.version),
    ensures
        batch_versions_within(txn_step(acc, prior, t), vs),
{
    let cs = changes_of(t);
    let ts = timestamp_of(t);
    let es = t.events@;
    lemma_events_fold_versions(acc, t.version, ts, es, es.len(), vs);
    let a1 = events_fold(acc, t.version, ts, es, es.len());
    lemma_resources_fold_versions(a1, t.version, cs, cs.len(), vs);
    let a2 = resources_fold(a1, t.version, cs, cs.len());
    lemma_tables_fold_versions(a2, prior, t.version, ts, cs, cs.len(), vs);
    let a3 = tables_fold(a2, prior, t.version, ts, cs, cs.len());
    lemma_sweep_fold_versions(a3, prior, t.version, ts, cs, cs.len(), vs);
}

proof fn lemma_events_fold_versions(acc: BatchView, version: i64, ts: Timestamp, es: Seq<EventPayload>, n: nat, vs: Set<i64>)
    requires
        batch_versions_within(acc, vs),
        vs.contains(version),
    ensures
        batch_versions_within(events_fold(acc, version, ts, es, n), vs),
    decreases n,
{
    if n > 0 {
        lemma_events_fold_versions(acc, version, ts, es, (n - 1) as nat, vs);
    }
}

proof fn lemma_resources_fold_versions(acc: BatchView, version: i64, cs: Seq<WriteSetChange>, n: nat, vs: Set<i64>)
    requires
        batch_versions_within(acc, vs),
        vs.contains(version),
    ensures
        batch_versions_within(resources_fold(acc, version, cs, n), vs),
    decreases n,
{
    if n > 0 {
        lemma_resources_fold_versions(acc, version, cs, (n - 1) as nat, vs);
    }
}

proof fn lemma_tables_fold_versions(
    acc: BatchView,
    prior: PriorView,
    version: i64,
    ts: Timestamp,
    cs: Seq<WriteSetChange>,
    n: nat,
    vs: Set<i64>,
)
    requires
        batch_versions_within(acc, vs),
        vs.contains(version),
    ensures
        batch_versions_within(tables_fold(acc, prior, version, ts, cs, n), vs),
    decreases n,
{
    if n > 0 {
        lemma_tables_fold_versions(acc, prior, version, ts, cs, (n - 1) as nat, vs);
    }
}

proof fn lemma_sweep_fold_versions(
    acc: BatchView,
    prior: PriorView,
    version: i64,
    ts: Timestamp,
    cs: Seq<WriteSetChange>,
    n: nat,
    vs: Set<i64>,
)
    requires
        batch_versions_within(acc, vs),
        vs.contains(version),
    ensures
        batch_versions_within(sweep_fold(acc, prior, version, ts, cs, n), vs),
    decreases n,
{
    if n > 0 {
        lemma_sweep_fold_versions(acc, prior, version, ts, cs, (n - 1) as nat, vs);
    }
}

/// Every current row a batch derives carries the version of one of its
/// transactions.
pub proof fn lemma_batch_versions(txns: Seq<Transaction>, prior: PriorView, n: nat)
    requires
        n <= txns.len(),
    ensures
        batch_versions_within(batch_fold(txns, prior, n), versions_of(txns)),
    decreases n,
{
    if n > 0 {
        lemma_batch_versions(txns, prior, (n - 1) as nat);
        assert(versions_of(txns).contains(txns[n - 1].version));
        lemma_txn_step_versions(batch_fold(txns, prior, (n - 1) as nat), prior, txns[n - 1], versions_of(txns));
    }
}

} // verus!
