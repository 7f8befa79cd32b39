//! Bulk-insert statements with per-table conflict policies, and the meaning
//! of such a statement on a table of the store.

use vstd::prelude::*;
use crate::keyed::{KeyedRows, PrimaryKey};
use crate::rows::{
    push_key_part, push_u64_key, CurrentDelegatedVoter, CurrentDelegatorBalance,
    CurrentDelegatorPoolBalance, CurrentStakingPoolVoter, DelegatedStakingActivity, DelegatorBalance,
    DelegatorPool, DelegatorPoolBalance, ProposalVote,
};

verus! {

/// What a conflicting insert does to the stored row.
#[derive(Clone, Copy, Debug, PartialEq, Eq, Structural)]
pub enum ConflictAction {
    /// Keep the stored row.
    DoNothing,
    /// Replace it when its watermark is not above the new row's
    /// (`stored.last_transaction_version <= excluded.last_transaction_version`).
    UpdateIfNotNewer,
    /// Replace it when its watermark is not below the new row's
    /// (`stored.first_transaction_version >= excluded.first_transaction_version`).
    UpdateIfNotOlder,
}

/// A row of a table of the store: its encoded primary key, and the version
/// column that serves as the table's watermark.
pub trait TableRow: Sized {
    spec fn spec_pk(&self) -> Seq<u8>;

    spec fn spec_watermark(&self) -> i64;

    fn pk(&self) -> (r: Vec<u8>)
        ensures
            r@ == self.spec_pk(),
    ;

    fn watermark(&self) -> (r: i64)
        ensures
            r == self.spec_watermark(),
    ;

    /// The number of columns a row binds in an insert.
    spec fn spec_field_count() -> usize;

    fn field_count() -> (n: usize)
        ensures
            n == Self::spec_field_count(),
            n > 0,
    ;
}

impl TableRow for CurrentStakingPoolVoter {
    open spec fn spec_pk(&self) -> Seq<u8> {
        self@.pk()
    }

    open spec fn spec_watermark(&self) -> i64 {
        self.last_transaction_version
    }

    fn pk(&self) -> (r: Vec<u8>) {
        let mut k: Vec<u8> = Vec::new();
        push_key_part(&mut k, self.staking_pool_address.as_str());
        assert(k@ =~= self.spec_pk());
        k
    }

    fn watermark(&self) -> (r: i64) {
        self.last_transaction_version
    }

    open spec fn spec_field_count() -> usize {
        4
    }

    fn field_count() -> (n: usize) {
        4
    }
}

impl TableRow for ProposalVote {
    open spec fn spec_pk(&self) -> Seq<u8> {
        self@.pk()
    }

    open spec fn spec_watermark(&self) -> i64 {
        self.transaction_version
    }

    fn pk(&self) -> (r: Vec<u8>) {
        let mut k: Vec<u8> = Vec::new();
        push_u64_key(&mut k, self.transaction_version as u64);
        push_u64_key(&mut k, self.proposal_id as u64);
        push_key_part(&mut k, self.voter_address.as_str());
        assert(k@ =~= self.spec_pk());
        k
    }

    fn watermark(&self) -> (r: i64) {
        self.transaction_version
    }

    open spec fn spec_field_count() -> usize {
        7
    }

    fn field_count() -> (n: usize) {
        7
    }
}

impl TableRow for DelegatedStakingActivity {
    open spec fn spec_pk(&self) -> Seq<u8> {
        self@.pk()
    }

    open spec fn spec_watermark(&self) -> i64 {
        self.transaction_version
    }

    fn pk(&self) -> (r: Vec<u8>) {
        let mut k: Vec<u8> = Vec::new();
        push_u64_key(&mut k, self.transaction_version as u64);
        push_u64_key(&mut k, self.event_index as u64);
        assert(k@ =~= self.spec_pk());
        k
    }

    fn watermark(&self) -> (r: i64) {
        self.transaction_version
    }

    open spec fn spec_field_count() -> usize {
        6
    }

    fn field_count() -> (n: usize) {
        6
    }
}

impl TableRow for DelegatorBalance {
    open spec fn spec_pk(&self) -> Seq<u8> {
        self@.pk()
    }

    open spec fn spec_watermark(&self) -> i64 {
        self.transaction_version
    }

    fn pk(&self) -> (r: Vec<u8>) {
        let mut k: Vec<u8> = Vec::new();
        push_u64_key(&mut k, self.transaction_version as u64);
        push_u64_key(&mut k, self.write_set_change_index as u64);
        assert(k@ =~= self.spec_pk());
        k
    }

    fn watermark(&self) -> (r: i64) {
        self.transaction_version
    }

    open spec fn spec_field_count() -> usize {
        8
    }

    fn field_count() -> (n: usize) {
        8
    }
}

impl TableRow for CurrentDelegatorBalance {
    open spec fn spec_pk(&self) -> Seq<u8> {
        self@.pk()
    }

    open spec fn spec_watermark(&self) -> i64 {
        self.last_transaction_version
    }

    fn pk(&self) -> (r: Vec<u8>) {
        let mut k: Vec<u8> = Vec::new();
        push_key_part(&mut k, self.delegator_address.as_str());
        push_key_part(&mut k, self.pool_address.as_str());
        push_key_part(&mut k, self.pool_type.as_str());
        push_key_part(&mut k, self.table_handle.as_str());
        assert(k@ =~= self.spec_pk());
        k
    }

    fn watermark(&self) -> (r: i64) {
        self.last_transaction_version
    }

    open spec fn spec_field_count() -> usize {
        7
    }

    fn field_count() -> (n: usize) {
        7
    }
}

impl TableRow for DelegatorPool {
    open spec fn spec_pk(&self) -> Seq<u8> {
        self@.pk()
    }

    open spec fn spec_watermark(&self) -> i64 {
        self.first_transaction_version
    }

    fn pk(&self) -> (r: Vec<u8>) {
        let mut k: Vec<u8> = Vec::new();
        push_key_part(&mut k, self.staking_pool_address.as_str());
        assert(k@ =~= self.spec_pk());
        k
    }

    fn watermark(&self) -> (r: i64) {
        self.first_transaction_version
    }

    open spec fn spec_field_count() -> usize {
        2
    }

    fn field_count() -> (n: usize) {
        2
    }
}

impl TableRow for DelegatorPoolBalance {
    open spec fn spec_pk(&self) -> Seq<u8> {
        self@.pk()
    }

    open spec fn spec_watermark(&self) -> i64 {
        self.transaction_version
    }

    fn pk(&self) -> (r: Vec<u8>) {
        let mut k: Vec<u8> = Vec::new();
        push_u64_key(&mut k, self.transaction_version as u64);
        push_key_part(&mut k, self.staking_pool_address.as_str());
        assert(k@ =~= self.spec_pk());
        k
    }

    fn watermark(&self) -> (r: i64) {
        self.transaction_version
    }

    open spec fn spec_field_count() -> usize {
        7
    }

    fn field_count() -> (n: usize) {
        7
    }
}

impl TableRow for CurrentDelegatorPoolBalance {
    open spec fn spec_pk(&self) -> Seq<u8> {
        self@.pk()
    }

    open spec fn spec_watermark(&self) -> i64 {
        self.last_transaction_version
    }

    fn pk(&self) -> (r: Vec<u8>) {
        let mut k: Vec<u8> = Vec::new();
        push_key_part(&mut k, self.staking_pool_address.as_str());
        assert(k@ =~= self.spec_pk());
        k
    }

    fn watermark(&self) -> (r: i64) {
        self.last_transaction_version
    }

    open spec fn spec_field_count() -> usize {
        7
    }

    fn field_count() -> (n: usize) {
        7
    }
}

impl TableRow for CurrentDelegatedVoter {
    open spec fn spec_pk(&self) -> Seq<u8> {
        self@.pk()
    }

    open spec fn spec_watermark(&self) -> i64 {
        self.last_transaction_version
    }

    fn pk(&self) -> (r: Vec<u8>) {
        let mut k: Vec<u8> = Vec::new();
        push_key_part(&mut k, self.delegation_pool_address.as_str());
        push_key_part(&mut k, self.delegator_address.as_str());
        assert(k@ =~= self.spec_pk());
        k
    }

    fn watermark(&self) -> (r: i64) {
        self.last_transaction_version
    }

    open spec fn spec_field_count() -> usize {
        7
    }

    fn field_count() -> (n: usize) {
        7
    }
}

/// A bulk insert of `rows` into `table`, resolving conflicts on the primary
/// key by `action`.
pub struct UpsertQuery<R> {
    pub table: &'static str,
    pub action: ConflictAction,
    pub rows: Vec<R>,
}

/// The stored table after one row of a statement with `action`.
pub open spec fn apply_row<R: TableRow>(store: Map<Seq<u8>, R>, row: R, action: ConflictAction) -> Map<Seq<u8>, R> {
    let k = row.spec_pk();
    if !store.contains_key(k) {
        store.insert(k, row)
    } else {
        match action {
            ConflictAction::DoNothing => store,
            ConflictAction::UpdateIfNotNewer => if store[k].spec_watermark() <= row.spec_watermark() {
                store.insert(k, row)
            } else {
                store
            },
            ConflictAction::UpdateIfNotOlder => if store[k].spec_watermark() >= row.spec_watermark() {
                store.insert(k, row)
            } else {
                store
            },
        }
    }
}

/// The stored table after the rows of a statement, in order.
pub open spec fn apply_rows<R: TableRow>(store: Map<Seq<u8>, R>, rows: Seq<R>, action: ConflictAction) -> Map<Seq<u8>, R>
    decreases rows.len(),
{
    if rows.len() == 0 {
        store
    } else {
        apply_rows(apply_row(store, rows[0], action), rows.drop_first(), action)
    }
}

/// Two rows whose order of application does not matter under `action`:
/// different keys, the same row, or (for a guarded update) different
/// watermarks.
pub open spec fn order_free<R: TableRow>(a: R, b: R, action: ConflictAction) -> bool {
    a.spec_pk() != b.spec_pk() || a == b || (action != ConflictAction::DoNothing && a.spec_watermark()
        != b.spec_watermark())
}

/// A table of rows held in memory that applies statements as the store does.
pub struct MemoryTable<R> {
    rows: KeyedRows<R>,
}

impl<R: TableRow> MemoryTable<R> {
    pub open spec fn wf(&self) -> bool {
        self.spec_rows().wf() && forall|k: Seq<u8>| #[trigger] self.contents().contains_key(k) ==> self.contents()[k].spec_pk() == k
    }

    pub closed spec fn spec_rows(&self) -> KeyedRows<R> {
        self.rows
    }

    /// The stored rows by primary key.
    pub open spec fn contents(&self) -> Map<Seq<u8>, R> {
        self.spec_rows().contents()
    }

    pub fn new() -> (r: Self)
        ensures
            r.wf(),
            r.contents() == Map::<Seq<u8>, R>::empty(),
    {
        let r = MemoryTable { rows: KeyedRows::new() };
        assert(r.contents() =~= Map::<Seq<u8>, R>::empty());
        r
    }

    pub fn len(&self) -> (n: usize)
        requires
            self.wf(),
        ensures
            n == self.contents().len(),
    {
        proof {
            self.rows.lemma_rows_by_key();
            self.lemma_len();
        }
        self.rows.len()
    }

    proof fn lemma_len(&self)
        requires
            self.wf(),
        ensures
            self.contents().len() == self.spec_rows().row_seq().len(),
    {
        let keys = self.rows.key_seq();
        self.rows.lemma_rows_by_key();
        assert forall|i: int, j: int| 0 <= i < j < keys.len() implies keys[i] != keys[j] by {
            crate::keyed::lemma_bytes_lt_irreflexive(keys[i]);
        }
        keys.unique_seq_to_set();
        assert(self.contents().dom() =~= keys.to_set());
    }

    /// Looks up the row stored under `key`.
    pub fn get(&self, key: &Vec<u8>) -> (r: Option<&R>)
        requires
            self.wf(),
        ensures
            r == (if self.contents().contains_key(key@) {
                Some(&self.contents()[key@])
            } else {
                None::<&R>
            }),
    {
        self.rows.get(key)
    }

    fn apply_one(&mut self, row: R, action: ConflictAction)
        requires
            old(self).wf(),
        ensures
            final(self).wf(),
            final(self).contents() == apply_row(old(self).contents(), row, action),
    {
        let k = row.pk();
        let stored: Option<i64> = match self.rows.get(&k) {
            Some(s) => Some(s.watermark()),
            None => None,
        };
        let replace = match stored {
            None => true,
            Some(w) => match action {
                ConflictAction::DoNothing => false,
                ConflictAction::UpdateIfNotNewer => w <= row.watermark(),
                ConflictAction::UpdateIfNotOlder => w >= row.watermark(),
            },
        };
        if replace {
            let ghost kv = k@;
            self.rows.upsert(k, row);
            assert forall|x: Seq<u8>| #[trigger] self.contents().contains_key(x) implies self.contents()[x].spec_pk()
                == x by {
                if x != kv {
                    assert(old(self).contents().contains_key(x));
                }
            }
        }
    }

    /// Applies a statement: each of its rows in order.
    pub fn apply(&mut self, query: UpsertQuery<R>)
        requires
            old(self).wf(),
        ensures
            final(self).wf(),
            final(self).contents() == apply_rows(old(self).contents(), query.rows@, query.action),
    {
        let action = query.action;
        let mut rows = query.rows;
        let ghost all = rows@;
        let ghost start = self.contents();
        while rows.len() > 0
            invariant
                self.wf(),
                apply_rows(start, all, action) == apply_rows(self.contents(), rows@, action),
            decreases rows@.len(),
        {
            let ghost before = rows@;
            let row = rows.remove(0);
            assert(rows@ =~= before.drop_first());
            self.apply_one(row, action);
        }
    }
}

proof fn lemma_rows_swap<R: TableRow>(s: Map<Seq<u8>, R>, a: R, b: R, action: ConflictAction)
    requires
        order_free(a, b, action),
    ensures
        apply_row(apply_row(s, a, action), b, action) == apply_row(apply_row(s, b, action), a, action),
{
    assert(apply_row(apply_row(s, a, action), b, action) =~= apply_row(apply_row(s, b, action), a, action));
}

proof fn lemma_row_past_rows<R: TableRow>(s: Map<Seq<u8>, R>, a: R, rows: Seq<R>, action: ConflictAction)
    requires
        forall|i: int| 0 <= i < rows.len() ==> order_free(a, #[trigger] rows[i], action),
    ensures
        apply_rows(apply_row(s, a, action), rows, action) == apply_row(apply_rows(s, rows, action), a, action),
    decreases rows.len(),
{
    if rows.len() > 0 {
        lemma_rows_swap(s, a, rows[0], action);
        assert(order_free(a, rows[0], action));
        assert forall|i: int| 0 <= i < rows.drop_first().len() implies order_free(a, #[trigger] rows.drop_first()[i], action) by {
            assert(rows.drop_first()[i] == rows[i + 1]);
        }
        lemma_row_past_rows(apply_row(s, rows[0], action), a, rows.drop_first(), action);
    }
}

/// Two statements on one table whose rows are pairwise free of order (rows
/// of different keys, equal rows, or guarded rows of different versions)
/// leave the table in the same state whichever lands first.
pub proof fn lemma_batches_commute<R: TableRow>(
    s: Map<Seq<u8>, R>,
    b1: Seq<R>,
    b2: Seq<R>,
    action: ConflictAction,
)
    requires
        forall|i: int, j: int| 0 <= i < b1.len() && 0 <= j < b2.len() ==> order_free(#[trigger] b1[i], #[trigger] b2[j], action),
    ensures
        apply_rows(apply_rows(s, b1, action), b2, action) == apply_rows(apply_rows(s, b2, action), b1, action),
    decreases b1.len(),
{
    if b1.len() > 0 {
        let a = b1[0];
        let rest = b1.drop_first();
        assert forall|i: int, j: int| 0 <= i < rest.len() && 0 <= j < b2.len() implies order_free(
            #[trigger] rest[i],
            #[trigger] b2[j],
            action,
        ) by {
            assert(rest[i] == b1[i + 1]);
        }
        lemma_batches_commute(apply_row(s, a, action), rest, b2, action);
        assert forall|j: int| 0 <= j < b2.len() implies order_free(a, #[trigger] b2[j], action) by {
            assert(order_free(b1[0], b2[j], action));
        }
        lemma_row_past_rows(s, a, b2, action);
    }
}

/// Under the guard `stored.last_transaction_version <= excluded.last_transaction_version`
/// the stored version of a key never goes down, and after a statement it is
/// at least the version of every row of it.
pub proof fn lemma_latest_version_never_regresses<R: TableRow>(s: Map<Seq<u8>, R>, rows: Seq<R>)
    ensures
        forall|k: Seq<u8>| #[trigger] s.contains_key(k) ==> apply_rows(s, rows, ConflictAction::UpdateIfNotNewer).contains_key(k)
            && apply_rows(s, rows, ConflictAction::UpdateIfNotNewer)[k].spec_watermark() >= s[k].spec_watermark(),
        forall|i: int| 0 <= i < rows.len() ==> apply_rows(s, rows, ConflictAction::UpdateIfNotNewer).contains_key(#[trigger] rows[i].spec_pk())
            && apply_rows(s, rows, ConflictAction::UpdateIfNotNewer)[rows[i].spec_pk()].spec_watermark() >= rows[i].spec_watermark(),
    decreases rows.len(),
{
    let act = ConflictAction::UpdateIfNotNewer;
    if rows.len() > 0 {
        let s1 = apply_row(s, rows[0], act);
        lemma_latest_version_never_regresses(s1, rows.drop_first());
        assert forall|i: int| 0 <= i < rows.len() implies apply_rows(s, rows, act).contains_key(#[trigger] rows[i].spec_pk())
            && apply_rows(s, rows, act)[rows[i].spec_pk()].spec_watermark() >= rows[i].spec_watermark() by {
            if i > 0 {
                assert(rows[i] == rows.drop_first()[i - 1]);
            } else {
                assert(s1.contains_key(rows[0].spec_pk()));
            }
        }
        assert forall|k: Seq<u8>| #[trigger] s.contains_key(k) implies apply_rows(s, rows, act).contains_key(k)
            && apply_rows(s, rows, act)[k].spec_watermark() >= s[k].spec_watermark() by {
            assert(s1.contains_key(k));
        }
    }
}

/// Under the guard `stored.first_transaction_version >= excluded.first_transaction_version`
/// the stored version of a key never goes up, and after a statement it is
/// at most the version of every row of it: the earliest wins.
pub proof fn lemma_earliest_version_wins<R: TableRow>(s: Map<Seq<u8>, R>, rows: Seq<R>)
    ensures
        forall|k: Seq<u8>| #[trigger] s.contains_key(k) ==> apply_rows(s, rows, ConflictAction::UpdateIfNotOlder).contains_key(k)
            && apply_rows(s, rows, ConflictAction::UpdateIfNotOlder)[k].spec_watermark() <= s[k].spec_watermark(),
        forall|i: int| 0 <= i < rows.len() ==> apply_rows(s, rows, ConflictAction::UpdateIfNotOlder).contains_key(#[trigger] rows[i].spec_pk())
            && apply_rows(s, rows, ConflictAction::UpdateIfNotOlder)[rows[i].spec_pk()].spec_watermark() <= rows[i].spec_watermark(),
    decreases rows.len(),
{
    let act = ConflictAction::UpdateIfNotOlder;
    if rows.len() > 0 {
        let s1 = apply_row(s, rows[0], act);
        lemma_earliest_version_wins(s1, rows.drop_first());
        assert forall|i: int| 0 <= i < rows.len() implies apply_rows(s, rows, act).contains_key(#[trigger] rows[i].spec_pk())
            && apply_rows(s, rows, act)[rows[i].spec_pk()].spec_watermark() <= rows[i].spec_watermark() by {
            if i > 0 {
                assert(rows[i] == rows.drop_first()[i - 1]);
            } else {
                assert(s1.contains_key(rows[0].spec_pk()));
            }
        }
        assert forall|k: Seq<u8>| #[trigger] s.contains_key(k) implies apply_rows(s, rows, act).contains_key(k)
            && apply_rows(s, rows, act)[k].spec_watermark() <= s[k].spec_watermark() by {
            assert(s1.contains_key(k));
        }
    }
}

/// After a statement every stored row is either the row stored before under
/// its key or one of the statement's rows with that key. With
/// `lemma_latest_version_never_regresses` this makes the stored version of a
/// key exactly the largest of the version stored before and the versions the
/// statement carries for it.
pub proof fn lemma_stored_row_provenance<R: TableRow>(s: Map<Seq<u8>, R>, rows: Seq<R>, action: ConflictAction)
    ensures
        forall|k: Seq<u8>| #[trigger] apply_rows(s, rows, action).contains_key(k) ==> (s.contains_key(k)
            && apply_rows(s, rows, action)[k] == s[k]) || exists|i: int|
            0 <= i < rows.len() && rows[i].spec_pk() == k && apply_rows(s, rows, action)[k] == rows[i],
    decreases rows.len(),
{
    if rows.len() > 0 {
        let s1 = apply_row(s, rows[0], action);
        let rest = rows.drop_first();
        lemma_stored_row_provenance(s1, rest, action);
        assert forall|k: Seq<u8>| #[trigger] apply_rows(s, rows, action).contains_key(k) implies (s.contains_key(k)
            && apply_rows(s, rows, action)[k] == s[k]) || exists|i: int|
            0 <= i < rows.len() && rows[i].spec_pk() == k && apply_rows(s, rows, action)[k] == rows[i] by {
            let r = apply_rows(s, rows, action);
            assert(r == apply_rows(s1, rest, action));
            if s1.contains_key(k) && r[k] == s1[k] {
                if !(s.contains_key(k) && s1[k] == s[k]) {
                    assert(rows[0].spec_pk() == k && r[k] == rows[0]);
                }
            } else {
                let i = choose|i: int| 0 <= i < rest.len() && rest[i].spec_pk() == k && r[k] == rest[i];
                assert(rows[i + 1] == rest[i]);
            }
        }
    }
}

/// Under the guard `stored.last_transaction_version <= excluded.last_transaction_version`
/// the version stored for a key after a statement is the largest of the
/// version stored before and the versions of the statement's rows for that
/// key.
pub proof fn lemma_latest_version_is_maximum<R: TableRow>(s: Map<Seq<u8>, R>, rows: Seq<R>, k: Seq<u8>)
    requires
        apply_rows(s, rows, ConflictAction::UpdateIfNotNewer).contains_key(k),
    ensures
        s.contains_key(k) ==> apply_rows(s, rows, ConflictAction::UpdateIfNotNewer)[k].spec_watermark()
            >= s[k].spec_watermark(),
        forall|i: int|
            0 <= i < rows.len() && #[trigger] rows[i].spec_pk() == k ==> apply_rows(
                s,
                rows,
                ConflictAction::UpdateIfNotNewer,
            )[k].spec_watermark() >= rows[i].spec_watermark(),
        (s.contains_key(k) && apply_rows(s, rows, ConflictAction::UpdateIfNotNewer)[k].spec_watermark()
            == s[k].spec_watermark()) || exists|i: int|
            0 <= i < rows.len() && rows[i].spec_pk() == k && apply_rows(
                s,
                rows,
                ConflictAction::UpdateIfNotNewer,
            )[k].spec_watermark() == rows[i].spec_watermark(),
{
    lemma_latest_version_never_regresses(s, rows);
    lemma_stored_row_provenance(s, rows, ConflictAction::UpdateIfNotNewer);
    assert forall|i: int| 0 <= i < rows.len() && #[trigger] rows[i].spec_pk() == k implies apply_rows(
        s,
        rows,
        ConflictAction::UpdateIfNotNewer,
    )[k].spec_watermark() >= rows[i].spec_watermark() by {
        assert(apply_rows(s, rows, ConflictAction::UpdateIfNotNewer).contains_key(rows[i].spec_pk()));
    }
}

/// After a statement every key it carries, and every key stored before, is
/// stored.
pub proof fn lemma_rows_stored<R: TableRow>(s: Map<Seq<u8>, R>, rows: Seq<R>, action: ConflictAction)
    ensures
        forall|k: Seq<u8>| #[trigger] s.contains_key(k) ==> apply_rows(s, rows, action).contains_key(k),
        forall|i: int| 0 <= i < rows.len() ==> apply_rows(s, rows, action).contains_key(#[trigger] rows[i].spec_pk()),
    decreases rows.len(),
{
    if rows.len() > 0 {
        let s1 = apply_row(s, rows[0], action);
        lemma_rows_stored(s1, rows.drop_first(), action);
        assert forall|i: int| 0 <= i < rows.len() implies apply_rows(s, rows, action).contains_key(#[trigger] rows[i].spec_pk()) by {
            if i > 0 {
                assert(rows[i] == rows.drop_first()[i - 1]);
            } else {
                assert(s1.contains_key(rows[0].spec_pk()));
            }
        }
        assert forall|k: Seq<u8>| #[trigger] s.contains_key(k) implies apply_rows(s, rows, action).contains_key(k) by {
            assert(s1.contains_key(k));
        }
    }
}

/// A do-nothing statement whose keys are all stored changes nothing.
pub proof fn lemma_stored_rows_ignored<R: TableRow>(s: Map<Seq<u8>, R>, rows: Seq<R>)
    requires
        forall|i: int| 0 <= i < rows.len() ==> s.contains_key(#[trigger] rows[i].spec_pk()),
    ensures
        apply_rows(s, rows, ConflictAction::DoNothing) == s,
    decreases rows.len(),
{
    if rows.len() > 0 {
        assert(s.contains_key(rows[0].spec_pk()));
        assert forall|i: int| 0 <= i < rows.drop_first().len() implies s.contains_key(#[trigger] rows.drop_first()[i].spec_pk()) by {
            assert(rows.drop_first()[i] == rows[i + 1]);
        }
        lemma_stored_rows_ignored(s, rows.drop_first());
    }
}

/// A statement that does nothing on conflict is idempotent: applying it a
/// second time leaves the table as the first time did.
pub proof fn lemma_do_nothing_idempotent<R: TableRow>(s: Map<Seq<u8>, R>, rows: Seq<R>)
    ensures
        apply_rows(apply_rows(s, rows, ConflictAction::DoNothing), rows, ConflictAction::DoNothing) == apply_rows(
            s,
            rows,
            ConflictAction::DoNothing,
        ),
{
    lemma_rows_stored(s, rows, ConflictAction::DoNothing);
    lemma_stored_rows_ignored(apply_rows(s, rows, ConflictAction::DoNothing), rows);
}

/// Upserts stake pool voters; a stored row is replaced only by one of the same or a later version.
pub fn insert_current_stake_pool_voter_query(items_to_insert: Vec<CurrentStakingPoolVoter>) -> (r: (UpsertQuery<CurrentStakingPoolVoter>, Option<&'static str>))
    ensures
        r.0.table == "current_staking_pool_voter",
        r.0.action == ConflictAction::UpdateIfNotNewer,
        r.0.rows == items_to_insert,
        r.1 == Some(" WHERE current_staking_pool_voter.last_transaction_version <= EXCLUDED.last_transaction_version "),
{
    (UpsertQuery { table: "current_staking_pool_voter", action: ConflictAction::UpdateIfNotNewer, rows: items_to_insert }, Some(" WHERE current_staking_pool_voter.last_transaction_version <= EXCLUDED.last_transaction_version "))
}

/// Inserts proposal votes; a vote already stored is kept.
pub fn insert_proposal_votes_query(items_to_insert: Vec<ProposalVote>) -> (r: (UpsertQuery<ProposalVote>, Option<&'static str>))
    ensures
        r.0.table == "proposal_votes",
        r.0.action == ConflictAction::DoNothing,
        r.0.rows == items_to_insert,
        r.1.is_none(),
{
    (UpsertQuery { table: "proposal_votes", action: ConflictAction::DoNothing, rows: items_to_insert }, None)
}

/// Inserts delegation activities; an activity already stored is kept.
pub fn insert_delegator_activities_query(items_to_insert: Vec<DelegatedStakingActivity>) -> (r: (UpsertQuery<DelegatedStakingActivity>, Option<&'static str>))
    ensures
        r.0.table == "delegated_staking_activities",
        r.0.action == ConflictAction::DoNothing,
        r.0.rows == items_to_insert,
        r.1.is_none(),
{
    (UpsertQuery { table: "delegated_staking_activities", action: ConflictAction::DoNothing, rows: items_to_insert }, None)
}

/// Inserts historical delegator balances; a balance already stored is kept.
pub fn insert_delegator_balances_query(items_to_insert: Vec<DelegatorBalance>) -> (r: (UpsertQuery<DelegatorBalance>, Option<&'static str>))
    ensures
        r.0.table == "delegator_balances",
        r.0.action == ConflictAction::DoNothing,
        r.0.rows == items_to_insert,
        r.1.is_none(),
{
    (UpsertQuery { table: "delegator_balances", action: ConflictAction::DoNothing, rows: items_to_insert }, None)
}

/// Upserts current delegator balances; a stored row is replaced only by one of the same or a later version.
pub fn insert_current_delegator_balances_query(items_to_insert: Vec<CurrentDelegatorBalance>) -> (r: (UpsertQuery<CurrentDelegatorBalance>, Option<&'static str>))
    ensures
        r.0.table == "current_delegator_balances",
        r.0.action == ConflictAction::UpdateIfNotNewer,
        r.0.rows == items_to_insert,
        r.1 == Some(" WHERE current_delegator_balances.last_transaction_version <= EXCLUDED.last_transaction_version "),
{
    (UpsertQuery { table: "current_delegator_balances", action: ConflictAction::UpdateIfNotNewer, rows: items_to_insert }, Some(" WHERE current_delegator_balances.last_transaction_version <= EXCLUDED.last_transaction_version "))
}

/// Upserts delegation pools; a stored row is replaced only by one of the same or an earlier first version.
pub fn insert_delegator_pools_query(items_to_insert: Vec<DelegatorPool>) -> (r: (UpsertQuery<DelegatorPool>, Option<&'static str>))
    ensures
        r.0.table == "delegated_staking_pools",
        r.0.action == ConflictAction::UpdateIfNotOlder,
        r.0.rows == items_to_insert,
        r.1 == Some(" WHERE delegated_staking_pools.first_transaction_version >= EXCLUDED.first_transaction_version "),
{
    (UpsertQuery { table: "delegated_staking_pools", action: ConflictAction::UpdateIfNotOlder, rows: items_to_insert }, Some(" WHERE delegated_staking_pools.first_transaction_version >= EXCLUDED.first_transaction_version "))
}

/// Inserts historical pool balances; a balance already stored is kept.
pub fn insert_delegator_pool_balances_query(items_to_insert: Vec<DelegatorPoolBalance>) -> (r: (UpsertQuery<DelegatorPoolBalance>, Option<&'static str>))
    ensures
        r.0.table == "delegated_staking_pool_balances",
        r.0.action == ConflictAction::DoNothing,
        r.0.rows == items_to_insert,
        r.1.is_none(),
{
    (UpsertQuery { table: "delegated_staking_pool_balances", action: ConflictAction::DoNothing, rows: items_to_insert }, None)
}

/// Upserts current pool balances; a stored row is replaced only by one of the same or a later version.
pub fn insert_current_delegator_pool_balances_query(items_to_insert: Vec<CurrentDelegatorPoolBalance>) -> (r: (UpsertQuery<CurrentDelegatorPoolBalance>, Option<&'static str>))
    ensures
        r.0.table == "current_delegated_staking_pool_balances",
        r.0.action == ConflictAction::UpdateIfNotNewer,
        r.0.rows == items_to_insert,
        r.1 == Some(" WHERE current_delegated_staking_pool_balances.last_transaction_version <= EXCLUDED.last_transaction_version "),
{
    (UpsertQuery { table: "current_delegated_staking_pool_balances", action: ConflictAction::UpdateIfNotNewer, rows: items_to_insert }, Some(" WHERE current_delegated_staking_pool_balances.last_transaction_version <= EXCLUDED.last_transaction_version "))
}

/// Upserts delegated voters; a stored row is replaced only by one of the same or a later version.
pub fn insert_current_delegated_voter_query(items_to_insert: Vec<CurrentDelegatedVoter>) -> (r: (UpsertQuery<CurrentDelegatedVoter>, Option<&'static str>))
    ensures
        r.0.table == "current_delegated_voter",
        r.0.action == ConflictAction::UpdateIfNotNewer,
        r.0.rows == items_to_insert,
        r.1 == Some(" WHERE current_delegated_voter.last_transaction_version <= EXCLUDED.last_transaction_version "),
{
    (UpsertQuery { table: "current_delegated_voter", action: ConflictAction::UpdateIfNotNewer, rows: items_to_insert }, Some(" WHERE current_delegated_voter.last_transaction_version <= EXCLUDED.last_transaction_version "))
}

} // verus!
