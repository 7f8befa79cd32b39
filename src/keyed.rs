//! Batch-scoped accumulators keyed by a row's primary key.
//!
//! Keys are byte strings; rows are kept in ascending byte-wise key order with
//! one row per key, the last one stored for that key.

use vstd::prelude::*;
use vstd::seq_lib::{to_multiset_build, to_multiset_insert};

verus! {

/// Byte-wise lexicographic order on keys.
pub open spec fn bytes_lt(a: Seq<u8>, b: Seq<u8>) -> bool
    decreases a.len(),
{
    if a.len() == 0 {
        b.len() > 0
    } else if b.len() == 0 {
        false
    } else if a[0] != b[0] {
        a[0] < b[0]
    } else {
        bytes_lt(a.drop_first(), b.drop_first())
    }
}

pub proof fn lemma_bytes_lt_irreflexive(a: Seq<u8>)
    ensures
        !bytes_lt(a, a),
    decreases a.len(),
{
    if a.len() > 0 {
        lemma_bytes_lt_irreflexive(a.drop_first());
    }
}

pub proof fn lemma_bytes_lt_transitive(a: Seq<u8>, b: Seq<u8>, c: Seq<u8>)
    requires
        bytes_lt(a, b),
        bytes_lt(b, c),
    ensures
        bytes_lt(a, c),
    decreases a.len(),
{
    if a.len() > 0 && b.len() > 0 && c.len() > 0 && a[0] == b[0] && b[0] == c[0] {
        lemma_bytes_lt_transitive(a.drop_first(), b.drop_first(), c.drop_first());
    }
}

proof fn lemma_bytes_lt_skip(a: Seq<u8>, b: Seq<u8>, i: int)
    requires
        0 <= i <= a.len(),
        i <= b.len(),
        a.subrange(0, i) == b.subrange(0, i),
    ensures
        bytes_lt(a, b) == bytes_lt(a.subrange(i, a.len() as int), b.subrange(i, b.len() as int)),
    decreases i,
{
    if i > 0 {
        assert(a[0] == a.subrange(0, i)[0]);
        assert(b[0] == b.subrange(0, i)[0]);
        assert(a.drop_first().subrange(0, i - 1) =~= a.subrange(0, i).drop_first());
        assert(b.drop_first().subrange(0, i - 1) =~= b.subrange(0, i).drop_first());
        lemma_bytes_lt_skip(a.drop_first(), b.drop_first(), i - 1);
        assert(a.drop_first().subrange(i - 1, a.len() - 1) =~= a.subrange(i, a.len() as int));
        assert(b.drop_first().subrange(i - 1, b.len() - 1) =~= b.subrange(i, b.len() as int));
    } else {
        assert(a.subrange(0, a.len() as int) =~= a);
        assert(b.subrange(0, b.len() as int) =~= b);
    }
}

/// Outcome of comparing two keys.
#[derive(Clone, Copy, Debug, PartialEq, Eq, Structural)]
pub enum KeyOrder {
    Less,
    Equal,
    Greater,
}

/// Compares two keys byte-wise.
pub fn compare_keys(a: &Vec<u8>, b: &Vec<u8>) -> (r: KeyOrder)
    ensures
        r == KeyOrder::Less <==> bytes_lt(a@, b@),
        r == KeyOrder::Equal <==> a@ == b@,
        r == KeyOrder::Greater <==> bytes_lt(b@, a@),
{
    let mut i: usize = 0;
    while i < a.len() && i < b.len()
        invariant
            0 <= i <= a.len(),
            i <= b.len(),
            a@.subrange(0, i as int) == b@.subrange(0, i as int),
        decreases a.len() - i,
    {
        if a[i] != b[i] {
            proof {
                lemma_bytes_lt_skip(a@, b@, i as int);
                lemma_bytes_lt_skip(b@, a@, i as int);
                assert(a@.subrange(i as int, a@.len() as int)[0] == a@[i as int]);
                assert(b@.subrange(i as int, b@.len() as int)[0] == b@[i as int]);
            }
            if a[i] < b[i] {
                return KeyOrder::Less;
            } else {
                return KeyOrder::Greater;
            }
        }
        assert(a@.subrange(0, i + 1) =~= a@.subrange(0, i as int).push(a@[i as int]));
        assert(b@.subrange(0, i + 1) =~= b@.subrange(0, i as int).push(b@[i as int]));
        i = i + 1;
    }
    proof {
        lemma_bytes_lt_skip(a@, b@, i as int);
        lemma_bytes_lt_skip(b@, a@, i as int);
        lemma_bytes_lt_irreflexive(a@);
        if a@.len() == b@.len() {
            assert(a@ =~= a@.subrange(0, i as int));
            assert(b@ =~= b@.subrange(0, i as int));
        } else {
            assert(a@.len() != b@.len());
        }
    }
    if a.len() < b.len() {
        KeyOrder::Less
    } else if a.len() == b.len() {
        KeyOrder::Equal
    } else {
        KeyOrder::Greater
    }
}

/// Two collections sorted by key submit the keys they share in the same
/// order: if `a` comes before `b` in one, it does in the other.
pub proof fn lemma_shared_keys_same_order(ks1: Seq<Seq<u8>>, ks2: Seq<Seq<u8>>, i1: int, j1: int, i2: int, j2: int)
    requires
        strictly_ascending(ks1),
        strictly_ascending(ks2),
        0 <= i1 < j1 < ks1.len(),
        0 <= i2 < ks2.len(),
        0 <= j2 < ks2.len(),
        ks1[i1] == ks2[i2],
        ks1[j1] == ks2[j2],
    ensures
        i2 < j2,
{
    if j2 <= i2 {
        lemma_bytes_lt_irreflexive(ks1[i1]);
        if j2 < i2 {
            lemma_bytes_lt_transitive(ks1[i1], ks1[j1], ks1[i1]);
        }
    }
}

/// A row view with an encoded primary key and the version column that is
/// its table's watermark.
pub trait PrimaryKey {
    spec fn pk(&self) -> Seq<u8>;

    spec fn version(&self) -> i64;
}

/// `rows` are exactly the values of `m`, each stored under its own primary
/// key, in strictly ascending key order.
pub open spec fn sorted_rows_of<V: PrimaryKey>(rows: Seq<V>, m: Map<Seq<u8>, V>) -> bool {
    &&& strictly_ascending(rows.map_values(|v: V| v.pk()))
    &&& forall|i: int|
        0 <= i < rows.len() ==> m.contains_key(#[trigger] rows[i].pk()) && m[rows[i].pk()] == rows[i]
    &&& forall|k: Seq<u8>| #[trigger] m.contains_key(k) ==> exists|i: int| 0 <= i < rows.len() && rows[i].pk() == k
}

/// Every row of `m` is stored under its own primary key.
pub open spec fn keyed_by_pk<V: PrimaryKey>(m: Map<Seq<u8>, V>) -> bool {
    forall|k: Seq<u8>| #[trigger] m.contains_key(k) ==> m[k].pk() == k
}

/// Keys in strictly ascending byte-wise order.
pub open spec fn strictly_ascending(keys: Seq<Seq<u8>>) -> bool {
    forall|i: int, j: int| 0 <= i < j < keys.len() ==> bytes_lt(#[trigger] keys[i], #[trigger] keys[j])
}

/// Rows of one table collected over a batch, one per primary key, in
/// ascending key order.
pub struct KeyedRows<R> {
    keys: Vec<Vec<u8>>,
    rows: Vec<R>,
}

impl<R> KeyedRows<R> {
    /// The keys, in the order the rows are held.
    pub closed spec fn key_seq(&self) -> Seq<Seq<u8>> {
        self.keys@.map_values(|k: Vec<u8>| k@)
    }

    /// The rows, in ascending key order.
    pub closed spec fn row_seq(&self) -> Seq<R> {
        self.rows@
    }

    pub open spec fn wf(&self) -> bool {
        &&& self.key_seq().len() == self.row_seq().len()
        &&& strictly_ascending(self.key_seq())
    }

    /// The contents as a map from key to the row last stored under it.
    pub open spec fn contents(&self) -> Map<Seq<u8>, R> {
        Map::new(
            |k: Seq<u8>| self.key_seq().contains(k),
            |k: Seq<u8>| self.row_seq()[self.key_seq().index_of(k)],
        )
    }

    pub fn new() -> (r: Self)
        ensures
            r.wf(),
            r.key_seq().len() == 0,
    {
        KeyedRows { keys: Vec::new(), rows: Vec::new() }
    }

    pub fn len(&self) -> (n: usize)
        requires
            self.wf(),
        ensures
            n == self.row_seq().len(),
    {
        self.rows.len()
    }

    /// Position of the first held key that is not below `key`.
    fn position(&self, key: &Vec<u8>) -> (r: (usize, bool))
        requires
            self.wf(),
        ensures
            r.0 <= self.key_seq().len(),
            forall|i: int| 0 <= i < r.0 ==> bytes_lt(#[trigger] self.key_seq()[i], key@),
            r.1 <==> (r.0 < self.key_seq().len() && self.key_seq()[r.0 as int] == key@),
            !r.1 ==> forall|j: int| r.0 <= j < self.key_seq().len() ==> bytes_lt(key@, #[trigger] self.key_seq()[j]),
    {
        let mut i: usize = 0;
        while i < self.keys.len()
            invariant
                self.wf(),
                i <= self.keys.len(),
                forall|j: int| 0 <= j < i ==> bytes_lt(#[trigger] self.key_seq()[j], key@),
            decreases self.keys.len() - i,
        {
            let o = compare_keys(&self.keys[i], key);
            match o {
                KeyOrder::Less => {
                    i = i + 1;
                },
                KeyOrder::Equal => {
                    return (i, true);
                },
                KeyOrder::Greater => {
                    assert forall|j: int| i <= j < self.key_seq().len() implies bytes_lt(
                        key@,
                        #[trigger] self.key_seq()[j],
                    ) by {
                        if j > i {
                            lemma_bytes_lt_transitive(key@, self.key_seq()[i as int], self.key_seq()[j]);
                        }
                    }
                    return (i, false);
                },
            }
        }
        (i, false)
    }

    /// Looks up the row held under `key`.
    pub fn get(&self, key: &Vec<u8>) -> (r: Option<&R>)
        requires
            self.wf(),
        ensures
            r == (if self.contents().contains_key(key@) {
                Some(&self.contents()[key@])
            } else {
                None::<&R>
            }),
    {
        let (i, found) = self.position(key);
        proof {
            if self.key_seq().contains(key@) {
                let k = self.key_seq().index_of(key@);
                if k < i {
                    lemma_bytes_lt_irreflexive(key@);
                } else if !found {
                    lemma_bytes_lt_irreflexive(key@);
                }
                self.lemma_index_unique(k, i as int);
            }
        }
        if found {
            Some(&self.rows[i])
        } else {
            None
        }
    }

    proof fn lemma_index_unique(&self, i: int, j: int)
        requires
            self.wf(),
            0 <= i < self.key_seq().len(),
            0 <= j < self.key_seq().len(),
            self.key_seq()[i] == self.key_seq()[j],
        ensures
            i == j,
    {
        if i != j {
            lemma_bytes_lt_irreflexive(self.key_seq()[i]);
        }
    }

    /// Stores `row` under `key`, replacing the row held there before.
    pub fn upsert(&mut self, key: Vec<u8>, row: R)
        requires
            old(self).wf(),
        ensures
            final(self).wf(),
            final(self).contents() == old(self).contents().insert(key@, row),
    {
        let ghost k = key@;
        let ghost old_keys = self.key_seq();
        let (i, found) = self.position(&key);
        if found {
            self.rows.set(i, row);
            proof {
                assert forall|x: Seq<u8>| #[trigger] self.contents().contains_key(x) == old(self).contents().insert(k, row).contains_key(x) by {}
                assert forall|x: Seq<u8>| self.contents().contains_key(x) implies #[trigger] self.contents()[x] == old(self).contents().insert(k, row)[x] by {
                    let p = self.key_seq().index_of(x);
                    self.lemma_index_unique(p, self.key_seq().index_of(x));
                    if x == k {
                        self.lemma_index_unique(p, i as int);
                    } else {
                        assert(p != i);
                    }
                }
                assert(self.contents() =~= old(self).contents().insert(k, row));
            }
        } else {
            self.keys.insert(i, key);
            self.rows.insert(i, row);
            proof {
                assert(self.key_seq() =~= old_keys.insert(i as int, k));
                assert forall|a: int, b: int| 0 <= a < b < self.key_seq().len() implies bytes_lt(
                    #[trigger] self.key_seq()[a],
                    #[trigger] self.key_seq()[b],
                ) by {
                    if a < i && b > i {
                        lemma_bytes_lt_transitive(self.key_seq()[a], k, self.key_seq()[b]);
                    }
                }
                assert forall|x: Seq<u8>| #[trigger] self.contents().contains_key(x) == old(self).contents().insert(k, row).contains_key(x) by {
                    if old_keys.contains(x) {
                        let p = old_keys.index_of(x);
                        if p < i {
                            assert(self.key_seq()[p] == x);
                        } else {
                            assert(self.key_seq()[p + 1] == x);
                        }
                    }
                    if self.key_seq().contains(x) {
                        let p = self.key_seq().index_of(x);
                        if p < i {
                            assert(old_keys[p] == x);
                        } else if p > i {
                            assert(old_keys[p - 1] == x);
                        }
                    }
                    assert(self.key_seq()[i as int] == k);
                }
                assert forall|x: Seq<u8>| self.contents().contains_key(x) implies #[trigger] self.contents()[x] == old(self).contents().insert(k, row)[x] by {
                    let p = self.key_seq().index_of(x);
                    if x == k {
                        self.lemma_index_unique(p, i as int);
                    } else {
                        let q = old_keys.index_of(x);
                        if p < i {
                            assert(old_keys[p] == x);
                            old(self).lemma_index_unique(p, q);
                        } else {
                            assert(p != i);
                            assert(old_keys[p - 1] == x);
                            old(self).lemma_index_unique(p - 1, q);
                        }
                    }
                }
                assert(self.contents() =~= old(self).contents().insert(k, row));
            }
        }
    }

    /// Each held key's row sits at that key's position, and every key of the
    /// contents is held.
    pub proof fn lemma_rows_by_key(&self)
        requires
            self.wf(),
        ensures
            forall|i: int|
                0 <= i < self.key_seq().len() ==> #[trigger] self.contents().contains_key(
                    self.key_seq()[i],
                ) && self.contents()[self.key_seq()[i]] == self.row_seq()[i],
            forall|k: Seq<u8>|
                #[trigger] self.contents().contains_key(k) ==> exists|i: int|
                    0 <= i < self.key_seq().len() && self.key_seq()[i] == k,
    {
        assert forall|i: int| 0 <= i < self.key_seq().len() implies #[trigger] self.contents().contains_key(
            self.key_seq()[i],
        ) && self.contents()[self.key_seq()[i]] == self.row_seq()[i] by {
            let k = self.key_seq()[i];
            assert(self.key_seq().contains(k));
            self.lemma_index_unique(i, self.key_seq().index_of(k));
        }
        assert forall|k: Seq<u8>| #[trigger] self.contents().contains_key(k) implies exists|i: int|
            0 <= i < self.key_seq().len() && self.key_seq()[i] == k by {
            let i = self.key_seq().index_of(k);
            assert(self.key_seq()[i] == k);
        }
    }

    /// Hands out the rows in ascending key order.
    pub fn into_rows(self) -> (r: Vec<R>)
        requires
            self.wf(),
        ensures
            r@ == self.row_seq(),
    {
        self.rows
    }
}

impl<R: View> KeyedRows<R> {
    /// The contents, each row seen through its view.
    pub open spec fn view_contents(&self) -> Map<Seq<u8>, R::V> {
        self.contents().map_values(|r: R| r@)
    }
}

impl<R: View> KeyedRows<R> where R::V: PrimaryKey {
    /// Rows keyed by their own primary key come out as the sorted values of
    /// the contents.
    pub proof fn lemma_sorted_rows(&self)
        requires
            self.wf(),
            keyed_by_pk(self.view_contents()),
        ensures
            sorted_rows_of(self.row_seq().map_values(|r: R| r@), self.view_contents()),
    {
        self.lemma_rows_by_key();
        let rows = self.row_seq().map_values(|r: R| r@);
        assert forall|i: int| 0 <= i < rows.len() implies #[trigger] rows[i].pk() == self.key_seq()[i] by {
            let k = self.key_seq()[i];
            assert(self.contents().contains_key(k));
            assert(self.view_contents().contains_key(k));
            assert(self.view_contents()[k] == self.row_seq()[i]@);
            assert(rows[i] == self.row_seq()[i]@);
        }
        assert(rows.map_values(|v: R::V| v.pk()) =~= self.key_seq());
        assert forall|k: Seq<u8>| #[trigger] self.view_contents().contains_key(k) implies exists|i: int|
            0 <= i < rows.len() && rows[i].pk() == k by {
            assert(self.contents().contains_key(k));
            let i = choose|i: int| 0 <= i < self.key_seq().len() && self.key_seq()[i] == k;
            assert(self.view_contents()[k] == self.row_seq()[i]@);
            assert(rows[i].pk() == k);
        }
    }
}

pub proof fn lemma_view_contents_insert<R: View>(m: Map<Seq<u8>, R>, k: Seq<u8>, r: R)
    ensures
        m.insert(k, r).map_values(|x: R| x@) =~= m.map_values(|x: R| x@).insert(k, r@),
{
}

/// Keys in ascending byte-wise order, equal keys allowed.
pub open spec fn ascending(keys: Seq<Seq<u8>>) -> bool {
    forall|i: int, j: int| 0 <= i < j < keys.len() ==> !bytes_lt(#[trigger] keys[j], #[trigger] keys[i])
}

/// `rows` hold exactly the rows of `model`, each as often, in ascending
/// primary-key order.
pub open spec fn sorted_permutation_of<V: PrimaryKey>(rows: Seq<V>, model: Seq<V>) -> bool {
    &&& ascending(rows.map_values(|v: V| v.pk()))
    &&& rows.to_multiset() == model.to_multiset()
}

/// Rows of an append-only table collected over a batch: every row kept, in
/// ascending key order, rows of equal keys in the order they came.
pub struct SortedRows<R> {
    keys: Vec<Vec<u8>>,
    rows: Vec<R>,
}

impl<R: View> SortedRows<R> where R::V: PrimaryKey {
    pub closed spec fn key_seq(&self) -> Seq<Seq<u8>> {
        self.keys@.map_values(|k: Vec<u8>| k@)
    }

    pub closed spec fn row_seq(&self) -> Seq<R> {
        self.rows@
    }

    /// The rows, seen through their views, in the order they are held.
    pub open spec fn view_seq(&self) -> Seq<R::V> {
        self.row_seq().map_values(|r: R| r@)
    }

    pub open spec fn wf(&self) -> bool {
        &&& self.key_seq().len() == self.row_seq().len()
        &&& forall|i: int| 0 <= i < self.key_seq().len() ==> #[trigger] self.key_seq()[i] == self.row_seq()[i]@.pk()
        &&& ascending(self.key_seq())
    }

    pub fn new() -> (r: Self)
        ensures
            r.wf(),
            r.view_seq() == Seq::<R::V>::empty(),
    {
        let r = SortedRows { keys: Vec::new(), rows: Vec::new() };
        assert(r.view_seq() =~= Seq::<R::V>::empty());
        r
    }

    /// Adds `row`, whose primary key is `key`, after every held row whose key
    /// is not above it.
    pub fn insert(&mut self, key: Vec<u8>, row: R)
        requires
            old(self).wf(),
            key@ == row@.pk(),
        ensures
            final(self).wf(),
            final(self).view_seq().to_multiset() == old(self).view_seq().to_multiset().insert(row@),
    {
        let ghost k = key@;
        let ghost old_keys = self.key_seq();
        let ghost old_views = self.view_seq();
        let mut p: usize = 0;
        let mut stop = false;
        while p < self.keys.len() && !stop
            invariant
                self.wf(),
                self.key_seq() == old_keys,
                key@ == k,
                p <= self.keys@.len(),
                forall|i: int| 0 <= i < p ==> !bytes_lt(k, #[trigger] old_keys[i]),
                stop ==> p < old_keys.len() && bytes_lt(k, old_keys[p as int]),
            decreases self.keys.len() - p + (if stop { 0int } else { 1int }),
        {
            assert(self.keys@[p as int]@ == old_keys[p as int]);
            match compare_keys(&key, &self.keys[p]) {
                KeyOrder::Less => {
                    stop = true;
                },
                _ => {
                    p = p + 1;
                },
            }
        }
        let ghost above = p < old_keys.len();
        proof {
            if above {
                assert(stop);
            }
        }
        self.keys.insert(p, key);
        self.rows.insert(p, row);
        proof {
            assert(self.key_seq() =~= old_keys.insert(p as int, k));
            assert(self.view_seq() =~= old_views.insert(p as int, row@));
            to_multiset_insert(old_views, p as int, row@);
            assert forall|a: int, b: int| 0 <= a < b < self.key_seq().len() implies !bytes_lt(
                #[trigger] self.key_seq()[b],
                #[trigger] self.key_seq()[a],
            ) by {
                if a == p && b > p {
                    let kb = old_keys[b - 1];
                    if bytes_lt(kb, k) {
                        if b - 1 == p {
                            lemma_bytes_lt_transitive(kb, k, kb);
                            lemma_bytes_lt_irreflexive(kb);
                        } else {
                            lemma_bytes_lt_transitive(kb, k, old_keys[p as int]);
                            assert(!bytes_lt(old_keys[b - 1], old_keys[p as int]));
                        }
                    }
                } else if a < p && b > p {
                    let ka = old_keys[a];
                    let kb = old_keys[b - 1];
                    if bytes_lt(kb, ka) {
                        assert(!bytes_lt(k, ka));
                        assert(!bytes_lt(kb, ka));
                    }
                } else if a < p && b == p {
                    assert(!bytes_lt(k, old_keys[a]));
                } else if a > p {
                    assert(self.key_seq()[a] == old_keys[a - 1]);
                    assert(self.key_seq()[b] == old_keys[b - 1]);
                }
            }
        }
    }

    /// Hands out the rows in the order held.
    pub fn into_rows(self) -> (r: Vec<R>)
        requires
            self.wf(),
        ensures
            r@ == self.row_seq(),
            ascending(self.view_seq().map_values(|v: R::V| v.pk())),
    {
        assert(self.view_seq().map_values(|v: R::V| v.pk()) =~= self.key_seq());
        self.rows
    }
}

} // verus!
