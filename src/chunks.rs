//! Planning of chunked writes: the chunk size of each table, the split of a
//! row collection into chunks, and the aggregation of chunk outcomes.

use vstd::prelude::*;
use ahash::AHashMap;

verus! {

/// ahash's hasher state, carried opaquely inside its maps.
#[verifier::external_type_specification]
#[verifier::external_body]
pub struct ExAHashRandomState(ahash::RandomState);

/// ahash's hash map, opaque: what it holds is seen through
/// `chunk_size_overrides`.
#[verifier::external_type_specification]
#[verifier::external_body]
#[verifier::reject_recursive_types(K)]
#[verifier::reject_recursive_types(V)]
#[verifier::reject_recursive_types(S)]
pub struct ExAHashMap<K, V, S>(AHashMap<K, V, S>);

/// The largest number of bind parameters in one statement.
pub const MAX_DIESEL_PARAM_SIZE: usize = 65535;

/// The chunk sizes configured per table name.
pub uninterp spec fn chunk_size_overrides(m: AHashMap<String, usize>) -> Map<Seq<char>, usize>;

/// Relies on ahash::AHashMap::get: the value stored under a key equal to
/// `table`, if there is one.
#[verifier::external_body]
fn chunk_size_override(m: &AHashMap<String, usize>, table: &str) -> (r: Option<usize>)
    ensures
        r == (if chunk_size_overrides(*m).contains_key(table@) {
            Some(chunk_size_overrides(*m)[table@])
        } else {
            None::<usize>
        }),
{
    m.get(table).copied()
}

/// The chunk size of a table: its configured size, else as many rows as fit
/// under the parameter limit.
pub open spec fn chunk_size_for(m: AHashMap<String, usize>, table: Seq<char>, field_count: usize) -> usize
    recommends
        field_count > 0,
{
    if chunk_size_overrides(m).contains_key(table) {
        chunk_size_overrides(m)[table]
    } else {
        (MAX_DIESEL_PARAM_SIZE / field_count) as usize
    }
}

/// The chunk size of `table_name`, whose rows have `field_count` columns.
pub fn get_config_table_chunk_size(
    table_name: &str,
    per_table_chunk_sizes: &AHashMap<String, usize>,
    field_count: usize,
) -> (r: usize)
    requires
        field_count > 0,
    ensures
        r == chunk_size_for(*per_table_chunk_sizes, table_name@, field_count),
{
    match chunk_size_override(per_table_chunk_sizes, table_name) {
        Some(n) => n,
        None => MAX_DIESEL_PARAM_SIZE / field_count,
    }
}

/// `r` splits `0..len` into consecutive half-open ranges of `chunk_size`
/// elements, the last of which may be shorter.
pub open spec fn is_chunking(r: Seq<(usize, usize)>, len: usize, chunk_size: usize) -> bool {
    &&& len == 0 <==> r.len() == 0
    &&& r.len() > 0 ==> r[0].0 == 0 && r[r.len() - 1].1 == len
    &&& forall|i: int| 0 <= i < r.len() ==> 0 < (#[trigger] r[i]).1 - r[i].0 <= chunk_size
    &&& forall|i: int| 0 <= i < r.len() - 1 ==> (#[trigger] r[i]).1 == r[i + 1].0 && r[i].1 - r[i].0 == chunk_size
}

/// Splits `len` rows into chunks of `chunk_size` rows.
pub fn chunk_ranges(len: usize, chunk_size: usize) -> (r: Vec<(usize, usize)>)
    requires
        chunk_size > 0,
    ensures
        is_chunking(r@, len, chunk_size),
{
    let mut r: Vec<(usize, usize)> = Vec::new();
    let mut start: usize = 0;
    while start < len
        invariant
            chunk_size > 0,
            start <= len,
            start == 0 <==> r@.len() == 0,
            r@.len() > 0 ==> r@[0].0 == 0 && r@[r@.len() - 1].1 == start,
            forall|i: int| 0 <= i < r@.len() ==> 0 < (#[trigger] r@[i]).1 - r@[i].0 <= chunk_size,
            forall|i: int| 0 <= i < r@.len() - 1 ==> (#[trigger] r@[i]).1 == r@[i + 1].0 && r@[i].1 - r@[i].0 == chunk_size,
            r@.len() > 0 && start < len ==> r@[r@.len() - 1].1 - r@[r@.len() - 1].0 == chunk_size,
        decreases len - start,
    {
        let end = if len - start > chunk_size {
            start + chunk_size
        } else {
            len
        };
        r.push((start, end));
        start = end;
    }
    r
}

/// The outcome of a set of writes: the first failure, if any.
pub fn first_failure<E>(results: Vec<Result<(), E>>) -> (r: Result<(), E>)
    ensures
        r.is_ok() <==> forall|i: int| 0 <= i < results@.len() ==> (#[trigger] results@[i]).is_ok(),
        r.is_err() ==> exists|i: int|
            0 <= i < results@.len() && results@[i] == r && forall|j: int| 0 <= j < i ==> (#[trigger] results@[j]).is_ok(),
{
    let ghost all = results@;
    let mut rest = results;
    let ghost mut done: int = 0;
    while rest.len() > 0
        invariant
            all == results@,
            0 <= done <= all.len(),
            rest@ == all.subrange(done, all.len() as int),
            forall|j: int| 0 <= j < done ==> (#[trigger] all[j]).is_ok(),
        decreases rest@.len(),
    {
        assert(rest@[0] == all[done]);
        let res = rest.remove(0);
        match res {
            Ok(()) => {},
            Err(e) => {
                assert(all[done] == Err::<(), E>(e));
                assert(forall|j: int| 0 <= j < done ==> (#[trigger] results@[j]).is_ok());
                return Err(e);
            },
        }
        proof {
            done = done + 1;
        }
        assert(rest@ =~= all.subrange(done, all.len() as int));
    }
    Ok(())
}

} // verus!
