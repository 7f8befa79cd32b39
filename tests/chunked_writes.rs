use stake_indexer::chunks::{chunk_ranges, first_failure, get_config_table_chunk_size, MAX_DIESEL_PARAM_SIZE};
use ahash::AHashMap;

#[test]
fn chunk_size_uses_override() {
    let mut m: AHashMap<String, usize> = AHashMap::new();
    m.insert("proposal_votes".to_string(), 100);
    assert_eq!(get_config_table_chunk_size("proposal_votes", &m, 7), 100);
}

#[test]
fn chunk_size_defaults_to_parameter_limit() {
    let m: AHashMap<String, usize> = AHashMap::new();
    assert_eq!(get_config_table_chunk_size("proposal_votes", &m, 7), MAX_DIESEL_PARAM_SIZE / 7);
    assert_eq!(get_config_table_chunk_size("delegated_staking_pools", &m, 2), 32767);
}

#[test]
fn chunk_ranges_split_evenly_with_short_tail() {
    assert_eq!(chunk_ranges(10, 4), vec![(0, 4), (4, 8), (8, 10)]);
    assert_eq!(chunk_ranges(8, 4), vec![(0, 4), (4, 8)]);
    assert_eq!(chunk_ranges(3, 10), vec![(0, 3)]);
    assert_eq!(chunk_ranges(0, 10), vec![]);
}

#[test]
fn first_failure_returns_first_error() {
    let ok: Vec<Result<(), u32>> = vec![Ok(()), Ok(())];
    assert_eq!(first_failure(ok), Ok(()));
    let bad: Vec<Result<(), u32>> = vec![Ok(()), Err(2), Err(3)];
    assert_eq!(first_failure(bad), Err(2));
    let none: Vec<Result<(), u32>> = vec![];
    assert_eq!(first_failure(none), Ok(()));
}
