use stake_indexer::address::standardize_address;
use stake_indexer::keyed::{compare_keys, KeyOrder, KeyedRows};
use stake_indexer::rows::{push_key_part, push_u64_key};

fn padded(body: &str) -> String {
    format!("0x{}{}", "0".repeat(64 - body.len()), body)
}

#[test]
fn standardize_pads_short_address() {
    assert_eq!(standardize_address("0x1"), padded("1"));
    assert_eq!(standardize_address("0xa").len(), 66);
}

#[test]
fn standardize_accepts_missing_prefix() {
    assert_eq!(standardize_address("abc"), padded("abc"));
}

#[test]
fn standardize_lowercases() {
    assert_eq!(standardize_address("0xABcD"), padded("abcd"));
}

#[test]
fn standardize_keeps_full_width_and_is_stable() {
    let full = padded("123456789abcdef");
    assert_eq!(standardize_address(&full), full);
    let once = standardize_address("0xFF");
    assert_eq!(standardize_address(&once), once);
}

#[test]
fn standardize_keeps_overlong_body() {
    let body = "1".repeat(70);
    assert_eq!(standardize_address(&body), format!("0x{}", body));
}

#[test]
fn compare_keys_is_bytewise() {
    assert_eq!(compare_keys(&vec![1, 2], &vec![1, 3]), KeyOrder::Less);
    assert_eq!(compare_keys(&vec![1, 2], &vec![1, 2]), KeyOrder::Equal);
    assert_eq!(compare_keys(&vec![2], &vec![1, 9]), KeyOrder::Greater);
    assert_eq!(compare_keys(&vec![1], &vec![1, 0]), KeyOrder::Less);
    assert_eq!(compare_keys(&vec![], &vec![]), KeyOrder::Equal);
}

#[test]
fn keyed_rows_keep_last_per_key_in_key_order() {
    let mut rows: KeyedRows<&str> = KeyedRows::new();
    rows.upsert(vec![3], "c");
    rows.upsert(vec![1], "a");
    rows.upsert(vec![2], "b");
    rows.upsert(vec![1], "a2");
    assert_eq!(rows.len(), 3);
    assert_eq!(rows.get(&vec![1]), Some(&"a2"));
    assert_eq!(rows.get(&vec![4]), None);
    assert_eq!(rows.into_rows(), vec!["a2", "b", "c"]);
}

#[test]
fn key_parts_encode_text_and_integers() {
    let mut k: Vec<u8> = Vec::new();
    push_key_part(&mut k, "ab");
    push_u64_key(&mut k, 0x0102);
    assert_eq!(k, vec![b'a', b'b', 0, 0, 0, 0, 0, 0, 0, 1, 2]);
}
