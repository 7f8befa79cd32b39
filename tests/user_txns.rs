use stake_indexer::address::standardize_address;
use stake_indexer::txn::Timestamp;
use stake_indexer::user_transactions::{
    EntryFunctionId, SignatureKind, SignerSignature, TransactionSignature, UserTransaction,
    UserTransactionError, UserTransactionInput, UserTransactionRequest,
};

fn request() -> UserTransactionRequest {
    UserTransactionRequest {
        sender: "0xA1".to_string(),
        sequence_number: 12,
        max_gas_amount: 2000,
        gas_unit_price: 100,
        expiration_timestamp_secs: Some(Timestamp { seconds: 500, nanos: 0 }),
        entry_function: Some(EntryFunctionId {
            module_address: "0x1".to_string(),
            module_name: "coin".to_string(),
            function_name: "transfer".to_string(),
        }),
        signature: Some(TransactionSignature {
            kind: SignatureKind::MultiAgent,
            signers: vec![
                SignerSignature { signer: "0xa1".to_string(), public_key: "pk1".to_string(), signature: "s1".to_string() },
                SignerSignature { signer: "0xb2".to_string(), public_key: "pk2".to_string(), signature: "s2".to_string() },
            ],
        }),
    }
}

#[test]
fn from_transaction_builds_row_and_signatures() {
    let ts = Timestamp { seconds: 400, nanos: 5 };
    let input = UserTransactionInput { request: Some(request()) };
    let (u, sigs) = UserTransaction::from_transaction(&input, &ts, 9, 3, 1000).unwrap();
    assert_eq!(u.version, 1000);
    assert_eq!(u.block_height, 9);
    assert_eq!(u.epoch, 3);
    assert_eq!(u.sender, standardize_address("0xa1"));
    assert_eq!(u.sequence_number, 12);
    assert_eq!(u.max_gas_amount, 2000);
    assert_eq!(u.gas_unit_price, 100);
    assert_eq!(u.timestamp, ts);
    assert_eq!(u.expiration_timestamp_secs, Timestamp { seconds: 500, nanos: 0 });
    assert_eq!(u.parent_signature_type, "multi_agent_signature");
    assert_eq!(u.entry_function_id_str, format!("{}::coin::transfer", standardize_address("0x1")));
    assert_eq!(u.entry_function_contract_address, Some(standardize_address("0x1")));
    assert_eq!(u.entry_function_module_name, Some("coin".to_string()));
    assert_eq!(u.entry_function_function_name, Some("transfer".to_string()));
    assert_eq!(sigs.len(), 2);
    assert!(sigs[0].is_sender_primary);
    assert!(!sigs[1].is_sender_primary);
    assert_eq!(sigs[1].signer, standardize_address("0xb2"));
    assert_eq!(sigs[1].multi_agent_index, 1);
    assert_eq!(sigs[1].signature_type, "multi_agent_signature");
    assert_eq!(sigs[1].transaction_block_height, 9);
}

#[test]
fn from_transaction_without_entry_function_uses_empty_text() {
    let mut r = request();
    r.entry_function = None;
    r.signature = None;
    let input = UserTransactionInput { request: Some(r) };
    let (u, sigs) = UserTransaction::from_transaction(&input, &Timestamp { seconds: 1, nanos: 0 }, 1, 1, 1).unwrap();
    assert_eq!(u.entry_function_id_str, "");
    assert_eq!(u.entry_function_contract_address, Some(String::new()));
    assert_eq!(u.parent_signature_type, "");
    assert!(sigs.is_empty());
}

#[test]
fn from_transaction_errors() {
    let ts = Timestamp { seconds: 1, nanos: 0 };
    assert_eq!(
        UserTransaction::from_transaction(&UserTransactionInput { request: None }, &ts, 1, 1, 1).err(),
        Some(UserTransactionError::MissingRequest)
    );
    let mut r = request();
    r.expiration_timestamp_secs = None;
    assert_eq!(
        UserTransaction::from_transaction(&UserTransactionInput { request: Some(r) }, &ts, 1, 1, 1).err(),
        Some(UserTransactionError::MissingExpirationTimestamp)
    );
}

#[test]
fn get_signatures_of_unsigned_request_is_empty() {
    let mut r = request();
    r.signature = None;
    assert!(UserTransaction::get_signatures(&r, 1, 1).is_empty());
    let sigs = UserTransaction::get_signatures(&request(), 5, 6);
    assert_eq!(sigs[0].transaction_version, 5);
    assert_eq!(sigs[0].public_key, "pk1");
}
