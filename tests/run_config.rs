use ahash::AHashMap;
use stake_indexer::config::{
    server_name_of, BackfillConfig, BootStrapConfig, DbConfig, IndexerProcessorConfig, ProcessorConfig,
    ProcessorMode, RunPath, TestingConfig, TransactionStreamConfig,
};
use stake_indexer::processor::StakeProcessorConfig;

fn config(processor: ProcessorConfig, mode: ProcessorMode) -> IndexerProcessorConfig {
    IndexerProcessorConfig {
        processor_config: processor,
        transaction_stream_config: TransactionStreamConfig {
            indexer_grpc_data_service_address: "http://localhost:50051".to_string(),
            auth_token: "SECRET-REDACTED".to_string(),
            starting_version: None,
            request_ending_version: None,
        },
        db_config: DbConfig {
            postgres_connection_string: "postgres://localhost/db".to_string(),
            db_pool_size: 8,
            per_table_chunk_sizes: AHashMap::new(),
        },
        backfill_config: None,
        bootstrap_config: None,
        testing_config: None,
        mode,
    }
}

fn stake() -> ProcessorConfig {
    ProcessorConfig::StakeProcessor(StakeProcessorConfig::default())
}

fn backfill() -> BackfillConfig {
    BackfillConfig {
        backfill_id: "bf1".to_string(),
        initial_starting_version: 10,
        ending_version: 20,
        overwrite_checkpoint: true,
    }
}

#[test]
fn default_mode_needs_no_side_config() {
    assert_eq!(config(stake(), ProcessorMode::Default).validate(), Ok(()));
    assert_eq!(ProcessorMode::default(), ProcessorMode::Default);
}

#[test]
fn backfill_without_config_fails() {
    let c = config(stake(), ProcessorMode::Backfill);
    assert_eq!(
        c.validate(),
        Err("backfill_config must be present when mode is 'backfill'".to_string())
    );
    assert!(c.run_plan().is_err());
}

#[test]
fn testing_without_config_fails() {
    let c = config(stake(), ProcessorMode::Testing);
    assert_eq!(
        c.validate(),
        Err("testing_config must be present when mode is 'testing'".to_string())
    );
}

#[test]
fn testing_with_inverted_range_fails() {
    let mut c = config(stake(), ProcessorMode::Testing);
    c.testing_config = Some(TestingConfig { override_starting_version: 9, ending_version: 3 });
    assert!(c.validate().is_err());
    c.testing_config = Some(TestingConfig { override_starting_version: 3, ending_version: 9 });
    assert_eq!(c.validate(), Ok(()));
}

#[test]
fn mode_dispatch_selects_backfill_path() {
    let mut c = config(stake(), ProcessorMode::Backfill);
    c.backfill_config = Some(backfill());
    let plan = c.run_plan().unwrap();
    assert_eq!(plan.processor_name, "stake_processor");
    assert_eq!(
        plan.path,
        RunPath::Backfill {
            backfill_id: "bf1".to_string(),
            initial_starting_version: 10,
            ending_version: 20,
            overwrite_checkpoint: true,
        }
    );
}

#[test]
fn mode_dispatch_selects_default_and_testing_paths() {
    let mut c = config(ProcessorConfig::EventsProcessor, ProcessorMode::Default);
    c.bootstrap_config = Some(BootStrapConfig { initial_starting_version: 77 });
    let plan = c.run_plan().unwrap();
    assert_eq!(plan.processor_name, "events_processor");
    assert_eq!(plan.path, RunPath::Default { initial_starting_version: Some(77) });
    let mut t = config(stake(), ProcessorMode::Testing);
    t.testing_config = Some(TestingConfig { override_starting_version: 1, ending_version: 2 });
    assert_eq!(
        t.run_plan().unwrap().path,
        RunPath::Testing { override_starting_version: 1, ending_version: 2 }
    );
}

#[test]
fn server_name_derivation() {
    assert_eq!(config(stake(), ProcessorMode::Default).get_server_name(), "stake");
    assert_eq!(server_name_of("stake_processor"), "stake");
    assert_eq!(server_name_of("parquet_stake_processor"), "parquet");
    assert_eq!(server_name_of("accountrestorationprocessor"), "accountresto");
    assert_eq!(server_name_of("monitoring"), "monitoring");
    assert_eq!(server_name_of(""), "");
    assert_eq!(
        config(ProcessorConfig::AccountTransactionsProcessor, ProcessorMode::Default).get_server_name(),
        "account"
    );
}

#[test]
fn processor_names() {
    assert_eq!(ProcessorConfig::TokenV2Processor.name(), "token_v2_processor");
    assert_eq!(ProcessorConfig::ParquetStakeProcessor.name(), "parquet_stake_processor");
    assert_eq!(stake().name(), "stake_processor");
}
