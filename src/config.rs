//! The run configuration: which processor runs, in which mode, and the
//! rules a configuration must meet before anything runs.

use vstd::prelude::*;
use vstd::string::StrSliceExecFns;
use ahash::AHashMap;
use crate::processor::StakeProcessorConfig;

verus! {

/// How the processor picks its version range.
#[derive(Clone, Copy, Debug, PartialEq, Eq, Structural)]
pub enum ProcessorMode {
    Default,
    Backfill,
    Testing,
}

impl Default for ProcessorMode {
    fn default() -> (r: Self)
        ensures
            r == ProcessorMode::Default,
    {
        ProcessorMode::Default
    }
}

/// A backfill over a fixed version range.
#[derive(Clone, Debug, PartialEq, Eq)]
pub struct BackfillConfig {
    pub backfill_id: String,
    pub initial_starting_version: u64,
    pub ending_version: u64,
    pub overwrite_checkpoint: bool,
}

/// Initial starting version for non-backfill processors; a restarted
/// processor picks up where it left off.
#[derive(Clone, Copy, Debug, PartialEq, Eq, Structural)]
pub struct BootStrapConfig {
    pub initial_starting_version: u64,
}

/// A test run: no checkpoint, always from `override_starting_version`.
#[derive(Clone, Copy, Debug, PartialEq, Eq, Structural)]
pub struct TestingConfig {
    pub override_starting_version: u64,
    pub ending_version: u64,
}

/// The processor to run, with its own settings.
#[derive(Clone, Copy, Debug, PartialEq, Eq, Structural)]
pub enum ProcessorConfig {
    AccountRestorationProcessor,
    AccountTransactionsProcessor,
    AnsProcessor,
    DefaultProcessor,
    EventsProcessor,
    FungibleAssetProcessor,
    UserTransactionProcessor,
    StakeProcessor(StakeProcessorConfig),
    MonitoringProcessor,
    TokenV2Processor,
    ObjectsProcessor,
    ParquetDefaultProcessor,
    ParquetEventsProcessor,
    ParquetUserTransactionsProcessor,
    ParquetFungibleAssetProcessor,
    ParquetTransactionMetadataProcessor,
    ParquetAccountTransactionsProcessor,
    ParquetTokenV2Processor,
    ParquetAnsProcessor,
    ParquetStakeProcessor,
    ParquetObjectsProcessor,
}

impl ProcessorConfig {
    pub open spec fn spec_name(self) -> &'static str {
        match self {
            ProcessorConfig::AccountRestorationProcessor => "account_restoration_processor",
            ProcessorConfig::AccountTransactionsProcessor => "account_transactions_processor",
            ProcessorConfig::AnsProcessor => "ans_processor",
            ProcessorConfig::DefaultProcessor => "default_processor",
            ProcessorConfig::EventsProcessor => "events_processor",
            ProcessorConfig::FungibleAssetProcessor => "fungible_asset_processor",
            ProcessorConfig::UserTransactionProcessor => "user_transaction_processor",
            ProcessorConfig::StakeProcessor(_) => "stake_processor",
            ProcessorConfig::MonitoringProcessor => "monitoring_processor",
            ProcessorConfig::TokenV2Processor => "token_v2_processor",
            ProcessorConfig::ObjectsProcessor => "objects_processor",
            ProcessorConfig::ParquetDefaultProcessor => "parquet_default_processor",
            ProcessorConfig::ParquetEventsProcessor => "parquet_events_processor",
            ProcessorConfig::ParquetUserTransactionsProcessor => "parquet_user_transactions_processor",
            ProcessorConfig::ParquetFungibleAssetProcessor => "parquet_fungible_asset_processor",
            ProcessorConfig::ParquetTransactionMetadataProcessor => "parquet_transaction_metadata_processor",
            ProcessorConfig::ParquetAccountTransactionsProcessor => "parquet_account_transactions_processor",
            ProcessorConfig::ParquetTokenV2Processor => "parquet_token_v2_processor",
            ProcessorConfig::ParquetAnsProcessor => "parquet_ans_processor",
            ProcessorConfig::ParquetStakeProcessor => "parquet_stake_processor",
            ProcessorConfig::ParquetObjectsProcessor => "parquet_objects_processor",
        }
    }

    /// The processor's name.
    pub fn name(&self) -> (r: &'static str)
        ensures
            r == self.spec_name(),
    {
        match self {
            ProcessorConfig::AccountRestorationProcessor => "account_restoration_processor",
            ProcessorConfig::AccountTransactionsProcessor => "account_transactions_processor",
            ProcessorConfig::AnsProcessor => "ans_processor",
            ProcessorConfig::DefaultProcessor => "default_processor",
            ProcessorConfig::EventsProcessor => "events_processor",
            ProcessorConfig::FungibleAssetProcessor => "fungible_asset_processor",
            ProcessorConfig::UserTransactionProcessor => "user_transaction_processor",
            ProcessorConfig::StakeProcessor(_) => "stake_processor",
            ProcessorConfig::MonitoringProcessor => "monitoring_processor",
            ProcessorConfig::TokenV2Processor => "token_v2_processor",
            ProcessorConfig::ObjectsProcessor => "objects_processor",
            ProcessorConfig::ParquetDefaultProcessor => "parquet_default_processor",
            ProcessorConfig::ParquetEventsProcessor => "parquet_events_processor",
            ProcessorConfig::ParquetUserTransactionsProcessor => "parquet_user_transactions_processor",
            ProcessorConfig::ParquetFungibleAssetProcessor => "parquet_fungible_asset_processor",
            ProcessorConfig::ParquetTransactionMetadataProcessor => "parquet_transaction_metadata_processor",
            ProcessorConfig::ParquetAccountTransactionsProcessor => "parquet_account_transactions_processor",
            ProcessorConfig::ParquetTokenV2Processor => "parquet_token_v2_processor",
            ProcessorConfig::ParquetAnsProcessor => "parquet_ans_processor",
            ProcessorConfig::ParquetStakeProcessor => "parquet_stake_processor",
            ProcessorConfig::ParquetObjectsProcessor => "parquet_objects_processor",
        }
    }
}

/// Where the transaction stream is read from.
#[derive(Clone, Debug, PartialEq, Eq)]
pub struct TransactionStreamConfig {
    pub indexer_grpc_data_service_address: String,
    pub auth_token: String,
    pub starting_version: Option<u64>,
    pub request_ending_version: Option<u64>,
}

/// The store and how it is written.
pub struct DbConfig {
    pub postgres_connection_string: String,
    pub db_pool_size: u32,
    pub per_table_chunk_sizes: AHashMap<String, usize>,
}

/// The whole run configuration.
pub struct IndexerProcessorConfig {
    pub processor_config: ProcessorConfig,
    pub transaction_stream_config: TransactionStreamConfig,
    pub db_config: DbConfig,
    pub backfill_config: Option<BackfillConfig>,
    pub bootstrap_config: Option<BootStrapConfig>,
    pub testing_config: Option<TestingConfig>,
    pub mode: ProcessorMode,
}

/// What a configuration that passes validation runs.
#[derive(Clone, Debug, PartialEq, Eq)]
pub enum RunPath {
    /// Live indexing, resuming from the checkpoint or else from the
    /// bootstrap version.
    Default { initial_starting_version: Option<u64> },
    Backfill {
        backfill_id: String,
        initial_starting_version: u64,
        ending_version: u64,
        overwrite_checkpoint: bool,
    },
    Testing { override_starting_version: u64, ending_version: u64 },
}

/// The processor to run and the path it takes.
#[derive(Clone, Debug, PartialEq, Eq)]
pub struct RunPlan {
    pub processor_name: &'static str,
    pub path: RunPath,
}

/// `i` is where the first segment of `s` ends: at its first `_`, else at
/// its end.
pub open spec fn is_segment_end(s: Seq<char>, i: int) -> bool {
    &&& 0 <= i <= s.len()
    &&& forall|j: int| 0 <= j < i ==> s[j] != '_'
    &&& i == s.len() || s[i] == '_'
}

pub open spec fn min_int(a: int, b: int) -> int {
    if a < b {
        a
    } else {
        b
    }
}

/// The server name of a processor name: the part before its first `_`, cut
/// to 12 characters.
pub fn server_name_of(name: &str) -> (r: String)
    ensures
        exists|i: int| is_segment_end(name@, i) && r@ == name@.subrange(0, min_int(i, 12)),
{
    let n = name.unicode_len();
    let mut i: usize = 0;
    while i < n && name.get_char(i) != '_'
        invariant
            n == name@.len(),
            i <= n,
            forall|j: int| 0 <= j < i ==> name@[j] != '_',
        decreases n - i,
    {
        i = i + 1;
    }
    let cut = if i < 12 {
        i
    } else {
        12
    };
    let r = String::from_str(name.substring_char(0, cut));
    assert(is_segment_end(name@, i as int));
    r
}

pub open spec fn validation_error(c: IndexerProcessorConfig) -> Option<Seq<char>> {
    match c.mode {
        ProcessorMode::Testing => match c.testing_config {
            None => Some("testing_config must be present when mode is 'testing'"@),
            Some(t) => if t.override_starting_version > t.ending_version {
                Some("testing_config.override_starting_version must not exceed ending_version"@)
            } else {
                None
            },
        },
        ProcessorMode::Backfill => if c.backfill_config.is_none() {
            Some("backfill_config must be present when mode is 'backfill'"@)
        } else {
            None
        },
        ProcessorMode::Default => None,
    }
}

impl IndexerProcessorConfig {
    /// Checks the rules between the mode and its side configuration.
    pub fn validate(&self) -> (r: Result<(), String>)
        ensures
            match validation_error(*self) {
                None => r.is_ok(),
                Some(m) => r.is_err() && r->Err_0@ == m,
            },
    {
        match self.mode {
            ProcessorMode::Testing => match &self.testing_config {
                None => {
                    return Err(String::from_str("testing_config must be present when mode is 'testing'"));
                },
                Some(t) => {
                    if t.override_starting_version > t.ending_version {
                        return Err(
                            String::from_str("testing_config.override_starting_version must not exceed ending_version"),
                        );
                    }
                },
            },
            ProcessorMode::Backfill => {
                if self.backfill_config.is_none() {
                    return Err(String::from_str("backfill_config must be present when mode is 'backfill'"));
                }
            },
            ProcessorMode::Default => {},
        }
        Ok(())
    }

    /// The name the processor's server goes by.
    pub fn get_server_name(&self) -> (r: String)
        ensures
            exists|i: int|
                is_segment_end(self.processor_config.spec_name()@, i) && r@ == self.processor_config.spec_name()@.subrange(
                    0,
                    min_int(i, 12),
                ),
    {
        server_name_of(self.processor_config.name())
    }

    /// Selects what runs: the configured processor, on the path its mode
    /// asks for. Fails as `validate` does.
    pub fn run_plan(&self) -> (r: Result<RunPlan, String>)
        ensures
            match validation_error(*self) {
                Some(m) => r.is_err() && r->Err_0@ == m,
                None => r.is_ok() && r->Ok_0.processor_name == self.processor_config.spec_name() && match (
                    self.mode,
                    r->Ok_0.path,
                ) {
                    (ProcessorMode::Default, RunPath::Default { initial_starting_version }) => initial_starting_version == match self.bootstrap_config {
                        Some(b) => Some(b.initial_starting_version),
                        None => None,
                    },
                    (
                        ProcessorMode::Backfill,
                        RunPath::Backfill { backfill_id, initial_starting_version, ending_version, overwrite_checkpoint },
                    ) => {
                        let b = self.backfill_config->Some_0;
                        &&& backfill_id@ == b.backfill_id@
                        &&& initial_starting_version == b.initial_starting_version
                        &&& ending_version == b.ending_version
                        &&& overwrite_checkpoint == b.overwrite_checkpoint
                    },
                    (ProcessorMode::Testing, RunPath::Testing { override_starting_version, ending_version }) => {
                        let t = self.testing_config->Some_0;
                        override_starting_version == t.override_starting_version && ending_version == t.ending_version
                    },
                    _ => false,
                },
            },
    {
        match self.validate() {
            Err(e) => {
                return Err(e);
            },
            Ok(()) => {},
        }
        let path = match self.mode {
            ProcessorMode::Default => RunPath::Default {
                initial_starting_version: match &self.bootstrap_config {
                    Some(b) => Some(b.initial_starting_version),
                    None => None,
                },
            },
            ProcessorMode::Backfill => {
                let b = self.backfill_config.as_ref().unwrap();
                RunPath::Backfill {
                    backfill_id: b.backfill_id.clone(),
                    initial_starting_version: b.initial_starting_version,
                    ending_version: b.ending_version,
                    overwrite_checkpoint: b.overwrite_checkpoint,
                }
            },
            ProcessorMode::Testing => {
                let t = self.testing_config.as_ref().unwrap();
                RunPath::Testing {
                    override_starting_version: t.override_starting_version,
                    ending_version: t.ending_version,
                }
            },
        };
        Ok(RunPlan { processor_name: self.processor_config.name(), path })
    }
}

} // verus!
