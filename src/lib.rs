//! Stake-domain transaction indexer core: extraction of relational rows from
//! ledger transactions, ordered batch accumulation, upsert policies with
//! monotonic guards, chunked write planning and run-configuration gating.

pub mod address;
pub mod keyed;
pub mod txn;
pub mod rows;
pub mod stake;
pub mod upsert;
pub mod chunks;
pub mod processor;
pub mod config;
pub mod user_transactions;
pub mod runtime;
