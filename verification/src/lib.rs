//! Verified core of a ClickHouse-backed Solana ledger service.
pub mod block_response_cache;
pub mod clickhouse;
pub mod hashing;
pub mod lists;
pub mod processing;
pub mod solparq;
pub mod solparq_read;
pub mod text;
pub mod text_search;
pub mod time;
