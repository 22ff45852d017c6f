//! Query building, shard routing and result checking for the ClickHouse ledger tables.
pub mod blocks;
pub mod cache;
pub mod client;
pub mod columns;
pub mod disconnect;
pub mod gsfa;
pub mod inflation;
pub mod inflation_queries;
pub mod queries;
pub mod read_query;
pub mod rows;
pub mod sharding;
pub mod signatures;
pub mod slots;
pub mod sql;
pub mod startup;
pub mod timeouts;
pub mod topology;
pub mod types;
pub mod urls;
