//! Reading archives: the command line's meaning, and the selection of rows.
pub mod config;
pub mod query;
