//! Archiving the ledger, and what operators see of it.
pub mod archive;
pub mod dashboard;
