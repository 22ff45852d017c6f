//! The values that queries are made of and that they return.
use vstd::prelude::*;

verus! {

/// Where a transaction stands: its slot, and its place in the block.
#[derive(Clone, Copy, Debug, PartialEq, Eq, Structural)]
pub struct SignatureSlot {
    pub slot: u64,
    pub slot_idx: u32,
}

/// A bound on a page of history.
#[derive(Clone, Copy, Debug, PartialEq, Eq, Structural)]
pub enum SlotBoundary {
    Position(SignatureSlot),
    Slot(u64),
}

/// The order of a page.
#[derive(Clone, Copy, Debug, PartialEq, Eq, Structural)]
pub enum SortOrder {
    Asc,
    Desc,
}

/// Which transactions to return, by their outcome.
#[derive(Clone, Copy, Debug, PartialEq, Eq, Structural)]
pub enum TransactionStatusFilter {
    Any,
    Succeeded,
    Failed,
}

/// Which token account activity to return.
#[derive(Clone, Copy, Debug, PartialEq, Eq, Structural)]
pub enum TokenAccountsFilter {
    Omitted,
    BalanceChanged,
    All,
}

/// Bounds on a number.
#[derive(Debug)]
pub struct NumericFilter<T> {
    pub eq: Option<T>,
    pub gte: Option<T>,
    pub gt: Option<T>,
    pub lte: Option<T>,
    pub lt: Option<T>,
}

impl<T> Default for NumericFilter<T> {
    /// No bound at all.
    fn default() -> (r: NumericFilter<T>)
        ensures
            r.eq is None && r.gte is None && r.gt is None && r.lte is None && r.lt is None,
    {
        NumericFilter { eq: None, gte: None, gt: None, lte: None, lt: None }
    }
}

/// Bounds given by signatures.
#[derive(Debug)]
pub struct SignatureFilter {
    pub gte: Option<String>,
    pub gt: Option<String>,
    pub lte: Option<String>,
    pub lt: Option<String>,
}

impl Default for SignatureFilter {
    /// No bound at all.
    fn default() -> (r: SignatureFilter)
        ensures
            r.gte is None && r.gt is None && r.lte is None && r.lt is None,
    {
        SignatureFilter { gte: None, gt: None, lte: None, lt: None }
    }
}

/// Bounds given by positions.
#[derive(Clone, Copy, Debug)]
pub struct ResolvedSignatureFilter {
    pub gte: Option<SignatureSlot>,
    pub gt: Option<SignatureSlot>,
    pub lte: Option<SignatureSlot>,
    pub lt: Option<SignatureSlot>,
}

impl Default for ResolvedSignatureFilter {
    /// No bound at all.
    fn default() -> (r: ResolvedSignatureFilter)
        ensures
            r.gte is None && r.gt is None && r.lte is None && r.lt is None,
    {
        ResolvedSignatureFilter { gte: None, gt: None, lte: None, lt: None }
    }
}

/// Where a page starts.
#[derive(Debug)]
pub enum PaginationToken {
    SlotIndex { slot: u64, idx: u32 },
    Signature(String),
}

/// A request for the transactions of an address.
#[derive(Debug)]
pub struct TransactionsForAddressQuery {
    pub address: String,
    pub limit: u64,
    pub sort_order: SortOrder,
    pub pagination: Option<PaginationToken>,
    pub resolved_pagination: Option<SignatureSlot>,
    pub slot_filter: Option<NumericFilter<u64>>,
    pub block_time_filter: Option<NumericFilter<i64>>,
    pub signature_filter: Option<SignatureFilter>,
    pub resolved_signature_filter: Option<ResolvedSignatureFilter>,
    pub status: TransactionStatusFilter,
    pub token_accounts: TokenAccountsFilter,
}

/// A signature in the history of an address, with its error as the service reports it.
#[derive(Debug)]
pub struct SignatureRecord<E> {
    pub signature: String,
    pub slot: u64,
    pub slot_idx: u32,
    pub err: Option<E>,
    pub memo: Option<String>,
    pub block_time: Option<i64>,
}

/// The outcome of a signature, with its error as the service reports it.
#[derive(Debug)]
pub struct SignatureStatusRecord<E> {
    pub signature: String,
    pub slot: u64,
    pub err: Option<E>,
}

} // verus!
