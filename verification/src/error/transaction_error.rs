use vstd::prelude::*;

verus! {

/// Why the engine refused a transaction.
#[derive(Debug, PartialEq, Eq)]
pub enum TransactionError {
    InvalidInput,
    InvalidFunds,
    LedgerError,
    AccountLocked,
    TransactionNotFound,
    DisputeError,
    DuplicateTransaction,
}

} // verus!
