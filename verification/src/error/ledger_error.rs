use vstd::prelude::*;

verus! {

/// Why the ledger refused a request.
#[derive(Debug, PartialEq, Eq)]
pub enum LedgerError {
    DuplicateTransaction,
}

} // verus!
