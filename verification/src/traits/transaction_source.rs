use vstd::prelude::*;

use crate::domain::transaction::Transaction;
use crate::error::app_error::AppError;

verus! {

/// A stream of input transactions.
pub trait TransactionSource {
    fn next_transaction(&mut self) -> Result<Option<Transaction>, AppError>;
}

} // verus!
