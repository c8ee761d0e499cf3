use vstd::prelude::*;

use crate::domain::transaction::Transaction;
use crate::engine::transaction_handlers::{
    chargeback_outcome, deposit_outcome, dispute_outcome, handle_chargeback, handle_deposit,
    handle_dispute, handle_resolve, handle_withdraw, resolve_outcome, withdraw_outcome,
};
use crate::error::transaction_error::TransactionError;
use crate::ledger::in_memory::InMemoryLedger;
use crate::traits::ledger::{Ledger, LedgerState};

verus! {

/// The ledger and the answer after applying `tx` to `s`, by its kind.
pub open spec fn apply_outcome(s: LedgerState, tx: Transaction) -> (LedgerState, Result<(), TransactionError>) {
    match tx {
        Transaction::Deposit { .. } => deposit_outcome(s, tx),
        Transaction::Withdrawal { .. } => withdraw_outcome(s, tx),
        Transaction::Dispute { .. } => dispute_outcome(s, tx),
        Transaction::Resolve { .. } => resolve_outcome(s, tx),
        Transaction::Chargeback { .. } => chargeback_outcome(s, tx),
    }
}

/// Dispatches each transaction to the rule for its kind.
pub struct PaymentEngine;

impl PaymentEngine {
    pub fn new() -> (engine: PaymentEngine) {
        PaymentEngine
    }

    /// Applies `tx` to `ledger`.
    pub fn apply(&mut self, tx: Transaction, ledger: &mut InMemoryLedger) -> (result: Result<(), TransactionError>)
        ensures
            (final(ledger).ledger_state(), result) == apply_outcome(old(ledger).ledger_state(), tx),
    {
        match tx {
            Transaction::Deposit { .. } => handle_deposit(tx, ledger),
            Transaction::Withdrawal { .. } => handle_withdraw(tx, ledger),
            Transaction::Dispute { .. } => handle_dispute(tx, ledger),
            Transaction::Resolve { .. } => handle_resolve(tx, ledger),
            Transaction::Chargeback { .. } => handle_chargeback(tx, ledger),
        }
    }
}

} // verus!
