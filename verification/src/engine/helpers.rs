use vstd::prelude::*;

use crate::domain::account::Account;
use crate::domain::client::ClientId;
use crate::domain::recorded_transaction::RecordedTransaction;
use crate::domain::transaction_id::TxId;
use crate::error::transaction_error::TransactionError;
use crate::ledger::in_memory::InMemoryLedger;
use crate::traits::ledger::Ledger;

verus! {

/// The transaction recorded under `tx_id`, if any.
pub fn check_transaction_exists(tx_id: TxId, ledger: &InMemoryLedger) -> (tx: Option<
    &RecordedTransaction,
>)
    ensures
        match tx {
            Some(t) => ledger.ledger_state().transactions.contains_key(tx_id)
                && *t == ledger.ledger_state().transactions[tx_id],
            None => !ledger.ledger_state().transactions.contains_key(tx_id),
        },
{
    ledger.recorded_tx(tx_id)
}

/// `Ok` exactly when no transaction is recorded under `tx_id`.
pub fn ensure_transaction_is_new(tx_id: TxId, ledger: &InMemoryLedger) -> (result: Result<
    (),
    TransactionError,
>)
    ensures
        ledger.ledger_state().transactions.contains_key(tx_id) ==> result == Err::<(), TransactionError>(
            TransactionError::DuplicateTransaction,
        ),
        !ledger.ledger_state().transactions.contains_key(tx_id) ==> result is Ok,
{
    if check_transaction_exists(tx_id, ledger).is_some() {
        return Err(TransactionError::DuplicateTransaction);
    }
    Ok(())
}

/// The transaction recorded under `tx_id`, or `TransactionNotFound`.
pub fn get_transaction_or_not_found(tx_id: TxId, ledger: &InMemoryLedger) -> (result: Result<
    &RecordedTransaction,
    TransactionError,
>)
    ensures
        match result {
            Ok(t) => ledger.ledger_state().transactions.contains_key(tx_id)
                && *t == ledger.ledger_state().transactions[tx_id],
            Err(e) => !ledger.ledger_state().transactions.contains_key(tx_id)
                && e == TransactionError::TransactionNotFound,
        },
{
    check_transaction_exists(tx_id, ledger).ok_or(TransactionError::TransactionNotFound)
}

/// The balances and lock flag of the account of `client_id`, or those of the
/// fresh account it would get; the ledger is left as it is.
pub(crate) fn current_account(client_id: ClientId, ledger: &InMemoryLedger) -> (account: (
    i32,
    i32,
    bool,
))
    ensures
        account.0 == ledger.ledger_state().account_or_fresh(client_id).available,
        account.1 == ledger.ledger_state().account_or_fresh(client_id).held,
        account.2 == ledger.ledger_state().account_or_fresh(client_id).locked,
{
    match ledger.account(client_id) {
        Some(a) => (a.available, a.held, a.locked),
        None => (0, 0, false),
    }
}

} // verus!
