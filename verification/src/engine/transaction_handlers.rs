use vstd::prelude::*;

use crate::domain::account::Account;
use crate::domain::amount::Amount;
use crate::domain::dispute::DisputeState;
use crate::domain::recorded_transaction::RecordedTransaction;
use crate::domain::transaction::Transaction;
use crate::engine::helpers::{
    current_account, ensure_transaction_is_new, get_transaction_or_not_found,
};
use crate::error::transaction_error::TransactionError;
use crate::ledger::in_memory::InMemoryLedger;
use crate::traits::ledger::{Ledger, LedgerState};

verus! {

/// The value lies in the range of an `Amount`.
pub open spec fn fits(value: int) -> bool {
    i32::MIN <= value <= i32::MAX
}

/// What a successful deposit or withdrawal records.
pub open spec fn record_of(tx: Transaction, amount: Amount) -> RecordedTransaction {
    RecordedTransaction {
        tx_id: tx.tx_id(),
        client_id: tx.client_id(),
        amount,
        kind: tx,
        dispute_state: DisputeState::NotDisputed,
    }
}

/// The ledger and the answer after a deposit of `tx` to `s`.
pub open spec fn deposit_outcome(s: LedgerState, tx: Transaction) -> (LedgerState, Result<(), TransactionError>) {
    let id = tx.tx_id();
    let client = tx.client_id();
    if s.transactions.contains_key(id) {
        (s, Err(TransactionError::DuplicateTransaction))
    } else {
        match tx.amount() {
            None => (s, Err(TransactionError::InvalidInput)),
            Some(amount) => {
                let account = s.account_or_fresh(client);
                if amount < 0 {
                    (s, Err(TransactionError::InvalidInput))
                } else if account.locked {
                    (s, Err(TransactionError::AccountLocked))
                } else if !fits(account.available + amount) {
                    (s, Err(TransactionError::InvalidInput))
                } else {
                    (
                        s.with_account(
                            client,
                            Account { available: (account.available + amount) as i32, ..account },
                        ).with_transaction(id, record_of(tx, amount)),
                        Ok(()),
                    )
                }
            },
        }
    }
}

/// The ledger and the answer after a withdrawal of `tx` from `s`.
pub open spec fn withdraw_outcome(s: LedgerState, tx: Transaction) -> (LedgerState, Result<(), TransactionError>) {
    let id = tx.tx_id();
    let client = tx.client_id();
    if s.transactions.contains_key(id) {
        (s, Err(TransactionError::DuplicateTransaction))
    } else {
        match tx.amount() {
            None => (s, Err(TransactionError::InvalidInput)),
            Some(amount) => {
                let account = s.account_or_fresh(client);
                if amount < 0 {
                    (s, Err(TransactionError::InvalidInput))
                } else if account.locked {
                    (s, Err(TransactionError::AccountLocked))
                } else if account.available < amount {
                    (s, Err(TransactionError::InvalidFunds))
                } else {
                    (
                        s.with_account(
                            client,
                            Account { available: (account.available - amount) as i32, ..account },
                        ).with_transaction(id, record_of(tx, amount)),
                        Ok(()),
                    )
                }
            },
        }
    }
}

/// The ledger and the answer after a dispute of `tx` in `s`: the disputed
/// amount moves from available to held on the account that `tx` names.
pub open spec fn dispute_outcome(s: LedgerState, tx: Transaction) -> (LedgerState, Result<(), TransactionError>) {
    let id = tx.tx_id();
    let client = tx.client_id();
    if !s.transactions.contains_key(id) {
        (s, Err(TransactionError::TransactionNotFound))
    } else {
        let rec = s.transactions[id];
        let account = s.account_or_fresh(client);
        if rec.dispute_state != DisputeState::NotDisputed {
            (s, Err(TransactionError::DisputeError))
        } else if !fits(account.available - rec.amount) || !fits(account.held + rec.amount) {
            (s, Err(TransactionError::InvalidInput))
        } else {
            (
                s.with_account(
                    client,
                    Account {
                        available: (account.available - rec.amount) as i32,
                        held: (account.held + rec.amount) as i32,
                        ..account
                    },
                ).with_transaction(id, RecordedTransaction { dispute_state: DisputeState::Disputed, ..rec }),
                Ok(()),
            )
        }
    }
}

/// The ledger and the answer after a resolve of `tx` in `s`: the disputed
/// amount moves from held back to available.
pub open spec fn resolve_outcome(s: LedgerState, tx: Transaction) -> (LedgerState, Result<(), TransactionError>) {
    let id = tx.tx_id();
    let client = tx.client_id();
    if !s.transactions.contains_key(id) {
        (s, Err(TransactionError::TransactionNotFound))
    } else {
        let rec = s.transactions[id];
        let account = s.account_or_fresh(client);
        if rec.dispute_state != DisputeState::Disputed {
            (s, Err(TransactionError::DisputeError))
        } else if !fits(account.available + rec.amount) || !fits(account.held - rec.amount) {
            (s, Err(TransactionError::InvalidInput))
        } else {
            (
                s.with_account(
                    client,
                    Account {
                        available: (account.available + rec.amount) as i32,
                        held: (account.held - rec.amount) as i32,
                        ..account
                    },
                ).with_transaction(id, RecordedTransaction { dispute_state: DisputeState::NotDisputed, ..rec }),
                Ok(()),
            )
        }
    }
}

/// The ledger and the answer after a chargeback of `tx` in `s`: the
/// disputed amount leaves the held funds and the account is locked.
pub open spec fn chargeback_outcome(s: LedgerState, tx: Transaction) -> (LedgerState, Result<(), TransactionError>) {
    let id = tx.tx_id();
    let client = tx.client_id();
    if !s.transactions.contains_key(id) {
        (s, Err(TransactionError::TransactionNotFound))
    } else {
        let rec = s.transactions[id];
        let account = s.account_or_fresh(client);
        if rec.dispute_state != DisputeState::Disputed {
            (s, Err(TransactionError::DisputeError))
        } else if !fits(account.held - rec.amount) {
            (s, Err(TransactionError::InvalidInput))
        } else {
            (
                s.with_account(
                    client,
                    Account { held: (account.held - rec.amount) as i32, locked: true, ..account },
                ).with_transaction(id, RecordedTransaction { dispute_state: DisputeState::ChargedBack, ..rec }),
                Ok(()),
            )
        }
    }
}

/// Applies `tx` as a deposit: refused if its id is already recorded, if it
/// carries no amount or a negative one, if the account is locked, or if the
/// balance would overflow.
pub fn handle_deposit(tx: Transaction, ledger: &mut InMemoryLedger) -> (result: Result<(), TransactionError>)
    ensures
        (final(ledger).ledger_state(), result) == deposit_outcome(old(ledger).ledger_state(), tx),
{
    let ghost s = ledger.ledger_state();
    // Check if transaction already exists
    ensure_transaction_is_new(tx.tx_id(), ledger)?;

    // Get amount and verify it's not negative
    let amount = tx.amount().ok_or(TransactionError::InvalidInput)?;
    if amount < 0 {
        return Err(TransactionError::InvalidInput);
    }

    let client_id = tx.client_id();
    let account = ledger.account_mut_or_create(client_id);

    if account.locked {
        proof {
            assert(s.accounts.insert(client_id, s.accounts[client_id]) =~= s.accounts);
        }
        return Err(TransactionError::AccountLocked);
    }

    account.available = match account.available.checked_add(amount) {
        Some(v) => v,
        None => {
            proof {
                assert(s.accounts.insert(client_id, s.accounts[client_id]) =~= s.accounts);
            }
            return Err(TransactionError::InvalidInput);
        },
    };

    ledger.insert_recorded_tx(
        RecordedTransaction {
            tx_id: tx.tx_id(),
            client_id: tx.client_id(),
            amount,
            kind: tx,
            dispute_state: DisputeState::NotDisputed,
        },
    ).map_err(|_e| TransactionError::LedgerError)?;

    Ok(())
}

/// Applies `tx` as a withdrawal: refused if its id is already recorded, if
/// it carries no amount or a negative one, if the account is locked, or if
/// the available funds are short. A refusal changes nothing.
pub fn handle_withdraw(tx: Transaction, ledger: &mut InMemoryLedger) -> (result: Result<(), TransactionError>)
    ensures
        (final(ledger).ledger_state(), result) == withdraw_outcome(old(ledger).ledger_state(), tx),
{
    // Check if transaction already exists
    ensure_transaction_is_new(tx.tx_id(), ledger)?;

    // Get amount and verify it's not negative
    let amount = tx.amount().ok_or(TransactionError::InvalidInput)?;
    if amount < 0 {
        return Err(TransactionError::InvalidInput);
    }

    // Check the account before touching it: a refusal leaves the ledger as
    // it was.
    let client_id = tx.client_id();
    let (available, _held, locked) = current_account(client_id, ledger);
    if locked {
        return Err(TransactionError::AccountLocked);
    }
    if available < amount {
        return Err(TransactionError::InvalidFunds);
    }

    let account = ledger.account_mut_or_create(client_id);
    account.available = account.available.checked_sub(amount).ok_or(
        TransactionError::InvalidInput,
    )?;

    ledger.insert_recorded_tx(
        RecordedTransaction {
            tx_id: tx.tx_id(),
            client_id: tx.client_id(),
            amount,
            kind: tx,
            dispute_state: DisputeState::NotDisputed,
        },
    ).map_err(|_e| TransactionError::LedgerError)?;

    Ok(())
}

/// Applies `tx` as a dispute of the transaction it references, on the
/// account of the client it names: refused if the reference is unknown, if
/// the transaction is already disputed or charged back, or if a balance
/// would overflow. A refusal changes nothing.
pub fn handle_dispute(tx: Transaction, ledger: &mut InMemoryLedger) -> (result: Result<(), TransactionError>)
    ensures
        (final(ledger).ledger_state(), result) == dispute_outcome(old(ledger).ledger_state(), tx),
{
    let disputed_amount = {
        let transaction = get_transaction_or_not_found(tx.tx_id(), ledger)?;
        if transaction.dispute_state != DisputeState::NotDisputed {
            return Err(TransactionError::DisputeError);
        }
        transaction.amount
    };

    // Compute both balances before touching the account: a refusal leaves
    // the ledger as it was.
    let client_id = tx.client_id();
    let (available, held, _locked) = current_account(client_id, ledger);
    let new_available = available.checked_sub(disputed_amount).ok_or(
        TransactionError::InvalidInput,
    )?;
    let new_held = held.checked_add(disputed_amount).ok_or(TransactionError::InvalidInput)?;

    // Move funds from available to held.
    let account = ledger.account_mut_or_create(client_id);
    account.available = new_available;
    account.held = new_held;

    // Mark transaction as disputed.
    let transaction = ledger.recorded_tx_mut(tx.tx_id()).ok_or(
        TransactionError::TransactionNotFound,
    )?;
    transaction.dispute_state = DisputeState::Disputed;

    Ok(())
}

/// Applies `tx` as a resolve of the disputed transaction it references, on
/// the account of the client it names: refused if the reference is unknown,
/// if the transaction is not disputed, or if a balance would overflow. A
/// refusal changes nothing.
pub fn handle_resolve(tx: Transaction, ledger: &mut InMemoryLedger) -> (result: Result<(), TransactionError>)
    ensures
        (final(ledger).ledger_state(), result) == resolve_outcome(old(ledger).ledger_state(), tx),
{
    let disputed_amount = {
        let transaction = get_transaction_or_not_found(tx.tx_id(), ledger)?;
        if transaction.dispute_state != DisputeState::Disputed {
            return Err(TransactionError::DisputeError);
        }
        transaction.amount
    };

    // Compute both balances before touching the account: a refusal leaves
    // the ledger as it was.
    let client_id = tx.client_id();
    let (available, held, _locked) = current_account(client_id, ledger);
    let new_available = available.checked_add(disputed_amount).ok_or(
        TransactionError::InvalidInput,
    )?;
    let new_held = held.checked_sub(disputed_amount).ok_or(TransactionError::InvalidInput)?;

    // Move funds from held back to available.
    let account = ledger.account_mut_or_create(client_id);
    account.available = new_available;
    account.held = new_held;

    // Mark transaction as not disputed
    let transaction = ledger.recorded_tx_mut(tx.tx_id()).ok_or(
        TransactionError::TransactionNotFound,
    )?;
    transaction.dispute_state = DisputeState::NotDisputed;

    Ok(())
}

/// Applies `tx` as a chargeback of the disputed transaction it references:
/// the held funds go and the account of the client it names is locked.
/// Refused if the reference is unknown, if the transaction is not disputed,
/// or if the held balance would overflow; a refusal changes nothing.
pub fn handle_chargeback(tx: Transaction, ledger: &mut InMemoryLedger) -> (result: Result<(), TransactionError>)
    ensures
        (final(ledger).ledger_state(), result) == chargeback_outcome(old(ledger).ledger_state(), tx),
{
    let disputed_amount = {
        let transaction = get_transaction_or_not_found(tx.tx_id(), ledger)?;
        if transaction.dispute_state != DisputeState::Disputed {
            return Err(TransactionError::DisputeError);
        }
        transaction.amount
    };

    // Compute the held balance before touching the account: a refusal
    // leaves the ledger as it was.
    let client_id = tx.client_id();
    let (_available, held, _locked) = current_account(client_id, ledger);
    let new_held = held.checked_sub(disputed_amount).ok_or(TransactionError::InvalidInput)?;

    // Remove funds from the held balance and lock the account
    let account = ledger.account_mut_or_create(client_id);
    account.held = new_held;
    account.locked = true;

    // Mark transaction as charged back
    let transaction = ledger.recorded_tx_mut(tx.tx_id()).ok_or(
        TransactionError::TransactionNotFound,
    )?;
    transaction.dispute_state = DisputeState::ChargedBack;

    Ok(())
}

} // verus!
