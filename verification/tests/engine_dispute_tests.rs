#![allow(dead_code)]

use payment_engine::domain::amount::Amount;
use payment_engine::domain::client::ClientId;
use payment_engine::domain::dispute::DisputeState;
use payment_engine::domain::transaction::Transaction;
use payment_engine::domain::transaction_id::TxId;
use payment_engine::engine::payment_engine::PaymentEngine;
use payment_engine::error::transaction_error::TransactionError;
use payment_engine::ledger::in_memory::InMemoryLedger;
use payment_engine::traits::ledger::Ledger;

fn deposit(client_id: ClientId, tx_id: TxId, amount: Amount) -> Transaction {
    Transaction::Deposit { client_id, tx_id, amount }
}

fn withdrawal(client_id: ClientId, tx_id: TxId, amount: Amount) -> Transaction {
    Transaction::Withdrawal { client_id, tx_id, amount }
}

fn dispute(client_id: ClientId, tx_id: TxId) -> Transaction {
    Transaction::Dispute { client_id, tx_id }
}

fn resolve(client_id: ClientId, tx_id: TxId) -> Transaction {
    Transaction::Resolve { client_id, tx_id }
}

fn chargeback(client_id: ClientId, tx_id: TxId) -> Transaction {
    Transaction::Chargeback { client_id, tx_id }
}

fn assert_account(ledger: &InMemoryLedger, client_id: ClientId, available: Amount, held: Amount, locked: bool) {
    let account = ledger
        .account(client_id)
        .unwrap_or_else(|| panic!("expected account for client {}", client_id));

    assert_eq!(account.client_id, client_id);
    assert_eq!(account.available, available);
    assert_eq!(account.held, held);
    assert_eq!(account.locked, locked);
}

fn assert_account_absent(ledger: &InMemoryLedger, client_id: ClientId) {
    assert!(
        ledger.account(client_id).is_none(),
        "expected no account for client {}",
        client_id
    );
}

fn assert_tx_dispute_state(ledger: &InMemoryLedger, tx_id: TxId, state: DisputeState) {
    let tx = ledger
        .recorded_tx(tx_id)
        .unwrap_or_else(|| panic!("expected recorded transaction {}", tx_id));

    assert_eq!(tx.dispute_state, state);
}
fn total_for(ledger: &InMemoryLedger, client_id: u16) -> Amount {
    let account = ledger.account(client_id).unwrap();
    account.available + account.held
}

#[test]
fn dispute_existing_deposit_moves_available_to_held() {
    let mut engine = PaymentEngine::new();
    let mut ledger = InMemoryLedger::new();
    engine.apply(deposit(1, 1, 10_000), &mut ledger).unwrap();

    engine.apply(dispute(1, 1), &mut ledger).unwrap();

    assert_account(&ledger, 1, 0, 10_000, false);
}

#[test]
fn dispute_preserves_total() {
    let mut engine = PaymentEngine::new();
    let mut ledger = InMemoryLedger::new();
    engine.apply(deposit(1, 1, 12_000), &mut ledger).unwrap();
    let before = total_for(&ledger, 1);

    engine.apply(dispute(1, 1), &mut ledger).unwrap();
    let after = total_for(&ledger, 1);

    assert_eq!(before, after);
}

#[test]
fn dispute_marks_transaction_disputed() {
    let mut engine = PaymentEngine::new();
    let mut ledger = InMemoryLedger::new();
    engine.apply(deposit(1, 1, 10_000), &mut ledger).unwrap();

    engine.apply(dispute(1, 1), &mut ledger).unwrap();

    assert_tx_dispute_state(&ledger, 1, DisputeState::Disputed);
}

#[test]
fn dispute_unknown_tx_returns_not_found_and_does_not_create_account() {
    let mut engine = PaymentEngine::new();
    let mut ledger = InMemoryLedger::new();

    let result = engine.apply(dispute(1, 999), &mut ledger);

    assert!(matches!(result, Err(TransactionError::TransactionNotFound)));
    assert_account_absent(&ledger, 1);
}

#[test]
fn dispute_wrong_client_can_succeed_in_current_implementation() {
    let mut engine = PaymentEngine::new();
    let mut ledger = InMemoryLedger::new();
    engine.apply(deposit(1, 1, 10_000), &mut ledger).unwrap();

    let result = engine.apply(dispute(2, 1), &mut ledger);

    assert!(result.is_ok());
    assert_account(&ledger, 2, -10_000, 10_000, false);
    assert_tx_dispute_state(&ledger, 1, DisputeState::Disputed);
}

#[test]
fn engine_dispute_tests_duplicate_dispute_returns_error() {
    let mut engine = PaymentEngine::new();
    let mut ledger = InMemoryLedger::new();
    engine.apply(deposit(1, 1, 10_000), &mut ledger).unwrap();
    engine.apply(dispute(1, 1), &mut ledger).unwrap();

    let result = engine.apply(dispute(1, 1), &mut ledger);

    assert!(matches!(result, Err(TransactionError::DisputeError)));
    assert_tx_dispute_state(&ledger, 1, DisputeState::Disputed);
}

#[test]
fn dispute_withdrawal_is_allowed_in_current_implementation() {
    let mut engine = PaymentEngine::new();
    let mut ledger = InMemoryLedger::new();
    engine.apply(deposit(1, 1, 20_000), &mut ledger).unwrap();
    engine.apply(withdrawal(1, 2, 5_000), &mut ledger).unwrap();

    let result = engine.apply(dispute(1, 2), &mut ledger);

    assert!(result.is_ok());
    assert_account(&ledger, 1, 10_000, 5_000, false);
    assert_tx_dispute_state(&ledger, 2, DisputeState::Disputed);
}

#[test]
fn resolve_disputed_tx_moves_held_to_available() {
    let mut engine = PaymentEngine::new();
    let mut ledger = InMemoryLedger::new();
    engine.apply(deposit(1, 1, 10_000), &mut ledger).unwrap();
    engine.apply(dispute(1, 1), &mut ledger).unwrap();

    engine.apply(resolve(1, 1), &mut ledger).unwrap();

    assert_account(&ledger, 1, 10_000, 0, false);
}

#[test]
fn resolve_preserves_total() {
    let mut engine = PaymentEngine::new();
    let mut ledger = InMemoryLedger::new();
    engine.apply(deposit(1, 1, 10_000), &mut ledger).unwrap();
    engine.apply(dispute(1, 1), &mut ledger).unwrap();
    let before = total_for(&ledger, 1);

    engine.apply(resolve(1, 1), &mut ledger).unwrap();
    let after = total_for(&ledger, 1);

    assert_eq!(before, after);
}

#[test]
fn resolve_unknown_tx_returns_not_found() {
    let mut engine = PaymentEngine::new();
    let mut ledger = InMemoryLedger::new();

    let result = engine.apply(resolve(1, 999), &mut ledger);

    assert!(matches!(result, Err(TransactionError::TransactionNotFound)));
}

#[test]
fn resolve_wrong_client_can_succeed_on_wrong_account_in_current_implementation() {
    let mut engine = PaymentEngine::new();
    let mut ledger = InMemoryLedger::new();
    engine.apply(deposit(1, 1, 10_000), &mut ledger).unwrap();
    engine.apply(dispute(1, 1), &mut ledger).unwrap();

    let result = engine.apply(resolve(2, 1), &mut ledger);

    assert!(result.is_ok());
    assert_account(&ledger, 2, 10_000, -10_000, false);
    assert_tx_dispute_state(&ledger, 1, DisputeState::NotDisputed);
}

#[test]
fn engine_dispute_tests_resolve_without_dispute_returns_error() {
    let mut engine = PaymentEngine::new();
    let mut ledger = InMemoryLedger::new();
    engine.apply(deposit(1, 1, 10_000), &mut ledger).unwrap();

    let result = engine.apply(resolve(1, 1), &mut ledger);

    assert!(matches!(result, Err(TransactionError::DisputeError)));
}

#[test]
fn resolve_after_chargeback_returns_error() {
    let mut engine = PaymentEngine::new();
    let mut ledger = InMemoryLedger::new();
    engine.apply(deposit(1, 1, 10_000), &mut ledger).unwrap();
    engine.apply(dispute(1, 1), &mut ledger).unwrap();
    engine.apply(chargeback(1, 1), &mut ledger).unwrap();

    let result = engine.apply(resolve(1, 1), &mut ledger);

    assert!(matches!(result, Err(TransactionError::DisputeError)));
}
