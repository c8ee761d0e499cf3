//! Properties of the engine's rules that span operations or hold of every
//! state.
use vstd::prelude::*;

use crate::domain::account::Account;
use crate::domain::client::ClientId;
use crate::domain::dispute::DisputeState;
use crate::domain::recorded_transaction::RecordedTransaction;
use crate::domain::transaction::Transaction;
use crate::domain::transaction_id::TxId;
use crate::engine::payment_engine::apply_outcome;
use crate::engine::transaction_handlers::{
    chargeback_outcome, deposit_outcome, dispute_outcome, resolve_outcome, withdraw_outcome,
};
use crate::error::transaction_error::TransactionError;
use crate::traits::ledger::LedgerState;

verus! {

/// The total funds of an account: available plus held.
pub open spec fn total(account: Account) -> int {
    account.available + account.held
}

/// A successful deposit adds its amount to the available funds and to the
/// total of the client's account, and records the deposit undisputed.
pub proof fn lemma_deposit_credits_account(s: LedgerState, tx: Transaction)
    requires
        tx is Deposit,
        deposit_outcome(s, tx).1 is Ok,
    ensures
        ({
            let after = deposit_outcome(s, tx).0;
            let before = s.account_or_fresh(tx.client_id());
            &&& after.accounts[tx.client_id()].available == before.available + tx.amount().unwrap()
            &&& total(after.accounts[tx.client_id()]) == total(before) + tx.amount().unwrap()
            &&& after.transactions[tx.tx_id()].dispute_state == DisputeState::NotDisputed
            &&& after.transactions[tx.tx_id()].amount == tx.amount().unwrap()
        }),
{
}

/// A successful withdrawal takes its amount from the available funds and
/// the total, and never leaves the available funds negative.
pub proof fn lemma_withdrawal_debits_account(s: LedgerState, tx: Transaction)
    requires
        tx is Withdrawal,
        withdraw_outcome(s, tx).1 is Ok,
    ensures
        ({
            let after = withdraw_outcome(s, tx).0;
            let before = s.account_or_fresh(tx.client_id());
            &&& after.accounts[tx.client_id()].available == before.available - tx.amount().unwrap()
            &&& total(after.accounts[tx.client_id()]) == total(before) - tx.amount().unwrap()
            &&& after.accounts[tx.client_id()].available >= 0
        }),
{
}

/// A successful dispute moves funds from available to held: the total of
/// the account it names does not change.
pub proof fn lemma_dispute_preserves_total(s: LedgerState, tx: Transaction)
    requires
        dispute_outcome(s, tx).1 is Ok,
    ensures
        total(dispute_outcome(s, tx).0.accounts[tx.client_id()]) == total(
            s.account_or_fresh(tx.client_id()),
        ),
        dispute_outcome(s, tx).0.transactions[tx.tx_id()].dispute_state == DisputeState::Disputed,
{
}

/// A successful resolve moves funds from held back to available: the total
/// of the account it names does not change.
pub proof fn lemma_resolve_preserves_total(s: LedgerState, tx: Transaction)
    requires
        resolve_outcome(s, tx).1 is Ok,
    ensures
        total(resolve_outcome(s, tx).0.accounts[tx.client_id()]) == total(
            s.account_or_fresh(tx.client_id()),
        ),
        resolve_outcome(s, tx).0.transactions[tx.tx_id()].dispute_state
            == DisputeState::NotDisputed,
{
}

/// A successful chargeback removes the disputed amount from the held funds
/// and from the total, leaves the available funds alone, and locks the
/// account.
pub proof fn lemma_chargeback_removes_held_and_locks(s: LedgerState, tx: Transaction)
    requires
        chargeback_outcome(s, tx).1 is Ok,
    ensures
        ({
            let after = chargeback_outcome(s, tx).0.accounts[tx.client_id()];
            let before = s.account_or_fresh(tx.client_id());
            let amount = s.transactions[tx.tx_id()].amount;
            &&& after.held == before.held - amount
            &&& after.available == before.available
            &&& total(after) == total(before) - amount
            &&& after.locked
        }),
        chargeback_outcome(s, tx).0.transactions[tx.tx_id()].dispute_state
            == DisputeState::ChargedBack,
{
}

/// A resolve that follows a successful dispute of the same transaction on
/// the same account undoes it: the recorded transactions are as before, and
/// so is the account (which the dispute created empty if it was missing).
pub proof fn lemma_resolve_undoes_dispute(s: LedgerState, client_id: ClientId, tx_id: TxId)
    requires
        dispute_outcome(s, Transaction::Dispute { client_id, tx_id }).1 is Ok,
        resolve_outcome(
            dispute_outcome(s, Transaction::Dispute { client_id, tx_id }).0,
            Transaction::Resolve { client_id, tx_id },
        ).1 is Ok,
    ensures
        ({
            let disputed = dispute_outcome(s, Transaction::Dispute { client_id, tx_id }).0;
            let resolved = resolve_outcome(disputed, Transaction::Resolve { client_id, tx_id }).0;
            &&& resolved == s.with_account(client_id, s.account_or_fresh(client_id))
            &&& s.accounts.contains_key(client_id) ==> resolved == s
        }),
{
    let disputed = dispute_outcome(s, Transaction::Dispute { client_id, tx_id }).0;
    let resolved = resolve_outcome(disputed, Transaction::Resolve { client_id, tx_id }).0;
    assert(resolved.transactions =~= s.transactions);
    assert(resolved.accounts =~= s.with_account(client_id, s.account_or_fresh(client_id)).accounts);
    if s.accounts.contains_key(client_id) {
        assert(resolved.accounts =~= s.accounts);
    }
}

/// A dispute, resolve or chargeback that references no recorded
/// transaction is refused with `TransactionNotFound` and changes nothing;
/// in particular it creates no account.
pub proof fn lemma_unknown_reference_changes_nothing(s: LedgerState, tx: Transaction)
    requires
        tx is Dispute || tx is Resolve || tx is Chargeback,
        !s.transactions.contains_key(tx.tx_id()),
    ensures
        apply_outcome(s, tx) == (s, Err::<(), TransactionError>(TransactionError::TransactionNotFound)),
{
}

/// A refused dispute, resolve or chargeback changes nothing, whatever the
/// reason: an unknown reference, a wrong dispute state, or a balance that
/// would overflow.
pub proof fn lemma_refused_dispute_step_changes_nothing(s: LedgerState, tx: Transaction)
    requires
        tx is Dispute || tx is Resolve || tx is Chargeback,
        apply_outcome(s, tx).1 is Err,
    ensures
        apply_outcome(s, tx).0 == s,
{
}

/// A refused deposit changes nothing.
pub proof fn lemma_refused_deposit_changes_nothing(s: LedgerState, tx: Transaction)
    requires
        deposit_outcome(s, tx).1 is Err,
    ensures
        deposit_outcome(s, tx).0 == s,
{
}

/// A refused withdrawal changes nothing; in particular it creates no
/// account.
pub proof fn lemma_refused_withdrawal_changes_nothing(s: LedgerState, tx: Transaction)
    requires
        withdraw_outcome(s, tx).1 is Err,
    ensures
        withdraw_outcome(s, tx).0 == s,
{
}

/// Once an account is locked, deposits and withdrawals to it are refused
/// (unless refused earlier for a duplicate id or a bad amount) and change
/// nothing.
pub proof fn lemma_locked_account_refuses_funds(s: LedgerState, tx: Transaction)
    requires
        tx is Deposit || tx is Withdrawal,
        s.accounts.contains_key(tx.client_id()),
        s.accounts[tx.client_id()].locked,
        !s.transactions.contains_key(tx.tx_id()),
        tx.amount().unwrap() >= 0,
    ensures
        apply_outcome(s, tx) == (s, Err::<(), TransactionError>(TransactionError::AccountLocked)),
{
}

/// Every transaction leaves every locked account locked.
pub proof fn lemma_locked_accounts_stay_locked(s: LedgerState, tx: Transaction, client_id: ClientId)
    requires
        s.accounts.contains_key(client_id),
        s.accounts[client_id].locked,
    ensures
        apply_outcome(s, tx).0.accounts.contains_key(client_id),
        apply_outcome(s, tx).0.accounts[client_id].locked,
{
}

/// A transaction touches only the account of the client it names: every
/// other account, present or absent, stays as it was.
pub proof fn lemma_other_accounts_untouched(s: LedgerState, tx: Transaction, other: ClientId)
    requires
        other != tx.client_id(),
    ensures
        apply_outcome(s, tx).0.accounts.contains_key(other) == s.accounts.contains_key(other),
        s.accounts.contains_key(other) ==> apply_outcome(s, tx).0.accounts[other] == s.accounts[other],
{
}

/// The fields of a transaction other than its dispute state never change
/// once recorded, and a recorded id stays recorded: a later transaction
/// with the same id cannot replace it.
pub proof fn lemma_recorded_transactions_persist(s: LedgerState, tx: Transaction, tx_id: TxId)
    requires
        s.transactions.contains_key(tx_id),
    ensures
        ({
            let before = s.transactions[tx_id];
            let after = apply_outcome(s, tx).0.transactions[tx_id];
            &&& apply_outcome(s, tx).0.transactions.contains_key(tx_id)
            &&& after.tx_id == before.tx_id
            &&& after.client_id == before.client_id
            &&& after.amount == before.amount
            &&& after.kind == before.kind
        }),
{
}

/// Dispute states move only along the lifecycle: undisputed to disputed, and
/// disputed to undisputed (resolve) or to charged back; a charged-back
/// transaction stays charged back.
pub proof fn lemma_dispute_lifecycle(s: LedgerState, tx: Transaction, tx_id: TxId)
    requires
        s.transactions.contains_key(tx_id),
    ensures
        ({
            let before = s.transactions[tx_id].dispute_state;
            let after = apply_outcome(s, tx).0.transactions[tx_id].dispute_state;
            ||| after == before
            ||| before == DisputeState::NotDisputed && after == DisputeState::Disputed
            ||| before == DisputeState::Disputed && after == DisputeState::NotDisputed
            ||| before == DisputeState::Disputed && after == DisputeState::ChargedBack
        }),
        s.transactions[tx_id].dispute_state == DisputeState::ChargedBack ==> apply_outcome(
            s,
            tx,
        ).0.transactions[tx_id].dispute_state == DisputeState::ChargedBack,
{
}

/// What the ledger is given is what it gives back: an account or a recorded
/// transaction written under a key is read back under that key, and the
/// other keys keep their values.
pub proof fn lemma_ledger_reads_back_writes(
    s: LedgerState,
    client_id: ClientId,
    account: Account,
    tx_id: TxId,
    tx: RecordedTransaction,
    other_client: ClientId,
    other_tx: TxId,
)
    requires
        other_client != client_id,
        other_tx != tx_id,
    ensures
        s.with_account(client_id, account).account_or_fresh(client_id) == account,
        s.with_account(client_id, account).account_or_fresh(other_client) == s.account_or_fresh(
            other_client,
        ),
        s.with_transaction(tx_id, tx).transactions[tx_id] == tx,
        s.with_transaction(tx_id, tx).transactions.contains_key(other_tx)
            == s.transactions.contains_key(other_tx),
        s.transactions.contains_key(other_tx) ==> s.with_transaction(tx_id, tx).transactions[other_tx]
            == s.transactions[other_tx],
{
}

/// The funds of the account of `client_id` in `accounts`; 0 when it has none.
pub open spec fn account_funds(accounts: Map<ClientId, Account>, client_id: ClientId) -> int {
    if accounts.contains_key(client_id) {
        total(accounts[client_id])
    } else {
        0
    }
}

/// The funds of the accounts of the clients below `n`.
pub open spec fn funds_below(accounts: Map<ClientId, Account>, n: int) -> int
    decreases n,
{
    if n <= 0 {
        0
    } else {
        funds_below(accounts, n - 1) + account_funds(accounts, (n - 1) as u16)
    }
}

/// The funds held in all accounts together.
pub open spec fn total_funds(accounts: Map<ClientId, Account>) -> int {
    funds_below(accounts, 0x1_0000)
}

/// What a recorded transaction has brought in: its amount for a deposit,
/// minus it for a withdrawal, and minus it once more when it was charged
/// back.
pub open spec fn net_amount(tx: RecordedTransaction) -> int {
    let moved = match tx.kind {
        Transaction::Deposit { .. } => tx.amount as int,
        Transaction::Withdrawal { .. } => -tx.amount,
        _ => 0,
    };
    if tx.dispute_state == DisputeState::ChargedBack {
        moved - tx.amount
    } else {
        moved
    }
}

/// What the transaction recorded under `tx_id` has brought in; 0 when none is.
pub open spec fn recorded_net(transactions: Map<TxId, RecordedTransaction>, tx_id: TxId) -> int {
    if transactions.contains_key(tx_id) {
        net_amount(transactions[tx_id])
    } else {
        0
    }
}

/// What the transactions recorded under the ids below `n` have brought in.
pub open spec fn net_below(transactions: Map<TxId, RecordedTransaction>, n: int) -> int
    decreases n,
{
    if n <= 0 {
        0
    } else {
        net_below(transactions, n - 1) + recorded_net(transactions, (n - 1) as u32)
    }
}

/// What all recorded transactions together have brought in.
pub open spec fn net_recorded(transactions: Map<TxId, RecordedTransaction>) -> int {
    net_below(transactions, 0x1_0000_0000)
}

/// The funds in the accounts are exactly what the recorded transactions
/// brought in: deposits, less withdrawals, less charged-back amounts.
pub open spec fn funds_balanced(s: LedgerState) -> bool {
    total_funds(s.accounts) == net_recorded(s.transactions)
}

/// Setting one account changes the sum of funds by the change of that
/// account's funds.
pub proof fn lemma_funds_below_insert(
    accounts: Map<ClientId, Account>,
    client_id: ClientId,
    account: Account,
    n: int,
)
    requires
        0 <= n <= 0x1_0000,
    ensures
        funds_below(accounts.insert(client_id, account), n) == funds_below(accounts, n) + (if client_id
            < n {
            total(account) - account_funds(accounts, client_id)
        } else {
            0
        }),
    decreases n,
{
    if n > 0 {
        lemma_funds_below_insert(accounts, client_id, account, n - 1);
        let k = (n - 1) as u16;
        assert(k as int == n - 1);
    }
}

/// Setting one recorded transaction changes the net sum by the change of
/// that transaction's net amount.
pub proof fn lemma_net_below_insert(
    transactions: Map<TxId, RecordedTransaction>,
    tx_id: TxId,
    tx: RecordedTransaction,
    n: int,
)
    requires
        0 <= n <= 0x1_0000_0000,
    ensures
        net_below(transactions.insert(tx_id, tx), n) == net_below(transactions, n) + (if tx_id < n {
            net_amount(tx) - recorded_net(transactions, tx_id)
        } else {
            0
        }),
    decreases n,
{
    if n > 0 {
        lemma_net_below_insert(transactions, tx_id, tx, n - 1);
        let k = (n - 1) as u32;
        assert(k as int == n - 1);
    }
}

/// Nothing is held in no accounts.
proof fn lemma_funds_below_empty(n: int)
    ensures
        funds_below(Map::<ClientId, Account>::empty(), n) == 0,
    decreases n,
{
    if n > 0 {
        lemma_funds_below_empty(n - 1);
    }
}

/// No recorded transactions bring nothing in.
proof fn lemma_net_below_empty(n: int)
    ensures
        net_below(Map::<TxId, RecordedTransaction>::empty(), n) == 0,
    decreases n,
{
    if n > 0 {
        lemma_net_below_empty(n - 1);
    }
}

/// An empty ledger is balanced.
pub proof fn lemma_empty_ledger_balanced(s: LedgerState)
    requires
        s.accounts == Map::<ClientId, Account>::empty(),
        s.transactions == Map::<TxId, RecordedTransaction>::empty(),
    ensures
        funds_balanced(s),
{
    lemma_funds_below_empty(0x1_0000);
    lemma_net_below_empty(0x1_0000_0000);
}

/// Conservation of funds: every transaction, applied or refused, keeps the
/// funds in the accounts equal to deposits, less withdrawals, less
/// charged-back amounts. With `lemma_empty_ledger_balanced`, this holds of
/// every ledger that the engine builds from an empty one.
pub proof fn lemma_apply_keeps_funds_balanced(s: LedgerState, tx: Transaction)
    requires
        funds_balanced(s),
    ensures
        funds_balanced(apply_outcome(s, tx).0),
{
    let after = apply_outcome(s, tx).0;
    if apply_outcome(s, tx).1 is Err {
        assert(after == s);
    } else {
        let client = tx.client_id();
        let id = tx.tx_id();
        let before = s.account_or_fresh(client);
        assert(account_funds(s.accounts, client) == total(before));
        let account = after.accounts[client];
        let rec = after.transactions[id];
        assert(after.accounts == s.accounts.insert(client, account));
        assert(after.transactions == s.transactions.insert(id, rec));
        lemma_funds_below_insert(s.accounts, client, account, 0x1_0000);
        lemma_net_below_insert(s.transactions, id, rec, 0x1_0000_0000);
        match tx {
            Transaction::Deposit { .. } => {
                assert(recorded_net(s.transactions, id) == 0);
            },
            Transaction::Withdrawal { .. } => {
                assert(recorded_net(s.transactions, id) == 0);
            },
            _ => {
                assert(recorded_net(s.transactions, id) == net_amount(s.transactions[id]));
            },
        }
    }
}


/// A deposit succeeds exactly when its id is new, its amount is not
/// negative, the account is unlocked and the new available balance fits in
/// an `Amount`, whatever funds are held. On success the amount is added to
/// the available funds; held funds and the lock flag stay as they were.
pub proof fn lemma_deposit_succeeds_exactly_when_allowed(s: LedgerState, tx: Transaction)
    requires
        tx is Deposit,
    ensures
        ({
            let before = s.account_or_fresh(tx.client_id());
            let amount = tx.amount().unwrap();
            let (after, result) = deposit_outcome(s, tx);
            &&& result is Ok <==> (!s.transactions.contains_key(tx.tx_id()) && amount >= 0
                && !before.locked && i32::MIN <= before.available + amount <= i32::MAX)
            &&& result is Ok ==> {
                &&& after.accounts[tx.client_id()].available == before.available + amount
                &&& after.accounts[tx.client_id()].held == before.held
                &&& after.accounts[tx.client_id()].locked == before.locked
            }
        }),
{
}

/// A withdrawal succeeds exactly when its id is new, its amount is not
/// negative, the account is unlocked and its available funds are at least
/// the amount (taking the whole balance included). On success the amount
/// leaves the available funds; held funds and the lock flag stay.
pub proof fn lemma_withdrawal_succeeds_exactly_when_funded(s: LedgerState, tx: Transaction)
    requires
        tx is Withdrawal,
    ensures
        ({
            let before = s.account_or_fresh(tx.client_id());
            let amount = tx.amount().unwrap();
            let (after, result) = withdraw_outcome(s, tx);
            &&& result is Ok <==> (!s.transactions.contains_key(tx.tx_id()) && amount >= 0
                && !before.locked && before.available >= amount)
            &&& result is Ok ==> {
                &&& after.accounts[tx.client_id()].available == before.available - amount
                &&& after.accounts[tx.client_id()].held == before.held
                &&& after.accounts[tx.client_id()].locked == before.locked
            }
        }),
{
}

/// A dispute succeeds exactly when the referenced transaction is recorded
/// and not disputed, and the new available and held balances fit in an
/// `Amount`, whatever is already held. On success the recorded amount moves
/// from available to held and the lock flag stays.
pub proof fn lemma_dispute_succeeds_exactly_when_allowed(s: LedgerState, tx: Transaction)
    requires
        tx is Dispute,
    ensures
        ({
            let before = s.account_or_fresh(tx.client_id());
            let rec = s.transactions[tx.tx_id()];
            let (after, result) = dispute_outcome(s, tx);
            &&& result is Ok <==> (s.transactions.contains_key(tx.tx_id())
                && rec.dispute_state == DisputeState::NotDisputed
                && i32::MIN <= before.available - rec.amount <= i32::MAX
                && i32::MIN <= before.held + rec.amount <= i32::MAX)
            &&& result is Ok ==> {
                &&& after.accounts[tx.client_id()].available == before.available - rec.amount
                &&& after.accounts[tx.client_id()].held == before.held + rec.amount
                &&& after.accounts[tx.client_id()].locked == before.locked
            }
        }),
{
}

/// A resolve succeeds exactly when the referenced transaction is recorded
/// and disputed, and the new balances fit in an `Amount`, whatever the lock
/// flag. On success the recorded amount moves from held back to available.
pub proof fn lemma_resolve_succeeds_exactly_when_allowed(s: LedgerState, tx: Transaction)
    requires
        tx is Resolve,
    ensures
        ({
            let before = s.account_or_fresh(tx.client_id());
            let rec = s.transactions[tx.tx_id()];
            let (after, result) = resolve_outcome(s, tx);
            &&& result is Ok <==> (s.transactions.contains_key(tx.tx_id())
                && rec.dispute_state == DisputeState::Disputed
                && i32::MIN <= before.available + rec.amount <= i32::MAX
                && i32::MIN <= before.held - rec.amount <= i32::MAX)
            &&& result is Ok ==> {
                &&& after.accounts[tx.client_id()].available == before.available + rec.amount
                &&& after.accounts[tx.client_id()].held == before.held - rec.amount
                &&& after.accounts[tx.client_id()].locked == before.locked
            }
        }),
{
}

/// A chargeback succeeds exactly when the referenced transaction is
/// recorded and disputed and the new held balance fits in an `Amount`,
/// whether or not the account is already locked. On success the recorded
/// amount leaves the held funds, available funds stay, and the account is
/// locked.
pub proof fn lemma_chargeback_succeeds_exactly_when_allowed(s: LedgerState, tx: Transaction)
    requires
        tx is Chargeback,
    ensures
        ({
            let before = s.account_or_fresh(tx.client_id());
            let rec = s.transactions[tx.tx_id()];
            let (after, result) = chargeback_outcome(s, tx);
            &&& result is Ok <==> (s.transactions.contains_key(tx.tx_id())
                && rec.dispute_state == DisputeState::Disputed
                && i32::MIN <= before.held - rec.amount <= i32::MAX)
            &&& result is Ok ==> {
                &&& after.accounts[tx.client_id()].available == before.available
                &&& after.accounts[tx.client_id()].held == before.held - rec.amount
                &&& after.accounts[tx.client_id()].locked
            }
        }),
{
}

} // verus!
