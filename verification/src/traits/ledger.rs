use vstd::prelude::*;

use crate::domain::account::{fresh_account, snapshot_of, total_fits, Account, AccountSnapshot};
use crate::domain::client::ClientId;
use crate::domain::recorded_transaction::RecordedTransaction;
use crate::domain::transaction_id::TxId;
use crate::error::ledger_error::LedgerError;

verus! {

/// The abstract content of a ledger: the accounts by client and the
/// recorded transactions by id.
pub ghost struct LedgerState {
    pub accounts: Map<ClientId, Account>,
    pub transactions: Map<TxId, RecordedTransaction>,
}

impl LedgerState {
    /// The account of `client_id`, or the fresh account it would get.
    pub open spec fn account_or_fresh(self, client_id: ClientId) -> Account {
        if self.accounts.contains_key(client_id) {
            self.accounts[client_id]
        } else {
            fresh_account(client_id)
        }
    }

    /// This state with the account of `client_id` set to `account`.
    pub open spec fn with_account(self, client_id: ClientId, account: Account) -> LedgerState {
        LedgerState { accounts: self.accounts.insert(client_id, account), ..self }
    }

    /// This state with the transaction `tx_id` set to `tx`.
    pub open spec fn with_transaction(self, tx_id: TxId, tx: RecordedTransaction) -> LedgerState {
        LedgerState { transactions: self.transactions.insert(tx_id, tx), ..self }
    }

    /// Every account's total can be represented as an `Amount`.
    pub open spec fn totals_fit(self) -> bool {
        forall|c: ClientId| #[trigger] self.accounts.contains_key(c) ==> total_fits(self.accounts[c])
    }

    /// `snapshots` lists the snapshot of every account exactly once, in
    /// increasing order of client id.
    pub open spec fn is_snapshot(self, snapshots: Seq<AccountSnapshot>) -> bool {
        exists|clients: Seq<ClientId>| #[trigger] self.lists_clients(clients, snapshots)
    }

    /// `clients` names every account exactly once, in increasing order, and
    /// `snapshots[i]` is the snapshot of the account of `clients[i]`.
    pub open spec fn lists_clients(self, clients: Seq<ClientId>, snapshots: Seq<AccountSnapshot>) -> bool {
        &&& clients.len() == snapshots.len()
        &&& forall|i: int, j: int| 0 <= i < j < clients.len() ==> clients[i] < clients[j]
        &&& clients.to_set() == self.accounts.dom()
        &&& forall|i: int| 0 <= i < clients.len() ==> #[trigger] snapshots[i] == snapshot_of(self.accounts[clients[i]])
    }
}

/// Storage of accounts and recorded transactions.
pub trait Ledger {
    /// What the ledger holds.
    spec fn ledger_state(&self) -> LedgerState;

    /// The account of `client_id`, if there is one.
    fn account(&self, client_id: ClientId) -> (account: Option<&Account>)
        ensures
            match account {
                Some(a) => self.ledger_state().accounts.contains_key(client_id)
                    && *a == self.ledger_state().accounts[client_id],
                None => !self.ledger_state().accounts.contains_key(client_id),
            },
    ;

    /// The account of `client_id`, created empty and unlocked if missing;
    /// what the caller writes through the reference is what the ledger keeps.
    fn account_mut_or_create(&mut self, client_id: ClientId) -> (account: &mut Account)
        ensures
            *account == old(self).ledger_state().account_or_fresh(client_id),
            final(self).ledger_state() == old(self).ledger_state().with_account(client_id, *final(account)),
    ;

    /// The transaction recorded under `tx_id`, if there is one.
    fn recorded_tx(&self, tx_id: TxId) -> (tx: Option<&RecordedTransaction>)
        ensures
            match tx {
                Some(t) => self.ledger_state().transactions.contains_key(tx_id)
                    && *t == self.ledger_state().transactions[tx_id],
                None => !self.ledger_state().transactions.contains_key(tx_id),
            },
    ;

    /// The transaction recorded under `tx_id`, for update, if there is one.
    fn recorded_tx_mut(&mut self, tx_id: TxId) -> (tx: Option<&mut RecordedTransaction>)
        ensures
            old(self).ledger_state().transactions.contains_key(tx_id) <==> tx is Some,
            tx is Some ==> *tx.unwrap() == old(self).ledger_state().transactions[tx_id]
                && final(self).ledger_state() == old(self).ledger_state().with_transaction(tx_id, *final(tx.unwrap())),
            tx is None ==> final(self).ledger_state() == old(self).ledger_state(),
    ;

    /// Records `tx` under its id; refuses an id that is already recorded.
    fn insert_recorded_tx(&mut self, tx: RecordedTransaction) -> (result: Result<(), LedgerError>)
        ensures
            old(self).ledger_state().transactions.contains_key(tx.tx_id) ==> {
                &&& result == Err::<(), LedgerError>(LedgerError::DuplicateTransaction)
                &&& final(self).ledger_state() == old(self).ledger_state()
            },
            !old(self).ledger_state().transactions.contains_key(tx.tx_id) ==> {
                &&& result is Ok
                &&& final(self).ledger_state() == old(self).ledger_state().with_transaction(tx.tx_id, tx)
            },
    ;

    /// A snapshot of every account, by increasing client id.
    fn snapshot_accounts(&self) -> (snapshots: Vec<AccountSnapshot>)
        requires
            self.ledger_state().totals_fit(),
        ensures
            self.ledger_state().is_snapshot(snapshots@),
    ;
}

} // verus!
