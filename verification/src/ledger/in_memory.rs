use vstd::prelude::*;

use std::collections::hash_map::Entry;
use std::collections::HashMap;

use vstd::std_specs::hash::{axiom_spec_hash_map_iter, spec_hash_map_iter};
use vstd::std_specs::iter::IteratorSpec;

use crate::domain::account::{snapshot_of, total_fits, Account, AccountSnapshot};
use crate::domain::client::ClientId;
use crate::domain::recorded_transaction::RecordedTransaction;
use crate::domain::transaction_id::TxId;
use crate::error::ledger_error::LedgerError;
use crate::traits::ledger::{Ledger, LedgerState};

verus! {

broadcast use vstd::std_specs::hash::group_hash_axioms;

/// A ledger kept in two hash maps.
pub struct InMemoryLedger {
    accounts: HashMap<ClientId, Account>,
    transactions: HashMap<TxId, RecordedTransaction>,
}

impl InMemoryLedger {
    /// An empty ledger.
    pub fn new() -> (ledger: Self)
        ensures
            ledger.ledger_state().accounts == Map::<ClientId, Account>::empty(),
            ledger.ledger_state().transactions == Map::<TxId, RecordedTransaction>::empty(),
    {
        Self { accounts: HashMap::new(), transactions: HashMap::new() }
    }

    /// Whether every account's total (available plus held) can be
    /// represented as an `Amount`, which `snapshot_accounts` needs.
    pub fn totals_fit(&self) -> (fit: bool)
        ensures
            fit == self.ledger_state().totals_fit(),
    {
        let ghost accounts = self.accounts@;
        let ghost v = spec_hash_map_iter(&self.accounts).remaining();
        proof {
            axiom_spec_hash_map_iter(&self.accounts);
        }
        let pairs = self.accounts.iter();
        for (client_id, account) in it: pairs
            invariant
                accounts == self.accounts@,
                it.seq() == v,
                forall|i: int|
                    #![trigger v[i]]
                    0 <= i < v.len() ==> accounts.contains_key(*v[i].0) && accounts[*v[i].0]
                        == *v[i].1,
                forall|c: ClientId|
                    #[trigger] accounts.contains_key(c) ==> v.contains((&c, &accounts[c])),
                forall|i: int| 0 <= i < it.index() ==> #[trigger] total_fits(*v[i].1),
        {
            let total = account.available as i64 + account.held as i64;
            if total < i32::MIN as i64 || total > i32::MAX as i64 {
                proof {
                    let k = it.index();
                    assert(v[k] == (client_id, account));
                    assert(accounts.contains_key(*client_id));
                    assert(!total_fits(accounts[*client_id]));
                    assert(self.ledger_state().accounts.contains_key(*client_id));
                }
                return false;
            }
        }
        proof {
            assert forall|c: ClientId| #[trigger] accounts.contains_key(c) implies total_fits(accounts[c]) by {
                assert(v.contains((&c, &accounts[c])));
                let i = choose|i: int| 0 <= i < v.len() && v[i] == (&c, &accounts[c]);
                assert(total_fits(*v[i].1));
            }
        }
        true
    }
}

impl Ledger for InMemoryLedger {
    closed spec fn ledger_state(&self) -> LedgerState {
        LedgerState { accounts: self.accounts@, transactions: self.transactions@ }
    }

    fn account(&self, client_id: ClientId) -> (account: Option<&Account>) {
        self.accounts.get(&client_id)
    }

    fn account_mut_or_create(&mut self, client_id: ClientId) -> (account: &mut Account) {
        self.accounts.entry(client_id).or_insert(
            Account { client_id, available: 0, held: 0, locked: false },
        )
    }

    fn recorded_tx(&self, tx_id: TxId) -> (tx: Option<&RecordedTransaction>) {
        self.transactions.get(&tx_id)
    }

    fn recorded_tx_mut(&mut self, tx_id: TxId) -> (tx: Option<&mut RecordedTransaction>) {
        match self.transactions.entry(tx_id) {
            Entry::Occupied(entry) => Some(entry.into_mut()),
            Entry::Vacant(_) => {
                proof {
                    assert(old(self).transactions@.remove(tx_id) =~= old(self).transactions@);
                }
                None
            },
        }
    }

    fn insert_recorded_tx(&mut self, tx: RecordedTransaction) -> (result: Result<(), LedgerError>) {
        if self.transactions.get(&tx.tx_id()).is_some() {
            return Err(LedgerError::DuplicateTransaction);
        }
        self.transactions.insert(tx.tx_id(), tx);
        Ok(())
    }

    fn snapshot_accounts(&self) -> (snapshots: Vec<AccountSnapshot>) {
        let mut snapshots: Vec<AccountSnapshot> = Vec::new();
        let ghost mut clients: Seq<ClientId> = Seq::empty();
        let ghost accounts = self.accounts@;
        // Visit every possible client id in increasing order, so that the
        // report does not depend on the hash map's order.
        let mut next: u32 = 0;
        while next < 0x1_0000
            invariant
                next <= 0x1_0000,
                accounts == self.accounts@,
                self.ledger_state().totals_fit(),
                clients.len() == snapshots@.len(),
                forall|i: int, j: int| 0 <= i < j < clients.len() ==> clients[i] < clients[j],
                forall|i: int| 0 <= i < clients.len() ==> #[trigger] clients[i] < next,
                forall|k: ClientId|
                    (k < next && #[trigger] accounts.contains_key(k)) <==> clients.contains(k),
                forall|i: int|
                    0 <= i < clients.len() ==> #[trigger] snapshots@[i] == snapshot_of(
                        accounts[clients[i]],
                    ),
            decreases 0x1_0000 - next,
        {
            let client_id = next as u16;
            match self.accounts.get(&client_id) {
                Some(account) => {
                    proof {
                        assert(self.ledger_state().accounts.contains_key(client_id));
                    }
                    snapshots.push(AccountSnapshot::from(account));
                    proof {
                        let old_clients = clients;
                        clients = clients.push(client_id);
                        assert forall|k: ClientId|
                            (k < next + 1 && #[trigger] accounts.contains_key(k)) <==> clients.contains(k) by {
                            if k == client_id {
                                assert(clients[clients.len() - 1] == k);
                            } else if clients.contains(k) {
                                let i = choose|i: int| 0 <= i < clients.len() && clients[i] == k;
                                assert(old_clients[i] == k);
                            } else if k < next && accounts.contains_key(k) {
                                assert(old_clients.contains(k));
                                let i = choose|i: int| 0 <= i < old_clients.len() && old_clients[i] == k;
                                assert(clients[i] == k);
                            }
                        }
                    }
                },
                None => {
                    proof {
                        assert forall|k: ClientId|
                            (k < next + 1 && #[trigger] accounts.contains_key(k)) <==> clients.contains(k) by {
                            if k == client_id {
                                if clients.contains(k) {
                                    let i = choose|i: int| 0 <= i < clients.len() && clients[i] == k;
                                    assert(clients[i] < next);
                                }
                            }
                        }
                    }
                },
            }
            next = next + 1;
        }
        proof {
            assert(clients.to_set() =~= accounts.dom());
            assert(self.ledger_state().lists_clients(clients, snapshots@));
        }
        snapshots
    }
}

} // verus!
