use vstd::prelude::*;

use crate::domain::amount::Amount;
use crate::domain::client::ClientId;

verus! {

/// The balances of one client.
pub struct Account {
    pub client_id: ClientId,
    pub available: Amount,
    pub held: Amount,
    pub locked: bool,
}

/// A read-only view of an account with its total, as reported.
pub struct AccountSnapshot {
    pub client_id: ClientId,
    pub available: Amount,
    pub held: Amount,
    pub total: Amount,
    pub locked: bool,
}

/// The account a client gets on first use: empty and unlocked.
pub open spec fn fresh_account(client_id: ClientId) -> Account {
    Account { client_id, available: 0, held: 0, locked: false }
}

/// The total of an account can be represented as an `Amount`.
pub open spec fn total_fits(account: Account) -> bool {
    i32::MIN <= account.available + account.held <= i32::MAX
}

/// The snapshot of an account: its fields, and as total the sum of the
/// available and held funds.
pub open spec fn snapshot_of(account: Account) -> AccountSnapshot {
    AccountSnapshot {
        client_id: account.client_id,
        available: account.available,
        held: account.held,
        total: (account.available + account.held) as i32,
        locked: account.locked,
    }
}

/// A snapshot reports the account as it is: the same client, the same
/// available and held funds (negative ones included), their sum as total,
/// and the same lock flag.
pub proof fn lemma_snapshot_reports_balances(account: Account)
    requires
        total_fits(account),
    ensures
        snapshot_of(account).client_id == account.client_id,
        snapshot_of(account).available == account.available,
        snapshot_of(account).held == account.held,
        snapshot_of(account).total == account.available + account.held,
        snapshot_of(account).total == snapshot_of(account).available + snapshot_of(account).held,
        snapshot_of(account).locked == account.locked,
{
}

impl AccountSnapshot {
    /// Takes a snapshot of `account`; the total is `available + held`.
    pub fn from(account: &Account) -> (snapshot: Self)
        requires
            total_fits(*account),
        ensures
            snapshot == snapshot_of(*account),
            snapshot.client_id == account.client_id,
            snapshot.available == account.available,
            snapshot.held == account.held,
            snapshot.total == account.available + account.held,
            snapshot.locked == account.locked,
    {
        AccountSnapshot {
            client_id: account.client_id,
            available: account.available,
            held: account.held,
            total: account.available + account.held,
            locked: account.locked,
        }
    }
}

} // verus!
