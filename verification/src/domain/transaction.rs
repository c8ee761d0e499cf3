use vstd::prelude::*;

use crate::domain::amount::Amount;
use crate::domain::client::ClientId;
use crate::domain::transaction_id::TxId;

verus! {

/// One input event for the engine.
pub enum Transaction {
    Deposit { client_id: ClientId, tx_id: TxId, amount: Amount },
    Withdrawal { client_id: ClientId, tx_id: TxId, amount: Amount },
    Dispute { client_id: ClientId, tx_id: TxId },
    Resolve { client_id: ClientId, tx_id: TxId },
    Chargeback { client_id: ClientId, tx_id: TxId },
}

impl Transaction {
    /// The client the transaction names.
    #[verifier::allow_in_spec]
    pub fn client_id(&self) -> ClientId
        returns
            (match self {
                Transaction::Deposit { client_id, .. } => *client_id,
                Transaction::Withdrawal { client_id, .. } => *client_id,
                Transaction::Dispute { client_id, .. } => *client_id,
                Transaction::Resolve { client_id, .. } => *client_id,
                Transaction::Chargeback { client_id, .. } => *client_id,
            }),
    {
        match self {
            Transaction::Deposit { client_id, .. } => *client_id,
            Transaction::Withdrawal { client_id, .. } => *client_id,
            Transaction::Dispute { client_id, .. } => *client_id,
            Transaction::Resolve { client_id, .. } => *client_id,
            Transaction::Chargeback { client_id, .. } => *client_id,
        }
    }

    /// The transaction id: its own for deposits and withdrawals, the
    /// referenced one for disputes, resolves and chargebacks.
    #[verifier::allow_in_spec]
    pub fn tx_id(&self) -> TxId
        returns
            (match self {
                Transaction::Deposit { tx_id, .. } => *tx_id,
                Transaction::Withdrawal { tx_id, .. } => *tx_id,
                Transaction::Dispute { tx_id, .. } => *tx_id,
                Transaction::Resolve { tx_id, .. } => *tx_id,
                Transaction::Chargeback { tx_id, .. } => *tx_id,
            }),
    {
        match self {
            Transaction::Deposit { tx_id, .. } => *tx_id,
            Transaction::Withdrawal { tx_id, .. } => *tx_id,
            Transaction::Dispute { tx_id, .. } => *tx_id,
            Transaction::Resolve { tx_id, .. } => *tx_id,
            Transaction::Chargeback { tx_id, .. } => *tx_id,
        }
    }

    /// The amount carried by a deposit or a withdrawal; `None` otherwise.
    #[verifier::allow_in_spec]
    pub fn amount(&self) -> Option<Amount>
        returns
            (match self {
                Transaction::Deposit { amount, .. } => Some(*amount),
                Transaction::Withdrawal { amount, .. } => Some(*amount),
                _ => None,
            }),
    {
        match self {
            Transaction::Deposit { amount, .. } => Some(*amount),
            Transaction::Withdrawal { amount, .. } => Some(*amount),
            _ => None,
        }
    }
}

} // verus!
