use vstd::prelude::*;

use crate::domain::amount::Amount;
use crate::domain::client::ClientId;
use crate::domain::dispute::DisputeState;
use crate::domain::transaction::Transaction;
use crate::domain::transaction_id::TxId;

verus! {

/// A deposit or withdrawal kept by the ledger so that it can be disputed.
pub struct RecordedTransaction {
    pub tx_id: TxId,
    pub client_id: ClientId,
    pub amount: Amount,
    pub kind: Transaction,
    pub dispute_state: DisputeState,
}

impl RecordedTransaction {
    /// The id under which the transaction was recorded.
    #[verifier::allow_in_spec]
    pub fn tx_id(&self) -> TxId
        returns
            self.tx_id,
    {
        self.tx_id
    }
}

} // verus!
