use vstd::prelude::*;

use crate::domain::client::ClientId;
use crate::domain::transaction_id::TxId;

verus! {

/// One input row: the transaction type, client, transaction id and the
/// optional amount text.
pub struct CsvTransactionRecord {
    pub tx_type: String,
    pub client: ClientId,
    pub tx: TxId,
    pub amount: Option<String>,
}

/// One output row: a client's balances as text, and whether the account is
/// locked.
pub struct CsvAccountOutputRecord {
    pub client: ClientId,
    pub available: String,
    pub held: String,
    pub total: String,
    pub locked: bool,
}

} // verus!
