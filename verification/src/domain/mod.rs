pub mod account;
pub mod amount;
pub mod client;
pub mod dispute;
pub mod recorded_transaction;
pub mod transaction;
pub mod transaction_id;
