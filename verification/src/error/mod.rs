pub mod app_error;
pub mod ledger_error;
pub mod transaction_error;
