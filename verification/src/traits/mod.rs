pub mod ledger;
pub mod report_sink;
pub mod transaction_source;
