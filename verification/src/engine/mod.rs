pub mod helpers;
pub mod laws;
pub mod payment_engine;
pub mod transaction_handlers;
