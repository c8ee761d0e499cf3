//! A payment engine: it applies deposits, withdrawals, disputes, resolves
//! and chargebacks to client accounts held in a ledger, and renders the
//! resulting balances.

pub mod domain;
pub mod engine;
pub mod error;
pub mod io;
pub mod ledger;
pub mod traits;
