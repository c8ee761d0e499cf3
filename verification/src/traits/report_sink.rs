use vstd::prelude::*;

use crate::domain::account::AccountSnapshot;
use crate::error::app_error::AppError;

verus! {

/// A destination for the final account report.
pub trait ReportSink {
    fn write_accounts(&mut self, accounts: &[AccountSnapshot]) -> Result<(), AppError>;
}

} // verus!
