use vstd::prelude::*;

verus! {

/// Failure to read or write a stream of records.
#[derive(Debug, PartialEq, Eq)]
pub enum AppError {
    Error,
}

} // verus!
