use vstd::prelude::*;

verus! {

/// Globally unique identifier of a deposit or withdrawal.
pub type TxId = u32;

} // verus!
