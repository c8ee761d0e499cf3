use vstd::prelude::*;

verus! {

/// Where a recorded transaction stands in the dispute lifecycle.
#[derive(Debug, Clone, Copy, PartialEq, Eq, Structural)]
pub enum DisputeState {
    NotDisputed,
    Disputed,
    ChargedBack,
}

} // verus!
