use vstd::prelude::*;

verus! {

/// Identifies a client; each client owns at most one account.
pub type ClientId = u16;

} // verus!
