use vstd::prelude::*;

verus! {

/// A monetary amount in ten-thousandths of a unit (four decimal places).
pub type Amount = i32;

} // verus!
