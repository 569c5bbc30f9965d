//! Defaults of the personal budget scenario.
use vstd::prelude::*;

verus! {

/// Default mortgage term in years.
pub fn default_mortgage_years() -> (y: u32)
    ensures
        y == 30,
{
    30
}

} // verus!
