//! Functions that return a value.

use vstd::prelude::*;

verus! {

/// Returns one thousand.
pub fn get_thousand() -> (r: i32)
    ensures
        r == 1000,
{
    1000
}

/// Returns the successor of `x`.
///
/// `i32::MAX` has no successor in `i32`, so it is left out.
pub fn plus_one(x: i32) -> (r: i32)
    requires
        x < i32::MAX,
    ensures
        r == x + 1,
{
    return x + 1;
}

} // verus!
