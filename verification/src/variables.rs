//! Constants, and what shadowing a variable does.

use vstd::prelude::*;

verus! {

/// The number of seconds in an hour.
pub const SECONDS_IN_HOUR: u32 = 60 * 60;

/// What is added to a variable when it is shadowed the first time.
pub const RAISE: i32 = 6;

/// The values that a variable is seen to have while it is shadowed.
#[derive(Clone, Copy, Debug, PartialEq, Eq, Structural)]
pub struct Shadowed {
    /// The value once the variable is shadowed by itself plus `RAISE`.
    pub outer: i32,
    /// The value inside a block that shadows it again, by its double.
    pub inner: i32,
    /// The value after that block.
    pub after: i32,
}

/// Shadows `value` twice: first by itself plus `RAISE`, then, inside a
/// block, by the double of that. After the block the first shadow is back.
pub fn shadowing(value: i32) -> (seen: Shadowed)
    requires
        i32::MIN <= 2 * (value + RAISE) <= i32::MAX,
    ensures
        seen.outer == value + RAISE,
        seen.inner == 2 * (value + RAISE),
        seen.after == seen.outer,
{
    let my_int: i32 = value;
    let my_int: i32 = my_int + RAISE;
    let outer = my_int;
    let inner;
    {
        let my_int: i32 = my_int * 2;
        inner = my_int;
    }
    Shadowed { outer, inner, after: my_int }
}

} // verus!
