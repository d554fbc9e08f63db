//! Decisions: a test, a chain of tests, and a choice between two values.

use vstd::prelude::*;

verus! {

/// The numbers below this bound count as small.
pub const SMALL_BOUND: i32 = 5;

/// Which of 4, 3 and 2 a number is found to be divisible by.
#[derive(Clone, Copy, Debug, PartialEq, Eq, Structural)]
pub enum Divisor {
    /// The number is divisible by 4.
    Four,
    /// The number is divisible by 3, and not by 4.
    Three,
    /// The number is divisible by 2, and neither by 4 nor by 3.
    Two,
    /// The number is divisible by none of 4, 3 and 2.
    Neither,
}

/// `d` divides `n`.
pub open spec fn divides(d: int, n: int) -> bool {
    n % d == 0
}

/// The first of 4, 3 and 2, in this order, that divides `n`.
pub open spec fn first_divisor(n: int) -> Divisor {
    if divides(4, n) {
        Divisor::Four
    } else if divides(3, n) {
        Divisor::Three
    } else if divides(2, n) {
        Divisor::Two
    } else {
        Divisor::Neither
    }
}

/// What 4 divides is even. So a number for which none of the three is named
/// is one that neither 3 nor 2 divides.
pub proof fn lemma_four_needs_two(n: int)
    ensures
        divides(4, n) ==> divides(2, n),
        first_divisor(n) == Divisor::Neither <==> !divides(3, n) && !divides(2, n),
{
}

/// Whether `number` is small.
pub fn is_small(number: i32) -> (small: bool)
    ensures
        small == (number < SMALL_BOUND),
{
    number < SMALL_BOUND
}

/// Tests `number` against 4, then 3, then 2, and names the first of them
/// that divides it.
pub fn divisibility(number: i32) -> (divisor: Divisor)
    ensures
        divisor == first_divisor(number as int),
{
    if number % 4 == 0 {
        Divisor::Four
    } else if number % 3 == 0 {
        Divisor::Three
    } else if number % 2 == 0 {
        Divisor::Two
    } else {
        Divisor::Neither
    }
}

/// Five where `condition` holds, six where it does not.
pub fn choose_number(condition: bool) -> (number: i32)
    ensures
        number == if condition { 5int } else { 6int },
{
    let number: i32 = if condition { 5i32 } else { 6i32 };
    number
}

} // verus!
