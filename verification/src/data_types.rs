//! Whole-number division as the machine does it: the quotient is rounded
//! toward zero, and the remainder takes the sign of the dividend.

use vstd::arithmetic::div_mod::*;
use vstd::prelude::*;

verus! {

/// The size of `n` without its sign.
pub open spec fn magnitude(n: int) -> int {
    if n < 0 {
        -n
    } else {
        n
    }
}

/// The quotient of `a` by `b`, rounded toward zero: the quotient of the
/// magnitudes, negative where exactly one of `a` and `b` is.
pub open spec fn truncated_quotient(a: int, b: int) -> int {
    if (a < 0) == (b < 0) {
        magnitude(a) / magnitude(b)
    } else {
        -(magnitude(a) / magnitude(b))
    }
}

/// What is left of `a` once `b` has been taken off it as often as the
/// truncated quotient says.
pub open spec fn truncated_remainder(a: int, b: int) -> int {
    a - b * truncated_quotient(a, b)
}

/// `a` cannot be divided by `b` within `i32`: there is no quotient by zero,
/// and the quotient of `i32::MIN` by -1 is one more than `i32::MAX`.
pub open spec fn has_no_quotient(a: i32, b: i32) -> bool {
    b == 0 || (a == i32::MIN && b == -1)
}

/// Truncated division splits `a` into a multiple of `b` and a remainder that
/// is smaller than `b` in magnitude and never of the opposite sign to `a`.
/// The quotient is no larger in magnitude than `a`, and as large only where
/// `b` is 1 or -1, or `a` is 0.
pub proof fn lemma_truncated_division(a: int, b: int)
    requires
        b != 0,
    ensures
        a == b * truncated_quotient(a, b) + truncated_remainder(a, b),
        magnitude(truncated_remainder(a, b)) < magnitude(b),
        a >= 0 ==> truncated_remainder(a, b) >= 0,
        a <= 0 ==> truncated_remainder(a, b) <= 0,
        magnitude(truncated_quotient(a, b)) <= magnitude(a),
        magnitude(truncated_quotient(a, b)) == magnitude(a) ==> a == 0 || magnitude(b) == 1,
        truncated_remainder(a, b) == if a >= 0 {
            magnitude(a) % magnitude(b)
        } else {
            -(magnitude(a) % magnitude(b))
        },
{
    let x = magnitude(a);
    let d = magnitude(b);
    let q = x / d;
    let t = truncated_quotient(a, b);
    lemma_fundamental_div_mod(x, d);
    lemma_mod_bound(x, d);
    lemma_div_pos_is_pos(x, d);
    lemma_div_nonincreasing(x, d);
    if x > 0 && d > 1 {
        lemma_div_decreases(x, d);
    }
    assert(b * t == if a >= 0 {
        d * q
    } else {
        -(d * q)
    }) by (nonlinear_arith)
        requires
            a >= 0 ==> (b == d && t == q) || (b == -d && t == -q),
            a < 0 ==> (b == d && t == -q) || (b == -d && t == q),
    ;
}

/// The quotient of `a` by `b`, rounded toward zero; `None` where `i32` has
/// no such quotient.
pub fn quotient(a: i32, b: i32) -> (q: Option<i32>)
    ensures
        q is None <==> has_no_quotient(a, b),
        q matches Some(v) ==> v == truncated_quotient(a as int, b as int),
{
    proof {
        if b != 0 {
            lemma_truncated_division(a as int, b as int);
            lemma_div_basics(magnitude(a as int));
        }
    }
    a.checked_div(b)
}

/// The remainder of `a` by `b` under truncated division; `None` where `i32`
/// has no quotient of the two.
pub fn remainder(a: i32, b: i32) -> (r: Option<i32>)
    ensures
        r is None <==> has_no_quotient(a, b),
        r matches Some(v) ==> v == truncated_remainder(a as int, b as int),
{
    proof {
        if b != 0 {
            lemma_truncated_division(a as int, b as int);
        }
    }
    a.checked_rem(b)
}

} // verus!
