//! Division that rounds down, and the facts about it the indicators lean on.

use vstd::arithmetic::div_mod::*;
use vstd::prelude::*;

verus! {

/// A quotient lies between any two bounds whose multiples enclose the
/// dividend.
pub proof fn lemma_div_between(x: int, d: int, lower: int, upper: int)
    requires
        d > 0,
        d * lower <= x <= d * upper,
    ensures
        lower <= x / d <= upper,
{
    lemma_div_is_ordered(d * lower, x, d);
    lemma_div_is_ordered(x, d * upper, d);
    lemma_div_multiples_vanish(lower, d);
    lemma_div_multiples_vanish(upper, d);
}

/// `q` is the rounded-down quotient of `x` by `d` as soon as `x` falls in the
/// `q`-th stretch of length `d`.
pub proof fn lemma_div_unique(x: int, d: int, q: int)
    requires
        d > 0,
        q * d <= x < (q + 1) * d,
    ensures
        x / d == q,
{
    assert((q + 1) * d == q * d + d) by (nonlinear_arith);
    lemma_fundamental_div_mod_converse(x, d, q, x - q * d);
}

/// `a / d` rounded towards negative infinity.
pub fn floor_div(a: i128, d: i128) -> (q: i128)
    requires
        d > 0,
    ensures
        q == a / d,
        q * d <= a < (q + 1) * d,
{
    if a >= 0 {
        let q: i128 = a / d;
        proof {
            lemma_fundamental_div_mod(a as int, d as int);
            lemma_mod_bound(a as int, d as int);
            assert(d * q == q * d && (q + 1) * d == q * d + d) by (nonlinear_arith);
        }
        q
    } else {
        // Below zero, count the stretches of length `d` from -1 downwards.
        let below: i128 = -(a + 1);
        let steps: i128 = below / d;
        proof {
            lemma_fundamental_div_mod(below as int, d as int);
            lemma_mod_bound(below as int, d as int);
            assert(d * 0 <= below <= d * below) by (nonlinear_arith)
                requires
                    d >= 1,
                    below >= 0,
            ;
            lemma_div_between(below as int, d as int, 0, below as int);
            let q = -steps - 1;
            assert(q * d <= a < (q + 1) * d) by (nonlinear_arith)
                requires
                    q == -steps - 1,
                    below == d * steps + (below % d),
                    0 <= below % d < d,
                    a == -below - 1,
            ;
            lemma_div_unique(a as int, d as int, q);
        }
        -steps - 1
    }
}

} // verus!
