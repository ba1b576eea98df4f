//! Sums over a window of a series.

use vstd::prelude::*;

verus! {

/// The greatest square a price can have: that of `i32::MIN`.
pub open spec fn square_max() -> int {
    0x4000_0000_0000_0000
}

/// The sum of `s[lo..hi]`, upper end excluded.
pub open spec fn window_sum(s: Seq<i32>, lo: int, hi: int) -> int
    decreases hi - lo,
{
    if hi <= lo {
        0
    } else {
        window_sum(s, lo, hi - 1) + s[hi - 1]
    }
}

/// The sum of the squares of `s[lo..hi]`, upper end excluded.
pub open spec fn window_square_sum(s: Seq<i32>, lo: int, hi: int) -> int
    decreases hi - lo,
{
    if hi <= lo {
        0
    } else {
        window_square_sum(s, lo, hi - 1) + s[hi - 1] * s[hi - 1]
    }
}

/// A window's sum is its first element plus the sum of the rest.
pub proof fn lemma_window_sum_split_first(s: Seq<i32>, lo: int, hi: int)
    requires
        lo < hi,
    ensures
        window_sum(s, lo, hi) == s[lo] + window_sum(s, lo + 1, hi),
    decreases hi - lo,
{
    if lo + 1 < hi {
        lemma_window_sum_split_first(s, lo, hi - 1);
    } else {
        assert(window_sum(s, lo, hi - 1) == 0);
        assert(window_sum(s, lo + 1, hi) == 0);
    }
}

/// Sliding a window one step to the right adds the element that enters and
/// takes away the element that leaves: a running sum kept that way is the
/// sum of the window, summed afresh.
pub proof fn lemma_window_sum_slide(s: Seq<i32>, lo: int, hi: int)
    requires
        lo <= hi,
    ensures
        window_sum(s, lo + 1, hi + 1) == window_sum(s, lo, hi) + s[hi] - s[lo],
{
    lemma_window_sum_split_first(s, lo, hi + 1);
}

/// The same for the sum of squares.
pub proof fn lemma_window_square_sum_split_first(s: Seq<i32>, lo: int, hi: int)
    requires
        lo < hi,
    ensures
        window_square_sum(s, lo, hi) == s[lo] * s[lo] + window_square_sum(s, lo + 1, hi),
    decreases hi - lo,
{
    if lo + 1 < hi {
        lemma_window_square_sum_split_first(s, lo, hi - 1);
    } else {
        assert(window_square_sum(s, lo, hi - 1) == 0);
        assert(window_square_sum(s, lo + 1, hi) == 0);
    }
}

/// A sum of `hi - lo` prices lies between that many times the least and the
/// greatest price there is.
pub proof fn lemma_window_sum_bounds(s: Seq<i32>, lo: int, hi: int)
    requires
        0 <= lo <= hi <= s.len(),
    ensures
        (hi - lo) * i32::MIN <= window_sum(s, lo, hi) <= (hi - lo) * i32::MAX,
    decreases hi - lo,
{
    if lo < hi {
        lemma_window_sum_bounds(s, lo, hi - 1);
        assert((hi - lo) * i32::MIN == (hi - 1 - lo) * i32::MIN + i32::MIN) by (nonlinear_arith);
        assert((hi - lo) * i32::MAX == (hi - 1 - lo) * i32::MAX + i32::MAX) by (nonlinear_arith);
    }
}

/// A sum of `hi - lo` squares of prices lies between zero and that many
/// times the greatest square there is.
pub proof fn lemma_window_square_sum_bounds(s: Seq<i32>, lo: int, hi: int)
    requires
        0 <= lo <= hi <= s.len(),
    ensures
        0 <= window_square_sum(s, lo, hi) <= (hi - lo) * square_max(),
    decreases hi - lo,
{
    if lo < hi {
        lemma_window_square_sum_bounds(s, lo, hi - 1);
        let x = s[hi - 1] as int;
        assert(0 <= x * x <= square_max()) by (nonlinear_arith)
            requires
                -0x8000_0000 <= x <= 0x7fff_ffff,
        ;
        assert((hi - lo) * square_max() == (hi - 1 - lo) * square_max() + square_max())
            by (nonlinear_arith);
    }
}

/// The sum of a window in which every element is `c`.
pub proof fn lemma_window_sum_constant(s: Seq<i32>, lo: int, hi: int, c: int)
    requires
        lo <= hi,
        forall|j: int| lo <= j < hi ==> s[j] == c,
    ensures
        window_sum(s, lo, hi) == (hi - lo) * c,
    decreases hi - lo,
{
    if lo < hi {
        lemma_window_sum_constant(s, lo, hi - 1, c);
        assert((hi - lo) * c == (hi - 1 - lo) * c + c) by (nonlinear_arith);
    } else {
        assert((hi - lo) * c == 0) by (nonlinear_arith)
            requires
                hi == lo,
        ;
    }
}

} // verus!
