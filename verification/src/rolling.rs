//! The simple moving average of a series.

use crate::arith::{floor_div, lemma_div_between};
use crate::error::IndicatorError;
use crate::window::{
    lemma_window_sum_bounds, lemma_window_sum_constant, lemma_window_sum_slide,
    lemma_window_sum_split_first, window_sum,
};
use vstd::arithmetic::div_mod::{
    lemma_div_multiples_vanish, lemma_fundamental_div_mod, lemma_mod_bound,
};
use vstd::prelude::*;

verus! {

/// Whether a window of `w` elements ending at index `i` lies within a series
/// of `len` elements.
pub open spec fn window_fits(len: int, w: int, i: int) -> bool {
    0 < w && w - 1 <= i < len
}

/// The arithmetic mean of the `w` elements ending at index `i`, rounded down.
pub open spec fn mean_at(s: Seq<i32>, w: int, i: int) -> int {
    window_sum(s, i + 1 - w, i + 1) / w
}

/// What a rolling mean of window `w` holds at index `i`: nothing while the
/// window reaches back before the start of the series, and the mean of the
/// window from then on.
pub open spec fn is_rolling_mean_at(s: Seq<i32>, w: int, i: int, entry: Option<i32>) -> bool {
    if i + 1 < w {
        entry is None
    } else {
        entry matches Some(m) && m == mean_at(s, w, i)
    }
}

/// [`mean_at`] is the true mean rounded down: it is at most the mean, and
/// less than one tick below it. Both are stated times `w`, where the mean is
/// an integer.
pub proof fn lemma_mean_is_rounded_down(s: Seq<i32>, w: int, i: int)
    requires
        0 < w,
    ensures
        mean_at(s, w, i) * w <= window_sum(s, i + 1 - w, i + 1) < (mean_at(s, w, i) + 1) * w,
{
    let sum = window_sum(s, i + 1 - w, i + 1);
    lemma_fundamental_div_mod(sum, w);
    lemma_mod_bound(sum, w);
    assert(mean_at(s, w, i) * w <= sum < (mean_at(s, w, i) + 1) * w) by (nonlinear_arith)
        requires
            sum == w * mean_at(s, w, i) + sum % w,
            0 <= sum % w < w,
    ;
}

/// The mean of a window is one of the prices an `i32` can hold.
pub proof fn lemma_mean_in_range(s: Seq<i32>, w: int, i: int)
    requires
        window_fits(s.len() as int, w, i),
    ensures
        i32::MIN <= mean_at(s, w, i) <= i32::MAX,
{
    lemma_window_sum_bounds(s, i + 1 - w, i + 1);
    lemma_div_between(window_sum(s, i + 1 - w, i + 1), w, i32::MIN as int, i32::MAX as int);
}

/// Over a stretch of equal prices the mean is that price.
pub proof fn lemma_mean_of_constant(s: Seq<i32>, w: int, i: int, c: int)
    requires
        0 < w,
        forall|j: int| i + 1 - w <= j <= i ==> s[j] == c,
    ensures
        mean_at(s, w, i) == c,
{
    lemma_window_sum_constant(s, i + 1 - w, i + 1, c);
    lemma_div_multiples_vanish(c, w);
}

/// A constant series has a constant rolling mean: wherever a full window
/// ends, the entry is the constant itself.
pub proof fn lemma_rolling_mean_of_constant(
    s: Seq<i32>,
    w: int,
    i: int,
    c: i32,
    entry: Option<i32>,
)
    requires
        window_fits(s.len() as int, w, i),
        forall|j: int| 0 <= j < s.len() ==> s[j] == c,
        is_rolling_mean_at(s, w, i, entry),
    ensures
        entry == Some(c),
{
    lemma_mean_of_constant(s, w, i, c as int);
}

/// A mean kept by a running sum is the mean summed afresh: the window that
/// ends at `i + 1` has the sum of the window that ends at `i`, plus the
/// element that enters, less the element that leaves.
pub proof fn lemma_mean_slides(s: Seq<i32>, w: int, i: int)
    requires
        0 < w,
    ensures
        mean_at(s, w, i + 1) == (window_sum(s, i + 1 - w, i + 1) + s[i + 1] - s[i + 1 - w]) / w,
{
    lemma_window_sum_slide(s, i + 1 - w, i + 1);
}

/// The simple moving average of `series` over `window` elements.
///
/// The result has one entry per element of `series`. Entry `i` is `None`
/// while fewer than `window` elements end at `i`, and after that the mean of
/// `series[i + 1 - window..=i]`, rounded down. A window longer than the
/// series therefore gives `None` throughout. A window of zero elements has no
/// mean and is refused.
pub fn rolling_mean(series: &[i32], window: usize) -> (result: Result<
    Vec<Option<i32>>,
    IndicatorError,
>)
    ensures
        window == 0 <==> result is Err,
        result matches Err(e) ==> e == IndicatorError::InvalidParameter,
        result matches Ok(means) ==> {
            &&& means@.len() == series@.len()
            &&& forall|i: int|
                0 <= i < series@.len() ==> is_rolling_mean_at(
                    series@,
                    window as int,
                    i,
                    #[trigger] means@[i],
                )
            &&& forall|i: int|
                0 <= i < series@.len() ==> ((#[trigger] means@[i]) is None <==> i + 1 < window)
        },
{
    if window == 0 {
        return Err(IndicatorError::InvalidParameter);
    }
    let n: usize = series.len();
    let mut means: Vec<Option<i32>> = Vec::new();
    let mut sum: i128 = 0;
    let mut i: usize = 0;
    while i < n
        invariant
            n == series@.len(),
            0 < window,
            i <= n,
            means@.len() == i,
            sum == window_sum(series@, if i >= window { i - window } else { 0 }, i as int),
            forall|j: int|
                0 <= j < i ==> is_rolling_mean_at(series@, window as int, j, #[trigger] means@[j]),
            forall|j: int| 0 <= j < i ==> ((#[trigger] means@[j]) is None <==> j + 1 < window),
        decreases n - i,
    {
        let ghost lo: int = if i >= window { i - window } else { 0 };
        proof {
            lemma_window_sum_bounds(series@, lo, i as int);
            assert((i - lo) * i32::MIN >= usize::MAX * i32::MIN) by (nonlinear_arith)
                requires
                    0 <= i - lo <= usize::MAX,
            ;
            assert((i - lo) * i32::MAX <= usize::MAX * i32::MAX) by (nonlinear_arith)
                requires
                    0 <= i - lo <= usize::MAX,
            ;
        }
        sum = sum + series[i] as i128;
        if i >= window {
            proof {
                lemma_window_sum_split_first(series@, lo, i + 1);
            }
            sum = sum - series[i - window] as i128;
        }
        if i + 1 >= window {
            proof {
                lemma_mean_in_range(series@, window as int, i as int);
            }
            let mean: i128 = floor_div(sum, window as i128);
            means.push(Some(mean as i32));
        } else {
            means.push(None);
        }
        i += 1;
    }
    Ok(means)
}

} // verus!
