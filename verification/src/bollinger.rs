//! Bollinger bands: the rolling mean, plus and minus a number of rolling
//! standard deviations.

use crate::deviation::{
    lemma_stddev_is_rounded_down, lemma_variance_from_moments, mean_and_deviation, stddev_at,
};
use crate::rolling::mean_at;
use crate::window::{
    lemma_window_square_sum_bounds, lemma_window_square_sum_split_first, lemma_window_sum_bounds,
    lemma_window_sum_split_first, square_max, window_square_sum, window_sum,
};
use vstd::prelude::*;

verus! {

/// The number of standard deviations between the mean and either band when
/// the caller has no preference.
pub const DEFAULT_NUM_STD_DEVS: u16 = 2;

/// One point of the envelope.
#[derive(Clone, Copy, Debug, PartialEq, Eq)]
pub struct BandPoint {
    /// Position in the series of the last element of the window.
    pub index: usize,
    pub upper: i64,
    pub lower: i64,
}

/// How many windows of `w` elements a series of `len` elements holds.
pub open spec fn band_count(len: int, w: int) -> int {
    if 0 < w <= len {
        len - w + 1
    } else {
        0
    }
}

/// The upper band at index `i`.
pub open spec fn upper_at(s: Seq<i32>, w: int, k: int, i: int) -> int {
    mean_at(s, w, i) + k * stddev_at(s, w, i)
}

/// The lower band at index `i`.
pub open spec fn lower_at(s: Seq<i32>, w: int, k: int, i: int) -> int {
    mean_at(s, w, i) - k * stddev_at(s, w, i)
}

/// `point` is the envelope at index `i`.
pub open spec fn is_band_at(s: Seq<i32>, w: int, k: int, i: int, point: BandPoint) -> bool {
    &&& point.index == i
    &&& point.upper == upper_at(s, w, k, i)
    &&& point.lower == lower_at(s, w, k, i)
}

/// The bands lie `num_std_devs` standard deviations either side of the mean,
/// so they are twice that far apart, and the upper one is never below the
/// lower one.
pub proof fn lemma_band_width(s: Seq<i32>, w: int, k: int, i: int)
    requires
        0 < w,
        0 <= k,
    ensures
        upper_at(s, w, k, i) - lower_at(s, w, k, i) == 2 * k * stddev_at(s, w, i),
        2 * k * stddev_at(s, w, i) >= 0,
        lower_at(s, w, k, i) <= mean_at(s, w, i) <= upper_at(s, w, k, i),
{
    lemma_stddev_is_rounded_down(s, w, i);
    let d = stddev_at(s, w, i);
    assert(2 * k * d == k * d + k * d && k * d >= 0) by (nonlinear_arith)
        requires
            0 <= k,
            0 <= d,
    ;
}

/// The Bollinger bands of `series` over `window` elements, `num_std_devs`
/// standard deviations either side of the mean.
///
/// There is one point for each index at which a full window ends, in
/// increasing order of index: none at all when `window` is zero or longer
/// than the series. Mean and standard deviation are those of the population
/// of the window, each rounded down to a whole tick.
pub fn bollinger(series: &[i32], window: usize, num_std_devs: u16) -> (bands: Vec<BandPoint>)
    ensures
        bands@.len() == band_count(series@.len() as int, window as int),
        forall|j: int|
            0 <= j < bands@.len() ==> is_band_at(
                series@,
                window as int,
                num_std_devs as int,
                j + window - 1,
                #[trigger] bands@[j],
            ),
        forall|j: int|
            0 <= j < bands@.len() ==> window - 1 <= (#[trigger] bands@[j]).index < series@.len(),
        forall|j: int|
            0 <= j < bands@.len() ==> {
                &&& (#[trigger] bands@[j]).upper - bands@[j].lower == 2 * num_std_devs * stddev_at(
                    series@,
                    window as int,
                    j + window - 1,
                )
                &&& bands@[j].upper - bands@[j].lower >= 0
            },
{
    let n: usize = series.len();
    let mut bands: Vec<BandPoint> = Vec::new();
    if window == 0 || window > n {
        return bands;
    }
    let mut sum: i128 = 0;
    let mut squares: i128 = 0;
    let mut i: usize = 0;
    while i < n
        invariant
            n == series@.len(),
            0 < window <= n,
            i <= n,
            bands@.len() == band_count(i as int, window as int),
            sum == window_sum(series@, if i >= window { i - window } else { 0 }, i as int),
            squares == window_square_sum(
                series@,
                if i >= window { i - window } else { 0 },
                i as int,
            ),
            forall|j: int|
                0 <= j < bands@.len() ==> is_band_at(
                    series@,
                    window as int,
                    num_std_devs as int,
                    j + window - 1,
                    #[trigger] bands@[j],
                ),
            forall|j: int|
                0 <= j < bands@.len() ==> {
                    &&& (#[trigger] bands@[j]).upper - bands@[j].lower == 2 * num_std_devs
                        * stddev_at(series@, window as int, j + window - 1)
                    &&& bands@[j].upper - bands@[j].lower >= 0
                },
        decreases n - i,
    {
        let ghost lo: int = if i >= window { i - window } else { 0 };
        proof {
            lemma_window_sum_bounds(series@, lo, i as int);
            lemma_window_square_sum_bounds(series@, lo, i as int);
            assert((i - lo) * i32::MIN >= usize::MAX * i32::MIN && (i - lo) * i32::MAX
                <= usize::MAX * i32::MAX && (i - lo) * square_max() <= usize::MAX
                * square_max()) by (nonlinear_arith)
                requires
                    0 <= i - lo <= usize::MAX,
            ;
        }
        let entering: i128 = series[i] as i128;
        assert(0 <= entering * entering <= square_max()) by (nonlinear_arith)
            requires
                -0x8000_0000 <= entering <= 0x7fff_ffff,
        ;
        sum = sum + entering;
        squares = squares + entering * entering;
        if i >= window {
            proof {
                lemma_window_sum_split_first(series@, lo, i + 1);
                lemma_window_square_sum_split_first(series@, lo, i + 1);
            }
            let leaving: i128 = series[i - window] as i128;
            assert(0 <= leaving * leaving <= square_max()) by (nonlinear_arith)
                requires
                    -0x8000_0000 <= leaving <= 0x7fff_ffff,
            ;
            sum = sum - leaving;
            squares = squares - leaving * leaving;
        }
        if i + 1 >= window {
            proof {
                lemma_window_sum_bounds(series@, i + 1 - window, i + 1);
                lemma_window_square_sum_bounds(series@, i + 1 - window, i + 1);
                lemma_variance_from_moments(series@, window as int, i as int);
            }
            let (mean, deviation): (i32, u32) = mean_and_deviation(sum, squares, window);
            assert(0 <= num_std_devs * deviation <= 0xffff * 0x8000_0000) by (nonlinear_arith)
                requires
                    0 <= num_std_devs <= 0xffff,
                    0 <= deviation <= 0x8000_0000,
            ;
            let reach: i64 = num_std_devs as i64 * deviation as i64;
            assert(2 * num_std_devs * deviation == reach + reach) by (nonlinear_arith)
                requires
                    reach == num_std_devs * deviation,
            ;
            bands.push(BandPoint { index: i, upper: mean as i64 + reach, lower: mean as i64 - reach });
        }
        i += 1;
    }
    bands
}

} // verus!
