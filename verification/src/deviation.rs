//! Population variance and standard deviation of a window, in exact integer
//! terms.
//!
//! The mean of a window of `w` prices with sum `S` is the fraction `S / w`,
//! so the deviation of a price `x` from it is `(w * x - S) / w`. The
//! numerators `w * x - S` are integers; their squares add up to `w * w` times
//! the sum of squared deviations, which is `w * w * w` times the population
//! variance.

use crate::arith::{floor_div, lemma_div_between, lemma_div_unique};
use crate::root::{floor_sqrt, isqrt, lemma_floor_sqrt_exists, lemma_square_monotonic};
use crate::window::{square_max, window_square_sum, window_sum};
use vstd::arithmetic::div_mod::{
    lemma_div_denominator, lemma_div_multiples_vanish, lemma_fundamental_div_mod,
    lemma_mod_bound,
};
use vstd::prelude::*;

verus! {

/// The sum over `s[lo..hi]` of `(n * x - total)` squared.
pub open spec fn scaled_deviation_square_sum(
    s: Seq<i32>,
    lo: int,
    hi: int,
    n: int,
    total: int,
) -> int
    decreases hi - lo,
{
    if hi <= lo {
        0
    } else {
        scaled_deviation_square_sum(s, lo, hi - 1, n, total) + (n * s[hi - 1] - total) * (n * s[hi
            - 1] - total)
    }
}

/// `w * w * w` times the population variance of the `w` elements ending at
/// index `i`.
pub open spec fn scaled_variance_at(s: Seq<i32>, w: int, i: int) -> int {
    scaled_deviation_square_sum(s, i + 1 - w, i + 1, w, window_sum(s, i + 1 - w, i + 1))
}

/// The population variance of the `w` elements ending at index `i`, rounded
/// down.
pub open spec fn variance_at(s: Seq<i32>, w: int, i: int) -> int {
    scaled_variance_at(s, w, i) / (w * w * w)
}

/// The population standard deviation of the `w` elements ending at index
/// `i`, rounded down.
pub open spec fn stddev_at(s: Seq<i32>, w: int, i: int) -> int {
    floor_sqrt(variance_at(s, w, i))
}

/// `w` times the sum of squares less the square of the sum: the numerator of
/// the variance over the denominator `w * w`.
pub open spec fn moment_numerator(w: int, sum: int, squares: int) -> int {
    w * squares - sum * sum
}

/// A sum of squares is not negative.
pub proof fn lemma_scaled_deviation_square_sum_nonnegative(
    s: Seq<i32>,
    lo: int,
    hi: int,
    n: int,
    total: int,
)
    ensures
        scaled_deviation_square_sum(s, lo, hi, n, total) >= 0,
    decreases hi - lo,
{
    if lo < hi {
        lemma_scaled_deviation_square_sum_nonnegative(s, lo, hi - 1, n, total);
        let d = n * s[hi - 1] - total;
        assert(d * d >= 0) by (nonlinear_arith);
    }
}

/// The squares of the scaled deviations, multiplied out.
pub proof fn lemma_scaled_deviation_square_sum_expands(
    s: Seq<i32>,
    lo: int,
    hi: int,
    n: int,
    total: int,
)
    requires
        lo <= hi,
    ensures
        scaled_deviation_square_sum(s, lo, hi, n, total) == n * n * window_square_sum(s, lo, hi)
            - 2 * n * total * window_sum(s, lo, hi) + (hi - lo) * (total * total),
    decreases hi - lo,
{
    if lo < hi {
        lemma_scaled_deviation_square_sum_expands(s, lo, hi - 1, n, total);
        let x = s[hi - 1] as int;
        let sq = window_square_sum(s, lo, hi - 1);
        let sm = window_sum(s, lo, hi - 1);
        let c = hi - 1 - lo;
        assert((n * x - total) * (n * x - total) + (n * n * sq - 2 * n * total * sm + c * (total
            * total)) == n * n * (sq + x * x) - 2 * n * total * (sm + x) + (c + 1) * (total
            * total)) by (nonlinear_arith);
    } else {
        assert(n * n * 0 - 2 * n * total * 0 + (hi - lo) * (total * total) == 0)
            by (nonlinear_arith)
            requires
                hi == lo,
        ;
    }
}

/// The variance of a window from its sum and its sum of squares: the scaled
/// variance is `w` times the moment numerator, so the rounded-down variance
/// is the numerator over `w * w`.
pub proof fn lemma_variance_from_moments(s: Seq<i32>, w: int, i: int)
    requires
        0 < w,
    ensures
        scaled_variance_at(s, w, i) == w * moment_numerator(
            w,
            window_sum(s, i + 1 - w, i + 1),
            window_square_sum(s, i + 1 - w, i + 1),
        ),
        moment_numerator(
            w,
            window_sum(s, i + 1 - w, i + 1),
            window_square_sum(s, i + 1 - w, i + 1),
        ) >= 0,
        variance_at(s, w, i) == moment_numerator(
            w,
            window_sum(s, i + 1 - w, i + 1),
            window_square_sum(s, i + 1 - w, i + 1),
        ) / (w * w),
{
    let sum = window_sum(s, i + 1 - w, i + 1);
    let squares = window_square_sum(s, i + 1 - w, i + 1);
    let num = moment_numerator(w, sum, squares);
    lemma_scaled_deviation_square_sum_expands(s, i + 1 - w, i + 1, w, sum);
    lemma_scaled_deviation_square_sum_nonnegative(s, i + 1 - w, i + 1, w, sum);
    let scaled = scaled_variance_at(s, w, i);
    assert(scaled == w * num) by (nonlinear_arith)
        requires
            scaled == w * w * squares - 2 * w * sum * sum + w * (sum * sum),
            num == w * squares - sum * sum,
    ;
    assert(num >= 0) by (nonlinear_arith)
        requires
            w > 0,
            w * num >= 0,
    ;
    assert(w * w > 0) by (nonlinear_arith)
        requires
            w > 0,
    ;
    assert(w * w * w == w * (w * w)) by (nonlinear_arith);
    lemma_div_denominator(w * num, w, w * w);
    lemma_div_multiples_vanish(num, w);
}

/// The rounded-down variance is not negative.
pub proof fn lemma_variance_nonnegative(s: Seq<i32>, w: int, i: int)
    requires
        0 < w,
    ensures
        variance_at(s, w, i) >= 0,
{
    lemma_scaled_deviation_square_sum_nonnegative(
        s,
        i + 1 - w,
        i + 1,
        w,
        window_sum(s, i + 1 - w, i + 1),
    );
    let scaled = scaled_variance_at(s, w, i);
    let cube = w * w * w;
    assert(cube > 0) by (nonlinear_arith)
        requires
            w > 0,
            cube == w * w * w,
    ;
    assert(cube * 0 <= scaled <= cube * scaled) by (nonlinear_arith)
        requires
            cube >= 1,
            scaled >= 0,
    ;
    lemma_div_between(scaled, cube, 0, scaled);
}

/// [`stddev_at`] is the true population standard deviation rounded down:
/// its square is at most the variance, and the square of the next integer is
/// more than the variance. Both are stated times `w * w * w`, where the
/// variance is an integer.
pub proof fn lemma_stddev_is_rounded_down(s: Seq<i32>, w: int, i: int)
    requires
        0 < w,
    ensures
        0 <= stddev_at(s, w, i),
        stddev_at(s, w, i) * stddev_at(s, w, i) * (w * w * w) <= scaled_variance_at(s, w, i),
        scaled_variance_at(s, w, i) < (stddev_at(s, w, i) + 1) * (stddev_at(s, w, i) + 1) * (w * w
            * w),
{
    let scaled = scaled_variance_at(s, w, i);
    let cube = w * w * w;
    let variance = variance_at(s, w, i);
    let d = stddev_at(s, w, i);
    lemma_variance_nonnegative(s, w, i);
    lemma_floor_sqrt_exists(variance);
    assert(cube > 0) by (nonlinear_arith)
        requires
            w > 0,
            cube == w * w * w,
    ;
    lemma_fundamental_div_mod(scaled, cube);
    lemma_mod_bound(scaled, cube);
    let slack = scaled % cube;
    assert(d * d * cube <= scaled && scaled < (d + 1) * (d + 1) * cube) by (nonlinear_arith)
        requires
            scaled == cube * variance + slack,
            0 <= slack < cube,
            d * d <= variance < (d + 1) * (d + 1),
    ;
}

/// The mean and the standard deviation of `w` prices, both rounded down,
/// from the sum of the prices and the sum of their squares.
///
/// The variance is the moment numerator over `w * w`. The numerator itself
/// may not fit in 128 bits, so the quotient is taken in two steps around the
/// rounded-down mean `m` and the remainder `r = sum - w * m`: with
/// `q = squares - m * (sum + r)`, the numerator is `w * q - r * r`.
pub(crate) fn mean_and_deviation(sum: i128, squares: i128, w: usize) -> (out: (i32, u32))
    requires
        0 < w,
        w * i32::MIN <= sum <= w * i32::MAX,
        0 <= squares <= w * square_max(),
        moment_numerator(w as int, sum as int, squares as int) >= 0,
    ensures
        out.0 == (sum as int) / (w as int),
        out.1 == floor_sqrt(moment_numerator(w as int, sum as int, squares as int) / (w * w)),
        out.1 <= 0x8000_0000,
{
    let ghost num: int = moment_numerator(w as int, sum as int, squares as int);
    let width: i128 = w as i128;
    proof {
        lemma_div_between(sum as int, w as int, i32::MIN as int, i32::MAX as int);
    }
    // sum == mean * width + rest, with 0 <= rest < width.
    let mean: i128 = floor_div(sum, width);
    assert(mean * width <= 0x8000_0000 * 0xffff_ffff_ffff_ffff && mean * width >= -0x8000_0000
        * 0xffff_ffff_ffff_ffff) by (nonlinear_arith)
        requires
            -0x8000_0000 <= mean <= 0x8000_0000,
            0 < width <= 0xffff_ffff_ffff_ffff,
    ;
    let rest: i128 = sum - mean * width;
    assert(0 <= rest < width) by (nonlinear_arith)
        requires
            rest == sum - mean * width,
            mean * width <= sum < (mean + 1) * width,
    ;
    assert(-0x8000_0000_0000_0000_0000_0000 <= sum <= 0x8000_0000_0000_0000_0000_0000)
        by (nonlinear_arith)
        requires
            width * (-0x8000_0000) <= sum <= width * 0x7fff_ffff,
            0 < width <= 0xffff_ffff_ffff_ffff,
    ;
    // The squares of the prices less the mean: squares - 2 * mean * sum
    // + width * mean * mean, which is squares - mean * (sum + rest).
    let twice: i128 = sum + rest;
    assert(-0x4000_0000_8000_0000_0000_0000_0000_0000 <= mean * twice
        <= 0x4000_0000_8000_0000_0000_0000_0000_0000) by (nonlinear_arith)
        requires
            -0x8000_0000 <= mean <= 0x8000_0000,
            -0x8000_0001_0000_0000_0000_0000 <= twice <= 0x8000_0001_0000_0000_0000_0000,
    ;
    let cross: i128 = mean * twice;
    let ghost centred: int = squares - cross;
    assert(num == width * centred - rest * rest) by (nonlinear_arith)
        requires
            num == width * squares - sum * sum,
            centred == squares - mean * (sum + rest),
            rest == sum - mean * width,
    ;
    assert(num <= width * squares) by (nonlinear_arith)
        requires
            num == width * squares - sum * sum,
    ;
    assert(0 <= centred < squares + width) by (nonlinear_arith)
        requires
            num == width * centred - rest * rest,
            0 <= num <= width * squares,
            0 <= rest < width,
            0 < width,
    ;
    let centred_squares: i128 = squares - cross;
    // rest * rest / width, rounded up.
    let rest_wide: u128 = rest as u128;
    let width_wide: u128 = w as u128;
    assert(rest_wide * rest_wide <= 0xffff_ffff_ffff_fffe * 0xffff_ffff_ffff_fffe)
        by (nonlinear_arith)
        requires
            0 <= rest_wide <= 0xffff_ffff_ffff_fffe,
    ;
    let rest_square: u128 = rest_wide * rest_wide;
    let whole: u128 = rest_square / width_wide;
    let carry: u128 = if rest_square % width_wide == 0 {
        whole
    } else {
        whole + 1
    };
    proof {
        lemma_fundamental_div_mod(rest_square as int, width_wide as int);
        lemma_mod_bound(rest_square as int, width_wide as int);
    }
    assert(rest * rest <= carry * width < rest * rest + width) by (nonlinear_arith)
        requires
            rest_square == rest * rest,
            rest_square == width * whole + (rest_square % width_wide),
            0 <= (rest_square % width_wide) < width,
            carry == if rest_square % width_wide == 0 {
                whole as int
            } else {
                whole + 1
            },
    ;
    assert(carry <= centred && carry <= rest) by (nonlinear_arith)
        requires
            rest * rest <= carry * width < rest * rest + width,
            num == width * centred - rest * rest,
            0 <= num,
            0 <= rest < width,
            0 <= carry,
    ;
    // (width * centred_squares - rest * rest) / (width * width), rounded
    // down, one division by width at a time.
    let above: i128 = centred_squares - carry as i128;
    let variance: i128 = above / width;
    proof {
        lemma_fundamental_div_mod(above as int, width as int);
        lemma_mod_bound(above as int, width as int);
        let slack = above as int % width as int;
        assert(variance * (width * width) <= num < (variance + 1) * (width * width))
            by (nonlinear_arith)
            requires
                above == width * variance + slack,
                0 <= slack < width,
                above == centred - carry,
                num == width * centred - rest * rest,
                rest * rest <= carry * width < rest * rest + width,
                0 < width,
        ;
        assert(width * width > 0) by (nonlinear_arith)
            requires
                width > 0,
        ;
        lemma_div_unique(num, width * width, variance as int);
        assert(num <= (width * width) * square_max()) by (nonlinear_arith)
            requires
                num == width * squares - sum * sum,
                0 <= squares <= width * square_max(),
                0 < width,
        ;
        lemma_div_between(num, width * width, 0, square_max());
    }
    let deviation: u32 = isqrt(variance as u64);
    proof {
        if deviation > 0x8000_0000 {
            lemma_square_monotonic(0x8000_0001, deviation as int);
        }
    }
    (mean as i32, deviation)
}

} // verus!
