use ohlc_indicators::bollinger::{bollinger, BandPoint, DEFAULT_NUM_STD_DEVS};
use ohlc_indicators::rolling::rolling_mean;

fn scattered_series(len: usize, seed: u64, spread: i64) -> Vec<i32> {
    let mut state: u64 = seed;
    let mut series: Vec<i32> = Vec::with_capacity(len);
    for _ in 0..len {
        state = state.wrapping_mul(6364136223846793005).wrapping_add(1442695040888963407);
        let draw: i64 = ((state >> 33) as i64) % (2 * spread + 1) - spread;
        series.push(draw as i32);
    }
    series
}

/// `w * w * w` times the variance of `window`, from the definition.
fn scaled_variance(window: &[i32]) -> i128 {
    let w: i128 = window.len() as i128;
    let sum: i128 = window.iter().map(|x| *x as i128).sum();
    let mut total: i128 = 0;
    for x in window {
        let deviation: i128 = w * *x as i128 - sum;
        total += deviation * deviation;
    }
    total
}

fn is_rounded_down_deviation(window: &[i32], d: i128) -> bool {
    let w: i128 = window.len() as i128;
    let cube: i128 = w * w * w;
    let scaled: i128 = scaled_variance(window);
    d >= 0 && d * d * cube <= scaled && scaled < (d + 1) * (d + 1) * cube
}

#[test]
fn bands_of_a_textbook_window() {
    // Mean 5, population variance 4, standard deviation 2.
    let series: Vec<i32> = vec![2, 4, 4, 4, 5, 5, 7, 9];
    assert_eq!(bollinger(&series, 8, 2), vec![BandPoint { index: 7, upper: 9, lower: 1 }]);
    assert_eq!(bollinger(&series, 8, 0), vec![BandPoint { index: 7, upper: 5, lower: 5 }]);
    assert_eq!(bollinger(&series, 8, 3), vec![BandPoint { index: 7, upper: 11, lower: -1 }]);
}

#[test]
fn bands_slide_with_the_window() {
    let series: Vec<i32> = vec![1, 3, 3, 11, 1];
    // Windows [1, 3], [3, 3], [3, 11], [11, 1]: means 2, 3, 7, 6; deviations 1, 0, 4, 5.
    assert_eq!(
        bollinger(&series, 2, DEFAULT_NUM_STD_DEVS),
        vec![
            BandPoint { index: 1, upper: 4, lower: 0 },
            BandPoint { index: 2, upper: 3, lower: 3 },
            BandPoint { index: 3, upper: 15, lower: -1 },
            BandPoint { index: 4, upper: 16, lower: -4 },
        ]
    );
}

#[test]
fn the_deviation_rounds_down() {
    // Mean 2, variance 2 / 3: the deviation is below one tick.
    let flat: Vec<i32> = vec![1, 2, 3];
    assert_eq!(bollinger(&flat, 3, 2), vec![BandPoint { index: 2, upper: 2, lower: 2 }]);
    // Mean 10 / 3 rounds down to 3; variance 98 / 9 has a root between 3 and 4.
    let skewed: Vec<i32> = vec![0, 2, 8];
    assert_eq!(bollinger(&skewed, 3, 1), vec![BandPoint { index: 2, upper: 6, lower: 0 }]);
}

#[test]
fn the_default_is_two_deviations() {
    assert_eq!(DEFAULT_NUM_STD_DEVS, 2);
}

#[test]
fn no_bands_without_a_full_window() {
    let series: Vec<i32> = vec![2, 4, 4];
    assert!(bollinger(&series, 0, 2).is_empty());
    assert!(bollinger(&series, 4, 2).is_empty());
    assert!(bollinger(&series, usize::MAX, 2).is_empty());
    let empty: Vec<i32> = Vec::new();
    assert!(bollinger(&empty, 0, 2).is_empty());
    assert!(bollinger(&empty, 1, 2).is_empty());
}

#[test]
fn a_window_of_one_has_no_spread() {
    let series: Vec<i32> = vec![7, -2, i32::MAX, i32::MIN];
    let bands: Vec<BandPoint> = bollinger(&series, 1, 9);
    assert_eq!(bands.len(), 4);
    for (i, point) in bands.iter().enumerate() {
        assert_eq!(*point, BandPoint { index: i, upper: series[i] as i64, lower: series[i] as i64 });
    }
}

#[test]
fn points_come_only_where_a_window_ends() {
    let series: Vec<i32> = scattered_series(60, 11, 1_000);
    for window in 1..=series.len() {
        let bands: Vec<BandPoint> = bollinger(&series, window, 2);
        assert_eq!(bands.len(), series.len() - window + 1);
        for (j, point) in bands.iter().enumerate() {
            assert_eq!(point.index, j + window - 1);
            assert!(point.index >= window - 1);
        }
    }
}

#[test]
fn the_bands_are_twice_the_reach_apart() {
    let series: Vec<i32> = scattered_series(300, 5, 50_000);
    for window in [2usize, 3, 10, 20, 200] {
        for k in [0u16, 1, 2, 3, 1_000] {
            let bands: Vec<BandPoint> = bollinger(&series, window, k);
            let means: Vec<Option<i32>> = rolling_mean(&series, window).unwrap();
            for point in &bands {
                let mean: i64 = means[point.index].unwrap() as i64;
                let width: i64 = point.upper - point.lower;
                assert!(width >= 0);
                assert_eq!(point.upper - mean, mean - point.lower);
                if k > 0 {
                    assert_eq!(width % (2 * k as i64), 0);
                    let d: i128 = (width / (2 * k as i64)) as i128;
                    let at: usize = point.index;
                    assert!(is_rounded_down_deviation(&series[at + 1 - window..=at], d));
                } else {
                    assert_eq!(width, 0);
                }
            }
        }
    }
}

#[test]
fn the_middle_of_the_bands_is_the_rolling_mean() {
    let series: Vec<i32> = scattered_series(500, 99, i32::MAX as i64);
    for window in [1usize, 7, 20, 499, 500] {
        let bands: Vec<BandPoint> = bollinger(&series, window, 1);
        let means: Vec<Option<i32>> = rolling_mean(&series, window).unwrap();
        for point in &bands {
            let mean: i64 = means[point.index].unwrap() as i64;
            let d: i64 = point.upper - mean;
            assert_eq!(point.lower, mean - d);
            let at: usize = point.index;
            assert!(is_rounded_down_deviation(&series[at + 1 - window..=at], d as i128));
        }
    }
}

#[test]
fn the_widest_swings_do_not_overflow() {
    let mut series: Vec<i32> = Vec::new();
    for i in 0..64usize {
        series.push(if i % 2 == 0 { i32::MIN } else { i32::MAX });
    }
    // Half the window at either end of the range: mean -1 rounded down, deviation 2^31 - 1.
    assert_eq!(
        bollinger(&series, 64, u16::MAX)[0],
        BandPoint {
            index: 63,
            upper: -1 + 65_535 * 2_147_483_647,
            lower: -1 - 65_535 * 2_147_483_647,
        }
    );
    for window in 1..=64usize {
        for point in bollinger(&series, window, 1) {
            let at: usize = point.index;
            let d: i128 = ((point.upper - point.lower) / 2) as i128;
            assert!(is_rounded_down_deviation(&series[at + 1 - window..=at], d));
        }
    }
    let low: Vec<i32> = vec![i32::MIN; 33];
    assert_eq!(
        bollinger(&low, 33, 7),
        vec![BandPoint { index: 32, upper: i32::MIN as i64, lower: i32::MIN as i64 }]
    );
}

#[test]
fn a_constant_series_has_bands_of_no_width() {
    let series: Vec<i32> = vec![5; 40];
    for point in bollinger(&series, 20, 2) {
        assert_eq!((point.upper, point.lower), (5, 5));
    }
}
