use ohlc_indicators::error::IndicatorError;
use ohlc_indicators::points::{defined_points, SeriesPoint};
use ohlc_indicators::rolling::rolling_mean;

fn pseudo_random_series(len: usize, seed: u64) -> Vec<i32> {
    let mut state: u64 = seed;
    let mut series: Vec<i32> = Vec::with_capacity(len);
    for _ in 0..len {
        state = state.wrapping_mul(6364136223846793005).wrapping_add(1442695040888963407);
        series.push((state >> 32) as u32 as i32);
    }
    series
}

fn mean_summed_afresh(series: &[i32], window: usize, i: usize) -> i32 {
    let mut sum: i128 = 0;
    for x in &series[i + 1 - window..=i] {
        sum += *x as i128;
    }
    sum.div_euclid(window as i128) as i32
}

#[test]
fn window_of_three_over_one_to_five() {
    let series: Vec<i32> = vec![1, 2, 3, 4, 5];
    assert_eq!(rolling_mean(&series, 3), Ok(vec![None, None, Some(2), Some(3), Some(4)]));
}

#[test]
fn a_window_of_zero_is_refused() {
    let series: Vec<i32> = vec![1, 2, 3];
    assert_eq!(rolling_mean(&series, 0), Err(IndicatorError::InvalidParameter));
    let empty: Vec<i32> = Vec::new();
    assert_eq!(rolling_mean(&empty, 0), Err(IndicatorError::InvalidParameter));
}

#[test]
fn an_empty_series_has_an_empty_mean() {
    let empty: Vec<i32> = Vec::new();
    assert_eq!(rolling_mean(&empty, 4), Ok(Vec::new()));
}

#[test]
fn a_window_of_one_is_the_series() {
    let series: Vec<i32> = vec![7, -2, 0, i32::MAX, i32::MIN];
    let expected: Vec<Option<i32>> = series.iter().map(|x| Some(*x)).collect();
    assert_eq!(rolling_mean(&series, 1), Ok(expected));
}

#[test]
fn a_window_as_long_as_the_series_gives_one_mean() {
    let series: Vec<i32> = vec![2, 4, 9];
    assert_eq!(rolling_mean(&series, 3), Ok(vec![None, None, Some(5)]));
}

#[test]
fn a_window_longer_than_the_series_gives_no_mean() {
    let series: Vec<i32> = vec![2, 4, 9];
    assert_eq!(rolling_mean(&series, 4), Ok(vec![None, None, None]));
    assert_eq!(rolling_mean(&series, usize::MAX), Ok(vec![None, None, None]));
}

#[test]
fn gaps_come_first_and_only_there() {
    let series: Vec<i32> = pseudo_random_series(40, 3);
    for window in 1..=series.len() {
        let means: Vec<Option<i32>> = rolling_mean(&series, window).unwrap();
        assert_eq!(means.len(), series.len());
        for i in 0..series.len() {
            assert_eq!(means[i].is_none(), i + 1 < window);
        }
    }
}

#[test]
fn a_constant_series_has_a_constant_mean() {
    for n in 1..30usize {
        let series: Vec<i32> = vec![5; n];
        for window in 1..=n {
            let means: Vec<Option<i32>> = rolling_mean(&series, window).unwrap();
            for i in window - 1..n {
                assert_eq!(means[i], Some(5));
            }
        }
    }
    let low: Vec<i32> = vec![i32::MIN; 9];
    assert_eq!(rolling_mean(&low, 4).unwrap()[8], Some(i32::MIN));
    let high: Vec<i32> = vec![i32::MAX; 9];
    assert_eq!(rolling_mean(&high, 9).unwrap()[8], Some(i32::MAX));
}

#[test]
fn means_round_down() {
    let series: Vec<i32> = vec![1, 2, -1, -2, -4];
    assert_eq!(rolling_mean(&series, 2), Ok(vec![None, Some(1), Some(0), Some(-2), Some(-3)]));
}

#[test]
fn the_running_sum_agrees_with_the_sum_taken_afresh() {
    let series: Vec<i32> = pseudo_random_series(10_000, 42);
    for window in [1usize, 2, 3, 20, 50, 200, 9_999, 10_000] {
        let means: Vec<Option<i32>> = rolling_mean(&series, window).unwrap();
        for i in window - 1..series.len() {
            assert_eq!(means[i], Some(mean_summed_afresh(&series, window, i)));
        }
    }
}

#[test]
fn the_running_sum_agrees_within_a_relative_tolerance() {
    let series: Vec<i32> = pseudo_random_series(10_000, 7);
    let window: usize = 20;
    let means: Vec<Option<i32>> = rolling_mean(&series, window).unwrap();
    for i in window - 1..series.len() {
        let direct: f64 =
            series[i + 1 - window..=i].iter().map(|x| *x as f64).sum::<f64>() / window as f64;
        let kept: f64 = means[i].unwrap() as f64;
        assert!(kept <= direct && direct - kept < 1.0);
        assert!((direct.floor() - kept).abs() <= 1e-9 * direct.abs().max(1.0));
    }
}

#[test]
fn defined_points_skip_the_gaps() {
    let series: Vec<Option<i32>> = vec![None, Some(4), None, None, Some(-1), Some(0)];
    assert_eq!(
        defined_points(&series),
        vec![
            SeriesPoint { index: 1, value: 4 },
            SeriesPoint { index: 4, value: -1 },
            SeriesPoint { index: 5, value: 0 },
        ]
    );
    let gaps: Vec<Option<i32>> = vec![None, None];
    assert!(defined_points(&gaps).is_empty());
    let empty: Vec<Option<i32>> = Vec::new();
    assert!(defined_points(&empty).is_empty());
}

#[test]
fn the_points_of_a_rolling_mean_start_where_the_window_is_full() {
    let series: Vec<i32> = vec![1, 2, 3, 4, 5];
    let means: Vec<Option<i32>> = rolling_mean(&series, 3).unwrap();
    assert_eq!(
        defined_points(&means),
        vec![
            SeriesPoint { index: 2, value: 2 },
            SeriesPoint { index: 3, value: 3 },
            SeriesPoint { index: 4, value: 4 },
        ]
    );
}
