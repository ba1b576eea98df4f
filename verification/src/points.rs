//! The plottable points of a series with gaps.

use crate::rolling::{is_rolling_mean_at, mean_at};
use vstd::prelude::*;

verus! {

/// A value together with its position in the series it came from.
#[derive(Clone, Copy, Debug, PartialEq, Eq)]
pub struct SeriesPoint {
    pub index: usize,
    pub value: i32,
}

/// The points of the first `n` entries of `s`: one for each entry that holds
/// a value, in order of index.
pub open spec fn defined_prefix(s: Seq<Option<i32>>, n: int) -> Seq<SeriesPoint>
    decreases n,
{
    if n <= 0 {
        Seq::empty()
    } else {
        match s[n - 1] {
            Some(value) => defined_prefix(s, n - 1).push(
                SeriesPoint { index: (n - 1) as usize, value },
            ),
            None => defined_prefix(s, n - 1),
        }
    }
}

/// The points of a rolling mean: none while the window is not full, and from
/// then on one per index, so that point `j` sits at index `j + w - 1` and
/// holds the mean of the window that ends there.
pub proof fn lemma_defined_prefix_of_rolling_mean(
    s: Seq<i32>,
    w: int,
    means: Seq<Option<i32>>,
    n: int,
)
    requires
        0 < w,
        0 <= n <= means.len(),
        n <= usize::MAX,
        forall|i: int| 0 <= i < n ==> is_rolling_mean_at(s, w, i, #[trigger] means[i]),
    ensures
        defined_prefix(means, n).len() == if n >= w {
            n - w + 1
        } else {
            0
        },
        forall|j: int|
            0 <= j < defined_prefix(means, n).len() ==> {
                &&& (#[trigger] defined_prefix(means, n)[j]).index == j + w - 1
                &&& defined_prefix(means, n)[j].value == mean_at(s, w, j + w - 1)
            },
    decreases n,
{
    if n > 0 {
        lemma_defined_prefix_of_rolling_mean(s, w, means, n - 1);
        assert(is_rolling_mean_at(s, w, n - 1, means[n - 1]));
    }
}

/// Collects the entries of `series` that hold a value, each with its index,
/// in order.
pub fn defined_points(series: &[Option<i32>]) -> (points: Vec<SeriesPoint>)
    ensures
        points@ == defined_prefix(series@, series@.len() as int),
{
    let mut points: Vec<SeriesPoint> = Vec::new();
    let mut i: usize = 0;
    while i < series.len()
        invariant
            i <= series@.len(),
            points@ == defined_prefix(series@, i as int),
        decreases series@.len() - i,
    {
        match series[i] {
            Some(value) => {
                points.push(SeriesPoint { index: i, value });
            },
            None => {},
        }
        i += 1;
    }
    points
}

} // verus!
