//! The typical-price series of a run of bars.

use crate::bar::OhlcBar;
use vstd::prelude::*;

verus! {

/// Computes the typical price of every bar, in order.
pub fn compute(bars: &[OhlcBar]) -> (series: Vec<i32>)
    ensures
        series@.len() == bars@.len(),
        forall|i: int| 0 <= i < bars@.len() ==> series@[i] == (#[trigger] bars@[i]).typical(),
{
    let mut series: Vec<i32> = Vec::new();
    let mut i: usize = 0;
    while i < bars.len()
        invariant
            i <= bars@.len(),
            series@.len() == i,
            forall|j: int| 0 <= j < i ==> series@[j] == (#[trigger] bars@[j]).typical(),
        decreases bars@.len() - i,
    {
        series.push(bars[i].tp());
        i += 1;
    }
    series
}

} // verus!
