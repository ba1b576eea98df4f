//! How many bars of the data set are on view.

use vstd::prelude::*;

verus! {

/// The number of bars on view once `step` more are asked for: `points + step`
/// where that is a number a `usize` can hold, and otherwise all `available`
/// bars.
pub open spec fn points_after_adding(points: usize, step: usize, available: usize) -> int {
    if points + step <= usize::MAX {
        points + step
    } else {
        available as int
    }
}

/// The number of bars on view once `step` fewer are asked for: `points - step`,
/// or none where there are not that many.
pub open spec fn points_after_subtracting(points: usize, step: usize) -> int {
    if points >= step {
        points - step
    } else {
        0
    }
}

/// Widens the view by `step` bars.
pub fn add_points(points: usize, step: usize, available: usize) -> (widened: usize)
    ensures
        widened == points_after_adding(points, step, available),
{
    match points.checked_add(step) {
        Some(sum) => sum,
        None => available,
    }
}

/// Narrows the view by `step` bars.
pub fn subtract_points(points: usize, step: usize) -> (narrowed: usize)
    ensures
        narrowed == points_after_subtracting(points, step),
{
    match points.checked_sub(step) {
        Some(difference) => difference,
        None => 0,
    }
}

} // verus!
