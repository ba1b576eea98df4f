//! The input record: one open/high/low/close bar.

use crate::arith::floor_div;
use vstd::prelude::*;

verus! {

/// One time interval of trading. Prices are in ticks, volumes in whatever
/// unit the feed counts them in.
///
/// Nothing here forces `low <= open, close <= high`; see
/// [`OhlcBar::well_ordered`] for the predicate and
/// [`OhlcBar::is_well_ordered`] for its run-time test.
#[derive(Clone, Copy, Debug, PartialEq, Eq)]
pub struct OhlcBar {
    pub timestamp: u64,
    pub open: i32,
    pub high: i32,
    pub low: i32,
    pub close: i32,
    pub volume_from: u64,
    pub volume_to: u64,
}

impl OhlcBar {
    /// The lower of open and close.
    pub open spec fn body_low(self) -> int {
        if self.open <= self.close {
            self.open as int
        } else {
            self.close as int
        }
    }

    /// The higher of open and close.
    pub open spec fn body_high(self) -> int {
        if self.open >= self.close {
            self.open as int
        } else {
            self.close as int
        }
    }

    /// The typical price `(high + low + close) / 3`, rounded down.
    pub open spec fn typical(self) -> int {
        (self.high + self.low + self.close) / 3
    }

    /// `low <= min(open, close) <= max(open, close) <= high`.
    pub open spec fn well_ordered(self) -> bool {
        self.low <= self.body_low() && self.body_high() <= self.high
    }

    /// Tests [`OhlcBar::well_ordered`].
    pub fn is_well_ordered(&self) -> (ok: bool)
        ensures
            ok == self.well_ordered(),
    {
        self.low <= self.open && self.low <= self.close && self.open <= self.high && self.close
            <= self.high
    }

    /// The typical price of this bar, rounded down to a whole tick.
    pub fn tp(&self) -> (price: i32)
        ensures
            price == self.typical(),
    {
        let total: i128 = self.high as i128 + self.low as i128 + self.close as i128;
        floor_div(total, 3) as i32
    }
}

/// The typical price lies between the lowest and the highest of the three
/// prices it averages.
pub proof fn lemma_typical_between(bar: OhlcBar)
    ensures
        bar.low <= bar.high && bar.low <= bar.close ==> bar.low <= bar.typical(),
        bar.low <= bar.high && bar.close <= bar.high ==> bar.typical() <= bar.high,
        i32::MIN <= bar.typical() <= i32::MAX,
{
}

} // verus!
