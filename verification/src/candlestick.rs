//! Candlestick geometry: one coloured box per bar.

use crate::bar::{lemma_typical_between, OhlcBar};
use vstd::prelude::*;

verus! {

/// How a bar closed against the bar before it.
#[derive(Clone, Copy, Debug, PartialEq, Eq)]
pub enum Color {
    /// The close is at or above the previous close.
    Up,
    /// The close is below the previous close.
    Down,
    /// There is no previous bar to compare with.
    Neutral,
}

/// The box drawn for one bar: whiskers at the low and the high, the body
/// between open and close, and the typical price as the middle line.
#[derive(Clone, Copy, Debug, PartialEq, Eq)]
pub struct BoxElement {
    /// Position of the bar in the input.
    pub index: usize,
    pub lower_whisker: i32,
    pub quartile1: i32,
    pub median: i32,
    pub quartile3: i32,
    pub upper_whisker: i32,
    pub color: Color,
}

/// The colour of bar `i`: the first bar is neutral, every later one is up
/// exactly when it closes no lower than its predecessor.
pub open spec fn color_at(bars: Seq<OhlcBar>, i: int) -> Color {
    if i <= 0 {
        Color::Neutral
    } else if bars[i].close >= bars[i - 1].close {
        Color::Up
    } else {
        Color::Down
    }
}

/// `element` is the box of bar `i`: whiskers at the low and the high, the
/// body from the lower to the higher of open and close, the typical price in
/// the middle, and the colour of [`color_at`].
pub open spec fn is_box_at(bars: Seq<OhlcBar>, i: int, element: BoxElement) -> bool {
    &&& element.index == i
    &&& element.lower_whisker == bars[i].low
    &&& element.quartile1 == bars[i].body_low()
    &&& element.median == bars[i].typical()
    &&& element.quartile3 == bars[i].body_high()
    &&& element.upper_whisker == bars[i].high
    &&& element.color == color_at(bars, i)
}

impl BoxElement {
    /// Whiskers, body and middle line stand in the order in which a box plot
    /// draws them.
    pub open spec fn ordered(self) -> bool {
        &&& self.lower_whisker <= self.quartile1 <= self.quartile3 <= self.upper_whisker
        &&& self.lower_whisker <= self.median <= self.upper_whisker
    }
}

/// A bar whose prices are in order gives a box whose parts are in order.
pub proof fn lemma_well_ordered_bar_gives_ordered_box(
    bars: Seq<OhlcBar>,
    i: int,
    element: BoxElement,
)
    requires
        0 <= i < bars.len(),
        bars[i].well_ordered(),
        is_box_at(bars, i, element),
    ensures
        element.ordered(),
{
    lemma_typical_between(bars[i]);
}

/// Builds the candlestick boxes of `bars`, one per bar and in the same order.
///
/// The first bar is kept and coloured [`Color::Neutral`]; each later bar is
/// [`Color::Up`] when its close is at or above the close before it and
/// [`Color::Down`] otherwise. No bars give no boxes.
pub fn build(bars: &[OhlcBar]) -> (boxes: Vec<BoxElement>)
    ensures
        boxes@.len() == bars@.len(),
        forall|i: int| 0 <= i < bars@.len() ==> is_box_at(bars@, i, #[trigger] boxes@[i]),
        bars@.len() > 0 ==> boxes@[0].color == Color::Neutral,
        forall|i: int|
            1 <= i < bars@.len() ==> ((#[trigger] boxes@[i]).color == Color::Up <==> bars@[i].close
                >= bars@[i - 1].close),
        forall|i: int|
            1 <= i < bars@.len() ==> ((#[trigger] boxes@[i]).color == Color::Down <==> bars@[i].close
                < bars@[i - 1].close),
{
    let mut boxes: Vec<BoxElement> = Vec::new();
    let mut i: usize = 0;
    while i < bars.len()
        invariant
            i <= bars@.len(),
            boxes@.len() == i,
            forall|j: int| 0 <= j < i ==> is_box_at(bars@, j, #[trigger] boxes@[j]),
        decreases bars@.len() - i,
    {
        let bar: OhlcBar = bars[i];
        let color: Color = if i == 0 {
            Color::Neutral
        } else if bar.close >= bars[i - 1].close {
            Color::Up
        } else {
            Color::Down
        };
        let (quartile1, quartile3): (i32, i32) = if bar.open <= bar.close {
            (bar.open, bar.close)
        } else {
            (bar.close, bar.open)
        };
        boxes.push(
            BoxElement {
                index: i,
                lower_whisker: bar.low,
                quartile1,
                median: bar.tp(),
                quartile3,
                upper_whisker: bar.high,
                color,
            },
        );
        i += 1;
    }
    boxes
}

} // verus!
