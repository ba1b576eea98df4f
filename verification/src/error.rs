//! What a computation can refuse.

use vstd::prelude::*;

verus! {

/// The reasons an indicator refuses its parameters.
#[derive(Clone, Copy, Debug, PartialEq, Eq)]
pub enum IndicatorError {
    /// A parameter has a value for which the indicator is undefined, such as
    /// an average over zero elements.
    InvalidParameter,
}

} // verus!
