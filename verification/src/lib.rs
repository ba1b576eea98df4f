//! Indicator computations for OHLC candlestick charts, carried out exactly on
//! fixed-point prices.
//!
//! Every price is a signed count of ticks, the smallest price step a caller
//! cares to distinguish. All arithmetic is integer arithmetic: sums are exact,
//! quotients and square roots round towards negative infinity, and nothing
//! overflows for any input the types admit.
//!
//! The four indicators are independent, stateless functions of their input:
//!
//! - [`candlestick::build`] turns bars into coloured boxes;
//! - [`typical_price::compute`] turns bars into the typical-price series;
//! - [`rolling::rolling_mean`] is the simple moving average of a series;
//! - [`bollinger::bollinger`] is the envelope of mean plus and minus a
//!   multiple of the standard deviation.
//!
//! [`window`], [`deviation`], [`root`] and [`arith`] hold the mathematics the
//! contracts are stated in; [`points`] and [`viewport`] serve the chart that
//! shows the results.

pub mod arith;
pub mod bar;
pub mod bollinger;
pub mod candlestick;
pub mod deviation;
pub mod error;
pub mod points;
pub mod rolling;
pub mod root;
pub mod typical_price;
pub mod viewport;
pub mod window;

pub use bar::OhlcBar;
pub use bollinger::{bollinger, BandPoint, DEFAULT_NUM_STD_DEVS};
pub use candlestick::{build, BoxElement, Color};
pub use error::IndicatorError;
pub use points::{defined_points, SeriesPoint};
pub use rolling::rolling_mean;
