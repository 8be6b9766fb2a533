//! Indicators: statistics of the market that are kept up to date tick by
//! tick.
use crate::types::Ticker;
use vstd::prelude::*;

pub mod effr;
pub mod moving_average;
pub mod rsi;
pub mod sma;

verus! {

/// Why an indicator has no value to give.
#[derive(Debug, Clone, Copy, PartialEq, Eq, Structural)]
pub enum IndicatorError {
    /// No value was computed at that step.
    IndexOutOfRange,
    /// Too few ticks have been seen.
    InsufficientData,
}

/// What an indicator gives: a value, or why there is none.
pub type IndicatorResult<T> = Result<T, IndicatorError>;

/// A statistic that is brought up to date with every tick.
pub trait Indicator {
    /// The type of the indicator's values.
    type Result;

    /// Takes the tick into account.
    fn update(&mut self, ticker: &Ticker) -> IndicatorResult<()>;

    /// The latest value.
    fn get_value(&self) -> IndicatorResult<Self::Result>;

    /// The value computed at the `index`'th step that gave one.
    fn at(&self, index: usize) -> IndicatorResult<Self::Result>;
}

} // verus!
