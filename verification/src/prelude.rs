//! The names that a strategy and its backtest need, in one place.
pub use crate::backtest::{Backtest, BacktestBuilder, BacktestError, BacktestResult};
pub use crate::broker::{Broker, ConfigError};
pub use crate::indicators::effr::{DFF, EFFR};
pub use crate::indicators::rsi::RSI;
pub use crate::indicators::sma::SMA;
pub use crate::indicators::{Indicator, IndicatorError, IndicatorResult};
pub use crate::strategy::buy_and_hold::BuyAndHold;
pub use crate::strategy::effr_trading::EFFRTrading;
pub use crate::strategy::sma_crossover::SMACrossover;
pub use crate::strategy::{Strategy, StrategyError};
pub use crate::timeseries::TimeSeries;
pub use crate::types::{
    BrokerError, CanceledOrder, ContingentAction, Order, OrderExecutionStrategy, OrderId,
    OrderSide, OrderType, Position, Ticker, Timestamp, Trade, CASH_SCALE, POSITION_EPSILON,
    PRICE_SCALE, QUANTITY_SCALE, RATE_SCALE,
};
