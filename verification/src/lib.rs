//! An order-execution engine for backtests: it replays recorded market data
//! tick by tick, matches the pending orders of a strategy against each tick,
//! and keeps the books of the account. Every rule is stated as a contract
//! over a mathematical model and proved.
//!
//! * [`types`] holds the values that flow through the engine, in fixed-point
//!   units, and their models.
//! * [`matching`] holds the rules that decide what a tick does to an order,
//!   [`clock`] the rule that tells the sessions apart.
//! * [`book`] and [`ledger`] hold the pending orders and the positions.
//! * [`model`] is the broker as a mathematical state, [`broker`] the broker
//!   itself, [`frame`] and [`laws`] what holds of it in every state.
//! * [`strategy`], [`indicators`] and [`backtest`] hold what runs on top of
//!   the broker; [`timeseries`], [`dates`] and [`util`] what names and reads
//!   its inputs.
pub mod arith;
pub mod backtest;
pub mod book;
pub mod broker;
pub mod clock;
pub mod dates;
pub mod frame;
pub mod indicators;
pub mod laws;
pub mod ledger;
pub mod matching;
pub mod model;
pub mod prelude;
pub mod strategy;
pub mod timeseries;
pub mod types;
pub mod util;
