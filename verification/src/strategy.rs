//! Strategies: what decides, tick by tick, which orders go to the broker.
use crate::broker::Broker;
use crate::model::BrokerModel;
use crate::types::{BrokerError, Ticker};
use vstd::prelude::*;

pub mod buy_and_hold;
pub mod effr_trading;
pub mod sma_crossover;

verus! {

/// What can go wrong inside a strategy.
#[derive(Debug, Clone, Copy, PartialEq, Eq, Structural)]
pub enum StrategyError {
    /// The broker failed while it carried out what the strategy asked for.
    BrokerError(BrokerError),
    /// The strategy has used up the ids that it gives to its orders.
    OrderIdsExhausted,
    /// The size of an order could not be worked out within the range of the
    /// integers that hold the numbers.
    SizeOutOfRange,
}

impl From<BrokerError> for StrategyError {
    fn from(err: BrokerError) -> (error: StrategyError)
        ensures
            error == StrategyError::BrokerError(err),
    {
        StrategyError::BrokerError(err)
    }
}

impl vstd::std_specs::convert::FromSpecImpl<BrokerError> for StrategyError {
    open spec fn obeys_from_spec() -> bool {
        true
    }

    open spec fn from_spec(err: BrokerError) -> StrategyError {
        StrategyError::BrokerError(err)
    }
}

/// A strategy sees every tick after the broker has processed it, and reaches
/// the account only through the broker's operations.
///
/// A strategy may say what its calls do, by the two relations below, and the
/// contracts of a backtest then speak through them. A strategy that says
/// nothing may do anything.
pub trait Strategy: Sized {
    /// What `prepare` may make of the strategy and of the broker: it may take
    /// `before` and a broker in the state `broker` to `after` and `opened`
    /// and end with `res`.
    open spec fn prepared(
        before: Self,
        broker: BrokerModel,
        after: Self,
        opened: BrokerModel,
        res: Result<(), StrategyError>,
    ) -> bool {
        true
    }

    /// What `on_ticker` may make of the strategy and of the broker at a
    /// tick: it may take `before` and a broker in the state `broker` to
    /// `after` and `traded` and end with `res`.
    open spec fn ticked(
        before: Self,
        ticker: Ticker,
        broker: BrokerModel,
        after: Self,
        traded: BrokerModel,
        res: Result<(), StrategyError>,
    ) -> bool {
        true
    }

    /// Called once, before the first tick.
    fn prepare(&mut self, broker: &mut Broker) -> (res: Result<(), StrategyError>)
        ensures
            Self::prepared(*old(self), old(broker)@, *final(self), final(broker)@, res),
    ;

    /// Called for each tick, once the broker has processed it.
    fn on_ticker(&mut self, ticker: &Ticker, broker: &mut Broker) -> (res: Result<
        (),
        StrategyError,
    >)
        ensures
            Self::ticked(*old(self), *ticker, old(broker)@, *final(self), final(broker)@, res),
    ;
}

} // verus!
