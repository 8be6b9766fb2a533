//! Buy once and hold: the baseline that other strategies are measured
//! against.
use crate::backtest::{stepped, BacktestError};
use crate::broker::Broker;
use crate::model::BrokerModel;
use crate::strategy::{Strategy, StrategyError};
use crate::types::{
    Order, OrderExecutionStrategy, OrderId, OrderModel, OrderSide, OrderType, Ticker, Timestamp,
};
use vstd::prelude::*;

verus! {

/// The id of the one order that the strategy submits.
pub const BUY_AND_HOLD_ORDER_ID: OrderId = 0;

/// The quantity that the strategy buys: a hundred shares.
pub const BUY_AND_HOLD_QUANTITY: u64 = 100_000_000;

/// The order that the strategy submits at the time of its first tick: a
/// market buy of a hundred shares of AAPL, good till cancelled.
pub open spec fn buy_and_hold_order(datetime: Timestamp) -> OrderModel {
    OrderModel {
        symbol: "AAPL"@,
        quantity: BUY_AND_HOLD_QUANTITY as nat,
        side: OrderSide::Buy,
        order_type: OrderType::Market,
        datetime,
        execution: OrderExecutionStrategy::GTC,
        on_execute: Seq::empty(),
        on_cancel: Seq::empty(),
    }
}

/// Buys at the first tick and holds to the end.
#[derive(Debug, Clone, Copy, PartialEq, Eq, Structural)]
pub struct BuyAndHold {
    bought: bool,
}

impl View for BuyAndHold {
    /// Whether the order has been submitted.
    type V = bool;

    closed spec fn view(&self) -> bool {
        self.bought
    }
}

impl Default for BuyAndHold {
    fn default() -> (strategy: BuyAndHold)
        ensures
            !strategy@,
    {
        BuyAndHold { bought: false }
    }
}

impl BuyAndHold {
    /// Whether the order has been submitted.
    pub fn has_bought(&self) -> (bought: bool)
        ensures
            bought == self@,
    {
        self.bought
    }
}

impl Strategy for BuyAndHold {
    /// The strategy has nothing to prepare.
    open spec fn prepared(
        before: Self,
        broker: BrokerModel,
        after: Self,
        opened: BrokerModel,
        res: Result<(), StrategyError>,
    ) -> bool {
        after == before && opened == broker && res is Ok
    }

    /// At its first tick the strategy submits its order; after that it does
    /// nothing. It never fails.
    open spec fn ticked(
        before: Self,
        ticker: Ticker,
        broker: BrokerModel,
        after: Self,
        traded: BrokerModel,
        res: Result<(), StrategyError>,
    ) -> bool {
        &&& after@
        &&& res is Ok
        &&& traded == if before@ {
            broker
        } else {
            broker.submit(BUY_AND_HOLD_ORDER_ID, buy_and_hold_order(ticker.datetime))
        }
    }

    fn prepare(&mut self, broker: &mut Broker) -> (res: Result<(), StrategyError>) {
        Ok(())
    }

    fn on_ticker(&mut self, ticker: &Ticker, broker: &mut Broker) -> (res: Result<
        (),
        StrategyError,
    >) {
        if !self.bought {
            self.bought = true;
            let order = Order {
                symbol: "AAPL".to_owned(),
                quantity: BUY_AND_HOLD_QUANTITY,
                side: OrderSide::Buy,
                order_type: OrderType::Market,
                datetime: ticker.datetime,
                execution: OrderExecutionStrategy::GTC,
                on_execute: Vec::new(),
                on_cancel: Vec::new(),
            };
            assert(order@ == buy_and_hold_order(ticker.datetime));
            let _ = broker.submit_order(BUY_AND_HOLD_ORDER_ID, order);
        }
        Ok(())
    }
}

/// A step of a backtest of this strategy is a function of what it starts
/// from: a tick that the broker processes without failure is followed by the
/// strategy's one order, if it has not been submitted yet, and by nothing
/// else; the step does not fail.
pub proof fn law_buy_and_hold_step(
    before: BuyAndHold,
    broker: BrokerModel,
    tick: Ticker,
    after: BuyAndHold,
    traded: BrokerModel,
    res: Result<(), BacktestError>,
)
    requires
        stepped(before, broker, Some(tick), after, traded, res),
        broker.next(tick).1 is Ok,
    ensures
        res is Ok,
        after@,
        traded == if before@ {
            broker.next(tick).0
        } else {
            broker.next(tick).0.submit(BUY_AND_HOLD_ORDER_ID, buy_and_hold_order(tick.datetime))
        },
{
}

} // verus!
