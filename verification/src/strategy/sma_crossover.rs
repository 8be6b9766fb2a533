//! Trades the crossings of the closing price and its moving average.
use crate::broker::Broker;
use crate::indicators::sma::{SmaModel, SMA};
use crate::indicators::Indicator;
use crate::model::BrokerModel;
use crate::strategy::{Strategy, StrategyError};
use crate::types::{
    Order, OrderExecutionStrategy, OrderId, OrderModel, OrderSide, OrderType, Ticker, Timestamp,
};
use vstd::prelude::*;

verus! {

/// The quantity of every order of the strategy: a hundred shares.
pub const CROSSOVER_QUANTITY: u64 = 100_000_000;

/// Model of the crossover strategy.
pub struct CrossoverModel {
    /// The id that the next order gets.
    pub order_id: OrderId,
    /// The average at the last tick that had one; zero before the first.
    pub previous_sma: i64,
    /// The tick before this one.
    pub previous: Option<Ticker>,
    /// The moving average.
    pub sma: SmaModel,
}

/// The order that the strategy submits for a crossing: a market order for a
/// hundred shares of AAPL on that side, good till cancelled.
pub open spec fn crossover_order(side: OrderSide, datetime: Timestamp) -> OrderModel {
    OrderModel {
        symbol: "AAPL"@,
        quantity: CROSSOVER_QUANTITY as nat,
        side,
        order_type: OrderType::Market,
        datetime,
        execution: OrderExecutionStrategy::GTC,
        on_execute: Seq::empty(),
        on_cancel: Seq::empty(),
    }
}

/// Which way the strategy trades at a tick, if at all. It buys when the
/// average is above the close after having been below the close of the tick
/// before, and sells when the average is below the close after having been
/// above. Without a tick before there is no crossing.
pub open spec fn crossing(sma: i64, close: i64, previous_sma: i64, previous: Option<Ticker>) -> Option<
    OrderSide,
> {
    match previous {
        None => None,
        Some(before) => if sma > close && previous_sma < before.close {
            Some(OrderSide::Buy)
        } else if sma < close && previous_sma > before.close {
            Some(OrderSide::Sell)
        } else {
            None
        },
    }
}

/// Whether the strategy trades at a tick, and which way.
pub fn detect_crossing(sma: i64, close: i64, previous_sma: i64, previous: &Option<Ticker>) -> (side:
    Option<OrderSide>)
    ensures
        side == crossing(sma, close, previous_sma, *previous),
{
    match previous {
        None => None,
        Some(before) => {
            if sma > close && previous_sma < before.close {
                Some(OrderSide::Buy)
            } else if sma < close && previous_sma > before.close {
                Some(OrderSide::Sell)
            } else {
                None
            }
        },
    }
}

/// Follows a simple moving average of the close, and trades a hundred shares
/// whenever price and average cross.
#[derive(Debug, Clone)]
pub struct SMACrossover {
    order_id: OrderId,
    previous_sma: i64,
    previous_ticker: Option<Ticker>,
    sma_indicator: SMA,
}

impl View for SMACrossover {
    type V = CrossoverModel;

    closed spec fn view(&self) -> CrossoverModel {
        CrossoverModel {
            order_id: self.order_id,
            previous_sma: self.previous_sma,
            previous: self.previous_ticker,
            sma: self.sma_indicator@,
        }
    }
}

impl CrossoverModel {
    /// The strategy as it starts, with an average over `period` ticks.
    pub open spec fn starting(period: nat) -> CrossoverModel {
        CrossoverModel {
            order_id: 0,
            previous_sma: 0,
            previous: None,
            sma: SmaModel { period, ticks: Seq::empty(), values: Seq::empty() },
        }
    }
}

impl Default for SMACrossover {
    /// The strategy with an average over ten ticks.
    fn default() -> (strategy: SMACrossover)
        ensures
            strategy@ == CrossoverModel::starting(10),
    {
        SMACrossover::new(10)
    }
}

impl SMACrossover {
    /// The strategy with an average over `period` ticks.
    pub fn new(period: u32) -> (strategy: SMACrossover)
        ensures
            strategy@ == CrossoverModel::starting(period as nat),
    {
        SMACrossover {
            order_id: 0,
            previous_sma: 0,
            previous_ticker: None,
            sma_indicator: SMA::new(period),
        }
    }

    /// The same strategy, with its next order under that id. Strategies that
    /// share a broker keep apart by the ids that they start at.
    pub fn starting_at(self, order_id: OrderId) -> (strategy: SMACrossover)
        ensures
            strategy@ == (CrossoverModel { order_id, ..self@ }),
    {
        SMACrossover {
            order_id,
            previous_sma: self.previous_sma,
            previous_ticker: self.previous_ticker,
            sma_indicator: self.sma_indicator,
        }
    }

    /// The id that the next order gets: the number of orders submitted so
    /// far, for a strategy that started at nothing.
    pub fn orders_submitted(&self) -> (count: OrderId)
        ensures
            count == self@.order_id,
    {
        self.order_id
    }
}

impl CrossoverModel {
    /// The strategy and the broker after a tick, and how the call ends. The
    /// average takes the tick in. Where it has a value and price and average
    /// cross, an order goes to the broker under the next id; where the ids
    /// are used up, the call fails instead and submits nothing. The
    /// average's value and the tick are remembered for the next call.
    pub open spec fn ticked(self, ticker: Ticker, broker: BrokerModel) -> (
        CrossoverModel,
        BrokerModel,
        Result<(), StrategyError>,
    ) {
        let sma = self.sma.update(ticker.close);
        if sma.values.len() == 0 {
            (CrossoverModel { sma, previous: Some(ticker), ..self }, broker, Ok(()))
        } else {
            let value = sma.values.last();
            let seen = CrossoverModel { sma, previous_sma: value, previous: Some(ticker), ..self };
            match crossing(value, ticker.close, self.previous_sma, self.previous) {
                None => (seen, broker, Ok(())),
                Some(side) => if self.order_id == usize::MAX {
                    (seen, broker, Err(StrategyError::OrderIdsExhausted))
                } else {
                    (
                        CrossoverModel { order_id: (self.order_id + 1) as usize, ..seen },
                        broker.submit(self.order_id, crossover_order(side, ticker.datetime)),
                        Ok(()),
                    )
                },
            }
        }
    }
}

impl Strategy for SMACrossover {
    /// The strategy has nothing to prepare.
    open spec fn prepared(
        before: Self,
        broker: BrokerModel,
        after: Self,
        opened: BrokerModel,
        res: Result<(), StrategyError>,
    ) -> bool {
        after == before && opened == broker && res is Ok
    }

    /// What a tick makes of the strategy and of the broker is a function of
    /// the two and the tick.
    open spec fn ticked(
        before: Self,
        ticker: Ticker,
        broker: BrokerModel,
        after: Self,
        traded: BrokerModel,
        res: Result<(), StrategyError>,
    ) -> bool {
        (after@, traded, res) == before@.ticked(ticker, broker)
    }

    fn prepare(&mut self, broker: &mut Broker) -> (res: Result<(), StrategyError>) {
        Ok(())
    }

    fn on_ticker(&mut self, ticker: &Ticker, broker: &mut Broker) -> (res: Result<
        (),
        StrategyError,
    >) {
        let _ = self.sma_indicator.update(ticker);
        let mut res: Result<(), StrategyError> = Ok(());
        match self.sma_indicator.get_value() {
            Ok(sma) => {
                match detect_crossing(sma, ticker.close, self.previous_sma, &self.previous_ticker) {
                    Some(side) => {
                        if self.order_id == usize::MAX {
                            res = Err(StrategyError::OrderIdsExhausted);
                        } else {
                            let order = Order {
                                symbol: "AAPL".to_owned(),
                                quantity: CROSSOVER_QUANTITY,
                                side,
                                order_type: OrderType::Market,
                                datetime: ticker.datetime,
                                execution: OrderExecutionStrategy::GTC,
                                on_execute: Vec::new(),
                                on_cancel: Vec::new(),
                            };
                            assert(order@ == crossover_order(side, ticker.datetime));
                            let _ = broker.submit_order(self.order_id, order);
                            self.order_id = self.order_id + 1;
                        }
                    },
                    None => {},
                }
                self.previous_sma = sma;
            },
            Err(_) => {},
        }
        self.previous_ticker = Some(*ticker);
        res
    }
}

} // verus!
