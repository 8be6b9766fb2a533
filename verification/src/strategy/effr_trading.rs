//! Trades against the effective federal funds rate: the higher the rate, the
//! smaller the share of the capital that is to be held.
use crate::arith::div_floor;
use crate::broker::Broker;
use crate::indicators::effr::{EffrModel, EFFR};
use crate::indicators::Indicator;
use crate::model::BrokerModel;
use crate::strategy::{Strategy, StrategyError};
use crate::types::{
    Order, OrderExecutionStrategy, OrderId, OrderModel, OrderSide, OrderType, Ticker, Timestamp,
    QUANTITY_SCALE, RATE_SCALE,
};
use vstd::prelude::*;

verus! {

/// The share of the capital, in rate units, that is to be held at a rate:
/// the whole at the long threshold, minus the whole at the short threshold,
/// falling evenly in between, and never beyond the two. Where the
/// thresholds coincide, it is the whole unless the rate is above them.
pub open spec fn target_share(effr: int, long: int, short: int) -> int {
    let span = short - long;
    let slope = if span > 0 {
        RATE_SCALE - (2 * effr * RATE_SCALE) / span
    } else if span < 0 {
        RATE_SCALE - (-2 * effr * RATE_SCALE) / (-span)
    } else if effr > 0 {
        -RATE_SCALE as int
    } else {
        RATE_SCALE as int
    };
    if slope > RATE_SCALE {
        RATE_SCALE as int
    } else if slope < -RATE_SCALE {
        -RATE_SCALE as int
    } else {
        slope
    }
}

/// The share of the starting capital, in rate units, that is not in hand as
/// cash, rounded down.
pub open spec fn allocated_share(starting: int, available: int) -> int {
    ((starting - available) * RATE_SCALE) / starting
}

/// The value, in cash units, of the difference between the share that is
/// allocated and the share that is to be, rounded down.
pub open spec fn correction_value(starting: int, available: int, target: int) -> int {
    ((allocated_share(starting, available) - target) * starting) / (RATE_SCALE as int)
}

/// The whole shares that the value buys at the close, rounded down; negative
/// for shares to sell.
pub open spec fn correction_shares(value: int, close: int) -> int {
    value / (close * QUANTITY_SCALE)
}

/// The numbers that the allocated share is worked out from are within the
/// range of the integers that hold them.
pub open spec fn allocation_fits(starting: int, available: int) -> bool {
    &&& i128::MIN <= starting - available <= i128::MAX
    &&& i128::MIN <= (starting - available) * RATE_SCALE <= i128::MAX
}

/// The numbers that the sizing goes through are within the range of the
/// integers that hold them, and the size is a quantity.
pub open spec fn sizing_fits(starting: int, available: int, target: int, close: int) -> bool {
    let value = correction_value(starting, available, target);
    let shares = correction_shares(value, close);
    &&& allocation_fits(starting, available)
    &&& i128::MIN <= allocated_share(starting, available) - target <= i128::MAX
    &&& i128::MIN <= (allocated_share(starting, available) - target) * starting <= i128::MAX
    &&& -u64::MAX <= shares * QUANTITY_SCALE <= u64::MAX
}

/// What is to be ordered, if anything.
pub enum Sizing {
    /// There is nothing to size from: no capital, or no price.
    Nothing,
    /// The numbers are out of range.
    OutOfRange,
    /// An order of that quantity on that side.
    Order(OrderSide, u64),
}

/// What is to be ordered at a rate and a close. Nothing is, without starting
/// capital or a positive close. Otherwise the order corrects the difference
/// between the share allocated and the share to be: it buys the whole shares
/// that the difference is worth if that is positive, and sells as many as it
/// is negative (none, if it is nothing).
pub open spec fn sizing(
    starting: int,
    available: int,
    effr: int,
    long: int,
    short: int,
    close: int,
) -> Sizing {
    let target = target_share(effr, long, short);
    if starting <= 0 || close <= 0 {
        Sizing::Nothing
    } else if !sizing_fits(starting, available, target, close) {
        Sizing::OutOfRange
    } else {
        let shares = correction_shares(correction_value(starting, available, target), close);
        if shares > 0 {
            Sizing::Order(OrderSide::Buy, (shares * QUANTITY_SCALE) as u64)
        } else {
            Sizing::Order(OrderSide::Sell, (-shares * QUANTITY_SCALE) as u64)
        }
    }
}

/// The share of the capital that is to be held at a rate.
pub fn target_for(effr: i64, long: i64, short: i64) -> (target: i64)
    ensures
        target == target_share(effr as int, long as int, short as int),
        -RATE_SCALE <= target <= RATE_SCALE,
{
    let span: i128 = short as i128 - long as i128;
    assert(RATE_SCALE == 1_000_000);
    assert(2 * effr * RATE_SCALE == 2_000_000 * effr) by (nonlinear_arith)
        requires
            RATE_SCALE == 1_000_000,
    ;
    let twice: i128 = 2 * (effr as i128) * (RATE_SCALE as i128);
    let slope: i128 = if span > 0 {
        assert(-0x100_0000_0000_0000_0000_0000 <= twice / span <= 0x100_0000_0000_0000_0000_0000)
            by (nonlinear_arith)
            requires
                span > 0,
                -0x100_0000_0000_0000_0000_0000 <= twice <= 0x100_0000_0000_0000_0000_0000,
        ;
        RATE_SCALE as i128 - div_floor(twice, span)
    } else if span < 0 {
        assert(-0x100_0000_0000_0000_0000_0000 <= (-twice) / (-span)
            <= 0x100_0000_0000_0000_0000_0000) by (nonlinear_arith)
            requires
                span < 0,
                -0x100_0000_0000_0000_0000_0000 <= twice <= 0x100_0000_0000_0000_0000_0000,
        ;
        RATE_SCALE as i128 - div_floor(-twice, -span)
    } else if effr > 0 {
        -(RATE_SCALE as i128)
    } else {
        RATE_SCALE as i128
    };
    if slope > RATE_SCALE as i128 {
        RATE_SCALE
    } else if slope < -(RATE_SCALE as i128) {
        -RATE_SCALE
    } else {
        slope as i64
    }
}

/// What is to be ordered at a rate and a close.
pub fn size_order(
    starting: i128,
    available: i128,
    effr: i64,
    long: i64,
    short: i64,
    close: i64,
) -> (size: Sizing)
    ensures
        size == sizing(
            starting as int,
            available as int,
            effr as int,
            long as int,
            short as int,
            close as int,
        ),
{
    let target = target_for(effr, long, short);
    if starting <= 0 || close <= 0 {
        return Sizing::Nothing;
    }
    let allocated = match starting.checked_sub(available) {
        Some(spent) => match spent.checked_mul(RATE_SCALE as i128) {
            Some(scaled) => div_floor(scaled, starting),
            None => {
                return Sizing::OutOfRange;
            },
        },
        None => {
            return Sizing::OutOfRange;
        },
    };
    let value = match allocated.checked_sub(target as i128) {
        Some(difference) => match difference.checked_mul(starting) {
            Some(weighted) => div_floor(weighted, RATE_SCALE as i128),
            None => {
                return Sizing::OutOfRange;
            },
        },
        None => {
            return Sizing::OutOfRange;
        },
    };
    let share_price: i128 = close as i128 * QUANTITY_SCALE as i128;
    let shares = div_floor(value, share_price);
    let limit: i128 = (u64::MAX / QUANTITY_SCALE) as i128;
    assert(limit == 18_446_744_073_709);
    if shares > limit || shares < -limit {
        return Sizing::OutOfRange;
    }
    if shares > 0 {
        Sizing::Order(OrderSide::Buy, (shares * QUANTITY_SCALE as i128) as u64)
    } else {
        Sizing::Order(OrderSide::Sell, (-shares * QUANTITY_SCALE as i128) as u64)
    }
}

/// An update that reaches its tick leaves a rate in force.
pub proof fn lemma_reached_rate(effr: EffrModel, at: Timestamp)
    requires
        effr.reaches(at),
    ensures
        effr.update(at).current is Some,
    decreases effr.unread.len(),
{
    if effr.unread.len() > 0 {
        let rest = effr.unread.drop_first();
        match effr.unread[0] {
            None => {
                lemma_reached_rate(EffrModel { unread: rest, ..effr }, at);
            },
            Some(record) => {
                if record.date.instant() < at.instant() {
                    lemma_reached_rate(
                        EffrModel { previous: Some(record), unread: rest, ..effr },
                        at,
                    );
                }
            },
        }
    }
}

/// Model of the strategy.
pub struct EffrTradingModel {
    pub effr: EffrModel,
    /// The rate at which all capital is to be held, in rate units.
    pub long_threshold: i64,
    /// The rate at which all capital is to be sold short, in rate units.
    pub short_threshold: i64,
    /// The cash in hand when the strategy prepared.
    pub starting_capital: i128,
    /// The id that the next order gets.
    pub order_id: OrderId,
}

/// The order that the strategy submits: a market order for AAPL, good till
/// cancelled.
pub open spec fn effr_order(side: OrderSide, quantity: u64, datetime: Timestamp) -> OrderModel {
    OrderModel {
        symbol: "AAPL"@,
        quantity: quantity as nat,
        side,
        order_type: OrderType::Market,
        datetime,
        execution: OrderExecutionStrategy::GTC,
        on_execute: Seq::empty(),
        on_cancel: Seq::empty(),
    }
}

impl EffrTradingModel {
    /// The strategy and the broker after a tick, and how the call ends. The
    /// rate is read on to the tick. Where the series does not reach the
    /// tick, nothing else happens. Otherwise the order is sized from the
    /// rate in force and the cash in hand, and goes to the broker under the
    /// next id. The call fails, and submits nothing, where the numbers are
    /// out of range or the ids are used up.
    pub open spec fn ticked(self, ticker: Ticker, broker: BrokerModel) -> (
        EffrTradingModel,
        BrokerModel,
        Result<(), StrategyError>,
    ) {
        let read = EffrTradingModel { effr: self.effr.update(ticker.datetime), ..self };
        if !self.effr.reaches(ticker.datetime) {
            (read, broker, Ok(()))
        } else {
            match sizing(
                self.starting_capital as int,
                broker.cash,
                read.effr.current->0 as int,
                self.long_threshold as int,
                self.short_threshold as int,
                ticker.close as int,
            ) {
                Sizing::Nothing => (read, broker, Ok(())),
                Sizing::OutOfRange => (read, broker, Err(StrategyError::SizeOutOfRange)),
                Sizing::Order(side, quantity) => if self.order_id == usize::MAX {
                    (read, broker, Err(StrategyError::OrderIdsExhausted))
                } else {
                    (
                        EffrTradingModel { order_id: (self.order_id + 1) as usize, ..read },
                        broker.submit(self.order_id, effr_order(side, quantity, ticker.datetime)),
                        Ok(()),
                    )
                },
            }
        }
    }
}

/// Holds more of the capital the lower the effective federal funds rate is,
/// and goes short when it is high.
#[derive(Debug, Clone)]
pub struct EFFRTrading {
    effr: EFFR,
    long_threshold: i64,
    short_threshold: i64,
    starting_capital: i128,
    order_id: OrderId,
}

impl View for EFFRTrading {
    type V = EffrTradingModel;

    closed spec fn view(&self) -> EffrTradingModel {
        EffrTradingModel {
            effr: self.effr@,
            long_threshold: self.long_threshold,
            short_threshold: self.short_threshold,
            starting_capital: self.starting_capital,
            order_id: self.order_id,
        }
    }
}

impl EFFRTrading {
    /// The strategy over a series of rates, with the thresholds in rate
    /// units.
    pub fn new(effr: EFFR, long_threshold: i64, short_threshold: i64) -> (strategy: EFFRTrading)
        ensures
            strategy@ == (EffrTradingModel {
                effr: effr@,
                long_threshold,
                short_threshold,
                starting_capital: 0,
                order_id: 0,
            }),
    {
        EFFRTrading { effr, long_threshold, short_threshold, starting_capital: 0, order_id: 0 }
    }

    /// The same strategy, with its next order under that id.
    pub fn starting_at(self, order_id: OrderId) -> (strategy: EFFRTrading)
        ensures
            strategy@ == (EffrTradingModel { order_id, ..self@ }),
    {
        EFFRTrading {
            effr: self.effr,
            long_threshold: self.long_threshold,
            short_threshold: self.short_threshold,
            starting_capital: self.starting_capital,
            order_id,
        }
    }

    /// The id that the next order gets: the number of orders submitted so
    /// far, for a strategy that started at nothing.
    pub fn orders_submitted(&self) -> (count: OrderId)
        ensures
            count == self@.order_id,
    {
        self.order_id
    }

    /// The share of the starting capital that is allocated, in rate units.
    /// There is none without starting capital, or where the numbers are out
    /// of range.
    pub fn get_percent_allocated(&self, available: i128) -> (share: Option<i128>)
        ensures
            share is Some == (self@.starting_capital > 0 && allocation_fits(
                self@.starting_capital as int,
                available as int,
            )),
            share matches Some(s) ==> s == allocated_share(
                self@.starting_capital as int,
                available as int,
            ),
    {
        if self.starting_capital <= 0 {
            return None;
        }
        match self.starting_capital.checked_sub(available) {
            Some(spent) => match spent.checked_mul(RATE_SCALE as i128) {
                Some(scaled) => Some(div_floor(scaled, self.starting_capital)),
                None => None,
            },
            None => None,
        }
    }

    /// The share of the capital that is to be held at the rate, in rate
    /// units.
    pub fn get_target_position(&self, effr: i64) -> (target: i64)
        ensures
            target == target_share(
                effr as int,
                self@.long_threshold as int,
                self@.short_threshold as int,
            ),
    {
        target_for(effr, self.long_threshold, self.short_threshold)
    }
}

impl Strategy for EFFRTrading {
    /// The strategy notes the cash in hand as its starting capital.
    open spec fn prepared(
        before: Self,
        broker: BrokerModel,
        after: Self,
        opened: BrokerModel,
        res: Result<(), StrategyError>,
    ) -> bool {
        &&& -0x8000_0000_0000_0000_0000_0000_0000_0000 <= broker.cash
            <= 0x7fff_ffff_ffff_ffff_ffff_ffff_ffff_ffff
        &&& after@ == (EffrTradingModel { starting_capital: broker.cash as i128, ..before@ })
        &&& opened == broker
        &&& res is Ok
    }

    /// What a tick makes of the strategy and of the broker is a function of
    /// the two and the tick.
    open spec fn ticked(
        before: Self,
        ticker: Ticker,
        broker: BrokerModel,
        after: Self,
        traded: BrokerModel,
        res: Result<(), StrategyError>,
    ) -> bool {
        (after@, traded, res) == before@.ticked(ticker, broker)
    }

    fn prepare(&mut self, broker: &mut Broker) -> (res: Result<(), StrategyError>) {
        self.starting_capital = broker.get_cash();
        Ok(())
    }

    fn on_ticker(&mut self, ticker: &Ticker, broker: &mut Broker) -> (res: Result<
        (),
        StrategyError,
    >) {
        if self.effr.update(ticker).is_err() {
            return Ok(());
        }
        proof {
            lemma_reached_rate(old(self)@.effr, ticker.datetime);
        }
        let rate = match self.effr.get_value() {
            Ok(rate) => rate,
            Err(_) => {
                return Ok(());
            },
        };
        let available = broker.get_cash();
        match size_order(
            self.starting_capital,
            available,
            rate,
            self.long_threshold,
            self.short_threshold,
            ticker.close,
        ) {
            Sizing::Nothing => Ok(()),
            Sizing::OutOfRange => Err(StrategyError::SizeOutOfRange),
            Sizing::Order(side, quantity) => {
                if self.order_id == usize::MAX {
                    return Err(StrategyError::OrderIdsExhausted);
                }
                let order = Order {
                    symbol: "AAPL".to_owned(),
                    quantity,
                    side,
                    order_type: OrderType::Market,
                    datetime: ticker.datetime,
                    execution: OrderExecutionStrategy::GTC,
                    on_execute: Vec::new(),
                    on_cancel: Vec::new(),
                };
                assert(order@ == effr_order(side, quantity, ticker.datetime));
                let _ = broker.submit_order(self.order_id, order);
                self.order_id = self.order_id + 1;
                Ok(())
            },
        }
    }
}

} // verus!
