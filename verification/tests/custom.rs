use backtester::backtest::{Backtest, BacktestError};
use backtester::broker::Broker;
use backtester::strategy::{Strategy, StrategyError};
use backtester::timeseries::TimeSeries;
use backtester::types::{
    BrokerError, ContingentAction, Order, OrderSide, OrderType, Ticker, Timestamp, CASH_SCALE,
    PRICE_SCALE, QUANTITY_SCALE, RATE_SCALE,
};

/// Buys a share at every tick and protects it with a stop five below.
#[derive(Debug)]
struct StopLoss {
    next_id: usize,
    fail_at: usize,
    starting_cash: i128,
}

impl Strategy for StopLoss {
    fn prepare(&mut self, broker: &mut Broker) -> Result<(), StrategyError> {
        self.starting_cash = broker.get_cash();
        Ok(())
    }

    fn on_ticker(&mut self, ticker: &Ticker, broker: &mut Broker) -> Result<(), StrategyError> {
        if self.next_id >= self.fail_at {
            broker.cancel_order(usize::MAX)?;
        }
        let stop = OrderType::Stop(ticker.close - 5 * PRICE_SCALE);
        let mut entry =
            Order::new("AAPL".to_string(), QUANTITY_SCALE, OrderSide::Buy, OrderType::Market);
        entry.datetime = broker.get_datetime();
        entry.on_execute = vec![ContingentAction::Submit(
            self.next_id + 1,
            Order::new("AAPL".to_string(), QUANTITY_SCALE, OrderSide::Sell, stop),
        )];
        broker.submit_order(self.next_id, entry)?;
        self.next_id += 2;
        Ok(())
    }
}

/// Does nothing at all.
#[derive(Debug)]
struct Idle;

impl Strategy for Idle {
    fn prepare(&mut self, _broker: &mut Broker) -> Result<(), StrategyError> {
        Ok(())
    }

    fn on_ticker(&mut self, _ticker: &Ticker, _broker: &mut Broker) -> Result<(), StrategyError> {
        Ok(())
    }
}

fn tick(close: i64, hour: i64) -> Ticker {
    let price = close * PRICE_SCALE;
    Ticker::new(price, price, price, price, 1_000, Timestamp::from_secs(hour * 3_600))
}

fn open_broker() -> Broker {
    let at = Timestamp::from_secs(0);
    Broker::with_clock("b", 1_000 * CASH_SCALE, 0, RATE_SCALE, false, false, false, at).unwrap()
}

#[test]
fn a_strategy_of_ones_own_trades_through_the_broker() {
    let strategy = StopLoss { next_id: 0, fail_at: usize::MAX, starting_cash: 0 };
    let backtest = Backtest::new(TimeSeries::from_csv("x"), open_broker(), strategy);
    let ticks = vec![Some(tick(100, 1)), Some(tick(101, 2)), Some(tick(90, 3)), Some(tick(90, 4))];
    let result = backtest.run(&ticks).unwrap();
    assert_eq!(result.strategy.next_id, 8);
    assert_eq!(result.strategy.starting_cash, 1_000 * CASH_SCALE);
    // Bought at 101, 90 and 90; the stop at 95 sold at 90, a tick after it was reached.
    assert_eq!(result.ending_cash, (1_000 - 101 - 90 + 90 - 90) * CASH_SCALE);
    assert_eq!(result.broker.get_trades().len(), 4);
    assert_eq!(result.broker.pending_ids(), vec![3, 5, 6]);
    assert_eq!(result.broker.get_order(3).unwrap().order_type, OrderType::Market);
    let held = result.broker.get_position(&"AAPL".to_string()).unwrap();
    assert_eq!(held.amount, 2 * QUANTITY_SCALE as i128);
}

#[test]
fn a_failure_of_the_strategy_ends_the_backtest() {
    let strategy = StopLoss { next_id: 0, fail_at: 2, starting_cash: 0 };
    let backtest = Backtest::new(TimeSeries::from_csv("x"), open_broker(), strategy);
    let ticks = vec![Some(tick(100, 1)), Some(tick(101, 2)), Some(tick(90, 3))];
    let failure = backtest.run(&ticks).err().unwrap();
    assert_eq!(
        failure.error,
        BacktestError::StrategyError(StrategyError::BrokerError(BrokerError::OrderIdNotFound))
    );
    assert_eq!(failure.partial.strategy.next_id, 2);
    assert_eq!(failure.partial.starting_cash, 1_000 * CASH_SCALE);
    assert_eq!(failure.partial.ending_cash, (1_000 - 101) * CASH_SCALE);
    assert_eq!(failure.partial.broker.get_trades().len(), 1);
}

#[test]
fn an_idle_strategy_leaves_the_cash_alone() {
    let backtest = Backtest::new(TimeSeries::from_csv("x"), open_broker(), Idle);
    let result = backtest.run(&vec![Some(tick(1, 1))]).unwrap();
    assert_eq!(result.ending_cash, result.starting_cash);
}
