use backtester::backtest::{Backtest, BacktestBuilder, BacktestError};
use backtester::broker::Broker;
use backtester::indicators::effr::{DFF, EFFR};
use backtester::strategy::buy_and_hold::BuyAndHold;
use backtester::strategy::effr_trading::{size_order, target_for, EFFRTrading, Sizing};
use backtester::strategy::sma_crossover::SMACrossover;
use backtester::strategy::{Strategy, StrategyError};
use backtester::timeseries::TimeSeries;
use backtester::types::{
    BrokerError, ContingentAction, Order, OrderExecutionStrategy, OrderSide, OrderType, Ticker,
    Timestamp, CASH_SCALE, PRICE_SCALE, QUANTITY_SCALE, RATE_SCALE,
};

fn tick(close: i64, hour: i64) -> Ticker {
    let price = close * PRICE_SCALE;
    Ticker::new(price, price, price, price, 1_000, Timestamp::from_secs(hour * 3_600))
}

fn open_broker(name: &str, cash: i128) -> Broker {
    let at = Timestamp::from_secs(0);
    Broker::with_clock(name, cash * CASH_SCALE, 0, RATE_SCALE, false, false, false, at).unwrap()
}

#[test]
fn buy_and_hold_buys_at_its_first_tick_only() {
    let mut broker = open_broker("b", 100_000);
    let mut strategy = BuyAndHold::default();
    assert!(!strategy.has_bought());
    assert_eq!(strategy.prepare(&mut broker), Ok(()));
    assert_eq!(strategy.on_ticker(&tick(100, 1), &mut broker), Ok(()));
    assert!(strategy.has_bought());
    let order = broker.get_order(0).unwrap();
    assert_eq!(order.symbol, "AAPL");
    assert_eq!(order.quantity, 100 * QUANTITY_SCALE);
    assert_eq!(order.side, OrderSide::Buy);
    assert_eq!(order.order_type, OrderType::Market);
    assert_eq!(order.datetime, Timestamp::from_secs(3_600));
    assert_eq!(order.execution, OrderExecutionStrategy::GTC);
    assert!(order.on_execute.is_empty() && order.on_cancel.is_empty());
    broker.next(&tick(101, 2)).unwrap();
    assert_eq!(strategy.on_ticker(&tick(101, 2), &mut broker), Ok(()));
    assert!(broker.pending_ids().is_empty());
    assert_eq!(broker.get_cash(), (100_000 - 10_100) * CASH_SCALE);
}

#[test]
fn crossover_trades_when_price_and_average_cross() {
    let mut broker = open_broker("b", 100_000);
    let mut strategy = SMACrossover::new(2);
    let closes = [10, 10, 20, 8, 30, 30];
    let mut submitted = Vec::new();
    for (hour, close) in closes.iter().enumerate() {
        let t = tick(*close, hour as i64);
        assert_eq!(strategy.on_ticker(&t, &mut broker), Ok(()));
        submitted.push(strategy.orders_submitted());
    }
    assert_eq!(submitted, vec![0, 0, 0, 1, 2, 2]);
    assert_eq!(broker.pending_ids(), vec![0, 1]);
    assert_eq!(broker.get_order(0).unwrap().side, OrderSide::Buy);
    assert_eq!(broker.get_order(0).unwrap().datetime, Timestamp::from_secs(3 * 3_600));
    assert_eq!(broker.get_order(1).unwrap().side, OrderSide::Sell);
    assert_eq!(broker.get_order(1).unwrap().quantity, 100 * QUANTITY_SCALE);
    assert_eq!(SMACrossover::default().orders_submitted(), 0);
}

#[test]
fn errors_wrap_the_errors_below_them() {
    let broker = BrokerError::OrderIdNotFound;
    assert_eq!(StrategyError::from(broker), StrategyError::BrokerError(broker));
    assert_eq!(BacktestError::from(broker), BacktestError::BrokerError(broker));
    let strategy = StrategyError::OrderIdsExhausted;
    assert_eq!(BacktestError::from(strategy), BacktestError::StrategyError(strategy));
}

#[test]
fn a_backtest_lets_the_broker_go_first() {
    let feed = TimeSeries::from_csv("data/AAPL.csv");
    let backtest = Backtest::new(feed, open_broker("b", 100_000), BuyAndHold::default());
    let ticks = vec![Some(tick(100, 1)), Some(tick(105, 2)), Some(tick(95, 3))];
    let result = backtest.run(&ticks).unwrap();
    assert_eq!(result.feed_path, "data/AAPL.csv");
    assert_eq!(result.starting_cash, 100_000 * CASH_SCALE);
    assert_eq!(result.ending_cash, (100_000 - 10_500) * CASH_SCALE);
    assert_eq!(result.broker.get_cash(), result.ending_cash);
    assert!(result.strategy.has_bought());
    assert_eq!(result.broker.get_trades().len(), 1);
    assert_eq!(result.broker.get_datetime(), Timestamp::from_secs(3 * 3_600));
}

#[test]
fn a_backtest_stops_at_the_first_failure() {
    let feed = TimeSeries::from_csv("x.csv");
    let unread = Backtest::new(feed.clone(), open_broker("b", 1), BuyAndHold::default());
    let failure = unread.run(&vec![Some(tick(1, 1)), None, Some(tick(1, 2))]).unwrap_err();
    assert_eq!(failure.error, BacktestError::TickerParseError);
    assert!(failure.partial.strategy.has_bought());
    assert_eq!(failure.partial.broker.pending_ids(), vec![0]);
    assert_eq!(failure.partial.feed_path, "x.csv");
    assert_eq!(failure.partial.ending_cash, CASH_SCALE);

    let mut broker = open_broker("b", 1);
    let mut failing = Order::new("A".to_string(), 1, OrderSide::Buy, OrderType::Market);
    failing.on_execute = vec![ContingentAction::Fail(BrokerError::InsufficientFundsForPurchase)];
    broker.submit_order(0, failing).unwrap();
    let mut backtest = Backtest::new(feed, broker, BuyAndHold::default());
    assert_eq!(backtest.prepare(), Ok(()));
    assert_eq!(
        backtest.step(&Some(tick(1, 1))),
        Err(BacktestError::BrokerError(BrokerError::InsufficientFundsForPurchase))
    );
    assert!(!backtest.get_strategy().has_bought());
    assert_eq!(backtest.step(&None), Err(BacktestError::TickerParseError));
    assert_eq!(backtest.step(&Some(tick(1, 2))), Ok(()));
    assert!(backtest.get_strategy().has_bought());
    assert_eq!(backtest.get_broker().pending_ids(), vec![0]);
    assert_eq!(backtest.get_feed().get_path(), "x.csv");
}

#[test]
fn the_builder_combines_strategies_brokers_and_feeds() {
    let mut bought = BuyAndHold::default();
    bought.on_ticker(&tick(1, 1), &mut open_broker("scratch", 0)).unwrap();
    let backtests = BacktestBuilder::new()
        .add_feed(TimeSeries::from_csv("a.csv"))
        .add_broker(open_broker("one", 1))
        .add_strategy(BuyAndHold::default())
        .add_feeds(vec![TimeSeries::from_csv("b.csv"), TimeSeries::from_csv("c.csv")])
        .add_broker(open_broker("two", 2))
        .add_strategy(bought)
        .build();
    let seen: Vec<(bool, i128, String)> = backtests
        .iter()
        .map(|b| {
            (
                b.get_strategy().has_bought(),
                b.get_broker().get_cash() / CASH_SCALE,
                b.get_feed().get_path().clone(),
            )
        })
        .collect();
    let mut expected = Vec::new();
    for strategy in [false, true] {
        for broker in [1, 2] {
            for feed in ["a.csv", "b.csv", "c.csv"] {
                expected.push((strategy, broker, feed.to_string()));
            }
        }
    }
    assert_eq!(seen, expected);
    assert!(BacktestBuilder::<BuyAndHold>::new().add_broker(open_broker("b", 1)).build().is_empty());
}

fn rates(values: &[(i64, i64)]) -> EFFR {
    let records = values
        .iter()
        .map(|(day, dff)| Some(DFF { dff: *dff, date: Timestamp::from_secs(day * 86_400) }))
        .collect();
    EFFR::from_records(records)
}

#[test]
fn the_order_is_sized_from_rate_and_cash() {
    let capital = 100_000 * CASH_SCALE;
    let close = 100 * PRICE_SCALE;
    let size = |available: i128, effr: i64| match size_order(capital, available, effr, 0, 2_000_000, close) {
        Sizing::Order(side, quantity) => Some((side, quantity)),
        _ => None,
    };
    assert_eq!(target_for(500_000, 0, 2_000_000), 500_000);
    assert_eq!(target_for(-1, 0, 2_000_000), 1_000_000);
    assert_eq!(target_for(3_000_000, 0, 2_000_000), -1_000_000);
    assert_eq!(target_for(1_500_001, 0, 2_000_000), -500_001);
    assert_eq!(target_for(1_000_001, 0, 3_000_000), 333_333);
    assert_eq!(target_for(500_000, 2_000_000, 0), 1_000_000);
    assert_eq!(target_for(-500_000, 2_000_000, 0), 500_000);
    assert_eq!(target_for(1, 7, 7), -1_000_000);
    assert_eq!(target_for(0, 7, 7), 1_000_000);
    assert_eq!(target_for(i64::MIN, i64::MAX, i64::MIN), 0);
    assert_eq!(target_for(i64::MIN, i64::MIN, i64::MAX), 1_000_000);
    assert_eq!(target_for(i64::MAX, i64::MIN, i64::MAX), 1);
    assert_eq!(size(capital, 1_000_000), Some((OrderSide::Sell, 0)));
    assert_eq!(size(capital, 500_000), Some((OrderSide::Sell, 500 * QUANTITY_SCALE)));
    assert_eq!(size(capital, 3_000_000), Some((OrderSide::Buy, 1_000 * QUANTITY_SCALE)));
    assert_eq!(size(capital / 2, 1_000_000), Some((OrderSide::Buy, 500 * QUANTITY_SCALE)));
    assert_eq!(size(capital / 2 + 1, 1_000_000), Some((OrderSide::Buy, 499 * QUANTITY_SCALE)));
    assert!(matches!(size_order(0, 5, 0, 0, 1, close), Sizing::Nothing));
    assert!(matches!(size_order(capital, 5, 0, 0, 1, 0), Sizing::Nothing));
    assert!(matches!(size_order(i128::MAX, -1, 0, 0, 1, 1), Sizing::OutOfRange));
    assert!(matches!(size_order(i128::MAX / 1_000_000, 0, 3, 0, 1, 1), Sizing::OutOfRange));
}

#[test]
fn effr_trading_trades_when_the_rate_is_known() {
    let mut broker = open_broker("b", 100_000);
    let effr = rates(&[(1, 500_000), (2, 3_000_000)]);
    let mut strategy = EFFRTrading::new(effr, 0, 2_000_000);
    assert_eq!(strategy.get_target_position(500_000), 500_000);
    assert_eq!(strategy.get_percent_allocated(0), None);
    assert_eq!(strategy.prepare(&mut broker), Ok(()));
    assert_eq!(strategy.get_percent_allocated(75_000 * CASH_SCALE), Some(250_000));
    let day = |d: i64, close: i64| {
        let price = close * PRICE_SCALE;
        Ticker::new(price, price, price, price, 1, Timestamp::from_secs(d * 86_400))
    };
    assert_eq!(strategy.on_ticker(&day(1, 100), &mut broker), Ok(()));
    let first = broker.get_order(0).unwrap();
    assert_eq!((first.side, first.quantity), (OrderSide::Sell, 500 * QUANTITY_SCALE));
    assert_eq!(first.symbol, "AAPL");
    assert_eq!(first.order_type, OrderType::Market);
    assert_eq!(first.datetime, Timestamp::from_secs(86_400));
    assert_eq!(strategy.on_ticker(&day(2, 50), &mut broker), Ok(()));
    let second = broker.get_order(1).unwrap();
    assert_eq!((second.side, second.quantity), (OrderSide::Buy, 2_000 * QUANTITY_SCALE));
    assert_eq!(strategy.on_ticker(&day(3, 50), &mut broker), Ok(()));
    assert_eq!(strategy.orders_submitted(), 2);
    assert_eq!(broker.pending_ids(), vec![0, 1]);
}

#[test]
fn a_strategy_out_of_ids_fails() {
    let mut broker = open_broker("b", 100_000);
    let mut strategy = SMACrossover::new(2).starting_at(usize::MAX);
    for (hour, close) in [10, 10, 20].iter().enumerate() {
        assert_eq!(strategy.on_ticker(&tick(*close, hour as i64), &mut broker), Ok(()));
    }
    assert_eq!(strategy.on_ticker(&tick(8, 3), &mut broker), Err(StrategyError::OrderIdsExhausted));
    assert!(broker.pending_ids().is_empty());
    assert_eq!(strategy.orders_submitted(), usize::MAX);
    assert_eq!(strategy.on_ticker(&tick(30, 4), &mut broker), Err(StrategyError::OrderIdsExhausted));

    let mut strategy = EFFRTrading::new(rates(&[(1, 500_000)]), 0, 2_000_000).starting_at(usize::MAX);
    strategy.prepare(&mut broker).unwrap();
    let at_first = Ticker::new(1, 1, 1, PRICE_SCALE, 1, Timestamp::from_secs(86_400));
    assert_eq!(strategy.on_ticker(&at_first, &mut broker), Err(StrategyError::OrderIdsExhausted));
}

#[test]
fn a_size_out_of_range_fails() {
    let at = Timestamp::from_secs(0);
    let mut broker = Broker::with_clock("rich", i128::MAX, 0, 0, false, false, false, at).unwrap();
    let mut strategy = EFFRTrading::new(rates(&[(1, 3_000_000)]), 0, 2_000_000);
    strategy.prepare(&mut broker).unwrap();
    let at_first = Ticker::new(1, 1, 1, PRICE_SCALE, 1, Timestamp::from_secs(86_400));
    assert_eq!(strategy.on_ticker(&at_first, &mut broker), Err(StrategyError::SizeOutOfRange));
    assert!(broker.pending_ids().is_empty());
    assert_eq!(strategy.orders_submitted(), 0);
}
