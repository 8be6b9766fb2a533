use backtester::broker::{Broker, ConfigError};
use backtester::types::{
    BrokerError, ContingentAction, Order, OrderExecutionStrategy, OrderSide, OrderType, Ticker,
    Timestamp, CASH_SCALE, PRICE_SCALE, QUANTITY_SCALE, RATE_SCALE,
};

fn tick(close: i64, hour: i64) -> Ticker {
    let price = close * PRICE_SCALE;
    Ticker::new(price, price, price, price, 1_000, Timestamp::from_secs(hour * 3_600))
}

fn order(symbol: &str, shares: u64, side: OrderSide, order_type: OrderType) -> Order {
    Order::new(symbol.to_string(), shares * QUANTITY_SCALE, side, order_type)
}

fn open_broker(cash: i128) -> Broker {
    Broker::with_clock(
        "test",
        cash * CASH_SCALE,
        0,
        RATE_SCALE,
        false,
        false,
        false,
        Timestamp::from_secs(0),
    )
    .unwrap()
}

fn shares(n: i128) -> i128 {
    n * QUANTITY_SCALE as i128
}

#[test]
fn market_buy_then_limit_sell_round_trip() {
    let mut broker = open_broker(100_000);
    let aapl = "AAPL".to_string();
    broker.submit_order(0, order("AAPL", 10, OrderSide::Buy, OrderType::Market)).unwrap();
    broker
        .submit_order(1, order("AAPL", 10, OrderSide::Sell, OrderType::Limit(102 * PRICE_SCALE)))
        .unwrap();

    broker.next(&tick(100, 1)).unwrap();
    assert_eq!(broker.get_cash(), 99_000 * CASH_SCALE);
    let held = broker.get_position(&aapl).unwrap();
    assert_eq!(held.amount, shares(10));
    assert_eq!(held.price(), Some(100 * PRICE_SCALE as i128));
    assert_eq!(broker.pending_ids(), vec![1]);

    broker.next(&tick(105, 2)).unwrap();
    assert_eq!(broker.get_cash(), 100_050 * CASH_SCALE);
    assert!(broker.get_position(&aapl).is_none());
    assert!(broker.pending_ids().is_empty());

    broker.next(&tick(95, 3)).unwrap();
    assert_eq!(broker.get_cash(), 100_050 * CASH_SCALE);
    assert_eq!(broker.get_trades().len(), 2);
    assert_eq!(broker.get_trades()[0].order_id, 0);
    assert_eq!(broker.get_trades()[0].price, 100 * PRICE_SCALE);
    assert_eq!(broker.get_trades()[1].order_id, 1);
    assert_eq!(broker.get_trades()[1].price, 105 * PRICE_SCALE);
    assert_eq!(broker.get_trades()[1].commission, 0);
}

#[test]
fn cancel_of_unknown_id_changes_nothing() {
    let mut broker = open_broker(1_000);
    broker.submit_order(7, order("AAPL", 1, OrderSide::Buy, OrderType::Limit(5))).unwrap();
    assert_eq!(broker.cancel_order(8), Err(BrokerError::OrderIdNotFound));
    assert_eq!(broker.get_cash(), 1_000 * CASH_SCALE);
    assert_eq!(broker.pending_ids(), vec![7]);
    assert!(broker.get_canceled_orders().is_empty());
    assert!(broker.get_position(&"AAPL".to_string()).is_none());
}

#[test]
fn cancel_of_pending_id_records_the_order() {
    let mut broker = open_broker(1_000);
    broker.submit_order(7, order("AAPL", 3, OrderSide::Sell, OrderType::Stop(5))).unwrap();
    assert_eq!(broker.cancel_order(7), Ok(()));
    assert!(broker.pending_ids().is_empty());
    let canceled = broker.get_canceled_orders();
    assert_eq!(canceled.len(), 1);
    assert_eq!(canceled[0].order_id, 7);
    assert_eq!(canceled[0].symbol, "AAPL");
    assert_eq!(canceled[0].quantity, 3 * QUANTITY_SCALE);
    assert_eq!(canceled[0].side, OrderSide::Sell);
    assert_eq!(canceled[0].order_type, OrderType::Stop(5));
    assert_eq!(broker.cancel_order(7), Err(BrokerError::OrderIdNotFound));
}

#[test]
fn settings_out_of_range_are_refused() {
    let at = Timestamp::from_secs(0);
    let open = |cash: i128, commission: i64, margin: i64| {
        Broker::with_clock("b", cash, commission, margin, false, false, false, at).map(|_| ())
    };
    assert_eq!(open(-1, 0, RATE_SCALE), Err(ConfigError::NegativeInitialCash));
    assert_eq!(open(0, 100_001, RATE_SCALE), Err(ConfigError::CommissionOutOfRange));
    assert_eq!(open(0, -100_001, RATE_SCALE), Err(ConfigError::CommissionOutOfRange));
    assert_eq!(open(0, 0, -1), Err(ConfigError::MarginOutOfRange));
    assert_eq!(open(0, 0, RATE_SCALE + 1), Err(ConfigError::MarginOutOfRange));
    assert_eq!(open(-1, 200_000, -1), Err(ConfigError::NegativeInitialCash));
    assert_eq!(open(0, 100_000, 0), Ok(()));
    assert_eq!(open(0, -100_000, RATE_SCALE), Ok(()));
}

#[test]
fn new_broker_holds_its_cash_and_nothing_else() {
    let broker = Broker::new("live", 5 * CASH_SCALE, 1_000, 500_000, true, false, true).unwrap();
    assert_eq!(broker.get_cash(), 5 * CASH_SCALE);
    assert_eq!(broker.get_initial_cash(), 5 * CASH_SCALE);
    assert!(broker.pending_ids().is_empty());
    assert!(broker.get_trades().is_empty());
    assert!(broker.get_canceled_orders().is_empty());
    assert!(Broker::new("bad", -1, 0, 0, false, false, false).is_err());
}

#[test]
fn average_price_is_the_weighted_mean_of_the_buys() {
    let mut broker = open_broker(100_000);
    let aapl = "AAPL".to_string();
    broker.submit_order(0, order("AAPL", 10, OrderSide::Buy, OrderType::Market)).unwrap();
    broker.next(&tick(100, 1)).unwrap();
    broker.submit_order(1, order("AAPL", 30, OrderSide::Buy, OrderType::Market)).unwrap();
    broker.next(&tick(120, 2)).unwrap();
    let held = broker.get_position(&aapl).unwrap();
    assert_eq!(held.amount, shares(40));
    assert_eq!(held.entered, shares(40));
    assert_eq!(held.cost, 4_600 * CASH_SCALE);
    assert_eq!(held.price(), Some(115 * PRICE_SCALE as i128));
    assert_eq!(broker.get_cash(), (100_000 - 4_600) * CASH_SCALE);
}

#[test]
fn average_price_of_a_short_is_the_weighted_mean_of_the_sells() {
    let mut broker = open_broker(0);
    let aapl = "AAPL".to_string();
    broker.submit_order(0, order("AAPL", 10, OrderSide::Sell, OrderType::Market)).unwrap();
    broker.next(&tick(100, 1)).unwrap();
    broker.submit_order(1, order("AAPL", 10, OrderSide::Sell, OrderType::Market)).unwrap();
    broker.next(&tick(110, 2)).unwrap();
    let held = broker.get_position(&aapl).unwrap();
    assert_eq!(held.amount, -shares(20));
    assert_eq!(held.entered, shares(20));
    assert_eq!(held.cost, 2_100 * CASH_SCALE);
    assert_eq!(held.price(), Some(105 * PRICE_SCALE as i128));
    assert_eq!(broker.get_cash(), 2_100 * CASH_SCALE);
}

#[test]
fn a_buy_debits_and_a_sell_credits_quantity_times_price() {
    let mut broker = open_broker(1_000);
    broker
        .submit_order(0, Order::new("X".to_string(), 1_500_000, OrderSide::Buy, OrderType::Market))
        .unwrap();
    broker.next(&Ticker::new(0, 0, 0, 7_250_000, 0, Timestamp::from_secs(1))).unwrap();
    assert_eq!(broker.get_cash(), 1_000 * CASH_SCALE - 1_500_000 * 7_250_000);
    broker
        .submit_order(1, Order::new("Y".to_string(), 250_000, OrderSide::Sell, OrderType::Market))
        .unwrap();
    broker.next(&Ticker::new(0, 0, 0, 3_000_001, 0, Timestamp::from_secs(2))).unwrap();
    assert_eq!(
        broker.get_cash(),
        1_000 * CASH_SCALE - 1_500_000 * 7_250_000 + 250_000 * 3_000_001
    );
}

#[test]
fn limit_buy_waits_above_its_limit_and_fills_at_it() {
    let mut broker = open_broker(10_000);
    broker
        .submit_order(3, order("AAPL", 1, OrderSide::Buy, OrderType::Limit(100 * PRICE_SCALE)))
        .unwrap();
    broker.next(&tick(101, 1)).unwrap();
    assert_eq!(broker.pending_ids(), vec![3]);
    assert!(broker.get_trades().is_empty());
    assert_eq!(broker.get_cash(), 10_000 * CASH_SCALE);
    broker.next(&tick(100, 2)).unwrap();
    assert!(broker.pending_ids().is_empty());
    assert_eq!(broker.get_cash(), 9_900 * CASH_SCALE);
}

#[test]
fn limit_sell_waits_below_its_limit_and_fills_at_it() {
    let mut broker = open_broker(0);
    broker
        .submit_order(3, order("AAPL", 1, OrderSide::Sell, OrderType::Limit(100 * PRICE_SCALE)))
        .unwrap();
    broker.next(&tick(99, 1)).unwrap();
    assert_eq!(broker.pending_ids(), vec![3]);
    assert!(broker.get_trades().is_empty());
    broker.next(&tick(100, 2)).unwrap();
    assert!(broker.pending_ids().is_empty());
    assert_eq!(broker.get_cash(), 100 * CASH_SCALE);
}

#[test]
fn stop_buy_becomes_a_market_order_at_its_stop() {
    let mut broker = open_broker(10_000);
    broker
        .submit_order(4, order("AAPL", 2, OrderSide::Buy, OrderType::Stop(110 * PRICE_SCALE)))
        .unwrap();
    broker.next(&tick(100, 1)).unwrap();
    broker.next(&tick(109, 2)).unwrap();
    assert_eq!(broker.get_order(4).unwrap().order_type, OrderType::Stop(110 * PRICE_SCALE));
    broker.next(&tick(110, 3)).unwrap();
    let converted = broker.get_order(4).unwrap();
    assert_eq!(converted.order_type, OrderType::Market);
    assert_eq!(converted.datetime, Timestamp::from_secs(3 * 3_600));
    assert_eq!(converted.quantity, 2 * QUANTITY_SCALE);
    assert!(broker.get_trades().is_empty());
    assert_eq!(broker.get_cash(), 10_000 * CASH_SCALE);
    broker.next(&tick(90, 4)).unwrap();
    assert!(broker.pending_ids().is_empty());
    assert_eq!(broker.get_cash(), (10_000 - 180) * CASH_SCALE);
}

#[test]
fn stop_sell_becomes_a_market_order_at_its_stop() {
    let mut broker = open_broker(0);
    broker
        .submit_order(4, order("AAPL", 2, OrderSide::Sell, OrderType::Stop(90 * PRICE_SCALE)))
        .unwrap();
    broker.next(&tick(91, 1)).unwrap();
    assert_eq!(broker.get_order(4).unwrap().order_type, OrderType::Stop(90 * PRICE_SCALE));
    broker.next(&tick(90, 2)).unwrap();
    assert_eq!(broker.get_order(4).unwrap().order_type, OrderType::Market);
}

#[test]
fn stop_limit_becomes_a_limit_order_between_stop_and_limit() {
    let stop_limit = OrderType::StopLimit(100 * PRICE_SCALE, 105 * PRICE_SCALE);
    let mut broker = open_broker(10_000);
    broker.submit_order(5, order("AAPL", 1, OrderSide::Buy, stop_limit)).unwrap();
    broker.next(&tick(99, 1)).unwrap();
    assert_eq!(broker.get_order(5).unwrap().order_type, stop_limit);
    broker.next(&tick(106, 2)).unwrap();
    assert_eq!(broker.get_order(5).unwrap().order_type, stop_limit);
    broker.next(&tick(105, 3)).unwrap();
    assert_eq!(broker.get_order(5).unwrap().order_type, OrderType::Limit(105 * PRICE_SCALE));
    assert!(broker.get_trades().is_empty());
    broker.next(&tick(104, 4)).unwrap();
    assert_eq!(broker.get_cash(), (10_000 - 104) * CASH_SCALE);

    let sell = OrderType::StopLimit(100 * PRICE_SCALE, 95 * PRICE_SCALE);
    let mut broker = open_broker(0);
    broker.submit_order(6, order("AAPL", 1, OrderSide::Sell, sell)).unwrap();
    broker.next(&tick(94, 1)).unwrap();
    assert_eq!(broker.get_order(6).unwrap().order_type, sell);
    broker.next(&tick(97, 2)).unwrap();
    assert_eq!(broker.get_order(6).unwrap().order_type, OrderType::Limit(95 * PRICE_SCALE));
}

#[test]
fn session_orders_wait_within_a_session() {
    let mut broker = open_broker(10_000);
    broker.next(&tick(100, 0)).unwrap();
    broker.submit_order(0, order("A", 1, OrderSide::Buy, OrderType::MOO)).unwrap();
    broker.submit_order(1, order("B", 1, OrderSide::Buy, OrderType::MOC)).unwrap();
    broker.submit_order(2, order("C", 1, OrderSide::Buy, OrderType::LOO(1_000 * PRICE_SCALE))).unwrap();
    broker.submit_order(3, order("D", 1, OrderSide::Sell, OrderType::LOC(PRICE_SCALE))).unwrap();
    for hour in 1..=8 {
        broker.next(&tick(100 + hour, hour)).unwrap();
    }
    broker.next(&tick(120, 16)).unwrap();
    assert_eq!(broker.pending_ids(), vec![0, 1, 2, 3]);
    assert!(broker.get_trades().is_empty());
    assert_eq!(broker.get_cash(), 10_000 * CASH_SCALE);
}

#[test]
fn session_orders_fill_on_the_first_tick_of_a_session() {
    let mut broker = open_broker(10_000);
    broker.next(&tick(100, 0)).unwrap();
    broker.submit_order(0, order("A", 1, OrderSide::Buy, OrderType::MOO)).unwrap();
    broker.submit_order(1, order("B", 1, OrderSide::Buy, OrderType::MOC)).unwrap();
    broker.submit_order(2, order("C", 1, OrderSide::Buy, OrderType::LOO(109 * PRICE_SCALE))).unwrap();
    broker.submit_order(3, order("D", 1, OrderSide::Buy, OrderType::LOC(100 * PRICE_SCALE))).unwrap();
    broker.submit_order(4, order("E", 1, OrderSide::Sell, OrderType::LOO(110 * PRICE_SCALE))).unwrap();
    let late = Ticker::new(0, 0, 0, 110 * PRICE_SCALE, 0, Timestamp::new(8 * 3_600, 1));
    broker.next(&late).unwrap();
    assert_eq!(broker.pending_ids(), vec![2]);
    let trades = broker.get_trades();
    assert_eq!(trades.len(), 4);
    assert_eq!((trades[0].order_id, trades[0].price), (0, 110 * PRICE_SCALE));
    assert_eq!((trades[1].order_id, trades[1].price), (1, 100 * PRICE_SCALE));
    assert_eq!((trades[2].order_id, trades[2].price), (3, 100 * PRICE_SCALE));
    assert_eq!((trades[3].order_id, trades[3].price), (4, 110 * PRICE_SCALE));
    assert_eq!(broker.get_cash(), (10_000 - 110 - 100 - 100 + 110) * CASH_SCALE);
}

#[test]
fn the_first_tick_of_all_opens_a_session() {
    let mut broker = open_broker(1_000);
    broker.submit_order(0, order("A", 1, OrderSide::Buy, OrderType::MOO)).unwrap();
    broker.submit_order(1, order("B", 1, OrderSide::Buy, OrderType::MOC)).unwrap();
    broker.next(&tick(50, 0)).unwrap();
    assert_eq!(broker.pending_ids(), vec![1]);
    assert_eq!(broker.get_cash(), 950 * CASH_SCALE);
}

#[test]
fn selling_down_to_the_flat_amount_removes_the_position() {
    let mut broker = open_broker(10_000);
    let aapl = "AAPL".to_string();
    broker.submit_order(0, order("AAPL", 10, OrderSide::Buy, OrderType::Market)).unwrap();
    broker.next(&tick(100, 1)).unwrap();
    let almost = Order::new(aapl.clone(), 10 * QUANTITY_SCALE - 1, OrderSide::Sell, OrderType::Market);
    broker.submit_order(1, almost).unwrap();
    broker.next(&tick(100, 2)).unwrap();
    assert!(broker.get_position(&aapl).is_none());

    broker.submit_order(2, order("AAPL", 10, OrderSide::Buy, OrderType::Market)).unwrap();
    broker.next(&tick(100, 3)).unwrap();
    let short = Order::new(aapl.clone(), 10 * QUANTITY_SCALE - 2, OrderSide::Sell, OrderType::Market);
    broker.submit_order(3, short).unwrap();
    broker.next(&tick(100, 4)).unwrap();
    assert_eq!(broker.get_position(&aapl).unwrap().amount, 2);
}

#[test]
fn buying_back_a_short_closes_it() {
    let mut broker = open_broker(10_000);
    let aapl = "AAPL".to_string();
    broker.submit_order(0, order("AAPL", 5, OrderSide::Sell, OrderType::Market)).unwrap();
    broker.next(&tick(100, 1)).unwrap();
    assert_eq!(broker.get_position(&aapl).unwrap().amount, -shares(5));
    broker.submit_order(1, order("AAPL", 5, OrderSide::Buy, OrderType::Market)).unwrap();
    broker.next(&tick(90, 2)).unwrap();
    assert!(broker.get_position(&aapl).is_none());
    assert_eq!(broker.get_cash(), 10_050 * CASH_SCALE);
}

#[test]
fn resubmission_under_an_id_replaces_the_order() {
    let mut broker = open_broker(10_000);
    broker.submit_order(0, order("AAPL", 1, OrderSide::Buy, OrderType::Limit(1))).unwrap();
    broker.submit_order(1, order("MSFT", 1, OrderSide::Buy, OrderType::Limit(1))).unwrap();
    broker.submit_order(0, order("GOOG", 2, OrderSide::Sell, OrderType::Limit(i64::MAX))).unwrap();
    assert_eq!(broker.pending_ids(), vec![0, 1]);
    assert_eq!(broker.get_order(0).unwrap().symbol, "GOOG");
    assert!(broker.get_order(2).is_none());
}

#[test]
fn a_fill_runs_the_actions_of_its_order() {
    let mut broker = open_broker(100_000);
    let mut entry = order("AAPL", 100, OrderSide::Buy, OrderType::Market);
    entry.on_execute = vec![
        ContingentAction::Submit(
            1,
            order("AAPL", 100, OrderSide::Sell, OrderType::Stop(90 * PRICE_SCALE)),
        ),
        ContingentAction::Cancel(9),
    ];
    let mut other = order("AAPL", 1, OrderSide::Buy, OrderType::Limit(PRICE_SCALE));
    other.on_cancel = vec![ContingentAction::Submit(
        2,
        order("MSFT", 1, OrderSide::Buy, OrderType::Limit(PRICE_SCALE)),
    )];
    broker.submit_order(0, entry).unwrap();
    broker.submit_order(9, other).unwrap();
    broker.next(&tick(100, 1)).unwrap();
    assert_eq!(broker.pending_ids(), vec![1, 2]);
    assert_eq!(broker.get_canceled_orders().len(), 1);
    assert_eq!(broker.get_canceled_orders()[0].order_id, 9);
    assert_eq!(broker.get_cash(), 90_000 * CASH_SCALE);
    broker.next(&tick(89, 2)).unwrap();
    assert_eq!(broker.get_order(1).unwrap().order_type, OrderType::Market);
    broker.next(&tick(88, 3)).unwrap();
    assert_eq!(broker.get_cash(), 98_800 * CASH_SCALE);
    assert!(broker.get_position(&"AAPL".to_string()).is_none());
}

#[test]
fn a_failing_action_ends_the_step() {
    let mut broker = open_broker(1_000);
    let mut first = order("A", 1, OrderSide::Buy, OrderType::Market);
    first.on_execute = vec![
        ContingentAction::Submit(5, order("C", 1, OrderSide::Buy, OrderType::Market)),
        ContingentAction::Fail(BrokerError::InsufficientMargin),
        ContingentAction::Submit(6, order("D", 1, OrderSide::Buy, OrderType::Market)),
    ];
    broker.submit_order(0, first).unwrap();
    broker.submit_order(1, order("B", 1, OrderSide::Buy, OrderType::Market)).unwrap();
    assert_eq!(broker.next(&tick(10, 1)), Err(BrokerError::InsufficientMargin));
    assert_eq!(broker.pending_ids(), vec![1, 5]);
    assert_eq!(broker.get_cash(), 990 * CASH_SCALE);
    assert_eq!(broker.get_datetime(), Timestamp::from_secs(3_600));
    assert_eq!(broker.next(&tick(10, 2)), Ok(()));
    assert_eq!(broker.get_cash(), 970 * CASH_SCALE);
}

#[test]
fn an_action_that_cancels_nothing_fails() {
    let mut broker = open_broker(1_000);
    let mut first = order("A", 1, OrderSide::Buy, OrderType::Limit(0));
    first.on_cancel = vec![ContingentAction::Cancel(77)];
    broker.submit_order(0, first).unwrap();
    assert_eq!(broker.cancel_order(0), Err(BrokerError::OrderIdNotFound));
    assert!(broker.pending_ids().is_empty());
    assert_eq!(broker.get_canceled_orders().len(), 1);
}

#[test]
fn a_fill_out_of_range_is_refused_and_stays_pending() {
    let mut broker = open_broker(0);
    let huge = || Order::new("X".to_string(), u64::MAX, OrderSide::Buy, OrderType::Market);
    let top = Ticker::new(0, 0, 0, i64::MAX, 0, Timestamp::from_secs(1));
    broker.submit_order(0, huge()).unwrap();
    assert_eq!(broker.next(&top), Ok(()));
    let cash = broker.get_cash();
    assert_eq!(cash, -(u64::MAX as i128 * i64::MAX as i128));
    broker.submit_order(1, huge()).unwrap();
    assert_eq!(broker.next(&top), Err(BrokerError::AmountOutOfRange));
    assert_eq!(broker.pending_ids(), vec![1]);
    assert_eq!(broker.get_cash(), cash);
    assert_eq!(broker.get_trades().len(), 1);
    assert_eq!(broker.get_position(&"X".to_string()).unwrap().amount, u64::MAX as i128);
}

#[test]
fn the_clock_follows_the_ticks() {
    let mut broker = open_broker(0);
    assert_eq!(broker.get_datetime(), Timestamp::from_secs(0));
    broker.next(&tick(1, 5)).unwrap();
    assert_eq!(broker.get_datetime(), Timestamp::from_secs(5 * 3_600));
}

#[test]
fn a_cloned_broker_is_in_the_same_state() {
    let mut broker = open_broker(1_000);
    let mut pending = order("B", 1, OrderSide::Sell, OrderType::Limit(i64::MAX));
    pending.execution = OrderExecutionStrategy::FOK;
    pending.on_cancel = vec![ContingentAction::Fail(BrokerError::OutOfMoneyError)];
    broker.submit_order(0, order("A", 1, OrderSide::Buy, OrderType::Market)).unwrap();
    broker.submit_order(1, pending).unwrap();
    broker.next(&tick(10, 1)).unwrap();
    let mut copy = broker.clone();
    assert_eq!(copy.get_cash(), broker.get_cash());
    assert_eq!(copy.pending_ids(), broker.pending_ids());
    assert_eq!(copy.get_order(1), broker.get_order(1));
    assert_eq!(copy.get_trades(), broker.get_trades());
    assert_eq!(copy.get_position(&"A".to_string()), broker.get_position(&"A".to_string()));
    assert_eq!(copy.cancel_order(1), Err(BrokerError::OutOfMoneyError));
    assert_eq!(broker.pending_ids(), vec![1]);
}

#[test]
fn a_broker_tells_its_settings() {
    let at = Timestamp::new(7, 9);
    let broker = Broker::with_clock("paper", 5, -100_000, 250_000, true, false, true, at).unwrap();
    assert_eq!(broker.get_name(), "paper");
    assert_eq!(broker.get_commission(), -100_000);
    assert_eq!(broker.get_margin(), 250_000);
    assert_eq!(broker.get_leverage(), Some(4 * RATE_SCALE));
    assert!(broker.is_exclusive_orders());
    assert!(!broker.is_hedging());
    assert!(broker.is_logging());
    assert_eq!(broker.get_datetime(), at);
    assert_eq!(broker.get_previous_ticker(), None);
    let unbound = Broker::with_clock("free", 5, 0, 0, false, true, false, at).unwrap();
    assert_eq!(unbound.get_leverage(), None);
    let third = Broker::with_clock("third", 5, 0, 3, false, true, false, at).unwrap();
    assert_eq!(third.get_leverage(), Some(333_333_333_333));
    let mut stepped = open_broker(1);
    stepped.next(&tick(3, 1)).unwrap();
    assert_eq!(stepped.get_previous_ticker(), Some(tick(3, 1)));
}

#[test]
fn a_broker_lists_its_positions() {
    let mut broker = open_broker(10_000);
    assert!(broker.get_positions().is_empty());
    broker.submit_order(0, order("A", 1, OrderSide::Buy, OrderType::Market)).unwrap();
    broker.submit_order(1, order("B", 2, OrderSide::Sell, OrderType::Market)).unwrap();
    broker.submit_order(2, order("A", 3, OrderSide::Buy, OrderType::Market)).unwrap();
    broker.next(&tick(10, 1)).unwrap();
    let mut held: Vec<(String, i128, i128)> =
        broker.get_positions().into_iter().map(|p| (p.symbol, p.amount, p.cost)).collect();
    held.sort();
    assert_eq!(
        held,
        vec![
            ("A".to_string(), shares(4), 40 * CASH_SCALE),
            ("B".to_string(), -shares(2), 20 * CASH_SCALE),
        ]
    );
}

fn fill(broker: &mut Broker, id: usize, shares: u64, side: OrderSide, close: i64, hour: i64) {
    broker.submit_order(id, order("AAPL", shares, side, OrderType::Market)).unwrap();
    broker.next(&tick(close, hour)).unwrap();
}

#[test]
fn a_sale_of_part_of_a_position_keeps_its_average_price() {
    let mut broker = open_broker(100_000);
    let aapl = "AAPL".to_string();
    fill(&mut broker, 0, 10, OrderSide::Buy, 100, 1);
    fill(&mut broker, 1, 4, OrderSide::Sell, 110, 2);
    let held = broker.get_position(&aapl).unwrap();
    assert_eq!(held.amount, shares(6));
    assert_eq!(held.entered, shares(10));
    assert_eq!(held.cost, 1_000 * CASH_SCALE);
    assert_eq!(held.price(), Some(100 * PRICE_SCALE as i128));
    assert_eq!(broker.get_cash(), 99_440 * CASH_SCALE);
}

#[test]
fn a_sale_at_any_price_leaves_the_rest_at_its_entry_price() {
    let mut broker = open_broker(100_000);
    let aapl = "AAPL".to_string();
    fill(&mut broker, 0, 10, OrderSide::Buy, 100, 1);
    fill(&mut broker, 1, 9, OrderSide::Sell, 200, 2);
    let held = broker.get_position(&aapl).unwrap();
    assert_eq!(held.amount, shares(1));
    assert_eq!(held.price(), Some(100 * PRICE_SCALE as i128));
    assert_eq!(broker.get_cash(), (100_000 - 1_000 + 1_800) * CASH_SCALE);
}

#[test]
fn a_purchase_of_part_of_a_short_keeps_its_average_price() {
    let mut broker = open_broker(100_000);
    let aapl = "AAPL".to_string();
    fill(&mut broker, 0, 10, OrderSide::Sell, 50, 1);
    fill(&mut broker, 1, 10, OrderSide::Sell, 70, 2);
    fill(&mut broker, 2, 5, OrderSide::Buy, 90, 3);
    let held = broker.get_position(&aapl).unwrap();
    assert_eq!(held.amount, -shares(15));
    assert_eq!(held.entered, shares(20));
    assert_eq!(held.price(), Some(60 * PRICE_SCALE as i128));
    assert_eq!(broker.get_cash(), (100_000 + 500 + 700 - 450) * CASH_SCALE);
}

#[test]
fn a_sale_past_zero_opens_a_short_at_its_price() {
    let mut broker = open_broker(100_000);
    let aapl = "AAPL".to_string();
    fill(&mut broker, 0, 10, OrderSide::Buy, 100, 1);
    fill(&mut broker, 1, 15, OrderSide::Sell, 110, 2);
    let held = broker.get_position(&aapl).unwrap();
    assert_eq!(held.amount, -shares(5));
    assert_eq!(held.entered, shares(5));
    assert_eq!(held.cost, 550 * CASH_SCALE);
    assert_eq!(held.price(), Some(110 * PRICE_SCALE as i128));
    fill(&mut broker, 2, 8, OrderSide::Buy, 90, 3);
    let long = broker.get_position(&aapl).unwrap();
    assert_eq!(long.amount, shares(3));
    assert_eq!(long.price(), Some(90 * PRICE_SCALE as i128));
}

#[test]
fn the_average_counts_the_fills_on_the_side_of_the_position() {
    let mut broker = open_broker(100_000);
    let aapl = "AAPL".to_string();
    fill(&mut broker, 0, 10, OrderSide::Buy, 100, 1);
    fill(&mut broker, 1, 4, OrderSide::Sell, 110, 2);
    fill(&mut broker, 2, 4, OrderSide::Buy, 120, 3);
    let held = broker.get_position(&aapl).unwrap();
    assert_eq!(held.amount, shares(10));
    assert_eq!(held.entered, shares(14));
    assert_eq!(held.cost, 1_480 * CASH_SCALE);
    assert_eq!(held.price(), Some(105_714_285));
}

#[test]
fn the_average_starts_anew_once_the_position_was_flat() {
    let mut broker = open_broker(100_000);
    let aapl = "AAPL".to_string();
    fill(&mut broker, 0, 10, OrderSide::Buy, 100, 1);
    fill(&mut broker, 1, 10, OrderSide::Sell, 110, 2);
    assert_eq!(broker.get_position(&aapl), None);
    fill(&mut broker, 2, 2, OrderSide::Buy, 130, 3);
    fill(&mut broker, 3, 2, OrderSide::Buy, 150, 4);
    let held = broker.get_position(&aapl).unwrap();
    assert_eq!(held.amount, shares(4));
    assert_eq!(held.entered, shares(4));
    assert_eq!(held.price(), Some(140 * PRICE_SCALE as i128));
}
