use backtester::indicators::effr::{DFF, EFFR};
use backtester::indicators::moving_average::MovingAverage;
use backtester::indicators::rsi::{RSI, RSI_SCALE};
use backtester::indicators::sma::SMA;
use backtester::indicators::{Indicator, IndicatorError};
use backtester::types::{Ticker, Timestamp, PRICE_SCALE};

fn get_ticks(n: usize) -> Vec<Ticker> {
    let mut ticks = Vec::new();
    for _ in 0..n {
        ticks.push(Ticker {
            open: PRICE_SCALE,
            high: 2 * PRICE_SCALE,
            low: PRICE_SCALE / 2,
            close: 3 * PRICE_SCALE / 2,
            volume: 100,
            datetime: Timestamp::from_secs(0),
        });
    }
    ticks
}

fn bar(open: i64, close: i64) -> Ticker {
    Ticker::new(open, open.max(close), open.min(close), close, 1, Timestamp::from_secs(0))
}

#[test]
fn sma_no_tickers_period_5() {
    let sma = SMA::new(5);

    assert!(sma.get_value().is_err());
}

#[test]
fn sma_invalid_index() {
    let sma = SMA::new(5);

    assert!(sma.at(2).is_err());
}

#[test]
fn period_5_ticks_10() {
    let mut sma = SMA::new(5);

    let ticks = get_ticks(10);
    let mut sum = 0;
    for (i, tick) in ticks.iter().enumerate() {
        if i < 5 {
            assert!(sma.get_value().is_err());
        } else {
            sum += tick.close;
        }
        sma.update(&tick).unwrap();
    }

    assert_eq!(sma.get_value().unwrap(), sum / 5);
}

#[test]
fn sma_is_the_mean_of_the_last_closes() {
    let mut sma = SMA::new(3);
    let closes = [10, 20, 60, 100, -8, -8];
    let means = [30, 60, 50, 28];
    for (i, close) in closes.iter().enumerate() {
        assert_eq!(sma.update(&bar(0, *close)), Ok(()));
        if i < 2 {
            assert_eq!(sma.get_value(), Err(IndicatorError::InsufficientData));
        } else {
            assert_eq!(sma.get_value(), Ok(means[i - 2]));
        }
    }
    assert_eq!(sma.at(0), Ok(30));
    assert_eq!(sma.at(3), Ok(28));
    assert_eq!(sma.at(4), Err(IndicatorError::IndexOutOfRange));
}

#[test]
fn sma_rounds_the_mean_down() {
    let mut sma = SMA::new(2);
    sma.update(&bar(0, -1)).unwrap();
    sma.update(&bar(0, -2)).unwrap();
    assert_eq!(sma.get_value(), Ok(-2));
    sma.update(&bar(0, 5)).unwrap();
    assert_eq!(sma.get_value(), Ok(1));
    sma.update(&bar(0, i64::MAX)).unwrap();
    sma.update(&bar(0, i64::MAX)).unwrap();
    assert_eq!(sma.get_value(), Ok(i64::MAX));
}

#[test]
fn sma_of_period_zero_has_no_data() {
    let mut sma = SMA::new(0);
    assert_eq!(sma.update(&bar(0, 1)), Err(IndicatorError::InsufficientData));
    assert_eq!(sma.get_value(), Err(IndicatorError::InsufficientData));
    assert_eq!(SMA::default().period(), 10);
}

#[test]
fn moving_average_drops_the_oldest_close() {
    let mut average = MovingAverage::new(3);
    average.update(&bar(0, 10));
    average.update(&bar(0, 20));
    assert_eq!(average.get_value(), None);
    average.update(&bar(0, 60));
    assert_eq!(average.get_value(), Some(40));
    average.update(&bar(0, 100));
    assert_eq!(average.get_value(), Some(80));
    assert_eq!(average.value, Some(80));

    let mut single = MovingAverage::new(1);
    single.update(&bar(0, 10));
    assert_eq!(single.get_value(), None);
}

#[test]
fn rsi_no_tickers_period_5() {
    let rsi = RSI::new(5, true);

    assert!(rsi.get_value().is_err());
}

#[test]
fn rsi_invalid_index() {
    let sma = RSI::new(5, true);

    assert!(sma.at(2).is_err());
}

#[test]
fn rsi_is_the_share_of_the_gains() {
    let mut rsi = RSI::new(2, false);
    assert_eq!(rsi.update(&bar(10, 40)), Ok(()));
    assert_eq!(rsi.update(&bar(40, 30)), Ok(()));
    assert_eq!(rsi.get_value(), Err(IndicatorError::InsufficientData));
    assert_eq!(rsi.update(&bar(30, 30)), Ok(()));
    assert_eq!(rsi.get_value(), Ok(75 * RSI_SCALE));
    assert_eq!(rsi.update(&bar(30, 0)), Ok(()));
    assert_eq!(rsi.at(1), Ok(75 * RSI_SCALE));
    assert_eq!(rsi.at(2), Err(IndicatorError::IndexOutOfRange));
}

#[test]
fn smoothed_rsi_weighs_the_averages_against_the_tick() {
    let mut rsi = RSI::new(3, true);
    for (open, close) in [(0, 30), (30, 0), (0, 60)] {
        assert_eq!(rsi.update(&bar(open, close)), Ok(()));
    }
    assert_eq!(rsi.update(&bar(10, 10)), Ok(()));
    assert_eq!(rsi.get_value(), Err(IndicatorError::InsufficientData));
    assert_eq!(rsi.update(&bar(10, 20)), Ok(()));
    assert_eq!(rsi.get_value(), Ok(100 * RSI_SCALE * 70 / 90));
    assert_eq!(rsi.update(&bar(i64::MIN, i64::MAX)), Ok(()));
    assert_eq!(rsi.update(&bar(i64::MAX, i64::MIN)), Ok(()));
    assert_eq!(RSI::new(0, true).update(&bar(0, 1)), Err(IndicatorError::InsufficientData));
}

fn get_date(year: i32, month: u32, day: u32) -> Timestamp {
    let datetime = chrono::NaiveDate::from_ymd_opt(year, month, day)
        .unwrap()
        .and_hms_opt(0, 0, 0)
        .unwrap()
        .and_utc();
    Timestamp::from_secs(datetime.timestamp())
}

/// A daily series from 2014 to 2023-11-06 that holds the rates of the days
/// that the tests ask for.
fn daily_rates() -> Vec<Option<DFF>> {
    let steps = [
        (get_date(2014, 1, 1), 70_000),
        (get_date(2015, 1, 1), 120_000),
        (get_date(2015, 6, 1), 130_000),
        (get_date(2016, 1, 1), 400_000),
        (get_date(2020, 4, 1), 70_000),
        (get_date(2021, 6, 1), 80_000),
        (get_date(2022, 4, 1), 5_330_000),
    ];
    let end = get_date(2023, 11, 6);
    let mut records = Vec::new();
    let mut day = steps[0].0;
    while day.secs <= end.secs {
        let rate = steps.iter().rev().find(|(from, _)| from.secs <= day.secs).unwrap().1;
        records.push(Some(DFF { dff: rate, date: day }));
        day = Timestamp::from_secs(day.secs + 86_400);
    }
    records
}

fn at(datetime: Timestamp) -> Ticker {
    Ticker { datetime, open: 0, high: 0, low: 0, close: 0, volume: 0 }
}

#[test]
fn no_update() {
    let effr = EFFR::from_records(daily_rates());
    assert!(effr.get_value().is_err());
}

#[test]
fn middle() {
    let mut effr = EFFR::from_records(daily_rates());
    let datetimes = vec![
        (get_date(2014, 02, 20), 70_000),
        (get_date(2014, 03, 03), 70_000),
        (get_date(2015, 02, 12), 120_000),
        (get_date(2015, 09, 29), 130_000),
        (get_date(2021, 03, 02), 70_000),
        (get_date(2023, 09, 27), 5_330_000),
    ];
    for (datetime, expected) in datetimes {
        assert!(effr.update(&at(datetime)).is_ok());
        assert_eq!(effr.get_value().unwrap(), expected);
    }
}

#[test]
fn end() {
    let mut effr = EFFR::from_records(daily_rates());
    let datetime = get_date(2025, 10, 20);
    assert!(effr.update(&at(datetime)).is_err());
    assert!(effr.get_value().is_err());
}

#[test]
fn second_before_first() {
    let mut effr = EFFR::from_records(daily_rates());
    let expected_on_first = 80_000;
    let first = get_date(2021, 10, 20);
    let second = get_date(2019, 10, 20);
    assert!(effr.update(&at(first)).is_ok());
    assert_eq!(effr.get_value().unwrap(), expected_on_first);
    assert!(effr.update(&at(second)).is_ok());
    assert_eq!(effr.get_value().unwrap(), expected_on_first);
}

#[test]
fn effr_passes_over_early_and_unreadable_records() {
    let day = |d: i64| Timestamp::from_secs(d * 86_400);
    let records = vec![
        Some(DFF { dff: 1, date: day(1) }),
        None,
        Some(DFF { dff: 2, date: day(2) }),
        Some(DFF { dff: 3, date: day(3) }),
        Some(DFF { dff: 4, date: day(4) }),
    ];
    let mut effr = EFFR::from_records(records);
    assert_eq!(effr.update(&at(day(2))), Ok(()));
    assert_eq!(effr.get_value(), Ok(2));
    assert_eq!(effr.get_date(), day(2));
    assert_eq!(effr.at(0), Err(IndicatorError::IndexOutOfRange));
    let mut copy = effr.clone();
    assert_eq!(copy.get_value(), Ok(2));
    assert_eq!(copy.update(&at(day(0))), Ok(()));
    assert_eq!(copy.get_value(), Ok(1));
    assert_eq!(effr.update(&at(Timestamp::new(3 * 86_400, 1))), Ok(()));
    assert_eq!(effr.get_value(), Ok(4));
    assert_eq!(effr.update(&at(day(1))), Err(IndicatorError::InsufficientData));
    assert_eq!(effr.get_value(), Ok(4));
}

#[test]
fn rsi_takes_ticks_without_movement() {
    let mut plain = RSI::new(1, false);
    assert_eq!(plain.update(&bar(10, 10)), Ok(()));
    assert_eq!(plain.update(&bar(10, 10)), Ok(()));
    assert_eq!(plain.update(&bar(10, 30)), Ok(()));
    assert_eq!(plain.get_value(), Err(IndicatorError::InsufficientData));
    assert_eq!(plain.at(0), Err(IndicatorError::IndexOutOfRange));
    let mut smoothed = RSI::new(1, true);
    assert_eq!(smoothed.update(&bar(10, 10)), Ok(()));
    assert_eq!(smoothed.update(&bar(10, 10)), Ok(()));
    assert_eq!(smoothed.get_value(), Err(IndicatorError::InsufficientData));
    assert_eq!(smoothed.update(&bar(10, 30)), Ok(()));
    assert_eq!(smoothed.get_value(), Ok(100 * RSI_SCALE));
    assert_eq!(smoothed.update(&bar(30, 10)), Ok(()));
    assert_eq!(smoothed.get_value(), Ok(0));
    assert_eq!(smoothed.at(0), Ok(100 * RSI_SCALE));
}
