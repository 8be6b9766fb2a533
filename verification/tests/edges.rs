use backtester::arith::div_floor;
use backtester::clock::{nanos_between, new_session, SESSION_GAP_NANOS};
use backtester::dates::{format_date, format_datetime, midnight_at, parse_date, DatetimeField};
use backtester::matching::{at_limit, at_stop, evaluate, Decision};
use backtester::types::{OrderSide, OrderType, Position, Timestamp};
use backtester::util::config::{ArgumentError, Config, Notice};

fn arguments(words: &[&str]) -> Vec<String> {
    words.iter().map(|w| w.to_string()).collect()
}

#[test]
fn dates_are_written_as_chrono_writes_them() {
    let at = Timestamp::new(1_431_648_000, 999_999_999);
    assert_eq!(format_datetime(at), Some("2015-05-15 00:00:00".to_string()));
    assert_eq!(format_date(at), Some("2015-05-15".to_string()));
    assert_eq!(format_datetime(Timestamp::from_secs(-1)), Some("1969-12-31 23:59:59".to_string()));
    assert_eq!(format_datetime(Timestamp::from_secs(i64::MAX)), None);
    assert_eq!(format_date(Timestamp::new(0, u32::MAX)), None);
}

#[test]
fn dates_are_read_as_chrono_reads_them() {
    assert_eq!(parse_date("2015-05-15"), Some(Timestamp::from_secs(1_431_648_000)));
    assert_eq!(parse_date("1970-01-01"), Some(Timestamp::from_secs(0)));
    assert_eq!(parse_date("2015-02-30"), None);
    assert_eq!(parse_date("15 May 2015"), None);
    assert_eq!(midnight_at(Some(86_400)), Some(Timestamp::new(86_400, 0)));
    assert_eq!(midnight_at(None), None);
}

#[test]
fn a_datetime_field_is_a_number_of_seconds_or_a_date() {
    assert_eq!(DatetimeField::Number(61).timestamp(), Some(Timestamp::from_secs(61)));
    assert_eq!(DatetimeField::Number(i64::MAX as u64 + 1).timestamp(), None);
    let date = DatetimeField::String("2015-05-15".to_string());
    assert_eq!(date.timestamp(), Some(Timestamp::from_secs(1_431_648_000)));
    assert_eq!(DatetimeField::String("soon".to_string()).timestamp(), None);
}

#[test]
fn arguments_give_the_settings() {
    let (config, notices) = Config::new(&arguments(&["-a", "-d", "data", "--data_dir", "other"]));
    let config = config.unwrap();
    assert_eq!(config.get_root_directory(), "other");
    assert!(config.get_gpu_enable());
    assert!(notices.is_empty());

    let (config, notices) = Config::new(&arguments(&["x", "-d", "-h", "--help", "-x", ""]));
    let config = config.unwrap();
    assert_eq!(config.get_root_directory(), "-h");
    assert!(!config.get_gpu_enable());
    assert_eq!(
        notices,
        vec![
            Notice::UnknownPositional("x".to_string()),
            Notice::Help,
            Notice::UnknownArgument("-x".to_string()),
            Notice::UnknownPositional("".to_string()),
        ]
    );
    assert_eq!(Config::help(), "Welcome to miner!");
}

#[test]
fn arguments_without_a_directory_give_none() {
    let (config, notices) = Config::new(&arguments(&["--accelerate", "-h"]));
    assert_eq!(config, Err(ArgumentError::MissingDirectory));
    assert_eq!(notices, vec![Notice::Help]);
    let (config, _) = Config::new(&arguments(&["-d", "data", "-d"]));
    assert_eq!(config, Err(ArgumentError::MissingValue));
    assert_eq!(Config::new(&Vec::new()).0, Err(ArgumentError::MissingDirectory));
}

#[test]
fn a_session_opens_after_more_than_eight_hours() {
    let start = Timestamp::new(100, 5);
    let eight_hours = Timestamp::new(100 + 8 * 3_600, 5);
    let later = Timestamp::new(100 + 8 * 3_600, 6);
    assert_eq!(nanos_between(start, eight_hours), SESSION_GAP_NANOS);
    assert_eq!(nanos_between(later, start), -SESSION_GAP_NANOS - 1);
    assert!(new_session(None, start));
    assert!(!new_session(Some(start), eight_hours));
    assert!(new_session(Some(start), later));
    assert!(!new_session(Some(later), start));
    let far = nanos_between(Timestamp::new(i64::MIN, u32::MAX), Timestamp::new(i64::MAX, 0));
    assert_eq!(far, (u64::MAX as i128) * 1_000_000_000 - u32::MAX as i128);
}

#[test]
fn the_matching_rules_are_inclusive_at_the_boundary() {
    assert!(at_limit(OrderSide::Buy, 10, 10) && !at_limit(OrderSide::Buy, 11, 10));
    assert!(at_limit(OrderSide::Sell, 10, 10) && !at_limit(OrderSide::Sell, 9, 10));
    assert!(at_stop(OrderSide::Buy, 10, 10) && !at_stop(OrderSide::Buy, 9, 10));
    assert!(at_stop(OrderSide::Sell, 10, 10) && !at_stop(OrderSide::Sell, 11, 10));
    let buy = OrderSide::Buy;
    let sell = OrderSide::Sell;
    assert_eq!(evaluate(OrderType::Market, sell, 7, None, false), Decision::Fill(7));
    assert_eq!(evaluate(OrderType::Limit(7), buy, 7, None, false), Decision::Fill(7));
    assert_eq!(evaluate(OrderType::Limit(7), buy, 8, None, true), Decision::Keep);
    assert_eq!(evaluate(OrderType::Stop(7), buy, 7, None, false), Decision::Convert(OrderType::Market));
    assert_eq!(evaluate(OrderType::Stop(7), sell, 8, None, false), Decision::Keep);
    let stop_limit = OrderType::StopLimit(5, 7);
    assert_eq!(evaluate(stop_limit, buy, 7, None, false), Decision::Convert(OrderType::Limit(7)));
    assert_eq!(evaluate(stop_limit, buy, 5, None, false), Decision::Convert(OrderType::Limit(7)));
    assert_eq!(evaluate(stop_limit, buy, 8, None, false), Decision::Keep);
    assert_eq!(evaluate(stop_limit, buy, 4, None, false), Decision::Keep);
    assert_eq!(evaluate(OrderType::MOO, buy, 7, Some(3), true), Decision::Fill(7));
    assert_eq!(evaluate(OrderType::MOO, buy, 7, Some(3), false), Decision::Keep);
    assert_eq!(evaluate(OrderType::MOC, buy, 7, Some(3), true), Decision::Fill(3));
    assert_eq!(evaluate(OrderType::MOC, buy, 7, None, true), Decision::Keep);
    assert_eq!(evaluate(OrderType::LOO(7), sell, 7, Some(3), true), Decision::Fill(7));
    assert_eq!(evaluate(OrderType::LOO(7), sell, 6, Some(9), true), Decision::Keep);
    assert_eq!(evaluate(OrderType::LOC(3), buy, 9, Some(3), true), Decision::Fill(3));
    assert_eq!(evaluate(OrderType::LOC(3), buy, 1, Some(4), true), Decision::Keep);
    assert_eq!(evaluate(OrderType::LOC(3), buy, 1, Some(3), false), Decision::Keep);
}

#[test]
fn quotients_and_average_prices_round_down() {
    assert_eq!(div_floor(7, 2), 3);
    assert_eq!(div_floor(-7, 2), -4);
    assert_eq!(div_floor(-8, 2), -4);
    assert_eq!(div_floor(i128::MIN, 1), i128::MIN);
    assert_eq!(div_floor(i128::MIN, i128::MAX), -2);
    let position = |amount: i128, entered: i128, cost: i128| Position {
        symbol: "A".to_string(),
        amount,
        entered,
        cost,
    };
    assert_eq!(position(3, 3, 10).price(), Some(3));
    assert_eq!(position(-3, 3, 10).price(), Some(3));
    assert_eq!(position(2, 3, -10).price(), Some(-4));
    assert_eq!(position(5, 0, 10).price(), None);
    assert_eq!(position(5, -1, 10).price(), None);
    assert_eq!(position(i128::MIN, i128::MAX, i128::MIN).price(), Some(-2));
}
