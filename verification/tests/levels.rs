use mqtt_publisher::dispatch::{Delivery, Publish};
use mqtt_publisher::level::{amount_of, is_plain, read_amount, LevelError, LevelRow, PriceLevel};

fn row() -> LevelRow {
    LevelRow {
        market_id: "3".to_string(),
        direction: Some("ask".to_string()),
        price: Some("100".to_string()),
        total_size: Some("8".to_string()),
        level: Some(2),
    }
}

const MISSING: LevelError = LevelError::PriceMissing;
const NOT_DECIMAL: LevelError = LevelError::PriceNotDecimal;
const TOO_BIG: LevelError = LevelError::PriceTooBig;

fn read(text: &str) -> Result<u128, LevelError> {
    read_amount(&Some(text.to_string()), MISSING, NOT_DECIMAL, TOO_BIG)
}

#[test]
fn a_row_is_published_under_market_side_and_rank() {
    assert_eq!(
        row().publish(),
        Ok(Publish {
            topic: "levels/3/ask/2".to_string(),
            payload: r#"{"price":100,"amount":8}"#.to_string(),
            delivery: Delivery::AtLeastOnce,
            retain: false,
        })
    );
}

#[test]
fn payload_of_a_level() {
    assert_eq!(PriceLevel { price: 0, amount: u128::MAX }.payload(), r#"{"price":0,"amount":340282366920938463463374607431768211455}"#);
}

#[test]
fn a_missing_side_is_an_error() {
    let r = LevelRow { direction: None, level: None, price: None, total_size: None, ..row() };
    assert_eq!(r.publish(), Err(LevelError::DirectionMissing));
}

#[test]
fn a_missing_rank_is_an_error() {
    let r = LevelRow { level: None, price: None, total_size: None, ..row() };
    assert_eq!(r.publish(), Err(LevelError::LevelMissing));
}

#[test]
fn a_missing_price_is_an_error() {
    let r = LevelRow { price: None, total_size: None, ..row() };
    assert_eq!(r.publish(), Err(LevelError::PriceMissing));
}

#[test]
fn a_price_beyond_128_bits_is_an_error() {
    let r = LevelRow { price: Some("340282366920938463463374607431768211456".to_string()), total_size: None, ..row() };
    assert_eq!(r.publish(), Err(LevelError::PriceTooBig));
}

#[test]
fn a_price_that_is_no_number_is_an_error() {
    let r = LevelRow { price: Some("dear".to_string()), total_size: None, ..row() };
    assert_eq!(r.publish(), Err(LevelError::PriceNotDecimal));
}

#[test]
fn a_missing_size_is_an_error() {
    let r = LevelRow { total_size: None, ..row() };
    assert_eq!(r.publish(), Err(LevelError::TotalSizeMissing));
}

#[test]
fn a_size_beyond_128_bits_is_an_error() {
    let r = LevelRow { total_size: Some("1000000000000000000000000000000000000000".to_string()), ..row() };
    assert_eq!(r.publish(), Err(LevelError::TotalSizeTooBig));
}

#[test]
fn a_size_that_is_no_number_is_an_error() {
    let r = LevelRow { total_size: Some("".to_string()), ..row() };
    assert_eq!(r.publish(), Err(LevelError::TotalSizeNotDecimal));
}

#[test]
fn a_negative_amount_is_too_big() {
    assert_eq!(read("-1"), Err(TOO_BIG));
    assert_eq!(read("-0.5"), Err(TOO_BIG));
}

#[test]
fn the_largest_amount_is_read_in_full() {
    assert_eq!(read("340282366920938463463374607431768211455"), Ok(u128::MAX));
    assert_eq!(read("0"), Ok(0));
    assert_eq!(read("18446744073709551616"), Ok(18446744073709551616));
}

#[test]
fn a_fraction_is_cut_off() {
    assert_eq!(read("12.7"), Ok(12));
    assert_eq!(read("8.000"), Ok(8));
    assert_eq!(read("0.9"), Ok(0));
}

#[test]
fn an_exponent_is_not_plain() {
    assert!(is_plain("123.45"));
    assert!(is_plain(""));
    assert!(!is_plain("1e3"));
    assert!(!is_plain("1E3"));
    assert_eq!(read("1e3"), Err(NOT_DECIMAL));
    assert_eq!(read("1E-9999999999"), Err(NOT_DECIMAL));
}

#[test]
fn a_missing_amount_is_missing() {
    assert_eq!(read_amount(&None, MISSING, NOT_DECIMAL, TOO_BIG), Err(MISSING));
}

#[test]
fn amount_of_tells_the_three_outcomes_apart() {
    assert_eq!(amount_of(None, MISSING, NOT_DECIMAL, TOO_BIG), Err(NOT_DECIMAL));
    assert_eq!(amount_of(Some(None), MISSING, NOT_DECIMAL, TOO_BIG), Err(TOO_BIG));
    assert_eq!(amount_of(Some(Some(5)), MISSING, NOT_DECIMAL, TOO_BIG), Ok(5));
}

#[test]
fn rank_and_side_are_written_as_they_come() {
    let r = LevelRow { direction: Some("bid".to_string()), level: Some(10), market_id: "42".to_string(), ..row() };
    assert_eq!(r.publish().unwrap().topic, "levels/42/bid/10");
    let odd = LevelRow { level: Some(-1), ..row() };
    assert_eq!(odd.publish().unwrap().topic, "levels/3/ask/-1");
}

#[test]
fn what_the_errors_say() {
    assert_eq!(LevelError::DirectionMissing.message(), "direction is None");
    assert_eq!(LevelError::LevelMissing.message(), "level is None");
    assert_eq!(LevelError::PriceMissing.message(), "price is None");
    assert_eq!(LevelError::PriceTooBig.message(), "price is too big");
    assert_eq!(LevelError::TotalSizeMissing.message(), "total_size is None");
    assert_eq!(LevelError::TotalSizeTooBig.message(), "total_size is too big");
    assert_eq!(LevelError::PriceNotDecimal.message(), "price is not a plain decimal");
    assert_eq!(LevelError::TotalSizeNotDecimal.message(), "total_size is not a plain decimal");
}

#[test]
fn price_levels_are_switched_on_by_yes_alone() {
    assert!(mqtt_publisher::level::publishes_price_levels("yes"));
    assert!(!mqtt_publisher::level::publishes_price_levels("no"));
    assert!(!mqtt_publisher::level::publishes_price_levels("Yes"));
    assert!(!mqtt_publisher::level::publishes_price_levels(""));
    assert!(!mqtt_publisher::level::publishes_price_levels("true"));
}

#[test]
fn the_period_is_fifty_milliseconds_and_ten_levels_are_kept() {
    assert_eq!(mqtt_publisher::level::LEVEL_PERIOD_MILLIS, 50);
    assert_eq!(mqtt_publisher::level::LEVELS_PER_SIDE, 10);
}
