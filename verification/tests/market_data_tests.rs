use polybot::clock::Timestamp;
use polybot::decimal::{sub, Decimal};
use polybot::feeds::{apply_trade, apply_trade_at, parse_trade};
use polybot::market_data::{MarketData, PriceSource, HISTORY_CAPACITY};

fn d(m: i128, s: u32) -> Decimal {
    Decimal { mantissa: m, scale: s }
}

fn at(secs: i64) -> Timestamp {
    Timestamp { secs, nanos: 0 }
}

fn with_prices(prices: &[i64]) -> MarketData {
    let mut m = MarketData::new();
    for (i, p) in prices.iter().enumerate() {
        m.update_spot_at(Decimal::from_i64(*p), None, at(i as i64));
    }
    m
}

#[test]
fn spot_is_the_latest_price() {
    let mut m = MarketData::new();
    assert!(m.current_spot().is_none());
    m.update_spot_at(d(1005, 1), Some(d(2, 0)), at(7));
    let s = m.current_spot().unwrap();
    assert_eq!(s.price, d(1005, 1));
    assert_eq!(s.volume, Some(d(2, 0)));
    assert_eq!(s.timestamp, at(7));
    assert_eq!(s.source, PriceSource::Binance);
    m.update_spot(d(1010, 1), None);
    assert_eq!(m.current_spot().unwrap().price, d(1010, 1));
}

#[test]
fn history_keeps_the_last_thousand() {
    let prices: Vec<i64> = (1..=(HISTORY_CAPACITY as i64 + 5)).collect();
    let m = with_prices(&prices);
    // momentum over the whole window: from price 6 to price 1005
    let mom = m.momentum(HISTORY_CAPACITY).unwrap();
    let expected = polybot::decimal::div(Decimal::from_i64(999), Decimal::from_i64(6));
    assert_eq!(sub(mom, expected).mantissa, 0);
    assert_eq!(m.momentum(HISTORY_CAPACITY + 1), None);
}

#[test]
fn momentum_cases() {
    let m = with_prices(&[100, 105, 110]);
    // from 100 to 110
    assert_eq!(sub(m.momentum(3).unwrap(), d(1, 1)).mantissa, 0);
    assert_eq!(m.momentum(1).unwrap().mantissa, 0);
    assert_eq!(m.momentum(0), None);
    assert_eq!(m.momentum(4), None);
    let z = with_prices(&[0, 5]);
    assert_eq!(z.momentum(2), None);
    assert_eq!(z.try_momentum(2), Some(None));
}

#[test]
fn implied_probability_cases() {
    let mut m = MarketData::new();
    assert_eq!(m.implied_probability(), None);
    m.update_polymarket_prices(d(3, 1), d(1, 1));
    assert_eq!(sub(m.implied_probability().unwrap(), d(75, 2)).mantissa, 0);
    m.update_polymarket_prices(d(0, 0), d(0, 0));
    assert_eq!(m.implied_probability(), None);
    let huge = Decimal { mantissa: 79228162514264337593543950335, scale: 0 };
    m.update_polymarket_prices(huge, huge);
    assert_eq!(m.try_implied_probability(), None);
}

#[test]
fn period_returns_cases() {
    let m = with_prices(&[0, 100, 110]);
    // most recent first: 100 -> 110, then 0 -> 100 (older price zero)
    let r = m.period_returns(2).unwrap();
    assert_eq!(r.len(), 2);
    assert_eq!(sub(r[0].unwrap(), d(1, 1)).mantissa, 0);
    assert_eq!(r[1], None);
    assert!(m.period_returns(3).is_none());
    assert!(m.period_returns(0).is_none());
}

#[test]
fn trades_from_messages() {
    assert_eq!(parse_trade("100.5", "0.25"), Some((d(1005, 1), Some(d(25, 2)))));
    assert_eq!(parse_trade("100.5", "x"), Some((d(1005, 1), None)));
    assert_eq!(parse_trade("x", "0.25"), None);
    let mut m = MarketData::new();
    assert!(!apply_trade_at(&mut m, "bad", "1", at(1)));
    assert!(m.current_spot().is_none());
    assert!(apply_trade_at(&mut m, "42", "1", at(1)));
    assert_eq!(m.current_spot().unwrap().price, d(42, 0));
    assert!(apply_trade(&mut m, "43", "1"));
    assert_eq!(m.current_spot().unwrap().price, d(43, 0));
}

#[test]
fn default_market_data_is_empty() {
    let m = MarketData::default();
    assert!(m.current_spot().is_none());
    assert_eq!(m.implied_probability(), None);
}
