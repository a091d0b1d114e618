use polybot::clock::Timestamp;
use polybot::decimal::Decimal;
use polybot::polymarket::{
    countdown, current_market_slug, format_countdown, find_quarter_hour_market, get_time_to_next_interval, market_end, market_epoch,
    market_slug_at, market_spread, minute_second, outcome_price_texts, try_market_spread, MarketMetrics,
};

fn d(m: i128, s: u32) -> Decimal {
    Decimal { mantissa: m, scale: s }
}

#[test]
fn market_epochs() {
    assert_eq!(market_epoch(1_700_000_000), 1_699_999_200);
    assert_eq!(market_epoch(900), 900);
    assert_eq!(market_epoch(899), 0);
    assert_eq!(market_slug_at(1_700_000_000), "btc-updown-15m-1699999200");
    assert!(current_market_slug().starts_with("btc-updown-15m-"));
}

#[test]
fn countdowns() {
    assert_eq!(countdown(7, 0), (8, 0));
    assert_eq!(countdown(7, 30), (7, 30));
    assert_eq!(countdown(14, 59), (0, 1));
    assert_eq!(countdown(15, 0), (15, 0));
    assert_eq!(countdown(59, 1), (0, 59));
    let t = get_time_to_next_interval();
    assert!(t.contains("m ") && t.ends_with('s'));
}

#[test]
fn outcome_prices() {
    assert_eq!(
        outcome_price_texts("[\"0.795\", \"0.205\"]"),
        Some(("0.795".to_string(), "0.205".to_string()))
    );
    assert_eq!(outcome_price_texts("[\"0.5\"]"), None);
    assert_eq!(outcome_price_texts("not json"), None);
}

#[test]
fn finding_the_market() {
    let qs = vec![
        "Will ETH go up?".to_string(),
        "Bitcoin Up or Down - 15 Minutes".to_string(),
        "BTC 15m DOWN".to_string(),
    ];
    assert_eq!(find_quarter_hour_market(&qs), Some(1));
    let none = vec!["Bitcoin in 2030".to_string(), "15 apples".to_string()];
    assert_eq!(find_quarter_hour_market(&none), None);
}

#[test]
fn spreads() {
    assert_eq!(market_spread(d(795, 3), d(205, 3)), d(0, 3));
    assert_eq!(market_spread(d(6, 1), d(6, 1)), d(2, 1));
    assert_eq!(market_spread(d(3, 1), d(3, 1)), d(4, 1));
    let huge = Decimal { mantissa: 79228162514264337593543950335, scale: 0 };
    assert_eq!(try_market_spread(huge, huge), None);
}

#[test]
fn market_ends() {
    assert_eq!(market_end(Some("1970-01-01T00:01:40Z")), Some(Timestamp { secs: 100, nanos: 0 }));
    assert_eq!(market_end(Some("garbage")), None);
    assert_eq!(market_end(None), None);
}

#[test]
fn metrics() {
    let now = Timestamp { secs: 5, nanos: 0 };
    let l = MarketMetrics::loading_at(now);
    assert_eq!(l.question, "BTC 15-Min Market (Loading...)");
    assert_eq!(l.yes_price, d(5, 1));
    assert_eq!(l.time_remaining, "Loading...");
    let m = MarketMetrics::from_quote(
        "id1".to_string(),
        "q".to_string(),
        Some((d(7, 1), d(2, 1))),
        d(100, 0),
        d(50, 0),
        Some("1970-01-01T00:00:10+00:00"),
        "3m 00s".to_string(),
        now,
    );
    assert_eq!(m.spread, d(1, 1));
    assert_eq!(m.ends_at, Some(Timestamp { secs: 10, nanos: 0 }));
    let dflt = MarketMetrics::from_quote("i".to_string(), "q".to_string(), None, d(0, 0), d(0, 0), None, String::new(), now);
    assert_eq!(dflt.yes_price, d(5, 1));
    assert_eq!(dflt.spread, d(0, 1));
    let copy = m.duplicate();
    assert_eq!(copy.market_id, "id1");
    assert!(MarketMetrics::loading().ends_at.is_none());
}

#[test]
fn minutes_and_seconds_of_an_instant() {
    assert_eq!(minute_second(1_700_000_000), (13, 20));
    assert_eq!(minute_second(0), (0, 0));
    assert_eq!(minute_second(-1), (59, 59));
    assert_eq!(minute_second(i64::MIN), (i64::MIN.rem_euclid(3600) as u32 / 60, i64::MIN.rem_euclid(60) as u32));
}

#[test]
fn default_metrics_are_loading() {
    let m = MarketMetrics::default();
    assert_eq!(m.question, "BTC 15-Min Market (Loading...)");
    assert_eq!(m.no_price, d(5, 1));
    assert_eq!(m.spread, d(0, 0));
}

#[test]
fn countdown_texts() {
    assert_eq!(format_countdown(8, 0), "8m 00s");
    assert_eq!(format_countdown(7, 5), "7m 05s");
    assert_eq!(format_countdown(14, 30), "14m 30s");
    assert_eq!(polybot::polymarket::market_slug(0), "btc-updown-15m-0");
    assert_eq!(polybot::text::u64_to_text(u64::MAX), u64::MAX.to_string());
    assert_eq!(polybot::text::u64_to_text(1203), "1203");
}
