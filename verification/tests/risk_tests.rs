use polybot::clock::Timestamp;
use polybot::decimal::Decimal;
use polybot::exchange::Exchange;
use polybot::risk::{PositionSide, RiskCheck, RiskManager};
use polybot::signals::Direction;

fn at(secs: i64, nanos: u32) -> Timestamp {
    Timestamp { secs, nanos }
}

#[test]
fn small_trade_is_allowed() {
    let mut r = RiskManager::new_at(Decimal::from_i64(100), Decimal::from_i64(1000), at(0, 0));
    let c = r.check_trade_at("m", Decimal::from_i64(10), PositionSide::Yes, at(5, 0));
    assert!(matches!(c, RiskCheck::Allow));
}

#[test]
fn large_trade_is_reduced() {
    let mut r = RiskManager::new_at(Decimal::from_i64(100), Decimal::from_i64(10), at(0, 0));
    match r.check_trade_at("m", Decimal::from_i64(20), PositionSide::No, at(5, 0)) {
        RiskCheck::Reduce(msg) => assert_eq!(msg, "Trade size 20 exceeds limit 10"),
        other => panic!("expected a reduction, got {:?}", other),
    }
    // exactly at the limit is allowed
    assert!(matches!(r.check_trade_at("m", Decimal::from_i64(10), PositionSide::No, at(6, 0)), RiskCheck::Allow));
}

#[test]
fn negative_loss_limit_blocks() {
    let mut r = RiskManager::new_at(Decimal::from_i64(-1), Decimal::from_i64(10), at(0, 0));
    match r.check_trade_at("m", Decimal::from_i64(20), PositionSide::Yes, at(5, 0)) {
        RiskCheck::Block(msg) => assert_eq!(msg, "Daily loss limit reached: 0 USDC"),
        other => panic!("expected a block, got {:?}", other),
    }
}

#[test]
fn daily_figure_resets_after_more_than_a_day() {
    let mut r = RiskManager::new_at(Decimal::from_i64(100), Decimal::from_i64(10), at(0, 0));
    assert_eq!(r.total_pnl_at(at(86_400, 0)), Decimal::zero());
    assert_eq!(r.total_pnl_at(at(86_400, 1)), Decimal::zero());
    assert_eq!(r.total_pnl(), Decimal::zero());
}

#[test]
fn positions_start_empty() {
    let r = RiskManager::new(Decimal::from_i64(100), Decimal::from_i64(10));
    assert!(r.positions().is_empty());
}

#[test]
fn exchange_puts_signals_to_the_risk_manager() {
    let ex = Exchange::new("btc-15m".to_string());
    let mut r = RiskManager::new(Decimal::from_i64(100), Decimal::from_i64(10));
    assert!(ex.execute_signal(&mut r, Direction::Hold, Decimal::from_i64(5)).is_none());
    assert!(matches!(ex.execute_signal(&mut r, Direction::Up, Decimal::from_i64(5)), Some(RiskCheck::Allow)));
    assert!(matches!(ex.execute_signal(&mut r, Direction::Down, Decimal::from_i64(50)), Some(RiskCheck::Reduce(_))));
}

#[test]
fn opposite_side() {
    assert_eq!(PositionSide::Yes.opposite(), PositionSide::No);
    assert_eq!(PositionSide::No.opposite(), PositionSide::Yes);
}

#[test]
fn limit_text_writes_points_signs_and_padding() {
    let mut r = RiskManager::new_at(Decimal::from_i64(100), Decimal { mantissa: -7, scale: 0 }, at(0, 0));
    match r.check_trade_at("m", Decimal { mantissa: 12345, scale: 2 }, PositionSide::Yes, at(5, 0)) {
        RiskCheck::Reduce(msg) => assert_eq!(msg, "Trade size 123.45 exceeds limit -7"),
        other => panic!("expected a reduction, got {:?}", other),
    }
    let mut r = RiskManager::new_at(Decimal::from_i64(100), Decimal { mantissa: -5, scale: 3 }, at(0, 0));
    match r.check_trade_at("m", Decimal { mantissa: 0, scale: 2 }, PositionSide::Yes, at(5, 0)) {
        RiskCheck::Reduce(msg) => assert_eq!(msg, "Trade size 0.00 exceeds limit -0.005"),
        other => panic!("expected a reduction, got {:?}", other),
    }
}
