use polybot::clock::Timestamp;
use polybot::decimal::Decimal;
use polybot::paper_trading::{PaperTrading, PaperTradingStats, PositionStatus};
use polybot::risk::PositionSide;
use polybot::signals::Direction;

fn d(m: i128, s: u32) -> Decimal {
    Decimal { mantissa: m, scale: s }
}

fn at(secs: i64) -> Timestamp {
    Timestamp { secs, nanos: 0 }
}

fn sim() -> PaperTrading {
    PaperTrading::new(Decimal::from_i64(1000), Decimal::from_i64(10), "btc-15m".to_string())
}

#[test]
fn new_simulation_is_empty() {
    let p = sim();
    let st = p.get_stats();
    assert_eq!(
        st,
        PaperTradingStats {
            total_trades: 0,
            winning_trades: 0,
            losing_trades: 0,
            total_pnl: d(0, 0),
            avg_trade_pnl: d(0, 0),
            max_drawdown: d(0, 0),
            current_equity: d(1000, 0),
            initial_equity: d(1000, 0),
            open_positions: 0,
        }
    );
    assert!(p.get_open_positions().is_empty());
    assert!(p.get_recent_trades(5).is_empty());
}

#[test]
fn up_opens_a_yes_position() {
    let mut p = sim();
    p.execute_signal_at(Direction::Up, d(100, 0), at(1000));
    let open = p.get_open_positions();
    assert_eq!(open.len(), 1);
    assert_eq!(open[0].id, 1000);
    assert_eq!(open[0].side, PositionSide::Yes);
    assert_eq!(open[0].size, d(10, 0));
    assert_eq!(open[0].entry_price, d(100, 0));
    assert_eq!(open[0].entry_time, at(1000));
    assert_eq!(open[0].status, PositionStatus::Open);
    assert_eq!(open[0].market_id, "btc-15m");
    assert_eq!(p.get_stats().open_positions, 1);
}

#[test]
fn same_direction_twice_opens_once() {
    let mut p = sim();
    p.execute_signal_at(Direction::Up, d(100, 0), at(1000));
    p.execute_signal_at(Direction::Up, d(120, 0), at(2000));
    let open = p.get_open_positions();
    assert_eq!(open.len(), 1);
    assert_eq!(open[0].entry_price, d(100, 0));
    assert_eq!(p.get_stats().total_trades, 0);
}

#[test]
fn reversal_closes_the_other_side_and_records_the_trade() {
    let mut p = sim();
    p.execute_signal_at(Direction::Up, d(100, 0), at(1000));
    p.execute_signal_at(Direction::Down, d(110, 0), at(2000));
    // (110 - 100) * 10 / 100 = 1
    let trades = p.get_recent_trades(10);
    assert_eq!(trades.len(), 1);
    assert_eq!(trades[0].side, PositionSide::Yes);
    assert_eq!(trades[0].price, d(110, 0));
    assert_eq!(trades[0].size, d(10, 0));
    assert_eq!(trades[0].timestamp, at(2000));
    assert!(!trades[0].pnl.lt_zero() && trades[0].pnl.gt_zero());
    assert_eq!(polybot::decimal::sub(trades[0].pnl, Decimal::one()).mantissa, 0);
    let open = p.get_open_positions();
    assert_eq!(open.len(), 1);
    assert_eq!(open[0].side, PositionSide::No);
    assert_eq!(open[0].entry_price, d(110, 0));
    let st = p.get_stats();
    assert_eq!(st.total_trades, 1);
    assert_eq!(st.winning_trades, 1);
    assert_eq!(st.losing_trades, 0);
    assert_eq!(polybot::decimal::sub(st.current_equity, d(1001, 0)).mantissa, 0);
    assert_eq!(polybot::decimal::sub(st.avg_trade_pnl, Decimal::one()).mantissa, 0);
}

#[test]
fn losing_no_position_is_recorded_as_a_loss() {
    let mut p = sim();
    p.execute_signal_at(Direction::Down, d(100, 0), at(1000));
    p.execute_signal_at(Direction::Up, d(150, 0), at(2000));
    // NO: (100 - 150) * 10 / 100 = -5
    let st = p.get_stats();
    assert_eq!(st.total_trades, 1);
    assert_eq!(st.winning_trades, 0);
    assert_eq!(st.losing_trades, 1);
    assert_eq!(polybot::decimal::sub(st.total_pnl, Decimal::from_i64(-5)).mantissa, 0);
    assert_eq!(polybot::decimal::sub(st.current_equity, Decimal::from_i64(995)).mantissa, 0);
}

#[test]
fn hold_marks_positions_within_the_band() {
    let mut p = sim();
    p.execute_signal_at(Direction::Up, d(100, 0), at(1000));
    p.execute_signal_at(Direction::Hold, d(130, 0), at(1001));
    // (130 - 100) * 10 / 100 = 3, return 3 / 10 = 0.3: within the band
    let open = p.get_open_positions();
    assert_eq!(open.len(), 1);
    assert_eq!(polybot::decimal::sub(open[0].unrealized_pnl, Decimal::from_i64(3)).mantissa, 0);
    assert_eq!(p.get_stats().total_trades, 0);
}

#[test]
fn hold_closes_positions_outside_the_band() {
    let mut p = sim();
    p.execute_signal_at(Direction::Up, d(100, 0), at(1000));
    // (600 - 100) * 10 / 100 = 50, return 5 > 4: closed
    p.execute_signal_at(Direction::Hold, d(600, 0), at(1001));
    assert!(p.get_open_positions().is_empty());
    let trades = p.get_recent_trades(1);
    assert_eq!(trades.len(), 1);
    assert_eq!(polybot::decimal::sub(trades[0].pnl, Decimal::from_i64(50)).mantissa, 0);
    assert_eq!(trades[0].price, d(600, 0));
    assert_eq!(polybot::decimal::sub(p.get_stats().current_equity, Decimal::from_i64(1050)).mantissa, 0);
}

#[test]
fn hold_closes_on_a_large_loss() {
    let mut p = sim();
    p.execute_signal_at(Direction::Down, d(100, 0), at(1000));
    // NO: (100 - 400) * 10 / 100 = -30, return -3 < -2: closed
    p.execute_signal_at(Direction::Hold, d(400, 0), at(1001));
    assert!(p.get_open_positions().is_empty());
    assert_eq!(p.get_stats().losing_trades, 1);
}

#[test]
fn band_edges_stay_open() {
    let mut p = sim();
    p.execute_signal_at(Direction::Up, d(100, 0), at(1000));
    // (500 - 100) * 10 / 100 = 40, return exactly 4: stays open
    p.execute_signal_at(Direction::Hold, d(500, 0), at(1001));
    assert_eq!(p.get_open_positions().len(), 1);
}

#[test]
fn positions_opened_in_the_same_second_share_an_id() {
    let mut p = sim();
    p.execute_signal_at(Direction::Up, d(100, 0), at(1000));
    p.execute_signal_at(Direction::Down, d(100, 0), at(1000));
    let open = p.get_open_positions();
    assert_eq!(open.len(), 1);
    assert_eq!(open[0].side, PositionSide::No);
    // the closed YES position was replaced by the new one under the same id
    assert_eq!(p.get_stats().total_trades, 1);
}

#[test]
fn zero_entry_price_cannot_be_marked() {
    let mut p = sim();
    p.execute_signal_at(Direction::Up, d(0, 0), at(1000));
    assert!(!p.try_execute_signal_at(Direction::Hold, d(100, 0), at(1001)));
    assert_eq!(p.get_open_positions()[0].unrealized_pnl, d(0, 0));
    assert!(p.try_execute_signal_at(Direction::Up, d(100, 0), at(1002)));
}

#[test]
fn recent_trades_come_most_recent_first() {
    let mut p = sim();
    p.execute_signal_at(Direction::Up, d(100, 0), at(1000));
    p.execute_signal_at(Direction::Down, d(110, 0), at(2000));
    p.execute_signal_at(Direction::Up, d(120, 0), at(3000));
    let all = p.get_recent_trades(10);
    assert_eq!(all.len(), 2);
    assert_eq!(all[0].timestamp, at(3000));
    assert_eq!(all[0].side, PositionSide::No);
    assert_eq!(all[1].timestamp, at(2000));
    let one = p.get_recent_trades(1);
    assert_eq!(one.len(), 1);
    assert_eq!(one[0].timestamp, at(3000));
}

#[test]
fn stats_overflow_is_reported() {
    let huge = Decimal { mantissa: 79228162514264337593543950335, scale: 0 };
    let mut p = PaperTrading::new(huge, Decimal::from_i64(1), "m".to_string());
    p.execute_signal_at(Direction::Up, Decimal::one(), at(1));
    // a profit of 2 on top of the largest equity overflows: nothing changes
    assert!(!p.try_execute_signal_at(Direction::Down, Decimal::from_i64(3), at(2)));
    assert_eq!(p.get_open_positions().len(), 1);
    assert_eq!(p.get_open_positions()[0].side, PositionSide::Yes);
    assert!(p.try_get_stats().is_some());
}

#[test]
fn signal_now_uses_the_clock() {
    let mut p = sim();
    assert!(p.try_execute_signal(Direction::Up, d(100, 0)));
    p.execute_signal(Direction::Hold, d(100, 0));
    assert_eq!(p.get_open_positions().len(), 1);
    assert!(p.get_open_positions()[0].entry_time.secs > 1_600_000_000);
}

#[test]
fn hold_without_positions_changes_nothing() {
    let mut p = sim();
    assert!(p.try_execute_signal_at(Direction::Hold, d(100, 0), at(1000)));
    assert!(p.get_open_positions().is_empty());
    assert_eq!(p.get_stats().total_trades, 0);
    assert_eq!(p.get_stats().current_equity, d(1000, 0));
}

#[test]
fn reversals_keep_a_single_open_position() {
    let mut p = sim();
    let signals = [Direction::Up, Direction::Down, Direction::Up, Direction::Down, Direction::Down];
    for (i, s) in signals.iter().enumerate() {
        p.execute_signal_at(*s, d(100 + i as i128, 0), at(1000 + i as i64));
        assert_eq!(p.get_open_positions().len(), 1);
        assert_eq!(p.get_stats().open_positions, 1);
    }
    let open = p.get_open_positions();
    assert_eq!(open[0].side, PositionSide::No);
    assert_eq!(open[0].id, 1003);
    assert_eq!(p.get_stats().total_trades, 3);
}
