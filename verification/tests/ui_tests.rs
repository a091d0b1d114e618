use polybot::signals::Direction;
use polybot::ui::{on_signal, on_tick, push_bounded, should_log_price, AppState, Controls, Key, LogBuffer, SignalAction, LOG_LINES};

#[test]
fn keys_change_the_controls() {
    let mut c = Controls::new();
    assert_eq!(c, Controls { state: AppState::Running, current_tab: 0, running: true });
    c.on_key(Key::Char(' '));
    assert_eq!(c.state, AppState::Paused);
    c.on_key(Key::Char(' '));
    assert_eq!(c.state, AppState::Running);
    for expected in [1usize, 2, 3, 4, 0] {
        c.on_key(Key::Tab);
        assert_eq!(c.current_tab, expected);
    }
    c.on_key(Key::Char('x'));
    c.on_key(Key::Other);
    assert!(c.running);
    c.on_key(Key::Char('Q'));
    assert!(!c.running);
    let mut c2 = Controls::new();
    c2.on_key(Key::Char('q'));
    assert!(!c2.running);
}

#[test]
fn windows_keep_the_latest() {
    let mut v: Vec<u32> = Vec::new();
    for i in 0..105u32 {
        push_bounded(&mut v, i, 100);
    }
    assert_eq!(v.len(), 100);
    assert_eq!(v[0], 5);
    assert_eq!(v[99], 104);
}

#[test]
fn signal_changes() {
    assert_eq!(on_signal(None, Direction::Up), (Some(Direction::Up), SignalAction::Nothing));
    assert_eq!(on_signal(Some(Direction::Up), Direction::Up), (Some(Direction::Up), SignalAction::Nothing));
    assert_eq!(on_signal(Some(Direction::Up), Direction::Down), (Some(Direction::Down), SignalAction::Trade(Direction::Down)));
    assert_eq!(on_signal(Some(Direction::Down), Direction::Hold), (Some(Direction::Hold), SignalAction::Hold));
    assert_eq!(on_signal(Some(Direction::Hold), Direction::Up), (Some(Direction::Up), SignalAction::Trade(Direction::Up)));
}

#[test]
fn every_tenth_point_is_logged() {
    assert!(should_log_price(10));
    assert!(should_log_price(0));
    assert!(!should_log_price(11));
}

#[test]
fn log_lines_are_labelled_and_bounded() {
    let mut log = LogBuffer::new();
    log.add_log("Bot started".to_string());
    let lines = log.lines();
    assert_eq!(lines.len(), 1);
    let line = &lines[0];
    assert!(line.starts_with('['));
    assert!(line.ends_with("] Bot started"));
    assert_eq!(line.len(), "[00:00:00] Bot started".len());
    for i in 0..(LOG_LINES + 3) {
        log.add_log(format!("line {}", i));
    }
    let lines = log.lines();
    assert_eq!(lines.len(), LOG_LINES);
    assert!(lines[LOG_LINES - 1].ends_with(&format!("line {}", LOG_LINES + 2)));
    assert!(lines[0].ends_with("line 3"));
}

#[test]
fn log_labels_are_clock_times() {
    let mut log = LogBuffer::new();
    log.add_log("x".to_string());
    let line = log.lines()[0].clone();
    let label: Vec<char> = line.chars().skip(1).take(8).collect();
    assert_eq!(label[2], ':');
    assert_eq!(label[5], ':');
    for (i, c) in label.iter().enumerate() {
        if i != 2 && i != 5 {
            assert!(c.is_ascii_digit());
        }
    }
}

#[test]
fn recent_and_trade_lines() {
    let mut log = LogBuffer::new();
    log.add_log("📊 SIGNAL: Up".to_string());
    log.add_log("💰 BTC: $1".to_string());
    log.add_log("Paper position closed".to_string());
    let recent = log.recent_lines(2);
    assert_eq!(recent.len(), 2);
    assert!(recent[0].ends_with("Paper position closed"));
    assert!(recent[1].ends_with("BTC: $1"));
    let trades = log.trade_lines();
    assert_eq!(trades.len(), 2);
    assert!(trades[0].ends_with("Paper position closed"));
    assert!(trades[1].ends_with("SIGNAL: Up"));
    for i in 0..40 {
        log.add_log(format!("SIGNAL {}", i));
    }
    assert_eq!(log.trade_lines().len(), polybot::ui::SHOWN_LINES);
    assert_eq!(log.recent_lines(1000).len(), 43);
}

#[test]
fn tab_key_works_from_any_tab() {
    let mut c = Controls { state: AppState::Paused, current_tab: 7, running: true };
    c.on_key(Key::Tab);
    assert_eq!(c.current_tab, 3);
}

#[test]
fn a_tick_counts_decides_and_logs() {
    let t = on_tick(9, None, Direction::Up);
    assert_eq!(t.data_points, 10);
    assert_eq!(t.last, Some(Direction::Up));
    assert_eq!(t.action, SignalAction::Nothing);
    assert!(t.log_price);
    let t = on_tick(10, Some(Direction::Hold), Direction::Down);
    assert_eq!(t.data_points, 11);
    assert_eq!(t.last, Some(Direction::Down));
    assert_eq!(t.action, SignalAction::Trade(Direction::Down));
    assert!(!t.log_price);
    let t = on_tick(0, Some(Direction::Up), Direction::Hold);
    assert_eq!(t.action, SignalAction::Hold);
    assert_eq!(t.data_points, 1);
}
