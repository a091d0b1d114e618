//! The decisions of the dashboard: key handling, bounded chart and log
//! buffers, and what to do when the signal changes.
use vstd::prelude::*;
use std::collections::VecDeque;
use crate::signals::Direction;
use crate::text::{str_contains, text_contains};

verus! {

/// Whether the dashboard updates.
#[derive(Clone, Copy, Debug, PartialEq, Eq, Structural)]
pub enum AppState {
    Running,
    Paused,
}

/// A key press, as far as the dashboard distinguishes keys.
#[derive(Clone, Copy, Debug, PartialEq, Eq, Structural)]
pub enum Key {
    Char(char),
    Tab,
    Other,
}

/// Number of tabs.
pub const TAB_COUNT: usize = 5usize;

/// Number of points each chart keeps.
pub const CHART_POINTS: usize = 100usize;

/// Number of lines the event log keeps.
pub const LOG_LINES: usize = 100usize;

/// Which tab is shown, whether updates run, whether the program goes on.
#[derive(Clone, Copy, Debug, PartialEq, Eq, Structural)]
pub struct Controls {
    pub state: AppState,
    pub current_tab: usize,
    pub running: bool,
}

impl Controls {
    pub open spec fn wf(self) -> bool {
        self.current_tab < TAB_COUNT
    }

    /// The controls after `key`: `q` or `Q` stops the program, space pauses
    /// or resumes, Tab moves to the next tab (after the last, the first);
    /// other keys change nothing.
    pub open spec fn after_key(self, key: Key) -> Controls {
        match key {
            Key::Char(c) => if c == 'q' || c == 'Q' {
                Controls { running: false, ..self }
            } else if c == ' ' {
                Controls {
                    state: if self.state == AppState::Running { AppState::Paused } else { AppState::Running },
                    ..self
                }
            } else {
                self
            },
            Key::Tab => Controls { current_tab: ((self.current_tab + 1) % (TAB_COUNT as int)) as usize, ..self },
            Key::Other => self,
        }
    }

    /// Running, on the first tab.
    pub fn new() -> (r: Controls)
        ensures
            r == (Controls { state: AppState::Running, current_tab: 0, running: true }),
            r.wf(),
    {
        Controls { state: AppState::Running, current_tab: 0, running: true }
    }

    /// Handles a key press.
    pub fn on_key(&mut self, key: Key)
        requires
            key == Key::Tab ==> old(self).current_tab < usize::MAX,
        ensures
            *final(self) == old(self).after_key(key),
            old(self).wf() ==> final(self).wf(),
    {
        match key {
            Key::Char(c) => {
                if c == 'q' || c == 'Q' {
                    self.running = false;
                } else if c == ' ' {
                    self.state = match self.state {
                        AppState::Running => AppState::Paused,
                        AppState::Paused => AppState::Running,
                    };
                }
            },
            Key::Tab => {
                self.current_tab = (self.current_tab + 1) % TAB_COUNT;
            },
            Key::Other => {},
        }
    }
}

/// Space pressed twice gives back the controls as they were.
pub proof fn law_pause_twice_restores(c: Controls)
    ensures
        c.after_key(Key::Char(' ')).after_key(Key::Char(' ')) == c,
{
}

/// Tab pressed once per tab comes back to the tab shown before.
pub proof fn law_tab_cycle(c: Controls)
    requires
        c.wf(),
    ensures
        c.after_key(Key::Tab).after_key(Key::Tab).after_key(Key::Tab).after_key(Key::Tab).after_key(Key::Tab) == c,
{
}

/// `s` with `x` appended and, beyond `cap` elements, the oldest dropped.
pub open spec fn push_window<T>(s: Seq<T>, x: T, cap: nat) -> Seq<T> {
    if s.len() + 1 > cap {
        s.push(x).drop_first()
    } else {
        s.push(x)
    }
}

/// Appends `x` and drops the oldest element when more than `cap` are held.
pub fn push_bounded<T>(v: &mut Vec<T>, x: T, cap: usize)
    ensures
        final(v)@ == push_window(old(v)@, x, cap as nat),
        old(v)@.len() <= cap ==> final(v)@.len() <= cap,
{
    v.push(x);
    if v.len() > cap {
        v.remove(0);
        assert(final(v)@ =~= old(v)@.push(x).drop_first());
    }
}

/// A window keeps the most recent elements: its last element is the one
/// just added, and nothing beyond the capacity is kept.
pub proof fn law_window_keeps_latest<T>(s: Seq<T>, x: T, cap: nat)
    requires
        s.len() <= cap,
        cap > 0,
    ensures
        push_window(s, x, cap).len() <= cap,
        push_window(s, x, cap).last() == x,
        push_window(s, x, cap).len() == if s.len() < cap { s.len() + 1 } else { cap },
{
}

/// What follows a newly generated signal.
#[derive(Clone, Copy, Debug, PartialEq, Eq, Structural)]
pub enum SignalAction {
    /// The signal is the first one, or has the direction of the last one.
    Nothing,
    /// The direction changed to UP or DOWN: trade on it.
    Trade(Direction),
    /// The direction changed to HOLD.
    Hold,
}

/// The remembered direction and the action after `signal`, given the
/// remembered direction `last`: the first signal is only remembered; a
/// change of direction is remembered and acted on.
pub open spec fn signal_step(last: Option<Direction>, signal: Direction) -> (Option<Direction>, SignalAction) {
    match last {
        None => (Some(signal), SignalAction::Nothing),
        Some(prev) => if prev == signal {
            (last, SignalAction::Nothing)
        } else if signal == Direction::Hold {
            (Some(signal), SignalAction::Hold)
        } else {
            (Some(signal), SignalAction::Trade(signal))
        },
    }
}

/// Decides what a newly generated signal leads to.
pub fn on_signal(last: Option<Direction>, signal: Direction) -> (r: (Option<Direction>, SignalAction))
    ensures
        r == signal_step(last, signal),
{
    match last {
        None => (Some(signal), SignalAction::Nothing),
        Some(prev) => {
            if prev == signal {
                (last, SignalAction::Nothing)
            } else if signal == Direction::Hold {
                (Some(signal), SignalAction::Hold)
            } else {
                (Some(signal), SignalAction::Trade(signal))
            }
        },
    }
}

/// A trade happens only on a change of direction to UP or DOWN, and the
/// same signal twice in a row never trades the second time.
pub proof fn law_repeated_signal_is_quiet(last: Option<Direction>, signal: Direction)
    ensures
        signal_step(signal_step(last, signal).0, signal).1 == SignalAction::Nothing,
        signal_step(last, signal).1 matches SignalAction::Trade(d) ==> d == signal && d != Direction::Hold
            && last is Some && last->0 != signal,
{
}

/// Every tenth data point is written to the log.
pub fn should_log_price(data_points: usize) -> (r: bool)
    ensures
        r == (data_points % 10 == 0),
{
    data_points % 10 == 0
}

/// What one refresh does with a new spot price and the signal generated
/// for it.
#[derive(Clone, Copy, Debug)]
pub struct TickPlan {
    /// The number of prices received, this one included.
    pub data_points: usize,
    /// The direction remembered as the last signal.
    pub last: Option<Direction>,
    /// What the signal asks of the simulation and the log, before the exits
    /// are checked.
    pub action: SignalAction,
    /// Whether the price is written to the log after the exits are checked.
    pub log_price: bool,
}

/// One refresh while the bot runs: the price is counted, the signal is
/// taken as `signal_step` says, and every tenth price is logged.
pub open spec fn tick_plan(data_points: usize, last: Option<Direction>, signal: Direction) -> TickPlan {
    TickPlan {
        data_points: (data_points + 1) as usize,
        last: signal_step(last, signal).0,
        action: signal_step(last, signal).1,
        log_price: (data_points + 1) % 10 == 0,
    }
}

/// Decides one refresh, given the prices received so far, the remembered
/// direction and the new signal.
pub fn on_tick(data_points: usize, last: Option<Direction>, signal: Direction) -> (r: TickPlan)
    requires
        data_points < usize::MAX,
    ensures
        r == tick_plan(data_points, last, signal),
{
    let n = data_points + 1;
    let (next, action) = on_signal(last, signal);
    TickPlan { data_points: n, last: next, action, log_price: should_log_price(n) }
}

/// A wall-clock label `HH:MM:SS`: two digits, a colon, two digits, a colon,
/// two digits.
pub open spec fn is_clock_label(s: Seq<char>) -> bool {
    &&& s.len() == 8
    &&& s[2] == ':'
    &&& s[5] == ':'
    &&& forall|i: int| 0 <= i < 8 && i != 2 && i != 5 ==> '0' <= #[trigger] s[i] <= '9'
}

/// Formats the local time with `chrono::Local::now().format("%H:%M:%S")`.
/// Claimed: the form chrono documents for these specifiers (hour, minute and
/// second each zero-padded to two digits). Which instant is not claimed.
#[verifier::external_body]
fn local_clock_label() -> (r: String)
    ensures
        is_clock_label(r@),
{
    chrono::Local::now().format("%H:%M:%S").to_string()
}

/// The event log: the most recent lines, oldest first.
pub struct LogBuffer {
    lines: VecDeque<String>,
}

/// A log line: the clock label in square brackets, a space, the message.
pub open spec fn log_line(label: Seq<char>, msg: Seq<char>) -> Seq<char> {
    seq!['['] + label + seq![']', ' '] + msg
}

/// The first `n` lines counted from the most recent one backwards.
pub open spec fn recent_lines(lines: Seq<Seq<char>>, n: nat) -> Seq<Seq<char>> {
    let k = if n < lines.len() { n } else { lines.len() };
    Seq::new(k, |i: int| lines[lines.len() - 1 - i])
}

/// A line about a signal or a position.
pub open spec fn is_trade_line(line: Seq<char>) -> bool {
    text_contains(line, "SIGNAL"@) || text_contains(line, "position"@)
}

/// The lines about signals or positions, in order.
pub open spec fn trade_lines(lines: Seq<Seq<char>>) -> Seq<Seq<char>>
    decreases lines.len(),
{
    if lines.len() == 0 {
        Seq::empty()
    } else if is_trade_line(lines.last()) {
        trade_lines(lines.drop_last()).push(lines.last())
    } else {
        trade_lines(lines.drop_last())
    }
}

/// Number of lines shown in the log and trades tabs.
pub const SHOWN_LINES: usize = 30usize;

impl View for LogBuffer {
    type V = Seq<Seq<char>>;

    closed spec fn view(&self) -> Seq<Seq<char>> {
        self.lines@.map_values(|s: String| s@)
    }
}

impl LogBuffer {
    #[verifier::type_invariant]
    spec fn bounded(self) -> bool {
        self.lines@.len() <= LOG_LINES
    }

    /// No lines.
    pub fn new() -> (r: LogBuffer)
        ensures
            r@ == Seq::<Seq<char>>::empty(),
    {
        let r = LogBuffer { lines: VecDeque::with_capacity(LOG_LINES) };
        assert(r@ =~= Seq::<Seq<char>>::empty());
        r
    }

    /// Appends `msg` labelled with the clock, dropping the oldest line beyond
    /// `LOG_LINES` lines.
    pub fn add_log(&mut self, msg: String)
        ensures
            exists|label: Seq<char>|
                is_clock_label(label) && final(self)@ == #[trigger] push_window(
                    old(self)@,
                    log_line(label, msg@),
                    LOG_LINES as nat,
                ),
            final(self)@.len() <= LOG_LINES,
    {
        proof {
            use_type_invariant(&*self);
        }
        let label = local_clock_label();
        let mut line = String::from_str("[");
        line.append(label.as_str());
        line.append("] ");
        line.append(msg.as_str());
        proof {
            reveal_strlit("[");
            reveal_strlit("] ");
            assert(line@ =~= log_line(label@, msg@));
        }
        let ghost before = self@;
        let mut lines: VecDeque<String> = VecDeque::new();
        std::mem::swap(&mut lines, &mut self.lines);
        let ghost raw = lines@;
        assert(raw.map_values(|s: String| s@) == before);
        if lines.len() >= LOG_LINES {
            lines.pop_front();
        }
        lines.push_back(line);
        self.lines = lines;
        proof {
            let lv = log_line(label@, msg@);
            if before.len() + 1 > LOG_LINES {
                assert(self@ =~= before.push(lv).drop_first());
            } else {
                assert(self@ =~= before.push(lv));
            }
            assert(self@ == push_window(before, log_line(label@, msg@), LOG_LINES as nat));
        }
    }

    /// The lines, oldest first.
    pub fn lines(&self) -> (r: Vec<String>)
        ensures
            r@.map_values(|s: String| s@) == self@,
            r@.len() <= LOG_LINES,
    {
        proof {
            use_type_invariant(self);
        }
        let mut out: Vec<String> = Vec::new();
        let n = self.lines.len();
        for i in 0..n
            invariant
                n == self.lines@.len(),
                out@.len() == i,
                forall|k: int| 0 <= k < i ==> (#[trigger] out@[k])@ == self.lines@[k]@,
        {
            out.push(self.lines[i].clone());
        }
        assert(out@.map_values(|s: String| s@) =~= self@);
        out
    }

    /// The `n` most recent lines, most recent first.
    pub fn recent_lines(&self, n: usize) -> (r: Vec<String>)
        ensures
            r@.map_values(|s: String| s@) == recent_lines(self@, n as nat),
    {
        let len = self.lines.len();
        let k = if n < len { n } else { len };
        let ghost v = self@;
        let mut out: Vec<String> = Vec::new();
        for j in 0..k
            invariant
                len == self.lines@.len(),
                v == self@,
                v == self.lines@.map_values(|s: String| s@),
                k <= len,
                out@.len() == j,
                forall|q: int| 0 <= q < j ==> (#[trigger] out@[q])@ == v[len - 1 - q],
        {
            out.push(self.lines[len - 1 - j].clone());
        }
        assert(out@.map_values(|s: String| s@) =~= recent_lines(v, n as nat));
        out
    }

    /// Among the `SHOWN_LINES` most recent lines, most recent first, those
    /// about a signal or a position.
    pub fn trade_lines(&self) -> (r: Vec<String>)
        ensures
            r@.map_values(|s: String| s@) == trade_lines(recent_lines(self@, SHOWN_LINES as nat)),
    {
        let recent = self.recent_lines(SHOWN_LINES);
        let ghost rv = recent@.map_values(|s: String| s@);
        let mut out: Vec<String> = Vec::new();
        let n = recent.len();
        assert(rv.take(0) =~= Seq::<Seq<char>>::empty());
        assert(out@.map_values(|s: String| s@) =~= Seq::<Seq<char>>::empty());
        for i in 0..n
            invariant
                n == recent@.len(),
                rv == recent@.map_values(|s: String| s@),
                out@.map_values(|s: String| s@) == trade_lines(rv.take(i as int)),
        {
            assert(rv.take(i + 1).drop_last() =~= rv.take(i as int));
            assert(rv.take(i + 1).last() == recent@[i as int]@);
            let line = &recent[i];
            let hit = str_contains(line.as_str(), "SIGNAL") || str_contains(line.as_str(), "position");
            if hit {
                let ghost before = out@;
                out.push(line.clone());
                assert(out@.map_values(|s: String| s@) =~= before.map_values(|s: String| s@).push(line@));
            }
        }
        assert(rv.take(n as int) =~= rv);
        out
    }
}

} // verus!
