//! Simulated trading: positions are opened on UP/DOWN signals, the opposite
//! side is closed first, and the open position is closed when its return
//! leaves the band from -200% to +400%. Every closed position is recorded
//! as a trade and its profit or loss is added to the equity. Positions are
//! kept in a map from their id, closed ones included.
use vstd::prelude::*;
use std::collections::HashMap;
use crate::clock::{utc_now, Timestamp};
use crate::decimal::{
    checked_add, checked_div, checked_mul, checked_sub, decimal_checked_add, decimal_checked_div,
    decimal_checked_mul, decimal_checked_sub, difference_facts, lt, product_facts, quotient_facts, Decimal,
};
use crate::risk::PositionSide;
use crate::signals::Direction;

verus! {

broadcast use vstd::std_specs::hash::group_hash_axioms;

/// Whether a position is still held.
#[derive(Clone, Copy, Debug, PartialEq, Eq, Structural)]
pub enum PositionStatus {
    Open,
    Closed,
}

/// A simulated position. Its `id` is the second (Unix time) at which it was
/// opened and the key under which the simulation holds it; a position opened
/// in the same second as an earlier one takes its place.
#[derive(Debug)]
pub struct PaperPosition {
    pub id: i64,
    pub market_id: String,
    pub side: PositionSide,
    pub size: Decimal,
    pub entry_price: Decimal,
    pub entry_time: Timestamp,
    pub exit_price: Option<Decimal>,
    pub exit_time: Option<Timestamp>,
    pub unrealized_pnl: Decimal,
    pub realized_pnl: Decimal,
    pub status: PositionStatus,
}

/// A closed trade.
#[derive(Debug)]
pub struct TradeRecord {
    pub timestamp: Timestamp,
    pub market_id: String,
    pub side: PositionSide,
    pub size: Decimal,
    pub price: Decimal,
    pub pnl: Decimal,
}

/// Summary figures of a simulation.
#[derive(Clone, Copy, Debug, PartialEq, Eq, Structural)]
pub struct PaperTradingStats {
    pub total_trades: usize,
    pub winning_trades: usize,
    pub losing_trades: usize,
    pub total_pnl: Decimal,
    pub avg_trade_pnl: Decimal,
    pub max_drawdown: Decimal,
    pub current_equity: Decimal,
    pub initial_equity: Decimal,
    pub open_positions: usize,
}

/// A position as values.
pub ghost struct PositionView {
    pub id: i64,
    pub market_id: Seq<char>,
    pub side: PositionSide,
    pub size: Decimal,
    pub entry_price: Decimal,
    pub entry_time: Timestamp,
    pub exit_price: Option<Decimal>,
    pub exit_time: Option<Timestamp>,
    pub unrealized_pnl: Decimal,
    pub realized_pnl: Decimal,
    pub status: PositionStatus,
}

/// A trade record as values.
pub ghost struct TradeRecordView {
    pub timestamp: Timestamp,
    pub market_id: Seq<char>,
    pub side: PositionSide,
    pub size: Decimal,
    pub price: Decimal,
    pub pnl: Decimal,
}

impl View for PaperPosition {
    type V = PositionView;

    open spec fn view(&self) -> PositionView {
        PositionView {
            id: self.id,
            market_id: self.market_id@,
            side: self.side,
            size: self.size,
            entry_price: self.entry_price,
            entry_time: self.entry_time,
            exit_price: self.exit_price,
            exit_time: self.exit_time,
            unrealized_pnl: self.unrealized_pnl,
            realized_pnl: self.realized_pnl,
            status: self.status,
        }
    }
}

impl View for TradeRecord {
    type V = TradeRecordView;

    open spec fn view(&self) -> TradeRecordView {
        TradeRecordView {
            timestamp: self.timestamp,
            market_id: self.market_id@,
            side: self.side,
            size: self.size,
            price: self.price,
            pnl: self.pnl,
        }
    }
}

pub open spec fn position_views(ps: Seq<PaperPosition>) -> Seq<PositionView> {
    ps.map_values(|p: PaperPosition| p@)
}

pub open spec fn record_views(rs: Seq<TradeRecord>) -> Seq<TradeRecordView> {
    rs.map_values(|r: TradeRecord| r@)
}

impl PositionView {
    pub open spec fn wf(self) -> bool {
        &&& self.size.wf()
        &&& self.entry_price.wf()
        &&& self.unrealized_pnl.wf()
        &&& self.realized_pnl.wf()
        &&& (self.exit_price matches Some(x) ==> x.wf())
    }

    pub open spec fn is_open(self) -> bool {
        self.status == PositionStatus::Open
    }

    /// The position closed at `price` and `now` with the given profit or loss.
    pub open spec fn closed(self, price: Decimal, now: Timestamp, pnl: Decimal) -> PositionView {
        PositionView {
            status: PositionStatus::Closed,
            exit_price: Some(price),
            exit_time: Some(now),
            realized_pnl: pnl,
            ..self
        }
    }
}

impl TradeRecordView {
    pub open spec fn wf(self) -> bool {
        &&& self.size.wf()
        &&& self.price.wf()
        &&& self.pnl.wf()
    }
}

/// The profit or loss of a position marked at `price`:
/// `(price - entry) * size / entry` for YES, `(entry - price) * size / entry`
/// for NO, each step as `rust_decimal` computes it; `None` where a step
/// overflows or the entry price is zero.
pub open spec fn position_pnl(p: PositionView, price: Decimal) -> Option<Decimal> {
    let diff = if p.side == PositionSide::Yes {
        decimal_checked_sub(price, p.entry_price)
    } else {
        decimal_checked_sub(p.entry_price, price)
    };
    match diff {
        Some(d) => match decimal_checked_mul(d, p.size) {
            Some(m) => decimal_checked_div(m, p.entry_price),
            None => None,
        },
        None => None,
    }
}

/// The profit or loss `r` of `p` marked at `price` has the sign the price
/// move gives it, where the entry price and the size are above zero: for
/// YES it is not above zero when the price is below the entry and not below
/// zero when the price is above it; for NO the other way round.
pub open spec fn pnl_follows_the_price(p: PositionView, price: Decimal, r: Option<Decimal>) -> bool {
    match r {
        Some(x) => p.entry_price.is_positive() && p.size.is_positive() ==> {
            &&& (p.side == PositionSide::Yes && price.spec_less(p.entry_price) ==> x.mantissa <= 0)
            &&& (p.side == PositionSide::Yes && p.entry_price.spec_less(price) ==> x.mantissa >= 0)
            &&& (p.side == PositionSide::No && price.spec_less(p.entry_price) ==> x.mantissa >= 0)
            &&& (p.side == PositionSide::No && p.entry_price.spec_less(price) ==> x.mantissa <= 0)
        },
        None => true,
    }
}

/// What the arithmetic of valuing `p` at `price` is known to give, step by
/// step: the price move (price less entry for YES, entry less price for
/// NO), the move times the size, and that product over the entry price.
pub open spec fn valuation_facts(p: PositionView, price: Decimal) -> bool {
    let (a, b) = if p.side == PositionSide::Yes { (price, p.entry_price) } else { (p.entry_price, price) };
    &&& difference_facts(a, b, decimal_checked_sub(a, b))
    &&& match decimal_checked_sub(a, b) {
        Some(d) => {
            &&& product_facts(d, p.size, decimal_checked_mul(d, p.size))
            &&& match decimal_checked_mul(d, p.size) {
                Some(m) => quotient_facts(m, p.entry_price, decimal_checked_div(m, p.entry_price)),
                None => true,
            }
        },
        None => true,
    }
}

/// Where entry price and size are above zero, a position gains when the
/// price moves its way and loses when it moves against it: the profit or
/// loss of YES is never above zero below the entry price and never below
/// zero above it, and that of NO the other way round.
pub proof fn law_pnl_follows_the_price(p: PositionView, price: Decimal)
    requires
        valuation_facts(p, price),
    ensures
        pnl_follows_the_price(p, price, position_pnl(p, price)),
{
}

/// The record of a trade closed at `price` and `now`.
pub open spec fn trade_record(
    now: Timestamp,
    market_id: Seq<char>,
    side: PositionSide,
    size: Decimal,
    price: Decimal,
    pnl: Decimal,
) -> TradeRecordView {
    TradeRecordView { timestamp: now, market_id, side, size, price, pnl }
}

/// The positions of a map, each taken as values.
pub open spec fn position_map_views(m: Map<i64, PaperPosition>) -> Map<i64, PositionView> {
    m.map_values(|p: PaperPosition| p@)
}

/// The return band outside which a position is closed: below -2 (-200%)
/// or above 4 (+400%).
pub open spec fn outside_band(pct: Decimal) -> bool {
    pct.spec_less(Decimal::spec_from_i64(-2i64)) || Decimal::spec_from_i64(4i64).spec_less(pct)
}

/// `start` plus each profit and loss in turn; `None` where an addition overflows.
pub open spec fn pnl_total(start: Decimal, records: Seq<TradeRecordView>) -> Option<Decimal>
    decreases records.len(),
{
    if records.len() == 0 {
        Some(start)
    } else {
        match pnl_total(start, records.drop_last()) {
            None => None,
            Some(t) => decimal_checked_add(t, records.last().pnl),
        }
    }
}

/// Number of records with a profit above zero.
pub open spec fn count_winning(records: Seq<TradeRecordView>) -> nat
    decreases records.len(),
{
    if records.len() == 0 {
        0
    } else {
        count_winning(records.drop_last()) + if records.last().pnl.is_positive() { 1nat } else { 0nat }
    }
}

/// The first `n` records counted from the most recent one backwards.
pub open spec fn recent_records(records: Seq<TradeRecordView>, n: nat) -> Seq<TradeRecordView> {
    let k = if n < records.len() { n } else { records.len() };
    Seq::new(k, |i: int| records[records.len() - 1 - i])
}

/// A simulation as values: the positions by id, the trades in the order
/// they were closed, and the figures.
pub ghost struct PaperTradingView {
    pub positions: Map<i64, PositionView>,
    pub trade_history: Seq<TradeRecordView>,
    pub equity: Decimal,
    pub initial_equity: Decimal,
    pub trade_size: Decimal,
    pub market_id: Seq<char>,
}

impl PaperTradingView {
    /// Whether a position is held under `k` and is open.
    pub open spec fn is_open_at(self, k: i64) -> bool {
        self.positions.contains_key(k) && self.positions[k].is_open()
    }

    /// At most one position is open.
    pub open spec fn single_open(self) -> bool {
        forall|a: i64, b: i64| #[trigger] self.is_open_at(a) && #[trigger] self.is_open_at(b) ==> a == b
    }

    /// The invariant of a simulation: every position is held under its id,
    /// at most one position is open, every figure is in range, and the
    /// equity is the initial equity plus the profit and loss of every
    /// recorded trade, added in the order of the record.
    pub open spec fn wf(self) -> bool {
        &&& self.equity.wf()
        &&& self.initial_equity.wf()
        &&& self.trade_size.wf()
        &&& forall|k: i64| #![trigger self.positions[k]]
            self.positions.contains_key(k) ==> self.positions[k].wf() && self.positions[k].id == k
        &&& forall|i: int| 0 <= i < self.trade_history.len() ==> (#[trigger] self.trade_history[i]).wf()
        &&& self.single_open()
        &&& pnl_total(self.initial_equity, self.trade_history) == Some(self.equity)
    }

    /// Whether a position on `side` is open.
    pub open spec fn has_open(self, side: PositionSide) -> bool {
        exists|k: i64| #[trigger] self.is_open_at(k) && self.positions[k].side == side
    }

    /// Whether any position is open.
    pub open spec fn has_any_open(self) -> bool {
        exists|k: i64| #[trigger] self.is_open_at(k)
    }

    /// The key of an open position: in a valid simulation, the one open position.
    pub open spec fn open_key(self) -> i64 {
        choose|k: i64| #[trigger] self.is_open_at(k)
    }

    /// The key of an open position on `side`.
    pub open spec fn open_key_on(self, side: PositionSide) -> i64 {
        choose|k: i64| #[trigger] self.is_open_at(k) && self.positions[k].side == side
    }

    /// The open positions: none, or the one open position.
    pub open spec fn open_positions(self) -> Seq<PositionView> {
        if self.has_any_open() {
            seq![self.positions[self.open_key()]]
        } else {
            Seq::empty()
        }
    }

    /// The position opened on `side` at `price` and `now`.
    pub open spec fn new_position(self, side: PositionSide, price: Decimal, now: Timestamp) -> PositionView {
        PositionView {
            id: now.secs,
            market_id: self.market_id,
            side,
            size: self.trade_size,
            entry_price: price,
            entry_time: now,
            exit_price: None,
            exit_time: None,
            unrealized_pnl: Decimal::spec_zero(),
            realized_pnl: Decimal::spec_zero(),
            status: PositionStatus::Open,
        }
    }

    /// Closing the open position on `side` (there is at most one), valued at
    /// `price`: it is marked closed, the trade is recorded and its profit or
    /// loss is added to the equity. Nothing changes where no position on
    /// `side` is open; `None` where the valuation or the addition overflows.
    pub open spec fn after_close(self, side: PositionSide, price: Decimal, now: Timestamp) -> Option<PaperTradingView> {
        if self.has_open(side) {
            let k = self.open_key_on(side);
            let p = self.positions[k];
            match position_pnl(p, price) {
                None => None,
                Some(pnl) => match decimal_checked_add(self.equity, pnl) {
                    None => None,
                    Some(e) => Some(PaperTradingView {
                        positions: self.positions.insert(k, p.closed(price, now, pnl)),
                        trade_history: self.trade_history.push(
                            trade_record(now, self.market_id, p.side, self.trade_size, price, pnl),
                        ),
                        equity: e,
                        ..self
                    }),
                },
            }
        } else {
            Some(self)
        }
    }

    /// Opening on `side`: nothing happens while a position on that side is
    /// open; otherwise the open position on the other side is closed and the
    /// new position is stored under its id.
    pub open spec fn after_open(self, side: PositionSide, price: Decimal, now: Timestamp) -> Option<PaperTradingView> {
        if self.has_open(side) {
            Some(self)
        } else {
            let other = if side == PositionSide::Yes { PositionSide::No } else { PositionSide::Yes };
            match self.after_close(other, price, now) {
                None => None,
                Some(w) => Some(PaperTradingView {
                    positions: w.positions.insert(now.secs, self.new_position(side, price, now)),
                    ..w
                }),
            }
        }
    }

    /// Marking the open position at `price`, and closing it where its
    /// profit or loss per unit of size is outside the band. Nothing changes
    /// where no position is open.
    pub open spec fn after_exits(self, price: Decimal, now: Timestamp) -> Option<PaperTradingView> {
        if self.has_any_open() {
            let k = self.open_key();
            let p = self.positions[k];
            match position_pnl(p, price) {
                None => None,
                Some(u) => match decimal_checked_div(u, p.size) {
                    None => None,
                    Some(pct) => {
                        let marked = PositionView { unrealized_pnl: u, ..p };
                        if outside_band(pct) {
                            match decimal_checked_add(self.equity, u) {
                                None => None,
                                Some(e) => Some(PaperTradingView {
                                    positions: self.positions.insert(k, marked.closed(price, now, u)),
                                    trade_history: self.trade_history.push(
                                        trade_record(now, self.market_id, p.side, self.trade_size, price, u),
                                    ),
                                    equity: e,
                                    ..self
                                }),
                            }
                        } else {
                            Some(PaperTradingView { positions: self.positions.insert(k, marked), ..self })
                        }
                    },
                },
            }
        } else {
            Some(self)
        }
    }

    /// The simulation after a signal at `price`: UP opens YES, DOWN opens NO,
    /// HOLD checks the exits. `None` exactly where a `rust_decimal` operation
    /// on the way overflows or divides by zero.
    pub open spec fn after_signal(self, signal: Direction, price: Decimal, now: Timestamp) -> Option<PaperTradingView> {
        match signal {
            Direction::Up => self.after_open(PositionSide::Yes, price, now),
            Direction::Down => self.after_open(PositionSide::No, price, now),
            Direction::Hold => self.after_exits(price, now),
        }
    }

    /// The figures of `get_stats`; `None` where summing the profit and loss
    /// or averaging it overflows.
    pub open spec fn stats(self) -> Option<PaperTradingStats> {
        let n = self.trade_history.len();
        match pnl_total(Decimal::spec_zero(), self.trade_history) {
            None => None,
            Some(total) => {
                let avg = if n > 0 {
                    decimal_checked_div(total, Decimal::spec_from_i64(n as i64))
                } else {
                    Some(Decimal::spec_zero())
                };
                match avg {
                    None => None,
                    Some(a) => Some(PaperTradingStats {
                        total_trades: n as usize,
                        winning_trades: count_winning(self.trade_history) as usize,
                        losing_trades: (n - count_winning(self.trade_history)) as usize,
                        total_pnl: total,
                        avg_trade_pnl: a,
                        max_drawdown: Decimal::spec_zero(),
                        current_equity: self.equity,
                        initial_equity: self.initial_equity,
                        open_positions: self.open_positions().len() as usize,
                    }),
                }
            },
        }
    }
}

// ---------------------------------------------------------------------------
// Facts about the specifications
// ---------------------------------------------------------------------------

proof fn lemma_take_step<A>(s: Seq<A>, i: int)
    requires
        0 <= i < s.len(),
    ensures
        s.take(i + 1).drop_last() == s.take(i),
        s.take(i + 1).last() == s[i],
        s.take(i + 1).len() == i + 1,
{
    assert(s.take(i + 1).drop_last() =~= s.take(i));
}

proof fn lemma_record_views_push(rs: Seq<TradeRecord>, r: TradeRecord)
    ensures
        record_views(rs.push(r)) == record_views(rs).push(r@),
{
    assert(record_views(rs.push(r)) =~= record_views(rs).push(r@));
}

proof fn lemma_position_map_views_insert(m: Map<i64, PaperPosition>, k: i64, p: PaperPosition)
    ensures
        position_map_views(m.insert(k, p)) == position_map_views(m).insert(k, p@),
{
    assert(position_map_views(m.insert(k, p)) =~= position_map_views(m).insert(k, p@));
}

/// Adding one more record to a sum.
proof fn lemma_pnl_total_push(start: Decimal, records: Seq<TradeRecordView>, r: TradeRecordView)
    ensures
        pnl_total(start, records.push(r)) == match pnl_total(start, records) {
            None => None,
            Some(t) => decimal_checked_add(t, r.pnl),
        },
{
    assert(records.push(r).drop_last() =~= records);
}

pub proof fn lemma_count_winning_bound(records: Seq<TradeRecordView>)
    ensures
        count_winning(records) <= records.len(),
    decreases records.len(),
{
    if records.len() > 0 {
        lemma_count_winning_bound(records.drop_last());
    }
}

/// In a simulation with at most one open position, an open position under
/// `k` is the one open position: it is what `open_key` picks, it is the open
/// position on its side, and no position on the other side is open.
proof fn lemma_open_unique(v: PaperTradingView, k: i64)
    requires
        v.single_open(),
        v.is_open_at(k),
    ensures
        v.has_any_open(),
        v.open_key() == k,
        v.has_open(v.positions[k].side),
        v.open_key_on(v.positions[k].side) == k,
        forall|s: PositionSide| #[trigger] v.has_open(s) ==> s == v.positions[k].side,
{
    let s = v.positions[k].side;
    assert(v.is_open_at(k) && v.positions[k].side == s);
    let a = v.open_key();
    assert(v.is_open_at(a));
    let b = v.open_key_on(s);
    assert(v.is_open_at(b));
    assert forall|t: PositionSide| #[trigger] v.has_open(t) implies t == s by {
        let j = choose|j: i64| #[trigger] v.is_open_at(j) && v.positions[j].side == t;
        assert(v.is_open_at(j));
    }
}

/// With no open position there is none on either side and none to list.
proof fn lemma_no_open(v: PaperTradingView)
    requires
        !v.has_any_open(),
    ensures
        forall|s: PositionSide| !(#[trigger] v.has_open(s)),
        v.open_positions() == Seq::<PositionView>::empty(),
{
    assert forall|s: PositionSide| !(#[trigger] v.has_open(s)) by {
        if v.has_open(s) {
            let j = choose|j: i64| #[trigger] v.is_open_at(j) && v.positions[j].side == s;
            assert(v.is_open_at(j));
        }
    }
}

// ---------------------------------------------------------------------------
// Executable helpers
// ---------------------------------------------------------------------------

impl PaperPosition {
    /// A field-by-field copy.
    pub fn duplicate(&self) -> (r: PaperPosition)
        ensures
            r == *self,
    {
        PaperPosition {
            id: self.id,
            market_id: self.market_id.clone(),
            side: self.side,
            size: self.size,
            entry_price: self.entry_price,
            entry_time: self.entry_time,
            exit_price: self.exit_price,
            exit_time: self.exit_time,
            unrealized_pnl: self.unrealized_pnl,
            realized_pnl: self.realized_pnl,
            status: self.status,
        }
    }

    /// The profit or loss of the position marked at `price`.
    pub fn pnl_at(&self, price: Decimal) -> (r: Option<Decimal>)
        requires
            self@.wf(),
            price.wf(),
        ensures
            r == position_pnl(self@, price),
            r matches Some(d) ==> d.wf(),
            pnl_follows_the_price(self@, price, r),
            valuation_facts(self@, price),
    {
        let diff = if self.side == PositionSide::Yes {
            checked_sub(price, self.entry_price)
        } else {
            checked_sub(self.entry_price, price)
        };
        match diff {
            Some(d) => match checked_mul(d, self.size) {
                Some(m) => checked_div(m, self.entry_price),
                None => None,
            },
            None => None,
        }
    }

    /// This position closed at `price` and `now`, its profit or loss marked
    /// as `unrealized` and realized as `pnl`.
    fn closed_copy(&self, price: Decimal, now: Timestamp, unrealized: Decimal, pnl: Decimal) -> (r: PaperPosition)
        ensures
            r@ == (PositionView { unrealized_pnl: unrealized, ..self@ }).closed(price, now, pnl),
    {
        PaperPosition {
            id: self.id,
            market_id: self.market_id.clone(),
            side: self.side,
            size: self.size,
            entry_price: self.entry_price,
            entry_time: self.entry_time,
            exit_price: Some(price),
            exit_time: Some(now),
            unrealized_pnl: unrealized,
            realized_pnl: pnl,
            status: PositionStatus::Closed,
        }
    }

    /// This position with its unrealized profit or loss marked as `unrealized`.
    fn marked_copy(&self, unrealized: Decimal) -> (r: PaperPosition)
        ensures
            r@ == (PositionView { unrealized_pnl: unrealized, ..self@ }),
    {
        PaperPosition {
            id: self.id,
            market_id: self.market_id.clone(),
            side: self.side,
            size: self.size,
            entry_price: self.entry_price,
            entry_time: self.entry_time,
            exit_price: self.exit_price,
            exit_time: self.exit_time,
            unrealized_pnl: unrealized,
            realized_pnl: self.realized_pnl,
            status: self.status,
        }
    }
}

impl TradeRecord {
    /// A field-by-field copy.
    pub fn duplicate(&self) -> (r: TradeRecord)
        ensures
            r == *self,
    {
        TradeRecord {
            timestamp: self.timestamp,
            market_id: self.market_id.clone(),
            side: self.side,
            size: self.size,
            price: self.price,
            pnl: self.pnl,
        }
    }
}

/// A trading simulation on one market with a fixed trade size.
pub struct PaperTrading {
    positions: HashMap<i64, PaperPosition>,
    open_id: Option<i64>,
    trade_history: Vec<TradeRecord>,
    equity: Decimal,
    initial_equity: Decimal,
    trade_size: Decimal,
    market_id: String,
}

impl View for PaperTrading {
    type V = PaperTradingView;

    closed spec fn view(&self) -> PaperTradingView {
        PaperTradingView {
            positions: position_map_views(self.positions@),
            trade_history: record_views(self.trade_history@),
            equity: self.equity,
            initial_equity: self.initial_equity,
            trade_size: self.trade_size,
            market_id: self.market_id@,
        }
    }
}

impl PaperTrading {
    /// The simulation is valid, and the key of its open position, if any,
    /// is at hand.
    pub closed spec fn wf(&self) -> bool {
        &&& self@.wf()
        &&& match self.open_id {
            Some(k) => self@.is_open_at(k),
            None => !self@.has_any_open(),
        }
    }

    /// A simulation with no positions and no trades, whose equity starts at
    /// `initial_equity`.
    pub fn new(initial_equity: Decimal, trade_size: Decimal, market_id: String) -> (r: PaperTrading)
        requires
            initial_equity.wf(),
            trade_size.wf(),
        ensures
            r@ == (PaperTradingView {
                positions: Map::empty(),
                trade_history: Seq::empty(),
                equity: initial_equity,
                initial_equity,
                trade_size,
                market_id: market_id@,
            }),
            r.wf(),
            r@.wf(),
    {
        let r = PaperTrading {
            positions: HashMap::new(),
            open_id: None,
            trade_history: Vec::new(),
            equity: initial_equity,
            initial_equity,
            trade_size,
            market_id,
        };
        assert(r@.positions =~= Map::<i64, PositionView>::empty());
        assert(record_views(r.trade_history@) =~= Seq::<TradeRecordView>::empty());
        r
    }

    /// The open position, looked up under its key.
    fn open_entry(&self) -> (r: Option<&PaperPosition>)
        requires
            self.wf(),
        ensures
            r is Some <==> self@.has_any_open(),
            r matches Some(p) ==> {
                &&& self.open_id == Some(self@.open_key())
                &&& self@.positions[self@.open_key()] == p@
                &&& self@.is_open_at(self@.open_key())
            },
    {
        match self.open_id {
            None => None,
            Some(k) => {
                proof {
                    lemma_open_unique(self@, k);
                }
                match self.positions.get(&k) {
                    Some(p) => Some(p),
                    None => {
                        assert(self@.positions.contains_key(k));
                        None
                    },
                }
            },
        }
    }

    /// Opens a position on `side` at `price` as `after_open` describes;
    /// leaves everything as it was where that fails.
    fn open_position(&mut self, side: PositionSide, price: Decimal, now: Timestamp) -> (r: bool)
        requires
            old(self).wf(),
            price.wf(),
        ensures
            r == old(self)@.after_open(side, price, now) is Some,
            r ==> final(self)@ == old(self)@.after_open(side, price, now)->0,
            !r ==> final(self)@ == old(self)@,
            final(self).wf(),
    {
        let ghost v = self@;
        let other = side.opposite();
        assert(other == if side == PositionSide::Yes { PositionSide::No } else { PositionSide::Yes });
        match self.open_entry() {
            None => {
                proof {
                    lemma_no_open(v);
                }
            },
            Some(p) => {
                let k = p.id;
                proof {
                    let kk = v.open_key();
                    lemma_open_unique(v, kk);
                    assert(k == kk);
                }
                if p.side == side {
                    return true;
                }
                let pnl = match p.pnl_at(price) {
                    None => {
                        return false;
                    },
                    Some(x) => x,
                };
                let e = match checked_add(self.equity, pnl) {
                    None => {
                        return false;
                    },
                    Some(e) => e,
                };
                let c = p.closed_copy(price, now, p.unrealized_pnl, pnl);
                let rec = TradeRecord {
                    timestamp: now,
                    market_id: self.market_id.clone(),
                    side: p.side,
                    size: self.trade_size,
                    price,
                    pnl,
                };
                proof {
                    lemma_position_map_views_insert(self.positions@, k, c);
                    lemma_record_views_push(self.trade_history@, rec);
                    lemma_pnl_total_push(v.initial_equity, v.trade_history, rec@);
                }
                self.positions.insert(k, c);
                self.trade_history.push(rec);
                self.equity = e;
                self.open_id = None;
                assert(self@ == v.after_close(other, price, now)->0);
            },
        }
        let ghost w = self@;
        let newp = PaperPosition {
            id: now.secs,
            market_id: self.market_id.clone(),
            side,
            size: self.trade_size,
            entry_price: price,
            entry_time: now,
            exit_price: None,
            exit_time: None,
            unrealized_pnl: Decimal::zero(),
            realized_pnl: Decimal::zero(),
            status: PositionStatus::Open,
        };
        assert(newp@ == v.new_position(side, price, now));
        proof {
            lemma_position_map_views_insert(self.positions@, now.secs, newp);
        }
        self.positions.insert(now.secs, newp);
        self.open_id = Some(now.secs);
        proof {
            let x = self@;
            assert(x == v.after_open(side, price, now)->0);
            law_open_leaves_only_the_new_position_open(v, side, price, now);
            assert forall|k: i64| #![trigger x.positions[k]]
                x.positions.contains_key(k) implies x.positions[k].wf() && x.positions[k].id == k by {
                if k != now.secs {
                    assert(x.positions[k] == w.positions[k]);
                }
            }
            assert forall|i: int| 0 <= i < x.trade_history.len() implies (#[trigger] x.trade_history[i]).wf() by {
                if i < v.trade_history.len() {
                    assert(x.trade_history[i] == v.trade_history[i]);
                }
            }
        }
        true
    }

    /// Marks the open position at `price` and closes it where it leaves the
    /// band, as `after_exits` describes; leaves everything as it was where
    /// that fails.
    fn check_exits(&mut self, price: Decimal, now: Timestamp) -> (r: bool)
        requires
            old(self).wf(),
            price.wf(),
        ensures
            r == old(self)@.after_exits(price, now) is Some,
            r ==> final(self)@ == old(self)@.after_exits(price, now)->0,
            !r ==> final(self)@ == old(self)@,
            final(self).wf(),
    {
        let ghost v = self@;
        let p = match self.open_entry() {
            None => {
                return true;
            },
            Some(p) => p,
        };
        let k = p.id;
        proof {
            lemma_open_unique(v, v.open_key());
        }
        let u = match p.pnl_at(price) {
            None => {
                return false;
            },
            Some(u) => u,
        };
        let pct = match checked_div(u, p.size) {
            None => {
                return false;
            },
            Some(x) => x,
        };
        let lower = Decimal::from_i64(-2);
        let upper = Decimal::from_i64(4);
        if lt(pct, lower) || lt(upper, pct) {
            let e = match checked_add(self.equity, u) {
                None => {
                    return false;
                },
                Some(e) => e,
            };
            let c = p.closed_copy(price, now, u, u);
            let rec = TradeRecord {
                timestamp: now,
                market_id: self.market_id.clone(),
                side: p.side,
                size: self.trade_size,
                price,
                pnl: u,
            };
            proof {
                lemma_position_map_views_insert(self.positions@, k, c);
                lemma_record_views_push(self.trade_history@, rec);
                lemma_pnl_total_push(v.initial_equity, v.trade_history, rec@);
            }
            self.positions.insert(k, c);
            self.trade_history.push(rec);
            self.equity = e;
            self.open_id = None;
        } else {
            let c = p.marked_copy(u);
            proof {
                lemma_position_map_views_insert(self.positions@, k, c);
            }
            self.positions.insert(k, c);
        }
        proof {
            let x = self@;
            assert(x == v.after_exits(price, now)->0);
            law_hold_keeps_position_within_band(v, price, now, k);
            law_signal_keeps_at_most_one_open_position(v, Direction::Hold, price, now);
            assert forall|j: i64| #![trigger x.positions[j]]
                x.positions.contains_key(j) implies x.positions[j].wf() && x.positions[j].id == j by {
                if j != k {
                    assert(x.positions[j] == v.positions[j]);
                }
            }
            assert forall|i: int| 0 <= i < x.trade_history.len() implies (#[trigger] x.trade_history[i]).wf() by {
                if i < v.trade_history.len() {
                    assert(x.trade_history[i] == v.trade_history[i]);
                }
            }
            if self.open_id is None {
                assert forall|j: i64| !(#[trigger] x.is_open_at(j)) by {
                    if j != k && x.is_open_at(j) {
                        assert(v.is_open_at(j));
                    }
                }
            }
        }
        true
    }

    /// Acts on `signal` at `price` and instant `now` where no `rust_decimal`
    /// operation on the way overflows or divides by zero, and says whether it
    /// did; otherwise leaves the simulation as it was.
    pub fn try_execute_signal_at(&mut self, signal: Direction, price: Decimal, now: Timestamp) -> (r: bool)
        requires
            old(self).wf(),
            price.wf(),
        ensures
            r == old(self)@.after_signal(signal, price, now) is Some,
            r ==> final(self)@ == old(self)@.after_signal(signal, price, now)->0,
            !r ==> final(self)@ == old(self)@,
            final(self).wf(),
            final(self)@.wf(),
    {
        let r = match signal {
            Direction::Up => self.open_position(PositionSide::Yes, price, now),
            Direction::Down => self.open_position(PositionSide::No, price, now),
            Direction::Hold => self.check_exits(price, now),
        };
        r
    }

    /// Acts on `signal` at `price` and instant `now`: UP opens a YES position,
    /// DOWN a NO position (closing the other side first, doing nothing while
    /// the same side is open), HOLD marks the open position and closes it
    /// outside the band.
    pub fn execute_signal_at(&mut self, signal: Direction, price: Decimal, now: Timestamp)
        requires
            old(self).wf(),
            price.wf(),
            old(self)@.after_signal(signal, price, now) is Some,
        ensures
            final(self)@ == old(self)@.after_signal(signal, price, now)->0,
            final(self).wf(),
            final(self)@.wf(),
    {
        self.try_execute_signal_at(signal, price, now);
    }

    /// Acts on `signal` at `price` now, where that succeeds at any instant.
    pub fn execute_signal(&mut self, signal: Direction, price: Decimal)
        requires
            old(self).wf(),
            price.wf(),
            forall|t: Timestamp| (#[trigger] old(self)@.after_signal(signal, price, t)) is Some,
        ensures
            exists|t: Timestamp| final(self)@ == (#[trigger] old(self)@.after_signal(signal, price, t))->0,
            final(self).wf(),
            final(self)@.wf(),
    {
        let now = utc_now();
        self.execute_signal_at(signal, price, now);
    }

    /// Acts on `signal` at `price` now where no `rust_decimal` operation
    /// overflows or divides by zero, and says whether it did.
    pub fn try_execute_signal(&mut self, signal: Direction, price: Decimal) -> (r: bool)
        requires
            old(self).wf(),
            price.wf(),
        ensures
            exists|t: Timestamp| {
                &&& r == (#[trigger] old(self)@.after_signal(signal, price, t)) is Some
                &&& r ==> final(self)@ == old(self)@.after_signal(signal, price, t)->0
            },
            !r ==> final(self)@ == old(self)@,
            final(self).wf(),
            final(self)@.wf(),
    {
        let now = utc_now();
        self.try_execute_signal_at(signal, price, now)
    }

    /// The summary figures, or `None` where summing or averaging the profit
    /// and loss overflows.
    pub fn try_get_stats(&self) -> (r: Option<PaperTradingStats>)
        requires
            self.wf(),
        ensures
            r == self@.stats(),
            self@.trade_history.len() <= usize::MAX,
    {
        let ghost v = self@;
        let ghost h = v.trade_history;
        let n = self.trade_history.len();
        let mut total = Decimal::zero();
        let mut winning: usize = 0;
        assert(h.take(0) =~= Seq::<TradeRecordView>::empty());
        for i in 0..n
            invariant
                n == self.trade_history@.len(),
                v == self@,
                h == v.trade_history,
                v.wf(),
                pnl_total(Decimal::spec_zero(), h.take(i as int)) == Some(total),
                total.wf(),
                winning == count_winning(h.take(i as int)),
                winning <= i,
        {
            proof {
                lemma_take_step(h, i as int);
            }
            let t = &self.trade_history[i];
            assert(h[i as int] == t@);
            assert(t@.wf());
            match checked_add(total, t.pnl) {
                None => {
                    proof {
                        lemma_pnl_total_none(h, i + 1, Decimal::spec_zero());
                    }
                    return None;
                },
                Some(x) => {
                    total = x;
                },
            }
            if t.pnl.gt_zero() {
                winning = winning + 1;
            }
        }
        assert(h.take(n as int) =~= h);
        let avg = if n > 0 {
            match checked_div(total, Decimal::from_i64(n as i64)) {
                None => {
                    return None;
                },
                Some(a) => a,
            }
        } else {
            Decimal::zero()
        };
        let open: usize = match self.open_entry() {
            Some(_) => 1,
            None => 0,
        };
        Some(PaperTradingStats {
            total_trades: n,
            winning_trades: winning,
            losing_trades: n - winning,
            total_pnl: total,
            avg_trade_pnl: avg,
            max_drawdown: Decimal::zero(),
            current_equity: self.equity,
            initial_equity: self.initial_equity,
            open_positions: open,
        })
    }

    /// The summary figures: number of trades, of winning ones (profit above
    /// zero) and of the others, total and average profit and loss, equity
    /// now and at the start, and the number of open positions.
    pub fn get_stats(&self) -> (r: PaperTradingStats)
        requires
            self.wf(),
            self@.stats() is Some,
        ensures
            r == self@.stats()->0,
            self@.trade_history.len() <= usize::MAX,
    {
        self.try_get_stats().unwrap()
    }

    /// The open positions: the one open position, or none.
    pub fn get_open_positions(&self) -> (r: Vec<PaperPosition>)
        requires
            self.wf(),
        ensures
            position_views(r@) == self@.open_positions(),
    {
        let mut out: Vec<PaperPosition> = Vec::new();
        match self.open_entry() {
            None => {},
            Some(p) => {
                out.push(p.duplicate());
            },
        }
        assert(position_views(out@) =~= self@.open_positions());
        out
    }

    /// The `n` most recent trades, most recent first (fewer when fewer exist).
    pub fn get_recent_trades(&self, n: usize) -> (r: Vec<TradeRecord>)
        ensures
            record_views(r@) == recent_records(self@.trade_history, n as nat),
    {
        let ghost h = self@.trade_history;
        let len = self.trade_history.len();
        let k = if n < len { n } else { len };
        let mut out: Vec<TradeRecord> = Vec::new();
        for j in 0..k
            invariant
                len == self.trade_history@.len(),
                h == self@.trade_history,
                h == record_views(self.trade_history@),
                k <= len,
                out@.len() == j,
                forall|q: int| 0 <= q < j ==> (#[trigger] out@[q])@ == h[len - 1 - q],
        {
            let t = self.trade_history[len - 1 - j].duplicate();
            out.push(t);
        }
        assert(record_views(out@) =~= recent_records(h, n as nat));
        out
    }
}

/// What a valid simulation tells its holder: its values satisfy the
/// invariant of `PaperTradingView::wf`, and at most one of its positions
/// is listed as open.
pub proof fn lemma_valid_simulation(pt: &PaperTrading)
    requires
        pt.wf(),
    ensures
        pt@.wf(),
        pt@.open_positions().len() <= 1,
{
}

/// A failure on a prefix is a failure on the whole sequence.
proof fn lemma_pnl_total_none(records: Seq<TradeRecordView>, k: int, start: Decimal)
    requires
        0 <= k <= records.len(),
        pnl_total(start, records.take(k)) is None,
    ensures
        pnl_total(start, records) is None,
    decreases records.len() - k,
{
    if k < records.len() {
        lemma_take_step(records, k);
        lemma_pnl_total_none(records, k + 1, start);
    } else {
        assert(records.take(k) =~= records);
    }
}

// ---------------------------------------------------------------------------
// Laws
// ---------------------------------------------------------------------------

/// A signal in the direction of a position that is already open changes
/// nothing, whatever the price: UP while a YES position is open, DOWN while a
/// NO position is open.
pub proof fn law_same_side_signal_changes_nothing(v: PaperTradingView, signal: Direction, price: Decimal, now: Timestamp)
    requires
        (signal == Direction::Up && v.has_open(PositionSide::Yes)) || (signal == Direction::Down && v.has_open(
            PositionSide::No,
        )),
    ensures
        v.after_signal(signal, price, now) == Some(v),
{
}

/// After a position is opened, it is held under its id and it is the only
/// open position: the other side has been closed. Opening itself records no
/// trade and leaves the equity alone.
pub proof fn law_open_leaves_only_the_new_position_open(
    v: PaperTradingView,
    side: PositionSide,
    price: Decimal,
    now: Timestamp,
)
    requires
        v.single_open(),
        !v.has_open(side),
        v.after_open(side, price, now) is Some,
    ensures
        ({
            let w = v.after_open(side, price, now)->0;
            &&& w.positions.contains_key(now.secs)
            &&& w.positions[now.secs] == v.new_position(side, price, now)
            &&& w.is_open_at(now.secs)
            &&& forall|k: i64| #[trigger] w.is_open_at(k) ==> k == now.secs
            &&& !v.has_any_open() ==> w.trade_history == v.trade_history && w.equity == v.equity
        }),
{
    let other = if side == PositionSide::Yes { PositionSide::No } else { PositionSide::Yes };
    let c = v.after_close(other, price, now)->0;
    let w = v.after_open(side, price, now)->0;
    assert forall|k: i64| !(#[trigger] c.is_open_at(k)) by {
        if v.has_open(other) {
            let kk = v.open_key_on(other);
            assert(v.is_open_at(kk));
            if k != kk && c.is_open_at(k) {
                assert(c.positions[k] == v.positions[k]);
                assert(v.is_open_at(k));
            }
        } else {
            if c.is_open_at(k) {
                assert(v.is_open_at(k));
                if v.positions[k].side == side {
                    assert(v.has_open(side));
                } else {
                    assert(v.has_open(other));
                }
            }
        }
    }
    assert forall|k: i64| #[trigger] w.is_open_at(k) implies k == now.secs by {
        if k != now.secs {
            assert(w.positions[k] == c.positions[k]);
            assert(c.is_open_at(k));
        }
    }
}

/// No signal opens a second position: a simulation with at most one open
/// position still has at most one after any signal.
pub proof fn law_signal_keeps_at_most_one_open_position(
    v: PaperTradingView,
    signal: Direction,
    price: Decimal,
    now: Timestamp,
)
    requires
        v.single_open(),
        v.after_signal(signal, price, now) is Some,
    ensures
        v.after_signal(signal, price, now)->0.single_open(),
{
    let w = v.after_signal(signal, price, now)->0;
    match signal {
        Direction::Hold => {
            if v.has_any_open() {
                let k = v.open_key();
                assert(v.is_open_at(k));
                assert forall|a: i64, b: i64| #[trigger] w.is_open_at(a) && #[trigger] w.is_open_at(b) implies a == b by {
                    if a != k {
                        assert(w.positions[a] == v.positions[a]);
                        assert(v.is_open_at(a));
                    }
                    if b != k {
                        assert(w.positions[b] == v.positions[b]);
                        assert(v.is_open_at(b));
                    }
                }
            }
        },
        _ => {
            let side = if signal == Direction::Up { PositionSide::Yes } else { PositionSide::No };
            if !v.has_open(side) {
                law_open_leaves_only_the_new_position_open(v, side, price, now);
            }
        },
    }
}

/// The open positions listed are the one open position, where there is one.
pub proof fn law_open_positions_lists_the_open_one(v: PaperTradingView, k: i64)
    requires
        v.single_open(),
        v.is_open_at(k),
    ensures
        v.open_positions() == seq![v.positions[k]],
{
    lemma_open_unique(v, k);
}

/// Trades are only ever added: the history after a signal begins with the
/// history before it, and the initial equity, trade size and market stay.
pub proof fn law_history_only_grows(v: PaperTradingView, signal: Direction, price: Decimal, now: Timestamp)
    requires
        v.after_signal(signal, price, now) is Some,
    ensures
        ({
            let w = v.after_signal(signal, price, now)->0;
            &&& w.trade_history.len() >= v.trade_history.len()
            &&& w.trade_history.subrange(0, v.trade_history.len() as int) == v.trade_history
            &&& w.initial_equity == v.initial_equity
            &&& w.trade_size == v.trade_size
            &&& w.market_id == v.market_id
        }),
{
    let w = v.after_signal(signal, price, now)->0;
    assert(w.trade_history.subrange(0, v.trade_history.len() as int) =~= v.trade_history);
}

/// With prices above zero, every open position stays entered at a price
/// above zero: a new position is entered at the signal's price, and marking
/// or closing never changes an entry price.
pub proof fn law_open_entries_stay_positive(v: PaperTradingView, signal: Direction, price: Decimal, now: Timestamp)
    requires
        v.single_open(),
        price.is_positive(),
        forall|k: i64| #[trigger] v.is_open_at(k) ==> v.positions[k].entry_price.is_positive(),
        v.after_signal(signal, price, now) is Some,
    ensures
        ({
            let w = v.after_signal(signal, price, now)->0;
            forall|k: i64| #[trigger] w.is_open_at(k) ==> w.positions[k].entry_price.is_positive()
        }),
{
    let w = v.after_signal(signal, price, now)->0;
    match signal {
        Direction::Hold => {
            if v.has_any_open() {
                let k = v.open_key();
                assert(v.is_open_at(k));
                assert forall|j: i64| #[trigger] w.is_open_at(j) implies w.positions[j].entry_price.is_positive() by {
                    if j != k {
                        assert(w.positions[j] == v.positions[j]);
                        assert(v.is_open_at(j));
                    } else {
                        assert(w.positions[j].entry_price == v.positions[k].entry_price);
                    }
                }
            }
        },
        _ => {
            let side = if signal == Direction::Up { PositionSide::Yes } else { PositionSide::No };
            if !v.has_open(side) {
                law_open_leaves_only_the_new_position_open(v, side, price, now);
            }
        },
    }
}

/// HOLD with an open position under `k`: the position is marked with its
/// profit or loss at `price`, stays open exactly when its return (profit or
/// loss per unit of size) lies within the band, and when closed it was
/// closed at `price` with that profit or loss realized, recorded as a trade
/// and added to the equity. No other position changes.
pub proof fn law_hold_keeps_position_within_band(v: PaperTradingView, price: Decimal, now: Timestamp, k: i64)
    requires
        v.single_open(),
        v.is_open_at(k),
        v.after_exits(price, now) is Some,
    ensures
        ({
            let w = v.after_exits(price, now)->0;
            let p = v.positions[k];
            let u = position_pnl(p, price)->0;
            let pct = decimal_checked_div(u, p.size)->0;
            &&& position_pnl(p, price) is Some
            &&& decimal_checked_div(u, p.size) is Some
            &&& w.positions.dom() == v.positions.dom()
            &&& w.positions[k].unrealized_pnl == u
            &&& w.positions[k].entry_price == p.entry_price
            &&& w.is_open_at(k) == !outside_band(pct)
            &&& !w.is_open_at(k) ==> w.positions[k].realized_pnl == u && w.positions[k].exit_price == Some(price)
            &&& forall|j: i64| j != k ==> #[trigger] w.positions[j] == v.positions[j]
            &&& !w.is_open_at(k) ==> {
                &&& w.trade_history == v.trade_history.push(
                    trade_record(now, v.market_id, p.side, v.trade_size, price, u),
                )
                &&& decimal_checked_add(v.equity, u) == Some(w.equity)
            }
            &&& w.is_open_at(k) ==> w.trade_history == v.trade_history && w.equity == v.equity
        }),
{
    lemma_open_unique(v, k);
    let w = v.after_exits(price, now)->0;
    assert(w.positions.dom() =~= v.positions.dom());
}

/// HOLD with no open position changes nothing.
pub proof fn law_hold_without_open_position_changes_nothing(v: PaperTradingView, price: Decimal, now: Timestamp)
    requires
        !v.has_any_open(),
    ensures
        v.after_exits(price, now) == Some(v),
{
}

/// A signal against the open position under `k` closes it and records
/// exactly one trade, at `price`, whose profit or loss is that position's
/// at `price` and is added to the equity.
pub proof fn law_reversal_records_one_trade(
    v: PaperTradingView,
    side: PositionSide,
    price: Decimal,
    now: Timestamp,
    k: i64,
)
    requires
        v.single_open(),
        v.is_open_at(k),
        v.positions[k].side != side,
        v.after_open(side, price, now) is Some,
    ensures
        ({
            let w = v.after_open(side, price, now)->0;
            let p = v.positions[k];
            let pnl = position_pnl(p, price)->0;
            &&& position_pnl(p, price) is Some
            &&& w.trade_history == v.trade_history.push(trade_record(now, v.market_id, p.side, v.trade_size, price, pnl))
            &&& decimal_checked_add(v.equity, pnl) == Some(w.equity)
            &&& k != now.secs ==> w.positions[k] == p.closed(price, now, pnl)
        }),
{
    lemma_open_unique(v, k);
    assert(!v.has_open(side));
    let other = if side == PositionSide::Yes { PositionSide::No } else { PositionSide::Yes };
    assert(v.positions[k].side == other);
}

/// The summary counts: every trade is either winning or losing, the
/// equity reported is the current equity, the total is the sum of the
/// recorded profit and loss, and the average is that total divided by the
/// number of trades (zero without trades).
pub proof fn law_stats_add_up(v: PaperTradingView)
    requires
        v.stats() is Some,
        v.trade_history.len() <= usize::MAX,
    ensures
        ({
            let st = v.stats()->0;
            &&& st.total_trades == v.trade_history.len()
            &&& st.winning_trades + st.losing_trades == st.total_trades
            &&& st.winning_trades == count_winning(v.trade_history)
            &&& Some(st.total_pnl) == pnl_total(Decimal::spec_zero(), v.trade_history)
            &&& st.current_equity == v.equity
            &&& st.initial_equity == v.initial_equity
            &&& st.total_trades > 0 ==> decimal_checked_div(
                st.total_pnl,
                Decimal::spec_from_i64(st.total_trades as i64),
            ) == Some(st.avg_trade_pnl)
            &&& st.total_trades == 0 ==> st.avg_trade_pnl == Decimal::spec_zero()
            &&& st.max_drawdown == Decimal::spec_zero()
            &&& st.winning_trades == v.trade_history.filter(|t: TradeRecordView| t.pnl.mantissa > 0).len()
            &&& Some(st.total_pnl) == v.trade_history.fold_left(
                Some(Decimal::spec_zero()),
                |acc: Option<Decimal>, t: TradeRecordView| match acc {
                    Some(sum) => decimal_checked_add(sum, t.pnl),
                    None => None,
                },
            )
        }),
{
    lemma_count_winning_bound(v.trade_history);
    lemma_count_winning_filter(v.trade_history);
    lemma_pnl_total_fold(Decimal::spec_zero(), v.trade_history);
}

proof fn lemma_count_winning_filter(records: Seq<TradeRecordView>)
    ensures
        count_winning(records) == records.filter(|t: TradeRecordView| t.pnl.mantissa > 0).len(),
    decreases records.len(),
{
    reveal(Seq::filter);
    if records.len() > 0 {
        lemma_count_winning_filter(records.drop_last());
    }
}

proof fn lemma_pnl_total_fold(start: Decimal, records: Seq<TradeRecordView>)
    ensures
        pnl_total(start, records) == records.fold_left(
            Some(start),
            |acc: Option<Decimal>, t: TradeRecordView| match acc {
                Some(sum) => decimal_checked_add(sum, t.pnl),
                None => None,
            },
        ),
    decreases records.len(),
{
    if records.len() > 0 {
        lemma_pnl_total_fold(start, records.drop_last());
    }
}

/// The most recent trades come most recent first, and asking for all of
/// them gives the whole history in reverse.
pub proof fn law_recent_trades_reverse_history(records: Seq<TradeRecordView>)
    ensures
        recent_records(records, records.len()) == records.reverse(),
        records.len() > 0 ==> recent_records(records, 1) == seq![records.last()],
{
    assert(recent_records(records, records.len()) =~= records.reverse());
    if records.len() > 0 {
        assert(recent_records(records, 1) =~= seq![records.last()]);
    }
}

} // verus!
