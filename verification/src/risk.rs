//! Daily loss limit and position size limit.
use vstd::prelude::*;
use crate::clock::{utc_now, Timestamp};
use crate::decimal::{decimal_text, decimal_to_text, lt, Decimal};

verus! {

/// Which outcome of a binary market a position holds.
#[derive(Clone, Copy, Debug, PartialEq, Eq, Structural)]
pub enum PositionSide {
    Yes,
    No,
}

impl PositionSide {
    /// The other outcome.
    pub fn opposite(self) -> (r: PositionSide)
        ensures
            r != self,
    {
        match self {
            PositionSide::Yes => PositionSide::No,
            PositionSide::No => PositionSide::Yes,
        }
    }
}

/// A position as the risk manager tracks it.
#[derive(Debug)]
pub struct Position {
    pub market_id: String,
    pub side: PositionSide,
    pub size: Decimal,
    pub entry_price: Decimal,
    pub entry_time: Timestamp,
    pub unrealized_pnl: Decimal,
    pub realized_pnl: Decimal,
}

impl Position {
    /// A field-by-field copy.
    pub fn duplicate(&self) -> (r: Position)
        ensures
            r == *self,
    {
        Position {
            market_id: self.market_id.clone(),
            side: self.side,
            size: self.size,
            entry_price: self.entry_price,
            entry_time: self.entry_time,
            unrealized_pnl: self.unrealized_pnl,
            realized_pnl: self.realized_pnl,
        }
    }
}

/// The verdict on a proposed trade.
#[derive(Debug)]
pub enum RiskCheck {
    Allow,
    Block(String),
    Reduce(String),
}

/// The text of the verdict when the daily loss limit has been reached.
pub open spec fn daily_loss_message(daily_pnl: Decimal) -> Seq<char> {
    "Daily loss limit reached: "@ + decimal_text(daily_pnl) + " USDC"@
}

/// The text of the verdict when a trade is larger than the limit.
pub open spec fn size_limit_message(size: Decimal, limit: Decimal) -> Seq<char> {
    "Trade size "@ + decimal_text(size) + " exceeds limit "@ + decimal_text(limit)
}

fn format_daily_loss(daily_pnl: Decimal) -> (r: String)
    requires
        daily_pnl.wf(),
    ensures
        r@ == daily_loss_message(daily_pnl),
{
    let mut s = String::from_str("Daily loss limit reached: ");
    let t = decimal_to_text(daily_pnl);
    s.append(t.as_str());
    s.append(" USDC");
    s
}

fn format_size_limit(size: Decimal, limit: Decimal) -> (r: String)
    requires
        size.wf(),
        limit.wf(),
    ensures
        r@ == size_limit_message(size, limit),
{
    let mut s = String::from_str("Trade size ");
    let t = decimal_to_text(size);
    s.append(t.as_str());
    s.append(" exceeds limit ");
    let u = decimal_to_text(limit);
    s.append(u.as_str());
    s
}

/// What a risk manager holds, as values.
pub ghost struct RiskManagerView {
    pub daily_pnl: Decimal,
    pub daily_pnl_start: Timestamp,
    pub positions: Seq<Position>,
    pub max_daily_loss: Decimal,
    pub max_position_size: Decimal,
}

/// The verdict, as values.
pub ghost enum RiskVerdict {
    Allow,
    Block(Seq<char>),
    Reduce(Seq<char>),
}

impl RiskCheck {
    pub open spec fn verdict(self) -> RiskVerdict {
        match self {
            RiskCheck::Allow => RiskVerdict::Allow,
            RiskCheck::Block(s) => RiskVerdict::Block(s@),
            RiskCheck::Reduce(s) => RiskVerdict::Reduce(s@),
        }
    }
}

impl RiskManagerView {
    pub open spec fn wf(self) -> bool {
        &&& self.daily_pnl.wf()
        &&& self.max_daily_loss.wf()
        &&& self.max_position_size.wf()
    }

    /// The state after the daily figure is brought up to date at `now`: more
    /// than a day after the start of the period, the figure goes back to zero
    /// and a new period starts at `now`.
    pub open spec fn reset_at(self, now: Timestamp) -> RiskManagerView {
        if now.more_than_a_day_after(self.daily_pnl_start) {
            RiskManagerView { daily_pnl: Decimal::spec_zero(), daily_pnl_start: now, ..self }
        } else {
            self
        }
    }

    /// The verdict on a trade of `size` in a state already brought up to date.
    pub open spec fn verdict_for(self, size: Decimal) -> RiskVerdict {
        if self.daily_pnl.spec_less(self.max_daily_loss.spec_neg()) {
            RiskVerdict::Block(daily_loss_message(self.daily_pnl))
        } else if self.max_position_size.spec_less(size) {
            RiskVerdict::Reduce(size_limit_message(size, self.max_position_size))
        } else {
            RiskVerdict::Allow
        }
    }
}

/// Tracks the profit and loss of the current day against a loss limit and
/// caps the size of single trades.
pub struct RiskManager {
    daily_pnl: Decimal,
    daily_pnl_start: Timestamp,
    positions: Vec<Position>,
    max_daily_loss: Decimal,
    max_position_size: Decimal,
}

impl View for RiskManager {
    type V = RiskManagerView;

    closed spec fn view(&self) -> RiskManagerView {
        RiskManagerView {
            daily_pnl: self.daily_pnl,
            daily_pnl_start: self.daily_pnl_start,
            positions: self.positions@,
            max_daily_loss: self.max_daily_loss,
            max_position_size: self.max_position_size,
        }
    }
}

impl RiskManager {
    /// A manager whose day starts at `now`, with no loss and no positions.
    pub fn new_at(max_daily_loss: Decimal, max_position_size: Decimal, now: Timestamp) -> (r: RiskManager)
        requires
            max_daily_loss.wf(),
            max_position_size.wf(),
        ensures
            r@ == (RiskManagerView {
                daily_pnl: Decimal::spec_zero(),
                daily_pnl_start: now,
                positions: Seq::empty(),
                max_daily_loss,
                max_position_size,
            }),
            r@.wf(),
    {
        RiskManager {
            daily_pnl: Decimal::zero(),
            daily_pnl_start: now,
            positions: Vec::new(),
            max_daily_loss,
            max_position_size,
        }
    }

    /// A manager whose day starts now.
    pub fn new(max_daily_loss: Decimal, max_position_size: Decimal) -> (r: RiskManager)
        requires
            max_daily_loss.wf(),
            max_position_size.wf(),
        ensures
            r@.daily_pnl == Decimal::spec_zero(),
            r@.positions == Seq::<Position>::empty(),
            r@.max_daily_loss == max_daily_loss,
            r@.max_position_size == max_position_size,
            r@.wf(),
    {
        RiskManager::new_at(max_daily_loss, max_position_size, utc_now())
    }

    /// Starts a new day when more than a day has passed since the current
    /// one started.
    pub fn reset_daily_if_needed_at(&mut self, now: Timestamp)
        ensures
            final(self)@ == old(self)@.reset_at(now),
    {
        if now.nanos_since(self.daily_pnl_start) > crate::clock::DAY_NANOS {
            self.daily_pnl = Decimal::zero();
            self.daily_pnl_start = now;
        }
    }

    /// Judges a trade of `size` at the instant `now`: blocked while the day's
    /// loss is beyond the limit, reduced when larger than the size limit,
    /// allowed otherwise.
    pub fn check_trade_at(&mut self, _market_id: &str, size: Decimal, _side: PositionSide, now: Timestamp) -> (r: RiskCheck)
        requires
            old(self)@.wf(),
            size.wf(),
        ensures
            final(self)@ == old(self)@.reset_at(now),
            final(self)@.wf(),
            r.verdict() == final(self)@.verdict_for(size),
    {
        self.reset_daily_if_needed_at(now);
        let limit = self.max_daily_loss.neg();
        if lt(self.daily_pnl, limit) {
            return RiskCheck::Block(format_daily_loss(self.daily_pnl));
        }
        if lt(self.max_position_size, size) {
            return RiskCheck::Reduce(format_size_limit(size, self.max_position_size));
        }
        RiskCheck::Allow
    }

    /// Judges a trade of `size` now.
    pub fn check_trade(&mut self, _market_id: &str, size: Decimal, _side: PositionSide) -> (r: RiskCheck)
        requires
            old(self)@.wf(),
            size.wf(),
        ensures
            exists|now: Timestamp| final(self)@ == #[trigger] old(self)@.reset_at(now),
            final(self)@.wf(),
            r.verdict() == final(self)@.verdict_for(size),
    {
        self.check_trade_at(_market_id, size, _side, utc_now())
    }

    /// The positions being tracked.
    pub fn positions(&self) -> (r: Vec<Position>)
        ensures
            r@ == self@.positions,
    {
        let mut out: Vec<Position> = Vec::new();
        let n = self.positions.len();
        for i in 0..n
            invariant
                n == self.positions@.len(),
                out@ == self.positions@.take(i as int),
        {
            out.push(self.positions[i].duplicate());
            assert(self.positions@.take(i + 1) == self.positions@.take(i as int).push(self.positions@[i as int]));
        }
        assert(self.positions@.take(n as int) == self.positions@);
        out
    }

    /// The day's profit and loss at `now`, after starting a new day if one is due.
    pub fn total_pnl_at(&mut self, now: Timestamp) -> (r: Decimal)
        ensures
            final(self)@ == old(self)@.reset_at(now),
            r == final(self)@.daily_pnl,
    {
        self.reset_daily_if_needed_at(now);
        self.daily_pnl
    }

    /// The day's profit and loss now.
    pub fn total_pnl(&mut self) -> (r: Decimal)
        ensures
            exists|now: Timestamp| final(self)@ == #[trigger] old(self)@.reset_at(now),
            r == final(self)@.daily_pnl,
    {
        self.total_pnl_at(utc_now())
    }
}

/// Bringing the day up to date twice at one instant is the same as once.
pub proof fn law_reset_is_idempotent(v: RiskManagerView, now: Timestamp)
    ensures
        v.reset_at(now).reset_at(now) == v.reset_at(now),
{
}

/// The daily figure is only ever kept or set back to zero, and the period
/// either stays as it was or starts anew at the instant of the check.
pub proof fn law_reset_keeps_or_zeroes(v: RiskManagerView, now: Timestamp)
    ensures
        v.reset_at(now).daily_pnl == v.daily_pnl || v.reset_at(now).daily_pnl == Decimal::spec_zero(),
        (v.reset_at(now).daily_pnl_start == now) || (v.reset_at(now) == v),
{
}

/// On a fresh day a loss limit that is not negative blocks nothing: a
/// trade within the size limit is allowed, a larger one is reduced.
pub proof fn law_fresh_day_blocks_nothing(v: RiskManagerView, size: Decimal)
    requires
        v.daily_pnl == Decimal::spec_zero(),
        !v.max_daily_loss.is_negative(),
    ensures
        v.verdict_for(size) == if v.max_position_size.spec_less(size) {
            RiskVerdict::Reduce(size_limit_message(size, v.max_position_size))
        } else {
            RiskVerdict::Allow
        },
{
    crate::decimal::lemma_pow10_positive(v.max_daily_loss.scale as nat);
    assert(crate::decimal::pow10(0) == 1);
}

/// A loss beyond the limit blocks every trade, whatever its size.
pub proof fn law_loss_beyond_limit_blocks(v: RiskManagerView, size: Decimal)
    requires
        v.daily_pnl.spec_less(v.max_daily_loss.spec_neg()),
    ensures
        v.verdict_for(size) == RiskVerdict::Block(daily_loss_message(v.daily_pnl)),
{
}

} // verus!
