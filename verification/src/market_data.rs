//! The recent history of spot prices and the latest prediction-market
//! prices, with the figures the signal generator reads from them.
use vstd::prelude::*;
use std::collections::VecDeque;
use crate::clock::{utc_now, Timestamp};
use crate::decimal::{
    checked_add, checked_div, checked_sub, decimal_checked_add, decimal_checked_div, decimal_checked_sub, difference_facts,
    quotient_facts, sum_facts, Decimal,
};

verus! {

/// Where a price came from.
#[derive(Clone, Copy, Debug, PartialEq, Eq, Structural)]
pub enum PriceSource {
    Binance,
    PolymarketMid,
    PolymarketLast,
}

/// One observed price.
#[derive(Clone, Copy, Debug, PartialEq, Eq, Structural)]
pub struct PricePoint {
    pub timestamp: Timestamp,
    pub price: Decimal,
    pub source: PriceSource,
    pub volume: Option<Decimal>,
}

impl PricePoint {
    pub open spec fn wf(self) -> bool {
        &&& self.price.wf()
        &&& (self.volume matches Some(v) ==> v.wf())
    }
}

/// How many spot prices the history keeps.
pub const HISTORY_CAPACITY: usize = 1000usize;

/// Market data as values.
pub ghost struct MarketDataView {
    pub price_history: Seq<PricePoint>,
    pub current_spot: Option<PricePoint>,
    pub polymarket_yes_price: Option<Decimal>,
    pub polymarket_no_price: Option<Decimal>,
}

/// `a - b` then divided by `b`, each as `rust_decimal` computes it.
pub open spec fn relative_change(a: Decimal, b: Decimal) -> Option<Decimal> {
    match decimal_checked_sub(a, b) {
        Some(d) => decimal_checked_div(d, b),
        None => None,
    }
}

/// What the arithmetic behind `relative_change` is known to give: the facts
/// of the difference, and of the quotient where the difference exists.
pub open spec fn relative_change_facts(a: Decimal, b: Decimal) -> bool {
    &&& difference_facts(a, b, decimal_checked_sub(a, b))
    &&& (decimal_checked_sub(a, b) matches Some(d) ==> quotient_facts(d, b, decimal_checked_div(d, b)))
}

impl MarketDataView {
    /// The history holds at most `HISTORY_CAPACITY` prices, the current spot
    /// is the most recent of them, and every figure is in range.
    pub open spec fn wf(self) -> bool {
        &&& self.price_history.len() <= HISTORY_CAPACITY
        &&& forall|i: int| 0 <= i < self.price_history.len() ==> (#[trigger] self.price_history[i]).wf()
        &&& if self.price_history.len() == 0 {
            self.current_spot is None
        } else {
            self.current_spot == Some(self.price_history.last())
        }
        &&& (self.polymarket_yes_price matches Some(y) ==> y.wf())
        &&& (self.polymarket_no_price matches Some(n) ==> n.wf())
    }

    /// The history after a new spot price: the oldest price is dropped when
    /// the history is full.
    pub open spec fn with_spot(self, point: PricePoint) -> MarketDataView {
        let h = if self.price_history.len() >= HISTORY_CAPACITY {
            self.price_history.drop_first()
        } else {
            self.price_history
        };
        MarketDataView { price_history: h.push(point), current_spot: Some(point), ..self }
    }

    /// The price `back` places before the most recent one.
    pub open spec fn price_back(self, back: int) -> Decimal {
        self.price_history[self.price_history.len() - 1 - back].price
    }

    /// The implied probability of YES: `yes / (yes + no)`, where both prices
    /// are known and their sum is above zero.
    pub open spec fn implied_probability(self) -> Option<Decimal> {
        match (self.polymarket_yes_price, self.polymarket_no_price) {
            (Some(y), Some(n)) => match decimal_checked_add(y, n) {
                Some(sum) => if sum.is_positive() {
                    decimal_checked_div(y, sum)
                } else {
                    None
                },
                None => None,
            },
            _ => None,
        }
    }

    /// What the arithmetic behind the implied probability is known to give,
    /// where both prices are known.
    pub open spec fn implied_probability_facts(self) -> bool {
        match (self.polymarket_yes_price, self.polymarket_no_price) {
            (Some(y), Some(n)) => {
                &&& sum_facts(y, n, decimal_checked_add(y, n))
                &&& match decimal_checked_add(y, n) {
                    Some(sum) => sum.is_positive() ==> quotient_facts(y, sum, decimal_checked_div(y, sum)),
                    None => true,
                }
            },
            _ => true,
        }
    }

    /// What the arithmetic behind the momentum is known to give, where it
    /// is computed.
    pub open spec fn momentum_facts(self, periods: nat) -> bool {
        periods >= 1 && self.price_history.len() >= periods && self.price_back(periods - 1).is_positive()
            ==> relative_change_facts(self.price_back(0), self.price_back(periods - 1))
    }

    /// Computing the implied probability neither overflows nor divides by zero.
    pub open spec fn implied_probability_fits(self) -> bool {
        match (self.polymarket_yes_price, self.polymarket_no_price) {
            (Some(y), Some(n)) => match decimal_checked_add(y, n) {
                Some(sum) => sum.is_positive() ==> decimal_checked_div(y, sum) is Some,
                None => false,
            },
            _ => true,
        }
    }

    /// The relative change from the price `periods - 1` places back to the
    /// most recent price, where the history holds at least `periods` (at
    /// least one) prices and that older price is above zero.
    pub open spec fn momentum(self, periods: nat) -> Option<Decimal> {
        if periods == 0 || self.price_history.len() < periods {
            None
        } else if self.price_back(periods - 1).is_positive() {
            relative_change(self.price_back(0), self.price_back(periods - 1))
        } else {
            None
        }
    }

    pub open spec fn momentum_fits(self, periods: nat) -> bool {
        if periods == 0 || self.price_history.len() < periods {
            true
        } else if self.price_back(periods - 1).is_positive() {
            relative_change(self.price_back(0), self.price_back(periods - 1)) is Some
        } else {
            true
        }
    }

    /// The return between consecutive prices, most recent first, `k` places
    /// back: `None` where the older price is not above zero.
    pub open spec fn period_return(self, k: int) -> Option<Decimal> {
        if self.price_back(k + 1).is_positive() {
            relative_change(self.price_back(k), self.price_back(k + 1))
        } else {
            None
        }
    }

    /// The `periods` most recent returns, most recent first, where the
    /// history holds more than `periods` prices and `periods` is not zero.
    pub open spec fn period_returns(self, periods: nat) -> Option<Seq<Option<Decimal>>> {
        if self.price_history.len() < periods + 1 || periods == 0 {
            None
        } else {
            Some(Seq::new(periods, |k: int| self.period_return(k)))
        }
    }

    pub open spec fn period_returns_fit(self, periods: nat) -> bool {
        self.price_history.len() >= periods + 1 ==> forall|k: int|
            0 <= k < periods && #[trigger] self.price_back(k + 1).is_positive()
                ==> relative_change(self.price_back(k), self.price_back(k + 1)) is Some
    }
}

/// The latest prices the bot has seen.
pub struct MarketData {
    price_history: VecDeque<PricePoint>,
    current_spot: Option<PricePoint>,
    polymarket_yes_price: Option<Decimal>,
    polymarket_no_price: Option<Decimal>,
}

impl View for MarketData {
    type V = MarketDataView;

    closed spec fn view(&self) -> MarketDataView {
        MarketDataView {
            price_history: self.price_history@,
            current_spot: self.current_spot,
            polymarket_yes_price: self.polymarket_yes_price,
            polymarket_no_price: self.polymarket_no_price,
        }
    }
}

impl Default for MarketData {
    /// Empty history, no prices.
    fn default() -> (r: MarketData)
        ensures
            r@ == (MarketDataView {
                price_history: Seq::empty(),
                current_spot: None,
                polymarket_yes_price: None,
                polymarket_no_price: None,
            }),
    {
        MarketData::new()
    }
}

/// `(a - b) / b` as `rust_decimal` computes it, or `None` where it overflows.
fn relative_change_exec(a: Decimal, b: Decimal) -> (r: Option<Decimal>)
    requires
        a.wf(),
        b.wf(),
    ensures
        r == relative_change(a, b),
        r matches Some(d) ==> d.wf(),
        relative_change_facts(a, b),
{
    match checked_sub(a, b) {
        Some(d) => checked_div(d, b),
        None => None,
    }
}

impl MarketData {
    /// Empty history, no prices.
    pub fn new() -> (r: MarketData)
        ensures
            r@ == (MarketDataView {
                price_history: Seq::empty(),
                current_spot: None,
                polymarket_yes_price: None,
                polymarket_no_price: None,
            }),
            r@.wf(),
    {
        MarketData {
            price_history: VecDeque::with_capacity(HISTORY_CAPACITY),
            current_spot: None,
            polymarket_yes_price: None,
            polymarket_no_price: None,
        }
    }

    /// Records a spot price seen at `now`.
    pub fn update_spot_at(&mut self, price: Decimal, volume: Option<Decimal>, now: Timestamp)
        requires
            old(self)@.wf(),
            price.wf(),
            volume matches Some(v) ==> v.wf(),
        ensures
            final(self)@ == old(self)@.with_spot(
                PricePoint { timestamp: now, price, source: PriceSource::Binance, volume },
            ),
            final(self)@.wf(),
    {
        let point = PricePoint { timestamp: now, price, source: PriceSource::Binance, volume };
        if self.price_history.len() >= HISTORY_CAPACITY {
            self.price_history.pop_front();
        }
        self.price_history.push_back(point);
        self.current_spot = Some(point);
        proof {
            let h = self@.price_history;
            let o = old(self)@.price_history;
            assert forall|i: int| 0 <= i < h.len() implies (#[trigger] h[i]).wf() by {
                if i < h.len() - 1 {
                    if o.len() >= HISTORY_CAPACITY {
                        assert(h[i] == o[i + 1]);
                    } else {
                        assert(h[i] == o[i]);
                    }
                }
            }
        }
    }

    /// Records a spot price seen now.
    pub fn update_spot(&mut self, price: Decimal, volume: Option<Decimal>)
        requires
            old(self)@.wf(),
            price.wf(),
            volume matches Some(v) ==> v.wf(),
        ensures
            exists|t: Timestamp| final(self)@ == #[trigger] old(self)@.with_spot(
                PricePoint { timestamp: t, price, source: PriceSource::Binance, volume },
            ),
            final(self)@.wf(),
    {
        self.update_spot_at(price, volume, utc_now());
    }

    /// Records the latest YES and NO prices of the prediction market.
    pub fn update_polymarket_prices(&mut self, yes_price: Decimal, no_price: Decimal)
        requires
            old(self)@.wf(),
            yes_price.wf(),
            no_price.wf(),
        ensures
            final(self)@ == (MarketDataView {
                polymarket_yes_price: Some(yes_price),
                polymarket_no_price: Some(no_price),
                ..old(self)@
            }),
            final(self)@.wf(),
    {
        self.polymarket_yes_price = Some(yes_price);
        self.polymarket_no_price = Some(no_price);
    }

    /// The most recent spot price, if any.
    pub fn current_spot(&self) -> (r: Option<PricePoint>)
        ensures
            r == self@.current_spot,
    {
        self.current_spot
    }

    /// The implied probability of YES, or `None` (in the outer option) where
    /// computing it overflows.
    pub fn try_implied_probability(&self) -> (r: Option<Option<Decimal>>)
        requires
            self@.wf(),
        ensures
            r is Some <==> self@.implied_probability_fits(),
            r matches Some(p) ==> p == self@.implied_probability(),
            self@.implied_probability_facts(),
    {
        match (self.polymarket_yes_price, self.polymarket_no_price) {
            (Some(y), Some(n)) => match checked_add(y, n) {
                Some(sum) => {
                    if sum.gt_zero() {
                        match checked_div(y, sum) {
                            Some(p) => Some(Some(p)),
                            None => None,
                        }
                    } else {
                        Some(None)
                    }
                },
                None => None,
            },
            _ => Some(None),
        }
    }

    /// The implied probability of YES: `yes / (yes + no)`.
    pub fn implied_probability(&self) -> (r: Option<Decimal>)
        requires
            self@.wf(),
            self@.implied_probability_fits(),
        ensures
            r == self@.implied_probability(),
    {
        self.try_implied_probability().unwrap()
    }

    /// Momentum over `periods` prices, or `None` (in the outer option) where
    /// computing it overflows.
    pub fn try_momentum(&self, periods: usize) -> (r: Option<Option<Decimal>>)
        requires
            self@.wf(),
        ensures
            r is Some <==> self@.momentum_fits(periods as nat),
            r matches Some(m) ==> m == self@.momentum(periods as nat),
            self@.momentum_facts(periods as nat),
    {
        let len = self.price_history.len();
        if periods == 0 || len < periods {
            return Some(None);
        }
        let current = self.price_history[len - 1].price;
        let past = self.price_history[len - periods].price;
        assert(self@.price_history[len - 1].wf());
        assert(self@.price_history[len - periods].wf());
        if past.gt_zero() {
            match relative_change_exec(current, past) {
                Some(m) => Some(Some(m)),
                None => None,
            }
        } else {
            Some(None)
        }
    }

    /// The relative change from the price `periods - 1` places back to the
    /// most recent one.
    pub fn momentum(&self, periods: usize) -> (r: Option<Decimal>)
        requires
            self@.wf(),
            self@.momentum_fits(periods as nat),
        ensures
            r == self@.momentum(periods as nat),
    {
        self.try_momentum(periods).unwrap()
    }

    /// The `periods` most recent returns, or `None` (in the outer option)
    /// where computing one overflows.
    pub fn try_period_returns(&self, periods: usize) -> (r: Option<Option<Vec<Option<Decimal>>>>)
        requires
            self@.wf(),
            periods < usize::MAX,
        ensures
            r is Some <==> self@.period_returns_fit(periods as nat),
            r matches Some(rs) ==> match self@.period_returns(periods as nat) {
                None => rs is None,
                Some(s) => rs matches Some(v) && v@ == s,
            },
    {
        let len = self.price_history.len();
        if len < periods + 1 {
            return Some(None);
        }
        let ghost v = self@;
        let mut out: Vec<Option<Decimal>> = Vec::new();
        for k in 0..periods
            invariant
                v == self@,
                v.wf(),
                len == v.price_history.len(),
                len >= periods + 1,
                out@.len() == k,
                forall|q: int| 0 <= q < k ==> #[trigger] out@[q] == v.period_return(q),
                forall|q: int|
                    0 <= q < k && #[trigger] v.price_back(q + 1).is_positive()
                        ==> relative_change(v.price_back(q), v.price_back(q + 1)) is Some,
        {
            let newer = self.price_history[len - 1 - k].price;
            let older = self.price_history[len - 2 - k].price;
            assert(v.price_history[len - 1 - k].wf());
            assert(v.price_history[len - 2 - k].wf());
            assert(newer == v.price_back(k as int));
            assert(older == v.price_back(k + 1));
            if older.gt_zero() {
                match relative_change_exec(newer, older) {
                    Some(x) => out.push(Some(x)),
                    None => {
                        return None;
                    },
                }
            } else {
                out.push(None);
            }
        }
        if periods == 0 {
            return Some(None);
        }
        assert(out@ =~= Seq::new(periods as nat, |q: int| v.period_return(q)));
        Some(Some(out))
    }

    /// The `periods` most recent returns between consecutive prices, most
    /// recent first; an entry is `None` where the older price is not above zero.
    pub fn period_returns(&self, periods: usize) -> (r: Option<Vec<Option<Decimal>>>)
        requires
            self@.wf(),
            periods < usize::MAX,
            self@.period_returns_fit(periods as nat),
        ensures
            match self@.period_returns(periods as nat) {
                None => r is None,
                Some(s) => r matches Some(v) && v@ == s,
            },
    {
        self.try_period_returns(periods).unwrap()
    }
}

/// After a new spot price, it is the current spot and the most recent price
/// of the history; the history grows by one until it is full and then
/// keeps its length, the older prices following each other as before.
pub proof fn law_new_spot_is_latest(v: MarketDataView, point: PricePoint)
    requires
        v.wf(),
    ensures
        ({
            let w = v.with_spot(point);
            &&& w.current_spot == Some(point)
            &&& w.price_history.last() == point
            &&& w.price_history.len() == if v.price_history.len() < HISTORY_CAPACITY {
                v.price_history.len() + 1
            } else {
                HISTORY_CAPACITY as nat
            }
            &&& w.price_history.drop_last() == if v.price_history.len() < HISTORY_CAPACITY {
                v.price_history
            } else {
                v.price_history.drop_first()
            }
        }),
{
    let w = v.with_spot(point);
    if v.price_history.len() < HISTORY_CAPACITY {
        assert(w.price_history.drop_last() =~= v.price_history);
    } else {
        assert(w.price_history.drop_last() =~= v.price_history.drop_first());
    }
}

/// Momentum exists only over at least one and at most as many prices as the
/// history holds, and only from a price above zero.
pub proof fn law_momentum_needs_history(v: MarketDataView, periods: nat)
    requires
        v.momentum(periods) is Some,
    ensures
        1 <= periods <= v.price_history.len(),
        v.price_back(periods - 1).is_positive(),
{
}

/// Over one price there is no change: the momentum is the relative change
/// of the latest price to itself.
pub proof fn law_momentum_of_one_price(v: MarketDataView)
    requires
        v.price_history.len() >= 1,
        v.price_back(0).is_positive(),
    ensures
        v.momentum(1) == relative_change(v.price_back(0), v.price_back(0)),
{
}

/// The implied probability is the YES share of the two prices: the YES
/// price divided by the sum of both, where both are known and the sum is
/// above zero, whichever of them is the larger; none otherwise.
pub proof fn law_implied_probability_is_the_yes_share(v: MarketDataView)
    ensures
        match (v.polymarket_yes_price, v.polymarket_no_price) {
            (Some(yes), Some(no)) => match decimal_checked_add(yes, no) {
                Some(total) => if total.is_positive() {
                    v.implied_probability() == decimal_checked_div(yes, total)
                } else {
                    v.implied_probability() is None
                },
                None => v.implied_probability() is None,
            },
            _ => v.implied_probability() is None,
        },
{
}

/// The returns are taken between consecutive prices: with `len` prices held
/// and `periods` asked for (at least one, fewer than `len`), entry `k` is
/// the change from the price `k + 1` places before the latest to the one
/// `k` places before it, over the older one, and none where the older one
/// is not above zero. No other price enters an entry.
pub proof fn law_returns_are_between_consecutive_prices(v: MarketDataView, periods: nat)
    ensures
        v.period_returns(periods) is Some <==> 1 <= periods && periods + 1 <= v.price_history.len(),
        v.period_returns(periods) matches Some(rs) ==> {
            let len = v.price_history.len();
            &&& rs.len() == periods
            &&& forall|k: int| 0 <= k < periods ==> {
                let newer = v.price_history[len - 1 - k].price;
                let older = v.price_history[len - 2 - k].price;
                #[trigger] rs[k] == if older.mantissa > 0 {
                    match decimal_checked_sub(newer, older) {
                        Some(change) => decimal_checked_div(change, older),
                        None => None,
                    }
                } else {
                    None
                }
            }
        },
{
}

/// Momentum over `periods` prices is the change from the price `periods - 1`
/// places before the latest to the latest, over that older price: none
/// where fewer prices are held, where `periods` is zero, or where the older
/// price is not above zero.
pub proof fn law_momentum_is_the_change_since(v: MarketDataView, periods: nat)
    ensures
        ({
            let len = v.price_history.len();
            v.momentum(periods) == if 1 <= periods <= len && v.price_history[len - periods].price.mantissa > 0 {
                let latest = v.price_history[len - 1].price;
                let older = v.price_history[len - periods].price;
                match decimal_checked_sub(latest, older) {
                    Some(change) => decimal_checked_div(change, older),
                    None => None,
                }
            } else {
                None
            }
        }),
{
}

} // verus!
