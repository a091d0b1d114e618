//! Order routing (simulated): every UP or DOWN signal is put to the risk
//! manager as a trade on YES or NO.
use vstd::prelude::*;
use crate::decimal::Decimal;
use crate::risk::{PositionSide, RiskCheck, RiskManager};
use crate::signals::Direction;

verus! {

/// The market orders would go to.
pub struct Exchange {
    market_id: String,
}

impl Exchange {
    /// An exchange for the market named `market_slug`.
    pub fn new(market_slug: String) -> (r: Exchange)
        ensures
            r.market()@ == market_slug@,
    {
        Exchange { market_id: market_slug }
    }

    pub closed spec fn market(&self) -> String {
        self.market_id
    }

    /// Puts the trade a signal asks for to the risk manager: UP as a YES
    /// trade, DOWN as a NO trade of `trade_size`; HOLD asks nothing and
    /// leaves the risk manager as it was.
    pub fn execute_signal(&self, risk_manager: &mut RiskManager, signal: Direction, trade_size: Decimal) -> (r: Option<RiskCheck>)
        requires
            old(risk_manager)@.wf(),
            trade_size.wf(),
        ensures
            final(risk_manager)@.wf(),
            match signal {
                Direction::Hold => r is None && final(risk_manager)@ == old(risk_manager)@,
                _ => r matches Some(c) && (exists|now| final(risk_manager)@ == #[trigger] old(risk_manager)@.reset_at(now))
                    && c.verdict() == final(risk_manager)@.verdict_for(trade_size),
            },
    {
        match signal {
            Direction::Up => Some(risk_manager.check_trade(self.market_id.as_str(), trade_size, PositionSide::Yes)),
            Direction::Down => Some(risk_manager.check_trade(self.market_id.as_str(), trade_size, PositionSide::No)),
            Direction::Hold => None,
        }
    }
}

} // verus!
