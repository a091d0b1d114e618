//! Reading prices out of the feeds' messages.
use vstd::prelude::*;
use crate::decimal::{decimal_from_text, parse_decimal, Decimal};
use crate::market_data::{MarketData, PricePoint, PriceSource};
use crate::clock::Timestamp;

verus! {

/// The price a feed quotes as text.
pub fn parse_price(text: &str) -> (r: Option<Decimal>)
    ensures
        r == decimal_from_text(text@),
        r matches Some(d) ==> d.wf(),
{
    parse_decimal(text)
}

/// The price and volume of a trade message: `None` where the price cannot
/// be read; a volume that cannot be read is left out.
pub fn parse_trade(price: &str, quantity: &str) -> (r: Option<(Decimal, Option<Decimal>)>)
    ensures
        r == match decimal_from_text(price@) {
            None => None,
            Some(p) => Some((p, decimal_from_text(quantity@))),
        },
        r matches Some(t) ==> t.0.wf() && (t.1 matches Some(v) ==> v.wf()),
{
    match parse_decimal(price) {
        None => None,
        Some(p) => Some((p, parse_decimal(quantity))),
    }
}

/// Records the trade of a message in the market data at `now`, where its
/// price can be read; says whether it did.
pub fn apply_trade_at(market_data: &mut MarketData, price: &str, quantity: &str, now: Timestamp) -> (r: bool)
    requires
        old(market_data)@.wf(),
    ensures
        final(market_data)@.wf(),
        match decimal_from_text(price@) {
            None => !r && final(market_data)@ == old(market_data)@,
            Some(p) => r && final(market_data)@ == old(market_data)@.with_spot(
                PricePoint { timestamp: now, price: p, source: PriceSource::Binance, volume: decimal_from_text(quantity@) },
            ),
        },
{
    match parse_trade(price, quantity) {
        None => false,
        Some((p, volume)) => {
            market_data.update_spot_at(p, volume, now);
            true
        },
    }
}

/// Records the trade of a message in the market data now, where its price
/// can be read; says whether it did.
pub fn apply_trade(market_data: &mut MarketData, price: &str, quantity: &str) -> (r: bool)
    requires
        old(market_data)@.wf(),
    ensures
        final(market_data)@.wf(),
        match decimal_from_text(price@) {
            None => !r && final(market_data)@ == old(market_data)@,
            Some(p) => r && exists|t: Timestamp| final(market_data)@ == #[trigger] old(market_data)@.with_spot(
                PricePoint { timestamp: t, price: p, source: PriceSource::Binance, volume: decimal_from_text(quantity@) },
            ),
        },
{
    match parse_trade(price, quantity) {
        None => false,
        Some((p, volume)) => {
            market_data.update_spot(p, volume);
            true
        },
    }
}

} // verus!
