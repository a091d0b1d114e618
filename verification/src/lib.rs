//! Paper-trading core for a BTC up/down prediction-market bot: decimal
//! arithmetic, market-data windows, risk checks, simulated positions and
//! the decisions the dashboard takes.

pub mod decimal;
pub mod text;
pub mod clock;
pub mod risk;
pub mod signals;
pub mod paper_trading;
pub mod market_data;
pub mod ui;
pub mod polymarket;
pub mod feeds;
pub mod exchange;
