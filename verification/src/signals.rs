//! The direction of a trading signal.
use vstd::prelude::*;

verus! {

/// What a signal asks for: buy the YES outcome, buy the NO outcome, or hold.
#[derive(Clone, Copy, Debug, PartialEq, Eq, Structural)]
pub enum Direction {
    Up,
    Down,
    Hold,
}

} // verus!
