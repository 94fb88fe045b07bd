//! Market data types: a quote (`Tick`) and a historical daily bar (`Bar`).

use vstd::prelude::*;
use crate::fixed::PRICE_LIMIT;

verus! {

/// A quote at a point in time. Prices are micro units.
#[derive(Debug, Clone, Copy, PartialEq, Eq, Structural)]
pub struct Tick {
    /// Epoch seconds.
    pub time: i64,
    /// Best bid, in micro units.
    pub bid: i64,
    /// Best ask, in micro units.
    pub ask: i64,
}

impl Tick {
    /// A usable quote: prices are ordered and within the engine's range.
    pub open spec fn wf(self) -> bool {
        0 <= self.bid <= self.ask <= PRICE_LIMIT
    }
}

/// One bar of a daily price history. Prices are micro units.
#[derive(Debug, Clone, Copy, PartialEq, Eq, Structural)]
pub struct Bar {
    /// Milliseconds since the start of the day.
    pub t: i64,
    /// Open price.
    pub o: i64,
    /// High price.
    pub h: i64,
    /// Low price.
    pub l: i64,
    /// Close price.
    pub c: i64,
}

} // verus!
