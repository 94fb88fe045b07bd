//! Account-side types: an executed trade.

use vstd::prelude::*;
use crate::fixed::PRICE_LIMIT;

verus! {

/// An executed trade: a price and a signed number of units
/// (positive bought, negative sold).
#[derive(Debug, Clone, Copy, PartialEq, Eq, Structural)]
pub struct OrderFill {
    /// Fill price, in micro units.
    pub price: i64,
    /// Signed units traded.
    pub units: i64,
}

impl OrderFill {
    /// A usable fill: the price is positive and within the engine's range.
    pub open spec fn wf(self) -> bool {
        1 <= self.price <= PRICE_LIMIT
    }
}

} // verus!
