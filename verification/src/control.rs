//! The reconciliation kernel of the trading control loop: given what the
//! inventory wants and what the account holds, decide the order to send.
//! The loop itself — sleeping, quoting and order I/O — lives with the
//! caller, which feeds every broker answer back through these functions.

use vstd::prelude::*;
use crate::fixed::UNIT_LIMIT;

verus! {

/// The loop's fixed configuration.
#[derive(Debug, Clone)]
pub struct ControlPolicy {
    /// Seconds to sleep between iterations.
    pub interval_secs: u64,
    /// Iterations after which the loop stops.
    pub max_iterations: u64,
    /// The traded instrument's symbol.
    pub instrument: String,
}

impl ControlPolicy {
    /// The default policy: poll every fifteen seconds, ten thousand
    /// iterations at most.
    pub fn new(instrument: String) -> (r: ControlPolicy)
        ensures
            r.interval_secs == 15,
            r.max_iterations == 10000,
            r.instrument@ == instrument@,
    {
        ControlPolicy { interval_secs: 15, max_iterations: 10000, instrument }
    }

    /// Whether the loop is past its iteration budget.
    pub fn finished(&self, iteration: u64) -> (r: bool)
        ensures
            r == (iteration > self.max_iterations),
    {
        iteration > self.max_iterations
    }
}

/// The units to order so the account matches the target exposure:
/// nothing when they already agree, the signed difference otherwise.
pub fn order_units(target_exposure: i64, account_exposure: i64) -> (r: Option<i64>)
    requires
        -UNIT_LIMIT <= target_exposure <= UNIT_LIMIT,
        -UNIT_LIMIT <= account_exposure <= UNIT_LIMIT,
    ensures
        r is Some <==> target_exposure != account_exposure,
        r matches Some(u) ==> u == target_exposure - account_exposure,
{
    if target_exposure == account_exposure {
        None
    } else {
        Some(target_exposure - account_exposure)
    }
}

} // verus!
