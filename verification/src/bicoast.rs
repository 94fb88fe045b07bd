//! The bi-coastal agent: a symmetric hedger that, instead of stopping at
//! its profit target, raises the target by one epoch and recenters its
//! band on the current price.

use vstd::prelude::*;
use crate::account::OrderFill;
use crate::agents::{Agent, GearHedger};
use crate::fixed::{PRICE_LIMIT, MAX_EXPOSURE_LIMIT, MONEY_LIMIT, SCALE, tdiv, div_trunc,
    mul_i64_wide};
use crate::gear::Gear;
use crate::quote::Tick;

verus! {

/// A symmetric gear hedger with an epoch profit target: reaching the
/// target recalibrates the band instead of retiring the agent.
#[derive(Debug)]
pub struct BiCoastAgent {
    /// Profit step added to the target at each recalibration, micro money.
    pub epoch_target: i128,
    /// The underlying symmetric hedger.
    pub gear_hedger: GearHedger,
}

impl BiCoastAgent {
    /// A usable agent: the hedger is well-formed and the targets stay in
    /// the money range so an epoch can always be added.
    pub open spec fn wf(self) -> bool {
        &&& self.gear_hedger.wf()
        &&& 0 <= self.epoch_target <= MONEY_LIMIT
        &&& 0 <= self.gear_hedger.target <= MONEY_LIMIT
    }

    /// A symmetric hedger of half-width `span` around `price`, with one
    /// epoch — `scale * exposure / span` — as the initial target.
    pub fn new(price: i64, span: i64, scale: i64, exposure: i64) -> (r: BiCoastAgent)
        requires
            1 <= span,
            span <= price,
            price + span <= PRICE_LIMIT,
            1 <= scale <= PRICE_LIMIT,
            1 <= exposure <= MAX_EXPOSURE_LIMIT,
        ensures
            r.wf(),
            r.epoch_target == tdiv(scale * exposure, span as int),
            r.gear_hedger.target == r.epoch_target,
            r.gear_hedger.gear_f.p_0 == price - span,
            r.gear_hedger.gear_f.g_0 == SCALE,
            r.gear_hedger.gear_f.p_n == price + span,
            r.gear_hedger.gear_f.g_n == -SCALE,
            r.gear_hedger.gear_f.g_i@.len() == 1,
            r.gear_hedger.max_exposure == exposure,
            r.gear_hedger.scale_up == scale,
            r.gear_hedger.scale_down == scale,
            r.gear_hedger.active,
            r.gear_hedger.pl == crate::agents::zero_pl(),
            r.gear_hedger.last_trade_price == price,
            r.gear_hedger.next_buy_price == price,
            r.gear_hedger.next_sell_price == price,
            r.gear_hedger.tentative_price == price,
            r.gear_hedger.tentative_exposure == 0,
    {
        proof {
            crate::fixed::lemma_tdiv_magnitude(
                (scale as int) * (exposure as int),
                span as int,
            );
            assert(0 <= (scale as int) * (exposure as int)
                <= (PRICE_LIMIT as int) * (MAX_EXPOSURE_LIMIT as int)) by (nonlinear_arith)
                requires
                    1 <= scale <= PRICE_LIMIT,
                    1 <= exposure <= MAX_EXPOSURE_LIMIT,
            ;
        }
        let epoch: i128 = div_trunc(mul_i64_wide(scale, exposure), span as i128);
        BiCoastAgent {
            epoch_target: epoch,
            gear_hedger: GearHedger::symmetric(
                price - span,
                price + span,
                scale,
                scale,
                exposure,
                epoch,
            ),
        }
    }

    /// The centre of the band.
    pub fn mid_price(&self) -> (r: i64)
        requires
            self.wf(),
        ensures
            r == tdiv(self.gear_hedger.gear_f.p_0 + self.gear_hedger.gear_f.p_n, 2),
    {
        let lo: u64 = self.gear_hedger.gear_f.p_0 as u64;
        let hi: u64 = self.gear_hedger.gear_f.p_n as u64;
        ((lo + hi) / 2) as i64
    }

    /// Recenter the band on `price`, keeping the present band width as
    /// the new half-width; the band is left unchanged when the new one
    /// would leave the price range.
    pub fn shift_mid_to_price(&mut self, price: i64)
        requires
            old(self).wf(),
            0 <= price <= PRICE_LIMIT,
        ensures
            final(self).wf(),
            final(self).epoch_target == old(self).epoch_target,
            ({
                let span = old(self).gear_hedger.gear_f.p_n
                    - old(self).gear_hedger.gear_f.p_0;
                if 1 <= span && span <= price && price + span <= PRICE_LIMIT {
                    final(self).gear_hedger == (GearHedger {
                        gear_f: final(self).gear_hedger.gear_f,
                        ..old(self).gear_hedger
                    }) && final(self).gear_hedger.gear_f.p_0 == price - span
                        && final(self).gear_hedger.gear_f.p_n == price + span
                        && final(self).gear_hedger.gear_f.g_0 == SCALE
                        && final(self).gear_hedger.gear_f.g_n == -SCALE
                        && final(self).gear_hedger.gear_f.g_i@.len() == 1
                } else {
                    *final(self) == *old(self)
                }
            }),
    {
        let span: i64 = self.gear_hedger.gear_f.p_n - self.gear_hedger.gear_f.p_0;
        if 1 <= span && span <= price && price <= PRICE_LIMIT - span {
            self.gear_hedger.gear_f = Gear::symmetric(price - span, price + span);
        }
    }
}

impl Agent for BiCoastAgent {
    open spec fn inv(&self) -> bool {
        self.wf()
    }

    open spec fn fill_ok_for(&self, order_fill: &OrderFill) -> bool {
        true
    }

    open spec fn prime_ok_for(&self, order_fill: &OrderFill) -> bool {
        true
    }

    /// The agent does not take part in the closing protocol.
    fn close(&mut self, tick: &Tick) -> (r: i64)
        ensures
            *final(self) == *old(self),
            r == 0,
    {
        0
    }

    /// The agent never retires.
    fn is_active(&self) -> (r: bool)
        ensures
            r == true,
    {
        true
    }

    /// Deactivation is ignored: the agent recalibrates instead.
    fn deactivate(&mut self)
        ensures
            *final(self) == *old(self),
    {
    }

    fn to_be_closed(&self) -> (r: bool)
        ensures
            r == false,
    {
        false
    }

    /// Reaching the target starts a new epoch: the target grows by one
    /// epoch step (saturating at the money range) and the band recenters
    /// on the staged price.
    fn target_action(&mut self) -> (r: i64)
        ensures
            final(self).epoch_target == old(self).epoch_target,
            final(self).gear_hedger.target == (if old(self).gear_hedger.target
                + old(self).epoch_target <= MONEY_LIMIT {
                old(self).gear_hedger.target + old(self).epoch_target
            } else {
                MONEY_LIMIT as int
            }),
            final(self).wf(),
            final(self).gear_hedger == (GearHedger {
                target: final(self).gear_hedger.target,
                gear_f: final(self).gear_hedger.gear_f,
                ..old(self).gear_hedger
            }),
            ({
                let span = old(self).gear_hedger.gear_f.p_n
                    - old(self).gear_hedger.gear_f.p_0;
                let price = old(self).gear_hedger.tentative_price;
                if 1 <= span && span <= price && price + span <= PRICE_LIMIT {
                    &&& final(self).gear_hedger.gear_f.p_0 == price - span
                    &&& final(self).gear_hedger.gear_f.p_n == price + span
                    &&& final(self).gear_hedger.gear_f.g_0 == SCALE
                    &&& final(self).gear_hedger.gear_f.g_n == -SCALE
                    &&& final(self).gear_hedger.gear_f.g_i@.len() == 1
                } else {
                    final(self).gear_hedger.gear_f == old(self).gear_hedger.gear_f
                }
            }),
            r == 0,
    {
        let price: i64 = self.gear_hedger.tentative_price;
        let raised: i128 = self.gear_hedger.target + self.epoch_target;
        self.gear_hedger.target = if raised <= MONEY_LIMIT { raised } else { MONEY_LIMIT };
        self.shift_mid_to_price(price);
        0
    }

    /// The stub policy: the agent itself never proposes a trade.
    fn target_exposure(&mut self, tick: &Tick) -> (r: i64)
        ensures
            *final(self) == *old(self),
            r == 0,
    {
        0
    }

    /// The stub policy: the agent itself never proposes a trade.
    fn next_exposure(&mut self, tick: &Tick) -> (r: i64)
        ensures
            *final(self) == *old(self),
            r == 0,
    {
        0
    }

    /// Fills pass the agent by.
    fn update_on_fill(&mut self, order_fill: &OrderFill)
        ensures
            *final(self) == *old(self),
    {
    }

    /// Fills pass the agent by.
    fn next_exposure_and_fill(&mut self, order_fill: &OrderFill)
        ensures
            *final(self) == *old(self),
    {
    }

    /// The agent holds no position of its own.
    fn exposure(&self) -> (r: i64)
        ensures
            r == 0,
    {
        0
    }
}

} // verus!
