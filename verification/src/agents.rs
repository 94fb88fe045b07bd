//! Trading agents: the capability interface (`Agent`), the gear-hedger
//! state machine (`GearHedger`), and the declarative builder (`GAgent`).
//!
//! A gear hedger follows its gear curve with an exposure cap: on each
//! quote it stages a tentative trade when a trip-wire price is crossed,
//! and on each fill it books the trade and rearms the trip-wires one grid
//! step away from the fill price.

use vstd::prelude::*;
use crate::account::OrderFill;
use crate::fixed::{SCALE, PRICE_LIMIT, GEAR_LIMIT, UNIT_LIMIT, MAX_EXPOSURE_LIMIT,
    MONEY_LIMIT, TARGET_UNBOUNDED, tdiv, div_trunc, mul_i64_wide,
    lemma_tdiv_product_cap, lemma_tdiv_scaled_ratio};
use crate::gear::Gear;
use crate::pl::AgentPL;
use crate::quote::Tick;

verus! {

/// The capability set of a trading policy: stage a tentative position for
/// a quote, book a fill, report exposure and life-cycle state.
pub trait Agent: Sized {
    /// The agent's internal well-formedness.
    spec fn inv(&self) -> bool;

    /// Whether `update_on_fill` can book this fill from the current
    /// state (price range and profit-bookkeeping fit).
    spec fn fill_ok_for(&self, order_fill: &OrderFill) -> bool;

    /// Whether `next_exposure_and_fill` can stage and book this fill.
    spec fn prime_ok_for(&self, order_fill: &OrderFill) -> bool;

    /// Stage a flat position at the closing side of the quote.
    fn close(&mut self, tick: &Tick) -> i64
        requires
            old(self).inv(),
            tick.wf(),
    ;

    fn is_active(&self) -> bool;

    fn deactivate(&mut self)
        requires
            old(self).inv(),
    ;

    /// Whether the agent has met its profit target and should be closed.
    fn to_be_closed(&self) -> bool;

    /// What to do when the profit target is hit.
    fn target_action(&mut self) -> i64
        requires
            old(self).inv(),
    ;

    /// The exposure the agent wants at this quote, ignoring the profit
    /// target.
    fn target_exposure(&mut self, tick: &Tick) -> i64
        requires
            old(self).inv(),
            tick.wf(),
    ;

    /// The exposure the agent wants at this quote.
    fn next_exposure(&mut self, tick: &Tick) -> i64
        requires
            old(self).inv(),
            tick.wf(),
    ;

    /// Book an executed fill into the agent's accounting.
    fn update_on_fill(&mut self, order_fill: &OrderFill)
        requires
            old(self).inv(),
            old(self).fill_ok_for(order_fill),
    ;

    /// Stage the fill as the tentative trade, then book it.
    fn next_exposure_and_fill(&mut self, order_fill: &OrderFill)
        requires
            old(self).inv(),
            old(self).prime_ok_for(order_fill),
    ;

    /// The agent's current signed exposure.
    fn exposure(&self) -> i64
        requires
            self.inv(),
    ;
}

/// A hedging agent: trades along a gear curve scaled by an exposure cap,
/// one grid step at a time away from its last fill.
#[derive(Debug, Clone)]
pub struct GearHedger {
    /// Scale factor turning the gear into signed units.
    pub max_exposure: i64,
    /// The gear curve.
    pub gear_f: Gear,
    /// Price rise from the last trade that arms the next sale.
    pub scale_up: i64,
    /// Price fall from the last trade that arms the next purchase.
    pub scale_down: i64,
    /// Whether the agent still trades.
    pub active: bool,
    /// Profit cut-off, micro money; `TARGET_UNBOUNDED` for none.
    pub target: i128,
    /// Price of the last booked fill.
    pub last_trade_price: i64,
    /// A purchase arms at or below this ask.
    pub next_buy_price: i64,
    /// A sale arms at or above this bid.
    pub next_sell_price: i64,
    /// Position accounting.
    pub pl: AgentPL,
    /// Staged price of the pending reconciliation step.
    pub tentative_price: i64,
    /// Staged exposure of the pending reconciliation step.
    pub tentative_exposure: i64,
}

impl GearHedger {
    /// A usable agent: curve, accounting and trip-wires in range.
    pub open spec fn wf(self) -> bool {
        &&& self.gear_f.wf()
        &&& 1 <= self.max_exposure <= MAX_EXPOSURE_LIMIT
        &&& 1 <= self.scale_up <= PRICE_LIMIT
        &&& 1 <= self.scale_down <= PRICE_LIMIT
        &&& self.pl.wf()
        &&& 0 <= self.last_trade_price <= 2 * PRICE_LIMIT
        &&& -PRICE_LIMIT <= self.next_buy_price <= 2 * PRICE_LIMIT
        &&& 0 <= self.next_sell_price <= 2 * PRICE_LIMIT
        &&& 0 <= self.tentative_price <= PRICE_LIMIT
        &&& -UNIT_LIMIT <= self.tentative_exposure <= UNIT_LIMIT
    }

    /// The signed units the curve asks for at price `p`: the gear scaled
    /// by the exposure cap, truncated toward zero.
    pub open spec fn tentative_at(self, p: int) -> int {
        tdiv(self.gear_f.eval(p) * self.max_exposure, SCALE as int)
    }

    /// The side used to value the position for the profit target.
    pub open spec fn close_price(self, t: Tick) -> i64 {
        if self.pl.exposure > 0 {
            t.bid
        } else {
            t.ask
        }
    }

    /// Whether this quote pushes the valued position above the target.
    pub open spec fn takes_profit(self, t: Tick) -> bool {
        self.pl.pl_at(self.close_price(t) as int) > self.target
    }

    /// The state after `target_exposure`: stage at the bid when a sale is
    /// armed, else at the ask when a purchase is armed, else unchanged.
    pub open spec fn after_target_exposure(self, t: Tick) -> GearHedger {
        if t.bid >= self.next_sell_price {
            GearHedger {
                tentative_price: t.bid,
                tentative_exposure: self.tentative_at(t.bid as int) as i64,
                ..self
            }
        } else if t.ask <= self.next_buy_price {
            GearHedger {
                tentative_price: t.ask,
                tentative_exposure: self.tentative_at(t.ask as int) as i64,
                ..self
            }
        } else {
            self
        }
    }

    /// The value `target_exposure` returns: the staged units, or the
    /// current exposure when no trip-wire fired.
    pub open spec fn target_exposure_ret(self, t: Tick) -> int {
        if t.bid >= self.next_sell_price {
            self.tentative_at(t.bid as int)
        } else if t.ask <= self.next_buy_price {
            self.tentative_at(t.ask as int)
        } else {
            self.pl.exposure as int
        }
    }

    /// The state after `next_exposure`: flat-and-deactivate on a profit
    /// take, otherwise `target_exposure`.
    pub open spec fn after_next_exposure(self, t: Tick) -> GearHedger {
        if self.takes_profit(t) {
            GearHedger {
                tentative_price: self.close_price(t),
                tentative_exposure: 0,
                active: false,
                ..self
            }
        } else {
            self.after_target_exposure(t)
        }
    }

    /// The value `next_exposure` returns.
    pub open spec fn next_exposure_ret(self, t: Tick) -> int {
        if self.takes_profit(t) {
            0
        } else {
            self.target_exposure_ret(t)
        }
    }

    /// The units a fill trades: staged exposure less current exposure.
    pub open spec fn traded_units(self) -> int {
        self.tentative_exposure - self.pl.exposure
    }

    /// The accounting after booking a fill at its price.
    pub open spec fn pl_after_fill(self, f: OrderFill) -> AgentPL {
        if self.traded_units() < 0 {
            self.pl.after_sell(f.price as int, -self.traded_units())
        } else if self.traded_units() > 0 {
            self.pl.after_buy(f.price as int, self.traded_units())
        } else {
            self.pl
        }
    }

    /// The profit a fill realizes.
    pub open spec fn fill_profit(self, f: OrderFill) -> int {
        if self.traded_units() < 0 {
            self.pl.sell_profit(f.price as int, -self.traded_units())
        } else if self.traded_units() > 0 {
            self.pl.buy_profit(f.price as int, self.traded_units())
        } else {
            0
        }
    }

    /// The state after `update_on_fill`: book the trade, rearm the
    /// trip-wires one grid step from the fill, deactivate past the
    /// target.
    pub open spec fn after_update_on_fill(self, f: OrderFill) -> GearHedger {
        let pl2 = self.pl_after_fill(f);
        let moved = self.traded_units() != 0;
        GearHedger {
            pl: pl2,
            last_trade_price: if moved {
                f.price
            } else {
                self.last_trade_price
            },
            next_sell_price: if moved {
                (f.price + self.scale_up) as i64
            } else {
                self.next_sell_price
            },
            next_buy_price: if moved {
                (f.price - self.scale_down) as i64
            } else {
                self.next_buy_price
            },
            active: if pl2.cum_profit > self.target {
                false
            } else {
                self.active
            },
            ..self
        }
    }

    /// The state with a fill staged on top of the pending tentative
    /// trade, as `next_exposure_and_fill` stages it.
    pub open spec fn primed(self, f: OrderFill) -> GearHedger {
        GearHedger {
            tentative_price: f.price,
            tentative_exposure: (self.tentative_exposure + f.units) as i64,
            ..self
        }
    }

    /// The staged units the curve can ask for never exceed the exposure
    /// cap scaled by the widest gear.
    pub proof fn lemma_tentative_cap(self, p: int)
        requires
            self.wf(),
        ensures
            -(GEAR_LIMIT / SCALE) * self.max_exposure
                <= self.tentative_at(p)
                <= (GEAR_LIMIT / SCALE) * self.max_exposure,
            -UNIT_LIMIT <= self.tentative_at(p) <= UNIT_LIMIT,
    {
        crate::gear::lemma_gear_eval_bounded(self.gear_f, p);
        lemma_tdiv_product_cap(
            self.gear_f.eval(p),
            self.max_exposure as int,
            SCALE as int,
            GEAR_LIMIT as int,
        );
        assert((GEAR_LIMIT as int) / (SCALE as int) == 1000);
        assert((1000int) * (self.max_exposure as int) <= UNIT_LIMIT as int
            && -(UNIT_LIMIT as int) <= (-1000int) * (self.max_exposure as int))
            by (nonlinear_arith)
            requires 1 <= self.max_exposure <= MAX_EXPOSURE_LIMIT;
    }

    /// The signed units the curve asks for at price `p`.
    fn tentative_units(&self, p: i64) -> (r: i64)
        requires
            self.wf(),
        ensures
            r == self.tentative_at(p as int),
            -UNIT_LIMIT <= r <= UNIT_LIMIT,
    {
        proof {
            self.lemma_tentative_cap(p as int);
            crate::gear::lemma_gear_eval_bounded(self.gear_f, p as int);
            assert(-(GEAR_LIMIT as int) * (MAX_EXPOSURE_LIMIT as int)
                <= (self.gear_f.eval(p as int)) * (self.max_exposure as int)
                <= (GEAR_LIMIT as int) * (MAX_EXPOSURE_LIMIT as int)) by (nonlinear_arith)
                requires
                    -GEAR_LIMIT <= self.gear_f.eval(p as int) <= GEAR_LIMIT,
                    1 <= self.max_exposure <= MAX_EXPOSURE_LIMIT,
            ;
        }
        let gv: i64 = self.gear_f.g(p);
        let units: i128 = div_trunc((gv as i128) * (self.max_exposure as i128), SCALE as i128);
        units as i64
    }
}

impl Agent for GearHedger {
    open spec fn inv(&self) -> bool {
        self.wf()
    }

    open spec fn fill_ok_for(&self, order_fill: &OrderFill) -> bool {
        self.traded_units() != 0 ==> {
            &&& order_fill.wf()
            &&& -MONEY_LIMIT <= self.pl.cum_profit + self.fill_profit(*order_fill)
                <= MONEY_LIMIT
        }
    }

    open spec fn prime_ok_for(&self, order_fill: &OrderFill) -> bool {
        &&& 0 <= order_fill.price <= PRICE_LIMIT
        &&& -UNIT_LIMIT <= self.tentative_exposure + order_fill.units <= UNIT_LIMIT
        &&& self.primed(*order_fill).fill_ok_for(order_fill)
    }

    /// Stage a flat position, valued at the bid when long, at the ask
    /// otherwise.
    fn close(&mut self, tick: &Tick) -> (r: i64)
        ensures
            *final(self) == (GearHedger {
                tentative_price: old(self).close_price(*tick),
                tentative_exposure: 0,
                ..*old(self)
            }),
            final(self).wf(),
            r == 0,
    {
        if self.pl.exposure > 0 {
            self.tentative_price = tick.bid;
        } else {
            self.tentative_price = tick.ask;
        }
        self.tentative_exposure = 0;
        0
    }

    fn is_active(&self) -> (r: bool)
        ensures
            r == self.active,
    {
        self.active
    }

    fn deactivate(&mut self)
        ensures
            *final(self) == (GearHedger { active: false, ..*old(self) }),
            final(self).wf(),
    {
        self.active = false;
    }

    /// The agent is done once realized profit exceeds the target.
    fn to_be_closed(&self) -> (r: bool)
        ensures
            r == (self.pl.cum_profit > self.target),
    {
        self.pl.cum_profit > self.target
    }

    /// Default target policy: stay flat and deactivate.
    fn target_action(&mut self) -> (r: i64)
        ensures
            *final(self) == (GearHedger {
                tentative_exposure: 0,
                active: false,
                ..*old(self)
            }),
            final(self).wf(),
            r == 0,
    {
        self.tentative_exposure = 0;
        self.deactivate();
        0
    }

    /// Stage a trade when a trip-wire is crossed; the bid side is
    /// checked first, so a single quote never fires both sides.
    fn target_exposure(&mut self, tick: &Tick) -> (r: i64)
        ensures
            *final(self) == old(self).after_target_exposure(*tick),
            final(self).wf(),
            r == old(self).target_exposure_ret(*tick),
    {
        if tick.bid >= self.next_sell_price {
            self.tentative_price = tick.bid;
            self.tentative_exposure = self.tentative_units(tick.bid);
            self.tentative_exposure
        } else if tick.ask <= self.next_buy_price {
            self.tentative_price = tick.ask;
            self.tentative_exposure = self.tentative_units(tick.ask);
            self.tentative_exposure
        } else {
            self.pl.exposure
        }
    }

    /// Take profit when the valued position beats the target; otherwise
    /// stage along the curve.
    fn next_exposure(&mut self, tick: &Tick) -> (r: i64)
        ensures
            *final(self) == old(self).after_next_exposure(*tick),
            final(self).wf(),
            r == old(self).next_exposure_ret(*tick),
    {
        let close_price: i64 = if self.pl.exposure > 0 { tick.bid } else { tick.ask };
        if self.pl.pl_at_price(close_price) > self.target {
            self.tentative_price = close_price;
            self.tentative_exposure = 0;
            let e = self.target_action();
            return e;
        }
        self.target_exposure(tick)
    }

    /// Book the staged trade at the fill price and rearm the trip-wires
    /// one grid step away; deactivate once realized profit beats the
    /// target.
    fn update_on_fill(&mut self, order_fill: &OrderFill)
        ensures
            *final(self) == old(self).after_update_on_fill(*order_fill),
            final(self).wf(),
            final(self).pl.exposure == old(self).tentative_exposure,
            old(self).traded_units() != 0 ==> {
                &&& final(self).next_sell_price == order_fill.price + old(self).scale_up
                &&& final(self).next_buy_price == order_fill.price - old(self).scale_down
                &&& final(self).last_trade_price == order_fill.price
            },
    {
        let traded: i64 = self.tentative_exposure - self.pl.exposure;
        if traded < 0 {
            self.pl.sell(order_fill.price, -traded);
            self.last_trade_price = order_fill.price;
            self.next_sell_price = order_fill.price + self.scale_up;
            self.next_buy_price = order_fill.price - self.scale_down;
        } else if traded > 0 {
            self.pl.buy(order_fill.price, traded);
            self.last_trade_price = order_fill.price;
            self.next_buy_price = order_fill.price - self.scale_down;
            self.next_sell_price = order_fill.price + self.scale_up;
        }
        if self.to_be_closed() {
            self.deactivate();
        }
    }

    /// Add the fill to the staged trade, then book it; this is how a
    /// merged agent is primed with an initial position.
    fn next_exposure_and_fill(&mut self, order_fill: &OrderFill)
        ensures
            *final(self) == old(self).primed(*order_fill).after_update_on_fill(*order_fill),
            final(self).wf(),
            final(self).pl.exposure == old(self).tentative_exposure + order_fill.units,
    {
        self.tentative_price = order_fill.price;
        self.tentative_exposure = self.tentative_exposure + order_fill.units;
        self.update_on_fill(order_fill);
    }

    fn exposure(&self) -> (r: i64)
        ensures
            r == self.pl.exposure,
    {
        self.pl.exposure
    }
}

/// The normalized lower-endpoint gear of a segment between endpoint
/// exposures `e0` and `en`: the larger magnitude becomes one whole unit.
pub open spec fn seg_g0(e0: int, en: int) -> int {
    if vstd::math::abs(e0) > vstd::math::abs(en) {
        if e0 >= 0 { SCALE as int } else { -(SCALE as int) }
    } else {
        tdiv(e0 * SCALE, vstd::math::abs(en) as int)
    }
}

/// The normalized upper-endpoint gear of a segment between endpoint
/// exposures `e0` and `en`.
pub open spec fn seg_gn(e0: int, en: int) -> int {
    if vstd::math::abs(e0) > vstd::math::abs(en) {
        tdiv(en * SCALE, vstd::math::abs(e0) as int)
    } else {
        if en >= 0 { SCALE as int } else { -(SCALE as int) }
    }
}

/// The larger of the two endpoint exposure magnitudes.
pub open spec fn seg_max(e0: int, en: int) -> int {
    if vstd::math::abs(e0) > vstd::math::abs(en) {
        vstd::math::abs(e0) as int
    } else {
        vstd::math::abs(en) as int
    }
}

/// A zeroed accounting record.
pub open spec fn zero_pl() -> AgentPL {
    AgentPL { exposure: 0, price_average: 0, cum_profit: 0, unrealized_pl: 0 }
}

impl GearHedger {
    /// A fresh agent around a gear curve: active, flat, all trip-wires
    /// seeded at the anchor price so the first quote can trade.
    fn seeded(gear_f: Gear, scale_up: i64, scale_down: i64, max_exposure: i64,
        target: i128, anchor: i64) -> (r: GearHedger)
        requires
            gear_f.wf(),
            1 <= scale_up <= PRICE_LIMIT,
            1 <= scale_down <= PRICE_LIMIT,
            1 <= max_exposure <= MAX_EXPOSURE_LIMIT,
            0 <= anchor <= PRICE_LIMIT,
        ensures
            r == (GearHedger {
                max_exposure: max_exposure,
                gear_f: gear_f,
                scale_up: scale_up,
                scale_down: scale_down,
                active: true,
                target: target,
                last_trade_price: anchor,
                next_buy_price: anchor,
                next_sell_price: anchor,
                pl: zero_pl(),
                tentative_price: anchor,
                tentative_exposure: 0,
            }),
            r.wf(),
    {
        GearHedger {
            max_exposure: max_exposure,
            gear_f: gear_f,
            scale_up: scale_up,
            scale_down: scale_down,
            active: true,
            target: target,
            last_trade_price: anchor,
            next_buy_price: anchor,
            next_sell_price: anchor,
            pl: AgentPL { exposure: 0, price_average: 0, cum_profit: 0, unrealized_pl: 0 },
            tentative_price: anchor,
            tentative_exposure: 0,
        }
    }

    /// Buy low and taper to flat: a positive gear curve, anchored at
    /// `price1` and with no profit target.
    pub fn buyer(price0: i64, price1: i64, scale_up: i64, scale_down: i64,
        max_exposure: i64) -> (r: GearHedger)
        requires
            0 <= price0 < price1 <= PRICE_LIMIT,
            1 <= scale_up <= PRICE_LIMIT,
            1 <= scale_down <= PRICE_LIMIT,
            1 <= max_exposure <= MAX_EXPOSURE_LIMIT,
        ensures
            r.wf(),
            r.active,
            r.pl == zero_pl(),
            r.max_exposure == max_exposure,
            r.scale_up == scale_up && r.scale_down == scale_down,
            r.target == TARGET_UNBOUNDED,
            r.last_trade_price == price1 && r.next_buy_price == price1
                && r.next_sell_price == price1 && r.tentative_price == price1,
            r.tentative_exposure == 0,
            r.gear_f.p_0 == price0 && r.gear_f.g_0 == SCALE,
            r.gear_f.p_n == price1 && r.gear_f.g_n == 0,
            r.gear_f.g_i@.len() == 1,
    {
        GearHedger::seeded(
            Gear::positive(price0, price1),
            scale_up,
            scale_down,
            max_exposure,
            TARGET_UNBOUNDED,
            price1,
        )
    }

    /// Sell high and taper to flat: a negative gear curve, anchored at
    /// `price0` and with no profit target.
    pub fn seller(price0: i64, price1: i64, scale_up: i64, scale_down: i64,
        max_exposure: i64) -> (r: GearHedger)
        requires
            0 <= price0 < price1 <= PRICE_LIMIT,
            1 <= scale_up <= PRICE_LIMIT,
            1 <= scale_down <= PRICE_LIMIT,
            1 <= max_exposure <= MAX_EXPOSURE_LIMIT,
        ensures
            r.wf(),
            r.active,
            r.pl == zero_pl(),
            r.max_exposure == max_exposure,
            r.scale_up == scale_up && r.scale_down == scale_down,
            r.target == TARGET_UNBOUNDED,
            r.last_trade_price == price0 && r.next_buy_price == price0
                && r.next_sell_price == price0 && r.tentative_price == price0,
            r.tentative_exposure == 0,
            r.gear_f.p_0 == price0 && r.gear_f.g_0 == 0,
            r.gear_f.p_n == price1 && r.gear_f.g_n == -SCALE,
            r.gear_f.g_i@.len() == 1,
    {
        GearHedger::seeded(
            Gear::negative(price0, price1),
            scale_up,
            scale_down,
            max_exposure,
            TARGET_UNBOUNDED,
            price0,
        )
    }

    /// A constant position of `exposure` units: gear one in the sign of
    /// `exposure`, with the exposure magnitude as the cap.
    pub fn constant(exposure: i64) -> (r: GearHedger)
        requires
            exposure != 0,
            -MAX_EXPOSURE_LIMIT <= exposure <= MAX_EXPOSURE_LIMIT,
        ensures
            r.wf(),
            r.active,
            r.pl == zero_pl(),
            r.max_exposure == vstd::math::abs(exposure as int),
            r.scale_up == SCALE && r.scale_down == SCALE,
            r.target == TARGET_UNBOUNDED,
            r.last_trade_price == SCALE && r.next_buy_price == SCALE
                && r.next_sell_price == SCALE && r.tentative_price == SCALE,
            r.tentative_exposure == 0,
            r.gear_f.g_i@.len() == 0 && r.gear_f.p_0 == SCALE && r.gear_f.p_n == SCALE,
            exposure > 0 ==> r.gear_f.g_0 == SCALE && r.gear_f.g_n == SCALE,
            exposure < 0 ==> r.gear_f.g_0 == -SCALE && r.gear_f.g_n == -SCALE,
    {
        let mag: i64 = if exposure >= 0 { exposure } else { -exposure };
        GearHedger::seeded(
            Gear::constant(exposure),
            SCALE,
            SCALE,
            mag,
            TARGET_UNBOUNDED,
            SCALE,
        )
    }

    /// The canonical symmetric agent: long below the band, short above,
    /// anchored at the mid price.
    pub fn symmetric(price0: i64, price1: i64, scale_up: i64, scale_down: i64,
        max_exposure: i64, target: i128) -> (r: GearHedger)
        requires
            0 <= price0 < price1 <= PRICE_LIMIT,
            1 <= scale_up <= PRICE_LIMIT,
            1 <= scale_down <= PRICE_LIMIT,
            1 <= max_exposure <= MAX_EXPOSURE_LIMIT,
        ensures
            r.wf(),
            r.active,
            r.pl == zero_pl(),
            r.max_exposure == max_exposure,
            r.scale_up == scale_up && r.scale_down == scale_down,
            r.target == target,
            r.last_trade_price == (price0 + price1) / 2 && r.next_buy_price == (price0
                + price1) / 2 && r.next_sell_price == (price0 + price1) / 2
                && r.tentative_price == (price0 + price1) / 2,
            r.tentative_exposure == 0,
            r.gear_f.p_0 == price0 && r.gear_f.g_0 == SCALE,
            r.gear_f.p_n == price1 && r.gear_f.g_n == -SCALE,
            r.gear_f.g_i@.len() == 1,
    {
        let zero_price: i64 = (((price0 as u64) + (price1 as u64)) / 2) as i64;
        GearHedger::seeded(
            Gear::symmetric(price0, price1),
            scale_up,
            scale_down,
            max_exposure,
            target,
            zero_price,
        )
    }

    /// A step agent: gear `g_0` strictly below `price0`, `g_1` at or
    /// above, anchored at `price0` and with no profit target.
    pub fn jump(price0: i64, g_0: i64, g_1: i64, scale_up: i64, scale_down: i64,
        max_exposure: i64) -> (r: GearHedger)
        requires
            0 <= price0 <= PRICE_LIMIT,
            -GEAR_LIMIT <= g_0 <= GEAR_LIMIT,
            -GEAR_LIMIT <= g_1 <= GEAR_LIMIT,
            1 <= scale_up <= PRICE_LIMIT,
            1 <= scale_down <= PRICE_LIMIT,
            1 <= max_exposure <= MAX_EXPOSURE_LIMIT,
        ensures
            r.wf(),
            r.active,
            r.pl == zero_pl(),
            r.max_exposure == max_exposure,
            r.scale_up == scale_up && r.scale_down == scale_down,
            r.target == TARGET_UNBOUNDED,
            r.last_trade_price == price0 && r.next_buy_price == price0
                && r.next_sell_price == price0 && r.tentative_price == price0,
            r.tentative_exposure == 0,
            r.gear_f.p_0 == price0 && r.gear_f.g_0 == g_0,
            r.gear_f.p_n == price0 && r.gear_f.g_n == g_1,
            r.gear_f.g_i@.len() == 0,
    {
        GearHedger::seeded(
            Gear::jump(price0, g_0, g_1),
            scale_up,
            scale_down,
            max_exposure,
            TARGET_UNBOUNDED,
            price0,
        )
    }

    /// The coastline trader: a symmetric grid of `imax` steps of `size`
    /// units around `price0`, with one grid profit as the target.
    pub fn coastline(direction: i64, price0: i64, scale: i64, size: i64,
        imax: i64) -> (r: GearHedger)
        requires
            direction == 1 || direction == -1,
            1 <= imax,
            imax * SCALE <= GEAR_LIMIT,
            1 <= scale <= PRICE_LIMIT,
            imax * scale <= price0,
            price0 + imax * scale <= PRICE_LIMIT,
            1 <= size,
            size * imax <= MAX_EXPOSURE_LIMIT,
        ensures
            r.wf(),
            r.active,
            r.pl == zero_pl(),
            r.max_exposure == size * imax,
            r.scale_up == scale && r.scale_down == scale,
            r.target == scale * size,
            r.last_trade_price == price0 && r.next_buy_price == price0
                && r.next_sell_price == price0 && r.tentative_price == price0,
            r.tentative_exposure == 0,
            r.gear_f.p_0 == price0 - imax * scale,
            r.gear_f.p_n == price0 + imax * scale,
            r.gear_f.g_0 == direction * imax * SCALE,
            r.gear_f.g_n == -(direction * imax * SCALE),
            r.gear_f.g_i@.len() == 1,
    {
        proof {
            assert(size <= MAX_EXPOSURE_LIMIT as int) by (nonlinear_arith)
                requires 1 <= size && 1 <= imax && size * imax <= MAX_EXPOSURE_LIMIT;
            assert(1 <= size * imax && 1 <= scale * size
                && scale * size <= (PRICE_LIMIT as int) * (MAX_EXPOSURE_LIMIT as int))
                by (nonlinear_arith)
                requires
                    1 <= size,
                    1 <= imax,
                    1 <= scale <= PRICE_LIMIT,
                    size <= MAX_EXPOSURE_LIMIT,
            ;
        }
        let max_exposure: i64 = size * imax;
        let target: i128 = (scale as i128) * (size as i128);
        GearHedger::seeded(
            Gear::coastline(direction, price0, scale, imax),
            scale,
            scale,
            max_exposure,
            target,
            price0,
        )
    }

    /// An agent along a straight exposure line between two endpoints: the
    /// endpoint exposures are normalized into a gear and a cap.
    pub fn segment(price0: i64, exposure0: i64, pricen: i64, exposuren: i64,
        scale: i64, target: i128) -> (r: GearHedger)
        requires
            0 <= price0 < pricen <= PRICE_LIMIT,
            1 <= scale <= PRICE_LIMIT,
            -MAX_EXPOSURE_LIMIT <= exposure0 <= MAX_EXPOSURE_LIMIT,
            -MAX_EXPOSURE_LIMIT <= exposuren <= MAX_EXPOSURE_LIMIT,
            exposure0 != 0 || exposuren != 0,
        ensures
            r.wf(),
            r.active,
            r.pl == zero_pl(),
            r.max_exposure == seg_max(exposure0 as int, exposuren as int),
            r.scale_up == scale && r.scale_down == scale,
            r.target == target,
            r.last_trade_price == price0 && r.next_buy_price == price0
                && r.next_sell_price == price0 && r.tentative_price == price0,
            r.tentative_exposure == 0,
            r.gear_f.p_0 == price0 && r.gear_f.g_0 == seg_g0(exposure0 as int, exposuren as int),
            r.gear_f.p_n == pricen && r.gear_f.g_n == seg_gn(exposure0 as int, exposuren as int),
            r.gear_f.g_i@.len() == 1,
    {
        let e0a: i64 = if exposure0 >= 0 { exposure0 } else { -exposure0 };
        let ena: i64 = if exposuren >= 0 { exposuren } else { -exposuren };
        let g_0: i64;
        let g_n: i64;
        let max_exposure: i64;
        if e0a > ena {
            proof {
                lemma_tdiv_scaled_ratio(exposuren as int, e0a as int, SCALE as int);
                assert(-(MAX_EXPOSURE_LIMIT as int) * (SCALE as int)
                    <= (exposuren as int) * (SCALE as int)
                    <= (MAX_EXPOSURE_LIMIT as int) * (SCALE as int)) by (nonlinear_arith)
                    requires -MAX_EXPOSURE_LIMIT <= exposuren <= MAX_EXPOSURE_LIMIT;
            }
            g_0 = if exposure0 >= 0 { SCALE } else { -SCALE };
            g_n = div_trunc((exposuren as i128) * (SCALE as i128), e0a as i128) as i64;
            max_exposure = e0a;
        } else {
            proof {
                lemma_tdiv_scaled_ratio(exposure0 as int, ena as int, SCALE as int);
                assert(-(MAX_EXPOSURE_LIMIT as int) * (SCALE as int)
                    <= (exposure0 as int) * (SCALE as int)
                    <= (MAX_EXPOSURE_LIMIT as int) * (SCALE as int)) by (nonlinear_arith)
                    requires -MAX_EXPOSURE_LIMIT <= exposure0 <= MAX_EXPOSURE_LIMIT;
            }
            g_0 = div_trunc((exposure0 as i128) * (SCALE as i128), ena as i128) as i64;
            g_n = if exposuren >= 0 { SCALE } else { -SCALE };
            max_exposure = ena;
        }
        GearHedger::seeded(
            Gear::segment(price0, g_0, pricen, g_n),
            scale,
            scale,
            max_exposure,
            target,
            price0,
        )
    }
}

/// The signed units a hedger's curve asks for below its band.
pub open spec fn gear_low_units(h: GearHedger) -> int {
    tdiv(h.gear_f.g_0 * h.max_exposure, SCALE as int)
}

/// The signed units a hedger's curve asks for at or above its band.
pub open spec fn gear_high_units(h: GearHedger) -> int {
    tdiv(h.gear_f.g_n * h.max_exposure, SCALE as int)
}

/// The exposure cap of the merge of two hedgers: the larger magnitude of
/// the summed endpoint exposures.
pub open spec fn merged_max(a: GearHedger, b: GearHedger) -> int {
    let lo = gear_low_units(a) + gear_low_units(b);
    let hi = gear_high_units(a) + gear_high_units(b);
    if vstd::math::abs(lo) > vstd::math::abs(hi) {
        vstd::math::abs(lo) as int
    } else {
        vstd::math::abs(hi) as int
    }
}


/// The accounting a merged agent starts with: both input positions
/// replayed into a fresh book, each at its own average entry price.
pub open spec fn replayed_pl(a: GearHedger, b: GearHedger) -> AgentPL {
    let first = (if a.pl.exposure > 0 {
        zero_pl().after_buy(a.pl.price_average as int, a.pl.exposure as int)
    } else if a.pl.exposure < 0 {
        zero_pl().after_sell(a.pl.price_average as int, -(a.pl.exposure as int))
    } else {
        zero_pl()
    });
    if b.pl.exposure > 0 {
        first.after_buy(b.pl.price_average as int, b.pl.exposure as int)
    } else if b.pl.exposure < 0 {
        first.after_sell(b.pl.price_average as int, -(b.pl.exposure as int))
    } else {
        first
    }
}

/// The signed units a gear value `g` asks for under an exposure cap `m`.
pub(crate) fn endpoint_units(g: i64, m: i64) -> (r: i64)
    requires
        -GEAR_LIMIT <= g <= GEAR_LIMIT,
        1 <= m <= MAX_EXPOSURE_LIMIT,
    ensures
        r == tdiv(g as int * m as int, SCALE as int),
        -UNIT_LIMIT <= r <= UNIT_LIMIT,
{
    proof {
        lemma_tdiv_product_cap(g as int, m as int, SCALE as int, GEAR_LIMIT as int);
        assert((GEAR_LIMIT as int) / (SCALE as int) == 1000);
        assert((1000int) * (m as int) <= UNIT_LIMIT as int
            && -(UNIT_LIMIT as int) <= (-1000int) * (m as int)) by (nonlinear_arith)
            requires 1 <= m <= MAX_EXPOSURE_LIMIT;
        assert(-(GEAR_LIMIT as int) * (MAX_EXPOSURE_LIMIT as int)
            <= (g as int) * (m as int)
            <= (GEAR_LIMIT as int) * (MAX_EXPOSURE_LIMIT as int)) by (nonlinear_arith)
            requires
                -GEAR_LIMIT <= g <= GEAR_LIMIT,
                1 <= m <= MAX_EXPOSURE_LIMIT,
        ;
    }
    div_trunc((g as i128) * (m as i128), SCALE as i128) as i64
}

impl GearHedger {
    /// Combine two agents into one over the union of their price bands:
    /// endpoint exposures add, grid scales average, the joint target
    /// absorbs both realized profits, and both positions are replayed
    /// into the merged book at their own average entry prices.
    pub fn merge_flat(&self, other: &GearHedger) -> (r: GearHedger)
        requires
            self.wf(),
            other.wf(),
            (if self.gear_f.p_0 <= other.gear_f.p_0 { self.gear_f.p_0 } else { other.gear_f.p_0 })
                < (if self.gear_f.p_n >= other.gear_f.p_n { self.gear_f.p_n } else { other.gear_f.p_n }),
            1 <= merged_max(*self, *other) <= MAX_EXPOSURE_LIMIT,
            -MONEY_LIMIT <= self.target <= MONEY_LIMIT,
            -MONEY_LIMIT <= other.target <= MONEY_LIMIT,
            -UNIT_LIMIT <= self.pl.exposure + other.pl.exposure <= UNIT_LIMIT,
        ensures
            r.wf(),
            r.active,
            r.gear_f.p_0 == (if self.gear_f.p_0 <= other.gear_f.p_0 { self.gear_f.p_0 } else { other.gear_f.p_0 }),
            r.gear_f.p_n == (if self.gear_f.p_n >= other.gear_f.p_n { self.gear_f.p_n } else { other.gear_f.p_n }),
            r.max_exposure == merged_max(*self, *other),
            r.gear_f.g_0 == seg_g0(
                gear_low_units(*self) + gear_low_units(*other),
                gear_high_units(*self) + gear_high_units(*other),
            ),
            r.gear_f.g_n == seg_gn(
                gear_low_units(*self) + gear_low_units(*other),
                gear_high_units(*self) + gear_high_units(*other),
            ),
            r.scale_up == ((self.scale_up + other.scale_up) / 2
                + (self.scale_down + other.scale_down) / 2) / 2,
            r.scale_down == r.scale_up,
            r.target == self.target + other.target - self.pl.cum_profit - other.pl.cum_profit,
            r.pl == replayed_pl(*self, *other),
            r.pl.exposure == self.pl.exposure + other.pl.exposure,
            r.tentative_exposure == self.pl.exposure + other.pl.exposure,
            r.tentative_price == other.pl.price_average,
            ({
                let anchor = (if self.gear_f.p_0 <= other.gear_f.p_0 {
                    self.gear_f.p_0
                } else {
                    other.gear_f.p_0
                });
                let wire = (if other.pl.exposure != 0 {
                    other.pl.price_average as int
                } else if self.pl.exposure != 0 {
                    self.pl.price_average as int
                } else {
                    anchor as int
                });
                &&& r.last_trade_price == wire
                &&& r.next_sell_price == (if other.pl.exposure != 0 || self.pl.exposure != 0 {
                    wire + r.scale_up
                } else {
                    wire
                })
                &&& r.next_buy_price == (if other.pl.exposure != 0 || self.pl.exposure != 0 {
                    wire - r.scale_down
                } else {
                    wire
                })
            }),
            (self.pl.exposure >= 0 && other.pl.exposure >= 0)
                || (self.pl.exposure <= 0 && other.pl.exposure <= 0)
                ==> r.pl.cum_profit == 0,
    {
        let p_0: i64 = if self.gear_f.p_0 <= other.gear_f.p_0 {
            self.gear_f.p_0
        } else {
            other.gear_f.p_0
        };
        let p_n: i64 = if self.gear_f.p_n >= other.gear_f.p_n {
            self.gear_f.p_n
        } else {
            other.gear_f.p_n
        };

        let low_gear: i64 = endpoint_units(self.gear_f.g_0, self.max_exposure)
            + endpoint_units(other.gear_f.g_0, other.max_exposure);
        let high_gear: i64 = endpoint_units(self.gear_f.g_n, self.max_exposure)
            + endpoint_units(other.gear_f.g_n, other.max_exposure);

        let scale_up: i64 = (((self.scale_up as u64) + (other.scale_up as u64)) / 2) as i64;
        let scale_down: i64 = (((self.scale_down as u64) + (other.scale_down as u64)) / 2) as i64;
        let scale: i64 = (((scale_up as u64) + (scale_down as u64)) / 2) as i64;

        let target: i128 = self.target + other.target - self.pl.cum_profit
            - other.pl.cum_profit;

        let mut agent: GearHedger = GearHedger::segment(
            p_0,
            low_gear,
            p_n,
            high_gear,
            scale,
            target,
        );
        let fill1 = OrderFill { price: self.pl.price_average, units: self.pl.exposure };
        let fill2 = OrderFill { price: other.pl.price_average, units: other.pl.exposure };
        proof {
            assert(agent.primed(fill1).fill_ok_for(&fill1));
        }
        agent.next_exposure_and_fill(&fill1);
        proof {
            assert(agent.tentative_exposure == self.pl.exposure);
            assert(agent.pl.exposure == self.pl.exposure);
            assert(agent.pl.cum_profit == 0);
            crate::pl::lemma_fill_profit_bound(
                agent.pl,
                fill2.price as int,
                other.pl.exposure as int,
            );
            crate::pl::lemma_fill_profit_bound(
                agent.pl,
                fill2.price as int,
                -(other.pl.exposure as int),
            );
            assert(agent.primed(fill2).traded_units() == other.pl.exposure);
            assert(agent.prime_ok_for(&fill2));
        }
        agent.next_exposure_and_fill(&fill2);
        agent.active = true;
        agent
    }
}

/// The declarative, durable description of an agent: each case holds the
/// human-meaningful parameters from which a `GearHedger` is built.
#[derive(Debug, Clone, Copy)]
pub enum GAgent {
    /// A segment anchored on a daily bar: flat at the anchor price (the
    /// higher of open and close), fully long at the low, fully short at
    /// the high, with the arms clipped to `exposure`.
    OHLC {
        open: i64,
        high: i64,
        low: i64,
        close: i64,
        scale: i64,
        exposure: i64,
        target: Option<i128>,
    },
    /// A coastline-style segment of `2 * imax` grid steps around `price`,
    /// shifted one step in the trading direction.
    CL {
        direction: i64,
        price: i64,
        scale: i64,
        size: i64,
        i0: Option<i64>,
        imax: i64,
        target: Option<i128>,
    },
    /// A symmetric band of half-width `span` around `pmid`.
    Symmetric { pmid: i64, span: i64, scale: i64, exposure: i64, target: i128 },
    /// A one-sided buyer between two prices.
    Buy { price0: i64, price1: i64, scale: i64, exposure: i64 },
    /// A one-sided seller between two prices.
    Sell { price0: i64, price1: i64, scale: i64, exposure: i64 },
    /// A step from fully long to flat at `price0`.
    JumpLong { price0: i64, scale: i64, exposure: i64 },
    /// The coastline trader proper.
    Coastline { direction: i64, price0: i64, scale: i64, size: i64, imax: i64 },
    /// An arbitrary exposure line between two endpoints.
    Segment {
        price0: i64,
        exposure0: i64,
        pricen: i64,
        exposuren: i64,
        scale: i64,
        target: i128,
    },
}

/// The value of an optional target, with a default.
pub open spec fn target_or(t: Option<i128>, d: int) -> int {
    match t {
        Option::Some(v) => v as int,
        Option::None => d,
    }
}

/// The anchor price of an OHLC bar: the higher of open and close.
pub open spec fn ohlc_anchor(open: int, close: int) -> int {
    if open < close {
        close
    } else {
        open
    }
}

/// The long-arm exposure of an OHLC agent: clipped so the arm ratio
/// matches the bar's geometry.
pub open spec fn ohlc_e0(exposure: int, low: int, high: int, anchor: int) -> int {
    let t = tdiv(exposure * (anchor - low), high - anchor);
    if exposure <= t {
        exposure
    } else {
        t
    }
}

/// The short-arm exposure of an OHLC agent.
pub open spec fn ohlc_en(exposure: int, low: int, high: int, anchor: int) -> int {
    let t = tdiv(exposure * (high - anchor), anchor - low);
    if exposure <= t {
        -exposure
    } else {
        -t
    }
}

/// The step multiplier of a CL agent, defaulting to one.
pub open spec fn cl_i0(i0: Option<i64>) -> int {
    match i0 {
        Option::Some(v) => v as int,
        Option::None => 1,
    }
}

/// The flat price of a CL agent: the quoted price shifted one step in
/// the trading direction.
pub open spec fn cl_anchor(direction: int, price: int, shift: int) -> int {
    if direction > 0 {
        price + shift
    } else {
        price - shift
    }
}

impl GAgent {
    /// Whether the description yields a well-formed agent.
    pub open spec fn buildable(self) -> bool {
        match self {
            GAgent::OHLC { open, high, low, close, scale, exposure, target } => {
                let anchor = ohlc_anchor(open as int, close as int);
                &&& 0 <= low
                &&& high <= PRICE_LIMIT
                &&& low < anchor
                &&& anchor < high
                &&& 1 <= scale <= PRICE_LIMIT
                &&& 1 <= exposure <= MAX_EXPOSURE_LIMIT
                &&& (ohlc_e0(exposure as int, low as int, high as int, anchor) != 0
                    || ohlc_en(exposure as int, low as int, high as int, anchor) != 0)
            },
            GAgent::CL { direction, price, scale, size, i0, imax, target } => {
                let shift = cl_i0(i0) * scale;
                let anchor = cl_anchor(direction as int, price as int, shift);
                &&& 1 <= scale <= PRICE_LIMIT
                &&& 1 <= size
                &&& 1 <= imax
                &&& size * imax <= MAX_EXPOSURE_LIMIT
                &&& 0 <= anchor - imax * scale
                &&& anchor + imax * scale <= PRICE_LIMIT
            },
            GAgent::Symmetric { pmid, span, scale, exposure, target } => {
                &&& 1 <= span
                &&& 0 <= pmid - span
                &&& pmid + span <= PRICE_LIMIT
                &&& 1 <= scale <= PRICE_LIMIT
                &&& 1 <= exposure <= MAX_EXPOSURE_LIMIT
            },
            GAgent::Buy { price0, price1, scale, exposure } => {
                &&& 0 <= price0 < price1 <= PRICE_LIMIT
                &&& 1 <= scale <= PRICE_LIMIT
                &&& 1 <= exposure <= MAX_EXPOSURE_LIMIT
            },
            GAgent::Sell { price0, price1, scale, exposure } => {
                &&& 0 <= price0 < price1 <= PRICE_LIMIT
                &&& 1 <= scale <= PRICE_LIMIT
                &&& 1 <= exposure <= MAX_EXPOSURE_LIMIT
            },
            GAgent::JumpLong { price0, scale, exposure } => {
                &&& 0 <= price0 <= PRICE_LIMIT
                &&& 1 <= scale <= PRICE_LIMIT
                &&& 1 <= exposure <= MAX_EXPOSURE_LIMIT
            },
            GAgent::Coastline { direction, price0, scale, size, imax } => {
                &&& (direction == 1 || direction == -1)
                &&& 1 <= imax
                &&& imax * SCALE <= GEAR_LIMIT
                &&& 1 <= scale <= PRICE_LIMIT
                &&& imax * scale <= price0
                &&& price0 + imax * scale <= PRICE_LIMIT
                &&& 1 <= size
                &&& size * imax <= MAX_EXPOSURE_LIMIT
            },
            GAgent::Segment { price0, exposure0, pricen, exposuren, scale, target } => {
                &&& 0 <= price0 < pricen <= PRICE_LIMIT
                &&& 1 <= scale <= PRICE_LIMIT
                &&& -MAX_EXPOSURE_LIMIT <= exposure0 <= MAX_EXPOSURE_LIMIT
                &&& -MAX_EXPOSURE_LIMIT <= exposuren <= MAX_EXPOSURE_LIMIT
                &&& (exposure0 != 0 || exposuren != 0)
            },
        }
    }

    /// Build the runtime agent this description names, or nothing when
    /// the parameters violate a constraint.
    pub fn build(&self) -> (r: Option<GearHedger>)
        ensures
            r is Some <==> self.buildable(),
            r is Some ==> {
                let h = r.unwrap();
                &&& h.wf()
                &&& h.active
                &&& h.pl == zero_pl()
                &&& h.tentative_exposure == 0
            },
            (*self) matches GAgent::Symmetric { pmid, span, scale, exposure, target } ==> r is Some
                ==> {
                let h = r.unwrap();
                &&& h.gear_f.p_0 == pmid - span
                &&& h.gear_f.p_n == pmid + span
                &&& h.gear_f.g_0 == SCALE
                &&& h.gear_f.g_n == -SCALE
                &&& h.scale_up == scale
                &&& h.scale_down == scale
                &&& h.max_exposure == exposure
                &&& h.target == target
                &&& h.gear_f.g_i@.len() == 1
                &&& h.next_buy_price == pmid && h.next_sell_price == pmid
                &&& h.last_trade_price == pmid && h.tentative_price == pmid
            },
            (*self) matches GAgent::Buy { price0, price1, scale, exposure } ==> r is Some ==> {
                let h = r.unwrap();
                &&& h.gear_f.p_0 == price0 && h.gear_f.g_0 == SCALE
                &&& h.gear_f.p_n == price1 && h.gear_f.g_n == 0
                &&& h.scale_up == scale && h.scale_down == scale
                &&& h.max_exposure == exposure
                &&& h.target == TARGET_UNBOUNDED
                &&& h.gear_f.g_i@.len() == 1
                &&& h.next_buy_price == price1 && h.next_sell_price == price1
                &&& h.last_trade_price == price1 && h.tentative_price == price1
            },
            (*self) matches GAgent::Sell { price0, price1, scale, exposure } ==> r is Some ==> {
                let h = r.unwrap();
                &&& h.gear_f.p_0 == price0 && h.gear_f.g_0 == 0
                &&& h.gear_f.p_n == price1 && h.gear_f.g_n == -SCALE
                &&& h.scale_up == scale && h.scale_down == scale
                &&& h.max_exposure == exposure
                &&& h.target == TARGET_UNBOUNDED
                &&& h.gear_f.g_i@.len() == 1
                &&& h.next_buy_price == price0 && h.next_sell_price == price0
                &&& h.last_trade_price == price0 && h.tentative_price == price0
            },
            (*self) matches GAgent::JumpLong { price0, scale, exposure } ==> r is Some ==> {
                let h = r.unwrap();
                &&& h.gear_f.p_0 == price0 && h.gear_f.g_0 == SCALE
                &&& h.gear_f.p_n == price0 && h.gear_f.g_n == 0
                &&& h.scale_up == scale && h.scale_down == scale
                &&& h.max_exposure == exposure
                &&& h.target == TARGET_UNBOUNDED
                &&& h.gear_f.g_i@.len() == 0
                &&& h.next_buy_price == price0 && h.next_sell_price == price0
                &&& h.last_trade_price == price0 && h.tentative_price == price0
            },
            (*self) matches GAgent::Coastline { direction, price0, scale, size, imax } ==> r is Some
                ==> {
                let h = r.unwrap();
                &&& h.gear_f.p_0 == price0 - imax * scale
                &&& h.gear_f.p_n == price0 + imax * scale
                &&& h.gear_f.g_0 == direction * imax * SCALE
                &&& h.gear_f.g_n == -(direction * imax * SCALE)
                &&& h.scale_up == scale && h.scale_down == scale
                &&& h.max_exposure == size * imax
                &&& h.target == scale * size
                &&& h.gear_f.g_i@.len() == 1
                &&& h.next_buy_price == price0 && h.next_sell_price == price0
                &&& h.last_trade_price == price0 && h.tentative_price == price0
            },
            (*self) matches GAgent::Segment { price0, exposure0, pricen, exposuren, scale, target }
                ==> r is Some ==> {
                let h = r.unwrap();
                &&& h.gear_f.p_0 == price0
                &&& h.gear_f.g_0 == seg_g0(exposure0 as int, exposuren as int)
                &&& h.gear_f.p_n == pricen
                &&& h.gear_f.g_n == seg_gn(exposure0 as int, exposuren as int)
                &&& h.scale_up == scale && h.scale_down == scale
                &&& h.max_exposure == seg_max(exposure0 as int, exposuren as int)
                &&& h.target == target
                &&& h.gear_f.g_i@.len() == 1
                &&& h.next_buy_price == price0 && h.next_sell_price == price0
                &&& h.last_trade_price == price0 && h.tentative_price == price0
            },
            (*self) matches GAgent::OHLC { open, high, low, close, scale, exposure, target }
                ==> r is Some ==> {
                let h = r.unwrap();
                let anchor = ohlc_anchor(open as int, close as int);
                let e0 = ohlc_e0(exposure as int, low as int, high as int, anchor);
                let en = ohlc_en(exposure as int, low as int, high as int, anchor);
                &&& h.gear_f.p_0 == low
                &&& h.gear_f.g_0 == seg_g0(e0, en)
                &&& h.gear_f.p_n == high
                &&& h.gear_f.g_n == seg_gn(e0, en)
                &&& h.gear_f.g_i@.len() == 1
                &&& h.max_exposure == seg_max(e0, en)
                &&& h.scale_up == scale && h.scale_down == scale
                &&& h.target == target_or(target, TARGET_UNBOUNDED as int)
                &&& h.next_buy_price == low && h.next_sell_price == low
                &&& h.last_trade_price == low && h.tentative_price == low
            },
            (*self) matches GAgent::CL { direction, price, scale, size, i0, imax, target }
                ==> r is Some ==> {
                let h = r.unwrap();
                let anchor = cl_anchor(direction as int, price as int, cl_i0(i0) * scale);
                &&& h.gear_f.p_0 == anchor - imax * scale
                &&& h.gear_f.g_0 == SCALE
                &&& h.gear_f.p_n == anchor + imax * scale
                &&& h.gear_f.g_n == -SCALE
                &&& h.gear_f.g_i@.len() == 1
                &&& h.max_exposure == size * imax
                &&& h.scale_up == scale && h.scale_down == scale
                &&& h.target == target_or(target, size * scale)
                &&& h.next_buy_price == anchor - imax * scale
                &&& h.next_sell_price == anchor - imax * scale
                &&& h.last_trade_price == anchor - imax * scale
                &&& h.tentative_price == anchor - imax * scale
            },
    {
        match self {
            GAgent::OHLC { open, high, low, close, scale, exposure, target } => {
                let anchor: i64 = if *open < *close { *close } else { *open };
                if !(0 <= *low && *high <= PRICE_LIMIT && *low < anchor && anchor < *high
                    && 1 <= *scale && *scale <= PRICE_LIMIT && 1 <= *exposure
                    && *exposure <= MAX_EXPOSURE_LIMIT) {
                    return None;
                }
                let arm_lo: i64 = anchor - *low;
                let arm_hi: i64 = *high - anchor;
                proof {
                    assert(0 <= (*exposure as int) * (arm_lo as int)
                        && 0 <= (*exposure as int) * (arm_hi as int)) by (nonlinear_arith)
                        requires 1 <= *exposure && 0 < arm_lo && 0 < arm_hi;
                    vstd::arithmetic::div_mod::lemma_div_pos_is_pos(
                        (*exposure as int) * (arm_lo as int), arm_hi as int);
                    vstd::arithmetic::div_mod::lemma_div_pos_is_pos(
                        (*exposure as int) * (arm_hi as int), arm_lo as int);
                }
                let t0: i128 = div_trunc(mul_i64_wide(*exposure, arm_lo), arm_hi as i128);
                let tn: i128 = div_trunc(mul_i64_wide(*exposure, arm_hi), arm_lo as i128);
                let e0: i64 = if (*exposure as i128) <= t0 { *exposure } else { t0 as i64 };
                let en: i64 = if (*exposure as i128) <= tn { -*exposure } else { -(tn as i64) };
                if e0 == 0 && en == 0 {
                    return None;
                }
                let actual_target: i128 = match target {
                    Some(t) => *t,
                    None => TARGET_UNBOUNDED,
                };
                Some(GearHedger::segment(*low, e0, *high, en, *scale, actual_target))
            },
            GAgent::CL { direction, price, scale, size, i0, imax, target } => {
                if !(1 <= *scale && *scale <= PRICE_LIMIT && 1 <= *size && 1 <= *imax) {
                    return None;
                }
                let cap: i128 = mul_i64_wide(*size, *imax);
                if cap > MAX_EXPOSURE_LIMIT as i128 {
                    return None;
                }
                proof {
                    assert(*size <= MAX_EXPOSURE_LIMIT as int
                        && *imax <= MAX_EXPOSURE_LIMIT as int
                        && 1 <= (*size as int) * (*imax as int)) by (nonlinear_arith)
                        requires
                            1 <= *size,
                            1 <= *imax,
                            (*size as int) * (*imax as int) <= MAX_EXPOSURE_LIMIT as int,
                    ;
                    assert(1 <= (*imax as int) * (*scale as int)
                        && (*imax as int) * (*scale as int)
                            <= (MAX_EXPOSURE_LIMIT as int) * (PRICE_LIMIT as int))
                        by (nonlinear_arith)
                        requires
                            1 <= *imax <= MAX_EXPOSURE_LIMIT,
                            1 <= *scale <= PRICE_LIMIT,
                    ;
                    assert(1 <= (*size as int) * (*scale as int)) by (nonlinear_arith)
                        requires 1 <= *size && 1 <= *scale;
                }
                let i0v: i64 = match i0 {
                    Some(v) => *v,
                    None => 1,
                };
                let shift: i128 = mul_i64_wide(i0v, *scale);
                let anchor: i128 = if *direction > 0 {
                    (*price as i128) + shift
                } else {
                    (*price as i128) - shift
                };
                let half: i128 = mul_i64_wide(*imax, *scale);
                let lo: i128 = anchor - half;
                let hi: i128 = anchor + half;
                if !(0 <= lo && hi <= PRICE_LIMIT as i128) {
                    return None;
                }
                let actual_target: i128 = match target {
                    Some(t) => *t,
                    None => mul_i64_wide(*size, *scale),
                };
                let expo: i64 = cap as i64;
                proof {
                    assert(vstd::math::abs(expo as int) == expo
                        && vstd::math::abs(-(expo as int)) == expo);
                    assert((expo as int) * (SCALE as int) == (expo as int) * (SCALE as int)
                        && 0 <= (expo as int) * (SCALE as int)
                        && (expo as int) * (SCALE as int) == (expo as int) * (SCALE as int))
                        by (nonlinear_arith)
                        requires 1 <= expo;
                    assert(tdiv((expo as int) * (SCALE as int), expo as int) == SCALE) by {
                        assert((expo as int) * (SCALE as int) == (expo as int) * (SCALE as int)
                            && (expo as int) * (SCALE as int) >= 0) by (nonlinear_arith)
                            requires 1 <= expo;
                        vstd::arithmetic::div_mod::lemma_div_multiples_vanish(
                            SCALE as int, expo as int);
                        assert((expo as int) * (SCALE as int)
                            == (expo as int) * (SCALE as int));
                    }
                    assert(seg_g0(expo as int, -(expo as int)) == SCALE);
                    assert(seg_gn(expo as int, -(expo as int)) == -SCALE);
                }
                Some(GearHedger::segment(lo as i64, expo, hi as i64, -expo, *scale,
                    actual_target))
            },
            GAgent::Symmetric { pmid, span, scale, exposure, target } => {
                if !(1 <= *span && 1 <= *scale && *scale <= PRICE_LIMIT && 1 <= *exposure
                    && *exposure <= MAX_EXPOSURE_LIMIT) {
                    return None;
                }
                let lo: i128 = (*pmid as i128) - (*span as i128);
                let hi: i128 = (*pmid as i128) + (*span as i128);
                if !(0 <= lo && hi <= PRICE_LIMIT as i128) {
                    return None;
                }
                Some(GearHedger::symmetric(lo as i64, hi as i64, *scale, *scale, *exposure,
                    *target))
            },
            GAgent::Buy { price0, price1, scale, exposure } => {
                if !(0 <= *price0 && *price0 < *price1 && *price1 <= PRICE_LIMIT
                    && 1 <= *scale && *scale <= PRICE_LIMIT && 1 <= *exposure
                    && *exposure <= MAX_EXPOSURE_LIMIT) {
                    return None;
                }
                Some(GearHedger::buyer(*price0, *price1, *scale, *scale, *exposure))
            },
            GAgent::Sell { price0, price1, scale, exposure } => {
                if !(0 <= *price0 && *price0 < *price1 && *price1 <= PRICE_LIMIT
                    && 1 <= *scale && *scale <= PRICE_LIMIT && 1 <= *exposure
                    && *exposure <= MAX_EXPOSURE_LIMIT) {
                    return None;
                }
                Some(GearHedger::seller(*price0, *price1, *scale, *scale, *exposure))
            },
            GAgent::JumpLong { price0, scale, exposure } => {
                if !(0 <= *price0 && *price0 <= PRICE_LIMIT && 1 <= *scale
                    && *scale <= PRICE_LIMIT && 1 <= *exposure
                    && *exposure <= MAX_EXPOSURE_LIMIT) {
                    return None;
                }
                Some(GearHedger::jump(*price0, SCALE, 0, *scale, *scale, *exposure))
            },
            GAgent::Coastline { direction, price0, scale, size, imax } => {
                if !((*direction == 1 || *direction == -1) && 1 <= *imax && 1 <= *scale
                    && *scale <= PRICE_LIMIT && 1 <= *size) {
                    return None;
                }
                if mul_i64_wide(*imax, SCALE) > GEAR_LIMIT as i128 {
                    return None;
                }
                if mul_i64_wide(*size, *imax) > MAX_EXPOSURE_LIMIT as i128 {
                    return None;
                }
                let half: i128 = mul_i64_wide(*imax, *scale);
                if !(half <= *price0 as i128
                    && (*price0 as i128) + half <= PRICE_LIMIT as i128) {
                    return None;
                }
                Some(GearHedger::coastline(*direction, *price0, *scale, *size, *imax))
            },
            GAgent::Segment { price0, exposure0, pricen, exposuren, scale, target } => {
                if !(0 <= *price0 && *price0 < *pricen && *pricen <= PRICE_LIMIT
                    && 1 <= *scale && *scale <= PRICE_LIMIT
                    && -MAX_EXPOSURE_LIMIT <= *exposure0 && *exposure0 <= MAX_EXPOSURE_LIMIT
                    && -MAX_EXPOSURE_LIMIT <= *exposuren && *exposuren <= MAX_EXPOSURE_LIMIT
                    && (*exposure0 != 0 || *exposuren != 0)) {
                    return None;
                }
                Some(GearHedger::segment(*price0, *exposure0, *pricen, *exposuren, *scale,
                    *target))
            },
        }
    }
}


/// The anti-chattering rearm law: a fill that actually trades leaves the
/// sale trip-wire exactly one up-step above the fill price and the
/// purchase trip-wire exactly one down-step below it.
pub proof fn lemma_rearm_after_fill(h: GearHedger, f: OrderFill)
    requires
        h.wf(),
        f.wf(),
        h.traded_units() != 0,
    ensures
        h.after_update_on_fill(f).next_sell_price - f.price == h.scale_up,
        f.price - h.after_update_on_fill(f).next_buy_price == h.scale_down,
        h.after_update_on_fill(f).last_trade_price == f.price,
{
}

/// The quiet-band law: a quote strictly inside the trip-wire band, with
/// the profit target out of reach, changes nothing — the staged trade is
/// untouched and the current exposure is reported back.
pub proof fn lemma_quiet_inside_band(h: GearHedger, t: Tick)
    requires
        h.wf(),
        t.wf(),
        h.next_buy_price < t.ask,
        t.bid < h.next_sell_price,
        !h.takes_profit(t),
    ensures
        h.after_next_exposure(t) == h,
        h.next_exposure_ret(t) == h.pl.exposure,
{
}

/// The profit-take law: once a quote values the position above the
/// target, the next call stages a flat position and returns zero, the
/// agent deactivates, and the closing fill leaves it flat and inactive.
pub proof fn lemma_profit_take(h: GearHedger, t: Tick, f: OrderFill)
    requires
        h.wf(),
        t.wf(),
        h.takes_profit(t),
    ensures
        h.next_exposure_ret(t) == 0,
        h.after_next_exposure(t).tentative_exposure == 0,
        !h.after_next_exposure(t).active,
        h.after_next_exposure(t).after_update_on_fill(f).pl.exposure == 0,
        !h.after_next_exposure(t).after_update_on_fill(f).active,
{
}

} // verus!
