//! Position accounting: running signed exposure, average entry price,
//! realized and unrealized profit.
//!
//! Profit is return-based: closing `de` units at price `x` against an
//! average entry `a` realizes `de * (x / a - 1)` — in micro money,
//! `tdiv(de * (x - a) * SCALE, a)`.

use vstd::prelude::*;
use crate::fixed::{SCALE, PRICE_LIMIT, UNIT_LIMIT, MONEY_LIMIT, tdiv, div_trunc,
    lemma_tdiv_magnitude, lemma_tdiv_weighted_mean_bounds};

verus! {

/// Return-based profit-and-loss of `e` units entered at average price `a`
/// and marked at price `x`, in micro money.
pub open spec fn upl_of(e: int, x: int, a: int) -> int {
    if e == 0 {
        0
    } else {
        tdiv(e * (x - a) * SCALE, a)
    }
}

/// The position accounting record of one agent.
#[derive(Debug, Clone, Copy, PartialEq, Eq, Structural)]
pub struct AgentPL {
    /// Signed position, in instrument units.
    pub exposure: i64,
    /// Volume-weighted average entry price of the held units, micro units.
    pub price_average: i64,
    /// Realized profit so far, micro money.
    pub cum_profit: i128,
    /// Marked-to-market profit of the held units, micro money.
    pub unrealized_pl: i128,
}

impl AgentPL {
    /// A usable record: bounded fields, and a positive average entry
    /// price whenever units are held.
    pub open spec fn wf(self) -> bool {
        &&& -UNIT_LIMIT <= self.exposure <= UNIT_LIMIT
        &&& 0 <= self.price_average <= PRICE_LIMIT
        &&& (self.exposure != 0 ==> 1 <= self.price_average)
        &&& -MONEY_LIMIT <= self.cum_profit <= MONEY_LIMIT
        &&& -MONEY_LIMIT <= self.unrealized_pl <= MONEY_LIMIT
    }

    /// Total profit if the position were liquidated at price `x`.
    pub open spec fn pl_at(self, x: int) -> int {
        self.cum_profit + upl_of(self.exposure as int, x, self.price_average as int)
    }

    /// Average entry price after growing the position by `de` at `x`:
    /// the absolute-units-weighted mean of the old and new legs.
    pub open spec fn avg_after_increase(self, x: int, de: int) -> int {
        tdiv(
            self.price_average * vstd::math::abs(self.exposure as int)
                + x * vstd::math::abs(de),
            vstd::math::abs(self.exposure + de) as int,
        )
    }

    /// The record after growing the position by `de` units at price `x`.
    pub open spec fn after_increase(self, x: int, de: int) -> AgentPL {
        let e = self.exposure + de;
        let a = self.avg_after_increase(x, de);
        AgentPL {
            exposure: e as i64,
            price_average: a as i64,
            cum_profit: self.cum_profit,
            unrealized_pl: upl_of(e, x, a) as i128,
        }
    }

    /// Profit realized by closing `de` units at price `x` against the
    /// current average entry price.
    pub open spec fn profit_of(self, x: int, de: int) -> int {
        tdiv(de * (x - self.price_average) * SCALE, self.price_average as int)
    }

    /// The record after closing `de` units at price `x`: the average is
    /// preserved for the residual, profit accrues.
    pub open spec fn after_decrease(self, x: int, de: int) -> AgentPL {
        let e = self.exposure - de;
        AgentPL {
            exposure: e as i64,
            price_average: self.price_average,
            cum_profit: (self.cum_profit + self.profit_of(x, de)) as i128,
            unrealized_pl: upl_of(e, x, self.price_average as int) as i128,
        }
    }

    /// Profit realized by a buy of `units` at price `x`: nothing on the
    /// long side, the closed short leg otherwise.
    pub open spec fn buy_profit(self, x: int, units: int) -> int {
        if self.exposure >= 0 {
            0
        } else if units > -self.exposure {
            self.profit_of(x, self.exposure as int)
        } else {
            self.profit_of(x, -units)
        }
    }

    /// The record after a buy of `units` at price `x`: grow when flat or
    /// long, close when short, close fully then reopen long on a crossing.
    pub open spec fn after_buy(self, x: int, units: int) -> AgentPL {
        if self.exposure >= 0 {
            self.after_increase(x, units)
        } else if units > -self.exposure {
            self.after_decrease(x, self.exposure as int).after_increase(
                x,
                units + self.exposure,
            )
        } else {
            self.after_decrease(x, -units)
        }
    }

    /// Profit realized by a sale of `units` at price `x`.
    pub open spec fn sell_profit(self, x: int, units: int) -> int {
        if self.exposure <= 0 {
            0
        } else if units > self.exposure {
            self.profit_of(x, self.exposure as int)
        } else {
            self.profit_of(x, units)
        }
    }

    /// The record after a sale of `units` at price `x`, mirroring
    /// `after_buy`.
    pub open spec fn after_sell(self, x: int, units: int) -> AgentPL {
        if self.exposure <= 0 {
            self.after_increase(x, -units)
        } else if units > self.exposure {
            self.after_decrease(x, self.exposure as int).after_increase(
                x,
                -(units - self.exposure),
            )
        } else {
            self.after_decrease(x, units)
        }
    }
}

/// The profit one closing trade can realize is bounded: well-formed
/// accounting books strictly less than `MONEY_LIMIT` per fill.
pub proof fn lemma_fill_profit_bound(pl: AgentPL, x: int, units: int)
    requires
        pl.wf(),
        0 <= x <= PRICE_LIMIT,
        -UNIT_LIMIT <= units <= UNIT_LIMIT,
    ensures
        -MONEY_LIMIT < pl.buy_profit(x, units) < MONEY_LIMIT,
        -MONEY_LIMIT < pl.sell_profit(x, units) < MONEY_LIMIT,
{
    if pl.exposure != 0 {
        lemma_profit_of_bound(pl, x, pl.exposure as int);
        lemma_profit_of_bound(pl, x, -units);
        lemma_profit_of_bound(pl, x, units);
    }
}

/// Magnitude bound for the profit of one closing trade.
proof fn lemma_profit_of_bound(pl: AgentPL, x: int, de: int)
    requires
        pl.wf(),
        pl.exposure != 0,
        0 <= x <= PRICE_LIMIT,
        -UNIT_LIMIT <= de <= UNIT_LIMIT,
    ensures
        -MONEY_LIMIT < pl.profit_of(x, de) < MONEY_LIMIT,
{
    let a = pl.price_average as int;
    let diff = x - a;
    assert(-(UNIT_LIMIT as int) * (PRICE_LIMIT as int)
        <= de * diff
        <= (UNIT_LIMIT as int) * (PRICE_LIMIT as int)) by (nonlinear_arith)
        requires
            -UNIT_LIMIT <= de <= UNIT_LIMIT,
            -(PRICE_LIMIT as int) <= diff <= PRICE_LIMIT as int,
    ;
    assert(-(UNIT_LIMIT as int) * (PRICE_LIMIT as int) * (SCALE as int)
        <= de * diff * (SCALE as int)
        <= (UNIT_LIMIT as int) * (PRICE_LIMIT as int) * (SCALE as int))
        by (nonlinear_arith)
        requires
            -(UNIT_LIMIT as int) * (PRICE_LIMIT as int)
                <= de * diff
                <= (UNIT_LIMIT as int) * (PRICE_LIMIT as int),
    ;
    lemma_tdiv_magnitude(de * diff * (SCALE as int), a);
}

/// Marked-to-market profit of `e` units entered at `a`, priced at `x`.
fn upl_exec(e: i64, x: i64, a: i64) -> (r: i128)
    requires
        -UNIT_LIMIT <= e <= UNIT_LIMIT,
        0 <= x <= PRICE_LIMIT,
        0 <= a <= PRICE_LIMIT,
        e != 0 ==> a >= 1,
    ensures
        r == upl_of(e as int, x as int, a as int),
        -MONEY_LIMIT < r < MONEY_LIMIT,
{
    if e == 0 {
        return 0;
    }
    let diff: i64 = x - a;
    proof {
        assert(-(UNIT_LIMIT as int) * (PRICE_LIMIT as int)
            <= (e as int) * (diff as int)
            <= (UNIT_LIMIT as int) * (PRICE_LIMIT as int)) by (nonlinear_arith)
            requires
                -UNIT_LIMIT <= e <= UNIT_LIMIT,
                -PRICE_LIMIT <= diff <= PRICE_LIMIT,
        ;
        assert(-(UNIT_LIMIT as int) * (PRICE_LIMIT as int) * (SCALE as int)
            <= (e as int) * (diff as int) * (SCALE as int)
            <= (UNIT_LIMIT as int) * (PRICE_LIMIT as int) * (SCALE as int))
            by (nonlinear_arith)
            requires
                -(UNIT_LIMIT as int) * (PRICE_LIMIT as int)
                    <= (e as int) * (diff as int)
                    <= (UNIT_LIMIT as int) * (PRICE_LIMIT as int),
        ;
        lemma_tdiv_magnitude((e as int) * (diff as int) * (SCALE as int), a as int);
    }
    let num: i128 = (e as i128) * (diff as i128) * (SCALE as i128);
    div_trunc(num, a as i128)
}

/// Profit realized by closing `de` units at `x` against average entry `a`.
fn profit_exec(de: i64, x: i64, a: i64) -> (r: i128)
    requires
        -UNIT_LIMIT <= de <= UNIT_LIMIT,
        0 <= x <= PRICE_LIMIT,
        1 <= a <= PRICE_LIMIT,
    ensures
        r == tdiv((de as int) * ((x - a) as int) * (SCALE as int), a as int),
        -MONEY_LIMIT < r < MONEY_LIMIT,
{
    let diff: i64 = x - a;
    proof {
        assert(-(UNIT_LIMIT as int) * (PRICE_LIMIT as int)
            <= (de as int) * (diff as int)
            <= (UNIT_LIMIT as int) * (PRICE_LIMIT as int)) by (nonlinear_arith)
            requires
                -UNIT_LIMIT <= de <= UNIT_LIMIT,
                -PRICE_LIMIT <= diff <= PRICE_LIMIT,
        ;
        assert(-(UNIT_LIMIT as int) * (PRICE_LIMIT as int) * (SCALE as int)
            <= (de as int) * (diff as int) * (SCALE as int)
            <= (UNIT_LIMIT as int) * (PRICE_LIMIT as int) * (SCALE as int))
            by (nonlinear_arith)
            requires
                -(UNIT_LIMIT as int) * (PRICE_LIMIT as int)
                    <= (de as int) * (diff as int)
                    <= (UNIT_LIMIT as int) * (PRICE_LIMIT as int),
        ;
        lemma_tdiv_magnitude((de as int) * (diff as int) * (SCALE as int), a as int);
    }
    let num: i128 = (de as i128) * (diff as i128) * (SCALE as i128);
    div_trunc(num, a as i128)
}

impl AgentPL {
    /// Total profit at exit price `x`; also refreshes the unrealized
    /// profit field.
    pub fn total_profit(&mut self, x: i64) -> (r: i128)
        requires
            old(self).wf(),
            0 <= x <= PRICE_LIMIT,
        ensures
            *final(self) == (AgentPL {
                unrealized_pl: upl_of(
                    old(self).exposure as int,
                    x as int,
                    old(self).price_average as int,
                ) as i128,
                ..*old(self)
            }),
            final(self).wf(),
            r == old(self).pl_at(x as int),
    {
        let u: i128 = upl_exec(self.exposure, x, self.price_average);
        self.unrealized_pl = u;
        u + self.cum_profit
    }

    /// Total profit if the position were liquidated at price `x`.
    pub fn pl_at_price(&self, x: i64) -> (r: i128)
        requires
            self.wf(),
            0 <= x <= PRICE_LIMIT,
        ensures
            r == self.pl_at(x as int),
    {
        let u: i128 = upl_exec(self.exposure, x, self.price_average);
        self.cum_profit + u
    }

    /// Marked-to-market profit of the held units at price `x`.
    #[allow(non_snake_case)]
    pub fn uPL(&self, x: i64) -> (r: i128)
        requires
            self.wf(),
            0 <= x <= PRICE_LIMIT,
        ensures
            r == upl_of(self.exposure as int, x as int, self.price_average as int),
    {
        upl_exec(self.exposure, x, self.price_average)
    }

    /// Grow the position by `units` in its current direction at price
    /// `x`; the average entry price becomes the weighted mean of the old
    /// and new legs.
    pub fn increase_by(&mut self, x: i64, units: i64)
        requires
            old(self).wf(),
            1 <= x <= PRICE_LIMIT,
            units != 0,
            old(self).exposure == 0 || ((old(self).exposure > 0) == (units > 0)),
            -UNIT_LIMIT <= old(self).exposure + units <= UNIT_LIMIT,
        ensures
            *final(self) == old(self).after_increase(x as int, units as int),
            final(self).wf(),
            final(self).exposure == old(self).exposure + units,
            final(self).price_average == old(self).avg_after_increase(x as int, units as int),
            final(self).cum_profit == old(self).cum_profit,
    {
        let de: i64 = units;
        let e: i64 = self.exposure + de;
        let ea: i64 = if self.exposure >= 0 { self.exposure } else { -self.exposure };
        let dea: i64 = if de >= 0 { de } else { -de };
        let esa: i64 = if e >= 0 { e } else { -e };
        assert(esa == ea + dea);
        proof {
            assert((self.price_average as int) * (ea as int)
                <= (PRICE_LIMIT as int) * (UNIT_LIMIT as int)
                && 0 <= (self.price_average as int) * (ea as int)) by (nonlinear_arith)
                requires
                    0 <= self.price_average <= PRICE_LIMIT,
                    0 <= ea <= UNIT_LIMIT,
            ;
            assert((x as int) * (dea as int) <= (PRICE_LIMIT as int) * (UNIT_LIMIT as int)
                && 0 <= (x as int) * (dea as int)) by (nonlinear_arith)
                requires
                    0 <= x <= PRICE_LIMIT,
                    0 <= dea <= UNIT_LIMIT,
            ;
        }
        let num: i128 = (self.price_average as i128) * (ea as i128)
            + (x as i128) * (dea as i128);
        let a: i128 = if self.exposure == 0 {
            proof {
                vstd::arithmetic::div_mod::lemma_div_multiples_vanish(x as int, dea as int);
                assert((x as int) * (dea as int) == (dea as int) * (x as int))
                    by (nonlinear_arith);
            }
            div_trunc(num, dea as i128)
        } else {
            proof {
                lemma_tdiv_weighted_mean_bounds(
                    self.price_average as int,
                    x as int,
                    ea as int,
                    dea as int,
                );
            }
            div_trunc(num, esa as i128)
        };
        let an: i64 = a as i64;
        let u: i128 = upl_exec(e, x, an);
        self.exposure = e;
        self.price_average = an;
        self.unrealized_pl = u;
    }

    /// Close `units` of the position at price `x` against the average
    /// entry price; profit accrues and the average is preserved for the
    /// residual.
    pub fn decrease_by(&mut self, x: i64, units: i64)
        requires
            old(self).wf(),
            1 <= x <= PRICE_LIMIT,
            units != 0,
            old(self).exposure != 0,
            (old(self).exposure > 0) == (units > 0),
            vstd::math::abs(units as int) <= vstd::math::abs(old(self).exposure as int),
            -MONEY_LIMIT <= old(self).cum_profit + old(self).profit_of(x as int, units as int)
                <= MONEY_LIMIT,
        ensures
            *final(self) == old(self).after_decrease(x as int, units as int),
            final(self).wf(),
            final(self).exposure == old(self).exposure - units,
            final(self).price_average == old(self).price_average,
            final(self).cum_profit == old(self).cum_profit
                + old(self).profit_of(x as int, units as int),
    {
        let de: i64 = units;
        let e: i64 = self.exposure - de;
        let pi: i128 = profit_exec(de, x, self.price_average);
        let u: i128 = upl_exec(e, x, self.price_average);
        self.exposure = e;
        self.cum_profit = self.cum_profit + pi;
        self.unrealized_pl = u;
    }

    /// Buy `units` at price `x`: grow when flat or long; close the short
    /// side otherwise, fully realizing and reopening long past a sign
    /// flip.
    pub fn buy(&mut self, x: i64, units: i64)
        requires
            old(self).wf(),
            1 <= x <= PRICE_LIMIT,
            units > 0,
            old(self).exposure + units <= UNIT_LIMIT,
            -MONEY_LIMIT <= old(self).cum_profit + old(self).buy_profit(x as int, units as int)
                <= MONEY_LIMIT,
        ensures
            *final(self) == old(self).after_buy(x as int, units as int),
            final(self).wf(),
            final(self).exposure == old(self).exposure + units,
            final(self).cum_profit == old(self).cum_profit
                + old(self).buy_profit(x as int, units as int),
    {
        if self.exposure >= 0 {
            self.increase_by(x, units);
        } else if units > -self.exposure {
            let delta: i64 = units + self.exposure;
            let whole: i64 = self.exposure;
            self.decrease_by(x, whole);
            self.increase_by(x, delta);
        } else {
            self.decrease_by(x, -units);
        }
    }

    /// Sell `units` at price `x`, mirroring `buy`.
    pub fn sell(&mut self, x: i64, units: i64)
        requires
            old(self).wf(),
            1 <= x <= PRICE_LIMIT,
            units > 0,
            -UNIT_LIMIT <= old(self).exposure - units,
            -MONEY_LIMIT <= old(self).cum_profit + old(self).sell_profit(x as int, units as int)
                <= MONEY_LIMIT,
        ensures
            *final(self) == old(self).after_sell(x as int, units as int),
            final(self).wf(),
            final(self).exposure == old(self).exposure - units,
            final(self).cum_profit == old(self).cum_profit
                + old(self).sell_profit(x as int, units as int),
    {
        if self.exposure <= 0 {
            self.increase_by(x, -units);
        } else if units > self.exposure {
            let delta: i64 = units - self.exposure;
            let whole: i64 = self.exposure;
            self.decrease_by(x, whole);
            self.increase_by(x, -delta);
        } else {
            self.decrease_by(x, units);
        }
    }
}


/// One trade instruction: a side, a price and a unit count.
#[derive(Debug, Clone, Copy, PartialEq, Eq, Structural)]
pub struct Trade {
    /// True for a buy, false for a sale.
    pub buy: bool,
    /// Trade price, micro units.
    pub price: i64,
    /// Units traded, positive.
    pub units: i64,
}

/// The signed volume of one trade.
pub open spec fn trade_delta(t: Trade) -> int {
    if t.buy {
        t.units as int
    } else {
        -(t.units as int)
    }
}

/// The accounting after a sequence of buys and sells.
pub open spec fn pl_after_trades(pl: AgentPL, ts: Seq<Trade>) -> AgentPL
    decreases ts.len(),
{
    if ts.len() == 0 {
        pl
    } else {
        let next = (if ts[0].buy {
            pl.after_buy(ts[0].price as int, ts[0].units as int)
        } else {
            pl.after_sell(ts[0].price as int, ts[0].units as int)
        });
        pl_after_trades(next, ts.drop_first())
    }
}

/// The signed volume of a trade sequence: buys count positive, sales
/// negative.
pub open spec fn net_units(ts: Seq<Trade>) -> int
    decreases ts.len(),
{
    if ts.len() == 0 {
        0
    } else {
        trade_delta(ts[0]) + net_units(ts.drop_first())
    }
}

/// The profit one trade of the sequence realizes against the book it
/// meets.
pub open spec fn trade_profit(pl: AgentPL, t: Trade) -> int {
    if t.buy {
        pl.buy_profit(t.price as int, t.units as int)
    } else {
        pl.sell_profit(t.price as int, t.units as int)
    }
}

/// Every step of the sequence keeps the running exposure within the
/// engine's range and the profit book within the money range.
pub open spec fn trades_fit(pl: AgentPL, ts: Seq<Trade>) -> bool
    decreases ts.len(),
{
    if ts.len() == 0 {
        true
    } else {
        let next = (if ts[0].buy {
            pl.after_buy(ts[0].price as int, ts[0].units as int)
        } else {
            pl.after_sell(ts[0].price as int, ts[0].units as int)
        });
        &&& -UNIT_LIMIT <= pl.exposure + trade_delta(ts[0]) <= UNIT_LIMIT
        &&& -UNIT_LIMIT <= pl.exposure <= UNIT_LIMIT
        &&& -MONEY_LIMIT <= pl.cum_profit + trade_profit(pl, ts[0]) <= MONEY_LIMIT
        &&& trades_fit(next, ts.drop_first())
    }
}

/// The summed profit the sequence realizes, each trade booked against
/// the average entry price it finds.
pub open spec fn realized_sum(pl: AgentPL, ts: Seq<Trade>) -> int
    decreases ts.len(),
{
    if ts.len() == 0 {
        0
    } else {
        let next = (if ts[0].buy {
            pl.after_buy(ts[0].price as int, ts[0].units as int)
        } else {
            pl.after_sell(ts[0].price as int, ts[0].units as int)
        });
        trade_profit(pl, ts[0]) + realized_sum(next, ts.drop_first())
    }
}

/// Exposure follows signed volume: after any sequence of buys and sells
/// whose running totals stay in range, the exposure moves by exactly the
/// net signed volume. In particular a sequence whose net volume is zero
/// leaves a flat book flat.
pub proof fn lemma_exposure_follows_net_volume(ts: Seq<Trade>, pl: AgentPL)
    requires
        trades_fit(pl, ts),
    ensures
        pl_after_trades(pl, ts).exposure == pl.exposure + net_units(ts),
        (pl.exposure == 0 && net_units(ts) == 0 ==> pl_after_trades(pl, ts).exposure == 0),
    decreases ts.len(),
{
    if ts.len() > 0 {
        let next = (if ts[0].buy {
            pl.after_buy(ts[0].price as int, ts[0].units as int)
        } else {
            pl.after_sell(ts[0].price as int, ts[0].units as int)
        });
        assert(next.exposure == pl.exposure + trade_delta(ts[0]));
        lemma_exposure_follows_net_volume(ts.drop_first(), next);
    }
}


/// The sequence-level profit law: over any in-range sequence of buys and
/// sells, the realized profit grows by exactly the sum of the per-trade
/// returns, each closing leg booked against the volume-weighted average
/// entry of the side it closes.
pub proof fn lemma_profit_sums_closings(ts: Seq<Trade>, pl: AgentPL)
    requires
        trades_fit(pl, ts),
    ensures
        pl_after_trades(pl, ts).cum_profit == pl.cum_profit + realized_sum(pl, ts),
    decreases ts.len(),
{
    if ts.len() > 0 {
        let next = (if ts[0].buy {
            pl.after_buy(ts[0].price as int, ts[0].units as int)
        } else {
            pl.after_sell(ts[0].price as int, ts[0].units as int)
        });
        assert(next.cum_profit == pl.cum_profit + trade_profit(pl, ts[0]));
        lemma_profit_sums_closings(ts.drop_first(), next);
    }
}

/// The round-trip law: opening `units` from a flat book at price `p` and
/// closing them all at price `q` leaves the book flat and books exactly
/// the return-based profit `units * (q - p) * SCALE / p`.
pub proof fn lemma_round_trip_profit(pl: AgentPL, p: i64, q: i64, units: i64)
    requires
        pl.exposure == 0,
        pl.cum_profit == 0,
        1 <= p <= PRICE_LIMIT,
        1 <= q <= PRICE_LIMIT,
        1 <= units <= UNIT_LIMIT,
    ensures
        ({
            let closed = pl.after_buy(p as int, units as int).after_sell(q as int, units as int);
            &&& closed.exposure == 0
            &&& closed.cum_profit == tdiv(units * (q - p) * SCALE, p as int)
        }),
{
    let a = pl.avg_after_increase(p as int, units as int);
    assert(vstd::math::abs(pl.exposure as int) == 0);
    assert(vstd::math::abs(units as int) == units);
    assert(vstd::math::abs(pl.exposure + units) == units);
    assert(pl.price_average * 0 == 0) by (nonlinear_arith);
    assert(a == tdiv(p * units, units as int));
    assert(tdiv(p * units, units as int) == p) by {
        assert(p * units == units * p && 0 <= p * units) by (nonlinear_arith)
            requires p >= 1 && units >= 1;
        vstd::arithmetic::div_mod::lemma_div_multiples_vanish(p as int, units as int);
    }
    let opened = pl.after_buy(p as int, units as int);
    assert(opened.price_average == p);
    assert(opened.exposure == units);
    assert(upl_of(units as int, p as int, p as int) == 0) by {
        assert((units as int) * ((p - p) as int) * (SCALE as int) == 0) by (nonlinear_arith);
        vstd::arithmetic::div_mod::lemma_div_of0(p as int);
    }
    assert(opened.wf());
    lemma_profit_of_bound(opened, q as int, units as int);
    assert(opened.profit_of(q as int, units as int)
        == tdiv(units * (q - p) * SCALE, p as int));
}

} // verus!
