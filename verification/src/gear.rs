//! The gear function: a piecewise-linear map from price to a gear value.
//!
//! A `Gear` clamps to `g_0` below `p_0`, to `g_n` at or above `p_n`, and
//! interpolates linearly over a contiguous run of half-open ranges in
//! between. Prices and gear values are micro units; a gear of one whole
//! unit (`SCALE`) stands for 1.0.

use vstd::prelude::*;
use crate::fixed::{SCALE, PRICE_LIMIT, GEAR_LIMIT, tdiv, div_trunc, lemma_tdiv_interpolant_bounds};

verus! {

/// One interpolation range `[p_start, p_end)` with its endpoint gears.
#[derive(Debug, Clone, Copy, PartialEq, Eq, Structural)]
pub struct GearRange {
    pub p_start: i64,
    pub g_start: i64,
    pub p_end: i64,
    pub g_end: i64,
}

impl GearRange {
    /// A usable range: nonempty, within the price band, gears in range.
    pub open spec fn wf(self) -> bool {
        &&& 0 <= self.p_start < self.p_end <= PRICE_LIMIT
        &&& -GEAR_LIMIT <= self.g_start <= GEAR_LIMIT
        &&& -GEAR_LIMIT <= self.g_end <= GEAR_LIMIT
    }

    /// Linear interpolation across the range; the quotient is truncated
    /// toward zero.
    pub open spec fn gear_at(self, x: int) -> int {
        self.g_start + tdiv(
            (x - self.p_start) * (self.g_end - self.g_start),
            self.p_end - self.p_start,
        )
    }

    fn g(&self, x: i64) -> (r: i64)
        requires
            self.wf(),
            self.p_start <= x < self.p_end,
        ensures
            r == self.gear_at(x as int),
            self.g_start <= self.g_end ==> self.g_start <= r <= self.g_end,
            self.g_end <= self.g_start ==> self.g_end <= r <= self.g_start,
    {
        let d: i64 = x - self.p_start;
        let w: i64 = self.p_end - self.p_start;
        let dg: i64 = self.g_end - self.g_start;
        proof {
            lemma_tdiv_interpolant_bounds(d as int, dg as int, w as int);
            assert(-2 * (PRICE_LIMIT as int) * (GEAR_LIMIT as int)
                <= (d as int) * (dg as int)
                <= 2 * (PRICE_LIMIT as int) * (GEAR_LIMIT as int)) by (nonlinear_arith)
                requires
                    0 <= d <= PRICE_LIMIT,
                    -2 * (GEAR_LIMIT as int) <= dg <= 2 * (GEAR_LIMIT as int),
            ;
        }
        let t: i128 = div_trunc((d as i128) * (dg as i128), w as i128);
        self.g_start + (t as i64)
    }
}

/// The gear of the first range of `s` that covers `x`, or zero when no
/// range does.
pub open spec fn eval_ranges(s: Seq<GearRange>, x: int) -> int
    decreases s.len(),
{
    if s.len() == 0 {
        0
    } else if s[0].p_start <= x && x < s[0].p_end {
        s[0].gear_at(x)
    } else {
        eval_ranges(s.drop_first(), x)
    }
}

/// The gear of every covering range lies within `b` when every range's
/// endpoint gears do.
proof fn lemma_eval_ranges_bound(s: Seq<GearRange>, x: int, b: int)
    requires
        b >= 0,
        forall|i: int| 0 <= i < s.len() ==> (#[trigger] s[i]).wf(),
        forall|i: int| 0 <= i < s.len()
            ==> -b <= (#[trigger] s[i]).g_start <= b && -b <= s[i].g_end <= b,
    ensures
        -b <= eval_ranges(s, x) <= b,
    decreases s.len(),
{
    if s.len() == 0 {
    } else if s[0].p_start <= x && x < s[0].p_end {
        lemma_tdiv_interpolant_bounds(
            x - s[0].p_start,
            s[0].g_end - s[0].g_start,
            s[0].p_end - s[0].p_start,
        );
    } else {
        assert(forall|i: int| 0 <= i < s.drop_first().len()
            ==> #[trigger] s.drop_first()[i] == s[i + 1]);
        lemma_eval_ranges_bound(s.drop_first(), x, b);
    }
}

/// The gear curve: clamp regions outside `[p_0, p_n)` and a contiguous
/// run of interpolation ranges inside.
#[derive(Debug, Clone)]
pub struct Gear {
    /// Below `p_0` the gear is fixed at `g_0`.
    pub p_0: i64,
    pub g_0: i64,
    /// Ascending, contiguous ranges covering `[p_0, p_n)`.
    pub g_i: Vec<GearRange>,
    /// At or above `p_n` the gear is fixed at `g_n`.
    pub p_n: i64,
    pub g_n: i64,
}

impl Gear {
    /// A usable curve: ranges cover `[p_0, p_n)` contiguously and without
    /// overlap, and the first and last range agree with the clamp gears.
    pub open spec fn wf(self) -> bool {
        &&& 0 <= self.p_0 <= self.p_n <= PRICE_LIMIT
        &&& -GEAR_LIMIT <= self.g_0 <= GEAR_LIMIT
        &&& -GEAR_LIMIT <= self.g_n <= GEAR_LIMIT
        &&& forall|i: int| 0 <= i < self.g_i@.len() ==> (#[trigger] self.g_i@[i]).wf()
        &&& (self.g_i@.len() == 0 ==> self.p_0 == self.p_n)
        &&& (self.g_i@.len() > 0 ==> {
            &&& self.g_i@[0].p_start == self.p_0
            &&& self.g_i@[self.g_i@.len() - 1].p_end == self.p_n
            &&& self.g_i@[0].g_start == self.g_0
            &&& self.g_i@[self.g_i@.len() - 1].g_end == self.g_n
        })
        &&& forall|i: int| 0 <= i < self.g_i@.len() - 1
            ==> (#[trigger] self.g_i@[i]).p_end == self.g_i@[i + 1].p_start
    }

    /// The gear at price `x`: clamp, then the covering range.
    pub open spec fn eval(self, x: int) -> int {
        if x < self.p_0 {
            self.g_0 as int
        } else if x >= self.p_n {
            self.g_n as int
        } else {
            eval_ranges(self.g_i@, x)
        }
    }

    /// Evaluate the curve at price `x`.
    pub fn g(&self, x: i64) -> (r: i64)
        requires
            self.wf(),
        ensures
            r == self.eval(x as int),
            -GEAR_LIMIT <= r <= GEAR_LIMIT,
    {
        proof {
            lemma_gear_eval_bounded(*self, x as int);
        }
        if x < self.p_0 {
            return self.g_0;
        }
        if x >= self.p_n {
            return self.g_n;
        }
        let n: usize = self.g_i.len();
        let mut i: usize = 0;
        proof {
            assert(self.g_i@.skip(0) =~= self.g_i@);
        }
        while i < n
            invariant
                self.wf(),
                i <= n,
                n == self.g_i@.len(),
                self.p_0 <= x < self.p_n,
                i < n ==> x >= self.g_i@[i as int].p_start,
                eval_ranges(self.g_i@, x as int)
                    == eval_ranges(self.g_i@.skip(i as int), x as int),
            decreases n - i,
        {
            let rg: GearRange = self.g_i[i];
            if x < rg.p_end {
                assert(eval_ranges(self.g_i@.skip(i as int), x as int)
                    == rg.gear_at(x as int)) by {
                    assert(self.g_i@.skip(i as int)[0] == rg);
                }
                return rg.g(x);
            }
            proof {
                let s = self.g_i@.skip(i as int);
                assert(s[0] == self.g_i@[i as int]);
                assert(s.drop_first() =~= self.g_i@.skip(i as int + 1));
                if i + 1 < n {
                    assert(self.g_i@[i as int].p_end == self.g_i@[i as int + 1].p_start);
                }
            }
            i = i + 1;
        }
        0
    }

    /// One-sided curve: a gear of one at or below `price0`, tapering
    /// linearly to zero at `price1`, flat above.
    pub fn positive(price0: i64, price1: i64) -> (r: Gear)
        requires
            0 <= price0 < price1 <= PRICE_LIMIT,
        ensures
            r.wf(),
            r.p_0 == price0 && r.g_0 == SCALE && r.p_n == price1 && r.g_n == 0,
            r.g_i@.len() == 1,
            r.g_i@[0] == (GearRange {
                p_start: price0,
                g_start: SCALE,
                p_end: price1,
                g_end: 0,
            }),
    {
        Gear {
            p_0: price0,
            g_0: SCALE,
            g_i: vec![GearRange { p_start: price0, g_start: SCALE, p_end: price1, g_end: 0 }],
            p_n: price1,
            g_n: 0,
        }
    }

    /// One-sided curve: flat at zero below `price0`, falling linearly to
    /// minus one at `price1`, clamped there above.
    pub fn negative(price0: i64, price1: i64) -> (r: Gear)
        requires
            0 <= price0 < price1 <= PRICE_LIMIT,
        ensures
            r.wf(),
            r.p_0 == price0 && r.g_0 == 0 && r.p_n == price1 && r.g_n == -SCALE,
            r.g_i@.len() == 1,
            r.g_i@[0] == (GearRange {
                p_start: price0,
                g_start: 0,
                p_end: price1,
                g_end: (-SCALE) as i64,
            }),
    {
        let floor: i64 = -SCALE;
        Gear {
            p_0: price0,
            g_0: 0,
            g_i: vec![GearRange { p_start: price0, g_start: 0, p_end: price1, g_end: floor }],
            p_n: price1,
            g_n: floor,
        }
    }

    /// A constant curve: plus one everywhere when `dir` is positive, minus
    /// one everywhere otherwise.
    pub fn constant(dir: i64) -> (r: Gear)
        ensures
            r.wf(),
            r.g_i@.len() == 0,
            dir > 0 ==> r.g_0 == SCALE && r.g_n == SCALE,
            dir <= 0 ==> r.g_0 == -SCALE && r.g_n == -SCALE,
            r.p_0 == SCALE && r.p_n == SCALE,
    {
        let g: i64 = if dir > 0 { SCALE } else { -SCALE };
        Gear { p_0: SCALE, g_0: g, g_i: Vec::new(), p_n: SCALE, g_n: g }
    }

    /// The canonical long-below / short-above curve: plus one at `price0`,
    /// minus one at `price1`.
    pub fn symmetric(price0: i64, price1: i64) -> (r: Gear)
        requires
            0 <= price0 < price1 <= PRICE_LIMIT,
        ensures
            r.wf(),
            r.p_0 == price0 && r.g_0 == SCALE && r.p_n == price1 && r.g_n == -SCALE,
            r.g_i@.len() == 1,
            r.g_i@[0] == (GearRange {
                p_start: price0,
                g_start: SCALE,
                p_end: price1,
                g_end: (-SCALE) as i64,
            }),
    {
        let floor: i64 = -SCALE;
        Gear {
            p_0: price0,
            g_0: SCALE,
            g_i: vec![
                GearRange { p_start: price0, g_start: SCALE, p_end: price1, g_end: floor },
            ],
            p_n: price1,
            g_n: floor,
        }
    }

    /// An arbitrary line between two endpoint gears, clamped outside.
    pub fn segment(price0: i64, g0: i64, pricen: i64, gn: i64) -> (r: Gear)
        requires
            0 <= price0 < pricen <= PRICE_LIMIT,
            -GEAR_LIMIT <= g0 <= GEAR_LIMIT,
            -GEAR_LIMIT <= gn <= GEAR_LIMIT,
        ensures
            r.wf(),
            r.p_0 == price0 && r.g_0 == g0 && r.p_n == pricen && r.g_n == gn,
            r.g_i@.len() == 1,
            r.g_i@[0] == (GearRange {
                p_start: price0,
                g_start: g0,
                p_end: pricen,
                g_end: gn,
            }),
    {
        Gear {
            p_0: price0,
            g_0: g0,
            g_i: vec![GearRange { p_start: price0, g_start: g0, p_end: pricen, g_end: gn }],
            p_n: pricen,
            g_n: gn,
        }
    }

    /// A step: gear `g0` strictly below `price0`, `g1` at or above.
    pub fn jump(price0: i64, g0: i64, g1: i64) -> (r: Gear)
        requires
            0 <= price0 <= PRICE_LIMIT,
            -GEAR_LIMIT <= g0 <= GEAR_LIMIT,
            -GEAR_LIMIT <= g1 <= GEAR_LIMIT,
        ensures
            r.wf(),
            r.p_0 == price0 && r.g_0 == g0 && r.p_n == price0 && r.g_n == g1,
            r.g_i@.len() == 0,
    {
        Gear { p_0: price0, g_0: g0, g_i: Vec::new(), p_n: price0, g_n: g1 }
    }

    /// The coastline shape: a line from a gear of `i_max * direction` at
    /// `price0 - i_max * scale` down to its negation at
    /// `price0 + i_max * scale`, clamped outside.
    pub fn coastline(direction: i64, price0: i64, scale: i64, imax: i64) -> (r: Gear)
        requires
            direction == 1 || direction == -1,
            1 <= imax,
            imax * SCALE <= GEAR_LIMIT,
            1 <= scale,
            imax * scale <= price0,
            price0 + imax * scale <= PRICE_LIMIT,
        ensures
            r.wf(),
            r.p_0 == price0 - imax * scale,
            r.p_n == price0 + imax * scale,
            r.g_0 == direction * imax * SCALE,
            r.g_n == -(direction * imax * SCALE),
            r.g_i@.len() == 1,
    {
        proof {
            assert(1 <= imax * scale && SCALE <= imax * SCALE) by (nonlinear_arith)
                requires
                    1 <= imax,
                    1 <= scale,
            ;
            assert(1 * (imax * (SCALE as int)) == imax * (SCALE as int))
                by (nonlinear_arith);
            assert(-1 * (imax * (SCALE as int)) == -(imax * (SCALE as int)))
                by (nonlinear_arith);
        }
        let width: i64 = imax * scale;
        let gmag: i64 = imax * SCALE;
        let top: i64 = if direction == 1 { gmag } else { -gmag };
        Gear::segment(price0 - width, top, price0 + width, -top)
    }
}

/// The gear function never leaves the gear band: under well-formedness
/// its value at every price lies within `GEAR_LIMIT` in magnitude.
pub proof fn lemma_gear_eval_bounded(g: Gear, x: int)
    requires
        g.wf(),
    ensures
        -GEAR_LIMIT <= g.eval(x) <= GEAR_LIMIT,
{
    if g.p_0 <= x < g.p_n {
        lemma_eval_ranges_bound(g.g_i@, x, GEAR_LIMIT as int);
    }
}

/// At the lower clamp price the gear equals `g_0`; at the upper clamp
/// price it equals `g_n`.
pub proof fn lemma_gear_endpoints(g: Gear)
    requires
        g.wf(),
    ensures
        g.eval(g.p_n as int) == g.g_n,
        g.p_0 < g.p_n ==> g.eval(g.p_0 as int) == g.g_0,
{
    if g.p_0 < g.p_n {
        let s = g.g_i@;
        assert(s.len() > 0);
        assert(s[0].p_start == g.p_0 && g.p_0 < s[0].p_end);
        assert(tdiv(0, s[0].p_end - s[0].p_start) == 0) by {
            vstd::arithmetic::div_mod::lemma_div_of0(s[0].p_end - s[0].p_start);
        }
        assert((g.p_0 - s[0].p_start) * (s[0].g_end - s[0].g_start) == 0);
        assert(g.eval(g.p_0 as int) == s[0].gear_at(g.p_0 as int));
    }
}

} // verus!
