//! Fixed-point scale constants and truncating division.
//!
//! Rust's `/` on machine integers truncates toward zero, while `/` in
//! specifications is Euclidean. `tdiv` is the spec-level mirror of the
//! executable truncating division; every quotient the engine computes is
//! stated through it.

use vstd::prelude::*;

verus! {

/// One whole unit of price or gear, in micro units.
pub const SCALE: i64 = 1_000_000;

/// Largest price the engine accepts, in micro units (a million whole units).
pub const PRICE_LIMIT: i64 = 1_000_000_000_000;

/// Largest gear magnitude the engine accepts, in micro units (one thousand).
pub const GEAR_LIMIT: i64 = 1_000_000_000;

/// Largest exposure magnitude, in instrument units.
pub const UNIT_LIMIT: i64 = 1_000_000_000_000_000_000;

/// Largest exposure cap of a single agent, in instrument units.
pub const MAX_EXPOSURE_LIMIT: i64 = 1_000_000_000_000_000;

/// A profit target standing for "no target": larger than every profit
/// the engine can book.
pub const TARGET_UNBOUNDED: i128 = i128::MAX;

/// Largest profit magnitude, in micro units.
pub const MONEY_LIMIT: i128 = 10_000_000_000_000_000_000_000_000_000_000_000_000;

/// The product of two machine words, computed exactly in a double word.
pub fn mul_i64_wide(a: i64, b: i64) -> (r: i128)
    ensures
        r == (a as int) * (b as int),
        -0x40000000000000000000000000000000 <= r <= 0x40000000000000000000000000000000,
{
    proof {
        assert(-0x40000000000000000000000000000000
            <= (a as int) * (b as int)
            <= 0x40000000000000000000000000000000) by (nonlinear_arith)
            requires
                i64::MIN <= a <= i64::MAX,
                i64::MIN <= b <= i64::MAX,
        ;
    }
    (a as i128) * (b as i128)
}

/// Truncating division (round toward zero), defined for a positive divisor.
pub open spec fn tdiv(a: int, b: int) -> int {
    if a >= 0 {
        a / b
    } else {
        -((-a) / b)
    }
}

/// Truncating division of `a` by a positive `b`, matching `tdiv`.
pub fn div_trunc(a: i128, b: i128) -> (q: i128)
    requires
        b > 0,
        a > i128::MIN,
    ensures
        q == tdiv(a as int, b as int),
{
    if a >= 0 {
        let q: u128 = (a as u128) / (b as u128);
        q as i128
    } else {
        let na: u128 = (-a) as u128;
        let q: u128 = na / (b as u128);
        assert(q <= na < 0x80000000000000000000000000000000u128) by {
            vstd::arithmetic::div_mod::lemma_div_nonincreasing(na as int, b as int);
        }
        -(q as i128)
    }
}

/// The truncating quotient is no larger in magnitude than the exact one:
/// for `0 <= d < w`, `tdiv(d * g, w)` lies between `0` and `g`.
pub proof fn lemma_tdiv_interpolant_bounds(d: int, g: int, w: int)
    requires
        0 <= d < w,
    ensures
        g >= 0 ==> 0 <= tdiv(d * g, w) <= g,
        g < 0 ==> g <= tdiv(d * g, w) <= 0,
{
    if g >= 0 {
        assert(0 <= d * g && d * g <= w * g) by (nonlinear_arith)
            requires 0 <= d < w && g >= 0;
        vstd::arithmetic::div_mod::lemma_div_is_ordered(d * g, w * g, w);
        vstd::arithmetic::div_mod::lemma_div_multiples_vanish(g, w);
        vstd::arithmetic::div_mod::lemma_div_pos_is_pos(d * g, w);
    } else {
        let m = -g;
        assert(d * g == -(d * m) && 0 <= d * m && d * m <= w * m)
            by (nonlinear_arith)
            requires 0 <= d < w && m == -g && g < 0;
        vstd::arithmetic::div_mod::lemma_div_is_ordered(d * m, w * m, w);
        vstd::arithmetic::div_mod::lemma_div_multiples_vanish(m, w);
        vstd::arithmetic::div_mod::lemma_div_pos_is_pos(d * m, w);
    }
}

/// A truncating quotient never grows in magnitude and keeps the sign of
/// its dividend.
pub proof fn lemma_tdiv_magnitude(n: int, a: int)
    requires
        a >= 1,
    ensures
        n >= 0 ==> 0 <= tdiv(n, a) <= n,
        n < 0 ==> n <= tdiv(n, a) <= 0,
{
    if n >= 0 {
        vstd::arithmetic::div_mod::lemma_div_pos_is_pos(n, a);
        vstd::arithmetic::div_mod::lemma_div_nonincreasing(n, a);
    } else {
        vstd::arithmetic::div_mod::lemma_div_pos_is_pos(-n, a);
        vstd::arithmetic::div_mod::lemma_div_nonincreasing(-n, a);
    }
}

/// Scaling a ratio of at most one: for `|n| <= d`, the truncating
/// quotient `tdiv(n * s, d)` lies within `s` in magnitude.
pub proof fn lemma_tdiv_scaled_ratio(n: int, d: int, s: int)
    requires
        d >= 1,
        s >= 1,
        -d <= n <= d,
    ensures
        -s <= tdiv(n * s, d) <= s,
{
    if n >= 0 {
        assert(0 <= n * s <= d * s) by (nonlinear_arith)
            requires 0 <= n <= d && s >= 1;
        vstd::arithmetic::div_mod::lemma_div_is_ordered(n * s, d * s, d);
        vstd::arithmetic::div_mod::lemma_div_multiples_vanish(s, d);
        vstd::arithmetic::div_mod::lemma_div_pos_is_pos(n * s, d);
    } else {
        let m = -n;
        assert(n * s == -(m * s) && 0 <= m * s && m * s <= d * s) by (nonlinear_arith)
            requires 0 < m <= d && s >= 1 && m == -n;
        vstd::arithmetic::div_mod::lemma_div_is_ordered(m * s, d * s, d);
        vstd::arithmetic::div_mod::lemma_div_multiples_vanish(s, d);
        vstd::arithmetic::div_mod::lemma_div_pos_is_pos(m * s, d);
    }
}

/// Dividing a product by `SCALE`-sized steps: for `|g| <= gl` and
/// `0 <= m`, the quotient `tdiv(g * m, s)` lies within `(gl / s) * m`
/// when `s` divides `gl`.
pub proof fn lemma_tdiv_product_cap(g: int, m: int, s: int, gl: int)
    requires
        s >= 1,
        m >= 0,
        gl >= 0,
        gl % s == 0,
        -gl <= g <= gl,
    ensures
        -(gl / s) * m <= tdiv(g * m, s) <= (gl / s) * m,
{
    let cap = gl / s;
    vstd::arithmetic::div_mod::lemma_fundamental_div_mod(gl, s);
    vstd::arithmetic::div_mod::lemma_div_pos_is_pos(gl, s);
    assert(gl == s * cap);
    assert((-cap) * m <= 0 && 0 <= cap * m && (-cap) * m == -(cap * m))
        by (nonlinear_arith)
        requires cap >= 0 && m >= 0;
    if g >= 0 {
        assert(0 <= g * m <= (s * cap) * m && (s * cap) * m == s * (cap * m))
            by (nonlinear_arith)
            requires 0 <= g <= s * cap && m >= 0;
        vstd::arithmetic::div_mod::lemma_div_is_ordered(g * m, s * (cap * m), s);
        vstd::arithmetic::div_mod::lemma_div_multiples_vanish(cap * m, s);
        vstd::arithmetic::div_mod::lemma_div_pos_is_pos(g * m, s);
        assert(cap * m == (gl / s) * m);
    } else {
        let h = -g;
        assert(g * m == -(h * m) && 0 <= h * m <= (s * cap) * m
            && (s * cap) * m == s * (cap * m)) by (nonlinear_arith)
            requires 0 < h <= s * cap && m >= 0 && h == -g;
        vstd::arithmetic::div_mod::lemma_div_is_ordered(h * m, s * (cap * m), s);
        vstd::arithmetic::div_mod::lemma_div_multiples_vanish(cap * m, s);
        vstd::arithmetic::div_mod::lemma_div_pos_is_pos(h * m, s);
        assert((-cap) * m == -(cap * m)) by (nonlinear_arith);
        assert(cap * m == (gl / s) * m);
    }
}

/// A truncating quotient of a weighted sum of two values stays between them:
/// with positive weights `wa`, `wb`, `tdiv(a * wa + b * wb, wa + wb)` lies
/// between `min(a, b)` and `max(a, b)` for nonnegative `a`, `b`.
pub proof fn lemma_tdiv_weighted_mean_bounds(a: int, b: int, wa: int, wb: int)
    requires
        a >= 0,
        b >= 0,
        wa > 0,
        wb > 0,
    ensures
        (if a <= b { a } else { b }) <= tdiv(a * wa + b * wb, wa + wb),
        tdiv(a * wa + b * wb, wa + wb) <= (if a <= b { b } else { a }),
{
    let lo = if a <= b { a } else { b };
    let hi = if a <= b { b } else { a };
    let w = wa + wb;
    assert(lo * w <= a * wa + b * wb <= hi * w) by (nonlinear_arith)
        requires wa > 0 && wb > 0 && lo <= a <= hi && lo <= b <= hi
            && w == wa + wb;
    vstd::arithmetic::div_mod::lemma_div_is_ordered(lo * w, a * wa + b * wb, w);
    vstd::arithmetic::div_mod::lemma_div_is_ordered(a * wa + b * wb, hi * w, w);
    vstd::arithmetic::div_mod::lemma_div_multiples_vanish(lo, w);
    vstd::arithmetic::div_mod::lemma_div_multiples_vanish(hi, w);
    vstd::arithmetic::div_mod::lemma_div_pos_is_pos(a * wa + b * wb, w);
}

} // verus!
