//! Laws of the quoting and share algebra that tie several operations
//! together: the safety margin of a forward/reverse quote round trip, and
//! the exact payout of a first-deposit/withdraw round trip.

use vstd::prelude::*;
use crate::math::ceil_div;
use crate::quotes::{spec_get_amount_out, spec_get_amount_in};

verus! {

proof fn lemma_ceil_div_char(a: int, b: int, q: int)
    requires
        0 < b,
        b * (q - 1) < a,
        a <= b * q,
    ensures
        ceil_div(a, b) == q,
{
    let r = a + b - 1 - b * q;
    assert(b * (q - 1) == b * q - b) by (nonlinear_arith);
    assert(0 <= r < b);
    vstd::arithmetic::div_mod::lemma_div_multiples_vanish_fancy(q, r, b);
    assert(b * q + r == a + b - 1);
}

proof fn lemma_ceil_div_bounds(a: int, b: int)
    requires
        0 <= a,
        0 < b,
    ensures
        a <= b * ceil_div(a, b),
        b * ceil_div(a, b) <= a + b - 1,
{
    vstd::arithmetic::div_mod::lemma_fundamental_div_mod(a + b - 1, b);
    vstd::arithmetic::div_mod::lemma_mod_division_less_than_divisor(a + b - 1, b);
}

proof fn lemma_ceil_div_ordered(a1: int, a2: int, b: int)
    requires
        0 <= a1 <= a2,
        0 < b,
    ensures
        ceil_div(a1, b) <= ceil_div(a2, b),
{
    vstd::arithmetic::div_mod::lemma_div_is_ordered(a1 + b - 1, a2 + b - 1, b);
}

proof fn lemma_ceil_div_cancel(a: int, b: int, m: int)
    requires
        0 <= a,
        0 < b,
        0 < m,
    ensures
        ceil_div(a * m, b * m) == ceil_div(a, b),
{
    let q = ceil_div(a, b);
    lemma_ceil_div_bounds(a, b);
    assert((b * m) * (q - 1) < a * m) by (nonlinear_arith)
        requires
            0 < b,
            0 < m,
            b * q <= a + b - 1;
    assert(a * m <= (b * m) * q) by (nonlinear_arith)
        requires
            0 < m,
            a <= b * q;
    assert(0 < b * m) by (nonlinear_arith)
        requires
            0 < b,
            0 < m;
    lemma_ceil_div_char(a * m, b * m, q);
}

/// Feeding a forward quote's output back through the reverse quote never
/// requires more than one unit above the original input. (The one-unit
/// safety margin that `get_amount_in` adds against truncation makes an
/// exact `<=` fail on boundary inputs such as an input of 1000 against
/// reserves of 1 and 998, where the reverse quote returns 1001.)
pub proof fn lemma_quote_round_trip_margin(x: int, ri: int, ro: int)
    requires
        0 < x,
        0 < ri,
        0 < ro,
        spec_get_amount_out(x, ri, ro) > 0,
    ensures
        spec_get_amount_in(spec_get_amount_out(x, ri, ro), ri, ro) <= x + 1,
{
    let fee = ceil_div(3 * x, 1000);
    let xf = x - fee;
    let y = xf * ro / (ri + xf);
    crate::math::lemma_fee_le_amount(x);
    // y * (ri + xf) <= xf * ro, so ri * y <= xf * (ro - y)
    vstd::arithmetic::div_mod::lemma_fundamental_div_mod(xf * ro, ri + xf);
    vstd::arithmetic::div_mod::lemma_mod_division_less_than_divisor(xf * ro, ri + xf);
    assert(ri * y <= xf * (ro - y)) by (nonlinear_arith)
        requires
            0 < ri + xf,
            xf * ro == (ri + xf) * y + (xf * ro) % (ri + xf),
            0 <= (xf * ro) % (ri + xf);
    // y < ro, so ro - y > 0
    crate::quotes::lemma_gout_bound(xf, ri, ro);
    let m = ro - y;
    assert(ri * y * 1000 <= 1000 * xf * m) by (nonlinear_arith)
        requires
            ri * y <= xf * m;
    assert(0 <= ri * y * 1000) by (nonlinear_arith)
        requires
            0 < ri,
            0 <= y;
    lemma_ceil_div_ordered(ri * y * 1000, 1000 * xf * m, m * 997);
    assert((ro - y) * 997 == m * 997);
    assert(1000 * xf * m == (1000 * xf) * m) by (nonlinear_arith);
    assert(m * 997 == 997 * m) by (nonlinear_arith);
    lemma_ceil_div_cancel(1000 * xf, 997, m);
    assert(ceil_div((1000 * xf) * m, 997 * m) == ceil_div(1000 * xf, 997));
    // 1000 * xf <= 997 * x because 1000 * fee >= 3 * x
    lemma_ceil_div_bounds(3 * x, 1000);
    assert(1000 * xf <= 997 * x);
    assert(0 <= 1000 * xf) by (nonlinear_arith)
        requires
            0 <= xf;
    lemma_ceil_div_ordered(1000 * xf, 997 * x, 997);
    lemma_ceil_div_char(997 * x, 997, x);
    assert(ceil_div(ri * y * 1000, (ro - y) * 997) <= x);
}

/// Feeding a forward quote's output back through the reverse quote requires
/// no more than the original input, for every input off the rounding
/// boundary. The boundary is exact: writing `fee = ceil(3x/1000)`,
/// `xf = x - fee`, `y = xf*ro/(ri+xf)` and `s = (xf*ro) % (ri+xf)`, the
/// round trip stays within `x` precisely when
/// `(997 + 3x - 1000*fee) * (ro - y) <= 1000 * s`; on the remaining inputs
/// (an input of 1000 against reserves 1 and 998, say) the reverse quote's
/// one-unit safety margin lands at `x + 1`.
pub proof fn lemma_quote_round_trip_within_input(x: int, ri: int, ro: int)
    requires
        0 < x,
        0 < ri,
        0 < ro,
        spec_get_amount_out(x, ri, ro) > 0,
        ({
            let fee = ceil_div(3 * x, 1000);
            let xf = x - fee;
            let y = xf * ro / (ri + xf);
            let s = (xf * ro) % (ri + xf);
            (997 + 3 * x - 1000 * fee) * (ro - y) <= 1000 * s
        }),
    ensures
        spec_get_amount_in(spec_get_amount_out(x, ri, ro), ri, ro) <= x,
{
    let fee = ceil_div(3 * x, 1000);
    let xf = x - fee;
    let y = xf * ro / (ri + xf);
    let s = (xf * ro) % (ri + xf);
    crate::math::lemma_fee_le_amount(x);
    crate::quotes::lemma_gout_bound(xf, ri, ro);
    vstd::arithmetic::div_mod::lemma_fundamental_div_mod(xf * ro, ri + xf);
    vstd::arithmetic::div_mod::lemma_mod_division_less_than_divisor(xf * ro, ri + xf);
    assert(ri * y == xf * (ro - y) - s) by (nonlinear_arith)
        requires
            xf * ro == (ri + xf) * y + s;
    lemma_ceil_div_bounds(3 * x, 1000);
    // From the boundary condition: 1000*ri*y <= 997*(x-1)*(ro-y)
    assert(1000 * (ri * y) <= (997 * (x - 1)) * (ro - y)) by (nonlinear_arith)
        requires
            ri * y == xf * (ro - y) - s,
            xf == x - fee,
            (997 + 3 * x - 1000 * fee) * (ro - y) <= 1000 * s;
    let d = 997 * (ro - y);
    assert(0 < d);
    assert(0 <= ri * y * 1000) by (nonlinear_arith)
        requires
            0 < ri,
            0 <= y;
    assert(ri * y * 1000 == 1000 * (ri * y)) by (nonlinear_arith);
    assert((997 * (x - 1)) * (ro - y) == d * (x - 1)) by (nonlinear_arith)
        requires
            d == 997 * (ro - y);
    assert(0 <= d * (x - 1)) by (nonlinear_arith)
        requires
            0 < d,
            0 < x;
    lemma_ceil_div_ordered(ri * y * 1000, d * (x - 1), d);
    assert(d * (x - 2) < d * (x - 1) && d * (x - 1) <= d * (x - 1)) by (nonlinear_arith)
        requires
            0 < d;
    lemma_ceil_div_char(d * (x - 1), d, x - 1);
    assert((ro - y) * 997 == d) by (nonlinear_arith)
        requires
            d == 997 * (ro - y);
    assert(ceil_div(ri * y * 1000, (ro - y) * 997) <= x - 1);
}

/// A first deposit of `(a, b)` immediately withdrawn in full pays back the
/// principal in each token less exactly the locked minimum's pro-rata
/// share, rounded against the provider: with `t` the shares minted by the
/// first deposit and `u = t - MINIMUM_LIQUIDITY` the redeemable shares, the
/// payout `a * u / t` equals `a - ceil(MINIMUM_LIQUIDITY * a / t)`.
pub proof fn lemma_first_round_trip_payout(a: int, t: int, locked: int)
    requires
        0 < a,
        0 < locked < t,
    ensures
        a * (t - locked) / t == a - ceil_div(locked * a, t),
{
    let q = ceil_div(locked * a, t);
    assert(0 <= locked * a) by (nonlinear_arith)
        requires
            0 < locked,
            0 < a;
    lemma_ceil_div_bounds(locked * a, t);
    let s = t * q - locked * a;
    assert(0 <= s < t);
    assert(a * (t - locked) == t * (a - q) + s) by (nonlinear_arith)
        requires
            s == t * q - locked * a;
    vstd::arithmetic::div_mod::lemma_div_multiples_vanish_fancy(a - q, s, t);
}

} // verus!
