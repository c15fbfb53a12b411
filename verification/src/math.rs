//! Shared integer arithmetic: truncating and ceiling division and the
//! floor integer square root, with their specification-level counterparts.

use vstd::prelude::*;

verus! {

/// Mathematical ceiling of `a / b`, meaningful for `a >= 0`, `b > 0`.
pub open spec fn ceil_div(a: int, b: int) -> int {
    (a + b - 1) / b
}

/// `r` is the integer square root of `n`, rounded down.
pub open spec fn is_sqrt_floor(n: int, r: int) -> bool {
    0 <= r && r * r <= n && n < (r + 1) * (r + 1)
}

/// The integer square root of `n`, rounded down (meaningful for `n >= 0`).
pub open spec fn sqrt_floor(n: int) -> int {
    choose|r: int| is_sqrt_floor(n, r)
}

/// At most one integer qualifies as the floor square root.
pub proof fn lemma_sqrt_floor_unique(n: int, r1: int, r2: int)
    by (nonlinear_arith)
    requires
        is_sqrt_floor(n, r1),
        is_sqrt_floor(n, r2),
    ensures
        r1 == r2,
{
}

/// Any witness of `is_sqrt_floor(n, r)` pins down `sqrt_floor(n)`.
pub proof fn lemma_sqrt_floor_of(n: int, r: int)
    requires
        is_sqrt_floor(n, r),
    ensures
        sqrt_floor(n) == r,
{
    let c = choose|x: int| is_sqrt_floor(n, x);
    lemma_sqrt_floor_unique(n, c, r);
}

/// The smaller of two integers.
pub open spec fn spec_min(a: int, b: int) -> int {
    if a <= b {
        a
    } else {
        b
    }
}

/// Division of non-negative `a` by positive `b`, rounded up; `None` when the
/// divisor is not positive.
pub fn checked_ceiling_div(a: i128, b: i128) -> (r: Option<i128>)
    requires
        0 <= a,
    ensures
        b <= 0 ==> r is None,
        b > 0 ==> r == Some((ceil_div(a as int, b as int)) as i128),
{
    if b <= 0 {
        return None;
    }
    let q = a / b;
    let m = a % b;
    if m == 0 {
        assert(q == ceil_div(a as int, b as int)) by {
            vstd::arithmetic::div_mod::lemma_fundamental_div_mod(a as int, b as int);
            vstd::arithmetic::div_mod::lemma_div_multiples_vanish_fancy(
                a as int / b as int, b as int - 1, b as int);
        };
        Some(q)
    } else {
        assert(q + 1 == ceil_div(a as int, b as int)) by {
            vstd::arithmetic::div_mod::lemma_fundamental_div_mod(a as int, b as int);
            assert(a + b - 1 == (b as int) * (q + 1) + (m - 1)) by {
                vstd::arithmetic::mul::lemma_mul_is_distributive_add(b as int, q as int, 1);
            };
            vstd::arithmetic::div_mod::lemma_div_multiples_vanish_fancy(
                q as int + 1, m as int - 1, b as int);
        };
        assert(q + 1 <= i128::MAX) by {
            vstd::arithmetic::div_mod::lemma_mod_division_less_than_divisor(a as int, b as int);
            assert(1 <= m < b);
            vstd::arithmetic::div_mod::lemma_small_mod(0nat, b as nat);
            assert(0 < a);
            vstd::arithmetic::div_mod::lemma_div_is_strictly_smaller(a as int, b as int);
        };
        Some(q + 1)
    }
}

/// The 0.3% fee `ceil(3x/1000)` never exceeds the amount it is taken from.
pub proof fn lemma_fee_le_amount(x: int)
    requires
        0 <= x,
    ensures
        0 <= ceil_div(3 * x, 1000) <= x,
{
    vstd::arithmetic::div_mod::lemma_div_is_ordered(3 * x + 999, 1000 * x + 999, 1000);
    vstd::arithmetic::div_mod::lemma_div_multiples_vanish_fancy(x, 999, 1000);
    if 3 * x + 999 > 0 {
        vstd::arithmetic::div_mod::lemma_div_pos_is_pos(3 * x + 999, 1000);
    }
}

/// Ceiling division of a non-negative dividend by a positive divisor never
/// exceeds the dividend.
pub proof fn lemma_ceil_div_le(a: int, b: int)
    requires
        0 <= a,
        1 <= b,
    ensures
        0 <= ceil_div(a, b) <= a,
{
    assert(a + b - 1 <= a * b + b - 1) by (nonlinear_arith)
        requires
            0 <= a,
            1 <= b;
    vstd::arithmetic::div_mod::lemma_div_is_ordered(a + b - 1, a * b + b - 1, b);
    vstd::arithmetic::div_mod::lemma_div_multiples_vanish_fancy(a, b - 1, b);
    assert(b * a + b - 1 == a * b + b - 1) by (nonlinear_arith);
    if a + b - 1 > 0 {
        vstd::arithmetic::div_mod::lemma_div_pos_is_pos(a + b - 1, b);
    } else {
        vstd::arithmetic::div_mod::lemma_div_of0(b);
    }
}

/// Relies on `num_integer::Roots::sqrt`: the truncated principal square root
/// of a non-negative integer.
#[verifier::external_body]
pub(crate) fn isqrt(n: i128) -> (r: i128)
    requires
        0 <= n,
    ensures
        is_sqrt_floor(n as int, r as int),
{
    num_integer::Roots::sqrt(&n)
}

} // verus!
