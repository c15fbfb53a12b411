//! The quoting library: pure price and amount computations shared by the
//! router and by callers that hold reserves of their own.
//!
//! The multi-hop functions chain the single-hop formulas along a path. The
//! host resolves each consecutive pair's reserves (oriented so that `.0` is
//! the input side) and hands them in; one entry of `reserves` belongs to
//! each consecutive pair of path entries.

use vstd::prelude::*;
use crate::Address;
use crate::math::{ceil_div, checked_ceiling_div, lemma_ceil_div_le, lemma_fee_le_amount};
use crate::router_errors::RaumFiLibraryError;

verus! {

/// The equivalent amount of the other asset: `amount_a * reserve_b / reserve_a`.
pub open spec fn spec_quote(amount_a: int, reserve_a: int, reserve_b: int) -> int {
    amount_a * reserve_b / reserve_a
}

/// The maximum output for a given input, after the 0.3% fee (rounded up)
/// is taken from the input.
pub open spec fn spec_get_amount_out(amount_in: int, reserve_in: int, reserve_out: int) -> int {
    let fee = ceil_div(3 * amount_in, 1000);
    let amount_in_less_fee = amount_in - fee;
    amount_in_less_fee * reserve_out / (reserve_in + amount_in_less_fee)
}

/// The input required for a given output: the fee-adjusted quotient, rounded
/// up, plus a one-unit safety margin against truncation.
pub open spec fn spec_get_amount_in(amount_out: int, reserve_in: int, reserve_out: int) -> int {
    ceil_div(reserve_in * amount_out * 1000, (reserve_out - amount_out) * 997) + 1
}

/// The inputs on which one reverse quote can be computed at all: the
/// requested output leaves the reserve positive and the products fit in an
/// `i128`. Outside this, the host aborts on checked arithmetic.
pub open spec fn gin_fits(amount_out: int, reserve_in: int, reserve_out: int) -> bool {
    &&& amount_out < reserve_out
    &&& reserve_in * amount_out * 1000 < i128::MAX
    &&& (reserve_out - amount_out) * 997 <= i128::MAX
}

/// Given some amount of an asset and the pair's reserves, the equivalent
/// amount of the other asset. Overflow of the intermediate product is
/// reported as `InsufficientLiquidity`.
pub fn quote(amount_a: i128, reserve_a: i128, reserve_b: i128)
    -> (r: Result<i128, RaumFiLibraryError>)
    ensures
        amount_a <= 0 ==> r == Err::<i128, RaumFiLibraryError>(
            RaumFiLibraryError::InsufficientAmount),
        amount_a > 0 && (reserve_a <= 0 || reserve_b <= 0)
            ==> r == Err::<i128, RaumFiLibraryError>(RaumFiLibraryError::InsufficientLiquidity),
        amount_a > 0 && reserve_a > 0 && reserve_b > 0 && amount_a * reserve_b > i128::MAX
            ==> r == Err::<i128, RaumFiLibraryError>(RaumFiLibraryError::InsufficientLiquidity),
        amount_a > 0 && reserve_a > 0 && reserve_b > 0 && amount_a * reserve_b <= i128::MAX
            ==> {
                let q = spec_quote(amount_a as int, reserve_a as int, reserve_b as int);
                &&& r == Ok::<i128, RaumFiLibraryError>(q as i128)
                &&& 0 <= q <= amount_a * reserve_b
            },
{
    if amount_a <= 0 {
        return Err(RaumFiLibraryError::InsufficientAmount);
    }
    if reserve_a <= 0 || reserve_b <= 0 {
        return Err(RaumFiLibraryError::InsufficientLiquidity);
    }
    let numerator = match amount_a.checked_mul(reserve_b) {
        Some(p) => p,
        None => {
            return Err(RaumFiLibraryError::InsufficientLiquidity);
        }
    };
    proof {
        vstd::arithmetic::div_mod::lemma_div_pos_is_pos(numerator as int, reserve_a as int);
        vstd::arithmetic::div_mod::lemma_div_nonincreasing(numerator as int, reserve_a as int);
    }
    Ok(numerator / reserve_a)
}

/// Given an input amount and the pair's reserves, the maximum output amount
/// of the other asset. The output never reaches `reserve_out`.
pub fn get_amount_out(amount_in: i128, reserve_in: i128, reserve_out: i128)
    -> (r: Result<i128, RaumFiLibraryError>)
    requires
        amount_in > 0 && reserve_in > 0 && reserve_out > 0 ==> {
            &&& 3 * amount_in <= i128::MAX
            &&& amount_in * reserve_out <= i128::MAX
            &&& reserve_in + amount_in <= i128::MAX
        },
    ensures
        amount_in <= 0 ==> r == Err::<i128, RaumFiLibraryError>(
            RaumFiLibraryError::InsufficientInputAmount),
        amount_in > 0 && (reserve_in <= 0 || reserve_out <= 0)
            ==> r == Err::<i128, RaumFiLibraryError>(RaumFiLibraryError::InsufficientLiquidity),
        amount_in > 0 && reserve_in > 0 && reserve_out > 0 ==> {
            let out = spec_get_amount_out(amount_in as int, reserve_in as int,
                reserve_out as int);
            &&& r == Ok::<i128, RaumFiLibraryError>(out as i128)
            &&& 0 <= out < reserve_out
        },
{
    if amount_in <= 0 {
        return Err(RaumFiLibraryError::InsufficientInputAmount);
    }
    if reserve_in <= 0 || reserve_out <= 0 {
        return Err(RaumFiLibraryError::InsufficientLiquidity);
    }
    let fee = checked_ceiling_div(amount_in * 3, 1000).unwrap();
    proof {
        lemma_fee_le_amount(amount_in as int);
        assert(ceil_div(amount_in as int * 3, 1000) == ceil_div(3 * amount_in as int, 1000));
    }
    let amount_in_less_fee = amount_in - fee;
    assert(amount_in_less_fee * reserve_out <= amount_in * reserve_out) by (nonlinear_arith)
        requires
            0 <= amount_in_less_fee <= amount_in,
            0 < reserve_out;
    assert(0 <= amount_in_less_fee * reserve_out) by (nonlinear_arith)
        requires
            0 <= amount_in_less_fee,
            0 < reserve_out;
    let numerator = amount_in_less_fee * reserve_out;
    let denominator = reserve_in + amount_in_less_fee;
    let out = numerator / denominator;
    proof {
        vstd::arithmetic::div_mod::lemma_div_pos_is_pos(numerator as int, denominator as int);
        lemma_gout_bound(amount_in_less_fee as int, reserve_in as int,
            reserve_out as int);
    }
    Ok(out)
}

/// Given an output amount and the pair's reserves, the input amount of the
/// other asset that is always sufficient.
pub fn get_amount_in(amount_out: i128, reserve_in: i128, reserve_out: i128)
    -> (r: Result<i128, RaumFiLibraryError>)
    requires
        amount_out > 0 && reserve_in > 0 && reserve_out > 0
            ==> gin_fits(amount_out as int, reserve_in as int, reserve_out as int),
    ensures
        amount_out <= 0 ==> r == Err::<i128, RaumFiLibraryError>(
            RaumFiLibraryError::InsufficientOutputAmount),
        amount_out > 0 && (reserve_in <= 0 || reserve_out <= 0)
            ==> r == Err::<i128, RaumFiLibraryError>(RaumFiLibraryError::InsufficientLiquidity),
        amount_out > 0 && reserve_in > 0 && reserve_out > 0 ==> {
            let needed = spec_get_amount_in(amount_out as int, reserve_in as int,
                reserve_out as int);
            &&& r == Ok::<i128, RaumFiLibraryError>(needed as i128)
            &&& 0 < needed <= i128::MAX
        },
{
    if amount_out <= 0 {
        return Err(RaumFiLibraryError::InsufficientOutputAmount);
    }
    if reserve_in <= 0 || reserve_out <= 0 {
        return Err(RaumFiLibraryError::InsufficientLiquidity);
    }
    assert(0 <= reserve_in * amount_out) by (nonlinear_arith)
        requires
            0 < reserve_in,
            0 < amount_out;
    assert(reserve_in * amount_out * 1000 == reserve_in * (amount_out * 1000))
        by (nonlinear_arith);
    assert(0 <= amount_out * 1000 <= reserve_in * amount_out * 1000) by (nonlinear_arith)
        requires
            1 <= reserve_in,
            0 < amount_out;
    let numerator = reserve_in * (amount_out * 1000);
    assert(0 < (reserve_out - amount_out) * 997) by (nonlinear_arith)
        requires
            amount_out < reserve_out;
    let denominator = (reserve_out - amount_out) * 997;
    let quotient = checked_ceiling_div(numerator, denominator).unwrap();
    proof {
        lemma_ceil_div_le(numerator as int, denominator as int);
    }
    Ok(quotient + 1)
}

/// The amount at position `k` of the forward chain: the trade input at 0,
/// then each hop's output fed into the next hop.
pub open spec fn amount_out_at(amount_in: int, reserves: Seq<(i128, i128)>, k: int) -> int
    decreases k,
{
    if k <= 0 {
        amount_in
    } else {
        let prev = amount_out_at(amount_in, reserves, k - 1);
        spec_get_amount_out(prev, reserves[k - 1].0 as int, reserves[k - 1].1 as int)
    }
}

/// The first `k` hops of the forward chain are computable: a positive
/// running amount and positive reserves at each of them.
pub open spec fn out_hops_valid(amount_in: int, reserves: Seq<(i128, i128)>, k: int) -> bool {
    forall|j: int| 0 <= j < k ==> {
        &&& #[trigger] amount_out_at(amount_in, reserves, j) > 0
        &&& reserves[j].0 > 0
        &&& reserves[j].1 > 0
    }
}

/// Chained forward quotes along a path: `amounts[0]` is the input and each
/// following entry is `get_amount_out` of the previous one over that hop's
/// reserves. `reserves[i]` belongs to the pair `(path[i], path[i+1])`,
/// oriented with the input side first.
pub fn get_amounts_out(amount_in: i128, path: &Vec<Address>, reserves: &Vec<(i128, i128)>)
    -> (r: Result<Vec<i128>, RaumFiLibraryError>)
    requires
        path@.len() >= 2 ==> reserves@.len() == path@.len() - 1,
        0 <= amount_in <= crate::pair::AMOUNT_LIMIT,
        forall|i: int| 0 <= i < reserves@.len() ==> {
            &&& 0 <= (#[trigger] reserves@[i]).0 <= crate::pair::AMOUNT_LIMIT
            &&& 0 <= reserves@[i].1 <= crate::pair::AMOUNT_LIMIT
        },
    ensures
        path@.len() < 2 ==> r == Err::<Vec<i128>, RaumFiLibraryError>(
            RaumFiLibraryError::InvalidPath),
        path@.len() >= 2 && out_hops_valid(amount_in as int, reserves@, reserves@.len() as int)
            ==> (r matches Ok(v)
                && v@.len() == path@.len()
                && forall|k: int| 0 <= k < v@.len()
                    ==> #[trigger] v@[k] as int == amount_out_at(amount_in as int, reserves@, k)),
        path@.len() >= 2 && !out_hops_valid(amount_in as int, reserves@, reserves@.len() as int)
            ==> exists|j: int| {
                &&& 0 <= j < reserves@.len()
                &&& out_hops_valid(amount_in as int, reserves@, j)
                &&& r == Err::<Vec<i128>, RaumFiLibraryError>(
                    if amount_out_at(amount_in as int, reserves@, j) <= 0 {
                        RaumFiLibraryError::InsufficientInputAmount
                    } else {
                        RaumFiLibraryError::InsufficientLiquidity
                    })
            },
{
    if path.len() < 2 {
        return Err(RaumFiLibraryError::InvalidPath);
    }
    let n = reserves.len();
    let mut amounts: Vec<i128> = Vec::new();
    amounts.push(amount_in);
    let mut i: usize = 0;
    while i < n
        invariant
            i <= n,
            n == reserves@.len(),
            path@.len() >= 2,
            n == path@.len() - 1,
            amounts@.len() == i + 1,
            0 <= amount_in <= crate::pair::AMOUNT_LIMIT,
            forall|t: int| 0 <= t < reserves@.len() ==> {
                &&& 0 <= (#[trigger] reserves@[t]).0 <= crate::pair::AMOUNT_LIMIT
                &&& 0 <= reserves@[t].1 <= crate::pair::AMOUNT_LIMIT
            },
            forall|k: int| 0 <= k <= i
                ==> #[trigger] amounts@[k] as int
                    == amount_out_at(amount_in as int, reserves@, k),
            out_hops_valid(amount_in as int, reserves@, i as int),
            0 <= amounts@[i as int] <= crate::pair::AMOUNT_LIMIT,
        decreases n - i,
    {
        let current = amounts[i];
        let (reserve_in, reserve_out) = (reserves[i].0, reserves[i].1);
        assert(current * reserve_out
            <= crate::pair::AMOUNT_LIMIT * crate::pair::AMOUNT_LIMIT) by (nonlinear_arith)
            requires
                0 <= current <= crate::pair::AMOUNT_LIMIT,
                0 <= reserve_out <= crate::pair::AMOUNT_LIMIT;
        match get_amount_out(current, reserve_in, reserve_out) {
            Ok(out) => {
                amounts.push(out);
            }
            Err(e) => {
                proof {
                    let jw = i as int;
                    assert(amount_out_at(amount_in as int, reserves@, jw) == current as int);
                    assert(!(amount_out_at(amount_in as int, reserves@, jw) > 0
                        && reserves@[jw].0 > 0 && reserves@[jw].1 > 0));
                    assert(!out_hops_valid(amount_in as int, reserves@,
                        reserves@.len() as int));
                }
                return Err(e);
            }
        }
        i = i + 1;
    }
    Ok(amounts)
}

/// The amount at position `k` of the reverse chain: the requested output
/// past the last hop, then each hop's required input walking backwards.
pub open spec fn amount_in_at(amount_out: int, reserves: Seq<(i128, i128)>, k: int) -> int
    decreases reserves.len() - k,
{
    if k >= reserves.len() {
        amount_out
    } else {
        let next = amount_in_at(amount_out, reserves, k + 1);
        spec_get_amount_in(next, reserves[k].0 as int, reserves[k].1 as int)
    }
}

/// The hops from `k` to the end of the reverse chain are computable: a
/// positive running amount and positive reserves at each of them.
pub open spec fn in_hops_valid(amount_out: int, reserves: Seq<(i128, i128)>, k: int) -> bool {
    forall|j: int| #![trigger reserves[j]] k <= j < reserves.len() ==> {
        &&& amount_in_at(amount_out, reserves, j + 1) > 0
        &&& reserves[j].0 > 0
        &&& reserves[j].1 > 0
    }
}

/// Chained reverse quotes along a path: the last entry is the requested
/// output and each earlier entry is `get_amount_in` of the following one
/// over that hop's reserves — the exact inverse walk of `get_amounts_out`'s
/// orientation.
pub fn get_amounts_in(amount_out: i128, path: &Vec<Address>, reserves: &Vec<(i128, i128)>)
    -> (r: Result<Vec<i128>, RaumFiLibraryError>)
    requires
        path@.len() >= 2 ==> reserves@.len() == path@.len() - 1,
        forall|j: int| #![trigger reserves@[j]] 0 <= j < reserves@.len() ==> ({
            &&& in_hops_valid(amount_out as int, reserves@, j + 1)
            &&& amount_in_at(amount_out as int, reserves@, j + 1) > 0
            &&& reserves@[j].0 > 0
            &&& reserves@[j].1 > 0
        } ==> gin_fits(amount_in_at(amount_out as int, reserves@, j + 1),
            reserves@[j].0 as int, reserves@[j].1 as int)),
    ensures
        path@.len() < 2 ==> r == Err::<Vec<i128>, RaumFiLibraryError>(
            RaumFiLibraryError::InvalidPath),
        path@.len() >= 2 && in_hops_valid(amount_out as int, reserves@, 0)
            ==> (r matches Ok(v)
                && v@.len() == path@.len()
                && forall|k: int| 0 <= k < v@.len()
                    ==> #[trigger] v@[k] as int == amount_in_at(amount_out as int, reserves@, k)),
        path@.len() >= 2 && !in_hops_valid(amount_out as int, reserves@, 0)
            ==> exists|j: int| #![trigger reserves@[j]] {
                &&& 0 <= j < reserves@.len()
                &&& in_hops_valid(amount_out as int, reserves@, j + 1)
                &&& r == Err::<Vec<i128>, RaumFiLibraryError>(
                    if amount_in_at(amount_out as int, reserves@, j + 1) <= 0 {
                        RaumFiLibraryError::InsufficientOutputAmount
                    } else {
                        RaumFiLibraryError::InsufficientLiquidity
                    })
            },
{
    if path.len() < 2 {
        return Err(RaumFiLibraryError::InvalidPath);
    }
    let n = reserves.len();
    let mut amounts: Vec<i128> = Vec::new();
    amounts.push(amount_out);
    let mut j: usize = n;
    while j > 0
        invariant
            j <= n,
            n == reserves@.len(),
            amounts@.len() == n - j + 1,
            path@.len() >= 2,
            n == path@.len() - 1,
            forall|t: int| #![trigger reserves@[t]] 0 <= t < reserves@.len() ==> ({
                &&& in_hops_valid(amount_out as int, reserves@, t + 1)
                &&& amount_in_at(amount_out as int, reserves@, t + 1) > 0
                &&& reserves@[t].0 > 0
                &&& reserves@[t].1 > 0
            } ==> gin_fits(amount_in_at(amount_out as int, reserves@, t + 1),
                reserves@[t].0 as int, reserves@[t].1 as int)),
            forall|k: int| j <= k <= n
                ==> #[trigger] amount_in_at(amount_out as int, reserves@, k)
                    == amounts@[k - j] as int,
            in_hops_valid(amount_out as int, reserves@, j as int),
        decreases j,
    {
        let current = amounts[0];
        let (reserve_in, reserve_out) = (reserves[j - 1].0, reserves[j - 1].1);
        proof {
            assert(amount_in_at(amount_out as int, reserves@, j as int)
                == amounts@[0] as int);
            assert(reserves@[j - 1].0 == reserve_in && reserves@[j - 1].1 == reserve_out);
        }
        match get_amount_in(current, reserve_in, reserve_out) {
            Ok(needed) => {
                proof {
                    assert(amount_in_at(amount_out as int, reserves@, j - 1)
                        == needed as int);
                }
                let ghost prev = amounts@;
                amounts.insert(0, needed);
                proof {
                    assert forall|k: int| j - 1 <= k <= n implies
                        #[trigger] amount_in_at(amount_out as int, reserves@, k)
                            == amounts@[k - (j - 1)] as int by {
                        if k >= j {
                            assert(amounts@[k - j + 1] == prev[k - j]);
                        }
                    }
                }
            }
            Err(e) => {
                proof {
                    let jw = j - 1;
                    assert(amount_in_at(amount_out as int, reserves@, jw + 1)
                        == current as int);
                    assert(!(amount_in_at(amount_out as int, reserves@, jw + 1) > 0
                        && reserves@[jw].0 > 0 && reserves@[jw].1 > 0));
                    assert(!in_hops_valid(amount_out as int, reserves@, 0)) by {
                        assert(0 <= jw < reserves@.len());
                    };
                }
                return Err(e);
            }
        }
        j = j - 1;
    }
    Ok(amounts)
}

/// With `0 <= x` and positive reserves, `0 <= x * ro / (ri + x) < ro`.
pub proof fn lemma_gout_bound(x: int, ri: int, ro: int)
    requires
        0 <= x,
        0 < ri,
        0 < ro,
    ensures
        0 <= x * ro / (ri + x) < ro,
{
    assert(0 <= x * ro) by (nonlinear_arith)
        requires
            0 <= x,
            0 < ro;
    if x * ro == 0 {
        vstd::arithmetic::div_mod::lemma_div_of0(ri + x);
        assert(x * ro / (ri + x) == 0);
    } else {
        vstd::arithmetic::div_mod::lemma_div_pos_is_pos(x * ro, ri + x);
    }
    assert(x * ro <= (ri + x) * ro - 1) by (nonlinear_arith)
        requires
            0 <= x,
            0 < ri,
            0 < ro;
    vstd::arithmetic::div_mod::lemma_div_is_ordered(x * ro, (ri + x) * ro - 1, ri + x);
    vstd::arithmetic::div_mod::lemma_div_multiples_vanish_fancy(ro - 1, ri + x - 1, ri + x);
    assert((ri + x) * (ro - 1) + (ri + x - 1) == (ri + x) * ro - 1) by (nonlinear_arith);
}

} // verus!
