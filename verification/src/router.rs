//! The router: the stateless composition layer over factory and pairs.
//!
//! Every decision a router entry point makes is computed here from plain
//! values. The host performs the surrounding work — authorization, reading
//! reserves, creating missing pairs, token transfers, and invoking the pair
//! contracts — and hands the results in; the functions here validate the
//! request, quote the amounts, and lay out the exact hop-by-hop plan the
//! host must execute.

use vstd::prelude::*;
use crate::Address;
use vstd::std_specs::convert::FromSpec;
use crate::quotes;
use crate::quotes::{spec_quote, amount_out_at, out_hops_valid, amount_in_at, in_hops_valid,
    gin_fits};
use crate::router_errors::{RaumFiLibraryError, RouterErrorsForLibrary};
use crate::tokens::{sort_tokens, pair_for, spec_sort_tokens, spec_pair_address};

verus! {

/// Rejects negative amounts before any state is touched.
pub fn is_amount_negative(amount: i128) -> (r: Result<(), RouterErrorsForLibrary>)
    ensures
        amount < 0 ==> r == Err::<(), RouterErrorsForLibrary>(
            RouterErrorsForLibrary::RouterNegativeNotAllowed),
        amount >= 0 ==> r == Ok::<(), RouterErrorsForLibrary>(()),
{
    if amount < 0 {
        Err(RouterErrorsForLibrary::RouterNegativeNotAllowed)
    } else {
        Ok(())
    }
}

/// Rejects a call whose deadline has passed, against the ledger time the
/// host read at entry.
pub fn is_deadline_expired(now: u64, timestamp: u64) -> (r: Result<(), RouterErrorsForLibrary>)
    ensures
        now >= timestamp ==> r == Err::<(), RouterErrorsForLibrary>(
            RouterErrorsForLibrary::RouterDeadlineExpired),
        now < timestamp ==> r == Ok::<(), RouterErrorsForLibrary>(()),
{
    if now >= timestamp {
        Err(RouterErrorsForLibrary::RouterDeadlineExpired)
    } else {
        Ok(())
    }
}

/// Router initialization, as reported to off-chain consumers.
#[derive(Clone, Copy, Debug, PartialEq, Eq, Structural)]
pub struct InitializedEvent {
    pub factory: Address,
}

/// A liquidity add, as reported to off-chain consumers.
#[derive(Clone, Copy, Debug, PartialEq, Eq, Structural)]
pub struct AddLiquidityEvent {
    pub token_a: Address,
    pub token_b: Address,
    pub pair: Address,
    pub amount_a: i128,
    pub amount_b: i128,
    pub liquidity: i128,
    pub to: Address,
}

/// A liquidity removal, as reported to off-chain consumers.
#[derive(Clone, Copy, Debug, PartialEq, Eq, Structural)]
pub struct RemoveLiquidityEvent {
    pub token_a: Address,
    pub token_b: Address,
    pub pair: Address,
    pub amount_a: i128,
    pub amount_b: i128,
    pub liquidity: i128,
    pub to: Address,
}

/// A routed swap, as reported to off-chain consumers.
#[derive(Clone, Debug, PartialEq, Eq)]
pub struct SwapEvent {
    pub path: Vec<Address>,
    pub amounts: Vec<i128>,
    pub to: Address,
}

/// One hop of a multi-pair swap execution plan: which pair to call, the
/// outputs to request from it, and who receives them (the next hop's pair,
/// or the trader at the last hop).
#[derive(Clone, Copy, Debug, PartialEq, Eq, Structural)]
pub struct SwapStep {
    /// The pair contract to invoke.
    pub pair: Address,
    /// Output requested in the pair's `token_0`.
    pub amount_0_out: i128,
    /// Output requested in the pair's `token_1`.
    pub amount_1_out: i128,
    /// Recipient of the outputs.
    pub to: Address,
}

/// The hop-walking step at index `i` (`0 <= i < path.len() - 1`): the output
/// amount lands on whichever side of the sorted pair is not the input, and
/// intermediate hops pay directly into the next pair.
pub open spec fn spec_swap_step(factory: Address, amounts: Seq<i128>, path: Seq<Address>,
    to: Address, i: int) -> SwapStep
{
    let input = path[i];
    let output = path[i + 1];
    let sorted = spec_sort_tokens(input, output);
    let amount_out = amounts[i + 1];
    let step_to = if i < path.len() - 2 {
        let next = spec_sort_tokens(output, path[i + 2]);
        spec_pair_address(factory, next.0, next.1)
    } else {
        to
    };
    SwapStep {
        pair: spec_pair_address(factory, sorted.0, sorted.1),
        amount_0_out: if input == sorted.0 { 0 } else { amount_out },
        amount_1_out: if input == sorted.0 { amount_out } else { 0 },
        to: step_to,
    }
}

/// Lays out the pair-to-pair swap walk for an already-quoted amount chain.
/// Requires that the initial input has been sent to the first hop's pair.
pub fn swap_plan(factory: Address, amounts: &Vec<i128>, path: &Vec<Address>, to: Address)
    -> (r: Result<Vec<SwapStep>, RouterErrorsForLibrary>)
    requires
        path@.len() >= 2,
        amounts@.len() == path@.len(),
    ensures
        (forall|i: int| #![trigger path@[i]] 0 <= i < path@.len() - 1
            ==> path@[i] != path@[i + 1])
            ==> (r matches Ok(steps)
                && steps@.len() == path@.len() - 1
                && forall|i: int| 0 <= i < steps@.len()
                    ==> #[trigger] steps@[i] == spec_swap_step(factory, amounts@, path@, to, i)),
        (exists|i: int| #![trigger path@[i]] 0 <= i < path@.len() - 1
            && path@[i] == path@[i + 1])
            ==> r == Err::<Vec<SwapStep>, RouterErrorsForLibrary>(
                RouterErrorsForLibrary::LibrarySortIdenticalTokens),
{
    let n = path.len();
    let mut steps: Vec<SwapStep> = Vec::new();
    let mut i: usize = 0;
    while i < n - 1
        invariant
            path@.len() >= 2,
            amounts@.len() == path@.len(),
            n == path@.len(),
            i <= n - 1,
            steps@.len() == i,
            forall|k: int| 0 <= k < i
                ==> #[trigger] steps@[k] == spec_swap_step(factory, amounts@, path@, to, k),
            forall|k: int| #![trigger path@[k]] 0 <= k < i ==> path@[k] != path@[k + 1],
        decreases n - 1 - i,
    {
        let input = path[i];
        let output = path[i + 1];
        let sorted = match sort_tokens(input, output) {
            Ok(t) => t,
            Err(_) => {
                proof {
                    assert(path@[i as int] == path@[i as int + 1]);
                }
                return Err(RouterErrorsForLibrary::LibrarySortIdenticalTokens);
            }
        };
        let token_0 = sorted.0;
        let amount_out = amounts[i + 1];
        let outs = if input == token_0 {
            (0, amount_out)
        } else {
            (amount_out, 0)
        };
        let step_to = if i < n - 2 {
            match pair_for(factory, output, path[i + 2]) {
                Ok(a) => a,
                Err(_) => {
                    proof {
                        assert(path@[i as int + 1] == path@[i as int + 2]);
                    }
                    return Err(RouterErrorsForLibrary::LibrarySortIdenticalTokens);
                }
            }
        } else {
            to
        };
        let pair = match pair_for(factory, input, output) {
            Ok(a) => a,
            Err(_) => {
                return Err(RouterErrorsForLibrary::LibrarySortIdenticalTokens);
            }
        };
        steps.push(SwapStep { pair, amount_0_out: outs.0, amount_1_out: outs.1, to: step_to });
        i = i + 1;
    }
    Ok(steps)
}

/// The amounts decision of a liquidity add, over the pair's current
/// reserves: all values pass through on a virgin pair; otherwise the side
/// quoted from the full desired amount of token A is used when it does not
/// overshoot the desired B, and the reverse quote (which never overshoots
/// the desired A) otherwise, each checked against the caller's minima.
pub open spec fn spec_add_liquidity_amounts(ra: int, rb: int, ad: int, bd: int, amin: int,
    bmin: int) -> Result<(int, int), RouterErrorsForLibrary>
{
    if ra == 0 && rb == 0 {
        Ok((ad, bd))
    } else if ad == 0 {
        Err(RouterErrorsForLibrary::LibraryInsufficientAmount)
    } else if ra == 0 || rb == 0 {
        Err(RouterErrorsForLibrary::LibraryInsufficientLiquidity)
    } else if ad * rb > i128::MAX {
        Err(RouterErrorsForLibrary::LibraryInsufficientLiquidity)
    } else {
        let b_optimal = spec_quote(ad, ra, rb);
        if b_optimal <= bd {
            if b_optimal < bmin {
                Err(RouterErrorsForLibrary::RouterInsufficientBAmount)
            } else {
                Ok((ad, b_optimal))
            }
        } else if bd == 0 {
            Err(RouterErrorsForLibrary::LibraryInsufficientAmount)
        } else if bd * ra > i128::MAX {
            Err(RouterErrorsForLibrary::LibraryInsufficientLiquidity)
        } else {
            let a_optimal = spec_quote(bd, rb, ra);
            if a_optimal < amin {
                Err(RouterErrorsForLibrary::RouterInsufficientAAmount)
            } else {
                Ok((a_optimal, bd))
            }
        }
    }
}

/// The optimal split of desired liquidity amounts against current reserves:
/// quote one side against the other, preferring the full desired amount of
/// token A, and enforce the caller's minima. On a virgin pair the desired
/// amounts pass through unchanged.
pub fn add_liquidity_amounts(reserve_a: i128, reserve_b: i128, amount_a_desired: i128,
    amount_b_desired: i128, amount_a_min: i128, amount_b_min: i128)
    -> (r: Result<(i128, i128), RouterErrorsForLibrary>)
    requires
        0 <= reserve_a,
        0 <= reserve_b,
        0 <= amount_a_desired,
        0 <= amount_b_desired,
    ensures
        ({
            let s = spec_add_liquidity_amounts(reserve_a as int, reserve_b as int,
                amount_a_desired as int, amount_b_desired as int, amount_a_min as int,
                amount_b_min as int);
            &&& (s matches Ok(p) ==> r == Ok::<(i128, i128), RouterErrorsForLibrary>(
                ((p.0 as i128), (p.1 as i128))))
            &&& (s matches Err(e) ==> r == Err::<(i128, i128), RouterErrorsForLibrary>(e))
        }),
{
    if reserve_a == 0 && reserve_b == 0 {
        return Ok((amount_a_desired, amount_b_desired));
    }
    let amount_b_optimal = match quotes::quote(amount_a_desired, reserve_a, reserve_b) {
        Ok(q) => q,
        Err(e) => {
            return Err(RouterErrorsForLibrary::from(e));
        }
    };
    if amount_b_optimal <= amount_b_desired {
        if amount_b_optimal < amount_b_min {
            return Err(RouterErrorsForLibrary::RouterInsufficientBAmount);
        }
        Ok((amount_a_desired, amount_b_optimal))
    } else {
        let amount_a_optimal = match quotes::quote(amount_b_desired, reserve_b, reserve_a) {
            Ok(q) => q,
            Err(e) => {
                return Err(RouterErrorsForLibrary::from(e));
            }
        };
        proof {
            lemma_cross_quote_le(amount_a_desired as int, amount_b_desired as int,
                reserve_a as int, reserve_b as int);
        }
        if amount_a_optimal < amount_a_min {
            return Err(RouterErrorsForLibrary::RouterInsufficientAAmount);
        }
        Ok((amount_a_optimal, amount_b_desired))
    }
}

/// Given some amount of an asset and pair reserves, an equivalent amount of
/// the other asset, under the router's error surface.
pub fn router_quote(amount_a: i128, reserve_a: i128, reserve_b: i128)
    -> (r: Result<i128, RouterErrorsForLibrary>)
    ensures
        ({
            let q = spec_quote(amount_a as int, reserve_a as int, reserve_b as int);
            if amount_a <= 0 {
                r == Err::<i128, RouterErrorsForLibrary>(
                    RouterErrorsForLibrary::LibraryInsufficientAmount)
            } else if reserve_a <= 0 || reserve_b <= 0 {
                r == Err::<i128, RouterErrorsForLibrary>(
                    RouterErrorsForLibrary::LibraryInsufficientLiquidity)
            } else if amount_a * reserve_b > i128::MAX {
                r == Err::<i128, RouterErrorsForLibrary>(
                    RouterErrorsForLibrary::LibraryInsufficientLiquidity)
            } else {
                r == Ok::<i128, RouterErrorsForLibrary>(q as i128)
            }
        }),
{
    match quotes::quote(amount_a, reserve_a, reserve_b) {
        Ok(q) => Ok(q),
        Err(e) => Err(RouterErrorsForLibrary::from(e)),
    }
}

/// Given an input amount and pair reserves, the maximum output amount of
/// the other asset, under the router's error surface.
pub fn router_get_amount_out(amount_in: i128, reserve_in: i128, reserve_out: i128)
    -> (r: Result<i128, RouterErrorsForLibrary>)
    requires
        amount_in > 0 && reserve_in > 0 && reserve_out > 0 ==> {
            &&& 3 * amount_in <= i128::MAX
            &&& amount_in * reserve_out <= i128::MAX
            &&& reserve_in + amount_in <= i128::MAX
        },
    ensures
        ({
            let out = quotes::spec_get_amount_out(amount_in as int, reserve_in as int,
                reserve_out as int);
            if amount_in <= 0 {
                r == Err::<i128, RouterErrorsForLibrary>(
                    RouterErrorsForLibrary::LibraryInsufficientInputAmount)
            } else if reserve_in <= 0 || reserve_out <= 0 {
                r == Err::<i128, RouterErrorsForLibrary>(
                    RouterErrorsForLibrary::LibraryInsufficientLiquidity)
            } else {
                r == Ok::<i128, RouterErrorsForLibrary>(out as i128)
            }
        }),
{
    match quotes::get_amount_out(amount_in, reserve_in, reserve_out) {
        Ok(out) => Ok(out),
        Err(e) => Err(RouterErrorsForLibrary::from(e)),
    }
}

/// Given an output amount and pair reserves, the required input amount of
/// the other asset, under the router's error surface.
pub fn router_get_amount_in(amount_out: i128, reserve_in: i128, reserve_out: i128)
    -> (r: Result<i128, RouterErrorsForLibrary>)
    requires
        amount_out > 0 && reserve_in > 0 && reserve_out > 0
            ==> gin_fits(amount_out as int, reserve_in as int, reserve_out as int),
    ensures
        ({
            let needed = quotes::spec_get_amount_in(amount_out as int, reserve_in as int,
                reserve_out as int);
            if amount_out <= 0 {
                r == Err::<i128, RouterErrorsForLibrary>(
                    RouterErrorsForLibrary::LibraryInsufficientOutputAmount)
            } else if reserve_in <= 0 || reserve_out <= 0 {
                r == Err::<i128, RouterErrorsForLibrary>(
                    RouterErrorsForLibrary::LibraryInsufficientLiquidity)
            } else {
                r == Ok::<i128, RouterErrorsForLibrary>(needed as i128)
            }
        }),
{
    match quotes::get_amount_in(amount_out, reserve_in, reserve_out) {
        Ok(needed) => Ok(needed),
        Err(e) => Err(RouterErrorsForLibrary::from(e)),
    }
}

/// The router's one piece of persistent state: the factory it routes
/// through, set once.
pub struct RouterState {
    /// Whether `initialize` has run.
    pub initialized: bool,
    /// The factory this router resolves pairs through.
    pub factory: Address,
}

impl RouterState {
    /// A router as deployed and not yet initialized.
    pub fn new() -> (r: RouterState)
        ensures
            !r.initialized,
    {
        RouterState { initialized: false, factory: 0 }
    }

    /// One-shot setup: records the factory address.
    pub fn initialize(&mut self, factory: Address) -> (r: Result<(), RouterErrorsForLibrary>)
        ensures
            old(self).initialized ==> {
                &&& r == Err::<(), RouterErrorsForLibrary>(
                    RouterErrorsForLibrary::RouterInitializeAlreadyInitialized)
                &&& *final(self) == *old(self)
            },
            !old(self).initialized ==> {
                &&& r == Ok::<(), RouterErrorsForLibrary>(())
                &&& final(self).initialized
                &&& final(self).factory == factory
            },
    {
        if self.initialized {
            return Err(RouterErrorsForLibrary::RouterInitializeAlreadyInitialized);
        }
        self.factory = factory;
        self.initialized = true;
        Ok(())
    }

    /// The factory this router was initialized with.
    pub fn get_factory(&self) -> (r: Result<Address, RouterErrorsForLibrary>)
        ensures
            !self.initialized ==> r == Err::<Address, RouterErrorsForLibrary>(
                RouterErrorsForLibrary::RouterNotInitialized),
            self.initialized ==> r == Ok::<Address, RouterErrorsForLibrary>(self.factory),
    {
        if !self.initialized {
            return Err(RouterErrorsForLibrary::RouterNotInitialized);
        }
        Ok(self.factory)
    }

    /// The deterministic address of the pair for two tokens, without any
    /// state read beyond the stored factory.
    pub fn router_pair_for(&self, token_a: Address, token_b: Address)
        -> (r: Result<Address, RouterErrorsForLibrary>)
        requires
            self.initialized,
        ensures
            token_a == token_b ==> r == Err::<Address, RouterErrorsForLibrary>(
                RouterErrorsForLibrary::LibrarySortIdenticalTokens),
            token_a != token_b ==> r == Ok::<Address, RouterErrorsForLibrary>(
                spec_pair_address(self.factory, spec_sort_tokens(token_a, token_b).0,
                    spec_sort_tokens(token_a, token_b).1)),
    {
        match pair_for(self.factory, token_a, token_b) {
            Ok(a) => Ok(a),
            Err(e) => Err(RouterErrorsForLibrary::from(e)),
        }
    }

    /// Chained forward quotes along a path, under the router's error surface.
    #[verifier::rlimit(80)]
    pub fn router_get_amounts_out(&self, amount_in: i128, path: &Vec<Address>,
        reserves: &Vec<(i128, i128)>)
        -> (r: Result<Vec<i128>, RouterErrorsForLibrary>)
        requires
            path@.len() >= 2 ==> reserves@.len() == path@.len() - 1,
            0 <= amount_in <= crate::pair::AMOUNT_LIMIT,
            forall|i: int| 0 <= i < reserves@.len() ==> {
                &&& 0 <= (#[trigger] reserves@[i]).0 <= crate::pair::AMOUNT_LIMIT
                &&& 0 <= reserves@[i].1 <= crate::pair::AMOUNT_LIMIT
            },
        ensures
            !self.initialized ==> r == Err::<Vec<i128>, RouterErrorsForLibrary>(
                RouterErrorsForLibrary::RouterNotInitialized),
            self.initialized && path@.len() < 2
                ==> r == Err::<Vec<i128>, RouterErrorsForLibrary>(
                    RouterErrorsForLibrary::LibraryInvalidPath),
            self.initialized && path@.len() >= 2
                && out_hops_valid(amount_in as int, reserves@, reserves@.len() as int)
                ==> (r matches Ok(v)
                    && v@.len() == path@.len()
                    && forall|k: int| 0 <= k < v@.len()
                        ==> #[trigger] v@[k] as int
                            == amount_out_at(amount_in as int, reserves@, k)),
            self.initialized && path@.len() >= 2
                && !out_hops_valid(amount_in as int, reserves@, reserves@.len() as int)
                ==> exists|j: int| #![trigger reserves@[j]] {
                    &&& 0 <= j < reserves@.len()
                    &&& out_hops_valid(amount_in as int, reserves@, j)
                    &&& r == Err::<Vec<i128>, RouterErrorsForLibrary>(
                        if amount_out_at(amount_in as int, reserves@, j) <= 0 {
                            RouterErrorsForLibrary::LibraryInsufficientInputAmount
                        } else {
                            RouterErrorsForLibrary::LibraryInsufficientLiquidity
                        })
                },
    {
        if !self.initialized {
            return Err(RouterErrorsForLibrary::RouterNotInitialized);
        }
        match quotes::get_amounts_out(amount_in, path, reserves) {
            Ok(v) => Ok(v),
            Err(e) => {
                let mapped = RouterErrorsForLibrary::from(e);
                proof {
                    lemma_map_out_error(amount_in as int, path@, reserves@, e, mapped);
                }
                Err(mapped)
            }
        }
    }

    /// Chained reverse quotes along a path, under the router's error surface.
    #[verifier::rlimit(80)]
    pub fn router_get_amounts_in(&self, amount_out: i128, path: &Vec<Address>,
        reserves: &Vec<(i128, i128)>)
        -> (r: Result<Vec<i128>, RouterErrorsForLibrary>)
        requires
            path@.len() >= 2 ==> reserves@.len() == path@.len() - 1,
            forall|j: int| #![trigger reserves@[j]] 0 <= j < reserves@.len() ==> ({
                &&& in_hops_valid(amount_out as int, reserves@, j + 1)
                &&& amount_in_at(amount_out as int, reserves@, j + 1) > 0
                &&& reserves@[j].0 > 0
                &&& reserves@[j].1 > 0
            } ==> gin_fits(amount_in_at(amount_out as int, reserves@, j + 1),
                reserves@[j].0 as int, reserves@[j].1 as int)),
        ensures
            !self.initialized ==> r == Err::<Vec<i128>, RouterErrorsForLibrary>(
                RouterErrorsForLibrary::RouterNotInitialized),
            self.initialized && path@.len() < 2
                ==> r == Err::<Vec<i128>, RouterErrorsForLibrary>(
                    RouterErrorsForLibrary::LibraryInvalidPath),
            self.initialized && path@.len() >= 2
                && in_hops_valid(amount_out as int, reserves@, 0)
                ==> (r matches Ok(v)
                    && v@.len() == path@.len()
                    && forall|k: int| 0 <= k < v@.len()
                        ==> #[trigger] v@[k] as int
                            == amount_in_at(amount_out as int, reserves@, k)),
            self.initialized && path@.len() >= 2
                && !in_hops_valid(amount_out as int, reserves@, 0)
                ==> (r == Err::<Vec<i128>, RouterErrorsForLibrary>(
                        RouterErrorsForLibrary::LibraryInsufficientOutputAmount)
                    || r == Err::<Vec<i128>, RouterErrorsForLibrary>(
                        RouterErrorsForLibrary::LibraryInsufficientLiquidity)),
    {
        if !self.initialized {
            return Err(RouterErrorsForLibrary::RouterNotInitialized);
        }
        match quotes::get_amounts_in(amount_out, path, reserves) {
            Ok(v) => Ok(v),
            Err(e) => {
                let mapped = RouterErrorsForLibrary::from(e);
                Err(mapped)
            }
        }
    }

    /// The decision half of a liquidity add. The host has already resolved
    /// (or just created) the pair and read its reserves, oriented to
    /// `(token_a, token_b)`; on success it transfers the two returned
    /// amounts from the depositor to the returned pair address and calls the
    /// pair's deposit. Identical tokens never reach this point: resolving
    /// the pair aborts on them first.
    pub fn add_liquidity(&self, token_a: Address, token_b: Address, amount_a_desired: i128,
        amount_b_desired: i128, amount_a_min: i128, amount_b_min: i128, reserve_a: i128,
        reserve_b: i128, to: Address, deadline: u64, now: u64)
        -> (r: Result<(i128, i128, Address), RouterErrorsForLibrary>)
        requires
            token_a != token_b,
            0 <= reserve_a,
            0 <= reserve_b,
        ensures
            ({
                let s = spec_add_liquidity_amounts(reserve_a as int, reserve_b as int,
                    amount_a_desired as int, amount_b_desired as int, amount_a_min as int,
                    amount_b_min as int);
                let pair = spec_pair_address(self.factory,
                    spec_sort_tokens(token_a, token_b).0, spec_sort_tokens(token_a, token_b).1);
                if !self.initialized {
                    r == Err::<(i128, i128, Address), RouterErrorsForLibrary>(
                        RouterErrorsForLibrary::RouterNotInitialized)
                } else if amount_a_desired < 0 || amount_b_desired < 0 || amount_a_min < 0
                    || amount_b_min < 0 {
                    r == Err::<(i128, i128, Address), RouterErrorsForLibrary>(
                        RouterErrorsForLibrary::RouterNegativeNotAllowed)
                } else if now >= deadline {
                    r == Err::<(i128, i128, Address), RouterErrorsForLibrary>(
                        RouterErrorsForLibrary::RouterDeadlineExpired)
                } else {
                    &&& (s matches Ok(p)
                        ==> r == Ok::<(i128, i128, Address), RouterErrorsForLibrary>(
                            ((p.0 as i128), (p.1 as i128), pair)))
                    &&& (s matches Err(e)
                        ==> r == Err::<(i128, i128, Address), RouterErrorsForLibrary>(e))
                }
            }),
    {
        let _ = to;
        if !self.initialized {
            return Err(RouterErrorsForLibrary::RouterNotInitialized);
        }
        if let Err(e) = is_amount_negative(amount_a_desired) {
            return Err(e);
        }
        if let Err(e) = is_amount_negative(amount_b_desired) {
            return Err(e);
        }
        if let Err(e) = is_amount_negative(amount_a_min) {
            return Err(e);
        }
        if let Err(e) = is_amount_negative(amount_b_min) {
            return Err(e);
        }
        if let Err(e) = is_deadline_expired(now, deadline) {
            return Err(e);
        }
        let amounts = match add_liquidity_amounts(reserve_a, reserve_b, amount_a_desired,
            amount_b_desired, amount_a_min, amount_b_min) {
            Ok(p) => p,
            Err(e) => {
                return Err(e);
            }
        };
        let pair = match pair_for(self.factory, token_a, token_b) {
            Ok(a) => a,
            Err(e) => {
                return Err(RouterErrorsForLibrary::from(e));
            }
        };
        Ok((amounts.0, amounts.1, pair))
    }

    /// The pre-withdrawal decision half of a liquidity removal: validates
    /// the request and names the pair the host must transfer the shares to
    /// and call withdraw on. `pair_exists` is the host's registry lookup.
    pub fn remove_liquidity_checks(&self, token_a: Address, token_b: Address, liquidity: i128,
        amount_a_min: i128, amount_b_min: i128, pair_exists: bool, deadline: u64, now: u64)
        -> (r: Result<Address, RouterErrorsForLibrary>)
        requires
            token_a != token_b,
        ensures
            if !self.initialized {
                r == Err::<Address, RouterErrorsForLibrary>(
                    RouterErrorsForLibrary::RouterNotInitialized)
            } else if liquidity < 0 || amount_a_min < 0 || amount_b_min < 0 {
                r == Err::<Address, RouterErrorsForLibrary>(
                    RouterErrorsForLibrary::RouterNegativeNotAllowed)
            } else if now >= deadline {
                r == Err::<Address, RouterErrorsForLibrary>(
                    RouterErrorsForLibrary::RouterDeadlineExpired)
            } else if !pair_exists {
                r == Err::<Address, RouterErrorsForLibrary>(
                    RouterErrorsForLibrary::RouterPairDoesNotExist)
            } else {
                r == Ok::<Address, RouterErrorsForLibrary>(
                    spec_pair_address(self.factory, spec_sort_tokens(token_a, token_b).0,
                        spec_sort_tokens(token_a, token_b).1))
            },
    {
        if !self.initialized {
            return Err(RouterErrorsForLibrary::RouterNotInitialized);
        }
        if let Err(e) = is_amount_negative(liquidity) {
            return Err(e);
        }
        if let Err(e) = is_amount_negative(amount_a_min) {
            return Err(e);
        }
        if let Err(e) = is_amount_negative(amount_b_min) {
            return Err(e);
        }
        if let Err(e) = is_deadline_expired(now, deadline) {
            return Err(e);
        }
        if !pair_exists {
            return Err(RouterErrorsForLibrary::RouterPairDoesNotExist);
        }
        match pair_for(self.factory, token_a, token_b) {
            Ok(a) => Ok(a),
            Err(e) => Err(RouterErrorsForLibrary::from(e)),
        }
    }

    /// The post-withdrawal half of a liquidity removal: re-orients the
    /// pair's `(amount_0, amount_1)` into the caller's `(token_a, token_b)`
    /// order and enforces the minima.
    pub fn remove_liquidity_amounts(&self, token_a: Address, token_b: Address, amount_0: i128,
        amount_1: i128, amount_a_min: i128, amount_b_min: i128)
        -> (r: Result<(i128, i128), RouterErrorsForLibrary>)
        requires
            token_a != token_b,
        ensures
            ({
                let sorted = spec_sort_tokens(token_a, token_b);
                let amount_a = if token_a == sorted.0 { amount_0 } else { amount_1 };
                let amount_b = if token_a == sorted.0 { amount_1 } else { amount_0 };
                if amount_a < amount_a_min {
                    r == Err::<(i128, i128), RouterErrorsForLibrary>(
                        RouterErrorsForLibrary::RouterInsufficientAAmount)
                } else if amount_b < amount_b_min {
                    r == Err::<(i128, i128), RouterErrorsForLibrary>(
                        RouterErrorsForLibrary::RouterInsufficientBAmount)
                } else {
                    r == Ok::<(i128, i128), RouterErrorsForLibrary>((amount_a, amount_b))
                }
            }),
    {
        let sorted = match sort_tokens(token_a, token_b) {
            Ok(t) => t,
            Err(e) => {
                return Err(RouterErrorsForLibrary::from(e));
            }
        };
        let amounts = if token_a == sorted.0 {
            (amount_0, amount_1)
        } else {
            (amount_1, amount_0)
        };
        if amounts.0 < amount_a_min {
            return Err(RouterErrorsForLibrary::RouterInsufficientAAmount);
        }
        if amounts.1 < amount_b_min {
            return Err(RouterErrorsForLibrary::RouterInsufficientBAmount);
        }
        Ok(amounts)
    }

    /// The decision half of swapping an exact input along a path: validates
    /// the request, quotes the whole chain, checks the final output against
    /// the caller's minimum, and lays out the hop plan. On success the host
    /// transfers `amounts[0]` of `path[0]` from the trader to the first
    /// step's pair and then executes the steps in order.
    pub fn swap_exact_tokens_for_tokens(&self, amount_in: i128, amount_out_min: i128,
        path: &Vec<Address>, reserves: &Vec<(i128, i128)>, to: Address, deadline: u64, now: u64)
        -> (r: Result<(Vec<i128>, Vec<SwapStep>), RouterErrorsForLibrary>)
        requires
            path@.len() >= 2 ==> reserves@.len() == path@.len() - 1,
            amount_in <= crate::pair::AMOUNT_LIMIT,
            forall|i: int| 0 <= i < reserves@.len() ==> {
                &&& 0 <= (#[trigger] reserves@[i]).0 <= crate::pair::AMOUNT_LIMIT
                &&& 0 <= reserves@[i].1 <= crate::pair::AMOUNT_LIMIT
            },
        ensures
            ({
                let n = reserves@.len() as int;
                if !self.initialized {
                    r == Err::<(Vec<i128>, Vec<SwapStep>), RouterErrorsForLibrary>(
                        RouterErrorsForLibrary::RouterNotInitialized)
                } else if amount_in < 0 || amount_out_min < 0 {
                    r == Err::<(Vec<i128>, Vec<SwapStep>), RouterErrorsForLibrary>(
                        RouterErrorsForLibrary::RouterNegativeNotAllowed)
                } else if now >= deadline {
                    r == Err::<(Vec<i128>, Vec<SwapStep>), RouterErrorsForLibrary>(
                        RouterErrorsForLibrary::RouterDeadlineExpired)
                } else if path@.len() < 2 {
                    r == Err::<(Vec<i128>, Vec<SwapStep>), RouterErrorsForLibrary>(
                        RouterErrorsForLibrary::LibraryInvalidPath)
                } else if !out_hops_valid(amount_in as int, reserves@, n) {
                    exists|j: int| #![trigger reserves@[j]] {
                        &&& 0 <= j < n
                        &&& out_hops_valid(amount_in as int, reserves@, j)
                        &&& r == Err::<(Vec<i128>, Vec<SwapStep>), RouterErrorsForLibrary>(
                            if amount_out_at(amount_in as int, reserves@, j) <= 0 {
                                RouterErrorsForLibrary::LibraryInsufficientInputAmount
                            } else {
                                RouterErrorsForLibrary::LibraryInsufficientLiquidity
                            })
                    }
                } else if amount_out_at(amount_in as int, reserves@, n) < amount_out_min {
                    r == Err::<(Vec<i128>, Vec<SwapStep>), RouterErrorsForLibrary>(
                        RouterErrorsForLibrary::RouterInsufficientOutputAmount)
                } else if exists|i: int| #![trigger path@[i]] 0 <= i < path@.len() - 1
                    && path@[i] == path@[i + 1] {
                    r == Err::<(Vec<i128>, Vec<SwapStep>), RouterErrorsForLibrary>(
                        RouterErrorsForLibrary::LibrarySortIdenticalTokens)
                } else {
                    r matches Ok(t)
                    && t.0@.len() == path@.len()
                    && (forall|k: int| 0 <= k < t.0@.len()
                        ==> #[trigger] t.0@[k] as int
                            == amount_out_at(amount_in as int, reserves@, k))
                    && t.1@.len() == path@.len() - 1
                    && (forall|i: int| 0 <= i < t.1@.len()
                        ==> #[trigger] t.1@[i] == spec_swap_step(self.factory, t.0@, path@, to, i))
                }
            }),
    {
        if !self.initialized {
            return Err(RouterErrorsForLibrary::RouterNotInitialized);
        }
        if let Err(e) = is_amount_negative(amount_in) {
            return Err(e);
        }
        if let Err(e) = is_amount_negative(amount_out_min) {
            return Err(e);
        }
        if let Err(e) = is_deadline_expired(now, deadline) {
            return Err(e);
        }
        let amounts = match quotes::get_amounts_out(amount_in, path, reserves) {
            Ok(v) => v,
            Err(e) => {
                let mapped = RouterErrorsForLibrary::from(e);
                proof {
                    lemma_map_out_error(amount_in as int, path@, reserves@, e, mapped);
                }
                return Err(mapped);
            }
        };
        let last = amounts[amounts.len() - 1];
        if last < amount_out_min {
            return Err(RouterErrorsForLibrary::RouterInsufficientOutputAmount);
        }
        let steps = match swap_plan(self.factory, &amounts, path, to) {
            Ok(s) => s,
            Err(e) => {
                return Err(e);
            }
        };
        Ok((amounts, steps))
    }

    /// The decision half of swapping for an exact output along a path:
    /// validates the request, quotes the required input chain backwards,
    /// checks it against the caller's maximum, and lays out the hop plan.
    /// On success the host transfers `amounts[0]` of `path[0]` from the
    /// trader to the first step's pair and then executes the steps in order.
    #[verifier::rlimit(80)]
    pub fn swap_tokens_for_exact_tokens(&self, amount_out: i128, amount_in_max: i128,
        path: &Vec<Address>, reserves: &Vec<(i128, i128)>, to: Address, deadline: u64, now: u64)
        -> (r: Result<(Vec<i128>, Vec<SwapStep>), RouterErrorsForLibrary>)
        requires
            path@.len() >= 2 ==> reserves@.len() == path@.len() - 1,
            forall|j: int| #![trigger reserves@[j]] 0 <= j < reserves@.len() ==> ({
                &&& in_hops_valid(amount_out as int, reserves@, j + 1)
                &&& amount_in_at(amount_out as int, reserves@, j + 1) > 0
                &&& reserves@[j].0 > 0
                &&& reserves@[j].1 > 0
            } ==> gin_fits(amount_in_at(amount_out as int, reserves@, j + 1),
                reserves@[j].0 as int, reserves@[j].1 as int)),
        ensures
            ({
                if !self.initialized {
                    r == Err::<(Vec<i128>, Vec<SwapStep>), RouterErrorsForLibrary>(
                        RouterErrorsForLibrary::RouterNotInitialized)
                } else if amount_out < 0 || amount_in_max < 0 {
                    r == Err::<(Vec<i128>, Vec<SwapStep>), RouterErrorsForLibrary>(
                        RouterErrorsForLibrary::RouterNegativeNotAllowed)
                } else if now >= deadline {
                    r == Err::<(Vec<i128>, Vec<SwapStep>), RouterErrorsForLibrary>(
                        RouterErrorsForLibrary::RouterDeadlineExpired)
                } else if path@.len() < 2 {
                    r == Err::<(Vec<i128>, Vec<SwapStep>), RouterErrorsForLibrary>(
                        RouterErrorsForLibrary::LibraryInvalidPath)
                } else if !in_hops_valid(amount_out as int, reserves@, 0) {
                    r == Err::<(Vec<i128>, Vec<SwapStep>), RouterErrorsForLibrary>(
                        RouterErrorsForLibrary::LibraryInsufficientOutputAmount)
                    || r == Err::<(Vec<i128>, Vec<SwapStep>), RouterErrorsForLibrary>(
                        RouterErrorsForLibrary::LibraryInsufficientLiquidity)
                } else if amount_in_at(amount_out as int, reserves@, 0) > amount_in_max {
                    r == Err::<(Vec<i128>, Vec<SwapStep>), RouterErrorsForLibrary>(
                        RouterErrorsForLibrary::RouterExcessiveInputAmount)
                } else if exists|i: int| #![trigger path@[i]] 0 <= i < path@.len() - 1
                    && path@[i] == path@[i + 1] {
                    r == Err::<(Vec<i128>, Vec<SwapStep>), RouterErrorsForLibrary>(
                        RouterErrorsForLibrary::LibrarySortIdenticalTokens)
                } else {
                    r matches Ok(t)
                    && t.0@.len() == path@.len()
                    && (forall|k: int| 0 <= k < t.0@.len()
                        ==> #[trigger] t.0@[k] as int
                            == amount_in_at(amount_out as int, reserves@, k))
                    && t.1@.len() == path@.len() - 1
                    && (forall|i: int| 0 <= i < t.1@.len()
                        ==> #[trigger] t.1@[i] == spec_swap_step(self.factory, t.0@, path@, to, i))
                }
            }),
    {
        if !self.initialized {
            return Err(RouterErrorsForLibrary::RouterNotInitialized);
        }
        if let Err(e) = is_amount_negative(amount_out) {
            return Err(e);
        }
        if let Err(e) = is_amount_negative(amount_in_max) {
            return Err(e);
        }
        if let Err(e) = is_deadline_expired(now, deadline) {
            return Err(e);
        }
        let amounts = match quotes::get_amounts_in(amount_out, path, reserves) {
            Ok(v) => v,
            Err(e) => {
                let mapped = RouterErrorsForLibrary::from(e);
                return Err(mapped);
            }
        };
        let first = amounts[0];
        if first > amount_in_max {
            return Err(RouterErrorsForLibrary::RouterExcessiveInputAmount);
        }
        let steps = match swap_plan(self.factory, &amounts, path, to) {
            Ok(s) => s,
            Err(e) => {
                return Err(e);
            }
        };
        Ok((amounts, steps))
    }
}


/// Transfers the forward chain's failure description through the error
/// mapping into the router's combined surface.
proof fn lemma_map_out_error(ai: int, path: Seq<Address>, reserves: Seq<(i128, i128)>,
    e: RaumFiLibraryError, mapped: RouterErrorsForLibrary)
    requires
        mapped == RouterErrorsForLibrary::from_spec(e),
        path.len() < 2 ==> e == RaumFiLibraryError::InvalidPath,
        path.len() >= 2 && !out_hops_valid(ai, reserves, reserves.len() as int)
            ==> exists|j: int| {
                &&& 0 <= j < reserves.len()
                &&& out_hops_valid(ai, reserves, j)
                &&& Err::<Vec<i128>, RaumFiLibraryError>(e)
                    == Err::<Vec<i128>, RaumFiLibraryError>(
                    if amount_out_at(ai, reserves, j) <= 0 {
                        RaumFiLibraryError::InsufficientInputAmount
                    } else {
                        RaumFiLibraryError::InsufficientLiquidity
                    })
            },
    ensures
        path.len() < 2 ==> mapped == RouterErrorsForLibrary::LibraryInvalidPath,
        path.len() >= 2 && !out_hops_valid(ai, reserves, reserves.len() as int)
            ==> exists|j: int| #![trigger reserves[j]] {
                &&& 0 <= j < reserves.len()
                &&& out_hops_valid(ai, reserves, j)
                &&& Err::<(Vec<i128>, Vec<SwapStep>), RouterErrorsForLibrary>(mapped)
                    == Err::<(Vec<i128>, Vec<SwapStep>), RouterErrorsForLibrary>(
                    if amount_out_at(ai, reserves, j) <= 0 {
                        RouterErrorsForLibrary::LibraryInsufficientInputAmount
                    } else {
                        RouterErrorsForLibrary::LibraryInsufficientLiquidity
                    })
            },
        path.len() >= 2 && !out_hops_valid(ai, reserves, reserves.len() as int)
            ==> exists|j: int| #![trigger reserves[j]] {
                &&& 0 <= j < reserves.len()
                &&& out_hops_valid(ai, reserves, j)
                &&& Err::<Vec<i128>, RouterErrorsForLibrary>(mapped)
                    == Err::<Vec<i128>, RouterErrorsForLibrary>(
                    if amount_out_at(ai, reserves, j) <= 0 {
                        RouterErrorsForLibrary::LibraryInsufficientInputAmount
                    } else {
                        RouterErrorsForLibrary::LibraryInsufficientLiquidity
                    })
            },
{
    if path.len() >= 2 && !out_hops_valid(ai, reserves, reserves.len() as int) {
        let jw = choose|j: int| {
            &&& 0 <= j < reserves.len()
            &&& out_hops_valid(ai, reserves, j)
            &&& Err::<Vec<i128>, RaumFiLibraryError>(e)
                == Err::<Vec<i128>, RaumFiLibraryError>(
                if amount_out_at(ai, reserves, j) <= 0 {
                    RaumFiLibraryError::InsufficientInputAmount
                } else {
                    RaumFiLibraryError::InsufficientLiquidity
                })
        };
        assert(0 <= jw < reserves.len());
        assert(reserves[jw] == reserves[jw]);
    }
}

/// If quoting all of A overshoots the desired B, then quoting that B back
/// never overshoots the desired A.
proof fn lemma_cross_quote_le(ad: int, bd: int, ra: int, rb: int)
    requires
        0 < ra,
        0 < rb,
        0 <= ad,
        0 <= bd,
        spec_quote(ad, ra, rb) > bd,
    ensures
        spec_quote(bd, rb, ra) <= ad,
{
    vstd::arithmetic::div_mod::lemma_fundamental_div_mod(ad * rb, ra);
    vstd::arithmetic::div_mod::lemma_mod_division_less_than_divisor(ad * rb, ra);
    assert(ad * rb >= ra * (bd + 1)) by (nonlinear_arith)
        requires
            0 < ra,
            ad * rb / ra >= bd + 1,
            ad * rb == ra * (ad * rb / ra) + (ad * rb) % ra,
            0 <= (ad * rb) % ra;
    assert(bd * ra <= ad * rb - ra) by (nonlinear_arith)
        requires
            ad * rb >= ra * (bd + 1);
    vstd::arithmetic::div_mod::lemma_div_is_ordered(bd * ra, ad * rb - 1, rb);
    vstd::arithmetic::div_mod::lemma_div_multiples_vanish_fancy(ad - 1, rb - 1, rb);
    assert(rb * (ad - 1) + (rb - 1) == ad * rb - 1) by (nonlinear_arith);
}

} // verus!
