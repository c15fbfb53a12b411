//! The pair engine: one token pair's reserves, its embedded
//! liquidity-provider share ledger, and the constant-product swap rules.
//!
//! The engine is an explicit state machine. The host environment owns the
//! underlying token ledgers; each entry point takes the pair's current ledger
//! balances as arguments and reports the transfers it performs through its
//! return value. Any error leaves the state exactly as it was, mirroring a
//! transaction that aborts and unwinds.

use vstd::prelude::*;
use crate::Address;
use crate::math::{ceil_div, checked_ceiling_div, is_sqrt_floor, isqrt, sqrt_floor,
    lemma_sqrt_floor_of, spec_min};
use crate::pair_token::PairToken;

verus! {

/// Shares minted on the first deposit and locked in the pair forever.
pub const MINIMUM_LIQUIDITY: i128 = 100;

/// Bound on balances and supplies under which every intermediate product in
/// the engine fits in an `i128`. Amounts beyond it would make the host abort
/// on checked arithmetic, so the verified entry points exclude them.
pub const AMOUNT_LIMIT: i128 = 0x4000_0000_0000_0000;

/// Everything a pair call can be rejected for.
#[derive(Clone, Copy, Debug, PartialEq, Eq, Structural)]
pub enum PairError {
    /// Already initialized.
    InitializeAlreadyInitialized,
    /// Not yet initialized.
    NotInitialized,
    /// `token_0` must order strictly below `token_1` at initialization.
    InitializeTokenOrderInvalid,
    /// No token-0 amount was sent for the deposit.
    DepositInsufficientAmountToken0,
    /// No token-1 amount was sent for the deposit.
    DepositInsufficientAmountToken1,
    /// The first deposit must mint more than the locked minimum.
    DepositInsufficientFirstLiquidity,
    /// The deposit would mint no shares.
    DepositInsufficientLiquidityMinted,
    /// A swap must request some output.
    SwapInsufficientOutputAmount,
    /// Negative output amounts are not supported.
    SwapNegativesOutNotSupported,
    /// A swap may not drain a reserve.
    SwapInsufficientLiquidity,
    /// The recipient may not be one of the pair's tokens.
    SwapInvalidTo,
    /// The swap received no input.
    SwapInsufficientInputAmount,
    /// Negative input amounts are not supported.
    SwapNegativesInNotSupported,
    /// The constant-product invariant, net of fees, would decrease.
    SwapConstantNotMet,
    /// No shares exist to withdraw against.
    WithdrawLiquidityNotInitialized,
    /// No redeemable shares were sent to the pair.
    WithdrawInsufficientSentShares,
    /// The withdrawal would pay out nothing in one of the tokens.
    WithdrawInsufficientLiquidityBurned,
    /// Overflow while updating reserves.
    UpdateOverflow,
}

impl PairError {
    /// The stable numeric code of this error on the wire.
    pub fn code(&self) -> (c: u32)
        ensures
            c == self.spec_code(),
    {
        match self {
            PairError::InitializeAlreadyInitialized => 101,
            PairError::NotInitialized => 102,
            PairError::InitializeTokenOrderInvalid => 103,
            PairError::DepositInsufficientAmountToken0 => 104,
            PairError::DepositInsufficientAmountToken1 => 105,
            PairError::DepositInsufficientFirstLiquidity => 106,
            PairError::DepositInsufficientLiquidityMinted => 107,
            PairError::SwapInsufficientOutputAmount => 108,
            PairError::SwapNegativesOutNotSupported => 109,
            PairError::SwapInsufficientLiquidity => 110,
            PairError::SwapInvalidTo => 111,
            PairError::SwapInsufficientInputAmount => 112,
            PairError::SwapNegativesInNotSupported => 113,
            PairError::SwapConstantNotMet => 114,
            PairError::WithdrawLiquidityNotInitialized => 115,
            PairError::WithdrawInsufficientSentShares => 116,
            PairError::WithdrawInsufficientLiquidityBurned => 117,
            PairError::UpdateOverflow => 118,
        }
    }

    /// Numeric code, at the specification level.
    pub open spec fn spec_code(self) -> u32 {
        match self {
            PairError::InitializeAlreadyInitialized => 101,
            PairError::NotInitialized => 102,
            PairError::InitializeTokenOrderInvalid => 103,
            PairError::DepositInsufficientAmountToken0 => 104,
            PairError::DepositInsufficientAmountToken1 => 105,
            PairError::DepositInsufficientFirstLiquidity => 106,
            PairError::DepositInsufficientLiquidityMinted => 107,
            PairError::SwapInsufficientOutputAmount => 108,
            PairError::SwapNegativesOutNotSupported => 109,
            PairError::SwapInsufficientLiquidity => 110,
            PairError::SwapInvalidTo => 111,
            PairError::SwapInsufficientInputAmount => 112,
            PairError::SwapNegativesInNotSupported => 113,
            PairError::SwapConstantNotMet => 114,
            PairError::WithdrawLiquidityNotInitialized => 115,
            PairError::WithdrawInsufficientSentShares => 116,
            PairError::WithdrawInsufficientLiquidityBurned => 117,
            PairError::UpdateOverflow => 118,
        }
    }
}

/// The factory's fee configuration, as read by the pair once per call.
#[derive(Clone, Copy, Debug, PartialEq, Eq, Structural)]
pub struct FeeSetting {
    /// Whether protocol-fee minting is switched on.
    pub enabled: bool,
    /// Recipient of protocol-fee shares.
    pub fee_to: Address,
}

/// A deposit, as reported to off-chain consumers.
#[derive(Clone, Copy, Debug, PartialEq, Eq, Structural)]
pub struct DepositEvent {
    pub to: Address,
    pub amount_0: i128,
    pub amount_1: i128,
    pub liquidity: i128,
    pub new_reserve_0: i128,
    pub new_reserve_1: i128,
}

/// A swap, as reported to off-chain consumers.
#[derive(Clone, Copy, Debug, PartialEq, Eq, Structural)]
pub struct SwapEvent {
    pub to: Address,
    pub amount_0_in: i128,
    pub amount_1_in: i128,
    pub amount_0_out: i128,
    pub amount_1_out: i128,
}

/// A withdrawal, as reported to off-chain consumers.
#[derive(Clone, Copy, Debug, PartialEq, Eq, Structural)]
pub struct WithdrawEvent {
    pub to: Address,
    pub liquidity: i128,
    pub amount_0: i128,
    pub amount_1: i128,
    pub new_reserve_0: i128,
    pub new_reserve_1: i128,
}

/// A reserve synchronization, as reported to off-chain consumers.
#[derive(Clone, Copy, Debug, PartialEq, Eq, Structural)]
pub struct SyncEvent {
    pub new_reserve_0: i128,
    pub new_reserve_1: i128,
}

/// Shares owed to the protocol-fee recipient: with fees on and a stored
/// reserve product, growth of the pool's root-`k` since that product dilutes
/// the providers by `supply * (rootK - rootKLast) / (5*rootK + rootKLast)`.
pub open spec fn spec_fee_shares(enabled: bool, multiplier: int, r0: int, r1: int, supply: int)
    -> int
{
    if enabled && multiplier != 0 {
        let root_k = sqrt_floor(r0 * r1);
        let root_k_last = sqrt_floor(multiplier);
        if root_k > root_k_last {
            supply * (root_k - root_k_last) / (5 * root_k + root_k_last)
        } else {
            0
        }
    } else {
        0
    }
}

/// One trading pair's persistent state.
pub struct PairState {
    /// The pair contract's own address (where locked shares live).
    pub address: Address,
    /// Whether `initialize` has run.
    pub initialized: bool,
    /// The owning factory.
    pub factory: Address,
    /// Lower-ordered token of the pair.
    pub token_0: Address,
    /// Higher-ordered token of the pair.
    pub token_1: Address,
    /// Recorded balance in `token_0` as of the last synchronization.
    pub reserve_0: i128,
    /// Recorded balance in `token_1` as of the last synchronization.
    pub reserve_1: i128,
    /// Product of the reserves right after the last protocol-fee mint
    /// (0 when never set or fees are off).
    pub multiplier: i128,
    /// The embedded liquidity-provider share ledger.
    pub lp: PairToken,
}

impl PairState {
    /// Well-formedness: non-negative bounded reserves, a non-negative stored
    /// product, canonically ordered tokens once active, and a coherent share
    /// ledger.
    pub open spec fn wf(self) -> bool {
        &&& self.lp.wf()
        &&& 0 <= self.reserve_0 <= AMOUNT_LIMIT
        &&& 0 <= self.reserve_1 <= AMOUNT_LIMIT
        &&& 0 <= self.multiplier
        &&& (self.initialized ==> self.token_0 < self.token_1)
    }

    /// A pair as deployed and not yet initialized.
    pub fn new(address: Address) -> (r: PairState)
        ensures
            r.wf(),
            r.address == address,
            !r.initialized,
            r.reserve_0 == 0 && r.reserve_1 == 0,
            r.multiplier == 0,
            r.lp.spec_supply() == 0,
            forall|a: Address| r.lp.spec_balance(a) == 0,
    {
        PairState {
            address,
            initialized: false,
            factory: 0,
            token_0: 0,
            token_1: 0,
            reserve_0: 0,
            reserve_1: 0,
            multiplier: 0,
            lp: PairToken::new(),
        }
    }

    /// One-shot activation: records the owning factory and the canonically
    /// ordered token addresses, with zero reserves.
    pub fn initialize(&mut self, factory: Address, token_0: Address, token_1: Address)
        -> (r: Result<(), PairError>)
        requires
            old(self).wf(),
        ensures
            final(self).wf(),
            r is Err ==> *final(self) == *old(self),
            old(self).initialized
                ==> r == Err::<(), PairError>(PairError::InitializeAlreadyInitialized),
            !old(self).initialized && token_0 >= token_1
                ==> r == Err::<(), PairError>(PairError::InitializeTokenOrderInvalid),
            !old(self).initialized && token_0 < token_1 ==> {
                &&& r is Ok
                &&& *final(self) == (PairState {
                    initialized: true,
                    factory,
                    token_0,
                    token_1,
                    reserve_0: 0,
                    reserve_1: 0,
                    ..*old(self)
                })
            },
    {
        if self.initialized {
            return Err(PairError::InitializeAlreadyInitialized);
        }
        if token_0 >= token_1 {
            return Err(PairError::InitializeTokenOrderInvalid);
        }
        self.factory = factory;
        self.token_0 = token_0;
        self.token_1 = token_1;
        self.reserve_0 = 0;
        self.reserve_1 = 0;
        self.initialized = true;
        Ok(())
    }

    /// The lower-ordered token address.
    pub fn token_0(&self) -> (r: Address)
        requires
            self.initialized,
        ensures
            r == self.token_0,
    {
        self.token_0
    }

    /// The higher-ordered token address.
    pub fn token_1(&self) -> (r: Address)
        requires
            self.initialized,
        ensures
            r == self.token_1,
    {
        self.token_1
    }

    /// The owning factory's address.
    pub fn factory(&self) -> (r: Address)
        requires
            self.initialized,
        ensures
            r == self.factory,
    {
        self.factory
    }

    /// Both reserves, as last synchronized.
    pub fn get_reserves(&self) -> (r: (i128, i128))
        ensures
            r == (self.reserve_0, self.reserve_1),
    {
        (self.reserve_0, self.reserve_1)
    }

    /// The stored reserve product from the last protocol-fee mint.
    pub fn k_multiplier(&self) -> (r: i128)
        ensures
            r == self.multiplier,
    {
        self.multiplier
    }

    /// Reports the excess of each ledger balance over the recorded reserve:
    /// the two amounts the caller transfers out to `to`. Reserves stay put.
    pub fn skim(&self, to: Address, balance_0: i128, balance_1: i128) -> (r: (i128, i128))
        requires
            self.wf(),
            self.reserve_0 <= balance_0,
            self.reserve_1 <= balance_1,
        ensures
            r == (((balance_0 - self.reserve_0) as i128), ((balance_1 - self.reserve_1) as i128)),
    {
        let _ = to;
        (balance_0 - self.reserve_0, balance_1 - self.reserve_1)
    }

    /// Forces the reserves to match the current ledger balances.
    pub fn sync(&mut self, balance_0: i128, balance_1: i128)
        requires
            old(self).wf(),
            0 <= balance_0 <= AMOUNT_LIMIT,
            0 <= balance_1 <= AMOUNT_LIMIT,
        ensures
            final(self).wf(),
            *final(self) == (PairState {
                reserve_0: balance_0,
                reserve_1: balance_1,
                ..*old(self)
            }),
    {
        self.reserve_0 = balance_0;
        self.reserve_1 = balance_1;
    }

    /// Mints liquidity for the amounts implied by the difference between the
    /// pair's current ledger balances and its recorded reserves: the first
    /// deposit mints the root of the amount product (less the permanently
    /// locked minimum, sent to the pair itself), later deposits mint
    /// pro rata against the smaller side. Runs the protocol-fee mint first
    /// and refreshes the stored reserve product when fees are on.
    pub fn deposit(&mut self, to: Address, balance_0: i128, balance_1: i128, fee: &FeeSetting)
        -> (r: Result<i128, PairError>)
        requires
            old(self).wf(),
            0 <= balance_0 <= AMOUNT_LIMIT,
            0 <= balance_1 <= AMOUNT_LIMIT,
            old(self).lp.spec_supply() <= AMOUNT_LIMIT,
            old(self).lp.spec_supply() > 0
                ==> 0 < old(self).reserve_0 && 0 < old(self).reserve_1,
        ensures
            final(self).wf(),
            r is Err ==> *final(self) == *old(self),
            ({
                let a0 = balance_0 - old(self).reserve_0;
                let a1 = balance_1 - old(self).reserve_1;
                let ts = old(self).lp.spec_supply();
                let shares = spec_fee_shares(fee.enabled, old(self).multiplier as int,
                    old(self).reserve_0 as int, old(self).reserve_1 as int, ts);
                let ts2 = ts + shares;
                let liquidity = if ts2 == 0 {
                    sqrt_floor(a0 * a1) - MINIMUM_LIQUIDITY
                } else {
                    spec_min(a0 * ts2 / old(self).reserve_0 as int,
                        a1 * ts2 / old(self).reserve_1 as int)
                };
                if !old(self).initialized {
                    r == Err::<i128, PairError>(PairError::NotInitialized)
                } else if a0 <= 0 {
                    r == Err::<i128, PairError>(PairError::DepositInsufficientAmountToken0)
                } else if a1 <= 0 {
                    r == Err::<i128, PairError>(PairError::DepositInsufficientAmountToken1)
                } else if ts2 == 0 && sqrt_floor(a0 * a1) <= MINIMUM_LIQUIDITY {
                    r == Err::<i128, PairError>(PairError::DepositInsufficientFirstLiquidity)
                } else if ts2 != 0 && liquidity <= 0 {
                    r == Err::<i128, PairError>(PairError::DepositInsufficientLiquidityMinted)
                } else {
                    &&& r == Ok::<i128, PairError>(liquidity as i128)
                    &&& *final(self) == (PairState {
                        reserve_0: balance_0,
                        reserve_1: balance_1,
                        multiplier: final(self).multiplier,
                        lp: final(self).lp,
                        ..*old(self)
                    })
                    &&& final(self).multiplier as int
                        == if fee.enabled { balance_0 * balance_1 } else { 0 }
                    &&& final(self).lp.spec_supply()
                        == ts2 + liquidity
                            + if ts2 == 0 { MINIMUM_LIQUIDITY as int } else { 0 }
                    &&& forall|a: Address| final(self).lp.spec_balance(a)
                        == old(self).lp.spec_balance(a)
                            + (if a == fee.fee_to { shares } else { 0 })
                            + (if a == old(self).address && ts2 == 0 {
                                MINIMUM_LIQUIDITY as int
                            } else {
                                0
                            })
                            + (if a == to { liquidity } else { 0 })
                }
            }),
    {
        proof {
            self.lp.lemma_balance_bounds(0);
        }
        if !self.initialized {
            return Err(PairError::NotInitialized);
        }
        let reserve_0 = self.reserve_0;
        let reserve_1 = self.reserve_1;
        let amount_0 = balance_0 - reserve_0;
        let amount_1 = balance_1 - reserve_1;
        if amount_0 <= 0 {
            return Err(PairError::DepositInsufficientAmountToken0);
        }
        if amount_1 <= 0 {
            return Err(PairError::DepositInsufficientAmountToken1);
        }
        let (fee_on, fee_shares) = self.mint_fee(reserve_0, reserve_1, fee);
        let total_supply = self.lp.total_supply() + fee_shares;
        let liquidity: i128;
        let first: bool;
        if total_supply == 0 {
            assert(amount_0 * amount_1 <= AMOUNT_LIMIT * AMOUNT_LIMIT) by (nonlinear_arith)
                requires
                    0 < amount_0 <= AMOUNT_LIMIT,
                    0 < amount_1 <= AMOUNT_LIMIT;
            let previous_liquidity = isqrt(amount_0 * amount_1);
            proof {
                lemma_sqrt_floor_of((amount_0 * amount_1) as int, previous_liquidity as int);
            }
            if previous_liquidity <= MINIMUM_LIQUIDITY {
                return Err(PairError::DepositInsufficientFirstLiquidity);
            }
            liquidity = previous_liquidity - MINIMUM_LIQUIDITY;
            first = true;
        } else {
            assert(amount_0 * total_supply <= 2 * (AMOUNT_LIMIT * AMOUNT_LIMIT))
                by (nonlinear_arith)
                requires
                    0 < amount_0 <= AMOUNT_LIMIT,
                    0 <= total_supply <= 2 * AMOUNT_LIMIT;
            assert(amount_1 * total_supply <= 2 * (AMOUNT_LIMIT * AMOUNT_LIMIT))
                by (nonlinear_arith)
                requires
                    0 < amount_1 <= AMOUNT_LIMIT,
                    0 <= total_supply <= 2 * AMOUNT_LIMIT;
            let shares_0 = (amount_0 * total_supply) / reserve_0;
            let shares_1 = (amount_1 * total_supply) / reserve_1;
            proof {
                vstd::arithmetic::div_mod::lemma_div_nonincreasing(
                    amount_0 as int * total_supply as int, reserve_0 as int);
                vstd::arithmetic::div_mod::lemma_div_nonincreasing(
                    amount_1 as int * total_supply as int, reserve_1 as int);
            }
            liquidity = if shares_0 < shares_1 {
                shares_0
            } else {
                shares_1
            };
            first = false;
            if liquidity <= 0 {
                return Err(PairError::DepositInsufficientLiquidityMinted);
            }
        }
        if fee_shares > 0 {
            self.lp.internal_mint(fee.fee_to, fee_shares);
        }
        if first {
            self.lp.internal_mint(self.address, MINIMUM_LIQUIDITY);
        }
        self.lp.internal_mint(to, liquidity);
        self.reserve_0 = balance_0;
        self.reserve_1 = balance_1;
        if fee_on {
            assert(0 <= balance_0 * balance_1 <= AMOUNT_LIMIT * AMOUNT_LIMIT)
                by (nonlinear_arith)
                requires
                    0 <= balance_0 <= AMOUNT_LIMIT,
                    0 <= balance_1 <= AMOUNT_LIMIT;
            self.multiplier = balance_0 * balance_1;
        } else if self.multiplier != 0 {
            self.multiplier = 0;
        }
        Ok(liquidity)
    }

    /// Executes a swap. The caller has already optimistically transferred the
    /// requested outputs to `to`; `balance_0`/`balance_1` are the pair's
    /// ledger balances before those transfers. The inputs are whatever the
    /// balances exceed the reserves by, and the balances net of the 0.3% fee
    /// (rounded up) must keep the constant product from falling.
    pub fn swap(&mut self, amount_0_out: i128, amount_1_out: i128, to: Address,
        balance_0: i128, balance_1: i128)
        -> (r: Result<(), PairError>)
        requires
            old(self).wf(),
            old(self).reserve_0 <= balance_0 <= AMOUNT_LIMIT,
            old(self).reserve_1 <= balance_1 <= AMOUNT_LIMIT,
        ensures
            final(self).wf(),
            r is Err ==> *final(self) == *old(self),
            ({
                let r0 = old(self).reserve_0 as int;
                let r1 = old(self).reserve_1 as int;
                let in0 = balance_0 - r0;
                let in1 = balance_1 - r1;
                let fee0 = ceil_div(3 * in0, 1000);
                let fee1 = ceil_div(3 * in1, 1000);
                if !old(self).initialized {
                    r == Err::<(), PairError>(PairError::NotInitialized)
                } else if amount_0_out == 0 && amount_1_out == 0 {
                    r == Err::<(), PairError>(PairError::SwapInsufficientOutputAmount)
                } else if amount_0_out < 0 || amount_1_out < 0 {
                    r == Err::<(), PairError>(PairError::SwapNegativesOutNotSupported)
                } else if amount_0_out >= r0 || amount_1_out >= r1 {
                    r == Err::<(), PairError>(PairError::SwapInsufficientLiquidity)
                } else if to == old(self).token_0 || to == old(self).token_1 {
                    r == Err::<(), PairError>(PairError::SwapInvalidTo)
                } else if in0 == 0 && in1 == 0 {
                    r == Err::<(), PairError>(PairError::SwapInsufficientInputAmount)
                } else if (balance_0 - amount_0_out - fee0) * (balance_1 - amount_1_out - fee1)
                    < r0 * r1 {
                    r == Err::<(), PairError>(PairError::SwapConstantNotMet)
                } else {
                    &&& r is Ok
                    &&& *final(self) == (PairState {
                        reserve_0: (balance_0 - amount_0_out) as i128,
                        reserve_1: (balance_1 - amount_1_out) as i128,
                        ..*old(self)
                    })
                    &&& (balance_0 - amount_0_out - fee0) * (balance_1 - amount_1_out - fee1)
                        >= r0 * r1
                    &&& final(self).reserve_0 * final(self).reserve_1 >= r0 * r1
                }
            }),
    {
        if !self.initialized {
            return Err(PairError::NotInitialized);
        }
        let reserve_0 = self.reserve_0;
        let reserve_1 = self.reserve_1;
        if amount_0_out == 0 && amount_1_out == 0 {
            return Err(PairError::SwapInsufficientOutputAmount);
        }
        if amount_0_out < 0 || amount_1_out < 0 {
            return Err(PairError::SwapNegativesOutNotSupported);
        }
        if amount_0_out >= reserve_0 || amount_1_out >= reserve_1 {
            return Err(PairError::SwapInsufficientLiquidity);
        }
        if to == self.token_0 || to == self.token_1 {
            return Err(PairError::SwapInvalidTo);
        }
        let balance_0_post = balance_0 - amount_0_out;
        let balance_1_post = balance_1 - amount_1_out;
        let amount_0_in = if balance_0_post > reserve_0 - amount_0_out {
            balance_0_post - (reserve_0 - amount_0_out)
        } else {
            0
        };
        let amount_1_in = if balance_1_post > reserve_1 - amount_1_out {
            balance_1_post - (reserve_1 - amount_1_out)
        } else {
            0
        };
        if amount_0_in == 0 && amount_1_in == 0 {
            return Err(PairError::SwapInsufficientInputAmount);
        }
        if amount_0_in < 0 || amount_1_in < 0 {
            return Err(PairError::SwapNegativesInNotSupported);
        }
        let fee_0 = checked_ceiling_div(amount_0_in * 3, 1000).unwrap();
        let fee_1 = checked_ceiling_div(amount_1_in * 3, 1000).unwrap();
        proof {
            crate::math::lemma_fee_le_amount(amount_0_in as int);
            crate::math::lemma_fee_le_amount(amount_1_in as int);
            assert(ceil_div(amount_0_in as int * 3, 1000) == ceil_div(3 * (balance_0 - reserve_0), 1000));
            assert(ceil_div(amount_1_in as int * 3, 1000) == ceil_div(3 * (balance_1 - reserve_1), 1000));
        }
        let balance_0_minus_fee = balance_0_post - fee_0;
        let balance_1_minus_fee = balance_1_post - fee_1;
        assert(balance_0_minus_fee * balance_1_minus_fee
            <= AMOUNT_LIMIT * AMOUNT_LIMIT) by (nonlinear_arith)
            requires
                0 < balance_0_minus_fee <= AMOUNT_LIMIT,
                0 < balance_1_minus_fee <= AMOUNT_LIMIT;
        assert(reserve_0 * reserve_1 <= AMOUNT_LIMIT * AMOUNT_LIMIT) by (nonlinear_arith)
            requires
                0 <= reserve_0 <= AMOUNT_LIMIT,
                0 <= reserve_1 <= AMOUNT_LIMIT;
        if balance_0_minus_fee * balance_1_minus_fee < reserve_0 * reserve_1 {
            return Err(PairError::SwapConstantNotMet);
        }
        self.reserve_0 = balance_0_post;
        self.reserve_1 = balance_1_post;
        assert(balance_0_post * balance_1_post >= reserve_0 * reserve_1) by (nonlinear_arith)
            requires
                0 < balance_0_minus_fee <= balance_0_post,
                0 < balance_1_minus_fee <= balance_1_post,
                balance_0_minus_fee * balance_1_minus_fee >= reserve_0 * reserve_1;
        Ok(())
    }

    /// Redeems the shares previously sent to the pair itself (less the locked
    /// minimum) for a pro-rata cut of both ledger balances, burning them.
    /// Runs the protocol-fee mint first and refreshes the stored reserve
    /// product when fees are on. Returns the two amounts transferred to `to`.
    pub fn withdraw(&mut self, to: Address, balance_0: i128, balance_1: i128, fee: &FeeSetting)
        -> (r: Result<(i128, i128), PairError>)
        requires
            old(self).wf(),
            0 <= balance_0 <= AMOUNT_LIMIT,
            0 <= balance_1 <= AMOUNT_LIMIT,
            old(self).lp.spec_supply() <= AMOUNT_LIMIT,
        ensures
            final(self).wf(),
            r is Err ==> *final(self) == *old(self),
            ({
                let bs = old(self).lp.spec_balance(old(self).address);
                let user_shares = bs - MINIMUM_LIQUIDITY;
                let ts = old(self).lp.spec_supply();
                let shares = spec_fee_shares(fee.enabled, old(self).multiplier as int,
                    old(self).reserve_0 as int, old(self).reserve_1 as int, ts);
                let ts2 = ts + shares;
                let amount_0 = balance_0 * user_shares / ts2;
                let amount_1 = balance_1 * user_shares / ts2;
                if !old(self).initialized {
                    r == Err::<(i128, i128), PairError>(PairError::NotInitialized)
                } else if bs == 0 {
                    r == Err::<(i128, i128), PairError>(PairError::WithdrawLiquidityNotInitialized)
                } else if user_shares <= 0 {
                    r == Err::<(i128, i128), PairError>(PairError::WithdrawInsufficientSentShares)
                } else if amount_0 <= 0 || amount_1 <= 0 {
                    r == Err::<(i128, i128), PairError>(
                        PairError::WithdrawInsufficientLiquidityBurned)
                } else {
                    &&& r == Ok::<(i128, i128), PairError>(
                        ((amount_0 as i128), (amount_1 as i128)))
                    &&& *final(self) == (PairState {
                        reserve_0: (balance_0 - amount_0) as i128,
                        reserve_1: (balance_1 - amount_1) as i128,
                        multiplier: final(self).multiplier,
                        lp: final(self).lp,
                        ..*old(self)
                    })
                    &&& final(self).multiplier as int == if fee.enabled {
                        (balance_0 - amount_0) * (balance_1 - amount_1)
                    } else {
                        0
                    }
                    &&& final(self).lp.spec_supply() == ts2 - user_shares
                    &&& forall|a: Address| final(self).lp.spec_balance(a)
                        == old(self).lp.spec_balance(a)
                            + (if a == fee.fee_to { shares } else { 0 })
                            - (if a == old(self).address { user_shares } else { 0 })
                }
            }),
    {
        proof {
            self.lp.lemma_balance_bounds(self.address);
        }
        if !self.initialized {
            return Err(PairError::NotInitialized);
        }
        let balance_shares = self.lp.balance(self.address);
        if balance_shares == 0 {
            return Err(PairError::WithdrawLiquidityNotInitialized);
        }
        let reserve_0 = self.reserve_0;
        let reserve_1 = self.reserve_1;
        let user_sent_shares = balance_shares - MINIMUM_LIQUIDITY;
        if user_sent_shares <= 0 {
            return Err(PairError::WithdrawInsufficientSentShares);
        }
        let (fee_on, fee_shares) = self.mint_fee(reserve_0, reserve_1, fee);
        let total_supply = self.lp.total_supply() + fee_shares;
        assert(balance_0 * user_sent_shares <= AMOUNT_LIMIT * AMOUNT_LIMIT)
            by (nonlinear_arith)
            requires
                0 <= balance_0 <= AMOUNT_LIMIT,
                0 < user_sent_shares <= AMOUNT_LIMIT;
        assert(balance_1 * user_sent_shares <= AMOUNT_LIMIT * AMOUNT_LIMIT)
            by (nonlinear_arith)
            requires
                0 <= balance_1 <= AMOUNT_LIMIT,
                0 < user_sent_shares <= AMOUNT_LIMIT;
        let amount_0 = (balance_0 * user_sent_shares) / total_supply;
        let amount_1 = (balance_1 * user_sent_shares) / total_supply;
        if amount_0 <= 0 || amount_1 <= 0 {
            return Err(PairError::WithdrawInsufficientLiquidityBurned);
        }
        proof {
            lemma_pro_rata_le_balance(balance_0 as int, user_sent_shares as int,
                total_supply as int);
            lemma_pro_rata_le_balance(balance_1 as int, user_sent_shares as int,
                total_supply as int);
        }
        if fee_shares > 0 {
            self.lp.internal_mint(fee.fee_to, fee_shares);
        }
        self.lp.internal_burn(self.address, user_sent_shares);
        let new_balance_0 = balance_0 - amount_0;
        let new_balance_1 = balance_1 - amount_1;
        self.reserve_0 = new_balance_0;
        self.reserve_1 = new_balance_1;
        if fee_on {
            assert(0 <= new_balance_0 * new_balance_1 <= AMOUNT_LIMIT * AMOUNT_LIMIT)
                by (nonlinear_arith)
                requires
                    0 <= new_balance_0 <= AMOUNT_LIMIT,
                    0 <= new_balance_1 <= AMOUNT_LIMIT;
            self.multiplier = new_balance_0 * new_balance_1;
        } else if self.multiplier != 0 {
            self.multiplier = 0;
        }
        Ok((amount_0, amount_1))
    }

    /// Computes (without minting) whether fees are on and how many shares the
    /// accrued protocol fee is worth at the given reserves.
    fn mint_fee(&self, reserve_0: i128, reserve_1: i128, fee: &FeeSetting) -> (r: (bool, i128))
        requires
            self.wf(),
            0 <= reserve_0 <= AMOUNT_LIMIT,
            0 <= reserve_1 <= AMOUNT_LIMIT,
            self.lp.spec_supply() <= AMOUNT_LIMIT,
        ensures
            r.0 == fee.enabled,
            r.1 == spec_fee_shares(fee.enabled, self.multiplier as int, reserve_0 as int,
                reserve_1 as int, self.lp.spec_supply()),
            0 <= 5 * r.1 <= self.lp.spec_supply(),
    {
        proof {
            self.lp.lemma_balance_bounds(0);
        }
        if !fee.enabled {
            return (false, 0);
        }
        if self.multiplier == 0 {
            return (true, 0);
        }
        assert(reserve_0 * reserve_1 <= AMOUNT_LIMIT * AMOUNT_LIMIT) by (nonlinear_arith)
            requires
                0 <= reserve_0 <= AMOUNT_LIMIT,
                0 <= reserve_1 <= AMOUNT_LIMIT;
        let k = reserve_0 * reserve_1;
        let root_k = isqrt(k);
        let root_multiplier = isqrt(self.multiplier);
        proof {
            lemma_sqrt_floor_of(k as int, root_k as int);
            lemma_sqrt_floor_of(self.multiplier as int, root_multiplier as int);
        }
        if root_k > root_multiplier {
            let total_supply = self.lp.total_supply();
            assert(root_k <= AMOUNT_LIMIT) by (nonlinear_arith)
                requires
                    is_sqrt_floor(k as int, root_k as int),
                    k <= AMOUNT_LIMIT * AMOUNT_LIMIT;
            assert(total_supply * (root_k - root_multiplier)
                <= AMOUNT_LIMIT * AMOUNT_LIMIT) by (nonlinear_arith)
                requires
                    0 <= total_supply <= AMOUNT_LIMIT,
                    0 <= root_multiplier < root_k <= AMOUNT_LIMIT;
            let numerator = total_supply * (root_k - root_multiplier);
            let denominator = root_k * 5 + root_multiplier;
            let shares = numerator / denominator;
            proof {
                lemma_fee_share_bound(total_supply as int, root_k as int,
                    root_multiplier as int);
            }
            (true, shares)
        } else {
            (true, 0)
        }
    }
}

/// A pro-rata cut `b * us / ts` with `0 < us <= ts` never exceeds `b`.
proof fn lemma_pro_rata_le_balance(b: int, us: int, ts: int)
    requires
        0 <= b,
        0 < us <= ts,
    ensures
        0 <= b * us / ts <= b,
{
    assert(0 <= b * us <= b * ts) by (nonlinear_arith)
        requires
            0 <= b,
            0 < us <= ts;
    vstd::arithmetic::div_mod::lemma_div_is_ordered(b * us, b * ts, ts);
    vstd::arithmetic::div_mod::lemma_div_multiples_vanish(b, ts);
    assert(b * ts == ts * b) by (nonlinear_arith);
    assert(b * ts / ts == b);
    if b * us == 0 {
        vstd::arithmetic::div_mod::lemma_div_of0(ts);
        assert(b * us / ts == 0);
    } else {
        vstd::arithmetic::div_mod::lemma_div_pos_is_pos(b * us, ts);
    }
}

/// With `0 <= rm < rk` and `0 <= ts`, the fee shares
/// `ts * (rk - rm) / (5*rk + rm)` are at most a fifth of the supply.
proof fn lemma_fee_share_bound(ts: int, rk: int, rm: int)
    requires
        0 <= ts,
        0 <= rm < rk,
    ensures
        0 <= 5 * (ts * (rk - rm) / (5 * rk + rm)) <= ts,
{
    let d = rk - rm;
    let num = ts * d;
    let shares = num / (5 * rk + rm);
    assert(0 <= num) by (nonlinear_arith)
        requires
            0 <= ts,
            0 < d,
            num == ts * d;
    assert(5 * d <= 5 * rk + rm) by (nonlinear_arith)
        requires
            0 <= rm,
            d == rk - rm;
    assert(1 <= 5 * d <= 5 * rk + rm);
    vstd::arithmetic::div_mod::lemma_div_is_ordered_by_denominator(num, 5 * d, 5 * rk + rm);
    assert(num / (5 * d) == num / (d * 5));
    vstd::arithmetic::div_mod::lemma_div_denominator(num, d, 5);
    vstd::arithmetic::div_mod::lemma_div_multiples_vanish(ts, d);
    assert(num / d == ts);
    assert(shares <= ts / 5);
    assert(0 <= shares) by {
        if num == 0 {
            vstd::arithmetic::div_mod::lemma_div_of0(5 * rk + rm);
        } else {
            vstd::arithmetic::div_mod::lemma_div_pos_is_pos(num, 5 * rk + rm);
        }
    };
    vstd::arithmetic::div_mod::lemma_fundamental_div_mod(ts, 5);
    vstd::arithmetic::div_mod::lemma_mod_division_less_than_divisor(ts, 5);
}

} // verus!
