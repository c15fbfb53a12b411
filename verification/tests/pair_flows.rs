//! Pair engine flows: deposits, swaps, withdrawals and the protocol fee,
//! driven against ledger models of the two underlying tokens.

use raumfi::pair::{FeeSetting, PairError, PairState, MINIMUM_LIQUIDITY};
use raumfi::pair_token::PairToken;

const USER: u64 = 1;
const ADMIN: u64 = 2;
const TOKEN_0: u64 = 10;
const TOKEN_1: u64 = 11;
const FACTORY: u64 = 50;
const PAIR: u64 = 100;

const SUPPLY_0: i128 = 123_000_000_000_000_000_000;
const SUPPLY_1: i128 = 321_000_000_000_000_000_000;

fn setup() -> (PairState, PairToken, PairToken) {
    let mut token_0 = PairToken::new();
    let mut token_1 = PairToken::new();
    token_0.internal_mint(USER, SUPPLY_0);
    token_1.internal_mint(USER, SUPPLY_1);
    let mut pair = PairState::new(PAIR);
    pair.initialize(FACTORY, TOKEN_0, TOKEN_1).unwrap();
    (pair, token_0, token_1)
}

fn fees_off() -> FeeSetting {
    FeeSetting { enabled: false, fee_to: ADMIN }
}

fn fees_on() -> FeeSetting {
    FeeSetting { enabled: true, fee_to: ADMIN }
}

fn add_liquidity(
    pair: &mut PairState,
    token_0: &mut PairToken,
    token_1: &mut PairToken,
    fee: &FeeSetting,
    amount_0: i128,
    amount_1: i128,
) -> i128 {
    token_0.transfer(USER, PAIR, amount_0);
    token_1.transfer(USER, PAIR, amount_1);
    pair.deposit(USER, token_0.balance(PAIR), token_1.balance(PAIR), fee)
        .unwrap()
}

#[test]
fn initialize_initial_values_0() {
    let mut factory = raumfi::factory::FactoryState::new(FACTORY);
    factory.initialize(ADMIN, 7).unwrap();
    assert_eq!(factory.fee_to(), Ok(ADMIN));
    assert_eq!(factory.fee_to_setter(), Ok(ADMIN));
    assert_eq!(factory.fees_enabled(), Ok(false));

    let mut pair = PairState::new(PAIR);
    pair.initialize(FACTORY, TOKEN_0, TOKEN_1).unwrap();
    assert_eq!(pair.token_0(), TOKEN_0);
    assert_eq!(pair.token_1(), TOKEN_1);
    assert_eq!(pair.factory(), FACTORY);
    assert_eq!(pair.get_reserves(), (0, 0));
    assert_eq!(pair.k_multiplier(), 0);
    assert_eq!(pair.lp.total_supply(), 0);
}

#[test]
fn initialize_rejects_misuse() {
    let mut pair = PairState::new(PAIR);
    assert_eq!(
        pair.initialize(FACTORY, TOKEN_1, TOKEN_0),
        Err(PairError::InitializeTokenOrderInvalid)
    );
    pair.initialize(FACTORY, TOKEN_0, TOKEN_1).unwrap();
    assert_eq!(
        pair.initialize(FACTORY, TOKEN_0, TOKEN_1),
        Err(PairError::InitializeAlreadyInitialized)
    );
}

#[test]
fn deposit_only_token_0_sent() {
    let (mut pair, mut token_0, mut token_1) = setup();
    let amount_0: i128 = 1_000_000;
    token_0.transfer(USER, PAIR, amount_0);
    let res = pair.deposit(USER, token_0.balance(PAIR), token_1.balance(PAIR), &fees_off());
    assert_eq!(res, Err(PairError::DepositInsufficientAmountToken1));
}

#[test]
fn deposit_insufficient_first_liquidity() {
    let (mut pair, mut token_0, mut token_1) = setup();
    token_0.transfer(USER, PAIR, 1_00);
    token_1.transfer(USER, PAIR, 1_00);
    let res = pair.deposit(USER, token_0.balance(PAIR), token_1.balance(PAIR), &fees_off());
    assert_eq!(res, Err(PairError::DepositInsufficientFirstLiquidity));
}

#[test]
fn deposit_sufficient_first_liquidity() {
    let (mut pair, mut token_0, mut token_1) = setup();
    token_0.transfer(USER, PAIR, 1_001);
    token_1.transfer(USER, PAIR, 1_001);
    pair.deposit(USER, token_0.balance(PAIR), token_1.balance(PAIR), &fees_off())
        .unwrap();
}

#[test]
fn deposit_basic() {
    let (mut pair, mut token_0, mut token_1) = setup();
    let amount_0: i128 = 1_000_000_000_000_000_000;
    let amount_1: i128 = 4_000_000_000_000_000_000;
    add_liquidity(&mut pair, &mut token_0, &mut token_1, &fees_off(), amount_0, amount_1);
    assert_eq!(pair.get_reserves(), (amount_0, amount_1));
}

#[test]
fn first_deposit_mints_exact_shares() {
    // floor(sqrt(1001 * 1001)) - 100 shares go to the depositor.
    let (mut pair, mut token_0, mut token_1) = setup();
    let minted = add_liquidity(&mut pair, &mut token_0, &mut token_1, &fees_off(), 1_001, 1_001);
    assert_eq!(minted, 901);
    assert_eq!(pair.lp.balance(USER), 901);
    assert_eq!(pair.lp.balance(PAIR), MINIMUM_LIQUIDITY);
    assert_eq!(pair.lp.total_supply(), 1_001);
}

#[test]
fn try_withdraw_not_yet_deposited() {
    let (mut pair, token_0, token_1) = setup();
    let result = pair.withdraw(USER, token_0.balance(PAIR), token_1.balance(PAIR), &fees_off());
    assert_eq!(result, Err(PairError::WithdrawLiquidityNotInitialized));
}

#[test]
fn try_withdraw_not_shares_sent() {
    let (mut pair, mut token_0, mut token_1) = setup();
    add_liquidity(&mut pair, &mut token_0, &mut token_1, &fees_off(), 50_000_000, 100_000_000);
    let result = pair.withdraw(USER, token_0.balance(PAIR), token_1.balance(PAIR), &fees_off());
    assert_eq!(result, Err(PairError::WithdrawInsufficientSentShares));
}

#[test]
fn withdraw() {
    let (mut pair, mut token_0, mut token_1) = setup();
    let amount_0: i128 = 3_000_000;
    let amount_1: i128 = 3_000_000;
    let expected_liquidity: i128 = 3_000_000;
    let minimum_liquidity: i128 = 1_00;
    add_liquidity(&mut pair, &mut token_0, &mut token_1, &fees_off(), amount_0, amount_1);

    pair.lp.transfer(USER, PAIR, expected_liquidity - minimum_liquidity);

    let (out_0, out_1) = pair
        .withdraw(USER, token_0.balance(PAIR), token_1.balance(PAIR), &fees_off())
        .unwrap();
    token_0.transfer(PAIR, USER, out_0);
    token_1.transfer(PAIR, USER, out_1);

    assert_eq!(pair.lp.balance(USER), 0);
    assert_eq!(pair.lp.total_supply(), minimum_liquidity);
    assert_eq!(token_0.balance(PAIR), 100);
    assert_eq!(token_1.balance(PAIR), 100);
    assert_eq!(token_0.balance(USER), SUPPLY_0 - 100);
    assert_eq!(token_1.balance(USER), SUPPLY_1 - 100);
}

#[test]
fn deposit_withdraw_round_trip_dust() {
    // Principal comes back less exactly the locked share, rounded up.
    let (mut pair, mut token_0, mut token_1) = setup();
    let amount_0: i128 = 50_000_000;
    let amount_1: i128 = 100_000_000;
    let minted = add_liquidity(&mut pair, &mut token_0, &mut token_1, &fees_off(), amount_0, amount_1);
    // floor(sqrt(50e6 * 100e6)) = 70_710_678
    assert_eq!(minted, 70_710_678 - MINIMUM_LIQUIDITY);
    pair.lp.transfer(USER, PAIR, minted);
    let (out_0, out_1) = pair
        .withdraw(USER, token_0.balance(PAIR), token_1.balance(PAIR), &fees_off())
        .unwrap();
    // a - ceil(100 * a / 70_710_678) in each token
    assert_eq!(out_0, 49_999_929);
    assert_eq!(out_1, 99_999_858);
    assert!(out_0 <= amount_0 && out_1 <= amount_1);
}

#[test]
fn fee_off() {
    let (mut pair, mut token_0, mut token_1) = setup();
    let amount_0: i128 = 50_000_000;
    let amount_1: i128 = 100_000_000;
    let expected_liquidity: i128 = 70_710_678;
    let minimum_liquidity: i128 = 1_00;

    assert_eq!(pair.k_multiplier(), 0);
    add_liquidity(&mut pair, &mut token_0, &mut token_1, &fees_off(), amount_0, amount_1);
    assert_eq!(pair.get_reserves(), (amount_0, amount_1));
    assert_eq!(pair.k_multiplier(), 0);

    let swap_amount_0: i128 = 10_000_000;
    let expected_output_amount_1: i128 = 16624979;

    token_0.transfer(USER, PAIR, swap_amount_0);
    pair.swap(
        0,
        expected_output_amount_1,
        USER,
        token_0.balance(PAIR),
        token_1.balance(PAIR),
    )
    .unwrap();
    token_1.transfer(PAIR, USER, expected_output_amount_1);
    assert_eq!(
        pair.get_reserves(),
        (amount_0 + swap_amount_0, amount_1 - expected_output_amount_1)
    );
    assert_eq!(pair.k_multiplier(), 0);

    pair.lp.transfer(USER, PAIR, expected_liquidity - minimum_liquidity);

    let (out_0, out_1) = pair
        .withdraw(USER, token_0.balance(PAIR), token_1.balance(PAIR), &fees_off())
        .unwrap();
    token_0.transfer(PAIR, USER, out_0);
    token_1.transfer(PAIR, USER, out_1);
    assert_eq!(pair.k_multiplier(), 0);
    assert_eq!(pair.lp.balance(USER), 0);
    assert_eq!(pair.lp.total_supply(), minimum_liquidity);
    assert_eq!(pair.lp.balance(PAIR), minimum_liquidity);
    assert_eq!(token_0.balance(PAIR), 85);
    assert_eq!(token_1.balance(PAIR), 118);
    assert_eq!(pair.get_reserves(), (85, 118));
}

#[test]
fn fee_on_add_swap_add() {
    let (mut pair, mut token_0, mut token_1) = setup();
    let fee = fees_on();

    let amount_0: i128 = 50_000_000;
    let amount_1: i128 = 100_000_000;
    let minimum_liquidity: i128 = 1_00;
    let expected_liquidity: i128 = 70_710_678;
    let original_0 = token_0.balance(USER);
    let original_1 = token_1.balance(USER);

    assert_eq!(pair.k_multiplier(), 0);
    add_liquidity(&mut pair, &mut token_0, &mut token_1, &fee, amount_0, amount_1);

    assert_eq!(pair.k_multiplier(), amount_0 * amount_1);
    assert_eq!(pair.lp.total_supply(), expected_liquidity);
    assert_eq!(token_0.balance(USER), original_0 - amount_0);
    assert_eq!(token_1.balance(USER), original_1 - amount_1);

    let swap_amount_0: i128 = 10_000_000;
    let expected_output_amount_1: i128 = 16624979;

    token_0.transfer(USER, PAIR, swap_amount_0);
    pair.swap(
        0,
        expected_output_amount_1,
        USER,
        token_0.balance(PAIR),
        token_1.balance(PAIR),
    )
    .unwrap();
    token_1.transfer(PAIR, USER, expected_output_amount_1);
    assert_eq!(pair.k_multiplier(), amount_0 * amount_1);

    let new_expected_reserve_0: i128 = 60000000;
    let new_expected_reserve_1: i128 = 83375021;
    assert_eq!(pair.get_reserves(), (new_expected_reserve_0, new_expected_reserve_1));
    assert_eq!(token_0.balance(USER), original_0 - amount_0 - swap_amount_0);
    assert_eq!(
        token_1.balance(USER),
        original_1 - amount_1 + expected_output_amount_1
    );

    let new_amount_0: i128 = 1_000_000;
    let new_amount_1: i128 = 1389583;
    assert_eq!(new_amount_1, (new_amount_0 * new_expected_reserve_1) / new_expected_reserve_0);
    let new_got_liquidity =
        add_liquidity(&mut pair, &mut token_0, &mut token_1, &fee, new_amount_0, new_amount_1);

    assert_eq!(
        pair.k_multiplier(),
        (new_expected_reserve_0 + new_amount_0) * (new_expected_reserve_1 + new_amount_1)
    );

    let n: i128 = 2946;
    let expected_minted_liquidity: i128 = 1178559;
    assert_eq!(new_got_liquidity, expected_minted_liquidity);
    assert_eq!(
        pair.lp.total_supply(),
        expected_liquidity + n + expected_minted_liquidity
    );
    assert_eq!(pair.lp.balance(PAIR), minimum_liquidity);
    assert_eq!(pair.lp.balance(ADMIN), n);
    assert_eq!(
        pair.lp.balance(USER),
        expected_minted_liquidity + (expected_liquidity - minimum_liquidity)
    );
}

#[test]
fn swap_rejects_bad_requests() {
    let (mut pair, mut token_0, mut token_1) = setup();
    add_liquidity(&mut pair, &mut token_0, &mut token_1, &fees_off(), 50_000_000, 100_000_000);
    let b0 = token_0.balance(PAIR);
    let b1 = token_1.balance(PAIR);

    assert_eq!(
        pair.swap(0, 0, USER, b0, b1),
        Err(PairError::SwapInsufficientOutputAmount)
    );
    assert_eq!(
        pair.swap(-1, 5, USER, b0, b1),
        Err(PairError::SwapNegativesOutNotSupported)
    );
    // An output as large as the reserve would drain it.
    assert_eq!(
        pair.swap(50_000_000, 0, USER, b0, b1),
        Err(PairError::SwapInsufficientLiquidity)
    );
    assert_eq!(
        pair.swap(0, 5, TOKEN_0, b0, b1),
        Err(PairError::SwapInvalidTo)
    );
    // No input was sent in.
    assert_eq!(
        pair.swap(0, 5, USER, b0, b1),
        Err(PairError::SwapInsufficientInputAmount)
    );
    // Too large an output for the input sent: the constant product drops.
    token_0.transfer(USER, PAIR, 1_000);
    assert_eq!(
        pair.swap(0, 5_000_000, USER, token_0.balance(PAIR), token_1.balance(PAIR)),
        Err(PairError::SwapConstantNotMet)
    );
}

#[test]
fn swap_preserves_constant_product() {
    let (mut pair, mut token_0, mut token_1) = setup();
    add_liquidity(&mut pair, &mut token_0, &mut token_1, &fees_off(), 100_000, 100_000);
    let (r0, r1) = pair.get_reserves();
    token_0.transfer(USER, PAIR, 3_000);
    pair.swap(0, 2_900, USER, token_0.balance(PAIR), token_1.balance(PAIR))
        .unwrap();
    token_1.transfer(PAIR, USER, 2_900);
    let (n0, n1) = pair.get_reserves();
    assert!(n0 * n1 >= r0 * r1);
}

#[test]
fn skim_and_sync() {
    let (mut pair, mut token_0, mut token_1) = setup();
    add_liquidity(&mut pair, &mut token_0, &mut token_1, &fees_off(), 10_000, 10_000);
    token_0.transfer(USER, PAIR, 777);
    let (skim_0, skim_1) = pair.skim(USER, token_0.balance(PAIR), token_1.balance(PAIR));
    assert_eq!((skim_0, skim_1), (777, 0));
    assert_eq!(pair.get_reserves(), (10_000, 10_000));

    token_1.transfer(USER, PAIR, 55);
    pair.sync(token_0.balance(PAIR), token_1.balance(PAIR));
    assert_eq!(pair.get_reserves(), (10_777, 10_055));
}

#[test]
fn pair_error_codes_are_stable() {
    assert_eq!(PairError::InitializeAlreadyInitialized.code(), 101);
    assert_eq!(PairError::NotInitialized.code(), 102);
    assert_eq!(PairError::InitializeTokenOrderInvalid.code(), 103);
    assert_eq!(PairError::DepositInsufficientAmountToken0.code(), 104);
    assert_eq!(PairError::DepositInsufficientAmountToken1.code(), 105);
    assert_eq!(PairError::DepositInsufficientFirstLiquidity.code(), 106);
    assert_eq!(PairError::DepositInsufficientLiquidityMinted.code(), 107);
    assert_eq!(PairError::SwapInsufficientOutputAmount.code(), 108);
    assert_eq!(PairError::SwapNegativesOutNotSupported.code(), 109);
    assert_eq!(PairError::SwapInsufficientLiquidity.code(), 110);
    assert_eq!(PairError::SwapInvalidTo.code(), 111);
    assert_eq!(PairError::SwapInsufficientInputAmount.code(), 112);
    assert_eq!(PairError::SwapNegativesInNotSupported.code(), 113);
    assert_eq!(PairError::SwapConstantNotMet.code(), 114);
    assert_eq!(PairError::WithdrawLiquidityNotInitialized.code(), 115);
    assert_eq!(PairError::WithdrawInsufficientSentShares.code(), 116);
    assert_eq!(PairError::WithdrawInsufficientLiquidityBurned.code(), 117);
    assert_eq!(PairError::UpdateOverflow.code(), 118);
}

#[test]
fn lp_metadata_from_token_symbols() {
    assert_eq!(
        raumfi::strings::create_symbol("TOK0", "ABCDEFGHIJ").as_str(),
        "TOK0-ABCDEF-RAUM-LP"
    );
    assert_eq!(
        raumfi::strings::create_name("TOK0", "ABCDEFGHIJ").as_str(),
        "TOK0-ABCDEF RAUM LP Token"
    );
}

#[test]
fn ledger_transfer_moves_balances() {
    let mut ledger = PairToken::new();
    ledger.internal_mint(USER, 1_000);
    ledger.transfer(USER, ADMIN, 300);
    assert_eq!(ledger.balance(USER), 700);
    assert_eq!(ledger.balance(ADMIN), 300);
    assert_eq!(ledger.total_supply(), 1_000);
    ledger.internal_burn(ADMIN, 300);
    assert_eq!(ledger.balance(ADMIN), 0);
    assert_eq!(ledger.total_supply(), 700);
}
