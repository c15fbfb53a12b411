//! Router quoting: single quotes, multi-hop chains, initialization and
//! entry-point decisions.

use raumfi::router::{
    is_amount_negative, is_deadline_expired, router_get_amount_in, router_get_amount_out,
    router_quote, RouterState,
};
use raumfi::router_errors::{RaumFiLibraryError, RaumFiRouterError, RouterErrorsForLibrary};

const FACTORY: u64 = 50;
const TOKEN_0: u64 = 10;
const TOKEN_1: u64 = 11;
const TOKEN_2: u64 = 12;
const USER: u64 = 1;

fn initialized_router() -> RouterState {
    let mut router = RouterState::new();
    router.initialize(FACTORY).unwrap();
    router
}

#[test]
fn test_initialize_and_get_factory() {
    let router = initialized_router();
    assert_eq!(router.get_factory(), Ok(FACTORY));
}

#[test]
fn test_get_factory_not_yet_initialized() {
    let router = RouterState::new();
    assert_eq!(
        router.get_factory(),
        Err(RouterErrorsForLibrary::RouterNotInitialized)
    );
}

#[test]
fn test_initialize_twice() {
    let mut router = RouterState::new();
    router.initialize(FACTORY).unwrap();
    assert_eq!(
        router.initialize(FACTORY + 1),
        Err(RouterErrorsForLibrary::RouterInitializeAlreadyInitialized)
    );
}

#[test]
fn test_quote() {
    assert_eq!(Ok(2), router_quote(1, 100, 200));
    assert_eq!(Ok(1), router_quote(2, 200, 100));
}

#[test]
fn test_quote_insufficient_amount() {
    assert_eq!(
        router_quote(0, 100, 200),
        Err(RouterErrorsForLibrary::LibraryInsufficientAmount)
    );
}

#[test]
fn test_quote_insufficient_liquidity_0() {
    assert_eq!(
        router_quote(1, 0, 200),
        Err(RouterErrorsForLibrary::LibraryInsufficientLiquidity)
    );
}

#[test]
fn test_quote_insufficient_liquidity_1() {
    assert_eq!(
        router_quote(1, 100, 0),
        Err(RouterErrorsForLibrary::LibraryInsufficientLiquidity)
    );
}

#[test]
fn test_get_amount_out() {
    assert_eq!(Ok(1), router_get_amount_out(3, 100, 100));
}

#[test]
fn try_router_get_amount_out_insufficient_input_amount() {
    assert_eq!(
        router_get_amount_out(0, 100, 100),
        Err(RouterErrorsForLibrary::LibraryInsufficientInputAmount)
    );
}

#[test]
fn try_router_get_amount_out_insufficient_liquidity_0() {
    assert_eq!(
        router_get_amount_out(2, 0, 100),
        Err(RouterErrorsForLibrary::LibraryInsufficientLiquidity)
    );
}

#[test]
fn try_router_get_amount_out_insufficient_liquidity_1() {
    assert_eq!(
        router_get_amount_out(2, 100, 0),
        Err(RouterErrorsForLibrary::LibraryInsufficientLiquidity)
    );
}

#[test]
fn test_get_amount_in() {
    assert_eq!(Ok(3), router_get_amount_in(1, 100, 100));
}

#[test]
fn try_router_get_amount_in_insufficient_output_amount() {
    assert_eq!(
        router_get_amount_in(0, 100, 100),
        Err(RouterErrorsForLibrary::LibraryInsufficientOutputAmount)
    );
}

#[test]
fn try_router_get_amount_in_insufficient_liquidity_0() {
    assert_eq!(
        router_get_amount_in(1, 0, 100),
        Err(RouterErrorsForLibrary::LibraryInsufficientLiquidity)
    );
}

#[test]
fn try_router_get_amount_in_insufficient_liquidity_1() {
    assert_eq!(
        router_get_amount_in(1, 100, 0),
        Err(RouterErrorsForLibrary::LibraryInsufficientLiquidity)
    );
}

#[test]
fn try_router_get_amounts_out_invalid_path() {
    let router = initialized_router();
    let path = vec![TOKEN_0];
    let reserves: Vec<(i128, i128)> = Vec::new();
    assert_eq!(
        router.router_get_amounts_out(2, &path, &reserves),
        Err(RouterErrorsForLibrary::LibraryInvalidPath)
    );
}

#[test]
fn test_get_amounts_out_not_yet_initialized() {
    let router = RouterState::new();
    let path = vec![TOKEN_0, TOKEN_1];
    let reserves = vec![(10_000i128, 10_000i128)];
    assert_eq!(
        router.router_get_amounts_out(2, &path, &reserves),
        Err(RouterErrorsForLibrary::RouterNotInitialized)
    );
}

#[test]
fn test_get_amounts_out() {
    let router = initialized_router();
    let path = vec![TOKEN_0, TOKEN_1];
    let reserves = vec![(10_000i128, 10_000i128)];
    assert_eq!(
        router.router_get_amounts_out(3, &path, &reserves),
        Ok(vec![3, 1])
    );
}

#[test]
fn try_router_get_amounts_in_invalid_path() {
    let router = initialized_router();
    let path = vec![TOKEN_0];
    let reserves: Vec<(i128, i128)> = Vec::new();
    assert_eq!(
        router.router_get_amounts_in(1, &path, &reserves),
        Err(RouterErrorsForLibrary::LibraryInvalidPath)
    );
}

#[test]
fn test_get_amounts_in_not_yet_initialized() {
    let router = RouterState::new();
    let path = vec![TOKEN_0, TOKEN_1];
    let reserves = vec![(10_000i128, 10_000i128)];
    assert_eq!(
        router.router_get_amounts_in(1, &path, &reserves),
        Err(RouterErrorsForLibrary::RouterNotInitialized)
    );
}

#[test]
fn test_get_amounts_in() {
    let router = initialized_router();
    let path = vec![TOKEN_0, TOKEN_1];
    let reserves = vec![(10_000i128, 10_000i128)];
    assert_eq!(router.router_get_amounts_in(1, &path, &reserves), Ok(vec![3, 1]));
}

#[test]
fn multi_hop_equals_sequential_single_hops() {
    // A two-hop chain is exactly the repeated single-hop forward quote, and
    // the reverse chain is its exact inverse walk.
    let router = initialized_router();
    let path = vec![TOKEN_0, TOKEN_1, TOKEN_2];
    let reserves = vec![(10_000i128, 20_000i128), (5_000i128, 8_000i128)];

    let amounts = router.router_get_amounts_out(1_000, &path, &reserves).unwrap();
    let hop_1 = router_get_amount_out(1_000, 10_000, 20_000).unwrap();
    let hop_2 = router_get_amount_out(hop_1, 5_000, 8_000).unwrap();
    assert_eq!(amounts, vec![1_000, hop_1, hop_2]);

    let amounts_in = router.router_get_amounts_in(100, &path, &reserves).unwrap();
    let need_1 = router_get_amount_in(100, 5_000, 8_000).unwrap();
    let need_0 = router_get_amount_in(need_1, 10_000, 20_000).unwrap();
    assert_eq!(amounts_in, vec![need_0, need_1, 100]);
}

#[test]
fn round_trip_never_needs_more_than_margin() {
    // Feeding a forward quote back through the reverse quote stays within
    // the original input (plus the reverse quote's one-unit margin).
    let out = router_get_amount_out(3, 100, 100).unwrap();
    assert_eq!(router_get_amount_in(out, 100, 100), Ok(3));
    let out_big = router_get_amount_out(10_000, 1_000_000, 500_000).unwrap();
    let back = router_get_amount_in(out_big, 1_000_000, 500_000).unwrap();
    assert!(back <= 10_000 + 1);
}

#[test]
fn amounts_chains_surface_hop_failures() {
    let router = initialized_router();
    let path = vec![TOKEN_0, TOKEN_1, TOKEN_2];
    // The second hop has no liquidity.
    let reserves = vec![(10_000i128, 20_000i128), (0i128, 8_000i128)];
    assert_eq!(
        router.router_get_amounts_out(1_000, &path, &reserves),
        Err(RouterErrorsForLibrary::LibraryInsufficientLiquidity)
    );
    // A zero input fails on the first hop.
    let good = vec![(10_000i128, 20_000i128), (5_000i128, 8_000i128)];
    assert_eq!(
        router.router_get_amounts_out(0, &path, &good),
        Err(RouterErrorsForLibrary::LibraryInsufficientInputAmount)
    );
    assert_eq!(
        router.router_get_amounts_in(0, &path, &good),
        Err(RouterErrorsForLibrary::LibraryInsufficientOutputAmount)
    );
}

#[test]
fn swap_plan_rejects_identical_adjacent_tokens() {
    let router = initialized_router();
    let path = vec![TOKEN_0, TOKEN_0];
    let reserves = vec![(10_000i128, 10_000i128)];
    assert_eq!(
        router.swap_exact_tokens_for_tokens(1_000, 0, &path, &reserves, USER, 10, 5),
        Err(RouterErrorsForLibrary::LibrarySortIdenticalTokens)
    );
}

#[test]
fn guards_reject_negative_and_expired() {
    assert_eq!(
        is_amount_negative(-1),
        Err(RouterErrorsForLibrary::RouterNegativeNotAllowed)
    );
    assert_eq!(is_amount_negative(0), Ok(()));
    assert_eq!(
        is_deadline_expired(100, 100),
        Err(RouterErrorsForLibrary::RouterDeadlineExpired)
    );
    assert_eq!(is_deadline_expired(99, 100), Ok(()));
}

#[test]
fn swap_exact_checks_deadline_before_state() {
    let router = initialized_router();
    let path = vec![TOKEN_0, TOKEN_1];
    let reserves = vec![(10_000i128, 10_000i128)];
    assert_eq!(
        router.swap_exact_tokens_for_tokens(100, 0, &path, &reserves, USER, 50, 50),
        Err(RouterErrorsForLibrary::RouterDeadlineExpired)
    );
}

#[test]
fn swap_exact_plans_the_hops() {
    let router = initialized_router();
    let path = vec![TOKEN_0, TOKEN_1, TOKEN_2];
    let reserves = vec![(10_000i128, 20_000i128), (5_000i128, 8_000i128)];
    let (amounts, steps) = router
        .swap_exact_tokens_for_tokens(1_000, 0, &path, &reserves, USER, 10, 5)
        .unwrap();
    assert_eq!(amounts.len(), 3);
    assert_eq!(steps.len(), 2);
    // Tokens are already in canonical order, so outputs land on token 1.
    assert_eq!(steps[0].amount_0_out, 0);
    assert_eq!(steps[0].amount_1_out, amounts[1]);
    // The first hop pays into the second hop's pair; the last pays the user.
    assert_eq!(steps[0].to, steps[1].pair);
    assert_eq!(steps[1].to, USER);
    // Output below the requested minimum is refused.
    assert_eq!(
        router.swap_exact_tokens_for_tokens(
            1_000,
            amounts[2] + 1,
            &path,
            &reserves,
            USER,
            10,
            5
        ),
        Err(RouterErrorsForLibrary::RouterInsufficientOutputAmount)
    );
}

#[test]
fn swap_for_exact_respects_input_cap() {
    let router = initialized_router();
    let path = vec![TOKEN_0, TOKEN_1];
    let reserves = vec![(10_000i128, 10_000i128)];
    let (amounts, steps) = router
        .swap_tokens_for_exact_tokens(100, 1_000, &path, &reserves, USER, 10, 5)
        .unwrap();
    assert_eq!(amounts[1], 100);
    assert_eq!(steps.len(), 1);
    assert_eq!(
        router.swap_tokens_for_exact_tokens(100, amounts[0] - 1, &path, &reserves, USER, 10, 5),
        Err(RouterErrorsForLibrary::RouterExcessiveInputAmount)
    );
}

#[test]
fn add_liquidity_uses_optimal_amounts() {
    let router = initialized_router();
    // Virgin pair: desired amounts pass through.
    let (a, b, pair) = router
        .add_liquidity(TOKEN_0, TOKEN_1, 500, 900, 0, 0, 0, 0, USER, 10, 5)
        .unwrap();
    assert_eq!((a, b), (500, 900));
    assert_eq!(pair, router.router_pair_for(TOKEN_0, TOKEN_1).unwrap());

    // Established reserves: B is quoted from A when it fits.
    let (a2, b2, _) = router
        .add_liquidity(TOKEN_0, TOKEN_1, 100, 500, 0, 0, 1_000, 2_000, USER, 10, 5)
        .unwrap();
    assert_eq!((a2, b2), (100, 200));

    // And the reverse quote is used when it does not.
    let (a3, b3, _) = router
        .add_liquidity(TOKEN_0, TOKEN_1, 100, 50, 0, 0, 1_000, 2_000, USER, 10, 5)
        .unwrap();
    assert_eq!((a3, b3), (25, 50));

    // Minimum enforcement on the quoted side.
    assert_eq!(
        router.add_liquidity(TOKEN_0, TOKEN_1, 100, 500, 0, 201, 1_000, 2_000, USER, 10, 5),
        Err(RouterErrorsForLibrary::RouterInsufficientBAmount)
    );
}

#[test]
fn remove_liquidity_orients_and_checks() {
    let router = initialized_router();
    assert_eq!(
        router.remove_liquidity_checks(TOKEN_0, TOKEN_1, 10, 0, 0, false, 10, 5),
        Err(RouterErrorsForLibrary::RouterPairDoesNotExist)
    );
    let pair = router
        .remove_liquidity_checks(TOKEN_0, TOKEN_1, 10, 0, 0, true, 10, 5)
        .unwrap();
    assert_eq!(pair, router.router_pair_for(TOKEN_1, TOKEN_0).unwrap());

    // Amounts come back in caller order even when the caller's token_a is
    // the higher-ordered token.
    assert_eq!(
        router.remove_liquidity_amounts(TOKEN_1, TOKEN_0, 70, 30, 0, 0),
        Ok((30, 70))
    );
    assert_eq!(
        router.remove_liquidity_amounts(TOKEN_0, TOKEN_1, 70, 30, 80, 0),
        Err(RouterErrorsForLibrary::RouterInsufficientAAmount)
    );
    assert_eq!(
        router.remove_liquidity_amounts(TOKEN_0, TOKEN_1, 70, 30, 0, 40),
        Err(RouterErrorsForLibrary::RouterInsufficientBAmount)
    );
}

#[test]
fn router_error_codes_are_stable() {
    assert_eq!(RaumFiLibraryError::InsufficientAmount.code(), 301);
    assert_eq!(RaumFiLibraryError::InsufficientLiquidity.code(), 302);
    assert_eq!(RaumFiLibraryError::InsufficientInputAmount.code(), 303);
    assert_eq!(RaumFiLibraryError::InsufficientOutputAmount.code(), 304);
    assert_eq!(RaumFiLibraryError::InvalidPath.code(), 305);
    assert_eq!(RaumFiLibraryError::SortIdenticalTokens.code(), 306);
    assert_eq!(RaumFiRouterError::NotInitialized.code(), 401);
    assert_eq!(RaumFiRouterError::DeadlineExpired.code(), 403);
    assert_eq!(RaumFiRouterError::PairDoesNotExist.code(), 409);
    assert_eq!(RouterErrorsForLibrary::RouterNotInitialized.code(), 501);
    assert_eq!(RouterErrorsForLibrary::RouterDeadlineExpired.code(), 503);
    assert_eq!(RouterErrorsForLibrary::LibraryInsufficientAmount.code(), 510);
    assert_eq!(RouterErrorsForLibrary::LibrarySortIdenticalTokens.code(), 515);
}

#[test]
fn error_conversions_keep_meaning() {
    assert_eq!(
        RouterErrorsForLibrary::from(RaumFiLibraryError::InvalidPath),
        RouterErrorsForLibrary::LibraryInvalidPath
    );
    assert_eq!(
        RouterErrorsForLibrary::from(RaumFiRouterError::DeadlineExpired),
        RouterErrorsForLibrary::RouterDeadlineExpired
    );
}
