//! Factory registry: initialization, pair creation, lookups and fee
//! governance.

use raumfi::factory::{factory_error, FactoryState, IdenticalPairError, Pair};
use raumfi::pair::PairState;
use raumfi::router::RouterState;
use raumfi::tokens::{pair_for, sort_tokens};
use raumfi::router_errors::RaumFiLibraryError;

const ADMIN: u64 = 2;
const OTHER: u64 = 3;
const FACTORY: u64 = 50;
const TOKEN_A: u64 = 11;
const TOKEN_B: u64 = 10;
const TEMPLATE: u64 = 7;

fn initialized_factory() -> FactoryState {
    let mut factory = FactoryState::new(FACTORY);
    factory.initialize(ADMIN, TEMPLATE).unwrap();
    factory
}

#[test]
fn factory_requires_initialization() {
    let factory = FactoryState::new(FACTORY);
    assert_eq!(factory.fee_to(), Err(factory_error::NotInitialized));
    assert_eq!(factory.fee_to_setter(), Err(factory_error::NotInitialized));
    assert_eq!(factory.fees_enabled(), Err(factory_error::NotInitialized));
    assert_eq!(factory.all_pairs_length(), Err(factory_error::NotInitialized));
    assert_eq!(
        factory.get_pair(TOKEN_A, TOKEN_B),
        Err(factory_error::NotInitialized)
    );
}

#[test]
fn factory_initialize_twice_fails() {
    let mut factory = initialized_factory();
    assert_eq!(
        factory.initialize(OTHER, TEMPLATE),
        Err(factory_error::InitializeAlreadyInitialized)
    );
}

#[test]
fn create_pair_registers_and_rejects_duplicates() {
    let mut factory = initialized_factory();
    assert_eq!(factory.all_pairs_length(), Ok(0));
    assert_eq!(factory.pair_exists(TOKEN_A, TOKEN_B), Ok(false));

    let pair_address = factory.create_pair(TOKEN_A, TOKEN_B).unwrap();
    // The host deploys and initializes the pair at the derived address.
    let mut pair = PairState::new(pair_address);
    pair.initialize(FACTORY, TOKEN_B, TOKEN_A).unwrap();

    assert_eq!(factory.all_pairs_length(), Ok(1));
    assert_eq!(factory.pair_exists(TOKEN_A, TOKEN_B), Ok(true));
    assert_eq!(factory.pair_exists(TOKEN_B, TOKEN_A), Ok(true));
    assert_eq!(factory.get_pair(TOKEN_A, TOKEN_B), Ok(pair_address));
    assert_eq!(factory.get_pair(TOKEN_B, TOKEN_A), Ok(pair_address));
    assert_eq!(factory.all_pairs(0), Ok(pair_address));
    assert_eq!(factory.all_pairs(1), Err(factory_error::IndexDoesNotExist));

    // The same unordered pair cannot be created twice.
    assert_eq!(
        factory.create_pair(TOKEN_A, TOKEN_B),
        Err(factory_error::CreatePairAlreadyExists)
    );
    assert_eq!(
        factory.create_pair(TOKEN_B, TOKEN_A),
        Err(factory_error::CreatePairAlreadyExists)
    );
}

#[test]
fn create_pair_identical_tokens_fails() {
    let mut factory = initialized_factory();
    assert_eq!(
        factory.create_pair(TOKEN_A, TOKEN_A),
        Err(factory_error::CreatePairIdenticalTokens)
    );
    assert_eq!(
        factory.get_pair(TOKEN_A, TOKEN_A),
        Err(factory_error::CreatePairIdenticalTokens)
    );
}

#[test]
fn pair_address_is_order_independent() {
    let mut factory = initialized_factory();
    let created = factory.create_pair(TOKEN_A, TOKEN_B).unwrap();
    // The router derives the same address without any state read, in
    // either token order.
    assert_eq!(pair_for(FACTORY, TOKEN_A, TOKEN_B), Ok(created));
    assert_eq!(pair_for(FACTORY, TOKEN_B, TOKEN_A), Ok(created));
    let mut router = RouterState::new();
    router.initialize(FACTORY).unwrap();
    assert_eq!(router.router_pair_for(TOKEN_A, TOKEN_B), Ok(created));
    assert_eq!(router.router_pair_for(TOKEN_B, TOKEN_A), Ok(created));
}

#[test]
fn sort_tokens_orders_canonically() {
    assert_eq!(sort_tokens(TOKEN_A, TOKEN_B), Ok((TOKEN_B, TOKEN_A)));
    assert_eq!(sort_tokens(TOKEN_B, TOKEN_A), Ok((TOKEN_B, TOKEN_A)));
    assert_eq!(
        sort_tokens(TOKEN_A, TOKEN_A),
        Err(RaumFiLibraryError::SortIdenticalTokens)
    );
}

#[test]
fn token_pair_construction() {
    let pair = Pair::new(TOKEN_A, TOKEN_B).unwrap();
    assert_eq!(pair.token_0(), TOKEN_B);
    assert_eq!(pair.token_1(), TOKEN_A);
    assert_eq!(
        Pair::new(TOKEN_A, TOKEN_A),
        Err(IdenticalPairError::CreatePairIdenticalTokens)
    );
    assert_eq!(IdenticalPairError::CreatePairIdenticalTokens.code(), 901);
}

#[test]
fn fee_governance() {
    let mut factory = initialized_factory();
    assert_eq!(factory.fee_to(), Ok(ADMIN));
    assert_eq!(factory.fee_to_setter(), Ok(ADMIN));
    assert_eq!(factory.fees_enabled(), Ok(false));

    factory.set_fee_to(OTHER).unwrap();
    assert_eq!(factory.fee_to(), Ok(OTHER));
    factory.set_fees_enabled(true).unwrap();
    assert_eq!(factory.fees_enabled(), Ok(true));
    factory.set_fee_to_setter(OTHER).unwrap();
    assert_eq!(factory.fee_to_setter(), Ok(OTHER));

    let mut uninitialized = FactoryState::new(FACTORY);
    assert_eq!(
        uninitialized.set_fee_to(OTHER),
        Err(factory_error::NotInitialized)
    );
    assert_eq!(
        uninitialized.set_fees_enabled(true),
        Err(factory_error::NotInitialized)
    );
}

#[test]
fn factory_error_codes_are_stable() {
    assert_eq!(factory_error::NotInitialized.code(), 201);
    assert_eq!(factory_error::CreatePairIdenticalTokens.code(), 202);
    assert_eq!(factory_error::CreatePairAlreadyExists.code(), 203);
    assert_eq!(factory_error::InitializeAlreadyInitialized.code(), 204);
    assert_eq!(factory_error::PairDoesNotExist.code(), 205);
    assert_eq!(factory_error::IndexDoesNotExist.code(), 206);
    assert_eq!(
        factory_error::from(IdenticalPairError::CreatePairIdenticalTokens),
        factory_error::CreatePairIdenticalTokens
    );
}
