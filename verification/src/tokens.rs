//! Canonical token ordering and deterministic pair-address derivation.
//!
//! The derivation is one pure function of the factory address and the
//! ordered token pair, shared by the factory (when it creates a pair) and
//! the router (when it locates one without any state read), so the two are
//! consistent by construction.

use vstd::prelude::*;
use crate::Address;
use crate::router_errors::RaumFiLibraryError;

verus! {

/// The two addresses in canonical order (meaningful for distinct inputs).
pub open spec fn spec_sort_tokens(a: Address, b: Address) -> (Address, Address) {
    if a < b {
        (a, b)
    } else {
        (b, a)
    }
}

/// Deterministic pair address: a fixed bit-mix of the factory address and
/// the canonically ordered token pair. It stands in for the host's
/// hash-derived deployment address: a pure function of its inputs, so any
/// party can compute where a pair will live before it is created.
pub open spec fn spec_pair_address(factory: Address, token_0: Address, token_1: Address)
    -> Address
{
    (((factory << 32u64) | (factory >> 32u64))
        ^ ((token_0 << 16u64) | (token_0 >> 48u64))
        ^ ((token_1 << 40u64) | (token_1 >> 24u64))) ^ 0x9e37_79b9_7f4a_7c15u64
}

/// Sorts two token addresses into canonical order.
pub fn sort_tokens(token_a: Address, token_b: Address)
    -> (r: Result<(Address, Address), RaumFiLibraryError>)
    ensures
        token_a == token_b ==> r == Err::<(Address, Address), RaumFiLibraryError>(
            RaumFiLibraryError::SortIdenticalTokens),
        token_a != token_b ==> r == Ok::<(Address, Address), RaumFiLibraryError>(
            spec_sort_tokens(token_a, token_b)),
{
    if token_a == token_b {
        return Err(RaumFiLibraryError::SortIdenticalTokens);
    }
    if token_a < token_b {
        Ok((token_a, token_b))
    } else {
        Ok((token_b, token_a))
    }
}

/// The derived address of the pair for an already-ordered token pair.
pub fn pair_address_for(factory: Address, token_0: Address, token_1: Address) -> (r: Address)
    ensures
        r == spec_pair_address(factory, token_0, token_1),
{
    (((factory << 32u64) | (factory >> 32u64))
        ^ ((token_0 << 16u64) | (token_0 >> 48u64))
        ^ ((token_1 << 40u64) | (token_1 >> 24u64))) ^ 0x9e37_79b9_7f4a_7c15u64
}

/// The deterministic address of the pair for two tokens, in either order,
/// without any state read.
pub fn pair_for(factory: Address, token_a: Address, token_b: Address)
    -> (r: Result<Address, RaumFiLibraryError>)
    ensures
        token_a == token_b ==> r == Err::<Address, RaumFiLibraryError>(
            RaumFiLibraryError::SortIdenticalTokens),
        token_a != token_b ==> r == Ok::<Address, RaumFiLibraryError>(
            spec_pair_address(factory, spec_sort_tokens(token_a, token_b).0,
                spec_sort_tokens(token_a, token_b).1)),
{
    let (token_0, token_1) = match sort_tokens(token_a, token_b) {
        Ok(p) => p,
        Err(e) => {
            return Err(e);
        }
    };
    Ok(pair_address_for(factory, token_0, token_1))
}

/// The derived pair address does not depend on the order in which the two
/// tokens are given: both orders sort to the same canonical pair.
pub proof fn lemma_pair_address_symmetric(factory: Address, a: Address, b: Address)
    ensures
        spec_sort_tokens(a, b) == spec_sort_tokens(b, a) || a == b,
        spec_pair_address(factory, spec_sort_tokens(a, b).0, spec_sort_tokens(a, b).1)
            == spec_pair_address(factory, spec_sort_tokens(b, a).0, spec_sort_tokens(b, a).1),
{
}

} // verus!
