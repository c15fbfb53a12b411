//! A constant-product automated market maker: pair engine, factory registry
//! and router quoting, modelled as explicit state machines over plain values.

use vstd::prelude::*;

pub mod factory;
pub mod laws;
pub mod math;
pub mod pair;
pub mod pair_token;
pub mod quotes;
pub mod router;
pub mod router_errors;
pub mod strings;
pub mod tokens;

verus! {

/// A contract or account address, reduced to the one thing the protocol reads
/// from it: an identity with a total order (used for canonical token ordering).
pub type Address = u64;

} // verus!
