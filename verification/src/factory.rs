//! The factory registry: canonical `(token_0, token_1) -> pair address`
//! bookkeeping, deterministic pair-address derivation, and protocol-fee
//! governance.
//!
//! The registry doubles as the creation-order index: one append-only list
//! carries both, so the two views can never disagree and the pair count is
//! their common length. Deploying the pair contract itself is the host's
//! work; `create_pair` decides, registers, and hands back the derived
//! address at which the host must place and initialize the new pair.

use vstd::prelude::*;
use crate::Address;
use crate::tokens::spec_pair_address;

verus! {

/// Everything a factory call can be rejected for.
#[allow(non_camel_case_types)]
#[derive(Clone, Copy, Debug, PartialEq, Eq, Structural)]
pub enum factory_error {
    /// Not yet initialized.
    NotInitialized,
    /// `token_a` and `token_b` have identical addresses.
    CreatePairIdenticalTokens,
    /// A pair already exists between `token_a` and `token_b`.
    CreatePairAlreadyExists,
    /// Already initialized.
    InitializeAlreadyInitialized,
    /// No pair exists between the two tokens.
    PairDoesNotExist,
    /// No pair exists at that index.
    IndexDoesNotExist,
}

impl factory_error {
    /// The stable numeric code of this error on the wire.
    pub fn code(&self) -> (c: u32)
        ensures
            c == self.spec_code(),
    {
        match self {
            factory_error::NotInitialized => 201,
            factory_error::CreatePairIdenticalTokens => 202,
            factory_error::CreatePairAlreadyExists => 203,
            factory_error::InitializeAlreadyInitialized => 204,
            factory_error::PairDoesNotExist => 205,
            factory_error::IndexDoesNotExist => 206,
        }
    }

    /// Numeric code, at the specification level.
    pub open spec fn spec_code(self) -> u32 {
        match self {
            factory_error::NotInitialized => 201,
            factory_error::CreatePairIdenticalTokens => 202,
            factory_error::CreatePairAlreadyExists => 203,
            factory_error::InitializeAlreadyInitialized => 204,
            factory_error::PairDoesNotExist => 205,
            factory_error::IndexDoesNotExist => 206,
        }
    }
}

/// The one way building a token pair can fail.
#[derive(Clone, Copy, Debug, PartialEq, Eq, Structural)]
pub enum IdenticalPairError {
    /// `token_a` and `token_b` have identical addresses.
    CreatePairIdenticalTokens,
}

impl IdenticalPairError {
    /// The stable numeric code of this error on the wire.
    pub fn code(&self) -> (c: u32)
        ensures
            c == 901,
    {
        match self {
            IdenticalPairError::CreatePairIdenticalTokens => 901,
        }
    }
}

impl From<IdenticalPairError> for factory_error {
    fn from(pair_error: IdenticalPairError) -> Self {
        match pair_error {
            IdenticalPairError::CreatePairIdenticalTokens =>
                factory_error::CreatePairIdenticalTokens,
        }
    }
}

impl vstd::std_specs::convert::FromSpecImpl<IdenticalPairError> for factory_error {
    open spec fn obeys_from_spec() -> bool {
        true
    }

    open spec fn from_spec(pair_error: IdenticalPairError) -> factory_error {
        factory_error::CreatePairIdenticalTokens
    }
}

/// A canonically ordered token pair: `token_0` strictly below `token_1`.
#[derive(Clone, Copy, Debug, PartialEq, Eq, Structural)]
pub struct Pair {
    /// The lower-ordered token.
    pub token_0: Address,
    /// The higher-ordered token.
    pub token_1: Address,
}

impl Pair {
    /// The lower-ordered token.
    pub open spec fn spec_token_0(self) -> Address {
        self.token_0
    }

    /// The higher-ordered token.
    pub open spec fn spec_token_1(self) -> Address {
        self.token_1
    }

    /// Orders two distinct token addresses canonically.
    pub fn new(a: Address, b: Address) -> (r: Result<Pair, IdenticalPairError>)
        ensures
            a == b ==> r == Err::<Pair, IdenticalPairError>(
                IdenticalPairError::CreatePairIdenticalTokens),
            a < b ==> r == Ok::<Pair, IdenticalPairError>(
                (Pair { token_0: a, token_1: b })),
            b < a ==> r == Ok::<Pair, IdenticalPairError>(
                (Pair { token_0: b, token_1: a })),
    {
        if a == b {
            return Err(IdenticalPairError::CreatePairIdenticalTokens);
        }
        if a < b {
            Ok(Pair { token_0: a, token_1: b })
        } else {
            Ok(Pair { token_0: b, token_1: a })
        }
    }

    /// The lower-ordered token.
    pub fn token_0(&self) -> (r: Address)
        ensures
            r == self.spec_token_0(),
    {
        self.token_0
    }

    /// The higher-ordered token.
    pub fn token_1(&self) -> (r: Address)
        ensures
            r == self.spec_token_1(),
    {
        self.token_1
    }
}

/// Some entry carries this token pair.
pub open spec fn registry_has(s: Seq<(Pair, Address)>, key: Pair) -> bool {
    exists|i: int| 0 <= i < s.len() && s[i].0 == key
}

/// The pair address registered for `key`: the first matching entry, or 0.
pub open spec fn registry_at(s: Seq<(Pair, Address)>, key: Pair) -> Address
    decreases s.len(),
{
    if s.len() == 0 {
        0
    } else if s[0].0 == key {
        s[0].1
    } else {
        registry_at(s.drop_first(), key)
    }
}

/// No two entries share a token pair.
pub open spec fn registry_unique(s: Seq<(Pair, Address)>) -> bool {
    forall|i: int, j: int| 0 <= i < j < s.len() ==> s[i].0 != s[j].0
}

/// With unique keys, the entry at `i` is the registered address of its pair.
proof fn lemma_registry_at(s: Seq<(Pair, Address)>, i: int)
    requires
        registry_unique(s),
        0 <= i < s.len(),
    ensures
        registry_at(s, s[i].0) == s[i].1,
    decreases s.len(),
{
    if i > 0 {
        assert(s[0].0 != s[i].0);
        assert(registry_unique(s.drop_first()));
        assert(s.drop_first()[i - 1] == s[i]);
        lemma_registry_at(s.drop_first(), i - 1);
    }
}

/// Appending a fresh pair registers it and leaves every other pair's entry
/// alone.
proof fn lemma_registry_push(s: Seq<(Pair, Address)>, key: Pair, addr: Address)
    requires
        !registry_has(s, key),
    ensures
        registry_at(s.push((key, addr)), key) == addr,
        forall|k: Pair| k != key
            ==> registry_at(s.push((key, addr)), k) == registry_at(s, k),
        registry_unique(s) ==> registry_unique(s.push((key, addr))),
    decreases s.len(),
{
    let t = s.push((key, addr));
    if s.len() == 0 {
        assert(t.drop_first() =~= Seq::<(Pair, Address)>::empty());
        assert forall|k: Pair| k != key implies registry_at(t, k) == registry_at(s, k) by {
            assert(registry_at(t.drop_first(), k) == 0);
        }
    } else {
        assert(s[0].0 != key);
        assert(!registry_has(s.drop_first(), key)) by {
            assert(forall|i: int|
                0 <= i < s.drop_first().len() ==> s.drop_first()[i] == s[i + 1]);
        };
        lemma_registry_push(s.drop_first(), key, addr);
        assert(t.drop_first() =~= s.drop_first().push((key, addr)));
        assert(t[0] == s[0]);
        assert(registry_at(t, key) == registry_at(t.drop_first(), key));
        assert forall|k: Pair| k != key implies registry_at(t, k) == registry_at(s, k) by {
            if s[0].0 != k {
                assert(registry_at(t, k) == registry_at(t.drop_first(), k));
                assert(registry_at(s, k) == registry_at(s.drop_first(), k));
            }
        }
        assert(registry_unique(s) ==> registry_unique(t)) by {
            if registry_unique(s) {
                assert(forall|i: int| 0 <= i < s.len() ==> t[i] == s[i]);
                assert forall|i: int, j: int| 0 <= i < j < t.len()
                    implies t[i].0 != t[j].0 by {
                    if j < s.len() {
                        assert(s[i].0 != s[j].0);
                    } else {
                        assert(t[j] == (key, addr));
                        assert(s[i].0 != key);
                    }
                }
            }
        };
    }
}

/// Factory initialization, as reported to off-chain consumers.
#[derive(Clone, Copy, Debug, PartialEq, Eq, Structural)]
pub struct InitializedEvent {
    pub setter: Address,
}

/// A newly created pair, as reported to off-chain consumers.
#[derive(Clone, Copy, Debug, PartialEq, Eq, Structural)]
pub struct PairEvent {
    pub pair: Address,
    pub token_0: Address,
    pub token_1: Address,
    pub new_pairs_length: u32,
}

/// The factory's persistent state.
pub struct FactoryState {
    /// The factory contract's own address (an input to address derivation).
    pub address: Address,
    /// Whether `initialize` has run.
    pub initialized: bool,
    /// Recipient of protocol-fee shares.
    pub fee_to: Address,
    /// The only principal allowed to change the fee configuration.
    pub fee_to_setter: Address,
    /// Whether protocol-fee minting is switched on.
    pub fees_enabled: bool,
    /// Opaque identifier of the code template new pairs are deployed from.
    pub pair_wasm_hash: u64,
    /// The registry, in creation order: it is also the index used for
    /// enumeration, so the two stay consistent by construction.
    pub pairs: Vec<(Pair, Address)>,
}

impl FactoryState {
    /// Well-formedness: each token pair registered at most once, and a pair
    /// count that fits the index type.
    pub open spec fn wf(self) -> bool {
        &&& registry_unique(self.pairs@)
        &&& self.pairs@.len() <= u32::MAX
    }

    /// A factory as deployed and not yet initialized.
    pub fn new(address: Address) -> (r: FactoryState)
        ensures
            r.wf(),
            r.address == address,
            !r.initialized,
            r.pairs@.len() == 0,
    {
        FactoryState {
            address,
            initialized: false,
            fee_to: 0,
            fee_to_setter: 0,
            fees_enabled: false,
            pair_wasm_hash: 0,
            pairs: Vec::new(),
        }
    }

    /// One-shot setup: `setter` becomes both fee recipient and fee setter,
    /// fees start disabled, and the pair code template is recorded.
    pub fn initialize(&mut self, setter: Address, pair_wasm_hash: u64)
        -> (r: Result<(), factory_error>)
        requires
            old(self).wf(),
        ensures
            final(self).wf(),
            r is Err ==> *final(self) == *old(self),
            old(self).initialized
                ==> r == Err::<(), factory_error>(factory_error::InitializeAlreadyInitialized),
            !old(self).initialized ==> {
                &&& r is Ok
                &&& *final(self) == (FactoryState {
                    initialized: true,
                    fee_to: setter,
                    fee_to_setter: setter,
                    fees_enabled: false,
                    pair_wasm_hash,
                    ..*old(self)
                })
            },
    {
        if self.initialized {
            return Err(factory_error::InitializeAlreadyInitialized);
        }
        self.fee_to_setter = setter;
        self.fee_to = setter;
        self.fees_enabled = false;
        self.pair_wasm_hash = pair_wasm_hash;
        self.initialized = true;
        Ok(())
    }

    /// The recipient of protocol-fee shares.
    pub fn fee_to(&self) -> (r: Result<Address, factory_error>)
        ensures
            !self.initialized ==> r == Err::<Address, factory_error>(factory_error::NotInitialized),
            self.initialized ==> r == Ok::<Address, factory_error>(self.fee_to),
    {
        if !self.initialized {
            return Err(factory_error::NotInitialized);
        }
        Ok(self.fee_to)
    }

    /// The principal allowed to change the fee configuration.
    pub fn fee_to_setter(&self) -> (r: Result<Address, factory_error>)
        ensures
            !self.initialized ==> r == Err::<Address, factory_error>(factory_error::NotInitialized),
            self.initialized ==> r == Ok::<Address, factory_error>(self.fee_to_setter),
    {
        if !self.initialized {
            return Err(factory_error::NotInitialized);
        }
        Ok(self.fee_to_setter)
    }

    /// Whether protocol-fee minting is on.
    pub fn fees_enabled(&self) -> (r: Result<bool, factory_error>)
        ensures
            !self.initialized ==> r == Err::<bool, factory_error>(factory_error::NotInitialized),
            self.initialized ==> r == Ok::<bool, factory_error>(self.fees_enabled),
    {
        if !self.initialized {
            return Err(factory_error::NotInitialized);
        }
        Ok(self.fees_enabled)
    }

    /// How many pairs this factory has created.
    pub fn all_pairs_length(&self) -> (r: Result<u32, factory_error>)
        requires
            self.wf(),
        ensures
            !self.initialized ==> r == Err::<u32, factory_error>(factory_error::NotInitialized),
            self.initialized ==> r == Ok::<u32, factory_error>(self.pairs@.len() as u32),
    {
        if !self.initialized {
            return Err(factory_error::NotInitialized);
        }
        Ok(self.pairs.len() as u32)
    }

    /// The address of the `n`th created pair (0-indexed).
    pub fn all_pairs(&self, n: u32) -> (r: Result<Address, factory_error>)
        requires
            self.wf(),
        ensures
            !self.initialized ==> r == Err::<Address, factory_error>(factory_error::NotInitialized),
            self.initialized && n >= self.pairs@.len()
                ==> r == Err::<Address, factory_error>(factory_error::IndexDoesNotExist),
            self.initialized && n < self.pairs@.len()
                ==> r == Ok::<Address, factory_error>(self.pairs@[n as int].1),
    {
        if !self.initialized {
            return Err(factory_error::NotInitialized);
        }
        if (n as usize) >= self.pairs.len() {
            return Err(factory_error::IndexDoesNotExist);
        }
        Ok(self.pairs[n as usize].1)
    }

    fn find_pair(&self, key: Pair) -> (r: Option<usize>)
        ensures
            match r {
                Some(i) => i < self.pairs@.len() && self.pairs@[i as int].0 == key,
                None => !registry_has(self.pairs@, key),
            },
    {
        let n = self.pairs.len();
        let mut i: usize = 0;
        while i < n
            invariant
                i <= n,
                n == self.pairs@.len(),
                forall|j: int| 0 <= j < i ==> self.pairs@[j].0 != key,
            decreases n - i,
        {
            let entry = self.pairs[i].0;
            if entry.token_0() == key.token_0() && entry.token_1() == key.token_1() {
                return Some(i);
            }
            i = i + 1;
        }
        None
    }

    /// The registered address of the pair for the two tokens, in either order.
    pub fn get_pair(&self, token_a: Address, token_b: Address)
        -> (r: Result<Address, factory_error>)
        requires
            self.wf(),
        ensures
            ({
                let key = spec_canonical_pair(token_a, token_b);
                if !self.initialized {
                    r == Err::<Address, factory_error>(factory_error::NotInitialized)
                } else if token_a == token_b {
                    r == Err::<Address, factory_error>(factory_error::CreatePairIdenticalTokens)
                } else if !registry_has(self.pairs@, key) {
                    r == Err::<Address, factory_error>(factory_error::PairDoesNotExist)
                } else {
                    r == Ok::<Address, factory_error>(registry_at(self.pairs@, key))
                }
            }),
    {
        if !self.initialized {
            return Err(factory_error::NotInitialized);
        }
        let key = match Pair::new(token_a, token_b) {
            Ok(p) => p,
            Err(e) => {
                return Err(factory_error::from(e));
            }
        };
        match self.find_pair(key) {
            Some(i) => {
                proof {
                    lemma_registry_at(self.pairs@, i as int);
                }
                Ok(self.pairs[i].1)
            }
            None => Err(factory_error::PairDoesNotExist),
        }
    }

    /// Whether a pair exists for the two tokens, in either order.
    pub fn pair_exists(&self, token_a: Address, token_b: Address)
        -> (r: Result<bool, factory_error>)
        requires
            self.wf(),
        ensures
            !self.initialized ==> r == Err::<bool, factory_error>(factory_error::NotInitialized),
            self.initialized && token_a == token_b
                ==> r == Err::<bool, factory_error>(factory_error::CreatePairIdenticalTokens),
            self.initialized && token_a != token_b
                ==> r == Ok::<bool, factory_error>(
                    registry_has(self.pairs@, spec_canonical_pair(token_a, token_b))),
    {
        if !self.initialized {
            return Err(factory_error::NotInitialized);
        }
        let key = match Pair::new(token_a, token_b) {
            Ok(p) => p,
            Err(e) => {
                return Err(factory_error::from(e));
            }
        };
        match self.find_pair(key) {
            Some(_) => Ok(true),
            None => Ok(false),
        }
    }

    /// Points the protocol fee at a new recipient. The host's authorization
    /// primitive has already required the current `fee_to_setter`'s consent.
    pub fn set_fee_to(&mut self, to: Address) -> (r: Result<(), factory_error>)
        requires
            old(self).wf(),
        ensures
            final(self).wf(),
            r is Err ==> *final(self) == *old(self),
            !old(self).initialized
                ==> r == Err::<(), factory_error>(factory_error::NotInitialized),
            old(self).initialized ==> {
                &&& r is Ok
                &&& *final(self) == (FactoryState { fee_to: to, ..*old(self) })
            },
    {
        if !self.initialized {
            return Err(factory_error::NotInitialized);
        }
        self.fee_to = to;
        Ok(())
    }

    /// Hands fee governance to a new principal. The host's authorization
    /// primitive has already required the current `fee_to_setter`'s consent.
    pub fn set_fee_to_setter(&mut self, new_setter: Address) -> (r: Result<(), factory_error>)
        requires
            old(self).wf(),
        ensures
            final(self).wf(),
            r is Err ==> *final(self) == *old(self),
            !old(self).initialized
                ==> r == Err::<(), factory_error>(factory_error::NotInitialized),
            old(self).initialized ==> {
                &&& r is Ok
                &&& *final(self) == (FactoryState { fee_to_setter: new_setter, ..*old(self) })
            },
    {
        if !self.initialized {
            return Err(factory_error::NotInitialized);
        }
        self.fee_to_setter = new_setter;
        Ok(())
    }

    /// Switches protocol-fee minting on or off. The host's authorization
    /// primitive has already required the current `fee_to_setter`'s consent.
    pub fn set_fees_enabled(&mut self, is_enabled: bool) -> (r: Result<(), factory_error>)
        requires
            old(self).wf(),
        ensures
            final(self).wf(),
            r is Err ==> *final(self) == *old(self),
            !old(self).initialized
                ==> r == Err::<(), factory_error>(factory_error::NotInitialized),
            old(self).initialized ==> {
                &&& r is Ok
                &&& *final(self) == (FactoryState { fees_enabled: is_enabled, ..*old(self) })
            },
    {
        if !self.initialized {
            return Err(factory_error::NotInitialized);
        }
        self.fees_enabled = is_enabled;
        Ok(())
    }

    /// Registers a pair for the two tokens at its deterministically derived
    /// address and returns that address; the host deploys the pair contract
    /// there and calls its `initialize`. The derived address depends only on
    /// the factory and the canonical token order, so it is computable by
    /// anyone before creation.
    pub fn create_pair(&mut self, token_a: Address, token_b: Address)
        -> (r: Result<Address, factory_error>)
        requires
            old(self).wf(),
            old(self).pairs@.len() < u32::MAX,
        ensures
            final(self).wf(),
            r is Err ==> *final(self) == *old(self),
            ({
                let key = spec_canonical_pair(token_a, token_b);
                let addr = spec_pair_address(old(self).address, key.spec_token_0(),
                    key.spec_token_1());
                if !old(self).initialized {
                    r == Err::<Address, factory_error>(factory_error::NotInitialized)
                } else if token_a == token_b {
                    r == Err::<Address, factory_error>(factory_error::CreatePairIdenticalTokens)
                } else if registry_has(old(self).pairs@, key) {
                    r == Err::<Address, factory_error>(factory_error::CreatePairAlreadyExists)
                } else {
                    &&& r == Ok::<Address, factory_error>(addr)
                    &&& final(self).pairs@ == old(self).pairs@.push((key, addr))
                    &&& registry_at(final(self).pairs@, key) == addr
                    &&& forall|k: Pair| k != key ==> registry_at(final(self).pairs@, k)
                        == registry_at(old(self).pairs@, k)
                    &&& *final(self) == (FactoryState {
                        pairs: final(self).pairs,
                        ..*old(self)
                    })
                }
            }),
    {
        if !self.initialized {
            return Err(factory_error::NotInitialized);
        }
        let key = match Pair::new(token_a, token_b) {
            Ok(p) => p,
            Err(e) => {
                return Err(factory_error::from(e));
            }
        };
        match self.find_pair(key) {
            Some(_) => Err(factory_error::CreatePairAlreadyExists),
            None => {
                let pair_address = crate::tokens::pair_address_for(
                    self.address, key.token_0(), key.token_1());
                proof {
                    lemma_registry_push(self.pairs@, key, pair_address);
                }
                self.pairs.push((key, pair_address));
                Ok(pair_address)
            }
        }
    }
}

/// The canonical ordering of two (distinct) token addresses as a pair.
pub open spec fn spec_canonical_pair(a: Address, b: Address) -> Pair {
    if a < b {
        Pair { token_0: a, token_1: b }
    } else {
        Pair { token_0: b, token_1: a }
    }
}

} // verus!
