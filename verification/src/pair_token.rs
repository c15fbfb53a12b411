//! A fungible-token ledger: per-address balances plus a tracked total supply.
//!
//! The pair engine embeds one instance as its liquidity-provider share token;
//! tests use further instances to model the underlying token contracts at
//! their interface boundary (balance, transfer, mint, burn).

use vstd::prelude::*;
use crate::Address;

verus! {

/// Balance of `a` in an association list: the first matching entry, or 0.
pub open spec fn bal_in(s: Seq<(Address, i128)>, a: Address) -> int
    decreases s.len(),
{
    if s.len() == 0 {
        0
    } else if s[0].0 == a {
        s[0].1 as int
    } else {
        bal_in(s.drop_first(), a)
    }
}

/// Sum of all amounts in an association list.
pub open spec fn sum_amounts(s: Seq<(Address, i128)>) -> int
    decreases s.len(),
{
    if s.len() == 0 {
        0
    } else {
        s[0].1 + sum_amounts(s.drop_first())
    }
}

/// No two entries share an owner.
pub open spec fn unique_owners(s: Seq<(Address, i128)>) -> bool {
    forall|i: int, j: int| 0 <= i < j < s.len() ==> s[i].0 != s[j].0
}

/// Every recorded amount is non-negative.
pub open spec fn nonneg_amounts(s: Seq<(Address, i128)>) -> bool {
    forall|i: int| 0 <= i < s.len() ==> s[i].1 >= 0
}

/// Some entry is owned by `a`.
pub open spec fn has_owner(s: Seq<(Address, i128)>, a: Address) -> bool {
    exists|i: int| 0 <= i < s.len() && s[i].0 == a
}

proof fn lemma_sum_nonneg(s: Seq<(Address, i128)>)
    requires
        nonneg_amounts(s),
    ensures
        sum_amounts(s) >= 0,
    decreases s.len(),
{
    if s.len() > 0 {
        assert(nonneg_amounts(s.drop_first()));
        lemma_sum_nonneg(s.drop_first());
    }
}

proof fn lemma_bal_nonneg(s: Seq<(Address, i128)>, a: Address)
    requires
        nonneg_amounts(s),
    ensures
        bal_in(s, a) >= 0,
    decreases s.len(),
{
    if s.len() > 0 && s[0].0 != a {
        assert(nonneg_amounts(s.drop_first()));
        lemma_bal_nonneg(s.drop_first(), a);
    }
}

/// One balance never exceeds the sum of all (non-negative) balances.
proof fn lemma_bal_le_sum(s: Seq<(Address, i128)>, a: Address)
    requires
        nonneg_amounts(s),
    ensures
        bal_in(s, a) <= sum_amounts(s),
    decreases s.len(),
{
    if s.len() > 0 {
        assert(nonneg_amounts(s.drop_first()));
        if s[0].0 == a {
            lemma_sum_nonneg(s.drop_first());
        } else {
            lemma_bal_le_sum(s.drop_first(), a);
        }
    }
}

proof fn lemma_bal_absent(s: Seq<(Address, i128)>, a: Address)
    requires
        !has_owner(s, a),
    ensures
        bal_in(s, a) == 0,
    decreases s.len(),
{
    if s.len() > 0 {
        assert(s[0].0 != a);
        assert(!has_owner(s.drop_first(), a)) by {
            assert(forall|i: int|
                0 <= i < s.drop_first().len() ==> s.drop_first()[i] == s[i + 1]);
        };
        lemma_bal_absent(s.drop_first(), a);
    }
}

/// With unique owners, the entry at `i` carries the balance of its owner.
proof fn lemma_bal_at(s: Seq<(Address, i128)>, i: int)
    requires
        unique_owners(s),
        0 <= i < s.len(),
    ensures
        bal_in(s, s[i].0) == s[i].1,
    decreases s.len(),
{
    if i > 0 {
        assert(s[0].0 != s[i].0);
        assert(unique_owners(s.drop_first()));
        assert(s.drop_first()[i - 1] == s[i]);
        lemma_bal_at(s.drop_first(), i - 1);
    }
}

/// Updating the entry at `i` shifts its owner's balance and the sum, and
/// leaves every other owner's balance alone.
proof fn lemma_update(s: Seq<(Address, i128)>, i: int, v: i128)
    requires
        unique_owners(s),
        0 <= i < s.len(),
    ensures
        bal_in(s.update(i, (s[i].0, v)), s[i].0) == v,
        forall|a: Address| a != s[i].0
            ==> bal_in(s.update(i, (s[i].0, v)), a) == bal_in(s, a),
        sum_amounts(s.update(i, (s[i].0, v))) == sum_amounts(s) - s[i].1 + v,
        unique_owners(s.update(i, (s[i].0, v))),
        nonneg_amounts(s) && v >= 0 ==> nonneg_amounts(s.update(i, (s[i].0, v))),
    decreases s.len(),
{
    let t = s.update(i, (s[i].0, v));
    assert(forall|j: int| 0 <= j < s.len() && j != i ==> t[j] == s[j]);
    assert(t[i] == (s[i].0, v));
    if i == 0 {
        assert(t.drop_first() =~= s.drop_first());
        assert(sum_amounts(t) == t[0].1 + sum_amounts(t.drop_first()));
        assert(sum_amounts(s) == s[0].1 + sum_amounts(s.drop_first()));
        assert forall|a: Address| a != s[i].0 implies bal_in(t, a) == bal_in(s, a) by {
            assert(bal_in(t, a) == bal_in(t.drop_first(), a));
            assert(bal_in(s, a) == bal_in(s.drop_first(), a));
        }
    } else {
        assert(t[0] == s[0]);
        assert(s[0].0 != s[i].0);
        assert(unique_owners(s.drop_first()));
        assert(s.drop_first()[i - 1] == s[i]);
        lemma_update(s.drop_first(), i - 1, v);
        assert(t.drop_first() =~= s.drop_first().update(i - 1, (s[i].0, v)));
        assert(bal_in(t, s[i].0) == bal_in(t.drop_first(), s[i].0));
        assert(sum_amounts(t) == t[0].1 + sum_amounts(t.drop_first()));
        assert(sum_amounts(s) == s[0].1 + sum_amounts(s.drop_first()));
        assert forall|a: Address| a != s[i].0 implies bal_in(t, a) == bal_in(s, a) by {
            if s[0].0 != a {
                assert(bal_in(t, a) == bal_in(t.drop_first(), a));
                assert(bal_in(s, a) == bal_in(s.drop_first(), a));
            }
        }
    }
}

/// Appending a fresh owner sets its balance, extends the sum, and leaves
/// every other owner's balance alone.
proof fn lemma_push(s: Seq<(Address, i128)>, a: Address, v: i128)
    requires
        !has_owner(s, a),
    ensures
        bal_in(s.push((a, v)), a) == v,
        forall|b: Address| b != a ==> bal_in(s.push((a, v)), b) == bal_in(s, b),
        sum_amounts(s.push((a, v))) == sum_amounts(s) + v,
        unique_owners(s) ==> unique_owners(s.push((a, v))),
        nonneg_amounts(s) && v >= 0 ==> nonneg_amounts(s.push((a, v))),
    decreases s.len(),
{
    let t = s.push((a, v));
    if s.len() == 0 {
        assert(t.drop_first() =~= Seq::<(Address, i128)>::empty());
        assert(sum_amounts(t.drop_first()) == 0);
        assert forall|b: Address| b != a implies bal_in(t, b) == bal_in(s, b) by {
            assert(bal_in(t.drop_first(), b) == 0);
        }
    } else {
        assert(s[0].0 != a);
        assert(!has_owner(s.drop_first(), a)) by {
            assert(forall|i: int|
                0 <= i < s.drop_first().len() ==> s.drop_first()[i] == s[i + 1]);
        };
        lemma_push(s.drop_first(), a, v);
        assert(t.drop_first() =~= s.drop_first().push((a, v)));
        assert(t[0] == s[0]);
        assert(bal_in(t, a) == bal_in(t.drop_first(), a));
        assert(sum_amounts(t) == t[0].1 + sum_amounts(t.drop_first()));
        assert(sum_amounts(s) == s[0].1 + sum_amounts(s.drop_first()));
        assert forall|b: Address| b != a implies bal_in(t, b) == bal_in(s, b) by {
            if s[0].0 != b {
                assert(bal_in(t, b) == bal_in(t.drop_first(), b));
                assert(bal_in(s, b) == bal_in(s.drop_first(), b));
            }
        }
        assert(unique_owners(s) ==> unique_owners(t)) by {
            if unique_owners(s) {
                assert(forall|i: int| 0 <= i < s.len() ==> t[i] == s[i]);
                assert forall|i: int, j: int| 0 <= i < j < t.len() implies t[i].0 != t[j].0 by {
                    if j < s.len() {
                        assert(s[i].0 != s[j].0);
                    } else {
                        assert(t[j] == (a, v));
                        assert(s[i].0 != a);
                    }
                }
            }
        };
    }
}

/// A balance/total-supply ledger for one fungible token.
pub struct PairToken {
    accounts: Vec<(Address, i128)>,
    supply: i128,
}

impl PairToken {
    /// Owners are unique and amounts non-negative.
    pub closed spec fn balances_ok(self) -> bool {
        unique_owners(self.accounts@) && nonneg_amounts(self.accounts@)
    }

    /// Well-formed: unique non-negative balances whose sum is the supply.
    pub closed spec fn wf(self) -> bool {
        self.balances_ok() && self.supply == sum_amounts(self.accounts@)
    }

    /// The balance recorded for `a` (0 when absent).
    pub closed spec fn spec_balance(self, a: Address) -> int {
        bal_in(self.accounts@, a)
    }

    /// The tracked total supply.
    pub closed spec fn spec_supply(self) -> int {
        self.supply as int
    }

    /// An empty ledger: no balances, zero supply.
    pub fn new() -> (r: PairToken)
        ensures
            r.wf(),
            r.spec_supply() == 0,
            forall|a: Address| r.spec_balance(a) == 0,
    {
        PairToken { accounts: Vec::new(), supply: 0 }
    }

    /// A well-formed ledger records only non-negative balances, none of which
    /// exceeds the total supply.
    pub proof fn lemma_balance_bounds(self, a: Address)
        requires
            self.wf(),
        ensures
            0 <= self.spec_balance(a) <= self.spec_supply(),
    {
        lemma_bal_nonneg(self.accounts@, a);
        lemma_bal_le_sum(self.accounts@, a);
    }

    fn find(&self, a: Address) -> (r: Option<usize>)
        ensures
            match r {
                Some(i) => i < self.accounts@.len() && self.accounts@[i as int].0 == a,
                None => !has_owner(self.accounts@, a),
            },
    {
        let n = self.accounts.len();
        let mut i: usize = 0;
        while i < n
            invariant
                i <= n,
                n == self.accounts@.len(),
                forall|j: int| 0 <= j < i ==> self.accounts@[j].0 != a,
            decreases n - i,
        {
            if self.accounts[i].0 == a {
                return Some(i);
            }
            i = i + 1;
        }
        None
    }

    /// The balance held by `a`.
    pub fn balance(&self, a: Address) -> (r: i128)
        requires
            self.wf(),

        ensures
            r as int == self.spec_balance(a),
    {
        match self.find(a) {
            Some(i) => {
                proof {
                    lemma_bal_at(self.accounts@, i as int);
                }
                self.accounts[i].1
            }
            None => {
                proof {
                    lemma_bal_absent(self.accounts@, a);
                }
                0
            }
        }
    }

    /// The total of all shares in circulation.
    pub fn total_supply(&self) -> (r: i128)
        ensures
            r as int == self.spec_supply(),
    {
        self.supply
    }

    fn receive_balance(&mut self, to: Address, amount: i128)
        requires
            old(self).balances_ok(),
            0 <= amount,
            bal_in(old(self).accounts@, to) + amount <= i128::MAX,
        ensures
            final(self).balances_ok(),
            final(self).spec_balance(to) == old(self).spec_balance(to) + amount,
            forall|a: Address| a != to
                ==> final(self).spec_balance(a) == old(self).spec_balance(a),
            sum_amounts(final(self).accounts@)
                == sum_amounts(old(self).accounts@) + amount,
            final(self).supply == old(self).supply,
    {
        match self.find(to) {
            Some(i) => {
                proof {
                    lemma_bal_at(self.accounts@, i as int);
                    lemma_bal_nonneg(self.accounts@, to);
                    lemma_update(self.accounts@, i as int, (self.accounts@[i as int].1 + amount) as i128);
                }
                let v = self.accounts[i].1;
                self.accounts[i] = (to, v + amount);
            }
            None => {
                proof {
                    lemma_bal_absent(self.accounts@, to);
                    lemma_push(self.accounts@, to, amount);
                }
                self.accounts.push((to, amount));
            }
        }
    }

    fn spend_balance(&mut self, from: Address, amount: i128)
        requires
            old(self).balances_ok(),
            0 <= amount,
            amount <= bal_in(old(self).accounts@, from),
        ensures
            final(self).balances_ok(),
            final(self).spec_balance(from) == old(self).spec_balance(from) - amount,
            forall|a: Address| a != from
                ==> final(self).spec_balance(a) == old(self).spec_balance(a),
            sum_amounts(final(self).accounts@)
                == sum_amounts(old(self).accounts@) - amount,
            final(self).supply == old(self).supply,
    {
        match self.find(from) {
            Some(i) => {
                proof {
                    lemma_bal_at(self.accounts@, i as int);
                    lemma_update(self.accounts@, i as int, (self.accounts@[i as int].1 - amount) as i128);
                }
                let v = self.accounts[i].1;
                self.accounts[i] = (from, v - amount);
            }
            None => {
                proof {
                    lemma_bal_absent(self.accounts@, from);
                }
                // amount <= 0 and amount >= 0, so nothing to record
            }
        }
    }

    /// Creates `amount` new shares for `to`, growing the supply.
    pub fn internal_mint(&mut self, to: Address, amount: i128)
        requires
            old(self).wf(),
            0 <= amount,
            old(self).spec_supply() + amount <= i128::MAX,
        ensures
            final(self).wf(),
            final(self).spec_supply() == old(self).spec_supply() + amount,
            final(self).spec_balance(to) == old(self).spec_balance(to) + amount,
            forall|a: Address| a != to
                ==> final(self).spec_balance(a) == old(self).spec_balance(a),
    {
        proof {
            lemma_bal_le_sum(self.accounts@, to);
        }
        self.receive_balance(to, amount);
        self.supply = self.supply + amount;
    }

    /// Destroys `amount` shares held by `from`, shrinking the supply.
    pub fn internal_burn(&mut self, from: Address, amount: i128)
        requires
            old(self).wf(),
            0 <= amount,
            amount <= old(self).spec_balance(from),
        ensures
            final(self).wf(),
            final(self).spec_supply() == old(self).spec_supply() - amount,
            final(self).spec_balance(from) == old(self).spec_balance(from) - amount,
            forall|a: Address| a != from
                ==> final(self).spec_balance(a) == old(self).spec_balance(a),
    {
        proof {
            lemma_bal_le_sum(self.accounts@, from);
            lemma_sum_nonneg(self.accounts@);
        }
        self.spend_balance(from, amount);
        self.supply = self.supply - amount;
    }

    /// Moves `amount` from `from` to `to`; the supply is unchanged.
    pub fn transfer(&mut self, from: Address, to: Address, amount: i128)
        requires
            old(self).wf(),
            0 <= amount,
            amount <= old(self).spec_balance(from),
        ensures
            final(self).wf(),
            final(self).spec_supply() == old(self).spec_supply(),
            from != to ==> final(self).spec_balance(from)
                == old(self).spec_balance(from) - amount,
            from != to ==> final(self).spec_balance(to)
                == old(self).spec_balance(to) + amount,
            from == to ==> final(self).spec_balance(to) == old(self).spec_balance(to),
            forall|a: Address| a != from && a != to
                ==> final(self).spec_balance(a) == old(self).spec_balance(a),
    {
        self.spend_balance(from, amount);
        proof {
            lemma_bal_le_sum(self.accounts@, to);
        }
        self.receive_balance(to, amount);
    }
}

} // verus!
