//! Liquidity-provider token metadata: the pair derives its LP token's name
//! and symbol by truncating the two underlying tokens' symbols and joining
//! them around the protocol tag. The host reads the symbols from the token
//! contracts and stores the results in the token metadata.

use vstd::prelude::*;
use vstd::string::{StrSliceExecFns, StringExecFns};

verus! {

/// The first `n` characters of `s`, or all of `s` when it is shorter.
pub open spec fn spec_take_first_n_chars(s: Seq<char>, n: int) -> Seq<char> {
    if s.len() <= n {
        s
    } else {
        s.subrange(0, n)
    }
}

/// The LP token symbol: both underlying symbols truncated to six
/// characters, joined with a hyphen, with the protocol suffix appended.
pub open spec fn spec_create_symbol(s0: Seq<char>, s1: Seq<char>) -> Seq<char> {
    spec_take_first_n_chars(s0, 6) + "-"@ + spec_take_first_n_chars(s1, 6) + "-RAUM-LP"@
}

/// The LP token name: the same join, with the long-form suffix.
pub open spec fn spec_create_name(s0: Seq<char>, s1: Seq<char>) -> Seq<char> {
    spec_take_first_n_chars(s0, 6) + "-"@ + spec_take_first_n_chars(s1, 6) + " RAUM LP Token"@
}

/// The first `n` characters of a token symbol (the whole symbol when it is
/// shorter).
pub fn take_first_n_chars<'a>(s: &'a str, n: usize) -> (r: &'a str)
    ensures
        r@ == spec_take_first_n_chars(s@, n as int),
{
    let len = s.unicode_len();
    if len <= n {
        s
    } else {
        s.substring_char(0, n)
    }
}

/// The symbol of the pair's LP token, from the two token symbols.
pub fn create_symbol(symbol_0: &str, symbol_1: &str) -> (r: String)
    ensures
        r@ == spec_create_symbol(symbol_0@, symbol_1@),
{
    let mut out = String::from_str(take_first_n_chars(symbol_0, 6));
    out.append("-");
    out.append(take_first_n_chars(symbol_1, 6));
    out.append("-RAUM-LP");
    out
}

/// The name of the pair's LP token, from the two token symbols.
pub fn create_name(symbol_0: &str, symbol_1: &str) -> (r: String)
    ensures
        r@ == spec_create_name(symbol_0@, symbol_1@),
{
    let mut out = String::from_str(take_first_n_chars(symbol_0, 6));
    out.append("-");
    out.append(take_first_n_chars(symbol_1, 6));
    out.append(" RAUM LP Token");
    out
}

} // verus!
