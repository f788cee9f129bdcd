//! Token usage accounting.
use vstd::prelude::*;

verus! {

/// A running total of tokens used. The total wraps around at `u64::MAX`
/// like an atomic `fetch_add`.
#[derive(Debug, Clone, Copy, PartialEq, Eq)]
pub struct TokenUsage {
    total: u64,
}

impl TokenUsage {
    /// The current total.
    pub closed spec fn total(&self) -> u64 {
        self.total
    }

    /// A counter at zero.
    pub fn new() -> (u: Self)
        ensures
            u.total() == 0,
    {
        TokenUsage { total: 0 }
    }
}

/// Adds `count` tokens to the running total (wrapping on overflow).
pub fn track_tokens(usage: &mut TokenUsage, count: u64)
    ensures
        final(usage).total() == (old(usage).total() + count) % 0x1_0000_0000_0000_0000,
{
    usage.total = usage.total.wrapping_add(count);
}

/// The running total of tokens used.
pub fn get_token_usage(usage: &TokenUsage) -> (n: u64)
    ensures
        n == usage.total(),
{
    usage.total
}

/// Tracking `a` then `b` tokens gives the same total as tracking `a + b` at once.
pub proof fn lemma_tracking_accumulates(start: u64, a: u64, b: u64)
    ensures
        ((start + a) % 0x1_0000_0000_0000_0000 + b) % 0x1_0000_0000_0000_0000 == (start + (a + b))
            % 0x1_0000_0000_0000_0000,
{
    let m: int = 0x1_0000_0000_0000_0000;
    assert(((start + a) % m + b) % m == (start + a + b) % m) by {
        vstd::arithmetic::div_mod::lemma_add_mod_noop(start + a, b as int, m);
        vstd::arithmetic::div_mod::lemma_mod_twice(b as int, m);
    }
}

} // verus!
