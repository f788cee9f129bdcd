//! Usage analytics: the counted part of the data lake's summary.
use vstd::prelude::*;
use crate::text::{decimal, push_decimal, push_str};

verus! {

/// Direction of a usage trend.
#[derive(Debug, Clone, Copy, PartialEq, Eq)]
pub enum TrendDirection {
    Improving,
    Stable,
    Degrading,
}

/// The counted fields of a usage data point.
#[derive(Debug, Clone, Copy, PartialEq, Eq)]
pub struct UsageCounts {
    pub timestamp: u64,
    pub tokens_used: u64,
    pub requests: u64,
    pub errors: u64,
    pub active_users: u64,
}

/// The sum of `f` over the points.
pub open spec fn sum_of(points: Seq<UsageCounts>, f: spec_fn(UsageCounts) -> nat) -> nat
    decreases points.len(),
{
    if points.len() == 0 {
        0
    } else {
        sum_of(points.drop_last(), f) + f(points.last())
    }
}

/// Requests of a point.
pub open spec fn requests_of(p: UsageCounts) -> nat {
    p.requests as nat
}

/// Tokens of a point.
pub open spec fn tokens_of(p: UsageCounts) -> nat {
    p.tokens_used as nat
}

/// Errors of a point.
pub open spec fn errors_of(p: UsageCounts) -> nat {
    p.errors as nat
}

proof fn lemma_sum_of_prefix(points: Seq<UsageCounts>, f: spec_fn(UsageCounts) -> nat, i: int)
    requires
        0 <= i <= points.len(),
    ensures
        sum_of(points.take(i), f) <= sum_of(points, f),
    decreases points.len() - i,
{
    if i < points.len() {
        lemma_sum_of_prefix(points, f, i + 1);
        assert(points.take(i + 1).drop_last() =~= points.take(i));
    } else {
        assert(points.take(i) =~= points);
    }
}

/// Totals over the collected points.
#[derive(Debug, Clone, Copy, PartialEq, Eq)]
pub struct UsageTotals {
    pub points: usize,
    pub total_requests: u64,
    pub total_tokens: u64,
    pub total_errors: u64,
    /// Active users at the latest point (0 without points).
    pub active_users: u64,
}

/// The sums of requests, tokens and errors fit in `u64`.
pub open spec fn totals_fit(points: Seq<UsageCounts>) -> bool {
    &&& sum_of(points, |p: UsageCounts| requests_of(p)) <= u64::MAX
    &&& sum_of(points, |p: UsageCounts| tokens_of(p)) <= u64::MAX
    &&& sum_of(points, |p: UsageCounts| errors_of(p)) <= u64::MAX
}

/// Sums requests, tokens and errors over the points and takes the active
/// users of the latest one.
pub fn usage_totals(points: &Vec<UsageCounts>) -> (r: UsageTotals)
    requires
        totals_fit(points@),
    ensures
        r.points == points.len(),
        r.total_requests == sum_of(points@, |p: UsageCounts| requests_of(p)),
        r.total_tokens == sum_of(points@, |p: UsageCounts| tokens_of(p)),
        r.total_errors == sum_of(points@, |p: UsageCounts| errors_of(p)),
        r.active_users == (if points.len() == 0 {
            0
        } else {
            points@.last().active_users
        }),
{
    let ghost fr = |p: UsageCounts| requests_of(p);
    let ghost ft = |p: UsageCounts| tokens_of(p);
    let ghost fe = |p: UsageCounts| errors_of(p);
    let mut req: u64 = 0;
    let mut tok: u64 = 0;
    let mut err: u64 = 0;
    let mut i: usize = 0;
    assert(points@.take(0) =~= Seq::<UsageCounts>::empty());
    while i < points.len()
        invariant
            i <= points.len(),
            fr == (|p: UsageCounts| requests_of(p)),
            ft == (|p: UsageCounts| tokens_of(p)),
            fe == (|p: UsageCounts| errors_of(p)),
            totals_fit(points@),
            req == sum_of(points@.take(i as int), fr),
            tok == sum_of(points@.take(i as int), ft),
            err == sum_of(points@.take(i as int), fe),
        decreases points.len() - i,
    {
        assert(points@.take(i + 1).drop_last() =~= points@.take(i as int));
        assert(points@.take(i + 1).last() == points@[i as int]);
        proof {
            lemma_sum_of_prefix(points@, fr, i + 1);
            lemma_sum_of_prefix(points@, ft, i + 1);
            lemma_sum_of_prefix(points@, fe, i + 1);
        }
        req = req + points[i].requests;
        tok = tok + points[i].tokens_used;
        err = err + points[i].errors;
        i = i + 1;
    }
    assert(points@.take(points.len() as int) =~= points@);
    let active = if points.len() == 0 {
        0
    } else {
        points[points.len() - 1].active_users
    };
    UsageTotals { points: points.len(), total_requests: req, total_tokens: tok, total_errors: err, active_users: active }
}

/// The period label of a summary: `no data`, or `<n> data points`.
pub open spec fn period_text(n: nat) -> Seq<char> {
    if n == 0 {
        "no data"@
    } else {
        decimal(n) + " data points"@
    }
}

/// The period label of a summary over `n` points.
pub fn period_label(n: usize) -> (r: String)
    ensures
        r@ == period_text(n as nat),
{
    if n == 0 {
        "no data".to_owned()
    } else {
        let mut r = String::new();
        push_decimal(&mut r, n as u64);
        push_str(&mut r, " data points");
        assert(Seq::<char>::empty() + decimal(n as nat) == decimal(n as nat));
        r
    }
}

/// Token usage above which caching deserves a review.
pub const HIGH_TOKEN_USAGE: u64 = 1_000_000;

/// Whether the token total calls for reviewing the caching strategy.
pub fn high_token_usage(total_tokens: u64) -> (b: bool)
    ensures
        b == (total_tokens > HIGH_TOKEN_USAGE),
{
    total_tokens > HIGH_TOKEN_USAGE
}

} // verus!
