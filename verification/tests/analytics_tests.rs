use asi::analytics::{high_token_usage, period_label, usage_totals, UsageCounts};
use asi::cortex::{CortexPredictor, HISTORY_LIMIT};

fn point(i: u64, errors: u64) -> UsageCounts {
    UsageCounts { timestamp: i, tokens_used: 100, requests: 50, errors, active_users: 3 + i }
}

#[test]
fn totals_over_points() {
    let pts: Vec<UsageCounts> = (0..10).map(|i| point(i, if i == 5 { 5 } else { 0 })).collect();
    let t = usage_totals(&pts);
    assert_eq!(t.points, 10);
    assert_eq!(t.total_requests, 500);
    assert_eq!(t.total_tokens, 1000);
    assert_eq!(t.total_errors, 5);
    assert_eq!(t.active_users, 12);
    assert_eq!(period_label(10), "10 data points");
}

#[test]
fn empty_totals() {
    let t = usage_totals(&vec![]);
    assert_eq!((t.points, t.total_requests, t.active_users), (0, 0, 0));
    assert_eq!(period_label(0), "no data");
    assert!(!high_token_usage(1_000_000));
    assert!(high_token_usage(1_000_001));
}

#[test]
fn predictor_keeps_the_newest_snapshots() {
    let mut p: CortexPredictor<u32> = CortexPredictor::new();
    for i in 0..(HISTORY_LIMIT as u32 + 5) {
        p.feed(i);
    }
    assert_eq!(p.history().len(), HISTORY_LIMIT);
    assert_eq!(p.history()[0], 5);
    assert_eq!(*p.history().last().unwrap(), HISTORY_LIMIT as u32 + 4);
}
