use asi::automation::{env_bool, env_duration, parse_u64, AutomationConfig};
use asi::recovery::{action_for, RecoveryAction};
use asi::self_heal::{FaultLevel, SelfHealEngine};
use asi::token::{get_token_usage, track_tokens, TokenUsage};
use asi::watchdog::Watchdog;

fn vars(pairs: &[(&str, &str)]) -> Vec<(String, String)> {
    pairs.iter().map(|(k, v)| (k.to_string(), v.to_string())).collect()
}

#[test]
fn config_defaults() {
    let c = AutomationConfig::from_env(&vec![]);
    assert!(c.watchdog_enabled);
    assert!(!c.auto_backup_enabled);
    assert!(c.self_heal_enabled);
    assert_eq!(c.health_interval, 30);
    assert_eq!(c.watchdog_timeout, 60);
}

#[test]
fn config_reads_flags_and_durations() {
    let v = vars(&[
        ("AUTO_WATCHDOG", "false"),
        ("AUTO_BACKUP", "1"),
        ("AUTO_SELF_HEAL", "yes"),
        ("AUTO_HEALTH_INTERVAL", "15"),
        ("AUTO_WATCHDOG_TIMEOUT", "abc"),
    ]);
    let c = AutomationConfig::from_env(&v);
    assert!(!c.watchdog_enabled);
    assert!(c.auto_backup_enabled);
    assert!(!c.self_heal_enabled);
    assert_eq!(c.health_interval, 15);
    assert_eq!(c.watchdog_timeout, 60);
    assert!(env_bool(&v, "MISSING", true));
    assert_eq!(env_duration(&v, "AUTO_HEALTH_INTERVAL", 1), 15);
}

#[test]
fn unsigned_parsing_matches_std() {
    for s in ["0", "42", "+7", "18446744073709551615", "18446744073709551616", "", "+", "-1", " 1", "1a"] {
        assert_eq!(parse_u64(s), s.parse::<u64>().ok(), "input {:?}", s);
    }
}

#[test]
fn self_heal_escalates_and_resets() {
    let mut e = SelfHealEngine::new();
    assert_eq!(e.record_provider_failure(), FaultLevel::Transient);
    assert_eq!(e.record_provider_failure(), FaultLevel::Transient);
    assert_eq!(e.record_provider_failure(), FaultLevel::Degraded);
    for _ in 0..4 {
        e.record_provider_failure();
    }
    assert_eq!(e.record_provider_failure(), FaultLevel::Critical);
    for _ in 0..2 {
        e.record_provider_failure();
    }
    assert_eq!(e.record_provider_failure(), FaultLevel::Fatal);
    assert_eq!(e.provider_failure_count(), 11);
    e.record_provider_success();
    assert_eq!(e.provider_failure_count(), 0);
    assert_eq!(e.record_db_failure(), FaultLevel::Transient);
    assert!(!e.record_restart());
    assert!(!e.record_restart());
    assert!(e.record_restart());
    assert_eq!(e.health_summary(), "provider_failures=0 db_failures=1 restarts=3");
    e.record_db_success();
    assert_eq!(e.db_failure_count(), 0);
    assert_eq!(FaultLevel::Fatal.severity(), 5);
}

#[test]
fn assess_thresholds() {
    let e = SelfHealEngine::new();
    assert_eq!(e.assess(2), FaultLevel::Transient);
    assert_eq!(e.assess(3), FaultLevel::Degraded);
    assert_eq!(e.assess(7), FaultLevel::Degraded);
    assert_eq!(e.assess(8), FaultLevel::Critical);
    assert_eq!(e.assess(11), FaultLevel::Fatal);
}

#[test]
fn recovery_actions() {
    assert_eq!(action_for(FaultLevel::Transient), RecoveryAction::Retry);
    assert_eq!(action_for(FaultLevel::Degraded), RecoveryAction::Fallback);
    assert_eq!(action_for(FaultLevel::Failing), RecoveryAction::Reconnect);
    assert_eq!(action_for(FaultLevel::Critical), RecoveryAction::Restart);
    assert_eq!(action_for(FaultLevel::Fatal), RecoveryAction::Rollback);
}

#[test]
fn watchdog_deadline() {
    let mut w = Watchdog::new(60);
    assert!(w.is_running());
    w.heartbeat_at(1000);
    assert_eq!(w.last_heartbeat_secs(), 1000);
    assert!(!w.overdue(1060));
    assert!(w.overdue(1061));
    w.heartbeat();
    assert!(w.last_heartbeat_secs() >= 1000);
}

#[test]
fn token_counter_wraps() {
    let mut u = TokenUsage::new();
    track_tokens(&mut u, 5);
    track_tokens(&mut u, 7);
    assert_eq!(get_token_usage(&u), 12);
    track_tokens(&mut u, u64::MAX);
    assert_eq!(get_token_usage(&u), 11);
}
