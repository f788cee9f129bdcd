use asi::backup::{backup_expired, backup_file, backup_interval_secs, chrono_now as backup_now, gzipped, sqlite_backup_command};
use asi::cli::{base_url, chrono_now, clock_text, monitor_interval, parse_command, status_icon, CliCommand};
use asi::cortex::{
    anomaly_action, decision_id, degraded_subsystems, health_score, impact_is_serious, optimization_plan,
    overall_health, prediction_action, DecisionAction, HealthStatus, ImpactLevel, Optimization,
};
use asi::recovery::{recovery_steps, RecoveryAction, RecoveryStep};
use asi::self_heal::{FaultLevel, SelfHealEngine};

#[test]
fn commands_parse_like_the_toolbox() {
    assert_eq!(parse_command(None), CliCommand::Help);
    assert_eq!(parse_command(Some("status")), CliCommand::Status);
    assert_eq!(parse_command(Some("-h")), CliCommand::Help);
    assert_eq!(parse_command(Some("deploy")), CliCommand::Deploy);
    assert_eq!(parse_command(Some("frobnicate")), CliCommand::Unknown);
}

#[test]
fn clock_and_icons() {
    assert_eq!(clock_text(0), "00:00:00");
    assert_eq!(clock_text(3661), "01:01:01");
    assert_eq!(clock_text(86399 + 86400), "23:59:59");
    assert_eq!(chrono_now().len(), 8);
    assert_eq!(status_icon(true), "✅ OK");
    assert_eq!(status_icon(false), "❌ FAIL");
    assert_eq!(monitor_interval(Some("5")), 5);
    assert_eq!(monitor_interval(Some("x")), 10);
    assert_eq!(monitor_interval(None), 10);
    let none: Vec<(String, String)> = vec![];
    assert_eq!(base_url(&none), "http://localhost:3000");
    assert_eq!(base_url(&vec![("ASI_SERVER_URL".to_string(), "http://x".to_string())]), "http://x");
}

#[test]
fn backup_names_and_retention() {
    assert_eq!(backup_file("123"), "backups/asi_123.db");
    assert_eq!(sqlite_backup_command("backups/asi_1.db"), ".backup 'backups/asi_1.db'");
    assert_eq!(gzipped("f.db"), "f.db.gz");
    assert_eq!(backup_interval_secs(2), 7200);
    assert!(backup_expired(100, 100 + 7 * 86400 + 1, 7));
    assert!(!backup_expired(101, 100 + 7 * 86400 + 1, 7));
    assert!(backup_now().parse::<u64>().unwrap() > 1_600_000_000);
}

#[test]
fn recovery_side_effects() {
    assert_eq!(recovery_steps(RecoveryAction::Retry), vec![]);
    assert_eq!(recovery_steps(RecoveryAction::Fallback), vec![RecoveryStep::SetFlag("model-fallback".into())]);
    assert_eq!(recovery_steps(RecoveryAction::Restart), vec![RecoveryStep::ExitProcess]);
    assert_eq!(
        recovery_steps(RecoveryAction::Rollback),
        vec![RecoveryStep::WriteRollbackMarker, RecoveryStep::ExitProcess]
    );
}

#[test]
fn health_loop_ticks() {
    let mut e = SelfHealEngine::new();
    assert_eq!(e.record_db_check(false), Some(FaultLevel::Transient));
    assert_eq!(e.db_failure_count(), 1);
    assert_eq!(e.record_db_check(true), None);
    assert_eq!(e.db_failure_count(), 0);
}

#[test]
fn cortex_analysis_and_decisions() {
    let statuses = vec![
        ("server".to_string(), HealthStatus::Healthy),
        ("database".to_string(), HealthStatus::Degraded),
        ("ai".to_string(), HealthStatus::Down),
    ];
    assert_eq!(degraded_subsystems(&statuses), vec!["database".to_string(), "ai".to_string()]);
    assert_eq!(overall_health(0), HealthStatus::Healthy);
    assert_eq!(overall_health(2), HealthStatus::Degraded);
    assert_eq!(overall_health(3), HealthStatus::Down);
    assert_eq!(health_score(0, 0, false), 100);
    assert_eq!(health_score(1, 0, false), 75);
    assert_eq!(health_score(0, 2, true), 50);
    assert!(matches!(anomaly_action("pool_active"), DecisionAction::IncreasePool { new_size: 20 }));
    assert!(matches!(anomaly_action("cpu"), DecisionAction::RunDiagnostics));
    assert!(matches!(prediction_action("ai"), DecisionAction::SwitchModel { ref to } if to == "fallback"));
    assert!(matches!(prediction_action("database"), DecisionAction::IncreasePool { new_size: 20 }));
    assert!(matches!(prediction_action("devops"), DecisionAction::NoAction));
    assert!(impact_is_serious(ImpactLevel::High) && !impact_is_serious(ImpactLevel::Medium));
    assert_eq!(decision_id(3), "d_3");
}

#[test]
fn optimisation_plans() {
    let recs = vec!["slow".to_string(), "errors".to_string()];
    let p = optimization_plan(75, &recs);
    assert_eq!(p.len(), 2);
    assert!(matches!(&p[1], Optimization::Tune(s) if s == "errors"));
    let p = optimization_plan(100, &recs);
    assert_eq!(p.len(), 1);
    assert!(matches!(p[0], Optimization::Optimal));
    let p = optimization_plan(96, &recs);
    assert_eq!(p.len(), 3);
    assert!(matches!(p[2], Optimization::Optimal));
}
