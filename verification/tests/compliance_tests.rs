use asi::compliance::{
    ComplianceEngine, Control, ControlStatus, Evidence, Framework, PolicyCheck, EVIDENCE_VALIDITY_SECS,
};

fn env() -> Vec<(String, String)> {
    vec![("PATH".to_string(), "/usr/bin".to_string())]
}

fn score(compliant: usize, total: usize) -> f64 {
    if total > 0 { compliant as f64 / total as f64 * 100.0 } else { 0.0 }
}

#[test]
fn test_soc2_audit_all_compliant() {
    let engine = ComplianceEngine::new();
    let report = engine.audit(Framework::SOC2);
    assert_eq!(report.total_controls, 2);
    assert_eq!(report.compliant, 2);
    assert_eq!(score(report.compliant, report.total_controls), 100.0);
}

#[test]
fn test_iso27001_audit() {
    let engine = ComplianceEngine::new();
    let report = engine.audit(Framework::ISO27001);
    assert_eq!(report.total_controls, 3);
    assert!(score(report.compliant, report.total_controls) > 0.0);
}

#[test]
fn test_policy_verification() {
    let engine = ComplianceEngine::new();
    let results = engine.verify_policies(&env(), &vec![]);
    assert!(results.iter().any(|(name, _)| name == "TLS Required"));
}

#[test]
fn audit_of_an_unused_framework_is_empty() {
    let engine = ComplianceEngine::new_at(1000);
    let report = engine.audit_at(Framework::GDPR, 42);
    assert_eq!(report.total_controls, 0);
    assert_eq!(report.generated_at, 42);
    assert!(report.findings.is_empty());
    assert!(report.recommendations.is_empty());
}

#[test]
fn evidence_is_dated_and_valid_for_a_year() {
    let engine = ComplianceEngine::new_at(1000);
    let controls = engine.controls();
    assert_eq!(controls.len(), 5);
    assert_eq!(controls[0].id, "SOC2-SEC-01");
    assert_eq!(controls[0].evidence[0].collected_at, 1000);
    assert_eq!(controls[0].evidence[0].valid_until, 1000 + EVIDENCE_VALIDITY_SECS);
    let late = ComplianceEngine::new_at(u64::MAX - 1);
    assert_eq!(late.controls()[4].evidence[0].valid_until, u64::MAX);
}

#[test]
fn policies_follow_the_environment() {
    let engine = ComplianceEngine::new_at(0);
    let none: Vec<(String, String)> = vec![];
    let r = engine.verify_policies(&none, &vec![]);
    assert_eq!(
        r,
        vec![("TLS Required".to_string(), false), ("Rate Limit Active".to_string(), true), ("Auth Key Set".to_string(), false)]
    );
    let vars = vec![("TLS_CERT_PATH".to_string(), "/c".to_string()), ("CLERK_SECRET_KEY".to_string(), "k".to_string())];
    let r = engine.verify_policies(&vars, &vec![]);
    assert!(r.iter().all(|(_, ok)| *ok));
    assert!(matches!(engine.policies()[2].check, PolicyCheck::EnvVarSet(ref k) if k == "CLERK_SECRET_KEY"));
}

#[test]
fn control_types_hold_their_fields() {
    let c = Control {
        id: "X".into(),
        framework: Framework::HIPAA,
        category: "c".into(),
        description: "d".into(),
        status: ControlStatus::NonCompliant("missing".into()),
        evidence: vec![Evidence { id: "e".into(), source: "s".into(), description: "d".into(), collected_at: 1, valid_until: 2 }],
    };
    assert_eq!(c.status, ControlStatus::NonCompliant("missing".into()));
    assert_eq!(c.framework, Framework::HIPAA);
}
