//! Compliance: SOC2 / ISO 27001 controls with evidence, audit reports and
//! policy-as-code checks.
use vstd::prelude::*;
use crate::automation::{env_lookup, lookup};
use crate::text::{push_str, str_eq};

verus! {

/// Compliance framework.
#[derive(Debug, Clone, Copy, PartialEq, Eq, Structural)]
pub enum Framework {
    SOC2,
    ISO27001,
    GDPR,
    HIPAA,
}

/// Status of a control.
#[derive(Debug, Clone, PartialEq)]
pub enum ControlStatus {
    Compliant,
    NonCompliant(String),
    NotApplicable,
}

/// Evidence piece for a control.
#[derive(Debug, Clone)]
pub struct Evidence {
    pub id: String,
    pub source: String,
    pub description: String,
    pub collected_at: u64,
    pub valid_until: u64,
}

/// A compliance control with evidence.
#[derive(Debug, Clone)]
pub struct Control {
    pub id: String,
    pub framework: Framework,
    pub category: String,
    pub description: String,
    pub status: ControlStatus,
    pub evidence: Vec<Evidence>,
}

/// Audit report generated from controls. The score, `compliant` out of
/// `total_controls` as a percentage (0 when there are no controls), is
/// computed from these counts by the caller.
#[derive(Debug, Clone)]
pub struct AuditReport {
    pub framework: Framework,
    pub generated_at: u64,
    pub total_controls: usize,
    pub compliant: usize,
    pub non_compliant: usize,
    pub findings: Vec<String>,
    pub recommendations: Vec<String>,
}

/// What a policy checks.
#[derive(Debug, Clone)]
pub enum PolicyCheck {
    EnvVarSet(String),
    FileExists(String),
    PortOpen(u16),
    TlsConfigured,
    RateLimitEnabled,
}

/// Policy-as-code rule.
#[derive(Debug, Clone)]
pub struct PolicyRule {
    pub id: String,
    pub name: String,
    pub description: String,
    pub check: PolicyCheck,
}

/// Seconds for which collected evidence stays valid (a year).
pub const EVIDENCE_VALIDITY_SECS: u64 = 86400 * 365;

/// The standard controls: id, framework, category, description, and the id,
/// source and description of their one piece of evidence.
pub open spec fn control_row(i: int) -> (
    Seq<char>,
    Framework,
    Seq<char>,
    Seq<char>,
    Seq<char>,
    Seq<char>,
    Seq<char>,
) {
    if i == 0 {
        (
            "SOC2-SEC-01"@,
            Framework::SOC2,
            "Security"@,
            "Authentication required for protected endpoints"@,
            "e1"@,
            "asi-auth"@,
            "Clerk JWT middleware on all protected routes"@,
        )
    } else if i == 1 {
        (
            "SOC2-SEC-02"@,
            Framework::SOC2,
            "Security"@,
            "Rate limiting enabled"@,
            "e2"@,
            "middleware.rs"@,
            "GlobalRateLimitLayer: 60 req/min"@,
        )
    } else if i == 2 {
        (
            "ISO-A9-01"@,
            Framework::ISO27001,
            "Access Control"@,
            "JWT verification with algorithm validation"@,
            "e3"@,
            "asi-auth/src/clerk.rs"@,
            "typ=JWT + alg=RS256 validation"@,
        )
    } else if i == 3 {
        (
            "ISO-A12-01"@,
            Framework::ISO27001,
            "Operations Security"@,
            "Backup and restore procedures"@,
            "e4"@,
            "scripts/backup.sh"@,
            "Automated backup with 7-day retention"@,
        )
    } else {
        (
            "ISO-A16-01"@,
            Framework::ISO27001,
            "Incident Management"@,
            "Automated alerting and recovery"@,
            "e5"@,
            "asi-automation"@,
            "Watchdog + Self-heal engine + Prometheus alerts"@,
        )
    }
}

/// `controls` are the standard controls, all compliant, with evidence
/// collected at `now` and valid for a year (saturating at `u64::MAX`).
pub open spec fn standard_controls(controls: Seq<Control>, now: u64) -> bool {
    &&& controls.len() == 5
    &&& forall|i: int|
        0 <= i < 5 ==> {
            let c = #[trigger] controls[i];
            let row = control_row(i);
            &&& c.id@ == row.0
            &&& c.framework == row.1
            &&& c.category@ == row.2
            &&& c.description@ == row.3
            &&& c.status is Compliant
            &&& c.evidence@.len() == 1
            &&& c.evidence@[0].id@ == row.4
            &&& c.evidence@[0].source@ == row.5
            &&& c.evidence@[0].description@ == row.6
            &&& c.evidence@[0].collected_at == now
            &&& c.evidence@[0].valid_until == (if now + EVIDENCE_VALIDITY_SECS > u64::MAX {
                u64::MAX as int
            } else {
                now + EVIDENCE_VALIDITY_SECS
            })
        }
}

/// The standard policy rules: id, name, description.
pub open spec fn policy_row(i: int) -> (Seq<char>, Seq<char>, Seq<char>) {
    if i == 0 {
        ("P01"@, "TLS Required"@, "TLS must be configured for production"@)
    } else if i == 1 {
        ("P02"@, "Rate Limit Active"@, "API rate limiting must be enabled"@)
    } else {
        ("P03"@, "Auth Key Set"@, "CLERK_SECRET_KEY must be configured"@)
    }
}

/// `policies` are the standard rules: TLS configured, rate limiting enabled,
/// and `CLERK_SECRET_KEY` set.
pub open spec fn standard_policies(policies: Seq<PolicyRule>) -> bool {
    &&& policies.len() == 3
    &&& forall|i: int|
        0 <= i < 3 ==> {
            let p = #[trigger] policies[i];
            &&& p.id@ == policy_row(i).0
            &&& p.name@ == policy_row(i).1
            &&& p.description@ == policy_row(i).2
        }
    &&& policies[0].check is TlsConfigured
    &&& policies[1].check is RateLimitEnabled
    &&& policies[2].check matches PolicyCheck::EnvVarSet(k) && k@ == "CLERK_SECRET_KEY"@
}

/// Whether a policy passes in an environment (given as name/value pairs) with
/// the given existing files: ports and rate limiting are taken as satisfied.
pub open spec fn policy_passes(check: PolicyCheck, vars: Seq<(String, String)>, files: Seq<String>) -> bool {
    match check {
        PolicyCheck::EnvVarSet(k) => env_lookup(vars, k@) is Some,
        PolicyCheck::FileExists(f) => exists|i: int| 0 <= i < files.len() && (#[trigger] files[i])@ == f@,
        PolicyCheck::PortOpen(_) => true,
        PolicyCheck::TlsConfigured => env_lookup(vars, "TLS_CERT_PATH"@) is Some,
        PolicyCheck::RateLimitEnabled => true,
    }
}

/// The controls of one framework, in order.
pub open spec fn controls_of(controls: Seq<Control>, f: Framework) -> Seq<Control> {
    controls.filter(|c: Control| c.framework == f)
}

/// The findings for a list of controls: `<id>: <reason>` per non-compliant control.
pub open spec fn findings_of(controls: Seq<Control>) -> Seq<Seq<char>>
    decreases controls.len(),
{
    if controls.len() == 0 {
        Seq::empty()
    } else {
        let rest = findings_of(controls.drop_last());
        match controls.last().status {
            ControlStatus::NonCompliant(r) => rest.push(controls.last().id@ + ": "@ + r@),
            _ => rest,
        }
    }
}

/// `report` is the audit of `framework` over `controls` at time `now`.
pub open spec fn audit_spec(controls: Seq<Control>, framework: Framework, now: u64, report: AuditReport) -> bool {
    let cs = controls_of(controls, framework);
    &&& report.framework == framework
    &&& report.generated_at == now
    &&& report.total_controls == cs.len()
    &&& report.compliant == cs.filter(|c: Control| c.status is Compliant).len()
    &&& report.non_compliant == cs.filter(|c: Control| c.status is NonCompliant).len()
    &&& report.findings@.map_values(|s: String| s@) == findings_of(cs)
    &&& if report.non_compliant > 0 {
        report.recommendations@.map_values(|s: String| s@) == seq![
            "Address non-compliant controls before next audit"@,
        ]
    } else {
        report.recommendations@.len() == 0
    }
}

proof fn lemma_status_filters_bounded(cs: Seq<Control>)
    ensures
        cs.filter(|c: Control| c.status is Compliant).len() + cs.filter(|c: Control| c.status is NonCompliant).len()
            <= cs.len(),
    decreases cs.len(),
{
    reveal_with_fuel(Seq::filter, 1);
    if cs.len() > 0 {
        lemma_status_filters_bounded(cs.drop_last());
    }
}

/// In every audit report, compliant and non-compliant controls together are
/// at most the controls audited, and there is one finding per non-compliant
/// control.
pub proof fn lemma_audit_counts(controls: Seq<Control>, framework: Framework, now: u64, report: AuditReport)
    requires
        audit_spec(controls, framework, now, report),
    ensures
        report.compliant + report.non_compliant <= report.total_controls,
        report.findings@.len() == report.non_compliant,
{
    let cs = controls_of(controls, framework);
    lemma_status_filters_bounded(cs);
    lemma_findings_len(cs);
    assert(report.findings@.map_values(|s: String| s@).len() == report.findings@.len());
}

proof fn lemma_findings_len(cs: Seq<Control>)
    ensures
        findings_of(cs).len() == cs.filter(|c: Control| c.status is NonCompliant).len(),
    decreases cs.len(),
{
    reveal_with_fuel(Seq::filter, 1);
    if cs.len() > 0 {
        lemma_findings_len(cs.drop_last());
    }
}

/// Calls `SystemTime::now().duration_since(UNIX_EPOCH)` and returns whole
/// seconds (zero for a clock before the epoch). Nothing is promised of the value.
#[verifier::external_body]
fn now() -> u64 {
    std::time::SystemTime::now().duration_since(std::time::UNIX_EPOCH).unwrap_or_default().as_secs()
}

fn evidence(id: &str, source: &str, description: &str, at: u64) -> (e: Evidence)
    ensures
        e.id@ == id@,
        e.source@ == source@,
        e.description@ == description@,
        e.collected_at == at,
        e.valid_until == (if at + EVIDENCE_VALIDITY_SECS > u64::MAX {
            u64::MAX as int
        } else {
            at + EVIDENCE_VALIDITY_SECS
        }),
{
    Evidence {
        id: id.to_owned(),
        source: source.to_owned(),
        description: description.to_owned(),
        collected_at: at,
        valid_until: at.saturating_add(EVIDENCE_VALIDITY_SECS),
    }
}

fn control(
    id: &str,
    framework: Framework,
    category: &str,
    description: &str,
    ev: Evidence,
) -> (c: Control)
    ensures
        c.id@ == id@,
        c.framework == framework,
        c.category@ == category@,
        c.description@ == description@,
        c.status is Compliant,
        c.evidence@ == seq![ev],
{
    let mut evs: Vec<Evidence> = Vec::new();
    evs.push(ev);
    Control {
        id: id.to_owned(),
        framework,
        category: category.to_owned(),
        description: description.to_owned(),
        status: ControlStatus::Compliant,
        evidence: evs,
    }
}

fn policy(id: &str, name: &str, description: &str, check: PolicyCheck) -> (p: PolicyRule)
    ensures
        p.id@ == id@,
        p.name@ == name@,
        p.description@ == description@,
        p.check == check,
{
    PolicyRule { id: id.to_owned(), name: name.to_owned(), description: description.to_owned(), check }
}

/// Compliance engine.
pub struct ComplianceEngine {
    controls: Vec<Control>,
    policies: Vec<PolicyRule>,
}

impl ComplianceEngine {
    /// The controls, in order.
    pub closed spec fn controls_view(&self) -> Seq<Control> {
        self.controls@
    }

    /// The policy rules, in order.
    pub closed spec fn policies_view(&self) -> Seq<PolicyRule> {
        self.policies@
    }

    /// The standard controls and policies, with evidence collected now.
    pub fn new() -> (e: Self)
        ensures
            exists|t: u64| standard_controls(e.controls_view(), t),
            standard_policies(e.policies_view()),
    {
        let t = now();
        Self::new_at(t)
    }

    /// The standard controls and policies, with evidence collected at `now`.
    pub fn new_at(now: u64) -> (e: Self)
        ensures
            standard_controls(e.controls_view(), now),
            standard_policies(e.policies_view()),
    {
        let mut controls: Vec<Control> = Vec::new();
        controls.push(
            control(
                "SOC2-SEC-01",
                Framework::SOC2,
                "Security",
                "Authentication required for protected endpoints",
                evidence("e1", "asi-auth", "Clerk JWT middleware on all protected routes", now),
            ),
        );
        controls.push(
            control(
                "SOC2-SEC-02",
                Framework::SOC2,
                "Security",
                "Rate limiting enabled",
                evidence("e2", "middleware.rs", "GlobalRateLimitLayer: 60 req/min", now),
            ),
        );
        controls.push(
            control(
                "ISO-A9-01",
                Framework::ISO27001,
                "Access Control",
                "JWT verification with algorithm validation",
                evidence("e3", "asi-auth/src/clerk.rs", "typ=JWT + alg=RS256 validation", now),
            ),
        );
        controls.push(
            control(
                "ISO-A12-01",
                Framework::ISO27001,
                "Operations Security",
                "Backup and restore procedures",
                evidence("e4", "scripts/backup.sh", "Automated backup with 7-day retention", now),
            ),
        );
        controls.push(
            control(
                "ISO-A16-01",
                Framework::ISO27001,
                "Incident Management",
                "Automated alerting and recovery",
                evidence("e5", "asi-automation", "Watchdog + Self-heal engine + Prometheus alerts", now),
            ),
        );
        let mut policies: Vec<PolicyRule> = Vec::new();
        policies.push(
            policy("P01", "TLS Required", "TLS must be configured for production", PolicyCheck::TlsConfigured),
        );
        policies.push(
            policy("P02", "Rate Limit Active", "API rate limiting must be enabled", PolicyCheck::RateLimitEnabled),
        );
        policies.push(
            policy(
                "P03",
                "Auth Key Set",
                "CLERK_SECRET_KEY must be configured",
                PolicyCheck::EnvVarSet("CLERK_SECRET_KEY".to_owned()),
            ),
        );
        ComplianceEngine { controls, policies }
    }

    /// The policy rules.
    pub fn policies(&self) -> (p: &Vec<PolicyRule>)
        ensures
            p@ == self.policies_view(),
    {
        &self.policies
    }

    /// The controls.
    pub fn controls(&self) -> (c: &Vec<Control>)
        ensures
            c@ == self.controls_view(),
    {
        &self.controls
    }

    /// Checks every policy against an environment (name/value pairs) and the
    /// files known to exist: the policy's name and whether it passed.
    pub fn verify_policies(&self, env_vars: &Vec<(String, String)>, existing_files: &Vec<String>) -> (r: Vec<(String, bool)>)
        ensures
            r@.len() == self.policies_view().len(),
            forall|i: int|
                0 <= i < r@.len() ==> (#[trigger] r@[i]).0@ == self.policies_view()[i].name@ && r@[i].1
                    == policy_passes(self.policies_view()[i].check, env_vars@, existing_files@),
    {
        let mut r: Vec<(String, bool)> = Vec::new();
        let mut i: usize = 0;
        while i < self.policies.len()
            invariant
                i <= self.policies.len(),
                r@.len() == i,
                forall|k: int|
                    0 <= k < i ==> (#[trigger] r@[k]).0@ == self.policies@[k].name@ && r@[k].1
                        == policy_passes(self.policies@[k].check, env_vars@, existing_files@),
            decreases self.policies.len() - i,
        {
            let p = &self.policies[i];
            let passed = match &p.check {
                PolicyCheck::EnvVarSet(k) => lookup(env_vars, k.as_str()).is_some(),
                PolicyCheck::FileExists(f) => {
                    let mut found = false;
                    let mut j: usize = 0;
                    while j < existing_files.len() && !found
                        invariant
                            j <= existing_files.len(),
                            found ==> exists|m: int| 0 <= m < existing_files@.len() && (#[trigger] existing_files@[m])@ == f@,
                            !found ==> forall|m: int| 0 <= m < j ==> (#[trigger] existing_files@[m])@ != f@,
                        decreases existing_files.len() - j + (if found { 0int } else { 1int }),
                    {
                        if str_eq(existing_files[j].as_str(), f.as_str()) {
                            found = true;
                        } else {
                            j = j + 1;
                        }
                    }
                    found
                },
                PolicyCheck::PortOpen(_) => true,
                PolicyCheck::TlsConfigured => lookup(env_vars, "TLS_CERT_PATH").is_some(),
                PolicyCheck::RateLimitEnabled => true,
            };
            r.push((p.name.clone(), passed));
            i = i + 1;
        }
        r
    }

    /// Generate an audit report for a framework, dated now.
    pub fn audit(&self, framework: Framework) -> (r: AuditReport)
        ensures
            exists|t: u64| audit_spec(self.controls_view(), framework, t, r),
    {
        let t = now();
        self.audit_at(framework, t)
    }

    /// Generate an audit report for a framework, dated `now`.
    pub fn audit_at(&self, framework: Framework, now: u64) -> (r: AuditReport)
        ensures
            audit_spec(self.controls_view(), framework, now, r),
    {
        let ghost all = self.controls@;
        let ghost f_of = |c: Control| c.framework == framework;
        let ghost f_ok = |c: Control| c.status is Compliant;
        let ghost f_bad = |c: Control| c.status is NonCompliant;
        let mut total: usize = 0;
        let mut compliant: usize = 0;
        let mut non_compliant: usize = 0;
        let mut findings: Vec<String> = Vec::new();
        let mut i: usize = 0;
        assert(all.take(0) =~= Seq::<Control>::empty());
        proof {
            reveal_with_fuel(Seq::filter, 1);
        }
        while i < self.controls.len()
            invariant
                i <= self.controls.len(),
                all == self.controls@,
                f_of == (|c: Control| c.framework == framework),
                f_ok == (|c: Control| c.status is Compliant),
                f_bad == (|c: Control| c.status is NonCompliant),
                total == all.take(i as int).filter(f_of).len(),
                compliant == all.take(i as int).filter(f_of).filter(f_ok).len(),
                non_compliant == all.take(i as int).filter(f_of).filter(f_bad).len(),
                findings@.map_values(|s: String| s@) == findings_of(all.take(i as int).filter(f_of)),
                total <= i,
                compliant <= total,
                non_compliant <= total,
            decreases self.controls.len() - i,
        {
            let c = &self.controls[i];
            let ghost before = all.take(i as int).filter(f_of);
            let ghost fb = findings@;
            proof {
                reveal_with_fuel(Seq::filter, 1);
                assert(all.take(i + 1).drop_last() =~= all.take(i as int));
                assert(all.take(i + 1).last() == all[i as int]);
            }
            if c.framework == framework {
                proof {
                    assert(all.take(i + 1).filter(f_of) == before.push(*c));
                    assert(before.push(*c).drop_last() =~= before);
                }
                total = total + 1;
                match &c.status {
                    ControlStatus::Compliant => {
                        compliant = compliant + 1;
                    },
                    ControlStatus::NonCompliant(reason) => {
                        non_compliant = non_compliant + 1;
                        let mut line = c.id.clone();
                        push_str(&mut line, ": ");
                        push_str(&mut line, reason.as_str());
                        findings.push(line);
                        assert(findings@.map_values(|s: String| s@) =~= fb.map_values(|s: String| s@).push(
                            c.id@ + ": "@ + reason@,
                        ));
                    },
                    ControlStatus::NotApplicable => {},
                }
            } else {
                assert(all.take(i + 1).filter(f_of) == before);
            }
            i = i + 1;
        }
        assert(all.take(all.len() as int) =~= all);
        let mut recommendations: Vec<String> = Vec::new();
        if non_compliant > 0 {
            recommendations.push("Address non-compliant controls before next audit".to_owned());
            assert(recommendations@.map_values(|s: String| s@) =~= seq![
                "Address non-compliant controls before next audit"@,
            ]);
        }
        AuditReport {
            framework,
            generated_at: now,
            total_controls: total,
            compliant,
            non_compliant,
            findings,
            recommendations,
        }
    }
}

} // verus!
