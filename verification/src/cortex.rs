//! Cortex: system-wide monitoring types and the predictor's snapshot history.
use vstd::prelude::*;
use crate::text::{decimal, push_decimal, push_str, str_eq};

verus! {

/// Health of a subsystem.
#[derive(Debug, Clone, Copy, PartialEq, Eq, Structural)]
pub enum HealthStatus {
    Healthy,
    Degraded,
    Down,
    Unknown,
}

/// Severity of an anomaly.
#[derive(Debug, Clone, Copy, PartialEq, Eq)]
pub enum AnomalySeverity {
    Warning,
    Critical,
}

/// Impact of a predicted event.
#[derive(Debug, Clone, Copy, PartialEq, Eq)]
pub enum ImpactLevel {
    Low,
    Medium,
    High,
    Critical,
}

/// An action the decision engine can choose.
#[derive(Debug, Clone)]
pub enum DecisionAction {
    ScaleUp { component: String },
    ScaleDown { component: String },
    SwitchModel { to: String },
    IncreasePool { new_size: u32 },
    TriggerRollback,
    EnableStrictRateLimit,
    RunDiagnostics,
    OptimizePrompts,
    NoAction,
}

/// Cross-system analyzer — finds correlations and anomalies.
#[derive(Debug, Clone, Copy)]
pub struct CortexAnalyzer;

impl CortexAnalyzer {
    /// An analyzer.
    pub fn new() -> Self {
        CortexAnalyzer
    }
}

/// Decision engine — chooses actions based on analysis and predictions.
#[derive(Debug, Clone, Copy)]
pub struct CortexDecision;

impl CortexDecision {
    /// A decision engine.
    pub fn new() -> Self {
        CortexDecision
    }
}

/// Cross-system monitor that collects state from all subsystems.
#[derive(Debug, Clone, Copy)]
pub struct CortexMonitor;

impl CortexMonitor {
    /// A monitor.
    pub fn new() -> Self {
        CortexMonitor
    }
}

/// Number of snapshots the predictor keeps.
pub const HISTORY_LIMIT: usize = 100;

/// Predictive engine — keeps the most recent snapshots for trend analysis.
pub struct CortexPredictor<S> {
    history: Vec<S>,
}

impl<S> CortexPredictor<S> {
    /// The history never holds more than `HISTORY_LIMIT` snapshots.
    #[verifier::type_invariant]
    spec fn bounded(self) -> bool {
        self.history.len() <= HISTORY_LIMIT
    }

    /// The snapshots kept, oldest first.
    pub closed spec fn history_view(&self) -> Seq<S> {
        self.history@
    }

    /// A predictor with no history.
    pub fn new() -> (p: Self)
        ensures
            p.history_view() == Seq::<S>::empty(),
    {
        CortexPredictor { history: Vec::new() }
    }

    /// Feed a snapshot into the predictor; the oldest snapshot is dropped
    /// when more than `HISTORY_LIMIT` are held.
    pub fn feed(&mut self, snapshot: S)
        ensures
            final(self).history_view() == if old(self).history_view().len() + 1 > HISTORY_LIMIT {
                old(self).history_view().push(snapshot).drop_first()
            } else {
                old(self).history_view().push(snapshot)
            },
            final(self).history_view().len() <= HISTORY_LIMIT,
    {
        proof {
            use_type_invariant(&*self);
        }
        let mut h: Vec<S> = Vec::new();
        std::mem::swap(&mut h, &mut self.history);
        h.push(snapshot);
        if h.len() > HISTORY_LIMIT {
            let _oldest = h.remove(0);
            assert(h@ =~= old(self).history_view().push(snapshot).drop_first());
        }
        self.history = h;
    }

    /// The snapshots kept, oldest first.
    pub fn history(&self) -> (h: &Vec<S>)
        ensures
            h@ == self.history_view(),
    {
        &self.history
    }
}

/// Feeding keeps the most recent snapshots: the newest snapshot is always the
/// last one kept.
pub proof fn lemma_feed_keeps_newest<S>(before: Seq<S>, after: Seq<S>, s: S)
    requires
        before.len() <= HISTORY_LIMIT,
        after == if before.len() + 1 > HISTORY_LIMIT {
            before.push(s).drop_first()
        } else {
            before.push(s)
        },
    ensures
        after.len() > 0,
        after.last() == s,
        after.len() <= HISTORY_LIMIT,
        forall|i: int| 0 <= i < after.len() - 1 ==> after[i] == before[before.len() - (after.len() - 1) + i],
{
}

// ---------------------------------------------------------------------------
// Analysis: the discrete part
// ---------------------------------------------------------------------------

/// The subsystems, in order, whose status is not healthy.
pub open spec fn degraded_spec(statuses: Seq<(String, HealthStatus)>) -> Seq<Seq<char>>
    decreases statuses.len(),
{
    if statuses.len() == 0 {
        Seq::empty()
    } else {
        let rest = degraded_spec(statuses.drop_last());
        if statuses.last().1 != HealthStatus::Healthy {
            rest.push(statuses.last().0@)
        } else {
            rest
        }
    }
}

/// The names of the subsystems (given with their statuses) that are not healthy.
pub fn degraded_subsystems(statuses: &Vec<(String, HealthStatus)>) -> (r: Vec<String>)
    ensures
        r@.map_values(|s: String| s@) == degraded_spec(statuses@),
{
    let mut r: Vec<String> = Vec::new();
    let mut i: usize = 0;
    assert(statuses@.take(0) =~= Seq::<(String, HealthStatus)>::empty());
    assert(r@.map_values(|s: String| s@) =~= Seq::<Seq<char>>::empty());
    while i < statuses.len()
        invariant
            i <= statuses.len(),
            r@.map_values(|s: String| s@) == degraded_spec(statuses@.take(i as int)),
        decreases statuses.len() - i,
    {
        assert(statuses@.take(i + 1).drop_last() =~= statuses@.take(i as int));
        assert(statuses@.take(i + 1).last() == statuses@[i as int]);
        if statuses[i].1 != HealthStatus::Healthy {
            let ghost before = r@.map_values(|s: String| s@);
            r.push(statuses[i].0.clone());
            assert(r@.map_values(|s: String| s@) =~= before.push(statuses@[i as int].0@));
        }
        i = i + 1;
    }
    assert(statuses@.take(statuses.len() as int) =~= statuses@);
    r
}

/// The overall health for a number of degraded subsystems: healthy with
/// none, degraded with fewer than three, down otherwise.
pub open spec fn overall_health_spec(degraded: nat) -> HealthStatus {
    if degraded == 0 {
        HealthStatus::Healthy
    } else if degraded < 3 {
        HealthStatus::Degraded
    } else {
        HealthStatus::Down
    }
}

/// The overall health for a number of degraded subsystems.
pub fn overall_health(degraded: usize) -> (h: HealthStatus)
    ensures
        h == overall_health_spec(degraded as nat),
{
    if degraded == 0 {
        HealthStatus::Healthy
    } else if degraded < 3 {
        HealthStatus::Degraded
    } else {
        HealthStatus::Down
    }
}

/// The health score: 100 with nothing degraded and no anomaly, 50 with a
/// critical anomaly, 75 otherwise.
pub open spec fn health_score_spec(degraded: nat, anomalies: nat, any_critical: bool) -> u8 {
    if degraded == 0 && anomalies == 0 {
        100
    } else if any_critical {
        50
    } else {
        75
    }
}

/// The health score of an analysis.
pub fn health_score(degraded: usize, anomalies: usize, any_critical: bool) -> (s: u8)
    ensures
        s == health_score_spec(degraded as nat, anomalies as nat, any_critical),
{
    if degraded == 0 && anomalies == 0 {
        100
    } else if any_critical {
        50
    } else {
        75
    }
}

// ---------------------------------------------------------------------------
// Decisions
// ---------------------------------------------------------------------------

/// The pool size the decision engine asks for.
pub const POOL_TARGET_SIZE: u32 = 20;

/// The action for an anomaly on a metric: a bigger pool for `pool_active`,
/// diagnostics otherwise.
pub fn anomaly_action(metric: &str) -> (a: DecisionAction)
    ensures
        metric@ == "pool_active"@ ==> a == (DecisionAction::IncreasePool { new_size: POOL_TARGET_SIZE }),
        metric@ != "pool_active"@ ==> a == DecisionAction::RunDiagnostics,
{
    if str_eq(metric, "pool_active") {
        DecisionAction::IncreasePool { new_size: POOL_TARGET_SIZE }
    } else {
        DecisionAction::RunDiagnostics
    }
}

/// The action for a likely, serious prediction about a subsystem.
pub open spec fn prediction_action_spec(subsystem: Seq<char>, a: DecisionAction) -> bool {
    if subsystem == "ai"@ {
        a matches DecisionAction::SwitchModel { to } && to@ == "fallback"@
    } else if subsystem == "database"@ {
        a == (DecisionAction::IncreasePool { new_size: POOL_TARGET_SIZE })
    } else if subsystem == "server"@ {
        a == DecisionAction::RunDiagnostics
    } else {
        a == DecisionAction::NoAction
    }
}

/// The action for a likely, serious prediction: switch the model for the AI
/// provider, grow the pool for the database, diagnose the server.
pub fn prediction_action(subsystem: &str) -> (a: DecisionAction)
    ensures
        prediction_action_spec(subsystem@, a),
{
    if str_eq(subsystem, "ai") {
        DecisionAction::SwitchModel { to: "fallback".to_owned() }
    } else if str_eq(subsystem, "database") {
        DecisionAction::IncreasePool { new_size: POOL_TARGET_SIZE }
    } else if str_eq(subsystem, "server") {
        DecisionAction::RunDiagnostics
    } else {
        DecisionAction::NoAction
    }
}

/// A prediction's impact is high or critical.
pub fn impact_is_serious(impact: ImpactLevel) -> (b: bool)
    ensures
        b == (impact == ImpactLevel::High || impact == ImpactLevel::Critical),
{
    match impact {
        ImpactLevel::High | ImpactLevel::Critical => true,
        _ => false,
    }
}

/// The identifier of the `n`-th decision: `d_<n>`.
pub fn decision_id(n: u64) -> (r: String)
    ensures
        r@ == "d_"@ + decimal(n as nat),
{
    let mut r = "d_".to_owned();
    push_decimal(&mut r, n);
    r
}

// ---------------------------------------------------------------------------
// Optimisation
// ---------------------------------------------------------------------------

/// A suggested optimisation.
#[derive(Debug, Clone)]
pub enum Optimization {
    /// Tune the system to address a recommendation.
    Tune(String),
    /// The system is already tuned.
    Optimal,
}

/// The optimisations for an analysis score and its recommendations: one
/// `Tune` per recommendation below a perfect score, then `Optimal` from 95 up.
pub open spec fn optimization_plan_spec(score: u8, recs: Seq<Seq<char>>, r: Seq<Optimization>) -> bool {
    let tunes: int = if score < 100 { recs.len() as int } else { 0 };
    &&& r.len() == tunes + (if score >= 95 { 1int } else { 0 })
    &&& forall|i: int| 0 <= i < tunes ==> ((#[trigger] r[i]) matches Optimization::Tune(s) && s@ == recs[i])
    &&& score >= 95 ==> r[tunes] is Optimal
}

/// The optimisations for an analysis.
pub fn optimization_plan(score: u8, recommendations: &Vec<String>) -> (r: Vec<Optimization>)
    ensures
        optimization_plan_spec(score, recommendations@.map_values(|s: String| s@), r@),
{
    let mut r: Vec<Optimization> = Vec::new();
    if score < 100 {
        let mut i: usize = 0;
        while i < recommendations.len()
            invariant
                i <= recommendations.len(),
                r@.len() == i,
                forall|k: int|
                    0 <= k < i ==> ((#[trigger] r@[k]) matches Optimization::Tune(s) && s@ == recommendations@[k]@),
            decreases recommendations.len() - i,
        {
            r.push(Optimization::Tune(recommendations[i].clone()));
            i = i + 1;
        }
    }
    if score >= 95 {
        r.push(Optimization::Optimal);
    }
    r
}

} // verus!
