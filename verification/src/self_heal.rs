//! Self-healing: consecutive-failure tracking with escalating fault levels.
use vstd::prelude::*;
use crate::text::{decimal, push_decimal, push_str};

verus! {

/// Fault severity levels, from least to most severe.
#[derive(Debug, Clone, Copy, PartialEq, Eq, PartialOrd, Ord)]
pub enum FaultLevel {
    /// L1: Transient — retry.
    Transient,
    /// L2: Degraded — fallback.
    Degraded,
    /// L3: Failing — attempt recovery.
    Failing,
    /// L4: Critical — restart.
    Critical,
    /// L5: Fatal — rollback.
    Fatal,
}

/// The numeric level (1 to 5) of a fault level.
pub open spec fn severity_spec(level: FaultLevel) -> u8 {
    match level {
        FaultLevel::Transient => 1,
        FaultLevel::Degraded => 2,
        FaultLevel::Failing => 3,
        FaultLevel::Critical => 4,
        FaultLevel::Fatal => 5,
    }
}

impl FaultLevel {
    /// The numeric level (L1 to L5).
    pub fn severity(self) -> (n: u8)
        ensures
            n == severity_spec(self),
    {
        match self {
            FaultLevel::Transient => 1,
            FaultLevel::Degraded => 2,
            FaultLevel::Failing => 3,
            FaultLevel::Critical => 4,
            FaultLevel::Fatal => 5,
        }
    }
}

/// Consecutive failures from which the engine falls back (L1 to L2).
pub const FALLBACK_THRESHOLD: u32 = 3;
/// Additional failures before recovery escalates further (L2 to L3).
pub const RECOVERY_THRESHOLD: u32 = 5;
/// Additional failures before a restart is warranted (L3 to L4).
pub const RESTART_THRESHOLD: u32 = 3;
/// Restarts from which a rollback is warranted (L4 to L5).
pub const ROLLBACK_THRESHOLD: u32 = 3;

/// The fault level for a number of consecutive failures.
pub open spec fn level_for(count: nat) -> FaultLevel {
    if count >= FALLBACK_THRESHOLD + RECOVERY_THRESHOLD + RESTART_THRESHOLD {
        FaultLevel::Fatal
    } else if count >= FALLBACK_THRESHOLD + RECOVERY_THRESHOLD {
        FaultLevel::Critical
    } else if count >= FALLBACK_THRESHOLD {
        FaultLevel::Degraded
    } else {
        FaultLevel::Transient
    }
}

/// Self-healing engine that tracks consecutive failures and escalates response.
pub struct SelfHealEngine {
    /// Consecutive provider failures.
    provider_failures: u32,
    /// Consecutive DB failures.
    db_failures: u32,
    /// Consecutive restart count.
    restart_count: u32,
}

impl SelfHealEngine {
    /// Consecutive provider failures.
    pub closed spec fn provider_failures(&self) -> nat {
        self.provider_failures as nat
    }

    /// Consecutive database failures.
    pub closed spec fn db_failures(&self) -> nat {
        self.db_failures as nat
    }

    /// Recorded restarts.
    pub closed spec fn restarts(&self) -> nat {
        self.restart_count as nat
    }

    /// An engine with all counters at zero.
    pub fn new() -> (e: Self)
        ensures
            e.provider_failures() == 0,
            e.db_failures() == 0,
            e.restarts() == 0,
    {
        SelfHealEngine { provider_failures: 0, db_failures: 0, restart_count: 0 }
    }

    /// The current count of consecutive provider failures.
    pub fn provider_failure_count(&self) -> (n: u32)
        ensures
            n == self.provider_failures(),
    {
        self.provider_failures
    }

    /// The current count of consecutive database failures.
    pub fn db_failure_count(&self) -> (n: u32)
        ensures
            n == self.db_failures(),
    {
        self.db_failures
    }

    /// The current restart count.
    pub fn restart_total(&self) -> (n: u32)
        ensures
            n == self.restarts(),
    {
        self.restart_count
    }

    /// Record a provider failure. Returns the recommended action level.
    pub fn record_provider_failure(&mut self) -> (level: FaultLevel)
        requires
            old(self).provider_failures() < u32::MAX,
        ensures
            final(self).provider_failures() == old(self).provider_failures() + 1,
            final(self).db_failures() == old(self).db_failures(),
            final(self).restarts() == old(self).restarts(),
            level == level_for(final(self).provider_failures()),
    {
        self.provider_failures = self.provider_failures + 1;
        self.assess(self.provider_failures)
    }

    /// Record a successful provider call. Resets the failure counter.
    pub fn record_provider_success(&mut self)
        ensures
            final(self).provider_failures() == 0,
            final(self).db_failures() == old(self).db_failures(),
            final(self).restarts() == old(self).restarts(),
    {
        self.provider_failures = 0;
    }

    /// Record a DB failure. Returns the recommended action level.
    pub fn record_db_failure(&mut self) -> (level: FaultLevel)
        requires
            old(self).db_failures() < u32::MAX,
        ensures
            final(self).db_failures() == old(self).db_failures() + 1,
            final(self).provider_failures() == old(self).provider_failures(),
            final(self).restarts() == old(self).restarts(),
            level == level_for(final(self).db_failures()),
    {
        self.db_failures = self.db_failures + 1;
        self.assess(self.db_failures)
    }

    /// Record a successful DB operation. Resets the counter.
    pub fn record_db_success(&mut self)
        ensures
            final(self).db_failures() == 0,
            final(self).provider_failures() == old(self).provider_failures(),
            final(self).restarts() == old(self).restarts(),
    {
        self.db_failures = 0;
    }

    /// Record a restart. Returns true if rollback should be triggered.
    pub fn record_restart(&mut self) -> (rollback: bool)
        requires
            old(self).restarts() < u32::MAX,
        ensures
            final(self).restarts() == old(self).restarts() + 1,
            final(self).provider_failures() == old(self).provider_failures(),
            final(self).db_failures() == old(self).db_failures(),
            rollback == (final(self).restarts() >= ROLLBACK_THRESHOLD),
    {
        self.restart_count = self.restart_count + 1;
        self.restart_count >= ROLLBACK_THRESHOLD
    }

    /// One tick of the health loop: a reachable database resets the DB
    /// failure count; an unreachable one counts a failure and returns its level.
    pub fn record_db_check(&mut self, db_ok: bool) -> (level: Option<FaultLevel>)
        requires
            !db_ok ==> old(self).db_failures() < u32::MAX,
        ensures
            final(self).provider_failures() == old(self).provider_failures(),
            final(self).restarts() == old(self).restarts(),
            db_ok ==> final(self).db_failures() == 0 && level is None,
            !db_ok ==> final(self).db_failures() == old(self).db_failures() + 1 && level == Some(
                level_for(final(self).db_failures() as nat),
            ),
    {
        if db_ok {
            self.record_db_success();
            None
        } else {
            Some(self.record_db_failure())
        }
    }

    /// Assess the fault level based on a consecutive failure count.
    pub fn assess(&self, count: u32) -> (level: FaultLevel)
        ensures
            level == level_for(count as nat),
    {
        if count >= FALLBACK_THRESHOLD + RECOVERY_THRESHOLD + RESTART_THRESHOLD {
            FaultLevel::Fatal
        } else if count >= FALLBACK_THRESHOLD + RECOVERY_THRESHOLD {
            FaultLevel::Critical
        } else if count >= FALLBACK_THRESHOLD {
            FaultLevel::Degraded
        } else {
            FaultLevel::Transient
        }
    }

    /// Current health status summary:
    /// `provider_failures=<n> db_failures=<n> restarts=<n>`.
    pub fn health_summary(&self) -> (r: String)
        ensures
            r@ == "provider_failures="@ + decimal(self.provider_failures()) + " db_failures="@
                + decimal(self.db_failures()) + " restarts="@ + decimal(self.restarts()),
    {
        let mut r = String::new();
        push_str(&mut r, "provider_failures=");
        push_decimal(&mut r, self.provider_failures as u64);
        push_str(&mut r, " db_failures=");
        push_decimal(&mut r, self.db_failures as u64);
        push_str(&mut r, " restarts=");
        push_decimal(&mut r, self.restart_count as u64);
        assert(r@ =~= "provider_failures="@ + decimal(self.provider_failures()) + " db_failures="@
            + decimal(self.db_failures()) + " restarts="@ + decimal(self.restarts()));
        r
    }
}

/// The order of fault levels by severity.
pub open spec fn level_le(a: FaultLevel, b: FaultLevel) -> bool {
    severity_spec(a) <= severity_spec(b)
}

/// More consecutive failures never lower the fault level.
pub proof fn lemma_escalation_monotone(a: nat, b: nat)
    requires
        a <= b,
    ensures
        level_le(level_for(a), level_for(b)),
{
}

/// After a success resets the counter, the next failure is transient.
pub proof fn lemma_success_resets(after_success: SelfHealEngine, after_failure: SelfHealEngine, level: FaultLevel)
    requires
        after_success.provider_failures() == 0,
        after_failure.provider_failures() == after_success.provider_failures() + 1,
        level == level_for(after_failure.provider_failures()),
    ensures
        level == FaultLevel::Transient,
{
}

/// The level reached by consecutive failures: transient below the fallback
/// threshold, degraded from it, critical from the restart point and fatal
/// from the rollback point; the failing level is never reported.
pub proof fn lemma_escalation_points(count: nat)
    ensures
        count < 3 ==> level_for(count) == FaultLevel::Transient,
        3 <= count < 8 ==> level_for(count) == FaultLevel::Degraded,
        8 <= count < 11 ==> level_for(count) == FaultLevel::Critical,
        11 <= count ==> level_for(count) == FaultLevel::Fatal,
        level_for(count) != FaultLevel::Failing,
{
}

} // verus!
