//! Recovery actions for fault levels.
use vstd::prelude::*;
use crate::self_heal::FaultLevel;

verus! {

/// Recovery action to take for a given fault level.
#[derive(Debug, Clone, Copy, PartialEq, Eq)]
pub enum RecoveryAction {
    /// No action needed.
    NoAction,
    /// Retry the operation with backoff.
    Retry,
    /// Switch to fallback (e.g., fallback AI model).
    Fallback,
    /// Attempt to reconnect (e.g., DB).
    Reconnect,
    /// Restart the server process.
    Restart,
    /// Rollback to previous deployment.
    Rollback,
}

/// The recovery action for a fault level.
pub open spec fn action_for_spec(level: FaultLevel) -> RecoveryAction {
    match level {
        FaultLevel::Transient => RecoveryAction::Retry,
        FaultLevel::Degraded => RecoveryAction::Fallback,
        FaultLevel::Failing => RecoveryAction::Reconnect,
        FaultLevel::Critical => RecoveryAction::Restart,
        FaultLevel::Fatal => RecoveryAction::Rollback,
    }
}

/// Determine the recovery action for a fault level.
pub fn action_for(level: FaultLevel) -> (a: RecoveryAction)
    ensures
        a == action_for_spec(level),
{
    match level {
        FaultLevel::Transient => RecoveryAction::Retry,
        FaultLevel::Degraded => RecoveryAction::Fallback,
        FaultLevel::Failing => RecoveryAction::Reconnect,
        FaultLevel::Critical => RecoveryAction::Restart,
        FaultLevel::Fatal => RecoveryAction::Rollback,
    }
}

/// Distinct fault levels call for distinct recovery actions, and no fault
/// level calls for no action.
pub proof fn lemma_action_for_injective(a: FaultLevel, b: FaultLevel)
    ensures
        action_for_spec(a) == action_for_spec(b) ==> a == b,
        action_for_spec(a) != RecoveryAction::NoAction,
{
}

/// A side effect of carrying out a recovery action.
#[derive(Debug, Clone, PartialEq, Eq)]
pub enum RecoveryStep {
    /// Turn on a feature flag.
    SetFlag(String),
    /// Leave the marker file that asks the deploy script to roll back.
    WriteRollbackMarker,
    /// Exit the process with status 1, so that the supervisor restarts it.
    ExitProcess,
}

/// The side effects of a recovery action, in order: the fallback action turns
/// on the `model-fallback` flag, a restart exits the process, a rollback
/// writes its marker and exits; retrying and reconnecting are only logged.
pub open spec fn recovery_steps_spec(action: RecoveryAction, steps: Seq<RecoveryStep>) -> bool {
    match action {
        RecoveryAction::Fallback => steps.len() == 1 && (steps[0] matches RecoveryStep::SetFlag(f) && f@
            == "model-fallback"@),
        RecoveryAction::Restart => steps == seq![RecoveryStep::ExitProcess],
        RecoveryAction::Rollback => steps == seq![RecoveryStep::WriteRollbackMarker, RecoveryStep::ExitProcess],
        _ => steps.len() == 0,
    }
}

/// The side effects of carrying out a recovery action.
pub fn recovery_steps(action: RecoveryAction) -> (r: Vec<RecoveryStep>)
    ensures
        recovery_steps_spec(action, r@),
{
    let mut r: Vec<RecoveryStep> = Vec::new();
    match action {
        RecoveryAction::Fallback => r.push(RecoveryStep::SetFlag("model-fallback".to_owned())),
        RecoveryAction::Restart => r.push(RecoveryStep::ExitProcess),
        RecoveryAction::Rollback => {
            r.push(RecoveryStep::WriteRollbackMarker);
            r.push(RecoveryStep::ExitProcess);
        },
        _ => {},
    }
    assert(action == RecoveryAction::Restart ==> r@ =~= seq![RecoveryStep::ExitProcess]);
    assert(action == RecoveryAction::Rollback ==> r@ =~= seq![RecoveryStep::WriteRollbackMarker, RecoveryStep::ExitProcess]);
    r
}

} // verus!
