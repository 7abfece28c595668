use pgress_session::isa::Uid;
use pgress_session::recovery::{EngineOutcome, FailureAction, WorkCursor};

#[test]
fn near_limit_true_at_90_percent() {
    let c = WorkCursor::new(Uid(1), 90, 100);
    assert!(c.near_limit());
}

#[test]
fn near_limit_false_below_90_percent() {
    let c = WorkCursor::new(Uid(2), 89, 100);
    assert!(!c.near_limit());
}

#[test]
fn near_limit_false_with_zero_budget() {
    let c = WorkCursor::new(Uid(3), 0, 0);
    assert!(!c.near_limit());
}

#[test]
fn default_action_for_step_limit_is_requeue() {
    let cursor  = WorkCursor::new(Uid(4), 50, 100);
    let outcome = EngineOutcome::StepLimitExceeded { cursor };
    assert_eq!(FailureAction::default_for(&outcome), FailureAction::Requeue);
}

#[test]
fn default_action_for_cycle_is_escalate() {
    let outcome = EngineOutcome::CycleDetected { node: Uid(5) };
    assert_eq!(FailureAction::default_for(&outcome), FailureAction::Escalate);
}

#[test]
fn default_action_for_capability_violation_is_shed() {
    let outcome = EngineOutcome::CapabilityViolation { node: Uid(6) };
    assert_eq!(FailureAction::default_for(&outcome), FailureAction::Shed);
}
