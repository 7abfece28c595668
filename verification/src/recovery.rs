//! Typed outcomes of the engine, and what is done about failures.

use vstd::prelude::*;

use crate::isa::Uid;

verus! {

/// Propagation work that was parked when the step budget ran out.
#[derive(Clone, Copy, Debug, PartialEq, Eq, Structural)]
pub struct WorkCursor {
    /// The node that the work started from.
    pub root_node: Uid,
    /// Steps consumed before the limit was hit.
    pub steps_consumed: u32,
    /// The budget that was in force.
    pub budget: u32,
}

impl WorkCursor {
    pub fn new(root_node: Uid, steps_consumed: u32, budget: u32) -> (cursor: Self)
        ensures
            cursor == (WorkCursor { root_node, steps_consumed, budget }),
    {
        WorkCursor { root_node, steps_consumed, budget }
    }

    /// At least nine tenths of a budget were consumed.
    pub fn near_limit(&self) -> (near: bool)
        ensures
            near == (self.budget > 0 && self.steps_consumed * 10 >= self.budget * 9),
    {
        self.budget > 0 && self.steps_consumed as u64 * 10 >= self.budget as u64 * 9
    }
}

/// What came of applying an instruction.
#[derive(Clone, Copy, Debug, PartialEq, Eq, Structural)]
pub enum EngineOutcome {
    /// Applied, and propagated until the queue was empty.
    Applied,
    /// The step budget ran out.
    StepLimitExceeded { cursor: WorkCursor },
    /// The dependencies have a cycle.
    CycleDetected { node: Uid },
    /// The instruction exceeds the authority that it came with.
    CapabilityViolation { node: Uid },
}

/// What is done about an outcome that is not `Applied`.
#[derive(Clone, Copy, Debug, PartialEq, Eq, Structural)]
pub enum FailureAction {
    /// Park the cursor and go on in the next scheduling cycle.
    Requeue,
    /// Discard the pending work.
    Shed,
    /// Report to the operator.
    Escalate,
}

impl FailureAction {
    /// The usual action for an outcome.
    pub fn default_for(outcome: &EngineOutcome) -> (action: Self)
        ensures
            action == (match *outcome {
                EngineOutcome::Applied => FailureAction::Requeue,
                EngineOutcome::StepLimitExceeded { .. } => FailureAction::Requeue,
                EngineOutcome::CycleDetected { .. } => FailureAction::Escalate,
                EngineOutcome::CapabilityViolation { .. } => FailureAction::Shed,
            }),
    {
        match outcome {
            EngineOutcome::Applied => Self::Requeue,
            EngineOutcome::StepLimitExceeded { .. } => Self::Requeue,
            EngineOutcome::CycleDetected { .. } => Self::Escalate,
            EngineOutcome::CapabilityViolation { .. } => Self::Shed,
        }
    }
}

} // verus!
