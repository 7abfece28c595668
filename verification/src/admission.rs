//! Admission control: what becomes of a record under load.
//!
//! Control instructions go to the control pipeline, a demand goes first, stabilization goes to
//! the slow lane. A new value is coalesced under pressure, a propagation is shed, other data is
//! delayed. What is not known is dropped.

use vstd::prelude::*;

use crate::opcode::OpcodeClass;

verus! {

/// Pressure counters of an engine shard.
#[derive(Clone, Copy, Debug, PartialEq, Eq, Structural)]
pub struct ShardPressure {
    /// Depth of the propagation queue.
    pub queue_depth: u32,
    /// Budget consumed in the current scheduling window.
    pub budget_consumed: u64,
    /// Number of parked work cursors.
    pub cursor_count: u32,
}

impl Default for ShardPressure {
    fn default() -> (pressure: Self)
        ensures
            pressure == no_pressure(),
    {
        ShardPressure { queue_depth: 0, budget_consumed: 0, cursor_count: 0 }
    }
}

/// The counters of a shard that nothing was heard of.
pub open spec fn no_pressure() -> ShardPressure {
    ShardPressure { queue_depth: 0, budget_consumed: 0, cursor_count: 0 }
}

/// The verdict on an incoming record.
#[derive(Clone, Copy, Debug, PartialEq, Eq, Structural)]
pub enum AdmissionDecision {
    /// Forward to the shard now.
    Allow,
    /// Hold back for a while.
    Delay,
    /// Discard without notice.
    Drop,
    /// Merge with a pending record of the same node.
    Coalesce,
    /// Put at the front of the queue.
    Prioritize,
    /// Put on the slow-lane budget.
    SlowLane,
    /// Put through the serialised control pipeline.
    ControlPlane,
}

impl AdmissionDecision {
    /// The record goes to the engine in the end.
    #[verifier::allow_in_spec]
    pub fn reaches_engine(self) -> bool
        returns
            self != AdmissionDecision::Drop,
    {
        !matches!(self, Self::Drop)
    }
}

/// Thresholds of the admission policy.
#[derive(Clone, Copy, Debug, PartialEq, Eq, Structural)]
pub struct BackpressurePolicy {
    /// Queue depth from which new values are coalesced and other data is delayed.
    pub coalesce_threshold: u32,
    /// Queue depth from which propagations are shed.
    pub shed_threshold: u32,
}

impl Default for BackpressurePolicy {
    fn default() -> (policy: Self)
        ensures
            policy.coalesce_threshold == 1_000,
            policy.shed_threshold == 5_000,
    {
        BackpressurePolicy { coalesce_threshold: 1_000, shed_threshold: 5_000 }
    }
}

/// What the policy says of a record of `class` for a shard with `depth` entries in its queue.
pub open spec fn admission(policy: BackpressurePolicy, class: OpcodeClass, depth: u32) -> AdmissionDecision {
    match class {
        OpcodeClass::Control | OpcodeClass::Profile | OpcodeClass::Subscribe =>
            AdmissionDecision::ControlPlane,
        OpcodeClass::Demand => AdmissionDecision::Prioritize,
        OpcodeClass::Stabilize => AdmissionDecision::SlowLane,
        OpcodeClass::SetValue => if depth >= policy.coalesce_threshold {
            AdmissionDecision::Coalesce
        } else {
            AdmissionDecision::Allow
        },
        OpcodeClass::Propagate => if depth >= policy.shed_threshold {
            AdmissionDecision::Drop
        } else {
            AdmissionDecision::Allow
        },
        OpcodeClass::Data => if depth >= policy.coalesce_threshold {
            AdmissionDecision::Delay
        } else {
            AdmissionDecision::Allow
        },
        OpcodeClass::Unknown => AdmissionDecision::Drop,
    }
}

impl BackpressurePolicy {
    pub fn new(coalesce_threshold: u32, shed_threshold: u32) -> (policy: Self)
        ensures
            policy == (BackpressurePolicy { coalesce_threshold, shed_threshold }),
    {
        BackpressurePolicy { coalesce_threshold, shed_threshold }
    }

    /// The verdict on a record of `opcode_class` for a shard under `pressure`.
    pub fn decide(&self, opcode_class: OpcodeClass, pressure: &ShardPressure) -> (decision:
        AdmissionDecision)
        ensures
            decision == admission(*self, opcode_class, pressure.queue_depth),
    {
        match opcode_class {
            OpcodeClass::Control | OpcodeClass::Profile | OpcodeClass::Subscribe => {
                AdmissionDecision::ControlPlane
            },
            OpcodeClass::Demand => AdmissionDecision::Prioritize,
            OpcodeClass::Stabilize => AdmissionDecision::SlowLane,
            OpcodeClass::SetValue => {
                if pressure.queue_depth >= self.coalesce_threshold {
                    AdmissionDecision::Coalesce
                } else {
                    AdmissionDecision::Allow
                }
            },
            OpcodeClass::Propagate => {
                if pressure.queue_depth >= self.shed_threshold {
                    AdmissionDecision::Drop
                } else {
                    AdmissionDecision::Allow
                }
            },
            OpcodeClass::Data => {
                if pressure.queue_depth >= self.coalesce_threshold {
                    AdmissionDecision::Delay
                } else {
                    AdmissionDecision::Allow
                }
            },
            OpcodeClass::Unknown => AdmissionDecision::Drop,
        }
    }
}

/// A record is dropped only where its opcode is not known, or where it is a propagation and the
/// queue has reached the shedding threshold. So a demand is never shed.
pub proof fn law_what_is_dropped(policy: BackpressurePolicy, class: OpcodeClass, depth: u32)
    ensures
        admission(policy, class, depth) == AdmissionDecision::Drop <==> (class
            == OpcodeClass::Unknown || (class == OpcodeClass::Propagate && depth
            >= policy.shed_threshold)),
        class == OpcodeClass::Demand ==> admission(policy, class, depth).reaches_engine(),
{
}

/// Control instructions go to the control pipeline under any pressure, and nothing else does.
pub proof fn law_control_plane(policy: BackpressurePolicy, class: OpcodeClass, depth: u32)
    ensures
        admission(policy, class, depth) == AdmissionDecision::ControlPlane
            <==> class.is_control_plane(),
{
}

/// More pressure never lets through a record that less pressure would have dropped.
pub proof fn law_pressure_is_monotone(
    policy: BackpressurePolicy,
    class: OpcodeClass,
    depth: u32,
    deeper: u32,
)
    requires
        depth <= deeper,
    ensures
        admission(policy, class, deeper).reaches_engine() ==> admission(
            policy,
            class,
            depth,
        ).reaches_engine(),
{
}

} // verus!
