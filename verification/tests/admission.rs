use pgress_session::admission::{AdmissionDecision, BackpressurePolicy, ShardPressure};
use pgress_session::opcode::OpcodeClass;

fn policy() -> BackpressurePolicy {
    BackpressurePolicy::new(100, 500)
}

fn pressure(depth: u32) -> ShardPressure {
    ShardPressure { queue_depth: depth, ..Default::default() }
}

#[test]
fn demand_is_never_shed() {
    let p = policy();
    // Even at maximum conceivable depth, Demand is prioritised
    assert_eq!(p.decide(OpcodeClass::Demand, &pressure(u32::MAX)), AdmissionDecision::Prioritize);
    assert_eq!(p.decide(OpcodeClass::Demand, &pressure(0)),        AdmissionDecision::Prioritize);
}

#[test]
fn propagate_shed_above_threshold() {
    let p = policy();
    assert_eq!(p.decide(OpcodeClass::Propagate, &pressure(500)), AdmissionDecision::Drop);
    assert_eq!(p.decide(OpcodeClass::Propagate, &pressure(501)), AdmissionDecision::Drop);
}

#[test]
fn propagate_allowed_below_threshold() {
    let p = policy();
    assert_eq!(p.decide(OpcodeClass::Propagate, &pressure(0)),   AdmissionDecision::Allow);
    assert_eq!(p.decide(OpcodeClass::Propagate, &pressure(499)), AdmissionDecision::Allow);
}

#[test]
fn set_value_coalesced_at_threshold() {
    let p = policy();
    assert_eq!(p.decide(OpcodeClass::SetValue, &pressure(100)), AdmissionDecision::Coalesce);
    assert_eq!(p.decide(OpcodeClass::SetValue, &pressure(99)),  AdmissionDecision::Allow);
}

#[test]
fn stabilize_always_slow_lane() {
    let p = policy();
    assert_eq!(p.decide(OpcodeClass::Stabilize, &pressure(0)),        AdmissionDecision::SlowLane);
    assert_eq!(p.decide(OpcodeClass::Stabilize, &pressure(u32::MAX)), AdmissionDecision::SlowLane);
}

#[test]
fn control_plane_ops_always_routed_off_hot_path() {
    let p = policy();
    for &cls in &[OpcodeClass::Control, OpcodeClass::Profile, OpcodeClass::Subscribe] {
        assert_eq!(p.decide(cls, &pressure(u32::MAX)), AdmissionDecision::ControlPlane,
            "{:?} should always be ControlPlane", cls);
    }
}

#[test]
fn unknown_opcode_dropped() {
    let p = policy();
    assert_eq!(p.decide(OpcodeClass::Unknown, &pressure(0)), AdmissionDecision::Drop);
}

#[test]
fn drop_does_not_reach_engine() {
    assert!(!AdmissionDecision::Drop.reaches_engine());
    assert!(AdmissionDecision::Allow.reaches_engine());
    assert!(AdmissionDecision::Prioritize.reaches_engine());
    assert!(AdmissionDecision::Coalesce.reaches_engine());
}
