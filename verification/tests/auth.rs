use pgress_session::auth::{
    AuthAxis, AuthTableKey, AuthorityPolicy, DataplaneGateReason, GateResult, PartitionAuthRow,
    PartitionAuthTable,
};
use pgress_session::isa::LatticeClass;
use pgress_session::WirePartitionId;
use pgress_session::opcode::OpcodeClass;

const P1: WirePartitionId = WirePartitionId(1);

fn row(lattice: LatticeClass, policy: AuthorityPolicy) -> PartitionAuthRow {
    PartitionAuthRow { lattice_class: lattice, policy }
}

// ── AuthorityPolicy ───────────────────────────────────────────────────────

#[test]
fn intersect_clips_component_wise() {
    let a = AuthorityPolicy { assertion: 0b1111, delegation: 0b0011,
                               observability: 0b1010, disclosure: 0b0110 };
    let b = AuthorityPolicy { assertion: 0b0101, delegation: 0b0001,
                               observability: 0b1100, disclosure: 0b0010 };
    let r = a.intersect(b);
    assert_eq!(r.assertion,     0b0101);
    assert_eq!(r.delegation,    0b0001);
    assert_eq!(r.observability, 0b1000);
    assert_eq!(r.disclosure,    0b0010);
}

#[test]
fn intersect_all_with_none_is_none() {
    assert_eq!(AuthorityPolicy::all().intersect(AuthorityPolicy::none()), AuthorityPolicy::none());
    assert_eq!(AuthorityPolicy::none().intersect(AuthorityPolicy::all()), AuthorityPolicy::none());
}

#[test]
fn is_bounded_by_holds_for_subset() {
    let parent = AuthorityPolicy { assertion: 0b1111, ..AuthorityPolicy::none() };
    let child  = AuthorityPolicy { assertion: 0b0101, ..AuthorityPolicy::none() };
    assert!(child.is_bounded_by(parent));
}

#[test]
fn is_bounded_by_fails_for_superset() {
    let parent = AuthorityPolicy { assertion: 0b0001, ..AuthorityPolicy::none() };
    let exceeds = AuthorityPolicy { assertion: 0b0011, ..AuthorityPolicy::none() };
    assert!(!exceeds.is_bounded_by(parent));
}

#[test]
fn for_opcode_class_routes_correctly() {
    let p = AuthorityPolicy {
        assertion: 1, delegation: 2, observability: 4, disclosure: 8
    };
    assert_eq!(p.for_opcode_class(OpcodeClass::SetValue),   1);
    assert_eq!(p.for_opcode_class(OpcodeClass::Control),    1);
    assert_eq!(p.for_opcode_class(OpcodeClass::Stabilize),  1);
    assert_eq!(p.for_opcode_class(OpcodeClass::Data),       1);
    assert_eq!(p.for_opcode_class(OpcodeClass::Propagate),  1);
    assert_eq!(p.for_opcode_class(OpcodeClass::Subscribe),  4);
    assert_eq!(p.for_opcode_class(OpcodeClass::Demand),     4);
    assert_eq!(p.for_opcode_class(OpcodeClass::Profile),    2);
    assert_eq!(p.for_opcode_class(OpcodeClass::Unknown),    0);
}

// ── PartitionAuthTable — lattice checks ───────────────────────────────────

#[test]
fn no_row_is_permissive() {
    let table = PartitionAuthTable::new();
    assert_eq!(
        table.gate(P1, OpcodeClass::SetValue, LatticeClass::top(), AuthorityPolicy::all()),
        GateResult::Allow
    );
}

#[test]
fn bottom_emitter_always_flows_to_any_lattice_class() {
    let mut table = PartitionAuthTable::new();
    table.install(
        AuthTableKey { partition_id: P1, opcode_class: OpcodeClass::SetValue },
        row(LatticeClass(0b1111), AuthorityPolicy::none()),
    );
    assert_eq!(
        table.gate(P1, OpcodeClass::SetValue, LatticeClass::bottom(), AuthorityPolicy::all()),
        GateResult::Allow
    );
}

#[test]
fn incompatible_lattice_class_denied() {
    let mut table = PartitionAuthTable::new();
    table.install(
        AuthTableKey { partition_id: P1, opcode_class: OpcodeClass::SetValue },
        row(LatticeClass(0b0001), AuthorityPolicy::none()),
    );
    assert_eq!(
        table.gate(P1, OpcodeClass::SetValue, LatticeClass(0b0010), AuthorityPolicy::all()),
        GateResult::Deny(DataplaneGateReason::LatticeViolation)
    );
}

#[test]
fn compatible_lattice_class_allowed() {
    let mut table = PartitionAuthTable::new();
    table.install(
        AuthTableKey { partition_id: P1, opcode_class: OpcodeClass::Demand },
        row(LatticeClass(0b0111), AuthorityPolicy::none()),
    );
    assert_eq!(
        table.gate(P1, OpcodeClass::Demand, LatticeClass(0b0011), AuthorityPolicy::all()),
        GateResult::Allow
    );
}

#[test]
fn row_only_applies_to_matching_opcode_class() {
    let mut table = PartitionAuthTable::new();
    table.install(
        AuthTableKey { partition_id: P1, opcode_class: OpcodeClass::SetValue },
        row(LatticeClass::top(), AuthorityPolicy::none()),
    );
    assert_eq!(
        table.gate(P1, OpcodeClass::Demand, LatticeClass::bottom(), AuthorityPolicy::all()),
        GateResult::Allow
    );
}

#[test]
fn remove_row_restores_permissive() {
    let mut table = PartitionAuthTable::new();
    let key = AuthTableKey { partition_id: P1, opcode_class: OpcodeClass::SetValue };
    table.install(key, row(LatticeClass(0b0001), AuthorityPolicy::none()));
    assert_eq!(
        table.gate(P1, OpcodeClass::SetValue, LatticeClass(0b0010), AuthorityPolicy::all()),
        GateResult::Deny(DataplaneGateReason::LatticeViolation)
    );
    table.remove(&key);
    assert_eq!(
        table.gate(P1, OpcodeClass::SetValue, LatticeClass(0b0010), AuthorityPolicy::all()),
        GateResult::Allow
    );
}

// ── PartitionAuthTable — session policy checks ────────────────────────────

#[test]
fn permissive_row_allows_any_session() {
    let mut table = PartitionAuthTable::new();
    table.install(
        AuthTableKey { partition_id: P1, opcode_class: OpcodeClass::SetValue },
        PartitionAuthRow::permissive(),
    );
    // Even a session with zero assertion passes a permissive row (required = 0)
    let no_write = AuthorityPolicy { assertion: 0, ..AuthorityPolicy::none() };
    assert_eq!(
        table.gate(P1, OpcodeClass::SetValue, LatticeClass::bottom(), no_write),
        GateResult::Allow
    );
}

#[test]
fn required_assertion_bit_denied_when_session_lacks_it() {
    let mut table = PartitionAuthTable::new();
    table.install(
        AuthTableKey { partition_id: P1, opcode_class: OpcodeClass::SetValue },
        PartitionAuthRow {
            lattice_class: LatticeClass::bottom(),
            policy: AuthorityPolicy { assertion: 0x01, ..AuthorityPolicy::none() },
        },
    );
    let no_write = AuthorityPolicy { assertion: 0, ..AuthorityPolicy::all() };
    assert_eq!(
        table.gate(P1, OpcodeClass::SetValue, LatticeClass::bottom(), no_write),
        GateResult::Deny(DataplaneGateReason::PolicyViolation(AuthAxis::Assertion))
    );
}

#[test]
fn session_superset_satisfies_partial_requirement() {
    let mut table = PartitionAuthTable::new();
    // Partition requires bit 0x01 in assertion
    table.install(
        AuthTableKey { partition_id: P1, opcode_class: OpcodeClass::SetValue },
        PartitionAuthRow {
            lattice_class: LatticeClass::bottom(),
            policy: AuthorityPolicy { assertion: 0x01, ..AuthorityPolicy::none() },
        },
    );
    // Session holds 0xFF — superset of 0x01
    let policy = AuthorityPolicy { assertion: 0xFF, ..AuthorityPolicy::none() };
    assert_eq!(
        table.gate(P1, OpcodeClass::SetValue, LatticeClass::bottom(), policy),
        GateResult::Allow
    );
}

#[test]
fn observability_violation_reported_correctly() {
    let mut table = PartitionAuthTable::new();
    table.install(
        AuthTableKey { partition_id: P1, opcode_class: OpcodeClass::Demand },
        PartitionAuthRow {
            lattice_class: LatticeClass::bottom(),
            policy: AuthorityPolicy { observability: 0x01, ..AuthorityPolicy::none() },
        },
    );
    let no_obs = AuthorityPolicy { observability: 0, ..AuthorityPolicy::all() };
    assert_eq!(
        table.gate(P1, OpcodeClass::Demand, LatticeClass::bottom(), no_obs),
        GateResult::Deny(DataplaneGateReason::PolicyViolation(AuthAxis::Observability))
    );
}
