use pgress_session::attr::{Attrs, Val};
use pgress_session::auth::{AuthTableKey, AuthorityPolicy, PartitionAuthRow};
use pgress_session::dispatch::{DispatchError, parse_payload, wire_to_uid};
use pgress_session::dispatcher::{
    DispatchOutcome, DispatchStep, Dispatcher, EnginePool, EngineReport, EngineStats,
};
use pgress_session::domain::{
    DomainRegistry, PartitionDomain, SessionDomain, SessionQuota, TenantDomain, TenantQuota,
};
use pgress_session::isa::{
    AuthorityMode, CapabilityBits, CompilePolicy, ComputeRule, DepKind, ExecMode, IsaOp,
    LatticeClass, NodeKind, PortKind, QueuePriority, RegionBoundary, RewriteStrategy,
    StabilityContract, T, Uid, ZeroKind,
};
use pgress_session::{PathId, SessionId, ShardId, TenantId, WirePartitionId};
use pgress_session::opcode::OpcodeClass;
use pgress_session::runtime::RejectionReason;
use pgress_session::session::{PathEntry, PathState, SessionEntry};
use pgress_session::telemetry::TelemetryEvent;

/// A host's engine, as far as these tests need one: a new value is an event, nothing else is.
fn engine_report(op: &IsaOp) -> EngineReport<Uid> {
    let events = match op {
        IsaOp::SetValue { node, .. } => vec![*node],
        _ => Vec::new(),
    };
    EngineReport {
        outcome: Ok(events),
        stats: EngineStats { max_queue_depth: 1, nodes_materialized: 0 },
    }
}

/// Drives a record to its end.
fn process_record(
    d: &mut Dispatcher,
    header_buf: &[u8; 48],
    payload: &[u8],
) -> Result<DispatchOutcome<Uid>, DispatchError> {
    match d.process_record(header_buf, payload)? {
        DispatchStep::Apply(pending) => {
            let report = engine_report(&pending.op);
            d.complete_record(pending, report)
        }
        DispatchStep::Bootstrapped { session_id } => Ok(DispatchOutcome::Bootstrapped { session_id }),
        DispatchStep::Skipped => Ok(DispatchOutcome::Skipped),
        DispatchStep::Rejected(reason) => Ok(DispatchOutcome::Rejected(reason)),
    }
}

// ── parse_payload ─────────────────────────────────────────────────────────

fn le_u64(v: u64) -> [u8; 8] { v.to_le_bytes() }
fn le_u32(v: u32) -> [u8; 4] { v.to_le_bytes() }
fn le_u16(v: u16) -> [u8; 2] { v.to_le_bytes() }

#[test]
fn set_value_pos() {
    // payload: node=42, value=+1 (Pos)
    let mut p = Vec::new();
    p.extend_from_slice(&le_u64(42));
    p.push(1i8 as u8);
    let op = parse_payload(0x0003, &p).unwrap();
    assert!(matches!(op, IsaOp::SetValue { val: T::Pos, .. }));
}

#[test]
fn set_value_neg() {
    let mut p = Vec::new();
    p.extend_from_slice(&le_u64(1));
    p.push((-1i8) as u8);
    let op = parse_payload(0x0003, &p).unwrap();
    assert!(matches!(op, IsaOp::SetValue { val: T::Neg, .. }));
}

#[test]
fn set_value_zero() {
    let mut p = Vec::new();
    p.extend_from_slice(&le_u64(7));
    p.push(0u8);
    let op = parse_payload(0x0003, &p).unwrap();
    assert!(matches!(op, IsaOp::SetValue { val: T::Zero, .. }));
}

#[test]
fn set_value_invalid_ternary() {
    let mut p = Vec::new();
    p.extend_from_slice(&le_u64(1));
    p.push(2u8); // 2 is not valid
    assert!(matches!(
        parse_payload(0x0003, &p),
        Err(DispatchError::InvalidTernaryValue(2))
    ));
}

#[test]
fn propagate_roundtrip() {
    let mut p = Vec::new();
    p.extend_from_slice(&le_u64(99));
    let op = parse_payload(0x0004, &p).unwrap();
    assert!(matches!(op, IsaOp::Propagate { .. }));
}

#[test]
fn demand_roundtrip() {
    let mut p = Vec::new();
    p.extend_from_slice(&le_u64(55));
    let op = parse_payload(0x0008, &p).unwrap();
    assert!(matches!(op, IsaOp::Demand { .. }));
}

#[test]
fn reflect_roundtrip() {
    let mut p = Vec::new();
    p.extend_from_slice(&le_u64(11));
    let op = parse_payload(0x000A, &p).unwrap();
    assert!(matches!(op, IsaOp::Reflect { .. }));
}

#[test]
fn stabilize_global() {
    // count=0 → global (None region)
    let mut p = Vec::new();
    p.extend_from_slice(&le_u32(0));
    let op = parse_payload(0x000B, &p).unwrap();
    assert!(matches!(op, IsaOp::Stabilize { region: None }));
}

#[test]
fn stabilize_with_region() {
    let mut p = Vec::new();
    p.extend_from_slice(&le_u32(2));
    p.extend_from_slice(&le_u64(10));
    p.extend_from_slice(&le_u64(20));
    let op = parse_payload(0x000B, &p).unwrap();
    if let IsaOp::Stabilize { region: Some(ids) } = op {
        assert_eq!(ids.len(), 2);
    } else {
        panic!("expected Stabilize with Some region");
    }
}

#[test]
fn node_create_input() {
    let typ = b"my-node";
    let mut p = Vec::new();
    p.extend_from_slice(&le_u64(5));              // uid
    p.extend_from_slice(&le_u16(typ.len() as u16)); // typ_len
    p.extend_from_slice(typ);                     // typ
    p.push(0x00);                                 // rule = Input
    p.extend_from_slice(&le_u16(0));              // attr count = 0
    let op = parse_payload(0x0001, &p).unwrap();
    assert!(matches!(op, IsaOp::NodeCreate { rule: NodeKind::Input, .. }));
}

#[test]
fn node_create_computed_identity() {
    let typ = b"c";
    let mut p = Vec::new();
    p.extend_from_slice(&le_u64(7));
    p.extend_from_slice(&le_u16(1));
    p.extend_from_slice(typ);
    p.push(0x01);  // Identity
    p.extend_from_slice(&le_u16(0));
    let op = parse_payload(0x0001, &p).unwrap();
    assert!(matches!(op, IsaOp::NodeCreate {
        rule: NodeKind::Computed(ComputeRule::Identity), ..
    }));
}

#[test]
fn edge_connect_local_named_port() {
    let port = b"x";
    let mut p = Vec::new();
    p.extend_from_slice(&le_u64(1)); // edge_id
    p.extend_from_slice(&le_u64(2)); // src
    p.extend_from_slice(&le_u64(3)); // tgt
    p.push(0x00);                    // dep_kind = Local
    p.push(0x00);                    // port_kind = Signal
    p.extend_from_slice(&le_u16(port.len() as u16));
    p.extend_from_slice(port);
    let op = parse_payload(0x0002, &p).unwrap();
    assert!(matches!(op, IsaOp::EdgeConnect { dep: DepKind::Local(Some(_)), .. }));
}

#[test]
fn edge_connect_local_no_port() {
    let mut p = Vec::new();
    p.extend_from_slice(&le_u64(1));
    p.extend_from_slice(&le_u64(2));
    p.extend_from_slice(&le_u64(3));
    p.push(0x00); // Local
    p.push(0x00); // Signal
    p.extend_from_slice(&le_u16(0)); // empty port name
    let op = parse_payload(0x0002, &p).unwrap();
    assert!(matches!(op, IsaOp::EdgeConnect { dep: DepKind::Local(None), .. }));
}

#[test]
fn edge_connect_remote_dep_roundtrip() {
    // Full RemoteDep round-trip: encode the minimum valid wire payload and
    // verify parse_payload produces DepKind::Remote with the expected fields.
    let mut p = Vec::new();
    // Common preamble
    p.extend_from_slice(&le_u64(1));  // edge_id
    p.extend_from_slice(&le_u64(2));  // src
    p.extend_from_slice(&le_u64(3));  // tgt
    p.push(0x01);                     // dep_kind = Remote
    p.push(0x02);                     // port_kind = Flow
    p.extend_from_slice(&le_u16(0));  // empty port_name (Remote framing)
    // RemoteDep fields
    p.extend_from_slice(&le_u64(42));          // source_partition
    p.extend_from_slice(&le_u64(7));           // source_uid
    p.extend_from_slice(&le_u64(3));           // source_version
    p.push(0x00);                              // payload_kind = Definite
    p.extend_from_slice(&le_u16(0));           // frontier_count = 0 (empty clock)
    p.extend_from_slice(&le_u64(42));          // source_authority
    p.extend_from_slice(&le_u64(0));           // emitted_class = BOTTOM
    p.push(0x07);                              // capability = READ|PROPAGATE|STABILIZE
    p.extend_from_slice(&le_u64(u64::MAX));    // causal_scope_bits = UNIVERSAL

    let op = parse_payload(0x0002, &p).unwrap();
    if let IsaOp::EdgeConnect { dep: DepKind::Remote(r), .. } = op {
        assert_eq!(r.source_version, 3);
        assert_eq!(r.port_kind, PortKind::Flow);
        assert!(!r.is_zero());
        assert_eq!(r.capability, CapabilityBits(0x07));
    } else {
        panic!("expected EdgeConnect with Remote dep, got: {:?}", op);
    }
}

#[test]
fn edge_connect_remote_dep_typed_zero() {
    let mut p = Vec::new();
    p.extend_from_slice(&le_u64(1));
    p.extend_from_slice(&le_u64(2));
    p.extend_from_slice(&le_u64(3));
    p.push(0x01);                     // dep_kind = Remote
    p.push(0x00);                     // port_kind = Signal
    p.extend_from_slice(&le_u16(0));  // empty port_name
    // RemoteDep fields
    p.extend_from_slice(&le_u64(10));          // source_partition
    p.extend_from_slice(&le_u64(5));           // source_uid
    p.extend_from_slice(&le_u64(1));           // source_version
    p.push(0x01);                              // payload_kind = TypedZero
    p.push(0x00);                              // zero_kind = Conflict
    p.extend_from_slice(&le_u16(1));           // frontier_count = 1
    p.extend_from_slice(&le_u64(10));          // frontier[0] partition_id
    p.extend_from_slice(&le_u64(99));          // frontier[0] clock
    p.extend_from_slice(&le_u64(10));          // source_authority
    p.extend_from_slice(&le_u64(0));           // emitted_class
    p.push(0x01);                              // capability = READ
    p.extend_from_slice(&le_u64(u64::MAX));    // causal_scope_bits

    let op = parse_payload(0x0002, &p).unwrap();
    if let IsaOp::EdgeConnect { dep: DepKind::Remote(r), .. } = op {
        assert!(r.is_zero());
        assert_eq!(r.zero_kind(), Some(ZeroKind::Conflict));
    } else {
        panic!("expected Remote dep");
    }
}

#[test]
fn partition_create_roundtrip() {
    let mut p = Vec::new();
    p.extend_from_slice(&le_u64(42));  // id
    p.extend_from_slice(&le_u64(42));  // authority_root = same as id
    p.extend_from_slice(&le_u64(0));   // lattice_class = BOTTOM
    p.extend_from_slice(&le_u64(u64::MAX)); // causal_domain = UNIVERSAL
    let op = parse_payload(0x000C, &p).unwrap();
    assert!(matches!(op, IsaOp::PartitionCreate { .. }));
}

#[test]
fn set_edge_label_roundtrip() {
    let mut p = Vec::new();
    p.extend_from_slice(&le_u64(10)); // src
    p.extend_from_slice(&le_u64(20)); // tgt
    p.extend_from_slice(&le_u64(0));  // lattice_class = BOTTOM
    p.push(0x07);                     // capability_bits = READ|PROPAGATE|STABILIZE
    p.extend_from_slice(&le_u64(u64::MAX)); // causal_scope = UNIVERSAL
    let op = parse_payload(0x000F, &p).unwrap();
    if let IsaOp::SetEdgeLabel { label, .. } = op {
        assert_eq!(label.capability, CapabilityBits(0x07));
        assert_eq!(label.lattice_class, LatticeClass::bottom());
    } else {
        panic!("expected SetEdgeLabel");
    }
}

#[test]
fn set_mode_lazy() {
    let mut p = Vec::new();
    p.extend_from_slice(&le_u64(3));
    p.push(0x01); // Lazy
    let op = parse_payload(0x0009, &p).unwrap();
    assert!(matches!(op, IsaOp::SetMode { mode: ExecMode::Lazy, .. }));
}

#[test]
fn set_stabilization_config() {
    let mut p = Vec::new();
    p.extend_from_slice(&le_u64(5));    // node
    p.push(0x00);                       // strategy = FullL3
    p.push(0x02);                       // domain = Inherit
    p.extend_from_slice(&le_u32(128));  // max_iterations
    p.push(0x00);                       // convergence_policy = Canonical
    let op = parse_payload(0x0010, &p).unwrap();
    if let IsaOp::SetStabilizationConfig { config, .. } = op {
        assert!(matches!(config.strategy, RewriteStrategy::FullL3));
        assert_eq!(config.budget.max_iterations, 128);
    } else {
        panic!("expected SetStabilizationConfig");
    }
}

#[test]
fn set_execution_policy_high_priority() {
    let mut p = Vec::new();
    p.extend_from_slice(&le_u64(8));
    p.push(0x01); // High
    p.push(0x00); // Fail
    let op = parse_payload(0x0011, &p).unwrap();
    if let IsaOp::SetExecutionPolicy { policy, .. } = op {
        assert_eq!(policy.queue_priority, QueuePriority::High);
    } else {
        panic!("expected SetExecutionPolicy");
    }
}

#[test]
fn attr_map_with_bool_and_ternary() {
    // NodeCreate with two attrs: "flag"=true (0x01), "t"=Pos (0x06)
    let mut p = Vec::new();
    p.extend_from_slice(&le_u64(1)); // uid
    p.extend_from_slice(&le_u16(1)); // typ_len
    p.push(b'n');                    // typ = "n"
    p.push(0x00);                    // rule = Input

    // AttrMap: count=2
    p.extend_from_slice(&le_u16(2));
    // entry 1: key="flag", tag=Bool, value=true
    p.extend_from_slice(&le_u16(4));
    p.extend_from_slice(b"flag");
    p.push(0x01); // Bool
    p.push(0x01); // true
    // entry 2: key="t", tag=Ternary, value=+1
    p.extend_from_slice(&le_u16(1));
    p.extend_from_slice(b"t");
    p.push(0x06); // Ternary
    p.push(1u8);  // Pos

    let op = parse_payload(0x0001, &p).unwrap();
    if let IsaOp::NodeCreate { attrs, .. } = op {
        assert_eq!(attrs.get("flag"), Some(&Val::Bool(true)));
        assert_eq!(attrs.get("t"), Some(&Val::Ternary(T::Pos)));
    } else {
        panic!("expected NodeCreate");
    }
}

#[test]
fn region_declare_dep_closure() {
    let mut p = Vec::new();
    p.extend_from_slice(&le_u64(1));   // root uid
    p.push(0x00);                      // boundary_tag = DepClosure
    p.extend_from_slice(&le_u32(3));   // max_depth = 3
    p.push(0x01);                      // stability = EpochTracked
    p.push(0x00);                      // compile = Eager
    let op = parse_payload(0x0012, &p).unwrap();
    assert!(matches!(op, IsaOp::RegionDeclare {
        boundary: RegionBoundary::DepClosure { max_depth: 3 },
        stability: StabilityContract::EpochTracked,
        compile: CompilePolicy::Eager,
        ..
    }));
}

#[test]
fn region_declare_explicit_set() {
    let mut p = Vec::new();
    p.extend_from_slice(&le_u64(10));  // root
    p.push(0x01);                      // boundary_tag = ExplicitSet
    p.extend_from_slice(&le_u32(2));   // count = 2
    p.extend_from_slice(&le_u64(10));  // node 1
    p.extend_from_slice(&le_u64(20));  // node 2
    p.push(0x00);                      // stability = Pinned
    p.push(0x02);                      // compile = Never
    let op = parse_payload(0x0012, &p).unwrap();
    if let IsaOp::RegionDeclare { boundary: RegionBoundary::ExplicitSet(ids), stability, compile, .. } = op {
        assert_eq!(ids.len(), 2);
        assert_eq!(stability, StabilityContract::Pinned);
        assert_eq!(compile, CompilePolicy::Never);
    } else {
        panic!("expected RegionDeclare with ExplicitSet");
    }
}

#[test]
fn region_declare_unknown_boundary_tag_errors() {
    let mut p = Vec::new();
    p.extend_from_slice(&le_u64(1));
    p.push(0xFF); // unknown tag
    assert!(matches!(
        parse_payload(0x0012, &p),
        Err(DispatchError::UnknownRegionBoundaryTag(0xFF))
    ));
}

#[test]
fn truncated_payload_returns_error() {
    // SetValue needs 9 bytes (8 for uid + 1 for i8), give only 3.
    let p = [0u8; 3];
    assert!(matches!(
        parse_payload(0x0003, &p),
        Err(DispatchError::PayloadTruncated { .. })
    ));
}

// ── EnginePool ────────────────────────────────────────────────────────────

#[test]
fn engine_pool_creates_on_demand() {
    let mut pool = EnginePool::new();
    assert_eq!(pool.shard_count(), 0);
    pool.get_or_insert(ShardId(0));
    assert_eq!(pool.shard_count(), 1);
    pool.get_or_insert(ShardId(0)); // same shard, no new creation
    assert_eq!(pool.shard_count(), 1);
    pool.get_or_insert(ShardId(1));
    assert_eq!(pool.shard_count(), 2);
}

#[test]
fn engine_pool_apply_node_create() {
    let mut pool = EnginePool::new();

    // Build a NodeCreate payload manually: uid=1, typ="n", rule=Input, attrs=empty
    let uid: u64 = 1;
    let op = IsaOp::NodeCreate {
        id: wire_to_uid(uid), typ: "n".into(), rule: NodeKind::Input, attrs: Attrs::new(),
    };
    let events = pool.apply(ShardId(0), engine_report(&op)).unwrap();
    // NodeCreate doesn't produce PropEvents (structural change only)
    assert!(events.is_empty());

    // SetValue produces a ValueChanged event
    let op2 = IsaOp::SetValue { node: wire_to_uid(uid), val: T::Pos };
    let events2 = pool.apply(ShardId(0), engine_report(&op2)).unwrap();
    assert!(!events2.is_empty());
}

#[test]
fn engine_pool_pressure_snapshot_reflects_stats() {
    let mut pool = EnginePool::new();
    let uid = wire_to_uid(1);
    let create = IsaOp::NodeCreate {
        id: uid, typ: "n".into(), rule: NodeKind::Input, attrs: Attrs::new(),
    };
    pool.apply(ShardId(0), engine_report(&create)).unwrap();
    pool.apply(ShardId(0), engine_report(&IsaOp::SetValue { node: uid, val: T::Pos })).unwrap();

    let p = pool.pressure_snapshot(ShardId(0));
    // After a SetValue with no subscribers, nothing is materialised
    // but the shard should have been touched (queue_depth may be 0).
    assert_eq!(p.cursor_count, 0); // always 0 in v1
}

// ── Dispatcher end-to-end ─────────────────────────────────────────────────

/// Build a valid 32-byte IsaStreamHeader preamble.
fn make_preamble(path_id: u64, session_id: u64) -> [u8; 32] {
    let mut buf = [0u8; 32];
    buf[0..4].copy_from_slice(b"PGRS");          // magic
    buf[4..6].copy_from_slice(&0x0003u16.to_le_bytes()); // abi_version
    // flags, feature_flags = 0
    buf[16..24].copy_from_slice(&path_id.to_le_bytes());
    buf[24..32].copy_from_slice(&session_id.to_le_bytes());
    buf
}

/// Build a 48-byte IsaHeader.
fn make_header(
    opcode:       u16,
    length:       u32,   // total record length (header + payload)
    tenant_id:    u64,
    session_id:   u64,
    partition_id: u64,
    causal_epoch: u64,
    stream_seq:   u64,
) -> [u8; 48] {
    let mut buf = [0u8; 48];
    buf[0..2].copy_from_slice(&opcode.to_le_bytes());
    buf[4..8].copy_from_slice(&length.to_le_bytes());
    buf[8..16].copy_from_slice(&tenant_id.to_le_bytes());
    buf[16..24].copy_from_slice(&session_id.to_le_bytes());
    buf[24..32].copy_from_slice(&partition_id.to_le_bytes());
    buf[32..40].copy_from_slice(&causal_epoch.to_le_bytes());
    buf[40..48].copy_from_slice(&stream_seq.to_le_bytes());
    buf
}

fn setup_dispatcher_with_session() -> (Dispatcher, u64, u64, u64) {

    let session_id: u64 = 1;
    let path_id:    u64 = 100;
    let partition_id: u64 = 99;

    let mut d = Dispatcher::new();

    // Local bootstrap: register tenant, session, path, partition.
    d.runtime.domains.register_tenant(TenantDomain { capabilities: CapabilityBits::all(),
        id:     TenantId(0),
        policy: AuthorityPolicy::all(),
        quota:  TenantQuota::default(),
    });
    d.runtime.domains.register_session(SessionDomain { claimed_caps: CapabilityBits::all(),
        id:             SessionId(session_id),
        tenant_id:      TenantId(0),
        claimed_policy: AuthorityPolicy::all(),
        auth_mode:      AuthorityMode::Advisory,
        quota:          SessionQuota::default(),
    });
    d.runtime.sessions.create(SessionEntry {
        session_id:                   SessionId(session_id),
        tenant_id:                    TenantId(0),
        active_path_id:               Some(PathId(path_id)),
        prev_path_id:                 None,
        stream_seq_floor:             0,
        auth_mode:                    AuthorityMode::Advisory,
        last_active_causal_epoch:     0,
        consecutive_quiescent_epochs: 0,
    });
    d.runtime.paths.create(PathEntry {
        path_id:             PathId(path_id),
        session_id:          SessionId(session_id),
        last_ack_stream_seq: 0,
        state:               PathState::Active,
    });
    d.runtime.domains.register_partition(PartitionDomain {
        id:            WirePartitionId(partition_id),
        session_id:    SessionId(session_id),
        lattice_class: LatticeClass::bottom(),
        causal_scope:  u64::MAX,
        shard_id:      ShardId(0),
    });
    for class in [
        OpcodeClass::Control, OpcodeClass::SetValue, OpcodeClass::Propagate,
        OpcodeClass::Demand, OpcodeClass::Stabilize,
    ] {
        d.runtime.auth.install(
            AuthTableKey { partition_id: WirePartitionId(partition_id), opcode_class: class },
            PartitionAuthRow::permissive(),
        );
    }

    (d, session_id, path_id, partition_id)
}

#[test]
fn dispatcher_end_to_end_set_value() {
    let (mut d, session_id, path_id, partition_id) = setup_dispatcher_with_session();

    // Preamble
    let preamble = make_preamble(path_id, session_id);
    d.process_preamble(&preamble).unwrap();

    // Create the node first (typ="" length=0), then set its value.
    let node_uid: u64 = 1;
    let mut nc_payload: Vec<u8> = Vec::new();
    nc_payload.extend_from_slice(&le_u64(node_uid));  // uid
    nc_payload.extend_from_slice(&le_u16(0));          // typ_len = 0
    nc_payload.push(0x00);                             // rule = Input
    nc_payload.extend_from_slice(&le_u16(0));          // attr count = 0
    let nc_hdr = make_header(
        0x0001,
        48 + nc_payload.len() as u32,
        0, session_id, partition_id, 1, 1,
    );
    let outcome = process_record(&mut d, &nc_hdr, &nc_payload).unwrap();
    assert!(matches!(outcome, DispatchOutcome::Applied { .. }), "NodeCreate should be Applied");

    // SetValue: node=1, value=Pos
    let mut sv_payload: Vec<u8> = Vec::new();
    sv_payload.extend_from_slice(&le_u64(node_uid));
    sv_payload.push(1u8); // Pos
    let sv_hdr = make_header(
        0x0003,
        48 + sv_payload.len() as u32,
        0, session_id, partition_id, 2, 2,
    );
    let outcome2 = process_record(&mut d, &sv_hdr, &sv_payload).unwrap();
    if let DispatchOutcome::Applied { shard_id, events } = outcome2 {
        assert_eq!(shard_id, ShardId(0));
        // SetValue on a node with no subscribers → ValueChanged event
        assert!(!events.is_empty(), "SetValue should produce at least one PropEvent");
    } else {
        panic!("expected Applied outcome, got: {:?}", outcome2);
    }
}

#[test]
fn dispatcher_unknown_partition_data_op_rejected() {
    let (mut d, session_id, path_id, _) = setup_dispatcher_with_session();

    let preamble = make_preamble(path_id, session_id);
    d.process_preamble(&preamble).unwrap();

    // SetValue on an unregistered partition (partition_id=999)
    let mut sv_payload: Vec<u8> = Vec::new();
    sv_payload.extend_from_slice(&le_u64(1));
    sv_payload.push(1u8);
    let sv_hdr = make_header(
        0x0003, 48 + sv_payload.len() as u32,
        0, session_id,
        999, // unknown partition
        1, 1,
    );
    let outcome = process_record(&mut d, &sv_hdr, &sv_payload).unwrap();
    assert!(matches!(
        outcome,
        DispatchOutcome::Rejected(RejectionReason::UnknownPartition)
    ));
}

// ── Stabilize → RegionQuiescent telemetry wiring ─────────────────────────

#[test]
fn stabilize_op_emits_region_quiescent_telemetry() {
    // When a Stabilize op is processed, the dispatcher must emit a
    // RegionQuiescent telemetry event with quiescent=true.
    //
    // This validates the "Stabilize → region-level ICG signal → RegionQuiescent"
    // wiring: after engine.apply(Stabilize) returns synchronously, the region
    // is at its e-graph fixed point and the session manager records the event.
    let (mut d, session_id, path_id, partition_id) = setup_dispatcher_with_session();

    let preamble = make_preamble(path_id, session_id);
    d.process_preamble(&preamble).unwrap();

    // Drain bootstrap telemetry so the assertion sees only our events.
    d.runtime.telemetry.drain();

    // Stabilize with no region (global: all Zero nodes in the partition).
    let mut stab_payload = Vec::new();
    stab_payload.extend_from_slice(&le_u32(0)); // count = 0 → global
    let stab_hdr = make_header(
        0x000B,
        48 + stab_payload.len() as u32,
        0, session_id, partition_id, 1, 1,
    );
    let outcome = process_record(&mut d, &stab_hdr, &stab_payload).unwrap();
    assert!(matches!(outcome, DispatchOutcome::Applied { .. }),
        "Stabilize should be Applied, got: {:?}", outcome);

    // Telemetry must contain a RegionQuiescent event.
    let events = d.runtime.telemetry.drain();
    let rq = events.iter().find(|ev| {
        matches!(ev, TelemetryEvent::RegionQuiescent {
            quiescent: true, quiescent_epochs: 1, ..
        })
    });
    assert!(rq.is_some(),
        "Stabilize op must emit RegionQuiescent {{ quiescent=true, epochs=1 }}; \
         got: {:?}", events);
}

#[test]
fn repeated_stabilize_increments_quiescent_epochs() {
    // Multiple consecutive Stabilize ops on the same partition must increment
    // quiescent_epochs, analogous to gated_trunk_cycles in ternary_region.sv.
    let (mut d, session_id, path_id, partition_id) = setup_dispatcher_with_session();
    let preamble = make_preamble(path_id, session_id);
    d.process_preamble(&preamble).unwrap();
    d.runtime.telemetry.drain();

    let stab_payload: Vec<u8> = le_u32(0).to_vec();

    for expected_epoch in 1u32..=3 {
        let stab_hdr = make_header(
            0x000B, 48 + stab_payload.len() as u32,
            0, session_id, partition_id,
            expected_epoch as u64, expected_epoch as u64,
        );
        process_record(&mut d, &stab_hdr, &stab_payload).unwrap();

        let events = d.runtime.telemetry.drain();
        let rq = events.iter().find(|ev| {
            if let TelemetryEvent::RegionQuiescent {
                quiescent_epochs, ..
            } = ev {
                *quiescent_epochs == expected_epoch
            } else {
                false
            }
        });
        assert!(rq.is_some(),
            "epoch {} must appear in RegionQuiescent; got: {:?}", expected_epoch, events);
    }
}

#[test]
fn set_value_after_stabilize_resets_epoch_counter() {
    // A SetValue op (region wakes) must reset the stabilize epoch counter,
    // so the subsequent Stabilize restarts from epoch 1.
    let (mut d, session_id, path_id, partition_id) = setup_dispatcher_with_session();
    let preamble = make_preamble(path_id, session_id);
    d.process_preamble(&preamble).unwrap();
    d.runtime.telemetry.drain();

    let stab_payload: Vec<u8> = le_u32(0).to_vec();

    // First Stabilize → epoch 1
    let hdr1 = make_header(0x000B, 48 + stab_payload.len() as u32,
        0, session_id, partition_id, 1, 1);
    process_record(&mut d, &hdr1, &stab_payload).unwrap();
    d.runtime.telemetry.drain();
    assert_eq!(d.shards.stabilize_epochs(WirePartitionId(partition_id)), 1);

    // Create a node so SetValue has a target
    let node_uid: u64 = 1;
    let mut nc_payload = Vec::new();
    nc_payload.extend_from_slice(&le_u64(node_uid)); // node id
    nc_payload.extend_from_slice(&le_u64(0));        // NodeKind = Computed (0)
    nc_payload.extend_from_slice(&le_u64(0));        // ComputeRule discriminant
    nc_payload.extend_from_slice(&le_u32(0));        // attr count = 0
    let nc_hdr = make_header(0x0001, 48 + nc_payload.len() as u32,
        0, session_id, partition_id, 2, 2);
    process_record(&mut d, &nc_hdr, &nc_payload).unwrap();
    d.runtime.telemetry.drain();

    // SetValue wakes the region — epoch counter must reset
    let mut sv_payload = Vec::new();
    sv_payload.extend_from_slice(&le_u64(node_uid));
    sv_payload.push(1u8); // Pos
    let sv_hdr = make_header(0x0003, 48 + sv_payload.len() as u32,
        0, session_id, partition_id, 3, 3);
    process_record(&mut d, &sv_hdr, &sv_payload).unwrap();
    d.runtime.telemetry.drain();
    assert_eq!(d.shards.stabilize_epochs(WirePartitionId(partition_id)), 0,
        "SetValue must reset stabilize epoch counter");

    // Next Stabilize after wake → epoch 1 again
    let hdr2 = make_header(0x000B, 48 + stab_payload.len() as u32,
        0, session_id, partition_id, 4, 4);
    process_record(&mut d, &hdr2, &stab_payload).unwrap();
    assert_eq!(d.shards.stabilize_epochs(WirePartitionId(partition_id)), 1,
        "after wake+stabilize, counter must restart at 1");
}

#[test]
fn dispatcher_partition_create_feedback() {
    // PartitionCreate on an unknown partition should succeed and register
    // the new partition in DomainRegistry.
    let (mut d, session_id, path_id, _existing_pid) = setup_dispatcher_with_session();

    let preamble = make_preamble(path_id, session_id);
    d.process_preamble(&preamble).unwrap();

    let new_pid: u64 = 200;

    // PartitionCreate payload: id, authority_root, lattice_class, causal_domain_bits
    let mut pc_payload = Vec::new();
    pc_payload.extend_from_slice(&le_u64(new_pid));    // id
    pc_payload.extend_from_slice(&le_u64(new_pid));    // authority_root = self
    pc_payload.extend_from_slice(&le_u64(0));          // lattice_class = BOTTOM
    pc_payload.extend_from_slice(&le_u64(u64::MAX));   // causal_domain = UNIVERSAL
    let pc_hdr = make_header(
        0x000C,
        48 + pc_payload.len() as u32,
        0, session_id,
        0, // header partition_id = 0 (bootstrap); the NEW id is in the payload
        1, 1,
    );

    let outcome = process_record(&mut d, &pc_hdr, &pc_payload).unwrap();
    assert!(matches!(outcome, DispatchOutcome::Applied { .. }),
        "PartitionCreate should be Applied, got: {:?}", outcome);

    // After PartitionCreate, the new partition must be in DomainRegistry.
    assert!(
        d.runtime.domains.partitions.contains_key(&WirePartitionId(new_pid)),
        "new partition must be registered in DomainRegistry"
    );
}
