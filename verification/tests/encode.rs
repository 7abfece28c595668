use pgress_session::attr::{Attrs, Val};
use pgress_session::decode::StreamDecoder;
use pgress_session::dispatch::parse_payload;
use pgress_session::encode::{
    RecordContext, encode_record, encode_stream_preamble, opcode_for, write_payload,
};
use pgress_session::isa::{
    CausalScope, CompilePolicy, ComputeRule, DepKind, ExecMode, IsaOp, LatticeClass, NodeKind,
    PartitionId, RegionBoundary, StabilityContract, T, Uid,
};
use pgress_session::{PathId, SessionId};

// ── Helpers ───────────────────────────────────────────────────────────────

/// Round-trip: encode → decode via parse_payload; assert that what was encoded comes back.
fn roundtrip(op: IsaOp) -> IsaOp {
    let mut payload = Vec::new();
    write_payload(&op, &mut payload);
    let opcode = opcode_for(&op);
    parse_payload(opcode, &payload).expect("parse_payload failed on encoded payload")
}

fn uid(n: u64) -> Uid { Uid::from_u128(n as u128) }
fn pid(n: u64) -> PartitionId { PartitionId::from_u128(n as u128) }

// ── Opcode dispatch ───────────────────────────────────────────────────────

#[test]
fn opcode_for_all_variants() {
    let ops: &[(u16, IsaOp)] = &[
        (0x0001, IsaOp::NodeCreate { id: uid(1), typ: "n".into(), rule: NodeKind::Input, attrs: Attrs::new() }),
        (0x0003, IsaOp::SetValue { node: uid(1), val: T::Pos }),
        (0x0006, IsaOp::DelNode  { id: uid(1) }),
        (0x0008, IsaOp::Demand   { node: uid(1) }),
        (0x000B, IsaOp::Stabilize { region: None }),
        (0x0012, IsaOp::RegionDeclare {
            root:      uid(1),
            boundary:  RegionBoundary::DepClosure { max_depth: 4 },
            stability: StabilityContract::Pinned,
            compile:   CompilePolicy::Eager,
        }),
    ];
    for (expected_opcode, op) in ops {
        assert_eq!(opcode_for(op), *expected_opcode, "wrong opcode for {:?}", op);
    }
}

// ── Round-trip tests for each opcode ──────────────────────────────────────

#[test]
fn roundtrip_node_create_input() {
    let op = IsaOp::NodeCreate {
        id:    uid(42),
        typ:   "sensor".into(),
        rule:  NodeKind::Input,
        attrs: Attrs::new(),
    };
    let decoded = roundtrip(op.clone());
    assert!(matches!(decoded, IsaOp::NodeCreate { rule: NodeKind::Input, .. }));
    if let (IsaOp::NodeCreate { id: d_id, typ: d_typ, .. },
            IsaOp::NodeCreate { id: o_id, typ: o_typ, .. }) = (&decoded, &op) {
        assert_eq!(d_id, o_id);
        assert_eq!(d_typ, o_typ);
    }
}

#[test]
fn roundtrip_node_create_computed_meetall() {
    let op = IsaOp::NodeCreate {
        id:    uid(7),
        typ:   "gate".into(),
        rule:  NodeKind::Computed(ComputeRule::MeetAll),
        attrs: Attrs::new(),
    };
    let decoded = roundtrip(op);
    assert!(matches!(
        decoded,
        IsaOp::NodeCreate { rule: NodeKind::Computed(ComputeRule::MeetAll), .. }
    ));
}

#[test]
fn roundtrip_node_create_with_attrs() {
    let mut attrs = Attrs::new();
    attrs.set("z_key".to_string(), Val::Bool(true));     // Bool
    attrs.set("a_key".to_string(), Val::Int(99i64));    // Int — sorted before z_key
    let op = IsaOp::NodeCreate { id: uid(3), typ: "x".into(), rule: NodeKind::Input, attrs };
    let decoded = roundtrip(op);
    if let IsaOp::NodeCreate { attrs, .. } = decoded {
        assert_eq!(attrs.len(), 2);
    } else {
        panic!("wrong variant");
    }
}

#[test]
fn roundtrip_edge_connect_no_port() {
    let op = IsaOp::EdgeConnect {
        id:  uid(1),
        typ: "dep".into(),
        src: uid(10),
        tgt: uid(20),
        dep: DepKind::Local(None),
    };
    let decoded = roundtrip(op);
    assert!(matches!(decoded, IsaOp::EdgeConnect { dep: DepKind::Local(None), .. }));
}

#[test]
fn roundtrip_set_value_all_ternary() {
    for t in [T::Neg, T::Zero, T::Pos] {
        let op = IsaOp::SetValue { node: uid(5), val: t };
        let decoded = roundtrip(op);
        if let IsaOp::SetValue { val, .. } = decoded { assert_eq!(val, t); }
    }
}

#[test]
fn roundtrip_propagate() {
    let decoded = roundtrip(IsaOp::Propagate { node: uid(3) });
    assert!(matches!(decoded, IsaOp::Propagate { .. }));
}

#[test]
fn roundtrip_subscribe() {
    let op = IsaOp::Subscribe { source: uid(1), subscriber: uid(2) };
    let decoded = roundtrip(op);
    if let IsaOp::Subscribe { source, subscriber } = decoded {
        assert_eq!(source,     uid(1));
        assert_eq!(subscriber, uid(2));
    }
}

#[test]
fn roundtrip_del_node() {
    let decoded = roundtrip(IsaOp::DelNode { id: uid(99) });
    assert!(matches!(decoded, IsaOp::DelNode { .. }));
}

#[test]
fn roundtrip_del_edge() {
    let decoded = roundtrip(IsaOp::DelEdge { id: uid(77) });
    assert!(matches!(decoded, IsaOp::DelEdge { .. }));
}

#[test]
fn roundtrip_demand() {
    let decoded = roundtrip(IsaOp::Demand { node: uid(8) });
    assert!(matches!(decoded, IsaOp::Demand { .. }));
}

#[test]
fn roundtrip_set_mode_all_variants() {
    for mode in [ExecMode::Eager, ExecMode::Lazy, ExecMode::Stabilizing] {
        let op = IsaOp::SetMode { node: uid(4), mode };
        let decoded = roundtrip(op);
        if let IsaOp::SetMode { mode: m, .. } = decoded { assert_eq!(m, mode); }
    }
}

#[test]
fn roundtrip_reflect() {
    let decoded = roundtrip(IsaOp::Reflect { node: uid(11) });
    assert!(matches!(decoded, IsaOp::Reflect { .. }));
}

#[test]
fn roundtrip_stabilize_global() {
    let decoded = roundtrip(IsaOp::Stabilize { region: None });
    assert!(matches!(decoded, IsaOp::Stabilize { region: None }));
}

#[test]
fn roundtrip_stabilize_explicit_region() {
    let ids = vec![uid(1), uid(2), uid(3)];
    let op = IsaOp::Stabilize { region: Some(ids.clone()) };
    let decoded = roundtrip(op);
    if let IsaOp::Stabilize { region: Some(r) } = decoded {
        assert_eq!(r, ids);
    } else { panic!("expected Some region"); }
}

#[test]
fn roundtrip_partition_create() {
    let op = IsaOp::PartitionCreate {
        id:             pid(100),
        authority_root: pid(1),
        lattice_class:  LatticeClass(0xFF),
        causal_domain:  CausalScope { scope_bits: 0xDEAD, root: pid(100) },
    };
    let decoded = roundtrip(op);
    if let IsaOp::PartitionCreate { id, lattice_class, causal_domain, .. } = decoded {
        assert_eq!(id, pid(100));
        assert_eq!(lattice_class, LatticeClass(0xFF));
        assert_eq!(causal_domain.scope_bits, 0xDEAD);
    }
}

#[test]
fn roundtrip_partition_bind() {
    let op = IsaOp::PartitionBind { node: uid(5), partition: pid(200) };
    let decoded = roundtrip(op);
    if let IsaOp::PartitionBind { node, partition } = decoded {
        assert_eq!(node,      uid(5));
        assert_eq!(partition, pid(200));
    }
}

#[test]
fn roundtrip_region_declare_dep_closure() {
    let op = IsaOp::RegionDeclare {
        root:      uid(9),
        boundary:  RegionBoundary::DepClosure { max_depth: 8 },
        stability: StabilityContract::EpochTracked,
        compile:   CompilePolicy::Lazy,
    };
    let decoded = roundtrip(op);
    if let IsaOp::RegionDeclare { root, boundary, stability, compile } = decoded {
        assert_eq!(root, uid(9));
        assert!(matches!(boundary, RegionBoundary::DepClosure { max_depth: 8 }));
        assert_eq!(stability, StabilityContract::EpochTracked);
        assert_eq!(compile,   CompilePolicy::Lazy);
    }
}

#[test]
fn roundtrip_region_declare_explicit_set() {
    let members = vec![uid(10), uid(11), uid(12)];
    let op = IsaOp::RegionDeclare {
        root:      uid(10),
        boundary:  RegionBoundary::ExplicitSet(members.clone()),
        stability: StabilityContract::Pinned,
        compile:   CompilePolicy::Never,
    };
    let decoded = roundtrip(op);
    if let IsaOp::RegionDeclare { boundary: RegionBoundary::ExplicitSet(ids), .. } = decoded {
        assert_eq!(ids, members);
    } else { panic!("wrong boundary variant"); }
}

// ── encode_record header layout ───────────────────────────────────────────

#[test]
fn encode_record_header_layout() {
    let op  = IsaOp::SetValue { node: uid(1), val: T::Pos };
    let ctx = RecordContext::simple(SessionId(42), 7);
    let bytes = encode_record(&op, &ctx);

    // opcode at [0..2]
    assert_eq!(u16::from_le_bytes(bytes[0..2].try_into().unwrap()), 0x0003);
    // flags at [2..4]
    assert_eq!(u16::from_le_bytes(bytes[2..4].try_into().unwrap()), 0x0000);
    // length at [4..8]: header(48) + uid(8) + i8(1) = 57
    let length = u32::from_le_bytes(bytes[4..8].try_into().unwrap());
    assert_eq!(length as usize, bytes.len());
    assert_eq!(length, 57);
    // session_id at [16..24]
    assert_eq!(u64::from_le_bytes(bytes[16..24].try_into().unwrap()), 42);
    // stream_seq at [40..48]
    assert_eq!(u64::from_le_bytes(bytes[40..48].try_into().unwrap()), 7);
}

#[test]
fn encode_record_length_field_matches_actual_size() {
    let ops = vec![
        IsaOp::NodeCreate { id: uid(1), typ: "x".into(), rule: NodeKind::Input, attrs: Attrs::new() },
        IsaOp::SetValue   { node: uid(1), val: T::Neg },
        IsaOp::Stabilize  { region: Some(vec![uid(1), uid(2)]) },
    ];
    let ctx = RecordContext::simple(SessionId(1), 0);
    for op in ops {
        let bytes = encode_record(&op, &ctx);
        let declared = u32::from_le_bytes(bytes[4..8].try_into().unwrap()) as usize;
        assert_eq!(declared, bytes.len(),
            "length field doesn't match actual byte count for {:?}", op);
    }
}

// ── encode_stream_preamble ────────────────────────────────────────────────

#[test]
fn encode_stream_preamble_round_trips() {
    let buf = encode_stream_preamble(PathId(99), SessionId(200), 0xCAFE, 0);
    let mut dec = StreamDecoder::new();
    let preamble = dec.decode_preamble(&buf).unwrap();
    assert_eq!(preamble.abi_version, 0x0003);
    assert_eq!(preamble.path_id,     PathId(99));
    assert_eq!(preamble.session_id,  SessionId(200));
    assert_eq!(preamble.feature_flags, 0xCAFE);
}

// ── NaN canonicalisation ─────────────────────────────────────────────────

#[test]
fn nan_f64_attr_canonicalized() {
    let mut attrs = Attrs::new();
    attrs.set("x".to_string(), Val::Float(f64::NAN.to_bits()));
    let op = IsaOp::NodeCreate { id: uid(1), typ: "n".into(), rule: NodeKind::Input, attrs };
    let decoded = roundtrip(op);
    if let IsaOp::NodeCreate { attrs, .. } = decoded {
        if let Some(Val::Float(f)) = attrs.get("x") {
            let f = f64::from_bits(*f);
            assert!(f.is_nan());
            assert_eq!(f.to_bits(), 0x7FF8_0000_0000_0000u64);
        } else { panic!("expected Float attr"); }
    }
}
