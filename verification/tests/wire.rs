use pgress_session::attr::{Attrs, Val};
use pgress_session::decode::{IngressError, RecordAction, StreamDecoder, parse_profile_payload};
use pgress_session::dispatch::{DispatchError, parse_payload};
use pgress_session::encode::{
    RecordContext, encode_record, encode_stream_preamble, opcode_for, partition_id_to_wire,
    uid_to_wire, write_attr_map, write_payload,
};
use pgress_session::isa::{
    CapabilityBits, CausalScope, CompilePolicy, ConvergencePolicy, DepKind, EdgeLabel,
    ExecutionPolicy, IsaOp, LatticeClass, NodeKind, PartitionId, PayloadKind, Port, PortKind,
    QueuePriority, RegionBoundary, RemoteDep, RetryPolicy, RewriteBudget, RewriteStrategy,
    StabilityContract, StabilizationConfig, StabilizationDomain, T, Uid, VectorClock, ZeroKind,
};
use pgress_session::{PathId, SessionId, TenantId, WirePartitionId};
use pgress_session::profile::TrustLevel;
use pgress_session::runtime::SessionRuntime;

/// A payload, field by field.
struct Payload(Vec<u8>);

impl Payload {
    fn new() -> Self {
        Payload(Vec::new())
    }
    fn u8(mut self, v: u8) -> Self {
        self.0.push(v);
        self
    }
    fn u16(mut self, v: u16) -> Self {
        self.0.extend_from_slice(&v.to_le_bytes());
        self
    }
    fn u32(mut self, v: u32) -> Self {
        self.0.extend_from_slice(&v.to_le_bytes());
        self
    }
    fn u64(mut self, v: u64) -> Self {
        self.0.extend_from_slice(&v.to_le_bytes());
        self
    }
    fn bytes(mut self, b: &[u8]) -> Self {
        self.0.extend_from_slice(b);
        self
    }
    fn parse(&self, opcode: u16) -> Result<IsaOp, DispatchError> {
        parse_payload(opcode, &self.0)
    }
    fn error(&self, opcode: u16) -> DispatchError {
        self.parse(opcode).unwrap_err()
    }
}

fn node(n: u128) -> Uid {
    Uid::from_u128(n)
}

fn written(op: &IsaOp) -> Vec<u8> {
    let mut buf = Vec::new();
    write_payload(op, &mut buf);
    buf
}

fn reparsed(op: &IsaOp) -> IsaOp {
    parse_payload(opcode_for(op), &written(op)).unwrap()
}

fn header(record: &[u8]) -> [u8; 48] {
    let mut h = [0u8; 48];
    h.copy_from_slice(&record[..48]);
    h
}

// ── Exact layouts ────────────────────────────────────────────────────────────

#[test]
fn set_value_layout() {
    let op = IsaOp::SetValue { node: node(0x0102_0304_0506_0708), val: T::Neg };
    assert_eq!(written(&op), vec![8, 7, 6, 5, 4, 3, 2, 1, 0xFF]);
}

#[test]
fn write_payload_appends() {
    let mut buf = vec![9, 9];
    write_payload(&IsaOp::Stabilize { region: None }, &mut buf);
    assert_eq!(buf, vec![9, 9, 0, 0, 0, 0]);
}

#[test]
fn attributes_travel_in_key_order() {
    let mut attrs = Attrs::new();
    attrs.set("b".to_string(), Val::Bool(true));
    attrs.set("é".to_string(), Val::Ternary(T::Pos));
    attrs.set("aa".to_string(), Val::Int(-2));
    attrs.set("a".to_string(), Val::Text("x".to_string()));
    attrs.set("b".to_string(), Val::Bool(false));
    assert_eq!(attrs.len(), 4);
    assert_eq!(attrs.get("b"), Some(&Val::Bool(false)));
    assert_eq!(attrs.get("c"), None);
    let keys: Vec<String> = (0..attrs.len()).map(|i| attrs.entry(i).0.to_string()).collect();
    assert_eq!(keys, vec!["a", "aa", "b", "é"]);
    let mut buf = Vec::new();
    write_attr_map(&attrs, &mut buf);
    let expected = Payload::new()
        .u16(4)
        .u16(1).bytes(b"a").u8(4).u16(1).bytes(b"x")
        .u16(2).bytes(b"aa").u8(2).u64((-2i64) as u64)
        .u16(1).bytes(b"b").u8(1).u8(0)
        .u16(2).bytes("é".as_bytes()).u8(6).u8(1);
    assert_eq!(buf, expected.0);
}

#[test]
fn record_layout_and_length() {
    let ctx = RecordContext {
        tenant_id: TenantId(2),
        session_id: SessionId(3),
        partition_id: WirePartitionId(4),
        causal_epoch: 5,
        stream_seq: 6,
        flags: 7,
    };
    let record = encode_record(&IsaOp::Demand { node: node(1) }, &ctx);
    let expected = Payload::new()
        .u16(8).u16(7).u32(56).u64(2).u64(3).u64(4).u64(5).u64(6).u64(1);
    assert_eq!(record, expected.0);
}

#[test]
fn preamble_round_trip() {
    let bytes = encode_stream_preamble(PathId(11), SessionId(12), 13, 14);
    assert_eq!(&bytes[..4], b"PGRS");
    let mut decoder = StreamDecoder::new();
    let p = decoder.decode_preamble(&bytes).unwrap();
    assert_eq!((p.abi_version, p.flags, p.feature_flags), (3, 14, 13));
    assert_eq!((p.path_id, p.session_id), (PathId(11), SessionId(12)));
}

// ── What a reader gets back ──────────────────────────────────────────────────

#[test]
fn identities_travel_as_64_bits() {
    let wide = (5u128 << 64) | 9;
    match reparsed(&IsaOp::Propagate { node: node(wide) }) {
        IsaOp::Propagate { node: n } => assert_eq!(n, node(9)),
        other => panic!("{:?}", other),
    }
    assert_eq!(uid_to_wire(node(wide)), 9);
    assert_eq!(partition_id_to_wire(PartitionId::from_u128(wide)), 9);
}

#[test]
fn what_is_cut_on_the_wire() {
    match reparsed(&IsaOp::SetStabilizationConfig {
        node: node(1),
        config: StabilizationConfig {
            strategy: RewriteStrategy::Restricted(0x100),
            domain: StabilizationDomain::Inherit,
            budget: RewriteBudget { max_iterations: 77 },
            convergence_policy: ConvergencePolicy::BudgetExhausted,
        },
    }) {
        IsaOp::SetStabilizationConfig { config, .. } => {
            assert_eq!(config.strategy, RewriteStrategy::FullL3);
            assert_eq!(config.domain, StabilizationDomain::Inherit);
            assert_eq!(config.budget.max_iterations, 77);
            assert_eq!(config.convergence_policy, ConvergencePolicy::BudgetExhausted);
        }
        other => panic!("{:?}", other),
    }
    match reparsed(&IsaOp::SetExecutionPolicy {
        node: node(1),
        policy: ExecutionPolicy {
            queue_priority: QueuePriority::High,
            retry_policy: RetryPolicy::Retry { max_attempts: 9 },
        },
    }) {
        IsaOp::SetExecutionPolicy { policy, .. } => {
            assert_eq!(policy.queue_priority, QueuePriority::High);
            assert_eq!(policy.retry_policy, RetryPolicy::Retry { max_attempts: 3 });
        }
        other => panic!("{:?}", other),
    }
    match reparsed(&IsaOp::SetEdgeLabel {
        source: node(1),
        target: node(2),
        label: EdgeLabel {
            capability: CapabilityBits(0x1FF),
            lattice_class: LatticeClass(5),
            causal_scope: CausalScope { scope_bits: 6, root: PartitionId::from_u128(7) },
        },
    }) {
        IsaOp::SetEdgeLabel { label, .. } => {
            assert_eq!(label.capability, CapabilityBits(0xFF));
            assert_eq!(label.lattice_class, LatticeClass(5));
            assert_eq!(label.causal_scope, CausalScope { scope_bits: 6, root: PartitionId::nil() });
        }
        other => panic!("{:?}", other),
    }
    match reparsed(&IsaOp::Stabilize { region: Some(vec![]) }) {
        IsaOp::Stabilize { region } => assert!(region.is_none()),
        other => panic!("{:?}", other),
    }
}

#[test]
fn local_edge_with_port_round_trip() {
    let op = IsaOp::EdgeConnect {
        id: node(1),
        typ: "anything".to_string(),
        src: node(2),
        tgt: node(3),
        dep: DepKind::Local(Some(Port { name: "out".to_string(), kind: PortKind::Bond })),
    };
    match reparsed(&op) {
        IsaOp::EdgeConnect { id, typ, src, tgt, dep: DepKind::Local(Some(port)) } => {
            assert_eq!((id, src, tgt), (node(1), node(2), node(3)));
            assert_eq!(typ, "dep");
            assert_eq!(port, Port { name: "out".to_string(), kind: PortKind::Bond });
        }
        other => panic!("{:?}", other),
    }
}

#[test]
fn parsed_instruction_travels_as_it_is() {
    let first = Payload::new()
        .u64(7).u16(3).bytes("añ".as_bytes()).u8(0x0A).u16(2)
        .u16(1).bytes(b"z").u8(3).u64(f64::NAN.to_bits() | 1)
        .u16(1).bytes(b"k").u8(7).u64(u64::MAX)
        .parse(0x0001)
        .unwrap();
    match (&first, &reparsed(&first)) {
        (
            IsaOp::NodeCreate { id: a, typ: b, rule: c, attrs: d },
            IsaOp::NodeCreate { id: w, typ: x, rule: y, attrs: z },
        ) => {
            assert_eq!((a, b, c, d), (w, x, y, z));
            assert_eq!(b, "añ");
            assert_eq!(d.get("z"), Some(&Val::Float(0x7FF8_0000_0000_0000)));
            assert_eq!(d.get("k"), Some(&Val::Int(-1)));
        }
        other => panic!("{:?}", other),
    }
}

fn remote_edge(payload_kind: PayloadKind) -> IsaOp {
    let mut frontier = VectorClock::new();
    frontier.set(PartitionId::from_u128(22), 4);
    frontier.set(PartitionId::from_u128(3), 9);
    assert_eq!(frontier.get(PartitionId::from_u128(22)), 4);
    assert_eq!(frontier.get(PartitionId::from_u128(2)), 0);
    IsaOp::EdgeConnect {
        id: node(1),
        typ: "dep".to_string(),
        src: node(2),
        tgt: node(3),
        dep: DepKind::Remote(RemoteDep {
            source_partition: PartitionId::from_u128(10),
            source_uid: node(11),
            source_version: 12,
            port_kind: PortKind::Flow,
            causal_frontier: frontier,
            payload_kind,
            source_authority: PartitionId::from_u128(13),
            emitted_class: LatticeClass(14),
            capability: CapabilityBits(0x07),
            causal_scope: CausalScope { scope_bits: 15, root: PartitionId::nil() },
        }),
    }
}

#[test]
fn remote_edge_layout() {
    let frame = || Payload::new().u64(1).u64(2).u64(3).u8(1).u8(2).u16(0).u64(10).u64(11).u64(12);
    let tail = |p: Payload| {
        p.u16(2).u64(3).u64(9).u64(22).u64(4).u64(13).u64(14).u8(7).u64(15).0
    };
    assert_eq!(written(&remote_edge(PayloadKind::Definite)), tail(frame().u8(0)));
    let zero = PayloadKind::TypedZero(ZeroKind::Retracted);
    assert_eq!(written(&remote_edge(zero)), tail(frame().u8(1).u8(3)));
}

#[test]
fn remote_edge_round_trip() {
    for kind in [PayloadKind::Definite, PayloadKind::TypedZero(ZeroKind::VersionSkew)] {
        match reparsed(&remote_edge(kind)) {
            IsaOp::EdgeConnect { id, typ, src, tgt, dep: DepKind::Remote(r) } => {
                assert_eq!((id, src, tgt), (node(1), node(2), node(3)));
                assert_eq!(typ, "dep");
                assert_eq!(r.source_partition, PartitionId::from_u128(10));
                assert_eq!((r.source_uid, r.source_version), (node(11), 12));
                assert_eq!((r.port_kind, r.payload_kind), (PortKind::Flow, kind));
                assert_eq!(
                    r.causal_frontier.partitions(),
                    vec![PartitionId::from_u128(3), PartitionId::from_u128(22)]
                );
                assert_eq!(r.causal_frontier.get(PartitionId::from_u128(3)), 9);
                assert_eq!(r.causal_frontier.get(PartitionId::from_u128(22)), 4);
                assert_eq!(r.source_authority, PartitionId::from_u128(13));
                assert_eq!((r.emitted_class, r.capability), (LatticeClass(14), CapabilityBits(7)));
                assert_eq!(r.causal_scope, CausalScope { scope_bits: 15, root: PartitionId::nil() });
            }
            other => panic!("{:?}", other),
        }
    }
}

#[test]
fn cut_payloads_are_refused_and_bytes_behind_are_ignored() {
    let mut attrs = Attrs::new();
    attrs.set("k".to_string(), Val::Text("é".to_string()));
    attrs.set("n".to_string(), Val::Int(-1));
    let ops = [
        IsaOp::NodeCreate { id: node(1), typ: "t".to_string(), rule: NodeKind::Input, attrs },
        remote_edge(PayloadKind::TypedZero(ZeroKind::Conflict)),
        IsaOp::SetValue { node: node(1), val: T::Zero },
        IsaOp::Stabilize { region: Some(vec![node(1), node(2)]) },
        IsaOp::RegionDeclare {
            root: node(1),
            boundary: RegionBoundary::ExplicitSet(vec![node(5)]),
            stability: StabilityContract::Pinned,
            compile: CompilePolicy::Never,
        },
    ];
    for op in &ops {
        let opcode = opcode_for(op);
        let whole = written(op);
        for k in 0..whole.len() {
            match parse_payload(opcode, &whole[..k]) {
                Err(DispatchError::PayloadTruncated { needed, available }) => {
                    assert!(available < needed)
                }
                other => panic!("{:?}", other),
            }
        }
        let mut longer = whole.clone();
        longer.extend_from_slice(&[0xFF; 9]);
        let parsed = parse_payload(opcode, &longer).unwrap();
        assert_eq!(written(&parsed), whole);
    }
}

#[test]
fn remote_edge_frontier_is_a_clock_per_partition() {
    let op = Payload::new()
        .u64(1).u64(2).u64(3).u8(1).u8(0).u16(0)
        .u64(10).u64(11).u64(12).u8(1).u8(5).u16(3)
        .u64(21).u64(1).u64(22).u64(2).u64(21).u64(3)
        .u64(30).u64(31).u8(0x80).u64(32)
        .parse(0x0002)
        .unwrap();
    match op {
        IsaOp::EdgeConnect { dep: DepKind::Remote(r), .. } => {
            assert_eq!(r.causal_frontier.get(PartitionId::from_u128(21)), 3);
            assert_eq!(r.causal_frontier.get(PartitionId::from_u128(22)), 2);
            assert_eq!(r.zero_kind(), Some(ZeroKind::VersionSkew));
            assert_eq!(r.emitted_class, LatticeClass(31));
            assert_eq!(r.capability, CapabilityBits(0x80));
            assert_eq!(r.causal_scope, CausalScope { scope_bits: 32, root: PartitionId::nil() });
        }
        other => panic!("{:?}", other),
    }
}

#[test]
fn encoded_record_is_accepted_by_the_decoder() {
    let runtime = SessionRuntime::new();
    let mut decoder = StreamDecoder::new();
    decoder.decode_preamble(&encode_stream_preamble(PathId(1), SessionId(2), 0, 0)).unwrap();
    let op = IsaOp::Subscribe { source: node(1), subscriber: node(2) };
    let record = encode_record(&op, &RecordContext::simple(SessionId(2), 1));
    match decoder.decode_record(&header(&record), &runtime).unwrap() {
        RecordAction::RouteReady(h) => {
            assert_eq!(h.length as usize, record.len());
            assert_eq!(h.opcode, 0x0005);
            assert!(matches!(
                parse_payload(h.opcode, &record[48..]),
                Ok(IsaOp::Subscribe { source, subscriber }) if source == node(1) && subscriber == node(2)
            ));
        }
        other => panic!("{:?}", other),
    }
    // The same record once more is no advance.
    assert_eq!(
        decoder.decode_record(&header(&record), &runtime).unwrap_err(),
        IngressError::StreamSeqGap { session_id: SessionId(2), last_seen: 1, got: 1 }
    );
    assert_eq!(decoder.gap_count, 1);
}

// ── Errors of the payload grammar ────────────────────────────────────────────

#[test]
fn each_payload_error() {
    let edge = || Payload::new().u64(1).u64(2).u64(3);
    let remote = || edge().u8(1).u8(0).u16(0).u64(1).u64(2).u64(3);
    let region = || Payload::new().u64(1);
    assert!(matches!(
        Payload::new().u32(0).error(0x0004),
        DispatchError::PayloadTruncated { needed: 8, available: 4 }
    ));
    assert!(matches!(
        Payload::new().u64(1).u16(2).bytes(&[0xC3, 0x28]).error(0x0001),
        DispatchError::InvalidUtf8
    ));
    assert!(matches!(
        Payload::new().u64(1).u16(5).bytes(b"abc").error(0x0001),
        DispatchError::PayloadTruncated { needed: 5, available: 3 }
    ));
    assert!(matches!(
        Payload::new().u64(1).u8(0x80).error(0x0003),
        DispatchError::InvalidTernaryValue(-128)
    ));
    assert!(matches!(Payload::new().error(0x0000), DispatchError::UnknownOpcode(0)));
    assert!(matches!(Payload::new().error(0x0013), DispatchError::UnknownOpcode(0x13)));
    assert!(matches!(
        Payload::new().u64(1).u16(0).u8(0x0B).u16(0).error(0x0001),
        DispatchError::UnknownNodeRule(0x0B)
    ));
    assert!(matches!(edge().u8(0).u8(4).u16(0).error(0x0002), DispatchError::UnknownPortKind(4)));
    assert!(matches!(edge().u8(2).u8(0).u16(0).error(0x0002), DispatchError::UnknownDepKind(2)));
    assert!(matches!(remote().u8(2).error(0x0002), DispatchError::UnknownPayloadKind(2)));
    assert!(matches!(remote().u8(1).u8(6).error(0x0002), DispatchError::UnknownZeroKind(6)));
    assert!(matches!(Payload::new().u64(1).u8(3).error(0x0009), DispatchError::UnknownExecMode(3)));
    let attr = || Payload::new().u64(1).u16(0).u8(0).u16(1).u16(1).bytes(b"k");
    assert!(matches!(attr().u8(5).u32(1).u8(0).error(0x0001), DispatchError::UnsupportedAttrTag(5)));
    assert!(matches!(attr().u8(8).error(0x0001), DispatchError::UnsupportedAttrTag(8)));
    assert!(matches!(
        attr().u8(5).u32(9).u8(0).error(0x0001),
        DispatchError::PayloadTruncated { needed: 9, available: 1 }
    ));
    assert!(matches!(region().u8(3).error(0x0012), DispatchError::UnknownRegionBoundaryTag(3)));
    assert!(matches!(
        region().u8(2).u64(1).u8(2).u8(0).error(0x0012),
        DispatchError::UnknownStabilityContract(2)
    ));
    assert!(matches!(
        region().u8(0).u32(1).u8(1).u8(3).error(0x0012),
        DispatchError::UnknownCompilePolicy(3)
    ));
    assert!(matches!(
        Payload::new().u32(2).u64(1).u32(0).error(0x000B),
        DispatchError::PayloadTruncated { needed: 8, available: 4 }
    ));
}

#[test]
fn out_of_range_bytes_with_a_default() {
    match Payload::new().u64(1).u8(9).u8(9).u32(1).u8(9).parse(0x0010).unwrap() {
        IsaOp::SetStabilizationConfig { config, .. } => {
            assert_eq!(config.strategy, RewriteStrategy::Restricted(9));
            assert_eq!(config.domain, StabilizationDomain::Inherit);
            assert_eq!(config.convergence_policy, ConvergencePolicy::BudgetExhausted);
        }
        other => panic!("{:?}", other),
    }
    match Payload::new().u64(1).u8(9).u8(9).parse(0x0011).unwrap() {
        IsaOp::SetExecutionPolicy { policy, .. } => {
            assert_eq!(policy.queue_priority, QueuePriority::Normal);
            assert_eq!(policy.retry_policy, RetryPolicy::Fail);
        }
        other => panic!("{:?}", other),
    }
}

// ── Errors of the stream ─────────────────────────────────────────────────────

#[test]
fn each_stream_error() {
    let runtime = SessionRuntime::new();
    let record = |opcode: u16, length: u32, session: u64, epoch: u64, seq: u64| {
        header(&Payload::new()
            .u16(opcode).u16(0).u32(length).u64(0).u64(session).u64(0).u64(epoch).u64(seq).0)
    };
    let mut d = StreamDecoder::new();
    assert_eq!(
        d.decode_record(&record(3, 57, 2, 1, 1), &runtime).unwrap_err(),
        IngressError::PreambleRequired
    );
    let mut bad = encode_stream_preamble(PathId(1), SessionId(2), 0, 0);
    bad[3] = b'X';
    assert_eq!(d.decode_preamble(&bad).unwrap_err(), IngressError::BadMagic(*b"PGRX"));
    let mut old = encode_stream_preamble(PathId(1), SessionId(2), 0, 0);
    old[4] = 2;
    assert_eq!(d.decode_preamble(&old).unwrap_err(), IngressError::UnsupportedVersion(2));
    assert!(d.preamble().is_none());
    d.decode_preamble(&encode_stream_preamble(PathId(1), SessionId(2), 0, 0)).unwrap();
    assert_eq!(
        d.decode_record(&record(3, 47, 2, 1, 1), &runtime).unwrap_err(),
        IngressError::InvalidLength { length: 47 }
    );
    assert_eq!(
        d.decode_record(&record(0, 48, 2, 1, 1), &runtime).unwrap_err(),
        IngressError::InvalidOpcode
    );
    assert_eq!(
        d.decode_record(&record(3, 57, 5, 1, 1), &runtime).unwrap_err(),
        IngressError::SessionIdMismatch { preamble: SessionId(2), header: SessionId(5) }
    );
    assert!(d.decode_record(&record(3, 57, 2, 9, 1), &runtime).is_ok());
    assert_eq!(
        d.decode_record(&record(3, 57, 2, 8, 2), &runtime).unwrap_err(),
        IngressError::EpochRegression { session_id: SessionId(2), last_epoch: 9, got: 8 }
    );
    assert_eq!(d.epoch_regression_count, 1);
    // The regressed record used up its sequence number.
    assert_eq!(
        d.decode_record(&record(3, 57, 2, 9, 2), &runtime).unwrap_err(),
        IngressError::StreamSeqGap { session_id: SessionId(2), last_seen: 2, got: 2 }
    );
    assert!(matches!(
        d.decode_record(&record(0x0200, 50, 2, 9, 3), &runtime),
        Ok(RecordAction::SkipPayload { skip_bytes: 2, .. })
    ));
    assert!(matches!(
        d.decode_record(&record(0x0100, 97, 2, 9, 4), &runtime),
        Ok(RecordAction::ReadProfile { payload_len: 49, .. })
    ));
}

#[test]
fn order_and_counts_over_a_history() {
    let runtime = SessionRuntime::new();
    let mut d = StreamDecoder::new();
    d.decode_preamble(&encode_stream_preamble(PathId(1), SessionId(2), 0, 0)).unwrap();
    let (mut gaps, mut regressions) = (0, 0);
    let mut accepted: Vec<(u64, u64)> = Vec::new();
    for (seq, epoch) in [(1, 5), (1, 5), (4, 5), (3, 9), (5, 4), (5, 6), (9, 6), (8, 7), (10, 1)] {
        let h = header(&Payload::new()
            .u16(3).u16(0).u32(57).u64(0).u64(2).u64(0).u64(epoch).u64(seq).0);
        match d.decode_record(&h, &runtime) {
            Ok(_) => accepted.push((seq, epoch)),
            Err(IngressError::StreamSeqGap { .. }) => gaps += 1,
            Err(IngressError::EpochRegression { .. }) => regressions += 1,
            Err(other) => panic!("{:?}", other),
        }
        let _ = d.decode_preamble(&[0; 32]);
    }
    assert_eq!(accepted, vec![(1, 5), (4, 5), (9, 6)]);
    assert_eq!((d.gap_count, d.epoch_regression_count), (gaps, regressions));
    assert_eq!((gaps, regressions), (4, 2));
}

#[test]
fn each_profile_payload_error() {
    let open = |version: u16, trust: u8| Payload::new().u32(1).u16(version).u8(trust);
    let error = |p: Payload| parse_profile_payload(&p.0).unwrap_err();
    assert_eq!(error(Payload::new().u32(1)), IngressError::ProfileTruncated { needed: 7, got: 4 });
    assert_eq!(error(open(1, 4)), IngressError::UnknownTrustLevel(4));
    assert_eq!(error(open(3, 1)), IngressError::UnknownProfileVersion(3));
    assert_eq!(error(open(1, 1)), IngressError::ProfileTruncated { needed: 49, got: 7 });
    assert_eq!(error(open(2, 1)), IngressError::ProfileTruncated { needed: 73, got: 7 });
    let v1 = open(1, 2).u64(0xF).u64(2).u64(3).u64(4).u64(5).u16(2).u8(8);
    assert_eq!(error(v1), IngressError::ProfileTruncated { needed: 51, got: 50 });
    let v1 = open(1, 2).u64(0xF).u64(2).u64(3).u64(4).u64(5).u16(2).u8(8).u8(9);
    let p = parse_profile_payload(&v1.0).unwrap();
    assert_eq!(p.trust_level, TrustLevel::Asserted);
    assert_eq!(p.claimed_policy().delegation, 0xF);
    assert_eq!((p.issuer_domain, p.session_id), (TenantId(2), SessionId(3)));
    assert_eq!((p.generation, p.expiry_epoch), (4, 5));
    assert_eq!(p.signature, vec![8, 9]);
    let v2 = open(2, 3).u64(1).u64(2).u64(3).u64(4).u64(5).u64(6).u64(7).u64(8).u16(0);
    let p = parse_profile_payload(&v2.0).unwrap();
    assert_eq!(
        (p.assertion_mask, p.delegation_mask, p.observability_mask, p.disclosure_mask),
        (1, 2, 3, 4)
    );
    assert_eq!((p.issuer_domain, p.session_id), (TenantId(5), SessionId(6)));
    assert_eq!((p.generation, p.expiry_epoch), (7, 8));
    assert_eq!(p.trust_level.as_u8(), 3);
}
