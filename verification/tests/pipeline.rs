use pgress_session::admission::ShardPressure;
use pgress_session::auth::AuthorityPolicy;
use pgress_session::decode::{IngressError, StreamDecoder};
use pgress_session::dispatch::{DispatchError, EngineError};
use pgress_session::dispatcher::{
    DispatchOutcome, DispatchStep, Dispatcher, EngineReport, EngineStats,
};
use pgress_session::domain::{
    PartitionDomain, SessionDomain, SessionQuota, ShardDomain, ShardFabricAddr, TenantDomain,
};
use pgress_session::encode::{RecordContext, encode_record, encode_stream_preamble};
use pgress_session::isa::{
    AuthorityMode, CapabilityBits, CausalScope, EdgeLabel, IsaOp, LatticeClass, PartitionId, Uid,
};
use pgress_session::{PathId, SessionId, ShardId, TenantId, WirePartitionId};
use pgress_session::profile::ProfileError;
use pgress_session::session::{PathState, SessionEntry};
use pgress_session::telemetry::TelemetryEvent;

const SESSION: SessionId = SessionId(2);

fn header(record: &[u8]) -> [u8; 48] {
    let mut h = [0u8; 48];
    h.copy_from_slice(&record[..48]);
    h
}

fn stats(max_queue_depth: usize, nodes_materialized: u64) -> EngineStats {
    EngineStats { max_queue_depth, nodes_materialized }
}

fn context(partition: u64, seq: u64) -> RecordContext {
    RecordContext { partition_id: WirePartitionId(partition), ..RecordContext::simple(SESSION, seq) }
}

fn step(d: &mut Dispatcher, op: &IsaOp, partition: u64, seq: u64) -> Result<DispatchStep, DispatchError> {
    let record = encode_record(op, &context(partition, seq));
    d.process_record(&header(&record), &record[48..])
}

fn apply(d: &mut Dispatcher, op: &IsaOp, partition: u64, seq: u64) -> ShardId {
    match step(d, op, partition, seq).unwrap() {
        DispatchStep::Apply(pending) => {
            let report = EngineReport { outcome: Ok(Vec::<u8>::new()), stats: stats(1, 2) };
            match d.complete_record(pending, report).unwrap() {
                DispatchOutcome::Applied { shard_id, .. } => shard_id,
                other => panic!("{:?}", other),
            }
        }
        other => panic!("{:?}", other),
    }
}

/// A stream on path 1 whose session the host has set up itself.
fn opened() -> Dispatcher {
    let mut d = Dispatcher::new();
    d.process_preamble(&encode_stream_preamble(PathId(1), SESSION, 0, 0)).unwrap();
    d.runtime.sessions.create(SessionEntry {
        session_id: SESSION,
        tenant_id: TenantId(0),
        active_path_id: None,
        prev_path_id: None,
        stream_seq_floor: 0,
        auth_mode: AuthorityMode::Advisory,
        last_active_causal_epoch: 0,
        consecutive_quiescent_epochs: 0,
    });
    d
}

fn create(id: u128) -> IsaOp {
    IsaOp::PartitionCreate {
        id: PartitionId::from_u128(id),
        authority_root: PartitionId::from_u128(id),
        lattice_class: LatticeClass(1),
        causal_domain: CausalScope { scope_bits: 3, root: PartitionId::nil() },
    }
}

fn claim(d: &mut Dispatcher, disclosure: u64) {
    d.runtime.domains.register_tenant(TenantDomain::single_tenant());
    d.runtime.domains.register_session(SessionDomain {
        id: SESSION,
        tenant_id: TenantId(0),
        claimed_caps: CapabilityBits::all(),
        claimed_policy: AuthorityPolicy { disclosure, ..AuthorityPolicy::all() },
        auth_mode: AuthorityMode::Advisory,
        quota: SessionQuota::default(),
    });
}

/// The payload of an advisory profile with one mask.
fn profile_payload(session: u64, mask: u64, expiry: u64) -> Vec<u8> {
    let mut p = Vec::new();
    p.extend_from_slice(&1u32.to_le_bytes());
    p.extend_from_slice(&1u16.to_le_bytes());
    p.push(1);
    for v in [mask, 0, session, 0, expiry] {
        p.extend_from_slice(&v.to_le_bytes());
    }
    p.extend_from_slice(&0u16.to_le_bytes());
    p
}

fn profile_header(payload: &[u8], seq: u64) -> [u8; 48] {
    let mut h = header(&encode_record(&IsaOp::Stabilize { region: None }, &context(0, seq)));
    h[0..2].copy_from_slice(&0x0100u16.to_le_bytes());
    h[4..8].copy_from_slice(&(48 + payload.len() as u32).to_le_bytes());
    h
}

#[test]
fn created_partition_is_open_and_placed() {
    let mut d = opened();
    d.runtime.register_shard(ShardDomain { id: ShardId(3), fabric_addr: None });
    d.runtime.update_pressure(ShardId(3), ShardPressure::default());
    // The first control instruction goes to shard 0, which then is healthy too.
    assert_eq!(apply(&mut d, &create(7), 0, 1), ShardId(0));
    let p = *d.runtime.domains.partitions.get(&WirePartitionId(7)).unwrap();
    assert_eq!((p.session_id, p.shard_id), (SESSION, ShardId(0)));
    assert_eq!((p.lattice_class, p.causal_scope), (LatticeClass(1), 3));
    assert_eq!(d.runtime.auth.len(), 7);
    assert_eq!(apply(&mut d, &IsaOp::Demand { node: Uid(1) }, 7, 2), ShardId(0));
    let bits = CausalScope { scope_bits: 9, root: PartitionId::nil() };
    let change = IsaOp::SetPartitionAuthority {
        partition: PartitionId::from_u128(7),
        lattice_class: LatticeClass(2),
        causal_domain: bits,
    };
    apply(&mut d, &change, 7, 3);
    let p = *d.runtime.domains.partitions.get(&WirePartitionId(7)).unwrap();
    assert_eq!((p.lattice_class, p.causal_scope, p.shard_id), (LatticeClass(2), 9, ShardId(0)));
}

#[test]
fn placement_goes_by_the_first_partition_of_the_session() {
    let mut d = opened();
    let addr = |region: u16| ShardFabricAddr { region, pod: 0, rack: 0, fabric_leaf: 0 };
    for (id, region) in [(1u64, 1u16), (5, 5)] {
        d.runtime.register_shard(ShardDomain { id: ShardId(id), fabric_addr: Some(addr(region)) });
        d.runtime.update_pressure(ShardId(id), ShardPressure::default());
    }
    assert_eq!(d.pick_shard_for(SESSION), ShardId(1));
    d.runtime.domains.register_partition(PartitionDomain {
        id: WirePartitionId(9),
        session_id: SESSION,
        lattice_class: LatticeClass::bottom(),
        causal_scope: 0,
        shard_id: ShardId(5),
    });
    assert_eq!(d.pick_shard_for(SESSION), ShardId(5));
    assert_eq!(d.pick_shard_for(SessionId(77)), ShardId(1));
    d.runtime.update_pressure(ShardId(5), ShardPressure { cursor_count: 1, ..ShardPressure::default() });
    assert_eq!(d.pick_shard_for(SESSION), ShardId(1));
    d.runtime.update_pressure(ShardId(1), ShardPressure { cursor_count: 1, ..ShardPressure::default() });
    assert_eq!(d.pick_shard_for(SESSION), ShardId(0));
}

#[test]
fn disclosure_is_enforced_before_the_engine() {
    let label = |scope_bits: u64| IsaOp::SetEdgeLabel {
        source: Uid(1),
        target: Uid(2),
        label: EdgeLabel {
            capability: CapabilityBits::read(),
            lattice_class: LatticeClass::bottom(),
            causal_scope: CausalScope { scope_bits, root: PartitionId::nil() },
        },
    };
    let mut d = opened();
    claim(&mut d, 0b0101);
    assert!(matches!(
        step(&mut d, &label(0b0110), 0, 1),
        Err(DispatchError::DisclosureViolation { required: 0b0110, held: 0b0101 })
    ));
    assert!(matches!(step(&mut d, &label(0b0100), 0, 2), Ok(DispatchStep::Apply(_))));
    claim(&mut d, 0);
    assert!(matches!(step(&mut d, &label(0), 0, 3), Ok(DispatchStep::Apply(_))));
    assert_eq!(d.shards.shard_count(), 0);
    // A session that the host set up itself is trusted fully.
    let mut d = opened();
    assert!(matches!(step(&mut d, &label(u64::MAX), 0, 1), Ok(DispatchStep::Apply(_))));
}

#[test]
fn any_other_instruction_ends_the_rest() {
    let mut d = opened();
    apply(&mut d, &create(7), 0, 1);
    apply(&mut d, &create(8), 0, 2);
    let rest = IsaOp::Stabilize { region: Some(vec![Uid(44), Uid(45)]) };
    apply(&mut d, &rest, 7, 3);
    apply(&mut d, &rest, 7, 4);
    apply(&mut d, &rest, 8, 5);
    assert_eq!(d.shards.stabilize_epochs(WirePartitionId(7)), 2);
    let events = d.runtime.telemetry.drain();
    assert!(matches!(
        events.last(),
        Some(TelemetryEvent::RegionQuiescent {
            region_root: Uid(44),
            partition_id: WirePartitionId(8),
            quiescent: true,
            quiescent_epochs: 1,
        })
    ));
    apply(&mut d, &IsaOp::Demand { node: Uid(1) }, 7, 6);
    assert_eq!(d.shards.stabilize_epochs(WirePartitionId(7)), 0);
    assert_eq!(d.shards.stabilize_epochs(WirePartitionId(8)), 1);
    apply(&mut d, &IsaOp::Stabilize { region: None }, 7, 7);
    assert!(matches!(
        d.runtime.telemetry.peek().last(),
        Some(TelemetryEvent::RegionQuiescent { region_root: Uid(7), quiescent_epochs: 1, .. })
    ));
}

#[test]
fn engine_failure_has_no_effect() {
    let mut d = opened();
    let pending = match step(&mut d, &create(7), 0, 1).unwrap() {
        DispatchStep::Apply(pending) => pending,
        other => panic!("{:?}", other),
    };
    let report: EngineReport<u8> = EngineReport {
        outcome: Err(EngineError { message: "cycle".to_string() }),
        stats: stats(0x1_0000_0003, 9),
    };
    assert!(matches!(
        d.complete_record(pending, report),
        Err(DispatchError::Engine(EngineError { message })) if message == "cycle"
    ));
    assert!(d.runtime.domains.partitions.is_empty());
    assert!(d.runtime.telemetry.is_empty());
    assert_eq!(d.shards.shard_count(), 1);
    let p = d.shards.pressure_snapshot(ShardId(0));
    assert_eq!((p.queue_depth, p.cursor_count, p.budget_consumed), (3, 0, 9));
    assert_eq!(d.shards.pressure_snapshot(ShardId(1)), ShardPressure::default());
}

#[test]
fn unknown_opcode_is_skipped() {
    let mut d = opened();
    let mut h = header(&encode_record(&IsaOp::Stabilize { region: None }, &context(0, 1)));
    h[0..2].copy_from_slice(&0x7777u16.to_le_bytes());
    assert!(matches!(d.process_record(&h, &[]), Ok(DispatchStep::Skipped)));
    assert!(matches!(
        d.process_record(&h, &[]),
        Err(DispatchError::Ingress(IngressError::StreamSeqGap { .. }))
    ));
}

#[test]
fn bootstrap_and_reconnect() {
    let mut d = Dispatcher::new();
    d.runtime.domains.register_tenant(TenantDomain {
        policy: AuthorityPolicy { assertion: 0x0F, ..AuthorityPolicy::all() },
        ..TenantDomain::single_tenant()
    });
    d.process_preamble(&encode_stream_preamble(PathId(1), SESSION, 0, 0)).unwrap();
    let payload = profile_payload(2, 0xFF, u64::MAX);
    assert!(matches!(
        d.process_record(&profile_header(&payload, 5), &payload),
        Ok(DispatchStep::Bootstrapped { session_id: SESSION })
    ));
    assert_eq!(d.runtime.resolve_path(PathId(1)), Some(SESSION));
    let s = *d.runtime.sessions.get(SESSION).unwrap();
    assert_eq!((s.stream_seq_floor, s.tenant_id), (5, TenantId(0)));
    let granted = d.runtime.domains.effective_policy(SESSION).unwrap();
    assert_eq!((granted.assertion, granted.disclosure), (0x0F, 0xFF));
    // The session comes back on another path, and its stream goes on.
    d.runtime.sessions.ack_seq(SESSION, 8);
    d.runtime.paths.get_mut(PathId(1)).unwrap().last_ack_stream_seq = 8;
    d.decoder = StreamDecoder::new();
    d.process_preamble(&encode_stream_preamble(PathId(2), SESSION, 0, 0)).unwrap();
    assert!(d.process_record(&profile_header(&payload, 9), &payload).is_ok());
    assert_eq!(d.runtime.sessions.get(SESSION).unwrap().stream_seq_floor, 9);
    assert_eq!(d.runtime.paths.get(PathId(2)).unwrap().last_ack_stream_seq, 8);
    assert_eq!(d.runtime.paths.get(PathId(1)).unwrap().state, PathState::Draining);
}

#[test]
fn failed_bootstrap_leaves_no_authority() {
    let mut d = Dispatcher::new();
    d.runtime.domains.register_tenant(TenantDomain::single_tenant());
    d.process_preamble(&encode_stream_preamble(PathId(1), SESSION, 0, 0)).unwrap();
    let payload = profile_payload(3, 0xFF, u64::MAX);
    assert!(matches!(
        d.process_record(&profile_header(&payload, 1), &payload),
        Err(DispatchError::Ingress(IngressError::ProfileVerification(
            ProfileError::SessionMismatch { .. }
        )))
    ));
    assert_eq!(d.runtime.domains.effective_policy(SESSION), Some(AuthorityPolicy::none()));
    assert_eq!(d.runtime.resolve_path(PathId(1)), Some(SESSION));
}

#[test]
fn preamble_errors_come_through() {
    let mut d = Dispatcher::default();
    assert!(matches!(
        d.process_preamble(&[0; 32]),
        Err(DispatchError::Ingress(IngressError::BadMagic([0, 0, 0, 0])))
    ));
    assert!(matches!(
        d.process_record(&[0; 48], &[]),
        Err(DispatchError::Ingress(IngressError::PreambleRequired))
    ));
}

#[test]
fn errors_convert() {
    let e: IngressError = ProfileError::WrongTrustLevel.into();
    assert_eq!(e, IngressError::ProfileVerification(ProfileError::WrongTrustLevel));
    assert!(matches!(DispatchError::from(e), DispatchError::Ingress(_)));
    let engine = EngineError { message: String::new() };
    assert!(matches!(DispatchError::from(engine), DispatchError::Engine(_)));
}
