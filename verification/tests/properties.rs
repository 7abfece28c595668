use ed25519_dalek::{Signer, SigningKey};
use pgress_session::admission::ShardPressure;
use pgress_session::auth::{
    AuthAxis, AuthTableKey, AuthorityPolicy, DataplaneGateReason, GateResult, PartitionAuthRow,
    PartitionAuthTable,
};
use pgress_session::decode::{IngressError, apply_profile};
use pgress_session::domain::{
    DomainRegistry, PartitionDomain, SessionDomain, SessionQuota, ShardDomain, ShardFabricAddr,
    TenantDomain, TenantQuota,
};
use pgress_session::idmap::IdMap;
use pgress_session::isa::{AuthorityMode, CapabilityBits, LatticeClass, Uid};
use pgress_session::{PathId, SessionId, ShardId, TenantId, WirePartitionId};
use pgress_session::opcode::OpcodeClass;
use pgress_session::profile::{
    IssuerKey, ProfileError, SessionProfile, SignatureVerdict, TrustLevel, TrustStore,
};
use pgress_session::recovery::WorkCursor;
use pgress_session::runtime::{ParsedHeader, RejectionReason, RouteOutcome, SessionRuntime};
use pgress_session::session::{
    ExpiryPolicy, ExpiryReason, PathEntry, PathState, PathTable, SessionEntry, SessionError,
    SessionReaper, SessionTable,
};
use pgress_session::telemetry::{TelemetryEvent, TelemetryNodeName, TelemetryPartition};
use pgress_session::topology::{
    HEALTH_NEG, HEALTH_POS, HEALTH_ZERO, TopologyNodeName, TopologyPartition,
};

fn pressure(queue_depth: u32, cursor_count: u32) -> ShardPressure {
    ShardPressure { queue_depth, cursor_count, budget_consumed: 0 }
}

fn entry(id: u64, floor: u64) -> SessionEntry {
    SessionEntry {
        session_id: SessionId(id),
        tenant_id: TenantId(1),
        active_path_id: Some(PathId(id)),
        prev_path_id: None,
        stream_seq_floor: floor,
        auth_mode: AuthorityMode::Advisory,
        last_active_causal_epoch: 0,
        consecutive_quiescent_epochs: 0,
    }
}

fn path(id: u64, session: u64, ack: u64) -> PathEntry {
    PathEntry {
        path_id: PathId(id),
        session_id: SessionId(session),
        last_ack_stream_seq: ack,
        state: PathState::Active,
    }
}

fn record(opcode: u16, session: u64, partition: u64, seq: u64) -> ParsedHeader {
    ParsedHeader {
        opcode,
        flags: 0,
        length: 48,
        tenant_id: TenantId(0),
        session_id: SessionId(session),
        partition_id: WirePartitionId(partition),
        causal_epoch: 1,
        stream_seq: seq,
    }
}

fn partition(id: u64, session: u64, shard: u64) -> PartitionDomain {
    PartitionDomain {
        id: WirePartitionId(id),
        session_id: SessionId(session),
        lattice_class: LatticeClass::bottom(),
        causal_scope: 0,
        shard_id: ShardId(shard),
    }
}

fn addr(region: u16, pod: u16, rack: u16, fabric_leaf: u16) -> ShardFabricAddr {
    ShardFabricAddr { region, pod, rack, fabric_leaf }
}

// ── Maps ─────────────────────────────────────────────────────────────────────

#[test]
fn id_map_holds_what_was_put_in() {
    let mut m: IdMap<ShardId, u32> = IdMap::new();
    assert!(m.is_empty());
    assert_eq!(m.insert(ShardId(u64::MAX), 1), None);
    assert_eq!(m.insert(ShardId(3), 2), None);
    assert_eq!(m.insert(ShardId(0), 3), None);
    assert_eq!(m.insert(ShardId(3), 4), Some(2));
    assert_eq!(m.len(), 3);
    assert_eq!(m.keys(), vec![ShardId(0), ShardId(3), ShardId(u64::MAX)]);
    *m.get_mut(&ShardId(0)).unwrap() = 9;
    assert_eq!(m.get(&ShardId(0)), Some(&9));
    assert_eq!(m.get(&ShardId(7)), None);
    assert!(m.get_mut(&ShardId(7)).is_none());
    assert_eq!(m.remove(&ShardId(3)), Some(4));
    assert_eq!(m.remove(&ShardId(3)), None);
    assert!(!m.contains_key(&ShardId(3)));
    let copy = m.clone();
    assert_eq!(copy.keys(), vec![ShardId(0), ShardId(u64::MAX)]);
}

#[test]
fn gate_rows_are_kept_apart() {
    let mut table = PartitionAuthTable::new();
    let strict = PartitionAuthRow { lattice_class: LatticeClass::top(), policy: AuthorityPolicy::all() };
    for p in [0, 1, u64::MAX] {
        let key = AuthTableKey { partition_id: WirePartitionId(p), opcode_class: OpcodeClass::Demand };
        table.install(key, strict);
    }
    assert_eq!(table.len(), 3);
    let ask = |t: &PartitionAuthTable, p: u64, class: OpcodeClass| {
        t.gate(WirePartitionId(p), class, LatticeClass::bottom(), AuthorityPolicy::none())
    };
    assert_eq!(
        ask(&table, u64::MAX, OpcodeClass::Demand),
        GateResult::Deny(DataplaneGateReason::PolicyViolation(AuthAxis::Observability))
    );
    assert!(ask(&table, u64::MAX, OpcodeClass::Data).is_allowed());
    table.remove(&AuthTableKey { partition_id: WirePartitionId(1), opcode_class: OpcodeClass::Demand });
    assert!(ask(&table, 1, OpcodeClass::Demand).is_allowed());
    assert!(!ask(&table, 0, OpcodeClass::Demand).is_allowed());
}

#[test]
fn anything_passes_a_permissive_row() {
    let mut table = PartitionAuthTable::new();
    let row = PartitionAuthRow::permissive();
    assert_eq!(row.lattice_class, LatticeClass::top());
    for class in [OpcodeClass::Control, OpcodeClass::SetValue, OpcodeClass::Subscribe] {
        table.install(AuthTableKey { partition_id: WirePartitionId(1), opcode_class: class }, row);
        for emitted in [LatticeClass(0b0010), LatticeClass::bottom(), LatticeClass::top()] {
            assert!(table
                .gate(WirePartitionId(1), class, emitted, AuthorityPolicy::none())
                .is_allowed());
        }
    }
}

// ── Authority ────────────────────────────────────────────────────────────────

#[test]
fn intersection_is_the_greatest_bound() {
    let a = AuthorityPolicy { assertion: 0b1100, delegation: 1, observability: 7, disclosure: 0 };
    let b = AuthorityPolicy { assertion: 0b1010, delegation: 3, observability: 2, disclosure: 9 };
    let both = a.intersect(b);
    assert_eq!(both, AuthorityPolicy { assertion: 0b1000, delegation: 1, observability: 2, disclosure: 0 });
    assert!(both.is_bounded_by(a) && both.is_bounded_by(b));
    assert_eq!(both, b.intersect(a));
    assert_eq!(a.intersect(AuthorityPolicy::all()), a);
    assert_eq!(AuthorityPolicy::default(), AuthorityPolicy::none());
}

#[test]
fn lattice_flow() {
    assert!(LatticeClass::bottom().flows_to(LatticeClass(5)));
    assert!(LatticeClass(5).flows_to(LatticeClass::top()));
    assert!(LatticeClass(0b0011).flows_to(LatticeClass(0b0111)));
    assert!(!LatticeClass(0b0010).flows_to(LatticeClass(0b0001)));
    assert!(!LatticeClass(1).flows_to(LatticeClass::bottom()));
}

#[test]
fn session_of_an_unknown_tenant_holds_nothing() {
    let mut domains = DomainRegistry::new();
    domains.register_session(SessionDomain {
        id: SessionId(1),
        tenant_id: TenantId(9),
        claimed_caps: CapabilityBits::all(),
        claimed_policy: AuthorityPolicy::all(),
        auth_mode: AuthorityMode::Advisory,
        quota: SessionQuota::default(),
    });
    assert_eq!(domains.effective_policy(SessionId(1)), Some(AuthorityPolicy::none()));
    assert_eq!(domains.effective_policy(SessionId(2)), None);
    domains.register_tenant(TenantDomain {
        id: TenantId(9),
        capabilities: CapabilityBits::none(),
        policy: AuthorityPolicy::read_only(),
        quota: TenantQuota::default(),
    });
    assert_eq!(domains.effective_policy(SessionId(1)), Some(AuthorityPolicy::read_only()));
    assert_eq!(domains.effective_caps(SessionId(1)), Some(CapabilityBits::none()));
}

#[test]
fn fabric_distance() {
    let a = addr(1, 1, 1, 1);
    for (b, hops) in [
        (addr(1, 1, 1, 1), 1),
        (addr(1, 1, 1, 2), 2),
        (addr(1, 1, 2, 1), 4),
        (addr(1, 2, 1, 1), 8),
        (addr(2, 1, 1, 1), 16),
    ] {
        assert_eq!(a.hop_distance(&b), hops);
        assert_eq!(b.hop_distance(&a), hops);
    }
    assert_eq!(a.locality_class(&addr(1, 2, 1, 1)), LatticeClass(0b1111));
}

// ── Profiles ─────────────────────────────────────────────────────────────────

fn profile(trust_level: TrustLevel) -> SessionProfile {
    SessionProfile {
        profile_id: 1,
        profile_version: 2,
        trust_level,
        assertion_mask: 0x0102_0304_0506_0708,
        delegation_mask: 2,
        observability_mask: 3,
        disclosure_mask: 4,
        issuer_domain: TenantId(5),
        session_id: SessionId(6),
        generation: 7,
        expiry_epoch: 8,
        signature: vec![],
    }
}

#[test]
fn signing_payload_layout() {
    let bytes = profile(TrustLevel::Asserted).canonical_signing_payload();
    assert_eq!(&bytes[..8], &[8, 7, 6, 5, 4, 3, 2, 1]);
    for (i, v) in [(1usize, 2u8), (2, 3), (3, 4), (4, 5), (5, 6), (6, 7), (7, 8)] {
        assert_eq!(&bytes[8 * i..8 * i + 8], &[v, 0, 0, 0, 0, 0, 0, 0]);
    }
}

#[test]
fn grant_by_verdict() {
    let p = profile(TrustLevel::Attested);
    let all = AuthorityPolicy::all();
    let ask = |epoch, generation, session, verdict| {
        p.verify_signed(all, epoch, generation, SessionId(session), verdict)
    };
    assert_eq!(ask(8, 7, 6, SignatureVerdict::Valid), Ok(p.claimed_policy()));
    assert_eq!(ask(8, 7, 6, SignatureVerdict::Invalid), Err(ProfileError::SignatureInvalid));
    assert_eq!(
        ask(8, 7, 6, SignatureVerdict::UnknownIssuer),
        Err(ProfileError::UnknownIssuer { issuer: TenantId(5) })
    );
    assert_eq!(
        ask(9, 7, 6, SignatureVerdict::Valid),
        Err(ProfileError::Expired { expiry: 8, current: 9 })
    );
    assert_eq!(
        ask(8, 8, 6, SignatureVerdict::Valid),
        Err(ProfileError::GenerationRevoked { profile: 7, min_valid: 8 })
    );
    assert_eq!(
        ask(9, 8, 7, SignatureVerdict::Valid),
        Err(ProfileError::SessionMismatch { profile_session: SessionId(6), actual_session: SessionId(7) })
    );
    assert_eq!(
        profile(TrustLevel::Advisory).verify_signed(all, 0, 0, SessionId(6), SignatureVerdict::Valid),
        Err(ProfileError::WrongTrustLevel)
    );
    assert_eq!(
        p.verify_advisory(all, 0, 0, SessionId(6)),
        Err(ProfileError::WrongTrustLevel)
    );
}

#[test]
fn signature_is_checked_against_the_issuer() {
    let key = SigningKey::from_bytes(&[3u8; 32]);
    let mut p = profile(TrustLevel::Asserted);
    p.signature = key.sign(&p.canonical_signing_payload()).to_bytes().to_vec();
    let mut store = TrustStore::new();
    assert_eq!(p.check_signature(&store), SignatureVerdict::UnknownIssuer);
    store.insert(TenantId(5), IssuerKey(key.verifying_key().to_bytes()));
    assert_eq!(p.check_signature(&store), SignatureVerdict::Valid);
    p.session_id = SessionId(7);
    assert_eq!(p.check_signature(&store), SignatureVerdict::Invalid);
    p.session_id = SessionId(6);
    p.signature.push(0);
    assert_eq!(p.check_signature(&store), SignatureVerdict::Invalid);
    p.signature.pop();
    store.insert(TenantId(5), IssuerKey([0xFF; 32]));
    assert_eq!(p.check_signature(&store), SignatureVerdict::Invalid);
}

#[test]
fn profile_scopes_the_session() {
    let mut rt = SessionRuntime::new();
    let h = ParsedHeader { causal_epoch: 8, ..record(0x0100, 6, 0, 1) };
    let p = profile(TrustLevel::Asserted);
    assert_eq!(
        apply_profile(&h, &p, SignatureVerdict::Valid, &mut rt),
        Err(IngressError::UnknownSession(SessionId(6)))
    );
    rt.domains.register_session(SessionDomain {
        id: SessionId(6),
        tenant_id: TenantId(1),
        claimed_caps: CapabilityBits::none(),
        claimed_policy: AuthorityPolicy::all(),
        auth_mode: AuthorityMode::Advisory,
        quota: SessionQuota::default(),
    });
    // Without its tenant the session is granted nothing.
    assert_eq!(
        apply_profile(&h, &p, SignatureVerdict::Valid, &mut rt),
        Ok(AuthorityPolicy::none())
    );
    let ceiling = AuthorityPolicy { assertion: 0xFF, ..AuthorityPolicy::all() };
    rt.domains.register_tenant(TenantDomain {
        id: TenantId(1),
        capabilities: CapabilityBits::all(),
        policy: ceiling,
        quota: TenantQuota::default(),
    });
    let granted = apply_profile(&h, &p, SignatureVerdict::Valid, &mut rt).unwrap();
    assert_eq!(granted, p.claimed_policy().intersect(ceiling));
    assert_eq!(granted.assertion, 8);
    assert_eq!(rt.domains.effective_policy(SessionId(6)), Some(granted));
    // A profile that fails changes nothing.
    assert_eq!(
        apply_profile(&h, &p, SignatureVerdict::Invalid, &mut rt),
        Err(IngressError::ProfileVerification(ProfileError::SignatureInvalid))
    );
    assert_eq!(rt.domains.effective_policy(SessionId(6)), Some(granted));
}

// ── Sessions and paths ───────────────────────────────────────────────────────

#[test]
fn acknowledged_is_replay() {
    let mut t = SessionTable::new();
    t.create(entry(1, 0));
    t.ack_seq(SessionId(1), 5);
    t.ack_seq(SessionId(1), 3);
    t.ack_seq(SessionId(2), u64::MAX);
    assert_eq!(t.get(SessionId(1)).unwrap().stream_seq_floor, 6);
    assert!(!t.is_seq_valid(SessionId(1), 5));
    assert!(t.is_seq_valid(SessionId(1), 6));
    assert!(!t.is_seq_valid(SessionId(2), 6));
}

#[test]
fn migration_then_retirement() {
    let mut t = SessionTable::new();
    let mut p = PathTable::new();
    assert_eq!(
        t.migrate_path(SessionId(1), PathId(2), 0, &mut p),
        Err(SessionError::NotFound(SessionId(1)))
    );
    assert_eq!(
        t.retire_draining_path(SessionId(1), &mut p),
        Err(SessionError::NotFound(SessionId(1)))
    );
    t.create(entry(1, 4));
    p.create(path(1, 1, 3));
    t.migrate_path(SessionId(1), PathId(2), 3, &mut p).unwrap();
    assert_eq!(p.get(PathId(1)).unwrap().state, PathState::Draining);
    assert_eq!(p.get(PathId(2)).unwrap(), &path(2, 1, 3));
    assert_eq!(p.resolve_session(PathId(1)), Some(SessionId(1)));
    assert_eq!(t.get(SessionId(1)).unwrap().stream_seq_floor, 4);
    t.retire_draining_path(SessionId(1), &mut p).unwrap();
    assert_eq!(p.resolve_session(PathId(1)), None);
    assert_eq!(p.resolve_session(PathId(2)), Some(SessionId(1)));
    assert_eq!(t.get(SessionId(1)).unwrap().prev_path_id, None);
}

#[test]
fn reaper_gives_the_first_reason() {
    let mut t = SessionTable::new();
    for (id, epoch, rest) in [(1u64, 0u64, 9u32), (2, 90, 9), (3, 100, 0), (4, 60, 0)] {
        t.create(SessionEntry {
            last_active_causal_epoch: epoch,
            consecutive_quiescent_epochs: rest,
            ..entry(id, 0)
        });
    }
    let reaper = SessionReaper::new(ExpiryPolicy {
        inactivity_epoch_threshold: Some(50),
        epoch_lag_threshold: Some(30),
        zero_frustration_threshold: Some(9),
    });
    let result = reaper.reap(&mut t, 100);
    assert_eq!(
        result.tombstoned,
        vec![
            (SessionId(1), ExpiryReason::Inactivity { last_active: 0, current: 100 }),
            (SessionId(2), ExpiryReason::ZeroFrustration { consecutive_epochs: 9 }),
            (SessionId(4), ExpiryReason::EpochLag { last_active: 60, frontier: 100 }),
        ]
    );
    assert_eq!(t.ids(), vec![SessionId(3)]);
}

// ── Routing ──────────────────────────────────────────────────────────────────

#[test]
fn each_rejection() {
    let mut rt = SessionRuntime::new();
    assert_eq!(
        rt.route_record(&record(3, 1, 5, 0)),
        RouteOutcome::Rejected(RejectionReason::SessionNotFound)
    );
    rt.sessions.create(entry(1, 10));
    let foreign = ParsedHeader { tenant_id: TenantId(2), ..record(3, 1, 5, 10) };
    assert_eq!(
        rt.route_record(&foreign),
        RouteOutcome::Rejected(RejectionReason::TenantMismatch)
    );
    assert_eq!(
        rt.route_record(&record(3, 1, 5, 9)),
        RouteOutcome::Rejected(RejectionReason::StreamSeqReplay)
    );
    assert_eq!(
        rt.route_record(&record(3, 1, 5, 10)),
        RouteOutcome::Rejected(RejectionReason::UnknownPartition)
    );
    assert_eq!(
        rt.route_record(&record(0x000C, 1, 5, 10)),
        RouteOutcome::Admitted { opcode_class: OpcodeClass::Control }
    );
    rt.domains.register_partition(partition(5, 1, 2));
    rt.update_pressure(ShardId(2), pressure(5_000, 0));
    assert_eq!(
        rt.route_record(&record(4, 1, 5, 10)),
        RouteOutcome::Rejected(RejectionReason::Shed)
    );
    assert_eq!(
        rt.route_record(&record(0x000A, 1, 5, 10)),
        RouteOutcome::Rejected(RejectionReason::Delay)
    );
    assert!(rt.route_record(&record(8, 1, 5, 10)).is_admitted());
    assert!(rt.route_record(&record(3, 1, 5, 10)).is_admitted());
    rt.auth.install(
        AuthTableKey { partition_id: WirePartitionId(5), opcode_class: OpcodeClass::SetValue },
        PartitionAuthRow {
            lattice_class: LatticeClass::bottom(),
            policy: AuthorityPolicy { assertion: 1, ..AuthorityPolicy::none() },
        },
    );
    rt.domains.register_session(SessionDomain {
        id: SessionId(1),
        tenant_id: TenantId(1),
        claimed_caps: CapabilityBits::none(),
        claimed_policy: AuthorityPolicy::none(),
        auth_mode: AuthorityMode::Advisory,
        quota: SessionQuota::default(),
    });
    let denied = DataplaneGateReason::PolicyViolation(AuthAxis::Assertion);
    rt.telemetry.drain();
    assert_eq!(
        rt.route_record(&record(3, 1, 5, 10)),
        RouteOutcome::Rejected(RejectionReason::AuthGateDenied(denied))
    );
    let events = rt.telemetry.peek();
    assert!(matches!(
        events[0],
        TelemetryEvent::AuthViolation { node: Uid(0), reason } if reason == &format!("{:?}", denied)
    ));
}

#[test]
fn health_is_reported_when_it_changes() {
    let mut rt = SessionRuntime::new();
    rt.update_pressure(ShardId(1), pressure(0, 0));
    rt.update_pressure(ShardId(1), pressure(499, 0));
    rt.update_pressure(ShardId(1), pressure(500, 0));
    rt.update_pressure(ShardId(1), pressure(0, 1));
    let seen: Vec<(i8, i8)> = rt
        .telemetry
        .drain()
        .iter()
        .map(|e| match e {
            TelemetryEvent::TopologyHealthChanged { old_health, new_health, .. } => {
                (*old_health, *new_health)
            }
            other => panic!("{:?}", other),
        })
        .collect();
    assert_eq!(seen, vec![(HEALTH_NEG, HEALTH_POS), (HEALTH_POS, HEALTH_ZERO), (HEALTH_ZERO, HEALTH_NEG)]);
    assert!(rt.telemetry.is_empty());
}

#[test]
fn quiescence_counts_for_the_owner() {
    let mut rt = SessionRuntime::new();
    rt.sessions.create(entry(1, 0));
    rt.domains.register_partition(partition(5, 1, 0));
    rt.notify_domain_quiescent(WirePartitionId(5));
    rt.notify_domain_quiescent(WirePartitionId(6));
    rt.notify_domain_quiescent(WirePartitionId(5));
    assert_eq!(rt.sessions.get(SessionId(1)).unwrap().consecutive_quiescent_epochs, 2);
    rt.notify_cell_quiescent(Uid(1), WirePartitionId(5), true);
    rt.notify_budget_exhausted(Uid(2), 3, 4);
    assert_eq!(rt.telemetry.len(), 5);
    assert!(rt.route_record(&record(3, 1, 5, 0)).is_admitted());
    let s = rt.sessions.get(SessionId(1)).unwrap();
    assert_eq!((s.consecutive_quiescent_epochs, s.last_active_causal_epoch), (0, 1));
}

// ── Telemetry ────────────────────────────────────────────────────────────────

#[test]
fn ring_keeps_the_latest() {
    let mut t = TelemetryPartition::new(2);
    for version in 1..=5 {
        t.emit(TelemetryEvent::ValueChanged { node: Uid(1), version });
    }
    assert_eq!((t.len(), t.dropped), (2, 3));
    let versions: Vec<u64> = t
        .peek()
        .iter()
        .map(|e| match e {
            TelemetryEvent::ValueChanged { version, .. } => *version,
            other => panic!("{:?}", other),
        })
        .collect();
    assert_eq!(versions, vec![4, 5]);
    assert_eq!(t.drain().len(), 2);
    assert_eq!((t.len(), t.dropped), (0, 0));
    let mut none = TelemetryPartition::new(0);
    none.emit(TelemetryEvent::DomainQuiescent { partition_id: WirePartitionId(1) });
    none.emit(TelemetryEvent::DomainQuiescent { partition_id: WirePartitionId(2) });
    assert_eq!((none.len(), none.dropped), (1, 2));
}

#[test]
fn node_names() {
    assert_eq!(
        TelemetryNodeName::node_value(Uid(0x0123_4567_89ab_cdef_0011_2233_4455_6677)),
        "node::01234567-89ab-cdef-0011-223344556677::value"
    );
    assert_eq!(TelemetryNodeName::session_health(SessionId(u64::MAX)), "session::18446744073709551615::stream_health");
    assert_eq!(TelemetryNodeName::shard_pressure(ShardId(0)), "shard::0::pressure");
    assert_eq!(TelemetryNodeName::domain_quiescent(WirePartitionId(10)), "domain::10::quiescent");
    assert_eq!(TelemetryNodeName::topology_health(ShardId(7)), "shard::7::topology_health");
    assert_eq!(TelemetryNodeName::locality_radius(ShardId(7)), "shard::7::locality_radius");
    assert_eq!(TelemetryNodeName::placement_coords(ShardId(7)), "shard::7::placement_coords");
    assert_eq!(TopologyNodeName::shard(ShardId(90)), "shard::90::fabric");
}

// ── Placement ────────────────────────────────────────────────────────────────

#[test]
fn placement_takes_the_nearest_and_then_the_lowest() {
    let mut domains = DomainRegistry::new();
    let mut topology = TopologyPartition::new();
    for (id, a, healthy) in [
        (4u64, addr(0, 0, 0, 4), true),
        (2, addr(0, 0, 0, 2), true),
        (1, addr(0, 0, 1, 1), true),
        (0, addr(0, 0, 0, 0), false),
    ] {
        domains.register_shard(ShardDomain { id: ShardId(id), fabric_addr: Some(a) });
        topology.update(ShardId(id), &pressure(0, if healthy { 0 } else { 1 }));
    }
    assert_eq!(topology.best_shard_for(&addr(0, 0, 0, 0), &domains), Some(ShardId(2)));
    assert_eq!(topology.best_shard_for(&addr(0, 0, 0, 4), &domains), Some(ShardId(4)));
    assert_eq!(topology.any_healthy_shard(), Some(ShardId(1)));
    assert_eq!(domains.locality_radius(ShardId(1)), Some(4));
    assert_eq!(domains.locality_radius(ShardId(9)), None);
    assert_eq!(TopologyPartition::new().any_healthy_shard(), None);
}

#[test]
fn near_limit_without_overflow() {
    assert!(WorkCursor::new(Uid(1), u32::MAX, u32::MAX).near_limit());
    assert!(!WorkCursor::new(Uid(1), u32::MAX / 2, u32::MAX).near_limit());
}
