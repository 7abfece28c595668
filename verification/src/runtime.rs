//! The dataplane: what every record passes before it reaches an engine shard.
//!
//! Routing looks at record headers only:
//!
//! ```text
//! session lookup -> tenant check -> replay suppression -> opcode class
//!   -> authority gate of the partition -> shard -> admission
//! ```

use vstd::prelude::*;

use crate::admission::{
    AdmissionDecision, BackpressurePolicy, ShardPressure, admission, no_pressure,
};
use crate::auth::{
    AuthAxis, AuthTableKey, AuthorityPolicy, DataplaneGateReason, GateResult, PartitionAuthRow,
    PartitionAuthTable, gate_verdict, row_of,
};
use crate::domain::{
    DomainRegistry, Domains, PartitionDomain, ShardDomain, effective_policy_of, no_domains,
};
use crate::idmap::{IdMap, sorted_keys};
use crate::isa::{LatticeClass, Uid};
use crate::{PathId, SessionId, ShardId, TenantId, WirePartitionId};
use crate::opcode::{OpcodeClass, class_of};
use crate::profile::{IssuerKey, TrustStore};
use crate::session::{
    ExpiryPolicy, PathEntry, PathTable, ReapResult, SessionEntry, SessionReaper, SessionTable,
    seq_valid, session_of_path, survivors, tombstones, with_activity, with_quiescent_epoch,
};
use crate::telemetry::{
    DEFAULT_RING_CAPACITY, Ring, TelemetryEvent, TelemetryEventView, TelemetryPartition, emitted,
};
use crate::topology::{TopologyNode, TopologyPartition, health_in, health_of, node_of};

verus! {

/// The header of a record.
#[derive(Clone, Copy, Debug, PartialEq, Eq, Structural)]
pub struct ParsedHeader {
    pub opcode: u16,
    pub flags: u16,
    pub length: u32,
    pub tenant_id: TenantId,
    pub session_id: SessionId,
    pub partition_id: WirePartitionId,
    pub causal_epoch: u64,
    pub stream_seq: u64,
}

/// What routing decided.
#[derive(Clone, Copy, Debug, PartialEq, Eq, Structural)]
pub enum RouteOutcome {
    /// The record goes to the shard of its partition. The class says on which lane.
    Admitted { opcode_class: OpcodeClass },
    Rejected(RejectionReason),
}

impl RouteOutcome {
    #[verifier::allow_in_spec]
    pub fn is_admitted(&self) -> bool
        returns
            self is Admitted,
    {
        matches!(self, Self::Admitted { .. })
    }
}

/// Why a record was rejected.
#[derive(Clone, Copy, Debug, PartialEq, Eq, Structural)]
pub enum RejectionReason {
    /// There is no such session.
    SessionNotFound,
    /// The header names another tenant than the session's. Tenant 0 stands for any.
    TenantMismatch,
    /// The stream sequence number was acknowledged before.
    StreamSeqReplay,
    /// The authority gate of the partition said no.
    AuthGateDenied(DataplaneGateReason),
    /// Discarded under load, or not known.
    Shed,
    /// Held back under load: to be tried again.
    Delay,
    /// The session exists, but the path has not completed its admission.
    UnauthenticatedPath,
    /// The partition is not registered, and the instruction is not one that may create it.
    UnknownPartition,
}

/// What the debug form of a gate's reason reads.
pub open spec fn reason_text(reason: DataplaneGateReason) -> Seq<char> {
    match reason {
        DataplaneGateReason::LatticeViolation => "LatticeViolation"@,
        DataplaneGateReason::PolicyViolation(AuthAxis::Assertion) => "PolicyViolation(Assertion)"@,
        DataplaneGateReason::PolicyViolation(AuthAxis::Delegation) =>
            "PolicyViolation(Delegation)"@,
        DataplaneGateReason::PolicyViolation(AuthAxis::Observability) =>
            "PolicyViolation(Observability)"@,
        DataplaneGateReason::PolicyViolation(AuthAxis::Disclosure) =>
            "PolicyViolation(Disclosure)"@,
    }
}

fn reason_label(reason: DataplaneGateReason) -> (text: &'static str)
    ensures
        text@ == reason_text(reason),
{
    match reason {
        DataplaneGateReason::LatticeViolation => "LatticeViolation",
        DataplaneGateReason::PolicyViolation(AuthAxis::Assertion) => "PolicyViolation(Assertion)",
        DataplaneGateReason::PolicyViolation(AuthAxis::Delegation) => "PolicyViolation(Delegation)",
        DataplaneGateReason::PolicyViolation(AuthAxis::Observability) => {
            "PolicyViolation(Observability)"
        },
        DataplaneGateReason::PolicyViolation(AuthAxis::Disclosure) => "PolicyViolation(Disclosure)",
    }
}

/// All state of the dataplane.
pub struct SessionRuntime {
    pub sessions: SessionTable,
    pub paths: PathTable,
    pub domains: DomainRegistry,
    pub auth: PartitionAuthTable,
    pub admission: BackpressurePolicy,
    pub telemetry: TelemetryPartition,
    pub topology: TopologyPartition,
    /// Keys of the issuers of signed profiles.
    pub trust_store: TrustStore,
    /// The last pressure report of each shard.
    pub pressure: IdMap<ShardId, ShardPressure>,
}

/// The mathematical content of a [`SessionRuntime`].
pub struct RuntimeView {
    pub sessions: Map<SessionId, SessionEntry>,
    pub paths: Map<PathId, PathEntry>,
    pub domains: Domains,
    pub auth: Map<AuthTableKey, PartitionAuthRow>,
    pub admission: BackpressurePolicy,
    pub telemetry: Ring,
    pub topology: Map<ShardId, TopologyNode>,
    pub trust_store: Map<TenantId, IssuerKey>,
    pub pressure: Map<ShardId, ShardPressure>,
}

impl View for SessionRuntime {
    type V = RuntimeView;

    open spec fn view(&self) -> RuntimeView {
        RuntimeView {
            sessions: self.sessions@,
            paths: self.paths@,
            domains: self.domains@,
            auth: self.auth@,
            admission: self.admission,
            telemetry: self.telemetry@,
            topology: self.topology@,
            trust_store: self.trust_store@,
            pressure: self.pressure@,
        }
    }
}

/// A runtime that nothing was entered into.
pub open spec fn empty_runtime() -> RuntimeView {
    RuntimeView {
        sessions: Map::empty(),
        paths: Map::empty(),
        domains: no_domains(),
        auth: Map::empty(),
        admission: BackpressurePolicy { coalesce_threshold: 1_000, shed_threshold: 5_000 },
        telemetry: Ring { events: Seq::empty(), capacity: DEFAULT_RING_CAPACITY, dropped: 0 },
        topology: Map::empty(),
        trust_store: Map::empty(),
        pressure: Map::empty(),
    }
}

/// The authority that a session acts with. One that is not in the domain registry was set up by
/// the host itself and is trusted fully.
pub open spec fn acting_policy(domains: Domains, id: SessionId) -> AuthorityPolicy {
    match effective_policy_of(domains, id) {
        Some(policy) => policy,
        None => AuthorityPolicy::all(),
    }
}

/// The shard that a record goes to. Where the partition is not registered, instructions of the
/// control plane go to shard 0, and others nowhere.
pub open spec fn target_shard(
    partitions: Map<WirePartitionId, PartitionDomain>,
    partition: WirePartitionId,
    class: OpcodeClass,
) -> Option<ShardId> {
    if partitions.contains_key(partition) {
        Some(partitions[partition].shard_id)
    } else if class.is_control_plane() {
        Some(ShardId(0))
    } else {
        None
    }
}

/// The pressure on a shard, none where nothing was reported.
pub open spec fn pressure_on(pressure: Map<ShardId, ShardPressure>, id: ShardId) -> ShardPressure {
    if pressure.contains_key(id) {
        pressure[id]
    } else {
        no_pressure()
    }
}

/// What routing decides on a record.
pub open spec fn routing(rt: RuntimeView, h: ParsedHeader) -> RouteOutcome {
    let class = class_of(h.opcode);
    if !rt.sessions.contains_key(h.session_id) {
        RouteOutcome::Rejected(RejectionReason::SessionNotFound)
    } else if h.tenant_id.0 != 0 && h.tenant_id != rt.sessions[h.session_id].tenant_id {
        RouteOutcome::Rejected(RejectionReason::TenantMismatch)
    } else if !seq_valid(rt.sessions, h.session_id, h.stream_seq) {
        RouteOutcome::Rejected(RejectionReason::StreamSeqReplay)
    } else {
        match gate_verdict(
            row_of(rt.auth, h.partition_id, class),
            class,
            LatticeClass::bottom(),
            acting_policy(rt.domains, h.session_id),
        ) {
            GateResult::Deny(reason) => RouteOutcome::Rejected(
                RejectionReason::AuthGateDenied(reason),
            ),
            GateResult::Allow => match target_shard(rt.domains.partitions, h.partition_id, class) {
                None => RouteOutcome::Rejected(RejectionReason::UnknownPartition),
                Some(shard) => match admission(
                    rt.admission,
                    class,
                    pressure_on(rt.pressure, shard).queue_depth,
                ) {
                    AdmissionDecision::Drop => RouteOutcome::Rejected(RejectionReason::Shed),
                    AdmissionDecision::Delay => RouteOutcome::Rejected(RejectionReason::Delay),
                    _ => RouteOutcome::Admitted { opcode_class: class },
                },
            },
        }
    }
}

/// The state after a record: an admitted one counts as activity of its session, a replay
/// and a denial are reported, and nothing else changes anything.
pub open spec fn after_routing(rt: RuntimeView, h: ParsedHeader) -> RuntimeView {
    match routing(rt, h) {
        RouteOutcome::Admitted { .. } => RuntimeView {
            sessions: with_activity(rt.sessions, h.session_id, h.causal_epoch),
            ..rt
        },
        RouteOutcome::Rejected(RejectionReason::StreamSeqReplay) => RuntimeView {
            telemetry: emitted(
                rt.telemetry,
                TelemetryEventView::SessionHealthChanged {
                    session_id: h.session_id,
                    healthy: false,
                },
            ),
            ..rt
        },
        RouteOutcome::Rejected(RejectionReason::AuthGateDenied(reason)) => RuntimeView {
            telemetry: emitted(
                rt.telemetry,
                TelemetryEventView::AuthViolation { node: Uid(0), reason: reason_text(reason) },
            ),
            ..rt
        },
        _ => rt,
    }
}

/// The state after a pressure report. A change of health is reported.
pub open spec fn with_pressure(rt: RuntimeView, id: ShardId, pressure: ShardPressure) -> RuntimeView {
    let old_health = health_in(rt.topology, id);
    let new_health = health_of(pressure);
    RuntimeView {
        pressure: rt.pressure.insert(id, pressure),
        topology: rt.topology.insert(id, node_of(pressure)),
        telemetry: if old_health != new_health {
            emitted(
                rt.telemetry,
                TelemetryEventView::TopologyHealthChanged { shard_id: id, old_health, new_health },
            )
        } else {
            rt.telemetry
        },
        ..rt
    }
}

/// The state after an event was emitted.
pub open spec fn with_event(rt: RuntimeView, event: TelemetryEventView) -> RuntimeView {
    RuntimeView { telemetry: emitted(rt.telemetry, event), ..rt }
}

impl Default for SessionRuntime {
    fn default() -> (runtime: Self)
        ensures
            runtime@ == empty_runtime(),
    {
        SessionRuntime {
            sessions: SessionTable::new(),
            paths: PathTable::new(),
            domains: DomainRegistry::new(),
            auth: PartitionAuthTable::new(),
            admission: BackpressurePolicy::default(),
            telemetry: TelemetryPartition::default(),
            topology: TopologyPartition::new(),
            trust_store: TrustStore::new(),
            pressure: IdMap::new(),
        }
    }
}

impl SessionRuntime {
    pub fn new() -> (runtime: Self)
        ensures
            runtime@ == empty_runtime(),
    {
        SessionRuntime::default()
    }

    /// The session that a path leads to: none where the path is not known or is closed.
    pub fn resolve_path(&self, path_id: PathId) -> (session: Option<SessionId>)
        ensures
            session == session_of_path(self@.paths, path_id),
    {
        self.paths.resolve_session(path_id)
    }

    /// The authority that a session acts with.
    pub fn acting_policy(&self, session_id: SessionId) -> (policy: AuthorityPolicy)
        ensures
            policy == acting_policy(self@.domains, session_id),
    {
        match self.domains.effective_policy(session_id) {
            Some(policy) => policy,
            None => AuthorityPolicy::all(),
        }
    }

    /// Routes a record.
    pub fn route_record(&mut self, header: &ParsedHeader) -> (outcome: RouteOutcome)
        ensures
            outcome == routing(old(self)@, *header),
            final(self)@ == after_routing(old(self)@, *header),
    {
        let session_tenant = match self.sessions.get(header.session_id) {
            Some(session) => session.tenant_id,
            None => return RouteOutcome::Rejected(RejectionReason::SessionNotFound),
        };
        if header.tenant_id.0 != 0 && header.tenant_id != session_tenant {
            return RouteOutcome::Rejected(RejectionReason::TenantMismatch);
        }
        if !self.sessions.is_seq_valid(header.session_id, header.stream_seq) {
            self.telemetry.emit(
                TelemetryEvent::SessionHealthChanged {
                    session_id: header.session_id,
                    healthy: false,
                },
            );
            return RouteOutcome::Rejected(RejectionReason::StreamSeqReplay);
        }
        let opcode_class = OpcodeClass::from_opcode(header.opcode);
        // The header does not carry the class of the source, so the least one is taken.
        let policy = self.acting_policy(header.session_id);
        match self.auth.gate(header.partition_id, opcode_class, LatticeClass::bottom(), policy) {
            GateResult::Deny(reason) => {
                self.telemetry.emit(
                    TelemetryEvent::AuthViolation {
                        node: Uid::from_u128(0),
                        reason: reason_label(reason).to_owned(),
                    },
                );
                return RouteOutcome::Rejected(RejectionReason::AuthGateDenied(reason));
            },
            GateResult::Allow => {},
        }
        let shard_id = match self.domains.partitions.get(&header.partition_id) {
            Some(partition) => partition.shard_id,
            None => {
                if opcode_class.is_control_plane() {
                    ShardId(0)
                } else {
                    return RouteOutcome::Rejected(RejectionReason::UnknownPartition);
                }
            },
        };
        let pressure = match self.pressure.get(&shard_id) {
            Some(pressure) => *pressure,
            None => ShardPressure::default(),
        };
        match self.admission.decide(opcode_class, &pressure) {
            AdmissionDecision::Drop => {
                return RouteOutcome::Rejected(RejectionReason::Shed);
            },
            AdmissionDecision::Delay => {
                return RouteOutcome::Rejected(RejectionReason::Delay);
            },
            _ => {},
        }
        self.sessions.record_activity(header.session_id, header.causal_epoch);
        RouteOutcome::Admitted { opcode_class }
    }

    /// Takes in a pressure report of a shard.
    pub fn update_pressure(&mut self, shard_id: ShardId, pressure: ShardPressure)
        ensures
            final(self)@ == with_pressure(old(self)@, shard_id, pressure),
    {
        let _ = self.pressure.insert(shard_id, pressure);
        let (old_health, new_health) = self.topology.update(shard_id, &pressure);
        if old_health != new_health {
            self.telemetry.emit(
                TelemetryEvent::TopologyHealthChanged { shard_id, old_health, new_health },
            );
        }
    }

    /// Registers a shard, and reports its place where that is known.
    pub fn register_shard(&mut self, s: ShardDomain)
        ensures
            final(self)@ == (RuntimeView {
                domains: Domains {
                    shards: old(self)@.domains.shards.insert(s.id, s),
                    ..old(self)@.domains
                },
                telemetry: match s.fabric_addr {
                    Some(addr) => emitted(
                        old(self)@.telemetry,
                        TelemetryEventView::FabricPlacementChanged { shard_id: s.id, addr },
                    ),
                    None => old(self)@.telemetry,
                },
                ..old(self)@
            }),
    {
        let shard_id = s.id;
        let fabric_addr = s.fabric_addr;
        self.domains.register_shard(s);
        if let Some(addr) = fabric_addr {
            self.telemetry.emit(TelemetryEvent::FabricPlacementChanged { shard_id, addr });
        }
    }

    /// Reports that a partition's queue is empty, and counts a quiescent epoch of the session
    /// that owns the partition.
    pub fn notify_domain_quiescent(&mut self, partition_id: WirePartitionId)
        ensures
            final(self)@ == (RuntimeView {
                telemetry: emitted(
                    old(self)@.telemetry,
                    TelemetryEventView::DomainQuiescent { partition_id },
                ),
                sessions: if old(self)@.domains.partitions.contains_key(partition_id) {
                    with_quiescent_epoch(
                        old(self)@.sessions,
                        old(self)@.domains.partitions[partition_id].session_id,
                    )
                } else {
                    old(self)@.sessions
                },
                ..old(self)@
            }),
    {
        self.telemetry.emit(TelemetryEvent::DomainQuiescent { partition_id });
        if let Some(partition) = self.domains.partitions.get(&partition_id) {
            let session_id = partition.session_id;
            self.sessions.increment_quiescent_epochs(session_id);
        }
    }

    /// Reports that a cell came to rest, or woke up.
    pub fn notify_cell_quiescent(
        &mut self,
        cell_id: Uid,
        partition_id: WirePartitionId,
        quiescent: bool,
    )
        ensures
            final(self)@ == with_event(
                old(self)@,
                TelemetryEventView::CellQuiescent { cell_id, partition_id, quiescent },
            ),
    {
        self.telemetry.emit(TelemetryEvent::CellQuiescent { cell_id, partition_id, quiescent });
    }

    /// Reports that a region came to rest, or woke up, after so many epochs at rest.
    pub fn notify_region_quiescent(
        &mut self,
        region_root: Uid,
        partition_id: WirePartitionId,
        quiescent: bool,
        quiescent_epochs: u32,
    )
        ensures
            final(self)@ == with_event(
                old(self)@,
                TelemetryEventView::RegionQuiescent {
                    region_root,
                    partition_id,
                    quiescent,
                    quiescent_epochs,
                },
            ),
    {
        self.telemetry.emit(
            TelemetryEvent::RegionQuiescent {
                region_root,
                partition_id,
                quiescent,
                quiescent_epochs,
            },
        );
    }

    /// Ends the sessions that `policy` no longer lets live. Their paths and domains are left to
    /// the caller.
    pub fn run_reaper(&mut self, policy: &ExpiryPolicy, current_epoch: u64) -> (result: ReapResult)
        ensures
            final(self)@ == (RuntimeView {
                sessions: survivors(*policy, old(self)@.sessions, current_epoch),
                ..old(self)@
            }),
            result.tombstoned@ == tombstones(
                *policy,
                old(self)@.sessions,
                current_epoch,
                sorted_keys(old(self)@.sessions.dom()),
            ),
    {
        let reaper = SessionReaper::new(*policy);
        reaper.reap(&mut self.sessions, current_epoch)
    }

    /// Reports that a step budget ran out.
    pub fn notify_budget_exhausted(&mut self, node: Uid, steps_consumed: u32, budget: u32)
        ensures
            final(self)@ == with_event(
                old(self)@,
                TelemetryEventView::BudgetExhausted { node, steps_consumed, budget },
            ),
    {
        self.telemetry.emit(TelemetryEvent::BudgetExhausted { node, steps_consumed, budget });
    }
}

// ── What holds of routing as a whole ────────────────────────────────────────

/// A record is admitted only for a live session, for the session's own tenant or none, and with
/// a stream sequence number that was not acknowledged.
pub proof fn law_admitted_is_vetted(rt: RuntimeView, h: ParsedHeader)
    requires
        routing(rt, h).is_admitted(),
    ensures
        rt.sessions.contains_key(h.session_id),
        h.tenant_id == TenantId(0) || h.tenant_id == rt.sessions[h.session_id].tenant_id,
        h.stream_seq >= rt.sessions[h.session_id].stream_seq_floor,
        class_of(h.opcode) != OpcodeClass::Unknown,
        gate_verdict(
            row_of(rt.auth, h.partition_id, class_of(h.opcode)),
            class_of(h.opcode),
            LatticeClass::bottom(),
            acting_policy(rt.domains, h.session_id),
        ).is_allowed(),
{
}

/// A record that is not admitted leaves sessions, paths, domains, gates and pressure untouched.
pub proof fn law_rejection_changes_only_telemetry(rt: RuntimeView, h: ParsedHeader)
    requires
        !routing(rt, h).is_admitted(),
    ensures
        after_routing(rt, h) == (RuntimeView { telemetry: after_routing(rt, h).telemetry, ..rt }),
{
}

/// What routing decides does not depend on telemetry, paths, topology or trusted keys.
pub proof fn law_routing_depends_on_the_tables_alone(a: RuntimeView, b: RuntimeView, h: ParsedHeader)
    requires
        a.sessions == b.sessions,
        a.domains == b.domains,
        a.auth == b.auth,
        a.admission == b.admission,
        a.pressure == b.pressure,
    ensures
        routing(a, h) == routing(b, h),
{
}

/// A demand on a registered partition that passes the authority gate is admitted under any
/// pressure.
pub proof fn law_demand_is_never_shed(rt: RuntimeView, h: ParsedHeader)
    requires
        class_of(h.opcode) == OpcodeClass::Demand,
        rt.sessions.contains_key(h.session_id),
        h.tenant_id == TenantId(0) || h.tenant_id == rt.sessions[h.session_id].tenant_id,
        seq_valid(rt.sessions, h.session_id, h.stream_seq),
        rt.domains.partitions.contains_key(h.partition_id),
        gate_verdict(
            row_of(rt.auth, h.partition_id, OpcodeClass::Demand),
            OpcodeClass::Demand,
            LatticeClass::bottom(),
            acting_policy(rt.domains, h.session_id),
        ).is_allowed(),
    ensures
        routing(rt, h) == (RouteOutcome::Admitted { opcode_class: OpcodeClass::Demand }),
{
}

/// Admitting a record does not change what is decided on the next one of the same stream: only
/// acknowledgements move the floor.
pub proof fn law_routing_is_repeatable(rt: RuntimeView, h: ParsedHeader, next: ParsedHeader)
    ensures
        routing(after_routing(rt, h), next) == routing(rt, next),
{
}

/// A session's record, once admitted, ends its run of quiescent epochs and never sets its last
/// activity back.
pub proof fn law_activity_is_recorded(rt: RuntimeView, h: ParsedHeader)
    requires
        routing(rt, h).is_admitted(),
    ensures
        ({
            let before = rt.sessions[h.session_id];
            let after = after_routing(rt, h).sessions[h.session_id];
            &&& after.consecutive_quiescent_epochs == 0
            &&& after.last_active_causal_epoch >= before.last_active_causal_epoch
            &&& after.last_active_causal_epoch >= h.causal_epoch
            &&& after.stream_seq_floor == before.stream_seq_floor
        }),
{
}

/// A health report is emitted exactly when the health changes, and the topology holds the latest
/// report.
pub proof fn law_health_transitions(rt: RuntimeView, id: ShardId, pressure: ShardPressure)
    ensures
        health_in(with_pressure(rt, id, pressure).topology, id) == health_of(pressure),
        pressure_on(with_pressure(rt, id, pressure).pressure, id) == pressure,
        health_in(rt.topology, id) == health_of(pressure) ==> with_pressure(
            rt,
            id,
            pressure,
        ).telemetry == rt.telemetry,
        health_in(rt.topology, id) != health_of(pressure) ==> with_pressure(
            rt,
            id,
            pressure,
        ).telemetry == emitted(
            rt.telemetry,
            TelemetryEventView::TopologyHealthChanged {
                shard_id: id,
                old_health: health_in(rt.topology, id),
                new_health: health_of(pressure),
            },
        ),
        with_pressure(with_pressure(rt, id, pressure), id, pressure).telemetry == with_pressure(
            rt,
            id,
            pressure,
        ).telemetry,
{
}

} // verus!
