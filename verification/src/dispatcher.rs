//! The driver of a stream: from wire bytes to engine shards and back.
//!
//! The engines themselves belong to the host. Processing a record ends either with an outcome or
//! with an instruction for a shard; the host applies the instruction, and completing the record
//! with the engine's report takes the consequences into the runtime's tables.
//!
//! ```text
//! process_preamble
//! per record: process_record -> Apply(pending) -> host applies -> complete_record
//! ```

use vstd::prelude::*;

use crate::admission::{ShardPressure, no_pressure};
use crate::auth::{
    AuthTableKey, AuthorityPolicy, PartitionAuthRow, gate_verdict,
    law_bounds_are_a_partial_order, law_gate_is_permissive_by_default, law_intersection_algebra,
    row_of,
};
use crate::decode::{
    DecoderView, IngressError, PreambleError, RecordAction, StreamDecoder, StreamPreamble,
    after_decoding, after_preamble, decoding, fresh_decoder, header_in,
    law_profile_scopes_the_session, payload_grant, preamble_answer, profile_in, with_grant,
};
use crate::dispatch::{DispatchError, EngineError, parse_payload, wire_to_uid};
use crate::domain::{
    Domains, PartitionDomain, SessionDomain, SessionQuota, ShardFabricAddr, addr_of,
    default_session_quota, tenant_policy,
};
use crate::encode::partition_id_to_wire;
use crate::grammar::{op_in, wire_id};
use crate::idmap::{IdMap, Key, ascending};
use crate::isa::{
    AuthorityMode, CapabilityBits, DepKind, DepKindView, IsaOp, IsaOpView, LatticeClass, Uid,
};
use crate::{PathId, SessionId, ShardId, TenantId, WirePartitionId};
use crate::opcode::{OpcodeClass, class_of};
use crate::profile::signature_verdict;
use crate::runtime::{
    ParsedHeader, RejectionReason, RouteOutcome, RuntimeView, SessionRuntime, acting_policy,
    after_routing, empty_runtime, routing, target_shard, with_event, with_pressure,
};
use crate::session::{
    PathEntry, PathState, SessionEntry, migrated_paths, migrated_session, seq_valid,
    session_of_path,
};
use crate::telemetry::TelemetryEventView;
use crate::topology::{
    HEALTH_POS, first_healthy, health_in, is_first_healthy, is_nearest,
    law_placement_avoids_unhealthy, law_placement_is_deterministic, nearest_shard,
};

verus! {

/// Counters of an engine.
#[derive(Clone, Copy, Debug, PartialEq, Eq, Structural)]
pub struct EngineStats {
    /// The deepest that the propagation queue has been.
    pub max_queue_depth: usize,
    /// Nodes materialized.
    pub nodes_materialized: u64,
}

/// The counters of an engine that has done nothing.
pub open spec fn idle_stats() -> EngineStats {
    EngineStats { max_queue_depth: 0, nodes_materialized: 0 }
}

/// What an engine reports after it was given an instruction: the events or the failure, and its
/// counters from then on.
#[derive(Debug)]
pub struct EngineReport<E> {
    pub outcome: Result<Vec<E>, EngineError>,
    pub stats: EngineStats,
}

/// What became of a record.
#[derive(Clone, Debug)]
pub enum DispatchOutcome<E> {
    /// It was applied on a shard, which produced these events.
    Applied { shard_id: ShardId, events: Vec<E> },
    /// It was a session profile, and the session stands.
    Bootstrapped { session_id: SessionId },
    /// Its opcode is not known.
    Skipped,
    /// Routing rejected it.
    Rejected(RejectionReason),
}

/// An instruction that waits to be applied on a shard.
#[derive(Clone, Debug)]
pub struct PendingApply {
    pub header: ParsedHeader,
    pub opcode_class: OpcodeClass,
    pub shard_id: ShardId,
    pub op: IsaOp,
}

/// What processing a record came to.
#[derive(Clone, Debug)]
pub enum DispatchStep {
    /// The instruction is to be applied, and the record completed with the engine's report.
    Apply(PendingApply),
    Bootstrapped { session_id: SessionId },
    Skipped,
    Rejected(RejectionReason),
}

/// The mathematical content of a [`PendingApply`].
pub struct PendingView {
    pub header: ParsedHeader,
    pub opcode_class: OpcodeClass,
    pub shard_id: ShardId,
    pub op: IsaOpView,
}

/// The mathematical content of a [`DispatchStep`].
pub enum StepView {
    Apply(PendingView),
    Bootstrapped { session_id: SessionId },
    Skipped,
    Rejected(RejectionReason),
}

impl View for PendingApply {
    type V = PendingView;

    open spec fn view(&self) -> PendingView {
        PendingView {
            header: self.header,
            opcode_class: self.opcode_class,
            shard_id: self.shard_id,
            op: self.op@,
        }
    }
}

impl View for DispatchStep {
    type V = StepView;

    open spec fn view(&self) -> StepView {
        match *self {
            DispatchStep::Apply(pending) => StepView::Apply(pending@),
            DispatchStep::Bootstrapped { session_id } => StepView::Bootstrapped { session_id },
            DispatchStep::Skipped => StepView::Skipped,
            DispatchStep::Rejected(reason) => StepView::Rejected(reason),
        }
    }
}

/// A step, by its content.
pub open spec fn stepped(r: Result<DispatchStep, DispatchError>) -> Result<StepView, DispatchError> {
    match r {
        Ok(step) => Ok(step@),
        Err(e) => Err(e),
    }
}

// ── Engines ──────────────────────────────────────────────────────────────────

/// What is known of the engines: the counters of each shard's, and how often each partition came
/// to rest since it was last woken.
pub struct EnginePool {
    engines: IdMap<ShardId, EngineStats>,
    stabilize_count: IdMap<WirePartitionId, u32>,
}

/// The mathematical content of an [`EnginePool`].
pub struct PoolView {
    pub engines: Map<ShardId, EngineStats>,
    pub stabilize_count: Map<WirePartitionId, u32>,
}

impl View for EnginePool {
    type V = PoolView;

    closed spec fn view(&self) -> PoolView {
        PoolView { engines: self.engines@, stabilize_count: self.stabilize_count@ }
    }
}

/// A pool without engines.
pub open spec fn empty_pool() -> PoolView {
    PoolView { engines: Map::empty(), stabilize_count: Map::empty() }
}

/// How often a partition came to rest since it was last woken.
pub open spec fn epochs_at_rest(pool: PoolView, id: WirePartitionId) -> u32 {
    if pool.stabilize_count.contains_key(id) {
        pool.stabilize_count[id]
    } else {
        0
    }
}

/// One epoch at rest more, as far as a `u32` counts.
pub open spec fn one_more_epoch(pool: PoolView, id: WirePartitionId) -> u32 {
    if epochs_at_rest(pool, id) < u32::MAX {
        (epochs_at_rest(pool, id) + 1) as u32
    } else {
        u32::MAX
    }
}

/// The pressure that counters show.
pub open spec fn stats_pressure(stats: EngineStats) -> ShardPressure {
    ShardPressure {
        queue_depth: (stats.max_queue_depth as int % 0x1_0000_0000) as u32,
        cursor_count: 0,
        budget_consumed: stats.nodes_materialized,
    }
}

/// The pressure on a shard's engine, none where there is no engine.
pub open spec fn engine_pressure(pool: PoolView, id: ShardId) -> ShardPressure {
    if pool.engines.contains_key(id) {
        stats_pressure(pool.engines[id])
    } else {
        no_pressure()
    }
}

impl Default for EnginePool {
    fn default() -> (pool: Self)
        ensures
            pool@ == empty_pool(),
    {
        EnginePool { engines: IdMap::new(), stabilize_count: IdMap::new() }
    }
}

impl EnginePool {
    pub fn new() -> (pool: Self)
        ensures
            pool@ == empty_pool(),
    {
        EnginePool::default()
    }

    /// The counters of a shard's engine, which is there from now on.
    pub fn get_or_insert(&mut self, shard_id: ShardId) -> (stats: &mut EngineStats)
        ensures
            *stats == (if old(self)@.engines.contains_key(shard_id) {
                old(self)@.engines[shard_id]
            } else {
                idle_stats()
            }),
            final(self)@ == (PoolView {
                engines: old(self)@.engines.insert(shard_id, *final(stats)),
                ..old(self)@
            }),
    {
        let ghost before = self.engines@;
        if !self.engines.contains_key(&shard_id) {
            let _ = self.engines.insert(
                shard_id,
                EngineStats { max_queue_depth: 0, nodes_materialized: 0 },
            );
        }
        proof {
            assert forall|v: EngineStats| #[trigger] self.engines@.insert(shard_id, v)
                == before.insert(shard_id, v) by {
                assert(self.engines@.insert(shard_id, v) =~= before.insert(shard_id, v));
            }
        }
        self.engines.get_mut(&shard_id).unwrap()
    }

    /// Takes in what the engine of a shard reported of an instruction.
    pub fn apply<E>(&mut self, shard_id: ShardId, report: EngineReport<E>) -> (r: Result<
        Vec<E>,
        DispatchError,
    >)
        ensures
            final(self)@ == (PoolView {
                engines: old(self)@.engines.insert(shard_id, report.stats),
                ..old(self)@
            }),
            r == (match report.outcome {
                Ok(events) => Ok(events),
                Err(e) => Err(DispatchError::Engine(e)),
            }),
    {
        let stats = self.get_or_insert(shard_id);
        *stats = report.stats;
        match report.outcome {
            Ok(events) => Ok(events),
            Err(e) => Err(DispatchError::Engine(e)),
        }
    }

    /// Counts that a partition came to rest. Gives the count.
    pub fn record_stabilize_complete(&mut self, partition_id: WirePartitionId) -> (count: u32)
        ensures
            count == one_more_epoch(old(self)@, partition_id),
            final(self)@ == (PoolView {
                stabilize_count: old(self)@.stabilize_count.insert(partition_id, count),
                ..old(self)@
            }),
    {
        let count: u32 = self.stabilize_epochs(partition_id).saturating_add(1);
        let _ = self.stabilize_count.insert(partition_id, count);
        count
    }

    /// Notes that a partition was woken: the count starts anew.
    pub fn record_region_wake(&mut self, partition_id: WirePartitionId)
        ensures
            final(self)@ == (PoolView {
                stabilize_count: old(self)@.stabilize_count.remove(partition_id),
                ..old(self)@
            }),
    {
        let _ = self.stabilize_count.remove(&partition_id);
    }

    /// How often a partition came to rest since it was last woken.
    pub fn stabilize_epochs(&self, partition_id: WirePartitionId) -> (count: u32)
        ensures
            count == epochs_at_rest(self@, partition_id),
    {
        match self.stabilize_count.get(&partition_id) {
            Some(count) => *count,
            None => 0,
        }
    }

    /// The pressure on a shard's engine, by its counters.
    pub fn pressure_snapshot(&self, shard_id: ShardId) -> (pressure: ShardPressure)
        ensures
            pressure == engine_pressure(self@, shard_id),
    {
        match self.engines.get(&shard_id) {
            Some(stats) => ShardPressure {
                queue_depth: (stats.max_queue_depth as u64 % 0x1_0000_0000) as u32,
                cursor_count: 0,
                budget_consumed: stats.nodes_materialized,
            },
            None => ShardPressure::default(),
        }
    }

    /// The number of shards that have an engine.
    pub fn shard_count(&self) -> (n: usize)
        ensures
            n == self@.engines.dom().len(),
    {
        self.engines.len()
    }
}

// ── Placement ────────────────────────────────────────────────────────────────

/// `key` is the partition of `session` with the lowest identity.
pub open spec fn is_first_partition(
    partitions: Map<WirePartitionId, PartitionDomain>,
    session: SessionId,
    key: WirePartitionId,
) -> bool {
    &&& partitions.contains_key(key) && partitions[key].session_id == session
    &&& forall|k: WirePartitionId| #[trigger]
        partitions.contains_key(k) && partitions[k].session_id == session ==> key.0 <= k.0
}

/// Where the first partition of `session` is placed, as far as that is known.
pub open spec fn locality_hint(domains: Domains, session: SessionId) -> Option<ShardFabricAddr> {
    if exists|k: WirePartitionId| is_first_partition(domains.partitions, session, k) {
        let key = choose|k: WirePartitionId| is_first_partition(domains.partitions, session, k);
        addr_of(domains.shards, domains.partitions[key].shard_id)
    } else {
        None
    }
}

/// The shard that a new partition of `session` is placed on: the healthy one nearest to the
/// session's first partition, else the first healthy one, else shard 0.
pub open spec fn placement(rt: RuntimeView, session: SessionId) -> ShardId {
    let near = match locality_hint(rt.domains, session) {
        Some(addr) => nearest_shard(rt.topology, rt.domains.shards, addr),
        None => None,
    };
    match near {
        Some(best) => best,
        None => match first_healthy(rt.topology) {
            Some(first) => first,
            None => ShardId(0),
        },
    }
}

// ── Profiles ─────────────────────────────────────────────────────────────────

/// The acknowledged sequence number of a session's active path.
pub open spec fn active_ack(rt: RuntimeView, s: SessionEntry) -> u64 {
    match s.active_path_id {
        Some(p) => if rt.paths.contains_key(p) {
            rt.paths[p].last_ack_stream_seq
        } else {
            0
        },
        None => 0,
    }
}

/// The runtime after a profile arrived on `path`, before it is verified: a new session is set up
/// without any authority, a known one moves to the path.
pub open spec fn with_session_on_path(rt: RuntimeView, path: PathId, h: ParsedHeader) -> RuntimeView {
    if rt.sessions.contains_key(h.session_id) {
        let s = rt.sessions[h.session_id];
        RuntimeView {
            sessions: rt.sessions.insert(h.session_id, migrated_session(s, path)),
            paths: migrated_paths(rt.paths, s, h.session_id, path, active_ack(rt, s)),
            ..rt
        }
    } else {
        RuntimeView {
            sessions: rt.sessions.insert(
                h.session_id,
                SessionEntry {
                    session_id: h.session_id,
                    tenant_id: TenantId(0),
                    active_path_id: Some(path),
                    prev_path_id: None,
                    stream_seq_floor: h.stream_seq,
                    auth_mode: AuthorityMode::Advisory,
                    last_active_causal_epoch: 0,
                    consecutive_quiescent_epochs: 0,
                },
            ),
            paths: rt.paths.insert(
                path,
                PathEntry {
                    path_id: path,
                    session_id: h.session_id,
                    last_ack_stream_seq: h.stream_seq,
                    state: PathState::Active,
                },
            ),
            domains: Domains {
                sessions: rt.domains.sessions.insert(
                    h.session_id,
                    SessionDomain {
                        id: h.session_id,
                        tenant_id: TenantId(0),
                        claimed_caps: CapabilityBits::none(),
                        claimed_policy: AuthorityPolicy::none(),
                        auth_mode: AuthorityMode::Advisory,
                        quota: default_session_quota(),
                    },
                ),
                ..rt.domains
            },
            ..rt
        }
    }
}

/// The runtime after a profile.
pub open spec fn after_profile(rt: RuntimeView, path: PathId, h: ParsedHeader, payload: Seq<u8>) -> RuntimeView {
    let set_up = with_session_on_path(rt, path, h);
    RuntimeView {
        domains: with_grant(set_up.domains, h.session_id, payload_grant(set_up, h, payload)),
        ..set_up
    }
}

/// What a profile comes to.
pub open spec fn profile_step(rt: RuntimeView, path: PathId, h: ParsedHeader, payload: Seq<u8>) -> Result<
    StepView,
    DispatchError,
> {
    match payload_grant(with_session_on_path(rt, path, h), h, payload) {
        Ok(_) => Ok(StepView::Bootstrapped { session_id: h.session_id }),
        Err(e) => Err(DispatchError::Ingress(e)),
    }
}

// ── Instructions ─────────────────────────────────────────────────────────────

/// The scope bits that an instruction would disclose across partitions, 0 for none.
pub open spec fn disclosed_scope(op: IsaOpView) -> u64 {
    match op {
        IsaOpView::EdgeConnect { dep: DepKindView::Remote(remote), .. } =>
            remote.causal_scope.scope_bits,
        IsaOpView::SetEdgeLabel { label, .. } => label.causal_scope.scope_bits,
        _ => 0,
    }
}

/// The shard that an admitted instruction goes to.
pub open spec fn shard_of(rt: RuntimeView, partition: WirePartitionId) -> ShardId {
    if rt.domains.partitions.contains_key(partition) {
        rt.domains.partitions[partition].shard_id
    } else {
        ShardId(0)
    }
}

/// What an admitted record comes to: its instruction for its shard, unless it does not parse or
/// discloses more than the session may.
pub open spec fn admitted_step(
    rt: RuntimeView,
    h: ParsedHeader,
    class: OpcodeClass,
    payload: Seq<u8>,
) -> Result<StepView, DispatchError> {
    match op_in(h.opcode, payload) {
        Err(e) => Err(e),
        Ok(op) => {
            let required = disclosed_scope(op);
            let held = acting_policy(rt.domains, h.session_id).disclosure;
            if required != 0 && held & required != required {
                Err(DispatchError::DisclosureViolation { required, held })
            } else {
                Ok(
                    StepView::Apply(
                        PendingView {
                            header: h,
                            opcode_class: class,
                            shard_id: shard_of(rt, h.partition_id),
                            op,
                        },
                    ),
                )
            }
        },
    }
}

/// The rows of a new partition: nothing is asked for.
pub open spec fn with_permissive_rows(
    auth: Map<AuthTableKey, PartitionAuthRow>,
    id: WirePartitionId,
) -> Map<AuthTableKey, PartitionAuthRow> {
    let row = PartitionAuthRow::permissive();
    auth.insert(AuthTableKey { partition_id: id, opcode_class: OpcodeClass::Control }, row).insert(
        AuthTableKey { partition_id: id, opcode_class: OpcodeClass::SetValue },
        row,
    ).insert(AuthTableKey { partition_id: id, opcode_class: OpcodeClass::Propagate }, row).insert(
        AuthTableKey { partition_id: id, opcode_class: OpcodeClass::Demand },
        row,
    ).insert(AuthTableKey { partition_id: id, opcode_class: OpcodeClass::Stabilize }, row).insert(
        AuthTableKey { partition_id: id, opcode_class: OpcodeClass::Data },
        row,
    ).insert(AuthTableKey { partition_id: id, opcode_class: OpcodeClass::Subscribe }, row)
}

/// The runtime after an instruction took effect on the partitions: a new one is placed and opened,
/// a known one gets the new class and scope.
pub open spec fn with_feedback(rt: RuntimeView, h: ParsedHeader, op: IsaOpView) -> RuntimeView {
    match op {
        IsaOpView::PartitionCreate { id, lattice_class, causal_domain, .. } => {
            let wire = WirePartitionId(wire_id(id.0));
            RuntimeView {
                domains: Domains {
                    partitions: rt.domains.partitions.insert(
                        wire,
                        PartitionDomain {
                            id: wire,
                            session_id: h.session_id,
                            lattice_class,
                            causal_scope: causal_domain.scope_bits,
                            shard_id: placement(rt, h.session_id),
                        },
                    ),
                    ..rt.domains
                },
                auth: with_permissive_rows(rt.auth, wire),
                ..rt
            }
        },
        IsaOpView::SetPartitionAuthority { partition, lattice_class, causal_domain } => {
            let wire = WirePartitionId(wire_id(partition.0));
            if rt.domains.partitions.contains_key(wire) {
                RuntimeView {
                    domains: Domains {
                        partitions: rt.domains.partitions.insert(
                            wire,
                            PartitionDomain {
                                lattice_class,
                                causal_scope: causal_domain.scope_bits,
                                ..rt.domains.partitions[wire]
                            },
                        ),
                        ..rt.domains
                    },
                    ..rt
                }
            } else {
                rt
            }
        },
        _ => rt,
    }
}

/// The node that a region at rest is known by: the first one named, or one that stands for the
/// whole partition.
pub open spec fn region_root(region: Option<Seq<Uid>>, partition: WirePartitionId) -> Uid {
    match region {
        Some(ids) => if ids.len() > 0 {
            ids[0]
        } else {
            Uid(partition.0 as u128)
        },
        None => Uid(partition.0 as u128),
    }
}

// ── The dispatcher ───────────────────────────────────────────────────────────

/// The driver of a stream.
///
/// The caller frames the bytes: 32 for the preamble, then for each record 48 for the header and
/// as many as its length says for the payload.
pub struct Dispatcher {
    pub decoder: StreamDecoder,
    pub runtime: SessionRuntime,
    pub shards: EnginePool,
}

/// The mathematical content of a [`Dispatcher`].
pub struct DispatcherView {
    pub decoder: DecoderView,
    pub runtime: RuntimeView,
    pub shards: PoolView,
}

impl View for Dispatcher {
    type V = DispatcherView;

    open spec fn view(&self) -> DispatcherView {
        DispatcherView {
            decoder: self.decoder@,
            runtime: self.runtime@,
            shards: self.shards@,
        }
    }
}

/// The path of the stream.
pub open spec fn stream_path(d: DecoderView) -> PathId {
    match d.preamble {
        Some(preamble) => preamble.path_id,
        None => PathId(0),
    }
}

/// What a record comes to.
pub open spec fn step_for(d: DispatcherView, h: ParsedHeader, payload: Seq<u8>) -> Result<
    StepView,
    DispatchError,
> {
    match decoding(d.decoder, h) {
        Err(e) => Err(DispatchError::Ingress(e)),
        Ok(RecordAction::SkipPayload { .. }) => Ok(StepView::Skipped),
        Ok(RecordAction::ReadProfile { .. }) => profile_step(
            d.runtime,
            stream_path(d.decoder),
            h,
            payload,
        ),
        Ok(RecordAction::RouteReady(_)) => match routing(d.runtime, h) {
            RouteOutcome::Rejected(reason) => Ok(StepView::Rejected(reason)),
            RouteOutcome::Admitted { opcode_class } => admitted_step(
                d.runtime,
                h,
                opcode_class,
                payload,
            ),
        },
    }
}

/// The dispatcher after a record, before its instruction is applied.
pub open spec fn after_step(d: DispatcherView, h: ParsedHeader, payload: Seq<u8>) -> DispatcherView {
    DispatcherView {
        decoder: after_decoding(d.decoder, h),
        runtime: match decoding(d.decoder, h) {
            Ok(RecordAction::ReadProfile { .. }) => after_profile(
                d.runtime,
                stream_path(d.decoder),
                h,
                payload,
            ),
            Ok(RecordAction::RouteReady(_)) => after_routing(d.runtime, h),
            _ => d.runtime,
        },
        ..d
    }
}

/// The dispatcher after the engine applied an instruction and stood at `stats`: the pressure is
/// taken in, a control instruction takes effect on the partitions, and a stabilization counts as
/// an epoch at rest, which any other instruction ends.
pub open spec fn after_apply(d: DispatcherView, p: PendingView, stats: EngineStats) -> DispatcherView {
    let partition = p.header.partition_id;
    let engines = d.shards.engines.insert(p.shard_id, stats);
    let loaded = with_pressure(d.runtime, p.shard_id, stats_pressure(stats));
    let fed = if p.opcode_class == OpcodeClass::Control {
        with_feedback(loaded, p.header, p.op)
    } else {
        loaded
    };
    match p.op {
        IsaOpView::Stabilize { region } => {
            let epochs = one_more_epoch(d.shards, partition);
            DispatcherView {
                runtime: with_event(
                    fed,
                    TelemetryEventView::RegionQuiescent {
                        region_root: region_root(region, partition),
                        partition_id: partition,
                        quiescent: true,
                        quiescent_epochs: epochs,
                    },
                ),
                shards: PoolView {
                    engines,
                    stabilize_count: d.shards.stabilize_count.insert(partition, epochs),
                },
                ..d
            }
        },
        _ => DispatcherView {
            runtime: fed,
            shards: PoolView {
                engines,
                stabilize_count: d.shards.stabilize_count.remove(partition),
            },
            ..d
        },
    }
}

/// The dispatcher after the engine failed on an instruction and stood at `stats`.
pub open spec fn after_failure(d: DispatcherView, p: PendingView, stats: EngineStats) -> DispatcherView {
    DispatcherView {
        shards: PoolView { engines: d.shards.engines.insert(p.shard_id, stats), ..d.shards },
        ..d
    }
}

impl Default for Dispatcher {
    fn default() -> (dispatcher: Self)
        ensures
            dispatcher@ == (DispatcherView {
                decoder: fresh_decoder(),
                runtime: empty_runtime(),
                shards: empty_pool(),
            }),
    {
        Dispatcher::new()
    }
}

impl Dispatcher {
    pub fn new() -> (dispatcher: Self)
        ensures
            dispatcher@ == (DispatcherView {
                decoder: fresh_decoder(),
                runtime: empty_runtime(),
                shards: empty_pool(),
            }),
    {
        Dispatcher {
            decoder: StreamDecoder::new(),
            runtime: SessionRuntime::new(),
            shards: EnginePool::new(),
        }
    }

    /// Decodes the preamble of the stream. Comes before any record.
    pub fn process_preamble(&mut self, buf: &[u8; 32]) -> (r: Result<&StreamPreamble, DispatchError>)
        ensures
            match preamble_answer(buf@) {
                Ok(preamble) => r == Ok::<_, DispatchError>(&preamble),
                Err(PreambleError::BadMagic) => r matches Err(
                    DispatchError::Ingress(IngressError::BadMagic(m)),
                ) && m@ == buf@.take(4),
                Err(PreambleError::UnsupportedVersion(v)) => r == Err::<&StreamPreamble, _>(
                    DispatchError::Ingress(IngressError::UnsupportedVersion(v)),
                ),
            },
            final(self)@ == (DispatcherView {
                decoder: after_preamble(old(self)@.decoder, buf@),
                ..old(self)@
            }),
    {
        match self.decoder.decode_preamble(buf) {
            Ok(preamble) => Ok(preamble),
            Err(e) => Err(DispatchError::Ingress(e)),
        }
    }

    /// Processes a record up to the point where an engine is needed.
    ///
    /// After an error the stream is in no known state, and the connection should be dropped.
    pub fn process_record(&mut self, header_buf: &[u8; 48], payload: &[u8]) -> (r: Result<
        DispatchStep,
        DispatchError,
    >)
        ensures
            stepped(r) == step_for(old(self)@, header_in(header_buf@), payload@),
            final(self)@ == after_step(old(self)@, header_in(header_buf@), payload@),
            r matches Ok(DispatchStep::Apply(pending)) ==> pending.op.wf(),
    {
        let action = match self.decoder.decode_record(header_buf, &self.runtime) {
            Ok(action) => action,
            Err(e) => return Err(DispatchError::Ingress(e)),
        };
        match action {
            RecordAction::SkipPayload { .. } => Ok(DispatchStep::Skipped),
            RecordAction::ReadProfile { header, .. } => self.handle_profile(&header, payload),
            RecordAction::RouteReady(header) => {
                match self.runtime.route_record(&header) {
                    RouteOutcome::Rejected(reason) => Ok(DispatchStep::Rejected(reason)),
                    RouteOutcome::Admitted { opcode_class } => {
                        self.handle_admitted(&header, opcode_class, payload)
                    },
                }
            },
        }
    }

    /// Completes a record with the report of the engine that was given its instruction.
    pub fn complete_record<E>(&mut self, pending: PendingApply, report: EngineReport<E>) -> (r: Result<
        DispatchOutcome<E>,
        DispatchError,
    >)
        ensures
            r == (match report.outcome {
                Ok(events) => Ok(DispatchOutcome::Applied { shard_id: pending.shard_id, events }),
                Err(e) => Err(DispatchError::Engine(e)),
            }),
            final(self)@ == (if report.outcome is Ok {
                after_apply(old(self)@, pending@, report.stats)
            } else {
                after_failure(old(self)@, pending@, report.stats)
            }),
    {
        let shard_id = pending.shard_id;
        let partition_id = pending.header.partition_id;
        let events = self.shards.apply(shard_id, report)?;
        let pressure = self.shards.pressure_snapshot(shard_id);
        self.runtime.update_pressure(shard_id, pressure);
        if let OpcodeClass::Control = pending.opcode_class {
            self.feedback_control_op(&pending.header, &pending.op);
        }
        if let IsaOp::Stabilize { region } = &pending.op {
            let root = match region {
                Some(ids) => {
                    if ids.len() > 0 {
                        ids[0]
                    } else {
                        wire_to_uid(partition_id.0)
                    }
                },
                None => wire_to_uid(partition_id.0),
            };
            let epochs: u32 = self.shards.record_stabilize_complete(partition_id);
            self.runtime.notify_region_quiescent(root, partition_id, true, epochs);
        } else {
            self.shards.record_region_wake(partition_id);
        }
        Ok(DispatchOutcome::Applied { shard_id, events })
    }

    /// The shard that a new partition of a session is placed on.
    pub fn pick_shard_for(&self, session_id: SessionId) -> (shard: ShardId)
        ensures
            shard == placement(self@.runtime, session_id),
    {
        if let Some(addr) = self.locality_hint(session_id) {
            if let Some(best) = self.runtime.topology.best_shard_for(&addr, &self.runtime.domains) {
                return best;
            }
        }
        if let Some(first) = self.runtime.topology.any_healthy_shard() {
            return first;
        }
        ShardId(0)
    }

    fn locality_hint(&self, session_id: SessionId) -> (hint: Option<ShardFabricAddr>)
        ensures
            hint == locality_hint(self@.runtime.domains, session_id),
    {
        let ghost partitions = self.runtime.domains.partitions@;
        let keys = self.runtime.domains.partitions.keys();
        let mut i: usize = 0;
        while i < keys.len()
            invariant
                i <= keys@.len(),
                partitions == self.runtime.domains.partitions@,
                ascending(keys@),
                keys@.to_set() == partitions.dom(),
                forall|j: int|
                    0 <= j < i ==> partitions[#[trigger] keys@[j]].session_id != session_id,
            decreases keys@.len() - i,
        {
            let key = keys[i];
            proof {
                assert(keys@.to_set().contains(keys@[i as int]));
            }
            if let Some(partition) = self.runtime.domains.partitions.get(&key) {
                if partition.session_id == session_id {
                    proof {
                        assert forall|k: WirePartitionId| #[trigger]
                            partitions.contains_key(k) && partitions[k].session_id
                                == session_id implies key.0 <= k.0 by {
                            assert(keys@.to_set().contains(k));
                            let j = choose|j: int| 0 <= j < keys@.len() && keys@[j] == k;
                            if i < j {
                                assert(keys@[i as int].code() < keys@[j].code());
                            }
                        }
                        assert(is_first_partition(partitions, session_id, key));
                        let other = choose|k: WirePartitionId|
                            is_first_partition(partitions, session_id, k);
                        assert(is_first_partition(partitions, session_id, other));
                        assert(partitions.contains_key(other) && partitions.contains_key(key));
                        assert(other == key);
                    }
                    return match self.runtime.domains.shards.get(&partition.shard_id) {
                        Some(shard) => shard.fabric_addr,
                        None => None,
                    };
                }
            }
            i = i + 1;
        }
        proof {
            assert forall|k: WirePartitionId| !is_first_partition(partitions, session_id, k) by {
                if partitions.contains_key(k) {
                    assert(keys@.to_set().contains(k));
                    let j = choose|j: int| 0 <= j < keys@.len() && keys@[j] == k;
                    assert(partitions[keys@[j]].session_id != session_id);
                }
            }
        }
        None
    }

    /// Sets up the session of a profile that arrived on `path`, or moves it there.
    pub fn open_session(&mut self, header: &ParsedHeader, path: PathId)
        ensures
            final(self)@ == (DispatcherView {
                runtime: with_session_on_path(old(self)@.runtime, path, *header),
                ..old(self)@
            }),
    {
        let session_id = header.session_id;
        let active = match self.runtime.sessions.get(session_id) {
            Some(session) => Some(session.active_path_id),
            None => None,
        };
        match active {
            None => {
                let tenant_id = TenantId(0);
                let auth_mode = AuthorityMode::Advisory;
                self.runtime.sessions.create(
                    SessionEntry {
                        session_id,
                        tenant_id,
                        active_path_id: Some(path),
                        prev_path_id: None,
                        stream_seq_floor: header.stream_seq,
                        auth_mode,
                        last_active_causal_epoch: 0,
                        consecutive_quiescent_epochs: 0,
                    },
                );
                self.runtime.paths.create(
                    PathEntry {
                        path_id: path,
                        session_id,
                        last_ack_stream_seq: header.stream_seq,
                        state: PathState::Active,
                    },
                );
                self.runtime.domains.register_session(
                    SessionDomain {
                        id: session_id,
                        tenant_id,
                        claimed_caps: CapabilityBits::none(),
                        claimed_policy: AuthorityPolicy::none(),
                        auth_mode,
                        quota: SessionQuota::default(),
                    },
                );
            },
            Some(active_path) => {
                let last_ack: u64 = match active_path {
                    Some(old_path) => {
                        match self.runtime.paths.get(old_path) {
                            Some(entry) => entry.last_ack_stream_seq,
                            None => 0,
                        }
                    },
                    None => 0,
                };
                let _ = self.runtime.sessions.migrate_path(
                    session_id,
                    path,
                    last_ack,
                    &mut self.runtime.paths,
                );
            },
        }
    }

    fn handle_profile(&mut self, header: &ParsedHeader, payload: &[u8]) -> (r: Result<
        DispatchStep,
        DispatchError,
    >)
        ensures
            stepped(r) == profile_step(
                old(self)@.runtime,
                stream_path(old(self)@.decoder),
                *header,
                payload@,
            ),
            r is Ok ==> !(r->Ok_0 is Apply),
            final(self)@ == (DispatcherView {
                runtime: after_profile(
                    old(self)@.runtime,
                    stream_path(old(self)@.decoder),
                    *header,
                    payload@,
                ),
                ..old(self)@
            }),
    {
        let path = match self.decoder.preamble() {
            Some(preamble) => preamble.path_id,
            None => PathId(0),
        };
        self.open_session(header, path);
        match self.decoder.process_profile(header, payload, &mut self.runtime) {
            Ok(_) => Ok(DispatchStep::Bootstrapped { session_id: header.session_id }),
            Err(e) => Err(DispatchError::Ingress(e)),
        }
    }

    fn handle_admitted(&self, header: &ParsedHeader, opcode_class: OpcodeClass, payload: &[u8]) -> (r:
        Result<DispatchStep, DispatchError>)
        ensures
            stepped(r) == admitted_step(self@.runtime, *header, opcode_class, payload@),
            r matches Ok(DispatchStep::Apply(pending)) ==> pending.op.wf(),
    {
        let shard_id = match self.runtime.domains.partitions.get(&header.partition_id) {
            Some(partition) => partition.shard_id,
            None => ShardId(0),
        };
        let op = parse_payload(header.opcode, payload)?;
        let required: u64 = match &op {
            IsaOp::EdgeConnect { dep: DepKind::Remote(remote), .. } => {
                remote.causal_scope.scope_bits
            },
            IsaOp::SetEdgeLabel { label, .. } => label.causal_scope.scope_bits,
            _ => 0,
        };
        if required != 0 {
            let held: u64 = self.runtime.acting_policy(header.session_id).disclosure;
            if held & required != required {
                return Err(DispatchError::DisclosureViolation { required, held });
            }
        }
        Ok(DispatchStep::Apply(PendingApply { header: *header, opcode_class, shard_id, op }))
    }

    /// Lets a control instruction that was applied take effect on the partitions.
    pub fn feedback_control_op(&mut self, header: &ParsedHeader, op: &IsaOp)
        ensures
            final(self)@ == (DispatcherView {
                runtime: with_feedback(old(self)@.runtime, *header, op@),
                ..old(self)@
            }),
    {
        match op {
            IsaOp::PartitionCreate { id, lattice_class, causal_domain, .. } => {
                let wire = WirePartitionId(partition_id_to_wire(*id));
                let shard_id = self.pick_shard_for(header.session_id);
                self.runtime.domains.register_partition(
                    PartitionDomain {
                        id: wire,
                        session_id: header.session_id,
                        lattice_class: *lattice_class,
                        causal_scope: causal_domain.scope_bits,
                        shard_id,
                    },
                );
                self.open_partition(wire);
            },
            IsaOp::SetPartitionAuthority { partition, lattice_class, causal_domain } => {
                let wire = WirePartitionId(partition_id_to_wire(*partition));
                if let Some(domain) = self.runtime.domains.partitions.get_mut(&wire) {
                    domain.lattice_class = *lattice_class;
                    domain.causal_scope = causal_domain.scope_bits;
                }
            },
            _ => {},
        }
    }

    fn open_partition(&mut self, id: WirePartitionId)
        ensures
            final(self)@ == (DispatcherView {
                runtime: RuntimeView {
                    auth: with_permissive_rows(old(self)@.runtime.auth, id),
                    ..old(self)@.runtime
                },
                ..old(self)@
            }),
    {
        self.open_class(id, OpcodeClass::Control);
        self.open_class(id, OpcodeClass::SetValue);
        self.open_class(id, OpcodeClass::Propagate);
        self.open_class(id, OpcodeClass::Demand);
        self.open_class(id, OpcodeClass::Stabilize);
        self.open_class(id, OpcodeClass::Data);
        self.open_class(id, OpcodeClass::Subscribe);
    }

    fn open_class(&mut self, partition_id: WirePartitionId, opcode_class: OpcodeClass)
        ensures
            final(self)@ == (DispatcherView {
                runtime: RuntimeView {
                    auth: old(self)@.runtime.auth.insert(
                        AuthTableKey { partition_id, opcode_class },
                        PartitionAuthRow::permissive(),
                    ),
                    ..old(self)@.runtime
                },
                ..old(self)@
            }),
    {
        self.runtime.auth.install(
            AuthTableKey { partition_id, opcode_class },
            PartitionAuthRow::permissive(),
        );
    }
}

// ── What holds of a stream's records as a whole ──────────────────────────────

/// An instruction that waits to be applied discloses no more than its session may, came in a
/// record that was admitted, and goes to the shard of its partition.
pub proof fn law_pending_is_authorized(d: DispatcherView, h: ParsedHeader, payload: Seq<u8>, p: PendingView)
    requires
        step_for(d, h, payload) == Ok::<StepView, DispatchError>(StepView::Apply(p)),
    ensures
        acting_policy(d.runtime.domains, h.session_id).disclosure & disclosed_scope(p.op)
            == disclosed_scope(p.op),
        decoding(d.decoder, h) == Ok::<RecordAction, IngressError>(RecordAction::RouteReady(h)),
        routing(d.runtime, h) == (RouteOutcome::Admitted { opcode_class: class_of(h.opcode) }),
        op_in(h.opcode, payload) == Ok::<IsaOpView, DispatchError>(p.op),
        p.header == h,
        p.opcode_class == class_of(h.opcode),
        target_shard(d.runtime.domains.partitions, h.partition_id, p.opcode_class) == Some(
            p.shard_id,
        ),
{
    let held = acting_policy(d.runtime.domains, h.session_id).disclosure;
    assert(held & 0u64 == 0u64) by (bit_vector);
}

/// A session that may disclose nothing gets no instruction through that discloses something.
pub proof fn law_disclosure_is_enforced(d: DispatcherView, h: ParsedHeader, payload: Seq<u8>)
    requires
        routing(d.runtime, h).is_admitted(),
        decoding(d.decoder, h) == Ok::<RecordAction, IngressError>(RecordAction::RouteReady(h)),
        op_in(h.opcode, payload) matches Ok(op) && disclosed_scope(op) != 0,
        acting_policy(d.runtime.domains, h.session_id).disclosure == 0,
    ensures
        step_for(d, h, payload) == Err::<StepView, DispatchError>(
            DispatchError::DisclosureViolation {
                required: disclosed_scope(op_in(h.opcode, payload)->Ok_0),
                held: 0,
            },
        ),
{
    let required = disclosed_scope(op_in(h.opcode, payload)->Ok_0);
    assert(0u64 & required == 0u64) by (bit_vector);
}

/// Processing a record never touches the engines; only completing one does.
pub proof fn law_processing_leaves_engines_alone(d: DispatcherView, h: ParsedHeader, payload: Seq<u8>)
    ensures
        after_step(d, h, payload).shards == d.shards,
{
}

/// A record with an opcode that is not known is skipped, and changes nothing but the place in
/// the stream.
pub proof fn law_unknown_opcode_is_skipped(d: DispatcherView, h: ParsedHeader, payload: Seq<u8>)
    requires
        decoding(d.decoder, h) is Ok,
        class_of(h.opcode) == OpcodeClass::Unknown,
    ensures
        step_for(d, h, payload) == Ok::<StepView, DispatchError>(StepView::Skipped),
        after_step(d, h, payload) == (DispatcherView {
            decoder: after_decoding(d.decoder, h),
            ..d
        }),
{
}

/// A record that the decoder objects to, or that routing rejects, changes no session, path,
/// domain or partition gate.
pub proof fn law_refused_record_changes_no_table(d: DispatcherView, h: ParsedHeader, payload: Seq<u8>)
    requires
        decoding(d.decoder, h) is Err || (decoding(d.decoder, h) == Ok::<
            RecordAction,
            IngressError,
        >(RecordAction::RouteReady(h)) && !routing(d.runtime, h).is_admitted()),
    ensures
        after_step(d, h, payload).runtime == (RuntimeView {
            telemetry: after_step(d, h, payload).runtime.telemetry,
            ..d.runtime
        }),
{
}

/// A profile of a session that is not known sets the session up on the stream's path, with its
/// sequence floor at the profile's record. What it may do is bounded by tenant 0, and is nothing
/// where the profile fails.
pub proof fn law_bootstrap(rt: RuntimeView, path: PathId, h: ParsedHeader, payload: Seq<u8>)
    requires
        !rt.sessions.contains_key(h.session_id),
    ensures
        ({
            let after = after_profile(rt, path, h, payload);
            &&& after.sessions.contains_key(h.session_id)
            &&& after.sessions[h.session_id].stream_seq_floor == h.stream_seq
            &&& session_of_path(after.paths, path) == Some(h.session_id)
            &&& acting_policy(after.domains, h.session_id).is_bounded_by(
                tenant_policy(rt.domains, TenantId(0)),
            )
            &&& profile_step(rt, path, h, payload) is Err ==> acting_policy(
                after.domains,
                h.session_id,
            ) == AuthorityPolicy::none()
        }),
{
    let set_up = with_session_on_path(rt, path, h);
    let none = AuthorityPolicy::none();
    let ceiling = tenant_policy(rt.domains, TenantId(0));
    law_intersection_algebra(none, ceiling, none);
    law_intersection_algebra(ceiling, none, none);
    law_bounds_are_a_partial_order(ceiling, ceiling, ceiling);
    match profile_in(payload) {
        Ok(p) => {
            law_profile_scopes_the_session(
                set_up.domains,
                h,
                p,
                signature_verdict(p, set_up.trust_store),
            );
        },
        Err(_) => {},
    }
}

/// A profile of a known session moves it to the stream's path and leaves its sequence floor, its
/// tenant and its other state as they were.
pub proof fn law_reconnect_continues_the_session(
    rt: RuntimeView,
    path: PathId,
    h: ParsedHeader,
    payload: Seq<u8>,
    seq: u64,
)
    requires
        rt.sessions.contains_key(h.session_id),
    ensures
        ({
            let before = rt.sessions[h.session_id];
            let after = after_profile(rt, path, h, payload);
            &&& seq_valid(after.sessions, h.session_id, seq) == seq_valid(
                rt.sessions,
                h.session_id,
                seq,
            )
            &&& after.sessions[h.session_id] == migrated_session(before, path)
            &&& session_of_path(after.paths, path) == Some(h.session_id)
            &&& after.paths[path].last_ack_stream_seq == active_ack(rt, before)
        }),
{
}

/// Where the engine fails, nothing is learned but the engine's counters.
pub proof fn law_failed_instruction_has_no_effect(d: DispatcherView, p: PendingView, stats: EngineStats)
    ensures
        after_failure(d, p, stats).runtime == d.runtime,
        after_failure(d, p, stats).decoder == d.decoder,
        after_failure(d, p, stats).shards.stabilize_count == d.shards.stabilize_count,
{
}

/// Each stabilization of a partition counts one epoch at rest more, and any other instruction
/// sets the count back; other partitions are not concerned.
pub proof fn law_epochs_at_rest(
    d: DispatcherView,
    p: PendingView,
    stats: EngineStats,
    other: WirePartitionId,
)
    requires
        other != p.header.partition_id,
    ensures
        epochs_at_rest(after_apply(d, p, stats).shards, p.header.partition_id) == (if p.op is Stabilize {
            one_more_epoch(d.shards, p.header.partition_id)
        } else {
            0
        }),
        epochs_at_rest(after_apply(d, p, stats).shards, other) == epochs_at_rest(d.shards, other),
{
}

/// After an instruction that ended a partition's rest, the next stabilization reports the first
/// epoch of a new one, whatever other records were processed in between.
pub proof fn law_wake_restarts_the_count(
    d: DispatcherView,
    wake: PendingView,
    stats: EngineStats,
    between: DispatcherView,
    rest: PendingView,
    later: EngineStats,
)
    requires
        !(wake.op is Stabilize),
        rest.op is Stabilize,
        rest.header.partition_id == wake.header.partition_id,
        between.shards.stabilize_count == after_apply(d, wake, stats).shards.stabilize_count,
    ensures
        epochs_at_rest(after_apply(between, rest, later).shards, rest.header.partition_id) == 1,
        after_apply(between, rest, later).runtime.telemetry.events.last() matches
            TelemetryEventView::RegionQuiescent { partition_id, quiescent, quiescent_epochs, .. }
            && partition_id == rest.header.partition_id && quiescent && quiescent_epochs == 1,
{
}

/// A partition that was created is registered for the creating session, lets the instructions of
/// every session pass from any lattice class, and is placed on a healthy shard where there is one.
pub proof fn law_created_partition_is_open(
    rt: RuntimeView,
    h: ParsedHeader,
    op: IsaOpView,
    class: OpcodeClass,
    emitted: LatticeClass,
    session: AuthorityPolicy,
    nearest: Option<ShardId>,
    first: Option<ShardId>,
)
    requires
        op is PartitionCreate,
        class != OpcodeClass::Profile && class != OpcodeClass::Unknown,
        is_first_healthy(rt.topology, first),
        locality_hint(rt.domains, h.session_id) matches Some(addr) ==> is_nearest(
            rt.topology,
            rt.domains.shards,
            addr,
            nearest,
        ),
    ensures
        ({
            let wire = WirePartitionId(wire_id(op->PartitionCreate_id.0));
            let after = with_feedback(rt, h, op);
            &&& after.domains.partitions.contains_key(wire)
            &&& after.domains.partitions[wire].session_id == h.session_id
            &&& after.domains.partitions[wire].shard_id == placement(rt, h.session_id)
            &&& gate_verdict(
                row_of(after.auth, wire, class),
                class,
                emitted,
                session,
            ).is_allowed()
            &&& first is Some ==> health_in(rt.topology, placement(rt, h.session_id)) == HEALTH_POS
            &&& first is None ==> placement(rt, h.session_id) == ShardId(0)
        }),
{
    law_gate_is_permissive_by_default(class, emitted, session);
    let nowhere = ShardFabricAddr { region: 0, pod: 0, rack: 0, fabric_leaf: 0 };
    law_placement_is_deterministic(
        rt.topology,
        rt.domains.shards,
        nowhere,
        first,
        first_healthy(rt.topology),
    );
    assert(is_first_healthy(rt.topology, first_healthy(rt.topology)));
    match locality_hint(rt.domains, h.session_id) {
        Some(addr) => {
            assert(is_nearest(
                rt.topology,
                rt.domains.shards,
                addr,
                nearest_shard(rt.topology, rt.domains.shards, addr),
            ));
            law_placement_is_deterministic(
                rt.topology,
                rt.domains.shards,
                addr,
                nearest,
                nearest_shard(rt.topology, rt.domains.shards, addr),
            );
            if nearest is Some {
                law_placement_avoids_unhealthy(
                    rt.topology,
                    rt.domains.shards,
                    addr,
                    nearest->0,
                );
                assert(rt.topology.contains_key(nearest->0));
            }
        },
        None => {},
    }
}

} // verus!
