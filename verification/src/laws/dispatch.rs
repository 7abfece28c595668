//! What a record that is processed does to the runtime.

use vstd::prelude::*;

use crate::admission::ShardPressure;
use crate::auth::AuthTableKey;
use crate::decode::{
    IngressError, after_decoding, decoding, fresh_decoder, payload_grant, profile_in, with_grant,
};
use crate::dispatch::DispatchError;
use crate::dispatcher::{
    DispatcherView, EngineStats, PendingView, PoolView, StepView, active_ack, admitted_step,
    after_apply, after_failure, after_profile, after_step, disclosed_scope, empty_pool,
    engine_pressure, epochs_at_rest, idle_stats, is_first_partition, one_more_epoch, placement,
    profile_step, region_root, stats_pressure, step_for, with_feedback, with_session_on_path,
};
use crate::grammar::op_in;
use crate::isa::{AuthorityMode, IsaOpView, Uid};
use crate::laws::authority::law_profile_in_a_record;
use crate::laws::bits::{covers, has_bit, lemma_covers, lemma_extremes};
use crate::laws::placement::{lemma_first_healthy_unique, lemma_nearest_unique};
use crate::laws::routing::{is_authorized, is_current, law_pressure_report, law_routing};
use crate::laws::sessions::{law_migrated_paths, law_migrated_session, same_identity};
use crate::{PathId, SessionId, ShardId, WirePartitionId};
use crate::opcode::{OpcodeClass, class_of};
use crate::profile::{ProfileError, ProfileView, signature_verdict};
use crate::runtime::{
    ParsedHeader, RejectionReason, RouteOutcome, RuntimeView, acting_policy, after_routing,
    routing, with_pressure,
};
use crate::session::PathState;
use crate::telemetry::{TelemetryEventView, emitted};
use crate::topology::{first_healthy, is_first_healthy, is_nearest, nearest_shard};

verus! {

/// After an instruction was applied on a shard, the runtime's pressure on that shard is what the
/// engine reported: its queue depth, its materialized nodes, and nothing parked. Its health follows
/// from that, and no other shard's is touched.
pub proof fn law_report_reaches_the_runtime(
    d: DispatcherView,
    p: PendingView,
    stats: EngineStats,
    other: ShardId,
)
    ensures
        ({
            let rt = after_apply(d, p, stats).runtime;
            &&& rt.pressure.contains_key(p.shard_id)
            &&& rt.pressure[p.shard_id].queue_depth == stats.max_queue_depth as int % 0x1_0000_0000
            &&& stats.max_queue_depth < 0x1_0000_0000 ==> rt.pressure[p.shard_id].queue_depth
                == stats.max_queue_depth
            &&& rt.pressure[p.shard_id].budget_consumed == stats.nodes_materialized
            &&& rt.pressure[p.shard_id].cursor_count == 0
            &&& rt.topology.contains_key(p.shard_id)
            &&& 500 <= stats.max_queue_depth < 0x1_0000_0000 ==> rt.topology[p.shard_id].health == 0
            &&& stats.max_queue_depth < 500 ==> rt.topology[p.shard_id].health == 1
            &&& other != p.shard_id ==> rt.pressure.contains_key(other)
                == d.runtime.pressure.contains_key(other) && rt.pressure[other]
                == d.runtime.pressure[other]
            &&& other != p.shard_id ==> rt.topology.contains_key(other)
                == d.runtime.topology.contains_key(other) && rt.topology[other]
                == d.runtime.topology[other]
        }),
{
    law_pressure_report(d.runtime, p.shard_id, stats_pressure(stats), other);
}

/// So a shard that reports a queue of at least the shed threshold sheds the propagations that
/// follow, and one that reports at least the coalesce threshold delays other data; below the
/// threshold both are let through.
pub proof fn law_reported_queue_sheds(
    d: DispatcherView,
    p: PendingView,
    stats: EngineStats,
    h: ParsedHeader,
)
    requires
        stats.max_queue_depth < 0x1_0000_0000,
        ({
            let rt = after_apply(d, p, stats).runtime;
            &&& is_current(rt, h)
            &&& is_authorized(rt, h)
            &&& rt.domains.partitions.contains_key(h.partition_id)
            &&& rt.domains.partitions[h.partition_id].shard_id == p.shard_id
        }),
    ensures
        ({
            let rt = after_apply(d, p, stats).runtime;
            let depth = stats.max_queue_depth;
            &&& h.opcode == 4 && depth >= d.runtime.admission.shed_threshold ==> routing(rt, h)
                == RouteOutcome::Rejected(RejectionReason::Shed)
            &&& h.opcode == 4 && depth < d.runtime.admission.shed_threshold ==> routing(rt, h)
                == (RouteOutcome::Admitted { opcode_class: OpcodeClass::Propagate })
            &&& h.opcode == 10 && depth >= d.runtime.admission.coalesce_threshold ==> routing(rt, h)
                == RouteOutcome::Rejected(RejectionReason::Delay)
            &&& h.opcode == 10 && depth < d.runtime.admission.coalesce_threshold ==> routing(rt, h)
                == (RouteOutcome::Admitted { opcode_class: OpcodeClass::Data })
            &&& h.opcode == 3 ==> routing(rt, h) == (RouteOutcome::Admitted {
                opcode_class: OpcodeClass::SetValue,
            })
            &&& h.opcode == 8 ==> routing(rt, h) == (RouteOutcome::Admitted {
                opcode_class: OpcodeClass::Demand,
            })
        }),
{
    law_report_reaches_the_runtime(d, p, stats, p.shard_id);
    law_routing(after_apply(d, p, stats).runtime, h);
}

/// What a completed instruction leaves alone: the stream, the sessions, the paths, the keys, the
/// thresholds and the registered sessions, tenants and shards.
pub proof fn law_completion_leaves_alone(d: DispatcherView, p: PendingView, stats: EngineStats)
    ensures
        ({
            let after = after_apply(d, p, stats);
            &&& after.decoder == d.decoder
            &&& after.runtime.sessions == d.runtime.sessions
            &&& after.runtime.paths == d.runtime.paths
            &&& after.runtime.admission == d.runtime.admission
            &&& after.runtime.trust_store == d.runtime.trust_store
            &&& after.runtime.domains.sessions == d.runtime.domains.sessions
            &&& after.runtime.domains.tenants == d.runtime.domains.tenants
            &&& after.runtime.domains.shards == d.runtime.domains.shards
            &&& !(p.op is PartitionCreate) && !(p.op is SetPartitionAuthority)
                ==> after.runtime.domains.partitions == d.runtime.domains.partitions
            &&& !(p.op is PartitionCreate) ==> after.runtime.auth == d.runtime.auth
        }),
{
}

/// A report is kept for its shard, whatever came of the instruction, and none of another shard
/// changes.
pub proof fn law_stats_are_kept(
    d: DispatcherView,
    p: PendingView,
    stats: EngineStats,
    other: ShardId,
)
    ensures
        after_apply(d, p, stats).shards.engines.contains_key(p.shard_id),
        after_apply(d, p, stats).shards.engines[p.shard_id] == stats,
        after_failure(d, p, stats).shards.engines.contains_key(p.shard_id),
        after_failure(d, p, stats).shards.engines[p.shard_id] == stats,
        other != p.shard_id ==> {
            &&& after_apply(d, p, stats).shards.engines.contains_key(other)
                == d.shards.engines.contains_key(other)
            &&& after_apply(d, p, stats).shards.engines[other] == d.shards.engines[other]
            &&& after_failure(d, p, stats).shards.engines.contains_key(other)
                == d.shards.engines.contains_key(other)
            &&& after_failure(d, p, stats).shards.engines[other] == d.shards.engines[other]
        },
        engine_pressure(after_apply(d, p, stats).shards, p.shard_id).queue_depth
            == stats.max_queue_depth as int % 0x1_0000_0000,
        engine_pressure(after_apply(d, p, stats).shards, p.shard_id).budget_consumed
            == stats.nodes_materialized,
        engine_pressure(after_apply(d, p, stats).shards, p.shard_id).cursor_count == 0,
        after_failure(d, p, stats).runtime == d.runtime,
        after_failure(d, p, stats).decoder == d.decoder,
        after_failure(d, p, stats).shards.stabilize_count == d.shards.stabilize_count,
{
}

/// A fresh dispatcher has seen nothing and holds nothing; an engine that did nothing has nothing to
/// report.
pub proof fn law_fresh_dispatcher()
    ensures
        fresh_decoder().preamble is None,
        fresh_decoder().seq_trace == Map::<SessionId, u64>::empty(),
        fresh_decoder().epoch_trace == Map::<SessionId, u64>::empty(),
        fresh_decoder().gap_count == 0,
        fresh_decoder().epoch_regression_count == 0,
        empty_pool().engines == Map::<ShardId, EngineStats>::empty(),
        empty_pool().stabilize_count == Map::<WirePartitionId, u32>::empty(),
        idle_stats().max_queue_depth == 0,
        idle_stats().nodes_materialized == 0,
{
}

/// The epochs at rest of a partition are what was counted for it, none before any, and one more is
/// one more, up to the largest count.
pub proof fn law_epochs_of_partition(pool: PoolView, id: WirePartitionId)
    ensures
        pool.stabilize_count.contains_key(id) ==> epochs_at_rest(pool, id)
            == pool.stabilize_count[id],
        !pool.stabilize_count.contains_key(id) ==> epochs_at_rest(pool, id) == 0,
        one_more_epoch(pool, id) - epochs_at_rest(pool, id) == if epochs_at_rest(pool, id)
            == u32::MAX {
            0int
        } else {
            1int
        },
{
}

/// A shard without an engine is under no pressure.
pub proof fn law_no_engine_no_pressure(pool: PoolView, id: ShardId)
    requires
        !pool.engines.contains_key(id),
    ensures
        engine_pressure(pool, id) == (ShardPressure {
            queue_depth: 0,
            budget_consumed: 0,
            cursor_count: 0,
        }),
{
}

/// A stabilization counts one more epoch at rest for its own partition, up to the largest count,
/// and tells so under the first node of its region, or under the partition's own number. Any other
/// instruction ends the run of its partition, and tells nothing of its own.
pub proof fn law_stabilization(
    d: DispatcherView,
    p: PendingView,
    stats: EngineStats,
    other: WirePartitionId,
)
    ensures
        ({
            let after = after_apply(d, p, stats);
            let id = p.header.partition_id;
            let before = if d.shards.stabilize_count.contains_key(id) {
                d.shards.stabilize_count[id] as int
            } else {
                0
            };
            let reported = with_pressure(d.runtime, p.shard_id, stats_pressure(stats)).telemetry;
            &&& other != id ==> after.shards.stabilize_count.contains_key(other)
                == d.shards.stabilize_count.contains_key(other)
                && after.shards.stabilize_count[other] == d.shards.stabilize_count[other]
            &&& !(p.op is Stabilize) ==> !after.shards.stabilize_count.contains_key(id)
                && after.runtime.telemetry == reported
            &&& p.op matches IsaOpView::Stabilize { region } ==> {
                let now = after.shards.stabilize_count[id];
                &&& after.shards.stabilize_count.contains_key(id)
                &&& now - before == if before == u32::MAX {
                    0int
                } else {
                    1int
                }
                &&& exists|root: Uid|
                    {
                        &&& region is None || region->0.len() == 0 ==> root.0 == id.0
                        &&& region is Some && region->0.len() > 0 ==> root == region->0.first()
                        &&& after.runtime.telemetry == #[trigger] emitted(
                            reported,
                            TelemetryEventView::RegionQuiescent {
                                region_root: root,
                                partition_id: id,
                                quiescent: true,
                                quiescent_epochs: now,
                            },
                        )
                    }
            }
        }),
{
    let after = after_apply(d, p, stats);
    let id = p.header.partition_id;
    let reported = with_pressure(d.runtime, p.shard_id, stats_pressure(stats)).telemetry;
    if p.op is Stabilize {
        let region = p.op->Stabilize_region;
        let root = region_root(region, id);
        assert(after.runtime.telemetry == emitted(
            reported,
            TelemetryEventView::RegionQuiescent {
                region_root: root,
                partition_id: id,
                quiescent: true,
                quiescent_epochs: after.shards.stabilize_count[id],
            },
        ));
    }
}

// ── Partitions ───────────────────────────────────────────────────────────────

/// A created partition is registered under the low half of its identity, for the session that
/// created it, with the class and the scope that were given; every other partition stays as it was.
pub proof fn law_created_partition(
    rt: RuntimeView,
    h: ParsedHeader,
    op: IsaOpView,
    other: WirePartitionId,
)
    requires
        op is PartitionCreate,
    ensures
        ({
            let after = with_feedback(rt, h, op);
            let wire = WirePartitionId((op->PartitionCreate_id.0 % 0x1_0000_0000_0000_0000) as u64);
            let made = after.domains.partitions[wire];
            &&& after.domains.partitions.contains_key(wire)
            &&& made.id == wire
            &&& made.session_id == h.session_id
            &&& made.lattice_class == op->PartitionCreate_lattice_class
            &&& made.causal_scope == op->PartitionCreate_causal_domain.scope_bits
            &&& made.shard_id == placement(rt, h.session_id)
            &&& other != wire ==> after.domains.partitions.contains_key(other)
                == rt.domains.partitions.contains_key(other) && after.domains.partitions[other]
                == rt.domains.partitions[other]
            &&& after.domains.sessions == rt.domains.sessions
            &&& after.domains.tenants == rt.domains.tenants
            &&& after.domains.shards == rt.domains.shards
            &&& after.sessions == rt.sessions
            &&& after.paths == rt.paths
            &&& after.admission == rt.admission
            &&& after.telemetry == rt.telemetry
            &&& after.topology == rt.topology
            &&& after.trust_store == rt.trust_store
            &&& after.pressure == rt.pressure
        }),
{
}

/// A created partition gets a row that asks for nothing and takes in every class, for each class of
/// instructions but profiles and unknown ones; the rows of other partitions stay.
pub proof fn law_created_rows(
    rt: RuntimeView,
    h: ParsedHeader,
    op: IsaOpView,
    key: AuthTableKey,
    i: u64,
)
    requires
        op is PartitionCreate,
    ensures
        ({
            let after = with_feedback(rt, h, op).auth;
            let wire = WirePartitionId((op->PartitionCreate_id.0 % 0x1_0000_0000_0000_0000) as u64);
            let opened = key.partition_id == wire && key.opcode_class != OpcodeClass::Profile
                && key.opcode_class != OpcodeClass::Unknown;
            &&& opened ==> {
                &&& after.contains_key(key)
                &&& i < 64 ==> has_bit(after[key].lattice_class.0, i)
                &&& !has_bit(after[key].policy.assertion, i)
                &&& !has_bit(after[key].policy.delegation, i)
                &&& !has_bit(after[key].policy.observability, i)
                &&& !has_bit(after[key].policy.disclosure, i)
            }
            &&& !opened ==> after.contains_key(key) == rt.auth.contains_key(key) && after[key]
                == rt.auth[key]
        }),
{
    lemma_extremes(i);
}

/// A change of authority sets class and scope of the partition, where it is registered, and
/// nothing else.
pub proof fn law_changed_authority(
    rt: RuntimeView,
    h: ParsedHeader,
    op: IsaOpView,
    other: WirePartitionId,
)
    requires
        op is SetPartitionAuthority,
    ensures
        ({
            let after = with_feedback(rt, h, op);
            let wire = WirePartitionId(
                (op->SetPartitionAuthority_partition.0 % 0x1_0000_0000_0000_0000) as u64,
            );
            let known = rt.domains.partitions.contains_key(wire);
            &&& after.domains.partitions.contains_key(wire) == known
            &&& known ==> {
                let now = after.domains.partitions[wire];
                let before = rt.domains.partitions[wire];
                &&& now.lattice_class == op->SetPartitionAuthority_lattice_class
                &&& now.causal_scope == op->SetPartitionAuthority_causal_domain.scope_bits
                &&& now.id == before.id
                &&& now.session_id == before.session_id
                &&& now.shard_id == before.shard_id
            }
            &&& !known ==> after == rt
            &&& other != wire ==> after.domains.partitions.contains_key(other)
                == rt.domains.partitions.contains_key(other) && after.domains.partitions[other]
                == rt.domains.partitions[other]
            &&& after.domains.sessions == rt.domains.sessions
            &&& after.domains.tenants == rt.domains.tenants
            &&& after.domains.shards == rt.domains.shards
            &&& after.auth == rt.auth
            &&& after.telemetry == rt.telemetry
            &&& after.topology == rt.topology
            &&& after.pressure == rt.pressure
        }),
{
}

/// Feedback comes of control instructions, and of these only of the two on partitions.
pub proof fn law_feedback_is_of_control_instructions(
    d: DispatcherView,
    p: PendingView,
    stats: EngineStats,
)
    ensures
        ({
            let after = after_apply(d, p, stats).runtime;
            let loaded = with_pressure(d.runtime, p.shard_id, stats_pressure(stats));
            let fed = with_feedback(loaded, p.header, p.op);
            &&& p.opcode_class == OpcodeClass::Control ==> after.domains == fed.domains
                && after.auth == fed.auth
            &&& p.opcode_class != OpcodeClass::Control ==> after.domains == d.runtime.domains
                && after.auth == d.runtime.auth
        }),
{
}

// ── Placement ────────────────────────────────────────────────────────────────

/// Where a new partition goes. A session that has a partition on an addressed shard gets the
/// nearest healthy shard to the one of its lowest partition, where there is one; otherwise the
/// healthy shard with the lowest identity; otherwise the first shard.
pub proof fn law_placement(
    rt: RuntimeView,
    session: SessionId,
    key: WirePartitionId,
    best: Option<ShardId>,
    first: Option<ShardId>,
)
    requires
        is_first_healthy(rt.topology, first),
    ensures
        (forall|k: WirePartitionId| #[trigger]
            rt.domains.partitions.contains_key(k) ==> rt.domains.partitions[k].session_id
                != session) ==> placement(rt, session) == match first {
            Some(id) => id,
            None => ShardId(0),
        },
        (rt.domains.partitions.contains_key(key) && rt.domains.partitions[key].session_id == session
            && (forall|k: WirePartitionId| #[trigger]
            rt.domains.partitions.contains_key(k) && rt.domains.partitions[k].session_id == session
                ==> key.0 <= k.0)) ==> {
            let home = rt.domains.partitions[key].shard_id;
            let addressed = rt.domains.shards.contains_key(home)
                && rt.domains.shards[home].fabric_addr is Some;
            &&& addressed && is_nearest(
                rt.topology,
                rt.domains.shards,
                rt.domains.shards[home].fabric_addr->0,
                best,
            ) && best is Some ==> placement(rt, session) == best->0
            &&& (!addressed || is_nearest(
                rt.topology,
                rt.domains.shards,
                rt.domains.shards[home].fabric_addr->0,
                None,
            )) ==> placement(rt, session) == match first {
                Some(id) => id,
                None => ShardId(0),
            }
        },
{
    let chosen = first_healthy(rt.topology);
    assert(is_first_healthy(rt.topology, chosen));
    lemma_first_healthy_unique(rt.topology, chosen, first);
    if rt.domains.partitions.contains_key(key) && rt.domains.partitions[key].session_id == session
        && (forall|k: WirePartitionId| #[trigger]
        rt.domains.partitions.contains_key(k) && rt.domains.partitions[k].session_id == session
            ==> key.0 <= k.0) {
        assert(is_first_partition(rt.domains.partitions, session, key));
        let at = choose|k: WirePartitionId|
            is_first_partition(rt.domains.partitions, session, k);
        assert(is_first_partition(rt.domains.partitions, session, at));
        assert(at.0 <= key.0 && key.0 <= at.0);
        assert(at == key);
        let home = rt.domains.partitions[key].shard_id;
        if rt.domains.shards.contains_key(home) && rt.domains.shards[home].fabric_addr is Some {
            let addr = rt.domains.shards[home].fabric_addr->0;
            let near = nearest_shard(rt.topology, rt.domains.shards, addr);
            if is_nearest(rt.topology, rt.domains.shards, addr, best) {
                assert(is_nearest(rt.topology, rt.domains.shards, addr, near));
                lemma_nearest_unique(rt.topology, rt.domains.shards, addr, near, best);
            }
            if is_nearest(rt.topology, rt.domains.shards, addr, None) {
                assert(is_nearest(rt.topology, rt.domains.shards, addr, near));
                lemma_nearest_unique(rt.topology, rt.domains.shards, addr, near, None);
            }
        }
    } else if forall|k: WirePartitionId| #[trigger]
        rt.domains.partitions.contains_key(k) ==> rt.domains.partitions[k].session_id != session {
        assert forall|k: WirePartitionId| !#[trigger] is_first_partition(
            rt.domains.partitions,
            session,
            k,
        ) by {
            if rt.domains.partitions.contains_key(k) {
                assert(rt.domains.partitions[k].session_id != session);
            }
        }
    }
}

// ── Steps ────────────────────────────────────────────────────────────────────

/// What an edge discloses: the scope of a remote edge, the scope of a label, and otherwise nothing.
pub proof fn law_what_is_disclosed(op: IsaOpView)
    ensures
        op is EdgeConnect && op->EdgeConnect_dep is Remote ==> disclosed_scope(op)
            == op->EdgeConnect_dep->Remote_0.causal_scope.scope_bits,
        op is SetEdgeLabel ==> disclosed_scope(op)
            == op->SetEdgeLabel_label.causal_scope.scope_bits,
        !(op is EdgeConnect && op->EdgeConnect_dep is Remote) && !(op is SetEdgeLabel)
            ==> disclosed_scope(op) == 0,
{
}

/// An admitted instruction is applied on the shard of its partition exactly where it can be read
/// and the session may disclose every bit of what it reveals.
pub proof fn law_admitted_instruction(
    rt: RuntimeView,
    h: ParsedHeader,
    class: OpcodeClass,
    payload: Seq<u8>,
)
    ensures
        ({
            let step = admitted_step(rt, h, class, payload);
            let read = op_in(h.opcode, payload);
            let held = acting_policy(rt.domains, h.session_id).disclosure;
            &&& read is Err ==> step is Err && step->Err_0 == read->Err_0
            &&& read matches Ok(op) ==> {
                let may = covers(held, disclosed_scope(op));
                &&& step is Ok <==> may
                &&& !may ==> step == Err::<StepView, _>(
                    DispatchError::DisclosureViolation { required: disclosed_scope(op), held },
                )
                &&& may ==> step->Ok_0 is Apply && {
                    let p = step->Ok_0->Apply_0;
                    &&& p.header == h
                    &&& p.opcode_class == class
                    &&& p.op == op
                    &&& rt.domains.partitions.contains_key(h.partition_id) ==> p.shard_id
                        == rt.domains.partitions[h.partition_id].shard_id
                    &&& !rt.domains.partitions.contains_key(h.partition_id) ==> p.shard_id.0 == 0
                }
            }
        }),
{
    let held = acting_policy(rt.domains, h.session_id).disclosure;
    if op_in(h.opcode, payload) is Ok {
        let required = disclosed_scope(op_in(h.opcode, payload)->Ok_0);
        lemma_covers(held, required);
        assert(0u64 & held == 0) by (bit_vector);
        lemma_covers(held, 0);
    }
}

/// What a record comes to: what the stream refuses is an error, a body of no known kind is skipped,
/// a profile sets its session up, and the rest is routed and, where admitted, read.
pub proof fn law_step(d: DispatcherView, h: ParsedHeader, payload: Seq<u8>)
    ensures
        ({
            let step = step_for(d, h, payload);
            let after = after_step(d, h, payload);
            let read = decoding(d.decoder, h);
            let path = match d.decoder.preamble {
                Some(preamble) => preamble.path_id,
                None => PathId(0),
            };
            &&& after.decoder == after_decoding(d.decoder, h)
            &&& after.shards == d.shards
            &&& read is Err ==> step == Err::<StepView, _>(DispatchError::Ingress(read->Err_0))
                && after.runtime == d.runtime
            &&& read is Ok && read->Ok_0 is SkipPayload ==> step == Ok::<_, DispatchError>(
                StepView::Skipped,
            ) && after.runtime == d.runtime
            &&& read is Ok && read->Ok_0 is ReadProfile ==> step == profile_step(
                d.runtime,
                path,
                h,
                payload,
            ) && after.runtime == after_profile(d.runtime, path, h, payload)
            &&& read is Ok && read->Ok_0 is RouteReady ==> {
                &&& after.runtime == after_routing(d.runtime, h)
                &&& routing(d.runtime, h) matches RouteOutcome::Rejected(why) ==> step == Ok::<
                    _,
                    DispatchError,
                >(StepView::Rejected(why))
                &&& routing(d.runtime, h) is Admitted ==> step == admitted_step(
                    d.runtime,
                    h,
                    class_of(h.opcode),
                    payload,
                )
            }
        }),
{
    law_routing(d.runtime, h);
}

/// A profile sets up its session on its path and is then granted or refused; granted or not, the
/// session stands, and of its authority only the claim changes.
pub proof fn law_profile_step(rt: RuntimeView, path: PathId, h: ParsedHeader, payload: Seq<u8>)
    ensures
        ({
            let up = with_session_on_path(rt, path, h);
            let grant = payload_grant(up, h, payload);
            let after = after_profile(rt, path, h, payload);
            &&& profile_step(rt, path, h, payload) is Ok <==> grant is Ok
            &&& grant is Ok ==> profile_step(rt, path, h, payload) == Ok::<_, DispatchError>(
                StepView::Bootstrapped { session_id: h.session_id },
            ) && after.domains.sessions[h.session_id].claimed_policy == grant->Ok_0
            &&& grant matches Err(e) ==> profile_step(rt, path, h, payload) == Err::<StepView, _>(
                DispatchError::Ingress(e),
            ) && after.domains == up.domains
            &&& after.domains == with_grant(up.domains, h.session_id, grant)
            &&& after.sessions == up.sessions
            &&& after.paths == up.paths
            &&& after.auth == rt.auth
            &&& after.admission == rt.admission
            &&& after.telemetry == rt.telemetry
            &&& after.topology == rt.topology
            &&& after.trust_store == rt.trust_store
            &&& after.pressure == rt.pressure
        }),
{
}

/// An expired profile in a record is refused, and the session's claim stays as it was set up.
pub proof fn law_expired_profile_in_a_step(
    rt: RuntimeView,
    path: PathId,
    h: ParsedHeader,
    payload: Seq<u8>,
    p: ProfileView,
)
    requires
        profile_in(payload) == Ok::<ProfileView, IngressError>(p),
        p.expiry_epoch != u64::MAX,
        h.causal_epoch > p.expiry_epoch,
    ensures
        profile_step(rt, path, h, payload) is Err,
        after_profile(rt, path, h, payload).domains == with_session_on_path(rt, path, h).domains,
        p.session_id == h.session_id && (rt.sessions.contains_key(h.session_id)
            ==> rt.domains.sessions.contains_key(h.session_id)) ==> profile_step(
            rt,
            path,
            h,
            payload,
        ) == Err::<StepView, _>(
            DispatchError::Ingress(
                IngressError::ProfileVerification(
                    ProfileError::Expired { expiry: p.expiry_epoch, current: h.causal_epoch },
                ),
            ),
        ),
{
    let up = with_session_on_path(rt, path, h);
    law_profile_in_a_record(up.domains, h, p, signature_verdict(p, up.trust_store));
}

/// A session that a profile brings in for the first time is entered on its path with the record's
/// number as its floor, and with no tenant and no authority.
pub proof fn law_new_session(
    rt: RuntimeView,
    path: PathId,
    h: ParsedHeader,
    other: SessionId,
    p: PathId,
)
    requires
        !rt.sessions.contains_key(h.session_id),
    ensures
        ({
            let up = with_session_on_path(rt, path, h);
            let s = up.sessions[h.session_id];
            let g = up.domains.sessions[h.session_id];
            &&& up.sessions.contains_key(h.session_id)
            &&& s.session_id == h.session_id
            &&& s.tenant_id.0 == 0
            &&& s.active_path_id == Some(path)
            &&& s.prev_path_id is None
            &&& s.stream_seq_floor == h.stream_seq
            &&& s.auth_mode == AuthorityMode::Advisory
            &&& s.last_active_causal_epoch == 0
            &&& s.consecutive_quiescent_epochs == 0
            &&& up.paths.contains_key(path)
            &&& up.paths[path].path_id == path
            &&& up.paths[path].session_id == h.session_id
            &&& up.paths[path].last_ack_stream_seq == h.stream_seq
            &&& up.paths[path].state == PathState::Active
            &&& up.domains.sessions.contains_key(h.session_id)
            &&& g.id == h.session_id
            &&& g.tenant_id.0 == 0
            &&& g.claimed_caps.0 == 0
            &&& g.claimed_policy.assertion == 0
            &&& g.claimed_policy.delegation == 0
            &&& g.claimed_policy.observability == 0
            &&& g.claimed_policy.disclosure == 0
            &&& g.auth_mode == AuthorityMode::Advisory
            &&& g.quota.max_inflight == 4_096
            &&& g.quota.max_partitions == 256
            &&& other != h.session_id ==> up.sessions.contains_key(other)
                == rt.sessions.contains_key(other) && up.sessions[other] == rt.sessions[other]
            &&& other != h.session_id ==> up.domains.sessions.contains_key(other)
                == rt.domains.sessions.contains_key(other) && up.domains.sessions[other]
                == rt.domains.sessions[other]
            &&& up.domains.tenants == rt.domains.tenants
            &&& up.domains.partitions == rt.domains.partitions
            &&& up.domains.shards == rt.domains.shards
            &&& p != path ==> up.paths.contains_key(p) == rt.paths.contains_key(p) && up.paths[p]
                == rt.paths[p]
            &&& up.auth == rt.auth
            &&& up.admission == rt.admission
            &&& up.telemetry == rt.telemetry
            &&& up.topology == rt.topology
            &&& up.trust_store == rt.trust_store
            &&& up.pressure == rt.pressure
        }),
{
}

/// A session that comes back moves to the new path with what its active path had acknowledged, and
/// keeps its floor and its authority. No other session is touched, and no path but the two.
pub proof fn law_returning_session(
    rt: RuntimeView,
    path: PathId,
    h: ParsedHeader,
    other: SessionId,
    p: PathId,
)
    requires
        rt.sessions.contains_key(h.session_id),
    ensures
        ({
            let up = with_session_on_path(rt, path, h);
            let before = rt.sessions[h.session_id];
            let after = up.sessions[h.session_id];
            let known = before.active_path_id is Some && rt.paths.contains_key(
                before.active_path_id->0,
            );
            &&& up.domains == rt.domains
            &&& after.active_path_id == Some(path)
            &&& before.active_path_id is Some ==> after.prev_path_id == before.active_path_id
            &&& before.active_path_id is None ==> after.prev_path_id == before.prev_path_id
            &&& after.stream_seq_floor == before.stream_seq_floor
            &&& same_identity(after, before)
            &&& after.last_active_causal_epoch == before.last_active_causal_epoch
            &&& after.consecutive_quiescent_epochs == before.consecutive_quiescent_epochs
            &&& up.sessions.dom() == rt.sessions.dom()
            &&& other != h.session_id ==> up.sessions[other] == rt.sessions[other]
            &&& p != path ==> up.paths.contains_key(p) == rt.paths.contains_key(p)
            &&& p != path && before.active_path_id != Some(p) ==> up.paths[p] == rt.paths[p]
            &&& up.auth == rt.auth
            &&& up.admission == rt.admission
            &&& up.telemetry == rt.telemetry
            &&& up.topology == rt.topology
            &&& up.trust_store == rt.trust_store
            &&& up.pressure == rt.pressure
            &&& up.paths[path].session_id == h.session_id
            &&& up.paths[path].state == PathState::Active
            &&& known ==> up.paths[path].last_ack_stream_seq
                == rt.paths[before.active_path_id->0].last_ack_stream_seq
            &&& !known ==> up.paths[path].last_ack_stream_seq == 0
            &&& known && before.active_path_id != Some(path)
                ==> up.paths[before.active_path_id->0].state == PathState::Draining
        }),
{
    assert(with_session_on_path(rt, path, h).sessions.dom() =~= rt.sessions.dom());
    law_migrated_session(rt.sessions[h.session_id], path);
    law_migrated_paths(
        rt.paths,
        rt.sessions[h.session_id],
        h.session_id,
        path,
        active_ack(rt, rt.sessions[h.session_id]),
        path,
    );
}

} // verus!
