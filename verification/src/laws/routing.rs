//! What is let through, and what a report of load does.

use vstd::prelude::*;

use crate::admission::{AdmissionDecision, BackpressurePolicy, ShardPressure, admission};
use crate::auth::{AuthAxis, AuthTableKey, DataplaneGateReason, row_of};
use crate::domain::PartitionDomain;
use crate::isa::{LatticeClass, Uid};
use crate::laws::authority::{
    axis_bits, denied_axis, law_flow_is_bit_by_bit, law_gate_asks_for_every_bit,
};
use crate::laws::bits::{covers, has_bit, lemma_extremes};
use crate::laws::sessions::{law_activity, same_identity};
use crate::{SessionId, ShardId, WirePartitionId};
use crate::opcode::{OpcodeClass, class_of};
use crate::runtime::{
    ParsedHeader, RejectionReason, RouteOutcome, RuntimeView, acting_policy, after_routing,
    pressure_on, reason_text, routing, target_shard, with_event, with_pressure,
};
use crate::telemetry::{Ring, TelemetryEventView, emitted, emitted_all};

verus! {

/// Every class has its own opcodes; every other opcode is of no known class.
pub proof fn law_classes(opcode: u16)
    ensures
        class_of(opcode) == OpcodeClass::SetValue <==> opcode == 3,
        class_of(opcode) == OpcodeClass::Propagate <==> opcode == 4,
        class_of(opcode) == OpcodeClass::Subscribe <==> opcode == 5,
        class_of(opcode) == OpcodeClass::Demand <==> opcode == 8,
        class_of(opcode) == OpcodeClass::Data <==> opcode == 10,
        class_of(opcode) == OpcodeClass::Stabilize <==> opcode == 11,
        class_of(opcode) == OpcodeClass::Profile <==> opcode == 256,
        class_of(opcode) == OpcodeClass::Unknown <==> opcode == 0 || opcode > 18 && opcode != 256,
        class_of(opcode) == OpcodeClass::Control <==> opcode == 1 || opcode == 2 || opcode == 6
            || opcode == 7 || opcode == 9 || 12 <= opcode <= 18,
{
}

/// The control plane is what may come before its partition: control instructions, profiles and
/// subscriptions.
pub proof fn law_control_plane_classes(class: OpcodeClass)
    ensures
        class.is_control_plane() <==> class == OpcodeClass::Control || class == OpcodeClass::Profile
            || class == OpcodeClass::Subscribe,
{
}

/// The lane of a record goes by its class, and for values, propagations and other data by the depth
/// of the queue. Nothing else is ever held back or dropped but what is of no known class.
pub proof fn law_lanes(policy: BackpressurePolicy, class: OpcodeClass, depth: u32)
    ensures
        admission(policy, class, depth) == AdmissionDecision::ControlPlane
            <==> class.is_control_plane(),
        admission(policy, class, depth) == AdmissionDecision::Prioritize <==> class
            == OpcodeClass::Demand,
        admission(policy, class, depth) == AdmissionDecision::SlowLane <==> class
            == OpcodeClass::Stabilize,
        admission(policy, class, depth) == AdmissionDecision::Coalesce <==> class
            == OpcodeClass::SetValue && policy.coalesce_threshold <= depth,
        admission(policy, class, depth) == AdmissionDecision::Delay <==> class == OpcodeClass::Data
            && policy.coalesce_threshold <= depth,
        admission(policy, class, depth) == AdmissionDecision::Drop <==> class
            == OpcodeClass::Unknown || class == OpcodeClass::Propagate && policy.shed_threshold
            <= depth,
{
}

/// Adding load never lets a record through that was held back or dropped.
pub proof fn law_load_only_restricts(
    policy: BackpressurePolicy,
    class: OpcodeClass,
    less: u32,
    more: u32,
)
    requires
        less <= more,
    ensures
        admission(policy, class, less) == AdmissionDecision::Drop ==> admission(policy, class, more)
            == AdmissionDecision::Drop,
        admission(policy, class, less) == AdmissionDecision::Delay ==> admission(
            policy,
            class,
            more,
        ) == AdmissionDecision::Delay,
        admission(policy, class, less) == AdmissionDecision::Coalesce ==> admission(
            policy,
            class,
            more,
        ) == AdmissionDecision::Coalesce,
{
}

/// The record's session is live, its tenant is the session's or not named, and its number was not
/// acknowledged.
pub open spec fn is_current(rt: RuntimeView, h: ParsedHeader) -> bool {
    &&& rt.sessions.contains_key(h.session_id)
    &&& h.tenant_id.0 == 0 || h.tenant_id.0 == rt.sessions[h.session_id].tenant_id.0
    &&& rt.sessions[h.session_id].stream_seq_floor <= h.stream_seq
}

/// The partition's row for the record's class, where there is one, asks for nothing that the
/// session does not hold.
pub open spec fn is_authorized(rt: RuntimeView, h: ParsedHeader) -> bool {
    let class = class_of(h.opcode);
    let key = AuthTableKey { partition_id: h.partition_id, opcode_class: class };
    rt.auth.contains_key(key) ==> covers(
        axis_bits(acting_policy(rt.domains, h.session_id), class),
        axis_bits(rt.auth[key].policy, class),
    )
}

/// The last reported queue depth of the shard, and none before any report.
pub open spec fn reported_depth(rt: RuntimeView, shard: ShardId) -> u32 {
    if rt.pressure.contains_key(shard) {
        rt.pressure[shard].queue_depth
    } else {
        0
    }
}

/// What routing says of a record, and when.
pub proof fn law_routing(rt: RuntimeView, h: ParsedHeader)
    ensures
        ({
            let out = routing(rt, h);
            let class = class_of(h.opcode);
            let live = rt.sessions.contains_key(h.session_id);
            let s = rt.sessions[h.session_id];
            let named = h.tenant_id.0 == 0 || h.tenant_id.0 == s.tenant_id.0;
            let known = rt.domains.partitions.contains_key(h.partition_id);
            let depth = reported_depth(rt, rt.domains.partitions[h.partition_id].shard_id);
            let passes = is_current(rt, h) && is_authorized(rt, h);
            let early = class == OpcodeClass::Control || class == OpcodeClass::Profile || class
                == OpcodeClass::Subscribe;
            &&& out == RouteOutcome::Rejected(RejectionReason::SessionNotFound) <==> !live
            &&& out == RouteOutcome::Rejected(RejectionReason::TenantMismatch) <==> live && !named
            &&& out == RouteOutcome::Rejected(RejectionReason::StreamSeqReplay) <==> live && named
                && h.stream_seq < s.stream_seq_floor
            &&& out == RouteOutcome::Rejected(
                RejectionReason::AuthGateDenied(
                    DataplaneGateReason::PolicyViolation(denied_axis(class)),
                ),
            ) <==> is_current(rt, h) && !is_authorized(rt, h)
            &&& out == RouteOutcome::Rejected(RejectionReason::UnknownPartition) <==> passes
                && !known && !early
            &&& out == RouteOutcome::Rejected(RejectionReason::Shed) <==> passes && known && (class
                == OpcodeClass::Unknown || class == OpcodeClass::Propagate
                && rt.admission.shed_threshold <= depth)
            &&& out == RouteOutcome::Rejected(RejectionReason::Delay) <==> passes && known && class
                == OpcodeClass::Data && rt.admission.coalesce_threshold <= depth
            &&& out is Admitted <==> passes && (early || known && (class == OpcodeClass::SetValue
                || class == OpcodeClass::Demand || class == OpcodeClass::Stabilize || class
                == OpcodeClass::Propagate && depth < rt.admission.shed_threshold || class
                == OpcodeClass::Data && depth < rt.admission.coalesce_threshold))
            &&& out is Admitted ==> out == RouteOutcome::Admitted { opcode_class: class }
        }),
{
    let class = class_of(h.opcode);
    let key = AuthTableKey { partition_id: h.partition_id, opcode_class: class };
    let held = acting_policy(rt.domains, h.session_id);
    assert(row_of(rt.auth, h.partition_id, class) == if rt.auth.contains_key(key) {
        Some(rt.auth[key])
    } else {
        None
    });
    if rt.auth.contains_key(key) {
        let row = rt.auth[key];
        law_gate_asks_for_every_bit(row, class, LatticeClass::bottom(), held);
        law_flow_is_bit_by_bit(LatticeClass::bottom(), row.lattice_class, 0);
        assert(covers(row.lattice_class.0, 0)) by {
            assert forall|i: u64| #[trigger] has_bit(0, i) implies has_bit(
                row.lattice_class.0,
                i,
            ) by {
                lemma_extremes(i);
            }
        }
    }
}

/// The rest of the runtime, but for the sessions and the events, is the same.
pub open spec fn same_tables(a: RuntimeView, b: RuntimeView) -> bool {
    &&& a.paths == b.paths
    &&& a.domains == b.domains
    &&& a.auth == b.auth
    &&& a.admission == b.admission
    &&& a.topology == b.topology
    &&& a.trust_store == b.trust_store
    &&& a.pressure == b.pressure
}

/// An admitted record counts as activity of its session at its epoch; a replay and a denial are
/// reported; nothing else is touched.
pub proof fn law_routing_effects(rt: RuntimeView, h: ParsedHeader, other: SessionId)
    ensures
        ({
            let after = after_routing(rt, h);
            let out = routing(rt, h);
            &&& same_tables(after, rt)
            &&& out is Rejected ==> after.sessions == rt.sessions
            &&& out is Admitted ==> {
                &&& after.telemetry == rt.telemetry
                &&& after.sessions.dom() == rt.sessions.dom()
                &&& other != h.session_id ==> after.sessions[other] == rt.sessions[other]
                &&& {
                    let now = after.sessions[h.session_id];
                    let before = rt.sessions[h.session_id];
                    &&& now.last_active_causal_epoch >= h.causal_epoch
                    &&& now.last_active_causal_epoch >= before.last_active_causal_epoch
                    &&& now.last_active_causal_epoch == h.causal_epoch
                        || now.last_active_causal_epoch == before.last_active_causal_epoch
                    &&& now.consecutive_quiescent_epochs == 0
                    &&& now.stream_seq_floor == before.stream_seq_floor
                    &&& now.active_path_id == before.active_path_id
                    &&& now.prev_path_id == before.prev_path_id
                    &&& same_identity(now, before)
                }
            }
            &&& out == RouteOutcome::Rejected(RejectionReason::StreamSeqReplay) ==> after.telemetry
                == emitted(
                rt.telemetry,
                TelemetryEventView::SessionHealthChanged {
                    session_id: h.session_id,
                    healthy: false,
                },
            )
            &&& out matches RouteOutcome::Rejected(RejectionReason::AuthGateDenied(why))
                ==> after.telemetry == emitted(
                rt.telemetry,
                TelemetryEventView::AuthViolation { node: Uid(0), reason: reason_text(why) },
            )
            &&& out is Rejected && out != RouteOutcome::Rejected(
                RejectionReason::StreamSeqReplay,
            ) && !(out->Rejected_0 is AuthGateDenied) ==> after.telemetry == rt.telemetry
        }),
{
    law_activity(rt.sessions, h.session_id, h.causal_epoch, other);
}

/// Each reason for a denial is reported under a text of its own.
pub proof fn law_reason_texts()
    ensures
        reason_text(DataplaneGateReason::LatticeViolation) == "LatticeViolation"@,
        reason_text(DataplaneGateReason::PolicyViolation(AuthAxis::Assertion))
            == "PolicyViolation(Assertion)"@,
        reason_text(DataplaneGateReason::PolicyViolation(AuthAxis::Delegation))
            == "PolicyViolation(Delegation)"@,
        reason_text(DataplaneGateReason::PolicyViolation(AuthAxis::Observability))
            == "PolicyViolation(Observability)"@,
        reason_text(DataplaneGateReason::PolicyViolation(AuthAxis::Disclosure))
            == "PolicyViolation(Disclosure)"@,
{
}

/// A report of pressure becomes the pressure and the health of its shard, is told where it changes
/// the health, and touches no other shard and no other table.
pub proof fn law_pressure_report(
    rt: RuntimeView,
    id: ShardId,
    p: ShardPressure,
    other: ShardId,
)
    ensures
        ({
            let after = with_pressure(rt, id, p);
            let before = if rt.topology.contains_key(id) {
                rt.topology[id].health as int
            } else {
                -1
            };
            let now = if p.cursor_count > 0 {
                -1int
            } else if p.queue_depth >= 500 {
                0int
            } else {
                1int
            };
            &&& after.sessions == rt.sessions
            &&& after.paths == rt.paths
            &&& after.domains == rt.domains
            &&& after.auth == rt.auth
            &&& after.admission == rt.admission
            &&& after.trust_store == rt.trust_store
            &&& after.pressure.contains_key(id) && after.pressure[id] == p
            &&& after.topology.contains_key(id) && after.topology[id].health == now
            &&& after.topology[id].queue_depth == p.queue_depth
            &&& after.topology[id].cursor_count == p.cursor_count
            &&& after.topology[id].budget_consumed == p.budget_consumed
            &&& other != id ==> (after.pressure.contains_key(other) <==> rt.pressure.contains_key(
                other,
            )) && after.pressure[other] == rt.pressure[other]
            &&& other != id ==> (after.topology.contains_key(other) <==> rt.topology.contains_key(
                other,
            )) && after.topology[other] == rt.topology[other]
            &&& before == now ==> after.telemetry == rt.telemetry
            &&& before != now ==> after.telemetry == emitted(
                rt.telemetry,
                TelemetryEventView::TopologyHealthChanged {
                    shard_id: id,
                    old_health: before as i8,
                    new_health: now as i8,
                },
            )
        }),
{
}

/// The pressure on a shard is that of its last report, and none before any.
pub proof fn law_pressure_on(pressure: Map<ShardId, ShardPressure>, id: ShardId)
    ensures
        pressure.contains_key(id) ==> pressure_on(pressure, id) == pressure[id],
        !pressure.contains_key(id) ==> pressure_on(pressure, id) == (ShardPressure {
            queue_depth: 0,
            budget_consumed: 0,
            cursor_count: 0,
        }),
{
}

/// A record goes to the shard of its partition; what may come before its partition goes to the
/// first shard where there is none yet.
pub proof fn law_target(
    partitions: Map<WirePartitionId, PartitionDomain>,
    partition: WirePartitionId,
    class: OpcodeClass,
)
    ensures
        partitions.contains_key(partition) ==> target_shard(partitions, partition, class) == Some(
            partitions[partition].shard_id,
        ),
        !partitions.contains_key(partition) && class.is_control_plane() ==> target_shard(
            partitions,
            partition,
            class,
        ) == Some(ShardId(0)),
        !partitions.contains_key(partition) && !class.is_control_plane() ==> target_shard(
            partitions,
            partition,
            class,
        ) is None,
{
}

// ── Events ───────────────────────────────────────────────────────────────────

/// After an emission the event is the latest, and the kept ones are the latest of those before: all
/// of them where there was room, and otherwise all but the oldest, which is then counted as dropped.
pub proof fn law_emission(ring: Ring, event: TelemetryEventView)
    ensures
        ({
            let after = emitted(ring, event);
            let n = ring.events.len();
            let full = n >= ring.capacity;
            let kept: int = if full && n > 0 {
                n - 1
            } else {
                n as int
            };
            &&& after.capacity == ring.capacity
            &&& after.events.len() == kept + 1
            &&& after.events.last() == event
            &&& after.events.drop_last() == ring.events.subrange(n - kept, n as int)
            &&& after.dropped - ring.dropped == if full && ring.dropped < u64::MAX {
                1int
            } else {
                0int
            }
        }),
{
    let after = emitted(ring, event);
    let n = ring.events.len();
    assert(after.events.drop_last() =~= ring.events.subrange(
        n - (after.events.len() - 1),
        n as int,
    ));
}

/// A ring that has room for something never holds more than it has room for.
pub proof fn law_ring_is_bounded(ring: Ring, event: TelemetryEventView)
    requires
        0 < ring.capacity,
        ring.events.len() <= ring.capacity,
    ensures
        emitted(ring, event).events.len() <= ring.capacity,
{
}

/// A notification adds its event and changes nothing else.
pub proof fn law_notification(rt: RuntimeView, event: TelemetryEventView)
    ensures
        with_event(rt, event).telemetry == emitted(rt.telemetry, event),
        with_event(rt, event).sessions == rt.sessions,
        same_tables(with_event(rt, event), rt),
{
}

/// Emitting events one after the other is emitting the first ones and after them the rest.
pub proof fn law_emissions_in_order(ring: Ring, events: Seq<TelemetryEventView>, last: TelemetryEventView)
    ensures
        emitted_all(ring, Seq::empty()) == ring,
        emitted_all(ring, events.push(last)) == emitted(emitted_all(ring, events), last),
{
    assert(events.push(last).drop_last() =~= events);
}

} // verus!
