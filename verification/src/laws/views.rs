//! What the views of values show.

use vstd::prelude::*;

use crate::dispatch::DispatchError;
use crate::dispatcher::{DispatchStep, Dispatcher, PendingApply, StepView, stepped};
use crate::idmap::{Key, lemma_sorted_keys_exist, sorted_keys};
use crate::isa::{DepKind, DepKindView, IsaOp, IsaOpView, PartitionId, RemoteDep};
use crate::{PathId, SessionId, ShardId, TenantId, WirePartitionId};
use crate::profile::SessionProfile;
use crate::runtime::SessionRuntime;
use crate::sim::SimCluster;
use crate::telemetry::{TelemetryEvent, TelemetryEventView, event_views};

verus! {

/// The number of an identity is the number in it.
pub proof fn law_identity_numbers(
    tenant: TenantId,
    session: SessionId,
    path: PathId,
    shard: ShardId,
    partition: WirePartitionId,
    id: PartitionId,
)
    ensures
        tenant.code() == tenant.0,
        session.code() == session.0,
        path.code() == path.0,
        shard.code() == shard.0,
        partition.code() == partition.0,
        id.code() == id.0,
{
}

/// Keys in order are all the keys, each once, the one with the lowest number first.
pub proof fn law_keys_ascend<K: Key>(members: Set<K>, i: int, j: int)
    requires
        members.finite(),
    ensures
        sorted_keys(members).len() == members.len(),
        sorted_keys(members).to_set() == members,
        0 <= i < j < members.len() ==> sorted_keys(members)[i].code() < sorted_keys(
            members,
        )[j].code(),
{
    lemma_sorted_keys_exist(members);
}

/// The view of a runtime shows each of its tables.
pub proof fn law_view_of_runtime(rt: SessionRuntime)
    ensures
        rt@.sessions == rt.sessions@,
        rt@.paths == rt.paths@,
        rt@.domains == rt.domains@,
        rt@.auth == rt.auth@,
        rt@.admission == rt.admission,
        rt@.telemetry == rt.telemetry@,
        rt@.topology == rt.topology@,
        rt@.trust_store == rt.trust_store@,
        rt@.pressure == rt.pressure@,
        rt@.telemetry.dropped == rt.telemetry.dropped,
{
}

/// The view of a dispatcher shows its stream, its runtime and its engines, and that of a stream its
/// counts.
pub proof fn law_view_of_dispatcher(d: Dispatcher)
    ensures
        d@.decoder == d.decoder@,
        d@.runtime == d.runtime@,
        d@.shards == d.shards@,
        d@.decoder.gap_count == d.decoder.gap_count,
        d@.decoder.epoch_regression_count == d.decoder.epoch_regression_count,
{
}

/// The view of a step shows what it is, and that of a pending instruction its parts.
pub proof fn law_view_of_step(step: DispatchStep, pending: PendingApply)
    ensures
        step matches DispatchStep::Apply(p) ==> step@ == StepView::Apply(p@),
        step matches DispatchStep::Bootstrapped { session_id } ==> step@ == (
        StepView::Bootstrapped { session_id }),
        step is Skipped ==> step@ == StepView::Skipped,
        step matches DispatchStep::Rejected(why) ==> step@ == StepView::Rejected(why),
        pending@.header == pending.header,
        pending@.opcode_class == pending.opcode_class,
        pending@.shard_id == pending.shard_id,
        pending@.op == pending.op@,
        stepped(Ok(step)) == Ok::<StepView, DispatchError>(step@),
        forall|e: DispatchError| #[trigger] stepped(Err(e)) == Err::<StepView, DispatchError>(e),
{
}

/// The view of a cluster shows the view of each shard, and the rest as it is.
pub proof fn law_view_of_cluster(c: SimCluster, k: ShardId)
    ensures
        c@.shards.contains_key(k) <==> c.shards@.contains_key(k),
        c.shards@.contains_key(k) ==> c@.shards[k] == c.shards@[k]@,
        c@.lifecycle == c.lifecycle@,
        c@.network.pending == c.network.pending@,
        c@.network.faults.drop_threshold == c.network.faults.drop_threshold,
        c@.network.faults.max_delay_ticks == c.network.faults.max_delay_ticks,
        c@.rng == c.rng@,
        c@.epoch == c.epoch,
        c@.tick == c.tick,
{
}

/// The view of an edge's dependency shows its port, or all of what a remote one carries.
pub proof fn law_view_of_dependency(dep: DepKind, remote: RemoteDep)
    ensures
        dep matches DepKind::Local(None) ==> dep@ == DepKindView::Local(None),
        dep matches DepKind::Local(Some(port)) ==> dep@ == DepKindView::Local(
            Some((port.name@, port.kind)),
        ),
        dep matches DepKind::Remote(r) ==> dep@ == DepKindView::Remote(r@),
        remote@.source_partition == remote.source_partition,
        remote@.source_uid == remote.source_uid,
        remote@.source_version == remote.source_version,
        remote@.port_kind == remote.port_kind,
        remote@.causal_frontier == remote.causal_frontier@,
        remote@.payload_kind == remote.payload_kind,
        remote@.source_authority == remote.source_authority,
        remote@.emitted_class == remote.emitted_class,
        remote@.capability == remote.capability,
        remote@.causal_scope == remote.causal_scope,
{
}

/// The view of an instruction shows all of its fields.
pub proof fn law_view_of_instruction(op: IsaOp)
    ensures
        op matches IsaOp::NodeCreate { id, typ, rule, attrs } ==> op@ == (IsaOpView::NodeCreate {
            id,
            typ: typ@,
            rule,
            attrs: attrs@,
        }),
        op matches IsaOp::EdgeConnect { id, typ, src, tgt, dep } ==> op@ == (
        IsaOpView::EdgeConnect { id, typ: typ@, src, tgt, dep: dep@ }),
        op matches IsaOp::SetValue { node, val } ==> op@ == (IsaOpView::SetValue { node, val }),
        op matches IsaOp::Propagate { node } ==> op@ == (IsaOpView::Propagate { node }),
        op matches IsaOp::Subscribe { source, subscriber } ==> op@ == (IsaOpView::Subscribe {
            source,
            subscriber,
        }),
        op matches IsaOp::DelNode { id } ==> op@ == (IsaOpView::DelNode { id }),
        op matches IsaOp::DelEdge { id } ==> op@ == (IsaOpView::DelEdge { id }),
        op matches IsaOp::Demand { node } ==> op@ == (IsaOpView::Demand { node }),
        op matches IsaOp::SetMode { node, mode } ==> op@ == (IsaOpView::SetMode { node, mode }),
        op matches IsaOp::Reflect { node } ==> op@ == (IsaOpView::Reflect { node }),
        op matches IsaOp::Stabilize { region: None } ==> op@ == (IsaOpView::Stabilize {
            region: None,
        }),
        op matches IsaOp::Stabilize { region: Some(ids) } ==> op@ == (IsaOpView::Stabilize {
            region: Some(ids@),
        }),
        op matches IsaOp::PartitionCreate { id, authority_root, lattice_class, causal_domain }
            ==> op@ == (IsaOpView::PartitionCreate {
            id,
            authority_root,
            lattice_class,
            causal_domain,
        }),
        op matches IsaOp::PartitionBind { node, partition } ==> op@ == (IsaOpView::PartitionBind {
            node,
            partition,
        }),
        op matches IsaOp::SetPartitionAuthority { partition, lattice_class, causal_domain } ==> op@
            == (IsaOpView::SetPartitionAuthority { partition, lattice_class, causal_domain }),
        op matches IsaOp::SetEdgeLabel { source, target, label } ==> op@ == (
        IsaOpView::SetEdgeLabel { source, target, label }),
        op matches IsaOp::SetStabilizationConfig { node, config } ==> op@ == (
        IsaOpView::SetStabilizationConfig { node, config }),
        op matches IsaOp::SetExecutionPolicy { node, policy } ==> op@ == (
        IsaOpView::SetExecutionPolicy { node, policy }),
        op matches IsaOp::RegionDeclare { root, boundary, stability, compile } ==> op@ == (
        IsaOpView::RegionDeclare { root, boundary: boundary@, stability, compile }),
{
}

/// The view of a profile shows all of its fields.
pub proof fn law_view_of_profile(p: SessionProfile)
    ensures
        p@.profile_id == p.profile_id,
        p@.profile_version == p.profile_version,
        p@.trust_level == p.trust_level,
        p@.policy.assertion == p.assertion_mask,
        p@.policy.delegation == p.delegation_mask,
        p@.policy.observability == p.observability_mask,
        p@.policy.disclosure == p.disclosure_mask,
        p@.issuer_domain == p.issuer_domain,
        p@.session_id == p.session_id,
        p@.generation == p.generation,
        p@.expiry_epoch == p.expiry_epoch,
        p@.signature == p.signature@,
{
}

/// The view of an event shows its fields, and that of events the view of each.
pub proof fn law_view_of_event(e: TelemetryEvent, events: Seq<TelemetryEvent>, i: int)
    ensures
        event_views(events).len() == events.len(),
        0 <= i < events.len() ==> event_views(events)[i] == events[i]@,
        e matches TelemetryEvent::ValueChanged { node, version } ==> e@ == (
        TelemetryEventView::ValueChanged { node, version }),
        e matches TelemetryEvent::AuthViolation { node, reason } ==> e@ == (
        TelemetryEventView::AuthViolation { node, reason: reason@ }),
        e matches TelemetryEvent::SessionHealthChanged { session_id, healthy } ==> e@ == (
        TelemetryEventView::SessionHealthChanged { session_id, healthy }),
        e matches TelemetryEvent::ShardPressureChanged { shard_id, depth } ==> e@ == (
        TelemetryEventView::ShardPressureChanged { shard_id, depth }),
        e matches TelemetryEvent::DomainQuiescent { partition_id } ==> e@ == (
        TelemetryEventView::DomainQuiescent { partition_id }),
        e matches TelemetryEvent::CellQuiescent { cell_id, partition_id, quiescent } ==> e@ == (
        TelemetryEventView::CellQuiescent { cell_id, partition_id, quiescent }),
        e matches TelemetryEvent::RegionQuiescent {
            region_root,
            partition_id,
            quiescent,
            quiescent_epochs,
        } ==> e@ == (TelemetryEventView::RegionQuiescent {
            region_root,
            partition_id,
            quiescent,
            quiescent_epochs,
        }),
        e matches TelemetryEvent::BudgetExhausted { node, steps_consumed, budget } ==> e@ == (
        TelemetryEventView::BudgetExhausted { node, steps_consumed, budget }),
        e matches TelemetryEvent::TopologyHealthChanged { shard_id, old_health, new_health } ==> e@
            == (TelemetryEventView::TopologyHealthChanged { shard_id, old_health, new_health }),
        e matches TelemetryEvent::FabricPlacementChanged { shard_id, addr } ==> e@ == (
        TelemetryEventView::FabricPlacementChanged { shard_id, addr }),
{
}

} // verus!
