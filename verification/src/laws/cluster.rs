//! What happens in a simulated cluster.

use vstd::prelude::*;

use crate::admission::{ShardPressure, no_pressure};
use crate::auth::{AuthTableKey, PartitionAuthRow};
use crate::domain::{PartitionDomain, SessionDomain, ShardDomain, ShardFabricAddr, TenantDomain};
use crate::idmap::sorted_keys;
use crate::isa::AuthorityMode;
use crate::laws::bits::{has_bit, lemma_extremes};
use crate::laws::routing::same_tables;
use crate::{PathId, SessionId, ShardId, TenantId, WirePartitionId};
use crate::profile::IssuerKey;
use crate::runtime::{RuntimeView, empty_runtime, with_pressure};
use crate::session::{PathEntry, PathState, SessionEntry};
use crate::sim::{
    ClusterView, Outbox, ShardLifecycle, alive_among, crash_pressure, delivered, delivered_all,
    gossiped, has_time, health_changes, initial_cluster, lcg_next, observes, pairs_between,
    seen_by_none, seen_healthy, sent, sent_to, ticked, ticked_times, told_everywhere,
    with_drained_telemetry, with_session,
};
use crate::sim::faults::{Faults, ShardPair, law_pair_has_no_order, pair_of, sampled_delay};
use crate::sim::network::{PendingMsg, due_at, not_due_at};
use crate::sim::workload::{WorkloadView, fresh_workload, nth_header, workload_after};
use crate::telemetry::TelemetryEventView;
use crate::topology::{HEALTH_POS, TopologyNode, health_in, health_of};

verus! {

/// Each number of the generator is, modulo 2^64, a fixed multiple of the one before it and a fixed
/// number more.
pub proof fn law_generator(state: u64)
    ensures
        (lcg_next(state) - 6_364_136_223_846_793_005 * state - 1_442_695_040_888_963_407)
            % 0x1_0000_0000_0000_0000 == 0,
{
    let x = 6_364_136_223_846_793_005 * state + 1_442_695_040_888_963_407;
    assert(lcg_next(state) == x % 0x1_0000_0000_0000_0000);
    assert((x % 0x1_0000_0000_0000_0000 - x) % 0x1_0000_0000_0000_0000 == 0);
}

/// A message takes at least one tick and at most as many as the policy says. Without delays it takes
/// one and nothing is drawn; with delays one number is drawn, and its low half decides.
pub proof fn law_delays(faults: Faults, state: u64)
    ensures
        ({
            let (delay, rng) = sampled_delay(faults, state);
            &&& delay >= 1
            &&& faults.max_delay_ticks == 0 ==> delay == 1 && rng == state
            &&& faults.max_delay_ticks > 0 ==> {
                &&& delay <= faults.max_delay_ticks
                &&& rng == lcg_next(state)
                &&& delay - 1 == (rng as int % 0x1_0000_0000) % faults.max_delay_ticks as int
            }
        }),
{
    if faults.max_delay_ticks > 0 {
        let low = lcg_next(state) as int % 0x1_0000_0000;
        let most = faults.max_delay_ticks as int;
        assert(0 <= low % most < most) by (nonlinear_arith)
            requires
                most > 0,
        ;
    }
}

/// What becomes of a message. Between a shard and itself, and across a severed link, nothing is sent
/// and nothing drawn. Otherwise, where messages get lost, one number is drawn, and the message is
/// lost exactly where its upper 31 bits are below the threshold. What is not lost is put at the end,
/// with its own content, and due after its delay.
pub proof fn law_sending(
    out: Outbox,
    faults: Faults,
    tick: u64,
    src: ShardId,
    dst: ShardId,
    pressure: ShardPressure,
)
    requires
        tick + faults.max_delay_ticks < u64::MAX,
    ensures
        ({
            let after = sent(out, faults, tick, src, dst, pressure);
            let lossy = faults.drop_threshold > 0;
            let drawn = if lossy {
                lcg_next(out.rng)
            } else {
                out.rng
            };
            let linked = src != dst && !faults.severed.contains(pair_of(src, dst));
            let lost = lossy && drawn / 0x2_0000_0000 < faults.drop_threshold;
            &&& !linked ==> after == out
            &&& linked && lost ==> after.pending == out.pending && after.rng == drawn
            &&& linked && !lost ==> {
                let msg = after.pending.last();
                let due = msg->TopologyGossip_deliver_at;
                &&& after.pending.len() == out.pending.len() + 1
                &&& after.pending.drop_last() == out.pending
                &&& msg->TopologyGossip_src == src
                &&& msg->TopologyGossip_dst == dst
                &&& msg->TopologyGossip_pressure == pressure
                &&& due == tick + sampled_delay(faults, drawn).0
                &&& due > tick
                &&& after.rng == sampled_delay(faults, drawn).1
            }
        }),
{
    let after = sent(out, faults, tick, src, dst, pressure);
    let drawn = if faults.drop_threshold > 0 {
        lcg_next(out.rng)
    } else {
        out.rng
    };
    law_delays(faults, drawn);
    if after.pending.len() == out.pending.len() + 1 {
        assert(after.pending.drop_last() =~= out.pending);
    }
}

/// A higher threshold loses what a lower one loses, and more.
pub proof fn law_loss_grows(
    out: Outbox,
    less: Faults,
    more: Faults,
    tick: u64,
    src: ShardId,
    dst: ShardId,
    pressure: ShardPressure,
)
    requires
        0 < less.drop_threshold <= more.drop_threshold,
        less.severed == more.severed,
    ensures
        sent(out, less, tick, src, dst, pressure).pending.len() == out.pending.len() ==> sent(
            out,
            more,
            tick,
            src,
            dst,
            pressure,
        ).pending.len() == out.pending.len(),
        more.drop_threshold >= 0x8000_0000 ==> sent(
            out,
            more,
            tick,
            src,
            dst,
            pressure,
        ).pending == out.pending,
{
    assert(lcg_next(out.rng) / 0x2_0000_0000 < 0x8000_0000);
}

/// A shard sends to all others in turn, and all shards send in turn: each takes up where the one
/// before it left off. A shard that has no pressure of its own sends nothing.
pub proof fn law_gossip(
    out: Outbox,
    faults: Faults,
    tick: u64,
    shards: Map<ShardId, RuntimeView>,
    srcs: Seq<ShardId>,
    src: ShardId,
    dsts: Seq<ShardId>,
    dst: ShardId,
    pressure: ShardPressure,
)
    ensures
        sent_to(out, faults, tick, src, Seq::empty(), pressure) == out,
        sent_to(out, faults, tick, src, dsts.push(dst), pressure) == sent(
            sent_to(out, faults, tick, src, dsts, pressure),
            faults,
            tick,
            src,
            dst,
            pressure,
        ),
        gossiped(out, faults, tick, shards, Seq::empty(), dsts) == out,
        !shards[src].pressure.contains_key(src) ==> gossiped(
            out,
            faults,
            tick,
            shards,
            srcs.push(src),
            dsts,
        ) == gossiped(out, faults, tick, shards, srcs, dsts),
        shards[src].pressure.contains_key(src) ==> gossiped(
            out,
            faults,
            tick,
            shards,
            srcs.push(src),
            dsts,
        ) == sent_to(
            gossiped(out, faults, tick, shards, srcs, dsts),
            faults,
            tick,
            src,
            dsts,
            shards[src].pressure[src],
        ),
{
    assert(dsts.push(dst).drop_last() =~= dsts);
    assert(srcs.push(src).drop_last() =~= srcs);
}

/// The messages that are due are those whose tick has come, in the order of sending; the others stay,
/// in the order of sending.
pub proof fn law_due(msgs: Seq<PendingMsg>, msg: PendingMsg, tick: u64)
    ensures
        due_at(Seq::empty(), tick) == Seq::<PendingMsg>::empty(),
        not_due_at(Seq::empty(), tick) == Seq::<PendingMsg>::empty(),
        msg->TopologyGossip_deliver_at <= tick ==> {
            &&& due_at(msgs.push(msg), tick) == due_at(msgs, tick).push(msg)
            &&& not_due_at(msgs.push(msg), tick) == not_due_at(msgs, tick)
        },
        msg->TopologyGossip_deliver_at > tick ==> {
            &&& due_at(msgs.push(msg), tick) == due_at(msgs, tick)
            &&& not_due_at(msgs.push(msg), tick) == not_due_at(msgs, tick).push(msg)
        },
{
    assert(msgs.push(msg).drop_last() =~= msgs);
}

/// A delivered message becomes its receiver's report of its sender, where the sender is alive and the
/// receiver there; otherwise it has no effect. No other shard is touched.
pub proof fn law_delivery(
    shards: Map<ShardId, RuntimeView>,
    lifecycle: Map<ShardId, ShardLifecycle>,
    msg: PendingMsg,
    other: ShardId,
)
    ensures
        ({
            let after = delivered(shards, lifecycle, msg);
            let src = msg->TopologyGossip_src;
            let dst = msg->TopologyGossip_dst;
            let arrives = lifecycle.contains_key(src) && lifecycle[src] == ShardLifecycle::Alive
                && shards.contains_key(dst);
            &&& after.contains_key(other) == shards.contains_key(other)
            &&& arrives ==> after[dst] == with_pressure(
                shards[dst],
                src,
                msg->TopologyGossip_pressure,
            )
            &&& !arrives ==> after == shards
            &&& other != dst ==> after[other] == shards[other]
        }),
{
}

/// Messages are delivered in turn.
pub proof fn law_deliveries_in_order(
    shards: Map<ShardId, RuntimeView>,
    lifecycle: Map<ShardId, ShardLifecycle>,
    msgs: Seq<PendingMsg>,
    msg: PendingMsg,
)
    ensures
        delivered_all(shards, lifecycle, Seq::empty()) == shards,
        delivered_all(shards, lifecycle, msgs.push(msg)) == delivered(
            delivered_all(shards, lifecycle, msgs),
            lifecycle,
            msg,
        ),
{
    assert(msgs.push(msg).drop_last() =~= msgs);
}

/// The living are picked out in their order: those whose state is known to be alive.
pub proof fn law_the_living(
    lifecycle: Map<ShardId, ShardLifecycle>,
    ids: Seq<ShardId>,
    id: ShardId,
)
    ensures
        alive_among(lifecycle, Seq::empty()) == Seq::<ShardId>::empty(),
        lifecycle.contains_key(id) && lifecycle[id] == ShardLifecycle::Alive ==> alive_among(
            lifecycle,
            ids.push(id),
        ) == alive_among(lifecycle, ids).push(id),
        !(lifecycle.contains_key(id) && lifecycle[id] == ShardLifecycle::Alive) ==> alive_among(
            lifecycle,
            ids.push(id),
        ) == alive_among(lifecycle, ids),
{
    assert(ids.push(id).drop_last() =~= ids);
}

/// On a tick time goes on by one, what is due then is delivered, and after that every living shard
/// sends to every living shard, in the order of their identities; what was not due stays pending
/// before what is sent. Which shards live and what gets lost does not change.
pub proof fn law_tick(c: ClusterView)
    requires
        has_time(c, 1),
    ensures
        ({
            let after = ticked(c);
            let alive = alive_among(c.lifecycle, sorted_keys(after.shards.dom()));
            let start = Outbox { rng: c.rng, pending: not_due_at(c.network.pending, after.tick) };
            let out = gossiped(
                start,
                c.network.faults,
                after.tick,
                after.shards,
                alive,
                alive,
            );
            &&& after.tick == c.tick + 1
            &&& after.epoch == c.epoch + 1
            &&& after.lifecycle == c.lifecycle
            &&& after.network.faults == c.network.faults
            &&& after.shards == delivered_all(
                c.shards,
                c.lifecycle,
                due_at(c.network.pending, after.tick),
            )
            &&& after.network.pending == out.pending
            &&& after.rng == out.rng
        }),
{
}

/// Ticks come one after the other.
pub proof fn law_ticks(c: ClusterView, n: nat)
    ensures
        ticked_times(c, 0) == c,
        ticked_times(c, n + 1) == ticked(ticked_times(c, n)),
{
}

/// There is time for a number of ticks where epoch, tick and the latest delivery stay in range.
pub proof fn law_time(c: ClusterView, n: int)
    ensures
        has_time(c, n) <==> c.epoch + n <= u64::MAX && c.tick + n + 1 <= u64::MAX && c.tick + n
            + c.network.faults.max_delay_ticks <= u64::MAX,
{
}

/// A new cluster: so many shards, all alive, each under one tenant that may do everything, alone
/// registered on a leaf of its own, under no pressure, and seeing every shard as healthy.
pub proof fn law_new_cluster(n: nat, seed: u64, k: ShardId, j: ShardId, i: u64)
    requires
        k.0 < n,
    ensures
        ({
            let c = initial_cluster(n, seed);
            let rt = c.shards[k];
            let tenant = rt.domains.tenants[TenantId(0)];
            &&& c.tick == 0
            &&& c.epoch == 1
            &&& c.rng == (seed + 1) % 0x1_0000_0000_0000_0000
            &&& c.network.pending.len() == 0
            &&& c.network.faults.drop_threshold == 0
            &&& c.network.faults.max_delay_ticks == 0
            &&& forall|p: ShardPair| !#[trigger] c.network.faults.severed.contains(p)
            &&& c.shards.contains_key(j) <==> j.0 < n
            &&& c.lifecycle.contains_key(j) <==> j.0 < n
            &&& j.0 < n ==> c.lifecycle[j] == ShardLifecycle::Alive
            &&& rt.topology.contains_key(j) <==> j.0 < n
            &&& j.0 < n ==> rt.topology[j].health == 1
            &&& rt.pressure.contains_key(j) <==> j.0 < n
            &&& j.0 < n ==> rt.pressure[j].queue_depth == 0 && rt.pressure[j].cursor_count == 0
                && rt.pressure[j].budget_consumed == 0
            &&& rt.domains.shards.contains_key(j) <==> j == k
            &&& rt.domains.shards[k].id == k
            &&& rt.domains.shards[k].fabric_addr == Some(
                ShardFabricAddr {
                    region: 0,
                    pod: 0,
                    rack: 0,
                    fabric_leaf: (k.0 % 0x1_0000) as u16,
                },
            )
            &&& rt.domains.tenants.contains_key(TenantId(0))
            &&& tenant.id == TenantId(0)
            &&& i < 64 ==> has_bit(tenant.capabilities.0, i)
            &&& i < 64 ==> has_bit(tenant.policy.assertion, i) && has_bit(
                tenant.policy.delegation,
                i,
            ) && has_bit(tenant.policy.observability, i) && has_bit(tenant.policy.disclosure, i)
            &&& rt.sessions == Map::<SessionId, SessionEntry>::empty()
            &&& rt.domains.sessions == Map::<SessionId, SessionDomain>::empty()
            &&& rt.domains.partitions == Map::<WirePartitionId, PartitionDomain>::empty()
            &&& rt.auth == Map::<AuthTableKey, PartitionAuthRow>::empty()
            &&& rt.telemetry.events.len() == 0
        }),
{
    lemma_extremes(i);
}

/// An empty runtime has no tables, coalesces from 1000 and sheds from 5000 on, and keeps 4096 events.
pub proof fn law_new_runtime()
    ensures
        ({
            let rt = empty_runtime();
            &&& rt.sessions == Map::<SessionId, SessionEntry>::empty()
            &&& rt.paths == Map::<PathId, PathEntry>::empty()
            &&& rt.domains.tenants == Map::<TenantId, TenantDomain>::empty()
            &&& rt.domains.sessions == Map::<SessionId, SessionDomain>::empty()
            &&& rt.domains.partitions == Map::<WirePartitionId, PartitionDomain>::empty()
            &&& rt.domains.shards == Map::<ShardId, ShardDomain>::empty()
            &&& rt.auth == Map::<AuthTableKey, PartitionAuthRow>::empty()
            &&& rt.topology == Map::<ShardId, TopologyNode>::empty()
            &&& rt.trust_store == Map::<TenantId, IssuerKey>::empty()
            &&& rt.pressure == Map::<ShardId, ShardPressure>::empty()
            &&& rt.admission.coalesce_threshold == 1_000
            &&& rt.admission.shed_threshold == 5_000
            &&& rt.telemetry.events.len() == 0
            &&& rt.telemetry.capacity == 4_096
            &&& rt.telemetry.dropped == 0
        }),
{
}

/// A crash is told everywhere as parked work, which makes a shard hot, and a recovery as no pressure,
/// which makes it healthy. Every shard takes the report, and the set of shards stays.
pub proof fn law_told_everywhere(
    shards: Map<ShardId, RuntimeView>,
    id: ShardId,
    pressure: ShardPressure,
    k: ShardId,
)
    ensures
        told_everywhere(shards, id, pressure).contains_key(k) <==> shards.contains_key(k),
        shards.contains_key(k) ==> told_everywhere(shards, id, pressure)[k] == with_pressure(
            shards[k],
            id,
            pressure,
        ),
        health_of(crash_pressure()) == -1,
        crash_pressure().queue_depth == 0,
        crash_pressure().cursor_count == 1,
        crash_pressure().budget_consumed == 0,
        health_of(no_pressure()) == 1,
        no_pressure().queue_depth == 0,
        no_pressure().cursor_count == 0,
        no_pressure().budget_consumed == 0,
{
}

/// Between two sets of shards lie the pairs with one shard in each.
pub proof fn law_pairs_between(a: Seq<ShardId>, b: Seq<ShardId>, x: ShardId, y: ShardId)
    ensures
        pairs_between(a, b).contains(pair_of(x, y)) <==> a.contains(x) && b.contains(y)
            || a.contains(y) && b.contains(x),
{
    if pairs_between(a, b).contains(pair_of(x, y)) {
        let (i, j) = choose|i: int, j: int|
            0 <= i < a.len() && 0 <= j < b.len() && pair_of(x, y) == pair_of(
                #[trigger] a[i],
                #[trigger] b[j],
            );
        law_pair_has_no_order(x, y, a[i], b[j]);
    }
    if a.contains(x) && b.contains(y) {
        let i = choose|i: int| 0 <= i < a.len() && a[i] == x;
        let j = choose|j: int| 0 <= j < b.len() && b[j] == y;
        assert(pair_of(x, y) == pair_of(a[i], b[j]));
    }
    if a.contains(y) && b.contains(x) {
        let i = choose|i: int| 0 <= i < a.len() && a[i] == y;
        let j = choose|j: int| 0 <= j < b.len() && b[j] == x;
        law_pair_has_no_order(x, y, a[i], b[j]);
        assert(pair_of(x, y) == pair_of(a[i], b[j]));
    }
}

/// A session that is registered on a shard is live there, on its path, with nothing acknowledged and
/// with every bit of authority.
pub proof fn law_registered_session(
    rt: RuntimeView,
    id: SessionId,
    path: PathId,
    other: SessionId,
    i: u64,
)
    requires
        i < 64,
    ensures
        ({
            let after = with_session(rt, id, path);
            let s = after.sessions[id];
            let d = after.domains.sessions[id];
            &&& after.sessions.contains_key(id)
            &&& s.session_id == id
            &&& s.tenant_id.0 == 0
            &&& s.active_path_id == Some(path)
            &&& s.prev_path_id is None
            &&& s.stream_seq_floor == 0
            &&& s.auth_mode == AuthorityMode::Advisory
            &&& s.last_active_causal_epoch == 0
            &&& s.consecutive_quiescent_epochs == 0
            &&& after.paths.contains_key(path)
            &&& after.paths[path].path_id == path
            &&& after.paths[path].session_id == id
            &&& after.paths[path].last_ack_stream_seq == 0
            &&& after.paths[path].state == PathState::Active
            &&& after.domains.sessions.contains_key(id)
            &&& d.id == id
            &&& d.tenant_id.0 == 0
            &&& d.auth_mode == AuthorityMode::Advisory
            &&& has_bit(d.claimed_caps.0, i)
            &&& has_bit(d.claimed_policy.assertion, i)
            &&& has_bit(d.claimed_policy.delegation, i)
            &&& has_bit(d.claimed_policy.observability, i)
            &&& has_bit(d.claimed_policy.disclosure, i)
            &&& other != id ==> after.sessions.contains_key(other) == rt.sessions.contains_key(
                other,
            ) && after.sessions[other] == rt.sessions[other]
            &&& after.domains.tenants == rt.domains.tenants
            &&& after.domains.partitions == rt.domains.partitions
            &&& after.domains.shards == rt.domains.shards
            &&& after.auth == rt.auth
            &&& after.admission == rt.admission
            &&& after.telemetry == rt.telemetry
            &&& after.topology == rt.topology
            &&& after.trust_store == rt.trust_store
            &&& after.pressure == rt.pressure
        }),
{
    lemma_extremes(i);
}

/// Draining empties the events and the count of the dropped ones, and nothing else.
pub proof fn law_drained(rt: RuntimeView)
    ensures
        with_drained_telemetry(rt).telemetry.events.len() == 0,
        with_drained_telemetry(rt).telemetry.dropped == 0,
        with_drained_telemetry(rt).telemetry.capacity == rt.telemetry.capacity,
        with_drained_telemetry(rt).sessions == rt.sessions,
        same_tables(with_drained_telemetry(rt), rt),
{
}

/// The changes of health are picked out of the events in their order.
pub proof fn law_health_changes(events: Seq<TelemetryEventView>, event: TelemetryEventView)
    ensures
        health_changes(Seq::empty()) == Seq::<(ShardId, i8, i8)>::empty(),
        event matches TelemetryEventView::TopologyHealthChanged {
            shard_id,
            old_health,
            new_health,
        } ==> health_changes(events.push(event)) == health_changes(events).push(
            (shard_id, old_health, new_health),
        ),
        !(event is TopologyHealthChanged) ==> health_changes(events.push(event)) == health_changes(
            events,
        ),
{
    assert(events.push(event).drop_last() =~= events);
}

/// A shard is seen as healthy where every other living shard has it healthy, and seen by none where
/// no other living shard has.
pub proof fn law_what_is_seen(c: ClusterView, target: ShardId, k: ShardId)
    ensures
        ({
            let looks = c.shards.contains_key(k) && k != target && c.lifecycle.contains_key(k)
                && c.lifecycle[k] == ShardLifecycle::Alive;
            let healthy = c.shards[k].topology.contains_key(target)
                && c.shards[k].topology[target].health == 1;
            &&& seen_healthy(c, target) && looks ==> healthy
            &&& seen_by_none(c, target) && looks ==> !healthy
        }),
        !seen_healthy(c, target) ==> exists|o: ShardId| #[trigger]
            c.shards.contains_key(o) && o != target && c.lifecycle.contains_key(o)
                && c.lifecycle[o] == ShardLifecycle::Alive && !(c.shards[o].topology.contains_key(
                target,
            ) && c.shards[o].topology[target].health == 1),
        !seen_by_none(c, target) ==> exists|o: ShardId| #[trigger]
            c.shards.contains_key(o) && o != target && c.lifecycle.contains_key(o)
                && c.lifecycle[o] == ShardLifecycle::Alive && c.shards[o].topology.contains_key(
                target,
            ) && c.shards[o].topology[target].health == 1,
{
    assert(observes(c, k, target) <==> (c.shards.contains_key(k) && k != target
        && c.lifecycle.contains_key(k) && c.lifecycle[k] == ShardLifecycle::Alive));
    if !seen_healthy(c, target) {
        let o = choose|o: ShardId| #[trigger]
            observes(c, o, target) && health_in(c.shards[o].topology, target) != HEALTH_POS;
        assert(c.shards.contains_key(o));
    }
    if !seen_by_none(c, target) {
        let o = choose|o: ShardId| #[trigger]
            observes(c, o, target) && health_in(c.shards[o].topology, target) == HEALTH_POS;
        assert(c.shards.contains_key(o));
    }
}

/// A new workload begins at number and epoch 1, for no named tenant; each header carries what the
/// workload is for, the least length, no flags, and one more number and epoch than the one before.
pub proof fn law_workload(
    session_id: SessionId,
    partition_id: WirePartitionId,
    opcode: u16,
    w: WorkloadView,
    steps: int,
)
    requires
        0 <= steps,
        w.stream_seq + steps <= u64::MAX,
        w.epoch + steps <= u64::MAX,
    ensures
        ({
            let f = fresh_workload(session_id, partition_id, opcode);
            &&& f.session_id == session_id
            &&& f.partition_id == partition_id
            &&& f.opcode == opcode
            &&& f.tenant_id.0 == 0
            &&& f.stream_seq == 1
            &&& f.epoch == 1
        }),
        ({
            let h = nth_header(w, steps);
            &&& h.opcode == w.opcode
            &&& h.flags == 0
            &&& h.length == 16
            &&& h.tenant_id == w.tenant_id
            &&& h.session_id == w.session_id
            &&& h.partition_id == w.partition_id
            &&& h.causal_epoch == w.epoch + steps
            &&& h.stream_seq == w.stream_seq + steps
        }),
        ({
            let after = workload_after(w, steps);
            &&& after.stream_seq == w.stream_seq + steps
            &&& after.epoch == w.epoch + steps
            &&& after.session_id == w.session_id
            &&& after.partition_id == w.partition_id
            &&& after.tenant_id == w.tenant_id
            &&& after.opcode == w.opcode
        }),
{
}

} // verus!
