//! What shards come to know of each other.

use vstd::prelude::*;

use crate::admission::{ShardPressure, no_pressure};
use crate::idmap::{lemma_sorted_keys_exist, sorted_keys};
use crate::ShardId;
use crate::runtime::RuntimeView;
use crate::sim::{
    ClusterView, Outbox, ShardLifecycle, alive_among, crash_pressure, delivered_all, gossiped,
    has_time, initial_cluster, is_alive, observes, pairs_between, seen_by_none, seen_healthy,
    sent, sent_to, ticked, ticked_times, told_everywhere,
};
use crate::sim::faults::{Faults, law_pair_has_no_order, pair_of};
use crate::sim::network::{NetworkView, PendingMsg, due_at, not_due_at};
use crate::topology::{HEALTH_NEG, HEALTH_POS, health_in, health_of, node_of};

verus! {

// ── Crashes and recoveries ───────────────────────────────────────────────────

/// The cluster after `id` crashed.
pub open spec fn crashed(c: ClusterView, id: ShardId) -> ClusterView {
    ClusterView {
        lifecycle: c.lifecycle.insert(id, ShardLifecycle::Crashed),
        shards: told_everywhere(c.shards, id, crash_pressure()),
        ..c
    }
}

/// The cluster after `id` was brought back.
pub open spec fn healed(c: ClusterView, id: ShardId) -> ClusterView {
    ClusterView {
        lifecycle: c.lifecycle.insert(id, ShardLifecycle::Alive),
        shards: told_everywhere(c.shards, id, no_pressure()),
        ..c
    }
}

/// At a crash every shard comes to see the crashed one as hot, the crashed one itself included.
pub proof fn law_crash_is_seen_at_once(c: ClusterView, id: ShardId, observer: ShardId)
    ensures
        seen_by_none(crashed(c, id), id),
        !is_alive(crashed(c, id).lifecycle, id),
        c.shards.contains_key(observer) ==> health_in(
            crashed(c, id).shards[observer].topology,
            id,
        ) == HEALTH_NEG,
{
}

/// A shard that is not alive is never seen as healthy: where no living shard sees it so, none does
/// after any number of ticks, whatever was in flight.
pub proof fn law_crashed_shard_is_never_pos(c: ClusterView, id: ShardId, n: nat)
    requires
        has_time(c, n as int),
        !is_alive(c.lifecycle, id),
        seen_by_none(c, id),
    ensures
        seen_by_none(ticked_times(c, n), id),
    decreases n,
{
    if n > 0 {
        let before = ticked_times(c, (n - 1) as nat);
        law_crashed_shard_is_never_pos(c, id, (n - 1) as nat);
        lemma_times(c, (n - 1) as nat);
        let due = due_at(before.network.pending, (before.tick + 1) as u64);
        lemma_delivered_dom(before.shards, before.lifecycle, due);
        assert forall|k: ShardId| #[trigger] observes(ticked_times(c, n), k, id) implies health_in(
            ticked_times(c, n).shards[k].topology,
            id,
        ) != HEALTH_POS by {
            assert(ticked_times(c, n).shards.dom().contains(k));
            assert(before.shards.dom().contains(k));
            assert(observes(before, k, id));
            lemma_unheard(before.shards, before.lifecycle, due, id, k);
        }
    }
}

/// After a recovery every shard sees the recovered one as healthy.
pub proof fn law_healed_shard_is_pos_everywhere(c: ClusterView, id: ShardId, observer: ShardId)
    ensures
        seen_healthy(healed(c, id), id),
        is_alive(healed(c, id).lifecycle, id),
        c.shards.contains_key(observer) ==> health_in(
            healed(c, id).shards[observer].topology,
            id,
        ) == HEALTH_POS,
{
}

/// A crash and a recovery leave what is known of every other shard as it was.
pub proof fn law_faults_concern_one_shard(
    c: ClusterView,
    id: ShardId,
    observer: ShardId,
    other: ShardId,
)
    requires
        c.shards.contains_key(observer),
        other != id,
    ensures
        health_in(crashed(c, id).shards[observer].topology, other) == health_in(
            c.shards[observer].topology,
            other,
        ),
        health_in(healed(c, id).shards[observer].topology, other) == health_in(
            c.shards[observer].topology,
            other,
        ),
        is_alive(crashed(c, id).lifecycle, other) == is_alive(c.lifecycle, other),
        is_alive(healed(c, id).lifecycle, other) == is_alive(c.lifecycle, other),
{
}

/// In a new cluster every shard is alive and sees every shard as healthy.
pub proof fn law_new_cluster_is_healthy(n: nat, seed: u64, observer: ShardId, target: ShardId)
    requires
        observer.0 < n,
        target.0 < n,
    ensures
        is_alive(initial_cluster(n, seed).lifecycle, target),
        health_in(initial_cluster(n, seed).shards[observer].topology, target) == HEALTH_POS,
        seen_healthy(initial_cluster(n, seed), target),
{
}

// ── What is sent ─────────────────────────────────────────────────────────────

/// The most ticks that a message takes.
pub open spec fn delay_bound(faults: Faults) -> int {
    if faults.max_delay_ticks == 0 {
        1
    } else {
        faults.max_delay_ticks as int
    }
}

/// A message that may have been sent at `tick`: between two different shards of `ids` that are
/// not severed, with the sender's own pressure, and due within the bound.
pub open spec fn is_fresh(
    msg: PendingMsg,
    faults: Faults,
    tick: u64,
    shards: Map<ShardId, RuntimeView>,
    ids: Seq<ShardId>,
) -> bool {
    match msg {
        PendingMsg::TopologyGossip { src, dst, pressure, deliver_at } => {
            &&& ids.contains(src) && ids.contains(dst)
            &&& src != dst
            &&& !faults.severed.contains(pair_of(src, dst))
            &&& shards[src].pressure.contains_key(src) && shards[src].pressure[src] == pressure
            &&& tick < deliver_at <= tick + delay_bound(faults)
        },
    }
}

/// `after` is `before` with fresh messages behind it.
pub open spec fn extends(
    before: Seq<PendingMsg>,
    after: Seq<PendingMsg>,
    faults: Faults,
    tick: u64,
    shards: Map<ShardId, RuntimeView>,
    ids: Seq<ShardId>,
) -> bool {
    &&& before.len() <= after.len()
    &&& after.take(before.len() as int) == before
    &&& forall|i: int|
        before.len() <= i < after.len() ==> is_fresh(#[trigger] after[i], faults, tick, shards, ids)
}

proof fn lemma_extends_transitive(
    a: Seq<PendingMsg>,
    b: Seq<PendingMsg>,
    c: Seq<PendingMsg>,
    faults: Faults,
    tick: u64,
    shards: Map<ShardId, RuntimeView>,
    ids: Seq<ShardId>,
)
    requires
        extends(a, b, faults, tick, shards, ids),
        extends(b, c, faults, tick, shards, ids),
    ensures
        extends(a, c, faults, tick, shards, ids),
{
    assert forall|i: int| 0 <= i < b.len() implies c[i] == b[i] by {
        assert(c.take(b.len() as int)[i] == b[i]);
    }
    assert forall|i: int| 0 <= i < a.len() implies b[i] == a[i] by {
        assert(b.take(a.len() as int)[i] == a[i]);
    }
    assert(c.take(a.len() as int) =~= a);
}

proof fn lemma_sent(
    out: Outbox,
    faults: Faults,
    tick: u64,
    shards: Map<ShardId, RuntimeView>,
    ids: Seq<ShardId>,
    src: ShardId,
    dst: ShardId,
)
    requires
        ids.contains(src),
        ids.contains(dst),
        shards[src].pressure.contains_key(src),
        tick + delay_bound(faults) <= u64::MAX,
    ensures
        ({
            let after = sent(out, faults, tick, src, dst, shards[src].pressure[src]);
            &&& extends(out.pending, after.pending, faults, tick, shards, ids)
            &&& faults.drop_threshold == 0 && src != dst && !faults.severed.contains(
                pair_of(src, dst),
            ) ==> {
                &&& after.pending.len() == out.pending.len() + 1
                &&& is_between(after.pending.last(), src, dst)
            }
        }),
{
    let after = sent(out, faults, tick, src, dst, shards[src].pressure[src]);
    assert(after.pending.take(out.pending.len() as int) =~= out.pending);
}

/// The message goes from `src` to `dst`.
pub open spec fn is_between(msg: PendingMsg, src: ShardId, dst: ShardId) -> bool {
    match msg {
        PendingMsg::TopologyGossip { src: s, dst: d, .. } => s == src && d == dst,
    }
}

proof fn lemma_sent_to(
    out: Outbox,
    faults: Faults,
    tick: u64,
    shards: Map<ShardId, RuntimeView>,
    ids: Seq<ShardId>,
    src: ShardId,
    dsts: Seq<ShardId>,
)
    requires
        ids.contains(src),
        forall|i: int| 0 <= i < dsts.len() ==> ids.contains(#[trigger] dsts[i]),
        shards[src].pressure.contains_key(src),
        tick + delay_bound(faults) <= u64::MAX,
    ensures
        ({
            let after = sent_to(out, faults, tick, src, dsts, shards[src].pressure[src]);
            &&& extends(out.pending, after.pending, faults, tick, shards, ids)
            &&& forall|dst: ShardId|
                faults.drop_threshold == 0 && #[trigger] dsts.contains(dst) && src != dst
                    && !faults.severed.contains(pair_of(src, dst)) ==> exists|i: int|
                    out.pending.len() <= i < after.pending.len() && is_between(
                        #[trigger] after.pending[i],
                        src,
                        dst,
                    )
        }),
    decreases dsts.len(),
{
    let p = shards[src].pressure[src];
    let after = sent_to(out, faults, tick, src, dsts, p);
    if dsts.len() == 0 {
        assert(after.pending.take(out.pending.len() as int) =~= out.pending);
    } else {
        let init = dsts.drop_last();
        let mid = sent_to(out, faults, tick, src, init, p);
        assert forall|i: int| 0 <= i < init.len() implies ids.contains(#[trigger] init[i]) by {
            assert(ids.contains(dsts[i]));
        }
        assert(ids.contains(dsts[dsts.len() - 1]));
        lemma_sent_to(out, faults, tick, shards, ids, src, init);
        lemma_sent(mid, faults, tick, shards, ids, src, dsts.last());
        lemma_extends_transitive(
            out.pending,
            mid.pending,
            after.pending,
            faults,
            tick,
            shards,
            ids,
        );
        assert forall|dst: ShardId|
            faults.drop_threshold == 0 && #[trigger] dsts.contains(dst) && src != dst
                && !faults.severed.contains(pair_of(src, dst)) implies exists|i: int|
            out.pending.len() <= i < after.pending.len() && is_between(
                #[trigger] after.pending[i],
                src,
                dst,
            ) by {
            if dst == dsts.last() {
                assert(is_between(after.pending[after.pending.len() - 1], src, dst));
            } else {
                let j = choose|j: int| 0 <= j < dsts.len() && dsts[j] == dst;
                assert(init[j] == dst);
                assert(init.contains(dst));
                let i = choose|i: int|
                    out.pending.len() <= i < mid.pending.len() && is_between(
                        #[trigger] mid.pending[i],
                        src,
                        dst,
                    );
                assert(after.pending.take(mid.pending.len() as int)[i] == mid.pending[i]);
                assert(is_between(after.pending[i], src, dst));
            }
        }
    }
}

proof fn lemma_gossiped(
    out: Outbox,
    faults: Faults,
    tick: u64,
    shards: Map<ShardId, RuntimeView>,
    ids: Seq<ShardId>,
    srcs: Seq<ShardId>,
)
    requires
        forall|i: int| 0 <= i < srcs.len() ==> ids.contains(#[trigger] srcs[i]),
        tick + delay_bound(faults) <= u64::MAX,
    ensures
        ({
            let after = gossiped(out, faults, tick, shards, srcs, ids);
            &&& extends(out.pending, after.pending, faults, tick, shards, ids)
            &&& forall|src: ShardId, dst: ShardId|
                faults.drop_threshold == 0 && #[trigger] srcs.contains(src)
                    && shards[src].pressure.contains_key(src) && #[trigger] ids.contains(dst)
                    && src != dst && !faults.severed.contains(pair_of(src, dst)) ==> exists|i: int|
                    out.pending.len() <= i < after.pending.len() && is_between(
                        #[trigger] after.pending[i],
                        src,
                        dst,
                    )
        }),
    decreases srcs.len(),
{
    let after = gossiped(out, faults, tick, shards, srcs, ids);
    if srcs.len() == 0 {
        assert(after.pending.take(out.pending.len() as int) =~= out.pending);
    } else {
        let init = srcs.drop_last();
        let last = srcs.last();
        let mid = gossiped(out, faults, tick, shards, init, ids);
        assert forall|i: int| 0 <= i < init.len() implies ids.contains(#[trigger] init[i]) by {
            assert(ids.contains(srcs[i]));
        }
        assert(ids.contains(srcs[srcs.len() - 1]));
        lemma_gossiped(out, faults, tick, shards, ids, init);
        if shards[last].pressure.contains_key(last) {
            lemma_sent_to(mid, faults, tick, shards, ids, last, ids);
        } else {
            assert(after.pending.take(mid.pending.len() as int) =~= mid.pending);
        }
        lemma_extends_transitive(
            out.pending,
            mid.pending,
            after.pending,
            faults,
            tick,
            shards,
            ids,
        );
        assert forall|src: ShardId, dst: ShardId|
            faults.drop_threshold == 0 && #[trigger] srcs.contains(src)
                && shards[src].pressure.contains_key(src) && #[trigger] ids.contains(dst) && src
                != dst && !faults.severed.contains(pair_of(src, dst)) implies exists|i: int|
            out.pending.len() <= i < after.pending.len() && is_between(
                #[trigger] after.pending[i],
                src,
                dst,
            ) by {
            if src == last {
                let i = choose|i: int|
                    mid.pending.len() <= i < after.pending.len() && is_between(
                        #[trigger] after.pending[i],
                        src,
                        dst,
                    );
                assert(is_between(after.pending[i], src, dst));
            } else {
                let j = choose|j: int| 0 <= j < srcs.len() && srcs[j] == src;
                assert(init[j] == src);
                assert(init.contains(src));
                let i = choose|i: int|
                    out.pending.len() <= i < mid.pending.len() && is_between(
                        #[trigger] mid.pending[i],
                        src,
                        dst,
                    );
                assert(after.pending.take(mid.pending.len() as int)[i] == mid.pending[i]);
                assert(is_between(after.pending[i], src, dst));
            }
        }
    }
}

proof fn lemma_due(msgs: Seq<PendingMsg>, tick: u64, m: PendingMsg)
    ensures
        due_at(msgs, tick).contains(m) <==> msgs.contains(m) && m.deliver_at() <= tick,
        not_due_at(msgs, tick).contains(m) <==> msgs.contains(m) && m.deliver_at() > tick,
    decreases msgs.len(),
{
    if msgs.len() > 0 {
        let init = msgs.drop_last();
        lemma_due(init, tick, m);
        lemma_contains_push(init, msgs.last(), m);
        assert(msgs =~= init.push(msgs.last()));
        lemma_contains_push(due_at(init, tick), msgs.last(), m);
        lemma_contains_push(not_due_at(init, tick), msgs.last(), m);
    }
}

proof fn lemma_contains_push<A>(s: Seq<A>, a: A, x: A)
    ensures
        s.push(a).contains(x) <==> s.contains(x) || x == a,
{
    if s.contains(x) {
        let i = choose|i: int| 0 <= i < s.len() && s[i] == x;
        assert(s.push(a)[i] == x);
    }
    assert(s.push(a)[s.len() as int] == a);
    if s.push(a).contains(x) {
        let i = choose|i: int| 0 <= i < s.push(a).len() && s.push(a)[i] == x;
        if i < s.len() {
            assert(s[i] == x);
        }
    }
}

proof fn lemma_alive_among(lifecycle: Map<ShardId, ShardLifecycle>, ids: Seq<ShardId>, id: ShardId)
    ensures
        alive_among(lifecycle, ids).contains(id) <==> ids.contains(id) && is_alive(lifecycle, id),
    decreases ids.len(),
{
    if ids.len() > 0 {
        let init = ids.drop_last();
        lemma_alive_among(lifecycle, init, id);
        assert(ids =~= init.push(ids.last()));
        lemma_contains_push(init, ids.last(), id);
        lemma_contains_push(alive_among(lifecycle, init), ids.last(), id);
    }
}

/// The shards that gossip in the tick after `c`.
pub open spec fn gossipers(c: ClusterView) -> Seq<ShardId> {
    alive_among(
        c.lifecycle,
        sorted_keys(
            delivered_all(
                c.shards,
                c.lifecycle,
                due_at(c.network.pending, (c.tick + 1) as u64),
            ).dom(),
        ),
    )
}

proof fn lemma_gossipers(c: ClusterView, id: ShardId)
    requires
        c.shards.dom().finite(),
    ensures
        gossipers(c).contains(id) <==> c.shards.contains_key(id) && is_alive(c.lifecycle, id),
{
    let due = due_at(c.network.pending, (c.tick + 1) as u64);
    lemma_delivered_dom(c.shards, c.lifecycle, due);
    let ids = sorted_keys(c.shards.dom());
    lemma_sorted_keys_exist(c.shards.dom());
    lemma_alive_among(c.lifecycle, ids, id);
    assert(ids.to_set().contains(id) <==> ids.contains(id));
}

/// Gossip brings no shard in and takes none out.
pub proof fn lemma_delivered_dom(
    shards: Map<ShardId, RuntimeView>,
    lifecycle: Map<ShardId, ShardLifecycle>,
    msgs: Seq<PendingMsg>,
)
    ensures
        delivered_all(shards, lifecycle, msgs).dom() == shards.dom(),
    decreases msgs.len(),
{
    if msgs.len() > 0 {
        lemma_delivered_dom(shards, lifecycle, msgs.drop_last());
        assert(delivered_all(shards, lifecycle, msgs).dom() =~= shards.dom());
    }
}

/// What is in flight after a tick was in flight before and is due later, or is fresh: sent in
/// this tick between two living shards that are not severed.
pub proof fn law_what_is_in_flight(c: ClusterView, m: PendingMsg)
    requires
        has_time(c, 1),
        ticked(c).network.pending.contains(m),
    ensures
        m.deliver_at() > ticked(c).tick,
        c.network.pending.contains(m) || is_fresh(
            m,
            c.network.faults,
            ticked(c).tick,
            ticked(c).shards,
            gossipers(c),
        ) && match m {
            PendingMsg::TopologyGossip { src, dst, .. } => is_alive(c.lifecycle, src) && is_alive(
                c.lifecycle,
                dst,
            ),
        },
{
    let tick = (c.tick + 1) as u64;
    let shards = ticked(c).shards;
    let ids = gossipers(c);
    let start = Outbox { rng: c.rng, pending: not_due_at(c.network.pending, tick) };
    assert forall|i: int| 0 <= i < ids.len() implies ids.contains(#[trigger] ids[i]) by {}
    lemma_gossiped(start, c.network.faults, tick, shards, ids, ids);
    let after = ticked(c).network.pending;
    let i = choose|i: int| 0 <= i < after.len() && after[i] == m;
    if i < start.pending.len() {
        assert(after.take(start.pending.len() as int)[i] == start.pending[i]);
        assert(start.pending.contains(m));
        lemma_due(c.network.pending, tick, m);
    } else {
        assert(is_fresh(after[i], c.network.faults, tick, shards, ids));
        match m {
            PendingMsg::TopologyGossip { src, dst, .. } => {
                lemma_alive_among(c.lifecycle, sorted_keys(shards.dom()), src);
                lemma_alive_among(c.lifecycle, sorted_keys(shards.dom()), dst);
            },
        }
    }
}

/// Nothing from `src` to `dst` is in flight.
pub open spec fn silent(c: ClusterView, src: ShardId, dst: ShardId) -> bool {
    forall|m: PendingMsg| #[trigger] c.network.pending.contains(m) ==> !is_between(m, src, dst)
}

proof fn lemma_severed_step(c: ClusterView, src: ShardId, dst: ShardId)
    requires
        has_time(c, 1),
        src == dst || c.network.faults.severed.contains(pair_of(src, dst)),
        silent(c, src, dst),
        c.shards.contains_key(dst),
    ensures
        silent(ticked(c), src, dst),
        ticked(c).shards.contains_key(dst),
        same_news(c.shards[dst], ticked(c).shards[dst], src),
{
    assert forall|m: PendingMsg| #[trigger] ticked(c).network.pending.contains(m) implies !is_between(
        m,
        src,
        dst,
    ) by {
        law_what_is_in_flight(c, m);
    }
    let due = due_at(c.network.pending, (c.tick + 1) as u64);
    assert forall|m: PendingMsg| #[trigger] due.contains(m) implies !is_between(m, src, dst) by {
        lemma_due(c.network.pending, (c.tick + 1) as u64, m);
    }
    lemma_unheard(c.shards, c.lifecycle, due, src, dst);
}

/// Both runtimes know the same of `id`.
pub open spec fn same_news(a: RuntimeView, b: RuntimeView, id: ShardId) -> bool {
    &&& a.topology.contains_key(id) == b.topology.contains_key(id)
    &&& a.topology[id] == b.topology[id]
    &&& a.pressure.contains_key(id) == b.pressure.contains_key(id)
    &&& a.pressure[id] == b.pressure[id]
}

proof fn lemma_severed(c: ClusterView, src: ShardId, dst: ShardId, n: nat)
    requires
        has_time(c, n as int),
        src == dst || c.network.faults.severed.contains(pair_of(src, dst)),
        silent(c, src, dst),
        c.shards.contains_key(dst),
    ensures
        silent(ticked_times(c, n), src, dst),
        ticked_times(c, n).shards.contains_key(dst),
        same_news(c.shards[dst], ticked_times(c, n).shards[dst], src),
    decreases n,
{
    if n > 0 {
        lemma_severed(c, src, dst, (n - 1) as nat);
        lemma_times(c, (n - 1) as nat);
        lemma_severed_step(ticked_times(c, (n - 1) as nat), src, dst);
    }
}

/// Severed shards hear nothing of each other: where nothing is in flight between them, nothing is
/// after any number of ticks, and what they see of each other stays as it was.
pub proof fn law_severed_shards_hear_nothing(c: ClusterView, src: ShardId, dst: ShardId, n: nat)
    requires
        has_time(c, n as int),
        c.network.faults.severed.contains(pair_of(src, dst)),
        silent(c, src, dst),
        c.shards.contains_key(dst),
    ensures
        silent(ticked_times(c, n), src, dst),
        health_in(ticked_times(c, n).shards[dst].topology, src) == health_in(
            c.shards[dst].topology,
            src,
        ),
{
    lemma_severed(c, src, dst, n);
}

/// The cluster after two sets of shards were severed.
pub open spec fn with_severed(c: ClusterView, a: Seq<ShardId>, b: Seq<ShardId>) -> ClusterView {
    ClusterView {
        network: NetworkView {
            faults: Faults {
                severed: c.network.faults.severed.union(pairs_between(a, b)),
                ..c.network.faults
            },
            ..c.network
        },
        ..c
    }
}

/// The cluster after two sets of shards can reach each other again.
pub open spec fn with_rejoined(c: ClusterView, a: Seq<ShardId>, b: Seq<ShardId>) -> ClusterView {
    ClusterView {
        network: NetworkView {
            faults: Faults {
                severed: c.network.faults.severed.difference(pairs_between(a, b)),
                ..c.network.faults
            },
            ..c.network
        },
        ..c
    }
}

/// The shard knows its own pressure, and its health by it.
pub open spec fn knows_itself(shards: Map<ShardId, RuntimeView>, id: ShardId) -> bool {
    &&& shards.contains_key(id)
    &&& shards[id].pressure.contains_key(id)
    &&& knows(shards, id, id, shards[id].pressure[id])
}

proof fn lemma_unheard(
    shards: Map<ShardId, RuntimeView>,
    lifecycle: Map<ShardId, ShardLifecycle>,
    msgs: Seq<PendingMsg>,
    src: ShardId,
    dst: ShardId,
)
    requires
        !is_alive(lifecycle, src) || forall|m: PendingMsg| #[trigger]
            msgs.contains(m) ==> !is_between(m, src, dst),
        shards.contains_key(dst),
    ensures
        ({
            let after = delivered_all(shards, lifecycle, msgs);
            &&& after.contains_key(dst)
            &&& after[dst].topology.contains_key(src) == shards[dst].topology.contains_key(src)
            &&& after[dst].topology[src] == shards[dst].topology[src]
            &&& after[dst].pressure.contains_key(src) == shards[dst].pressure.contains_key(src)
            &&& after[dst].pressure[src] == shards[dst].pressure[src]
        }),
    decreases msgs.len(),
{
    if msgs.len() > 0 {
        let init = msgs.drop_last();
        if is_alive(lifecycle, src) {
            assert forall|m: PendingMsg| #[trigger] init.contains(m) implies !is_between(
                m,
                src,
                dst,
            ) by {
                lemma_contains_push(init, msgs.last(), m);
                assert(msgs =~= init.push(msgs.last()));
            }
        }
        lemma_unheard(shards, lifecycle, init, src, dst);
        assert(msgs.contains(msgs[msgs.len() - 1]));
    }
}

proof fn lemma_heard(
    shards: Map<ShardId, RuntimeView>,
    lifecycle: Map<ShardId, ShardLifecycle>,
    msgs: Seq<PendingMsg>,
    src: ShardId,
    dst: ShardId,
    p: ShardPressure,
)
    requires
        is_alive(lifecycle, src),
        forall|m: PendingMsg| #[trigger]
            msgs.contains(m) && is_between(m, src, dst) ==> says(m, p),
        shards.contains_key(dst),
        (exists|m: PendingMsg| #[trigger] msgs.contains(m) && is_between(m, src, dst)) || knows(
            shards,
            dst,
            src,
            p,
        ),
    ensures
        knows(delivered_all(shards, lifecycle, msgs), dst, src, p),
    decreases msgs.len(),
{
    if msgs.len() > 0 {
        let init = msgs.drop_last();
        let last = msgs.last();
        assert(msgs =~= init.push(last));
        assert forall|m: PendingMsg| #[trigger] init.contains(m) && is_between(m, src, dst) implies says(
            m,
            p,
        ) by {
            lemma_contains_push(init, last, m);
        }
        lemma_contains_push(init, last, last);
        lemma_delivered_dom(shards, lifecycle, init);
        assert(delivered_all(shards, lifecycle, init).dom().contains(dst));
        if is_between(last, src, dst) {
        } else {
            if exists|m: PendingMsg| #[trigger] msgs.contains(m) && is_between(m, src, dst) {
                let m = choose|m: PendingMsg| #[trigger]
                    msgs.contains(m) && is_between(m, src, dst);
                lemma_contains_push(init, last, m);
                assert(init.contains(m));
            }
            lemma_heard(shards, lifecycle, init, src, dst, p);
        }
    } else {
        let m = choose|m: PendingMsg| #[trigger] msgs.contains(m) && is_between(m, src, dst);
    }
}

// ── Convergence ──────────────────────────────────────────────────────────────

/// The message tells the pressure `p`.
pub open spec fn says(m: PendingMsg, p: ShardPressure) -> bool {
    match m {
        PendingMsg::TopologyGossip { pressure, .. } => pressure == p,
    }
}

/// The shard `dst` knows `src` to be under the pressure `p`.
pub open spec fn knows(
    shards: Map<ShardId, RuntimeView>,
    dst: ShardId,
    src: ShardId,
    p: ShardPressure,
) -> bool {
    shards.contains_key(dst) && shards[dst].topology.contains_key(src)
        && shards[dst].topology[src] == node_of(p)
}

/// Both shards are alive, nothing between them is lost, `src` knows itself to be under the
/// pressure `p`, nobody else tells it its own pressure, and what was sent to `dst` with another
/// pressure is due by `stale`.
pub open spec fn settling(
    c: ClusterView,
    src: ShardId,
    dst: ShardId,
    p: ShardPressure,
    stale: int,
) -> bool {
    &&& c.shards.dom().finite()
    &&& src != dst
    &&& c.shards.contains_key(src) && c.shards.contains_key(dst)
    &&& is_alive(c.lifecycle, src) && is_alive(c.lifecycle, dst)
    &&& c.network.faults.drop_threshold == 0
    &&& !c.network.faults.severed.contains(pair_of(src, dst))
    &&& c.shards[src].pressure.contains_key(src) && c.shards[src].pressure[src] == p
    &&& forall|m: PendingMsg| #[trigger] c.network.pending.contains(m) ==> !is_between(m, src, src)
    &&& forall|m: PendingMsg| #[trigger]
        c.network.pending.contains(m) && is_between(m, src, dst) ==> says(m, p) || m.deliver_at()
            <= stale
}

/// A message from `src` to `dst` is in flight and due by `by`.
pub open spec fn expected(c: ClusterView, src: ShardId, dst: ShardId, by: int) -> bool {
    exists|m: PendingMsg| #[trigger]
        c.network.pending.contains(m) && is_between(m, src, dst) && m.deliver_at() <= by
}

proof fn lemma_settling_step(
    c: ClusterView,
    src: ShardId,
    dst: ShardId,
    p: ShardPressure,
    stale: int,
)
    requires
        has_time(c, 1),
        settling(c, src, dst, p, stale),
    ensures
        settling(ticked(c), src, dst, p, stale),
        expected(ticked(c), src, dst, ticked(c).tick + delay_bound(c.network.faults)),
        ticked(c).network.faults == c.network.faults,
        forall|m: PendingMsg| #[trigger]
            ticked(c).network.pending.contains(m) ==> m.deliver_at() > ticked(c).tick,
{
    let t = ticked(c);
    let tick = (c.tick + 1) as u64;
    let due = due_at(c.network.pending, tick);
    lemma_delivered_dom(c.shards, c.lifecycle, due);
    assert(t.shards.dom() == c.shards.dom());
    assert(t.shards.dom().contains(src) && t.shards.dom().contains(dst));
    assert forall|m: PendingMsg| #[trigger] due.contains(m) implies !is_between(m, src, src) by {
        lemma_due(c.network.pending, tick, m);
    }
    lemma_unheard(c.shards, c.lifecycle, due, src, src);
    assert forall|m: PendingMsg| #[trigger] t.network.pending.contains(m) implies m.deliver_at()
        > t.tick && !is_between(m, src, src) && (is_between(m, src, dst) ==> says(m, p)
        || m.deliver_at() <= stale) by {
        law_what_is_in_flight(c, m);
    }
    // The message of this tick.
    let ids = gossipers(c);
    lemma_gossipers(c, src);
    lemma_gossipers(c, dst);
    let start = Outbox { rng: c.rng, pending: not_due_at(c.network.pending, tick) };
    assert forall|i: int| 0 <= i < ids.len() implies ids.contains(#[trigger] ids[i]) by {}
    lemma_gossiped(start, c.network.faults, tick, t.shards, ids, ids);
    let i = choose|i: int|
        start.pending.len() <= i < t.network.pending.len() && is_between(
            #[trigger] t.network.pending[i],
            src,
            dst,
        );
    let m = t.network.pending[i];
    assert(is_fresh(m, c.network.faults, tick, t.shards, ids));
    assert(t.network.pending.contains(m));
}

proof fn lemma_knowledge_step(
    c: ClusterView,
    src: ShardId,
    dst: ShardId,
    p: ShardPressure,
    stale: int,
    by: int,
)
    requires
        has_time(c, 1),
        settling(c, src, dst, p, stale),
        forall|m: PendingMsg| #[trigger]
            c.network.pending.contains(m) && is_between(m, src, dst) ==> says(m, p),
        knows(c.shards, dst, src, p) || expected(c, src, dst, by),
    ensures
        forall|m: PendingMsg| #[trigger]
            ticked(c).network.pending.contains(m) && is_between(m, src, dst) ==> says(m, p),
        knows(ticked(c).shards, dst, src, p) || expected(ticked(c), src, dst, by),
        ticked(c).tick >= by ==> knows(ticked(c).shards, dst, src, p),
{
    let t = ticked(c);
    let tick = (c.tick + 1) as u64;
    let due = due_at(c.network.pending, tick);
    lemma_settling_step(c, src, dst, p, stale);
    assert forall|m: PendingMsg| #[trigger]
        t.network.pending.contains(m) && is_between(m, src, dst) implies says(m, p) by {
        law_what_is_in_flight(c, m);
    }
    assert forall|m: PendingMsg| #[trigger] due.contains(m) && is_between(m, src, dst) implies says(
        m,
        p,
    ) by {
        lemma_due(c.network.pending, tick, m);
    }
    if knows(c.shards, dst, src, p) {
        lemma_heard(c.shards, c.lifecycle, due, src, dst, p);
    } else {
        let m = choose|m: PendingMsg| #[trigger]
            c.network.pending.contains(m) && is_between(m, src, dst) && m.deliver_at() <= by;
        lemma_due(c.network.pending, tick, m);
        if m.deliver_at() <= tick {
            assert(due.contains(m));
            lemma_heard(c.shards, c.lifecycle, due, src, dst, p);
        } else {
            let ids = gossipers(c);
            let start = Outbox { rng: c.rng, pending: not_due_at(c.network.pending, tick) };
            assert forall|i: int| 0 <= i < ids.len() implies ids.contains(#[trigger] ids[i]) by {}
            lemma_gossiped(start, c.network.faults, tick, t.shards, ids, ids);
            let i = choose|i: int| 0 <= i < start.pending.len() && start.pending[i] == m;
            assert(t.network.pending.take(start.pending.len() as int)[i] == m);
            assert(t.network.pending[i] == m);
            assert(t.network.pending.contains(m));
            assert(expected(t, src, dst, by));
        }
    }
}

proof fn lemma_times(c: ClusterView, n: nat)
    requires
        has_time(c, n as int),
    ensures
        ticked_times(c, n).tick == c.tick + n,
        ticked_times(c, n).epoch == c.epoch + n,
        ticked_times(c, n).network.faults == c.network.faults,
        ticked_times(c, n).lifecycle == c.lifecycle,
        ticked_times(c, n).shards.dom() == c.shards.dom(),
    decreases n,
{
    if n > 0 {
        lemma_times(c, (n - 1) as nat);
        let before = ticked_times(c, (n - 1) as nat);
        lemma_delivered_dom(
            before.shards,
            before.lifecycle,
            due_at(before.network.pending, (before.tick + 1) as u64),
        );
    }
}

proof fn lemma_settling(
    c: ClusterView,
    src: ShardId,
    dst: ShardId,
    p: ShardPressure,
    stale: int,
    n: nat,
)
    requires
        has_time(c, n as int),
        settling(c, src, dst, p, stale),
    ensures
        settling(ticked_times(c, n), src, dst, p, stale),
        n > 0 ==> expected(
            ticked_times(c, n),
            src,
            dst,
            c.tick + n + delay_bound(c.network.faults),
        ),
        n > 0 ==> forall|m: PendingMsg| #[trigger]
            ticked_times(c, n).network.pending.contains(m) ==> m.deliver_at() > c.tick + n,
    decreases n,
{
    if n > 0 {
        let before = ticked_times(c, (n - 1) as nat);
        lemma_settling(c, src, dst, p, stale, (n - 1) as nat);
        lemma_times(c, (n - 1) as nat);
        lemma_times(c, n);
        lemma_settling_step(before, src, dst, p, stale);
    }
}

proof fn lemma_knowledge(
    c: ClusterView,
    src: ShardId,
    dst: ShardId,
    p: ShardPressure,
    n: nat,
    m: nat,
)
    requires
        n >= delay_bound(c.network.faults),
        has_time(c, (n + m) as int),
        settling(c, src, dst, p, c.tick + n),
    ensures
        ({
            let after = ticked_times(c, (n + m) as nat);
            let by = c.tick + n + delay_bound(c.network.faults);
            &&& settling(after, src, dst, p, c.tick + n)
            &&& forall|x: PendingMsg| #[trigger]
                after.network.pending.contains(x) && is_between(x, src, dst) ==> says(x, p)
            &&& knows(after.shards, dst, src, p) || expected(after, src, dst, by)
            &&& m >= delay_bound(c.network.faults) ==> knows(after.shards, dst, src, p)
        }),
    decreases m,
{
    let bound = delay_bound(c.network.faults);
    let by = c.tick + n + bound;
    lemma_settling(c, src, dst, p, c.tick + n, (n + m) as nat);
    lemma_times(c, (n + m) as nat);
    if m == 0 {
        let after = ticked_times(c, n);
        assert forall|x: PendingMsg| #[trigger]
            after.network.pending.contains(x) && is_between(x, src, dst) implies says(x, p) by {
            assert(x.deliver_at() > c.tick + n);
        }
    } else {
        let earlier = ticked_times(c, (n + m - 1) as nat);
        lemma_knowledge(c, src, dst, p, n, (m - 1) as nat);
        lemma_times(c, (n + m - 1) as nat);
        lemma_knowledge_step(earlier, src, dst, p, c.tick + n, by);
    }
}

/// Gossip converges. Where both shards stay alive, nothing between them is lost, and `src` stays
/// under the pressure `p`, `dst` knows of that pressure after twice the longest delay and from
/// then on, in whatever order messages arrive and whatever was in flight before.
pub proof fn law_gossip_converges(
    c: ClusterView,
    src: ShardId,
    dst: ShardId,
    p: ShardPressure,
    n: nat,
)
    requires
        settling(c, src, dst, p, c.tick + delay_bound(c.network.faults)),
        n >= 2 * delay_bound(c.network.faults),
        has_time(c, n as int),
    ensures
        knows(ticked_times(c, n).shards, dst, src, p),
        health_in(ticked_times(c, n).shards[dst].topology, src) == health_of(p),
{
    let bound = delay_bound(c.network.faults) as nat;
    lemma_knowledge(c, src, dst, p, bound, (n - bound) as nat);
}

/// A partition of the network isolates, and after it is healed the two sides agree. Where nothing
/// is in flight and two sets of shards are severed, a shard of one set sees a shard of the other
/// as before for any number of ticks `n`; after they can reach each other again, and `m` ticks of
/// at least twice the longest delay, it sees the other one as that one sees itself, where both are
/// alive, no message is lost, and the other one knows its own pressure.
pub proof fn law_partition_isolates_and_heals(
    c: ClusterView,
    a_set: Seq<ShardId>,
    b_set: Seq<ShardId>,
    a: ShardId,
    b: ShardId,
    n: nat,
    m: nat,
)
    requires
        c.shards.dom().finite(),
        c.network.pending.len() == 0,
        c.network.faults.drop_threshold == 0,
        a_set.contains(a) && b_set.contains(b) || a_set.contains(b) && b_set.contains(a),
        a != b,
        is_alive(c.lifecycle, a) && is_alive(c.lifecycle, b),
        knows_itself(c.shards, a),
        c.shards.contains_key(b),
        m >= 2 * delay_bound(c.network.faults),
        has_time(c, (n + m) as int),
    ensures
        ({
            let apart = ticked_times(with_severed(c, a_set, b_set), n);
            let joined = ticked_times(with_rejoined(apart, a_set, b_set), m);
            &&& health_in(apart.shards[b].topology, a) == health_in(c.shards[b].topology, a)
            &&& health_in(apart.shards[a].topology, a) == health_in(c.shards[a].topology, a)
            &&& health_in(joined.shards[b].topology, a) == health_in(joined.shards[a].topology, a)
            &&& health_in(joined.shards[a].topology, a) == health_in(c.shards[a].topology, a)
        }),
{
    let start = with_severed(c, a_set, b_set);
    let pair = pair_of(a, b);
    let p = c.shards[a].pressure[a];
    lemma_pair_between(a_set, b_set, a, b);
    let apart = ticked_times(start, n);
    lemma_times(start, n);
    assert forall|x: PendingMsg| !#[trigger] start.network.pending.contains(x) by {}
    lemma_severed(start, a, b, n);
    lemma_severed(start, a, a, n);
    let fresh = with_rejoined(apart, a_set, b_set);
    assert(!fresh.network.faults.severed.contains(pair));
    assert(settling(fresh, a, b, p, fresh.tick + delay_bound(fresh.network.faults)));
    law_gossip_converges(fresh, a, b, p, m);
    lemma_own_news(fresh, a, b, p, fresh.tick + delay_bound(fresh.network.faults), m);
}

proof fn lemma_pair_between(a_set: Seq<ShardId>, b_set: Seq<ShardId>, a: ShardId, b: ShardId)
    requires
        a_set.contains(a) && b_set.contains(b) || a_set.contains(b) && b_set.contains(a),
    ensures
        pairs_between(a_set, b_set).contains(pair_of(a, b)),
{
    law_pair_has_no_order(a, b, b, a);
    if a_set.contains(a) && b_set.contains(b) {
        let i = choose|i: int| 0 <= i < a_set.len() && a_set[i] == a;
        let j = choose|j: int| 0 <= j < b_set.len() && b_set[j] == b;
        assert(pair_of(a, b) == pair_of(a_set[i], b_set[j]));
    } else {
        let i = choose|i: int| 0 <= i < a_set.len() && a_set[i] == b;
        let j = choose|j: int| 0 <= j < b_set.len() && b_set[j] == a;
        assert(pair_of(a, b) == pair_of(a_set[i], b_set[j]));
    }
}

proof fn lemma_own_news(
    c: ClusterView,
    src: ShardId,
    dst: ShardId,
    p: ShardPressure,
    stale: int,
    n: nat,
)
    requires
        has_time(c, n as int),
        settling(c, src, dst, p, stale),
    ensures
        same_news(c.shards[src], ticked_times(c, n).shards[src], src),
{
    assert(silent(c, src, src));
    lemma_severed(c, src, src, n);
}

/// A shard that was brought back stays healthy in an observer's eyes from the first tick on, on
/// any network, where what it has in flight to the observer says no other and nobody else tells it
/// its own pressure.
pub proof fn law_healed_shard_stays_pos(
    c: ClusterView,
    id: ShardId,
    observer: ShardId,
    n: nat,
)
    requires
        has_time(healed(c, id), n as int),
        c.shards.contains_key(id),
        c.shards.contains_key(observer),
        silent(c, id, id),
        forall|m: PendingMsg| #[trigger]
            c.network.pending.contains(m) && is_between(m, id, observer) ==> says(m, no_pressure()),
    ensures
        health_in(ticked_times(healed(c, id), n).shards[observer].topology, id) == HEALTH_POS,
{
    let start = healed(c, id);
    lemma_steady(start, id, observer, no_pressure(), n);
}

/// What `src` tells `dst` is `p`, and `dst` knows it.
spec fn steady(c: ClusterView, src: ShardId, dst: ShardId, p: ShardPressure) -> bool {
    &&& is_alive(c.lifecycle, src)
    &&& c.shards.contains_key(src) && c.shards.contains_key(dst)
    &&& c.shards[src].pressure.contains_key(src) && c.shards[src].pressure[src] == p
    &&& silent(c, src, src)
    &&& forall|m: PendingMsg| #[trigger]
        c.network.pending.contains(m) && is_between(m, src, dst) ==> says(m, p)
    &&& knows(c.shards, dst, src, p)
}

proof fn lemma_steady(c: ClusterView, src: ShardId, dst: ShardId, p: ShardPressure, n: nat)
    requires
        has_time(c, n as int),
        steady(c, src, dst, p),
    ensures
        steady(ticked_times(c, n), src, dst, p),
    decreases n,
{
    if n > 0 {
        let before = ticked_times(c, (n - 1) as nat);
        lemma_steady(c, src, dst, p, (n - 1) as nat);
        lemma_times(c, (n - 1) as nat);
        let after = ticked(before);
        let tick = (before.tick + 1) as u64;
        let due = due_at(before.network.pending, tick);
        lemma_severed_step(before, src, src);
        lemma_delivered_dom(before.shards, before.lifecycle, due);
        assert(after.shards.dom().contains(dst));
        assert forall|m: PendingMsg| #[trigger]
            after.network.pending.contains(m) && is_between(m, src, dst) implies says(m, p) by {
            law_what_is_in_flight(before, m);
        }
        assert forall|m: PendingMsg| #[trigger] due.contains(m) && is_between(
            m,
            src,
            dst,
        ) implies says(m, p) by {
            lemma_due(before.network.pending, tick, m);
        }
        lemma_heard(before.shards, before.lifecycle, due, src, dst, p);
    }
}

/// Two clusters in which `src` is under the same pressure come to the same view of it, whatever
/// their delays and seeds.
pub proof fn law_orderings_converge_to_one_class(
    a: ClusterView,
    b: ClusterView,
    src: ShardId,
    dst: ShardId,
    p: ShardPressure,
    n: nat,
    m: nat,
)
    requires
        settling(a, src, dst, p, a.tick + delay_bound(a.network.faults)),
        settling(b, src, dst, p, b.tick + delay_bound(b.network.faults)),
        n >= 2 * delay_bound(a.network.faults),
        m >= 2 * delay_bound(b.network.faults),
        has_time(a, n as int),
        has_time(b, m as int),
    ensures
        health_in(ticked_times(a, n).shards[dst].topology, src) == health_in(
            ticked_times(b, m).shards[dst].topology,
            src,
        ),
{
    law_gossip_converges(a, src, dst, p, n);
    law_gossip_converges(b, src, dst, p, m);
}

// ── Chance ───────────────────────────────────────────────────────────────────

/// The two clusters differ at most in the state of the random generator.
pub open spec fn same_but_for_chance(a: ClusterView, b: ClusterView) -> bool {
    a == (ClusterView { rng: a.rng, ..b })
}

proof fn lemma_gossip_without_chance(
    out: Outbox,
    rng: u64,
    faults: Faults,
    tick: u64,
    shards: Map<ShardId, RuntimeView>,
    srcs: Seq<ShardId>,
    dsts: Seq<ShardId>,
)
    requires
        faults.drop_threshold == 0,
        faults.max_delay_ticks == 0,
    ensures
        gossiped(out, faults, tick, shards, srcs, dsts).rng == out.rng,
        gossiped(Outbox { rng, ..out }, faults, tick, shards, srcs, dsts).pending == gossiped(
            out,
            faults,
            tick,
            shards,
            srcs,
            dsts,
        ).pending,
        gossiped(Outbox { rng, ..out }, faults, tick, shards, srcs, dsts).rng == rng,
    decreases srcs.len(),
{
    if srcs.len() > 0 {
        let init = srcs.drop_last();
        let src = srcs.last();
        lemma_gossip_without_chance(out, rng, faults, tick, shards, init, dsts);
        let a = gossiped(out, faults, tick, shards, init, dsts);
        let b = gossiped(Outbox { rng, ..out }, faults, tick, shards, init, dsts);
        if shards[src].pressure.contains_key(src) {
            lemma_sending_without_chance(a, b, faults, tick, src, dsts, shards[src].pressure[src]);
        }
    }
}

proof fn lemma_sending_without_chance(
    a: Outbox,
    b: Outbox,
    faults: Faults,
    tick: u64,
    src: ShardId,
    dsts: Seq<ShardId>,
    p: ShardPressure,
)
    requires
        faults.drop_threshold == 0,
        faults.max_delay_ticks == 0,
        a.pending == b.pending,
    ensures
        sent_to(a, faults, tick, src, dsts, p).rng == a.rng,
        sent_to(b, faults, tick, src, dsts, p).rng == b.rng,
        sent_to(a, faults, tick, src, dsts, p).pending == sent_to(
            b,
            faults,
            tick,
            src,
            dsts,
            p,
        ).pending,
    decreases dsts.len(),
{
    if dsts.len() > 0 {
        lemma_sending_without_chance(a, b, faults, tick, src, dsts.drop_last(), p);
    }
}

/// The seed matters to faults alone: on a network that neither loses nor delays messages, two
/// runs that differ in the seed stay the same but for the generator itself, which stands still.
pub proof fn law_seed_matters_to_faults_alone(a: ClusterView, b: ClusterView, n: nat)
    requires
        same_but_for_chance(a, b),
        a.network.faults.drop_threshold == 0,
        a.network.faults.max_delay_ticks == 0,
    ensures
        same_but_for_chance(ticked_times(a, n), ticked_times(b, n)),
        ticked_times(a, n).rng == a.rng,
        ticked_times(a, n).network.faults == a.network.faults,
    decreases n,
{
    if n > 0 {
        law_seed_matters_to_faults_alone(a, b, (n - 1) as nat);
        let x = ticked_times(a, (n - 1) as nat);
        let y = ticked_times(b, (n - 1) as nat);
        let tick = (x.tick + 1) as u64;
        let shards = delivered_all(x.shards, x.lifecycle, due_at(x.network.pending, tick));
        let alive = alive_among(x.lifecycle, sorted_keys(shards.dom()));
        lemma_gossip_without_chance(
            Outbox { rng: x.rng, pending: not_due_at(x.network.pending, tick) },
            y.rng,
            x.network.faults,
            tick,
            shards,
            alive,
            alive,
        );
    }
}

} // verus!
