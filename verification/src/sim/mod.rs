//! A simulation of several shards in one process.
//!
//! Shards exchange their pressure over a simulated network with faults. Every step is driven by
//! a call and by a seeded random generator, so that a run can be repeated.

use vstd::prelude::*;

pub mod convergence;
pub mod faults;
pub mod network;
pub mod workload;

use crate::admission::{ShardPressure, no_pressure};
use crate::auth::AuthorityPolicy;
use crate::domain::{
    Domains, SessionDomain, SessionQuota, ShardDomain, ShardFabricAddr, TenantDomain,
    TenantQuota, default_session_quota,
};
use crate::idmap::{IdMap, Key, ascending, sorted_keys};
use crate::isa::{AuthorityMode, CapabilityBits};
use crate::{PathId, SessionId, ShardId, TenantId};
use crate::runtime::{RuntimeView, SessionRuntime, empty_runtime, with_pressure};
use crate::session::{
    ExpiryPolicy, PathEntry, PathState, ReapResult, SessionEntry, survivors, tombstones,
};
use crate::sim::convergence::lemma_delivered_dom;
use crate::sim::faults::{DRAWS, Faults, ShardPair, no_faults, pair_of, sampled_delay};
use crate::sim::network::{NetworkView, PendingMsg, SimNetwork, due_at, not_due_at};
use crate::telemetry::{Ring, TelemetryEvent, TelemetryEventView, event_views};
use crate::topology::{HEALTH_NEG, HEALTH_POS, TopologyNode, health_in, node_of};

verus! {

/// The state of the generator after `state`.
pub open spec fn lcg_next(state: u64) -> u64 {
    ((state * 6_364_136_223_846_793_005 + 1_442_695_040_888_963_407) % 0x1_0000_0000_0000_0000) as u64
}

/// A linear congruential generator of 64 bits.
#[derive(Clone, Copy, Debug, PartialEq, Eq, Structural)]
pub struct Lcg64 {
    state: u64,
}

impl View for Lcg64 {
    type V = u64;

    closed spec fn view(&self) -> u64 {
        self.state
    }
}

impl Lcg64 {
    pub fn new(seed: u64) -> (rng: Self)
        ensures
            rng@ == (seed + 1) % 0x1_0000_0000_0000_0000,
    {
        Lcg64 { state: seed.wrapping_add(1) }
    }

    pub fn next_u64(&mut self) -> (x: u64)
        ensures
            x == lcg_next(old(self)@),
            final(self)@ == x,
    {
        self.state = self.state.wrapping_mul(6_364_136_223_846_793_005).wrapping_add(
            1_442_695_040_888_963_407,
        );
        self.state
    }

    /// A draw: the high 31 bits of the next number.
    pub fn next_draw(&mut self) -> (draw: u32)
        ensures
            draw == lcg_next(old(self)@) / 0x2_0000_0000,
            draw < DRAWS,
            final(self)@ == lcg_next(old(self)@),
    {
        (self.next_u64() / 0x2_0000_0000) as u32
    }

    /// A number below `n`.
    pub fn next_usize_below(&mut self, n: usize) -> (x: usize)
        requires
            n > 0,
        ensures
            x == (lcg_next(old(self)@) as usize) % n,
            x < n,
            final(self)@ == lcg_next(old(self)@),
    {
        (self.next_u64() as usize) % n
    }
}

#[derive(Clone, Copy, Debug, PartialEq, Eq, Structural)]
pub enum ShardLifecycle {
    /// Fully operational.
    Alive,
    /// Takes no records and sends no gossip.
    Crashed,
    /// Restarted, but not heard of yet.
    Recovering,
}

/// Several shards, each with a runtime of its own, and the network between them.
pub struct SimCluster {
    pub shards: IdMap<ShardId, SessionRuntime>,
    pub lifecycle: IdMap<ShardId, ShardLifecycle>,
    pub network: SimNetwork,
    pub rng: Lcg64,
    /// The simulated causal epoch.
    pub epoch: u64,
    /// Ticks since the start.
    pub tick: u64,
}

/// The mathematical content of a [`SimCluster`].
pub struct ClusterView {
    pub shards: Map<ShardId, RuntimeView>,
    pub lifecycle: Map<ShardId, ShardLifecycle>,
    pub network: NetworkView,
    pub rng: u64,
    pub epoch: u64,
    pub tick: u64,
}

/// What the runtimes of all shards hold.
pub open spec fn runtime_views(shards: Map<ShardId, SessionRuntime>) -> Map<ShardId, RuntimeView> {
    shards.map_values(|rt: SessionRuntime| rt@)
}

impl View for SimCluster {
    type V = ClusterView;

    open spec fn view(&self) -> ClusterView {
        ClusterView {
            shards: runtime_views(self.shards@),
            lifecycle: self.lifecycle@,
            network: self.network@,
            rng: self.rng@,
            epoch: self.epoch,
            tick: self.tick,
        }
    }
}

/// The pressure that is reported for a crashed shard.
pub open spec fn crash_pressure() -> ShardPressure {
    ShardPressure { queue_depth: 0, cursor_count: 1, budget_consumed: 0 }
}

// ── The start ────────────────────────────────────────────────────────────────

/// The runtime of shard `i` among `n` shards that have all heard of each other.
pub open spec fn initial_shard(i: nat, n: nat) -> RuntimeView {
    let id = ShardId(i as u64);
    let addr = ShardFabricAddr { region: 0, pod: 0, rack: 0, fabric_leaf: (i % 0x1_0000) as u16 };
    RuntimeView {
        domains: Domains {
            tenants: Map::empty().insert(
                TenantId(0),
                TenantDomain {
                    id: TenantId(0),
                    capabilities: CapabilityBits::all(),
                    policy: AuthorityPolicy::all(),
                    quota: TenantQuota { max_sessions: 1_024, max_records_per_sec: 100_000 },
                },
            ),
            shards: Map::empty().insert(id, ShardDomain { id, fabric_addr: Some(addr) }),
            ..empty_runtime().domains
        },
        pressure: Map::new(|k: ShardId| k.0 < n, |k: ShardId| no_pressure()),
        topology: Map::new(|k: ShardId| k.0 < n, |k: ShardId| node_of(no_pressure())),
        ..empty_runtime()
    }
}

/// A cluster of `n` shards, all alive and healthy in each other's eyes.
pub open spec fn initial_cluster(n: nat, seed: u64) -> ClusterView {
    ClusterView {
        shards: Map::new(|k: ShardId| k.0 < n, |k: ShardId| initial_shard(k.0 as nat, n)),
        lifecycle: Map::new(|k: ShardId| k.0 < n, |k: ShardId| ShardLifecycle::Alive),
        network: NetworkView { pending: Seq::empty(), faults: no_faults() },
        rng: ((seed + 1) % 0x1_0000_0000_0000_0000) as u64,
        epoch: 1,
        tick: 0,
    }
}

// ── Gossip ───────────────────────────────────────────────────────────────────

/// The runtimes after a message came due. Nothing is delivered of a sender that is not alive.
pub open spec fn delivered(
    shards: Map<ShardId, RuntimeView>,
    lifecycle: Map<ShardId, ShardLifecycle>,
    msg: PendingMsg,
) -> Map<ShardId, RuntimeView> {
    match msg {
        PendingMsg::TopologyGossip { src, dst, pressure, .. } => if is_alive(lifecycle, src)
            && shards.contains_key(dst) {
            shards.insert(dst, with_pressure(shards[dst], src, pressure))
        } else {
            shards
        },
    }
}

/// The runtimes after several messages came due, one after the other.
pub open spec fn delivered_all(
    shards: Map<ShardId, RuntimeView>,
    lifecycle: Map<ShardId, ShardLifecycle>,
    msgs: Seq<PendingMsg>,
) -> Map<ShardId, RuntimeView>
    decreases msgs.len(),
{
    if msgs.len() == 0 {
        shards
    } else {
        delivered(delivered_all(shards, lifecycle, msgs.drop_last()), lifecycle, msgs.last())
    }
}

pub open spec fn is_alive(lifecycle: Map<ShardId, ShardLifecycle>, id: ShardId) -> bool {
    lifecycle.contains_key(id) && lifecycle[id] == ShardLifecycle::Alive
}

/// Those of `ids` that are alive, in the same order.
pub open spec fn alive_among(lifecycle: Map<ShardId, ShardLifecycle>, ids: Seq<ShardId>) -> Seq<ShardId>
    decreases ids.len(),
{
    if ids.len() == 0 {
        Seq::empty()
    } else if is_alive(lifecycle, ids.last()) {
        alive_among(lifecycle, ids.drop_last()).push(ids.last())
    } else {
        alive_among(lifecycle, ids.drop_last())
    }
}

/// What sending changes: the random generator and the messages in flight.
pub struct Outbox {
    pub rng: u64,
    pub pending: Seq<PendingMsg>,
}

/// The outbox after `src` told `dst` its pressure. Nothing is sent between severed shards; else
/// the message may be lost, and takes its time if it is not.
pub open spec fn sent(
    out: Outbox,
    faults: Faults,
    tick: u64,
    src: ShardId,
    dst: ShardId,
    pressure: ShardPressure,
) -> Outbox {
    if dst == src || faults.severed.contains(pair_of(src, dst)) {
        out
    } else {
        let drawn = if faults.drop_threshold > 0 {
            lcg_next(out.rng)
        } else {
            out.rng
        };
        if faults.drop_threshold > 0 && drawn / 0x2_0000_0000 < faults.drop_threshold {
            Outbox { rng: drawn, ..out }
        } else {
            let (delay, rng) = sampled_delay(faults, drawn);
            Outbox {
                rng,
                pending: out.pending.push(
                    PendingMsg::TopologyGossip {
                        src,
                        dst,
                        pressure,
                        deliver_at: (tick + delay) as u64,
                    },
                ),
            }
        }
    }
}

/// The outbox after `src` told each of `dsts` its pressure.
pub open spec fn sent_to(
    out: Outbox,
    faults: Faults,
    tick: u64,
    src: ShardId,
    dsts: Seq<ShardId>,
    pressure: ShardPressure,
) -> Outbox
    decreases dsts.len(),
{
    if dsts.len() == 0 {
        out
    } else {
        sent(
            sent_to(out, faults, tick, src, dsts.drop_last(), pressure),
            faults,
            tick,
            src,
            dsts.last(),
            pressure,
        )
    }
}

/// The outbox after each of `srcs` told each of `dsts` its pressure, as far as it knows it.
pub open spec fn gossiped(
    out: Outbox,
    faults: Faults,
    tick: u64,
    shards: Map<ShardId, RuntimeView>,
    srcs: Seq<ShardId>,
    dsts: Seq<ShardId>,
) -> Outbox
    decreases srcs.len(),
{
    if srcs.len() == 0 {
        out
    } else {
        let before = gossiped(out, faults, tick, shards, srcs.drop_last(), dsts);
        let src = srcs.last();
        if shards[src].pressure.contains_key(src) {
            sent_to(before, faults, tick, src, dsts, shards[src].pressure[src])
        } else {
            before
        }
    }
}

/// The cluster after one tick: what is due from living shards is delivered, and they gossip.
pub open spec fn ticked(c: ClusterView) -> ClusterView {
    let tick = (c.tick + 1) as u64;
    let shards = delivered_all(c.shards, c.lifecycle, due_at(c.network.pending, tick));
    let alive = alive_among(c.lifecycle, sorted_keys(shards.dom()));
    let out = gossiped(
        Outbox { rng: c.rng, pending: not_due_at(c.network.pending, tick) },
        c.network.faults,
        tick,
        shards,
        alive,
        alive,
    );
    ClusterView {
        shards,
        network: NetworkView { pending: out.pending, ..c.network },
        rng: out.rng,
        epoch: (c.epoch + 1) as u64,
        tick,
        ..c
    }
}

/// The cluster after `n` ticks.
pub open spec fn ticked_times(c: ClusterView, n: nat) -> ClusterView
    decreases n,
{
    if n == 0 {
        c
    } else {
        ticked(ticked_times(c, (n - 1) as nat))
    }
}

/// Neither the epoch nor the tick of delivery runs over in the next `n` ticks.
pub open spec fn has_time(c: ClusterView, n: int) -> bool {
    &&& c.epoch + n <= u64::MAX
    &&& c.tick + n + 1 <= u64::MAX
    &&& c.tick + n + c.network.faults.max_delay_ticks <= u64::MAX
}

// ── Faults and sessions ──────────────────────────────────────────────────────

/// Every runtime after it was told the pressure of `id`.
pub open spec fn told_everywhere(
    shards: Map<ShardId, RuntimeView>,
    id: ShardId,
    pressure: ShardPressure,
) -> Map<ShardId, RuntimeView> {
    shards.map_values(|rt: RuntimeView| with_pressure(rt, id, pressure))
}

/// The pairs between two sets of shards.
pub open spec fn pairs_between(a: Seq<ShardId>, b: Seq<ShardId>) -> Set<ShardPair> {
    Set::new(
        |p: ShardPair|
            exists|i: int, j: int|
                0 <= i < a.len() && 0 <= j < b.len() && p == pair_of(#[trigger] a[i], #[trigger] b[j]),
    )
}

/// A runtime after a session with every right was set up in it on `path`.
pub open spec fn with_session(rt: RuntimeView, id: SessionId, path: PathId) -> RuntimeView {
    RuntimeView {
        domains: Domains {
            sessions: rt.domains.sessions.insert(
                id,
                SessionDomain {
                    id,
                    tenant_id: TenantId(0),
                    claimed_caps: CapabilityBits::all(),
                    claimed_policy: AuthorityPolicy::all(),
                    auth_mode: AuthorityMode::Advisory,
                    quota: default_session_quota(),
                },
            ),
            ..rt.domains
        },
        sessions: rt.sessions.insert(
            id,
            SessionEntry {
                session_id: id,
                tenant_id: TenantId(0),
                active_path_id: Some(path),
                prev_path_id: None,
                stream_seq_floor: 0,
                auth_mode: AuthorityMode::Advisory,
                last_active_causal_epoch: 0,
                consecutive_quiescent_epochs: 0,
            },
        ),
        paths: rt.paths.insert(
            path,
            PathEntry {
                path_id: path,
                session_id: id,
                last_ack_stream_seq: 0,
                state: PathState::Active,
            },
        ),
        ..rt
    }
}

/// A runtime after its telemetry was taken out.
pub open spec fn with_drained_telemetry(rt: RuntimeView) -> RuntimeView {
    RuntimeView {
        telemetry: Ring { events: Seq::empty(), dropped: 0, ..rt.telemetry },
        ..rt
    }
}

/// The changes of health among events, in order: shard, health before, health after.
pub open spec fn health_changes(events: Seq<TelemetryEventView>) -> Seq<(ShardId, i8, i8)>
    decreases events.len(),
{
    if events.len() == 0 {
        Seq::empty()
    } else {
        let earlier = health_changes(events.drop_last());
        match events.last() {
            TelemetryEventView::TopologyHealthChanged { shard_id, old_health, new_health } =>
                earlier.push((shard_id, old_health, new_health)),
            _ => earlier,
        }
    }
}

/// Another living shard than `target`.
pub open spec fn observes(c: ClusterView, observer: ShardId, target: ShardId) -> bool {
    c.shards.contains_key(observer) && observer != target && is_alive(c.lifecycle, observer)
}

/// Every other living shard sees `target` as healthy.
pub open spec fn seen_healthy(c: ClusterView, target: ShardId) -> bool {
    forall|k: ShardId| #[trigger]
        observes(c, k, target) ==> health_in(c.shards[k].topology, target) == HEALTH_POS
}

/// No other living shard sees `target` as healthy.
pub open spec fn seen_by_none(c: ClusterView, target: ShardId) -> bool {
    forall|k: ShardId| #[trigger]
        observes(c, k, target) ==> health_in(c.shards[k].topology, target) != HEALTH_POS
}

fn initial_runtime(i: usize, n: usize) -> (rt: SessionRuntime)
    requires
        i < n,
    ensures
        rt@ == initial_shard(i as nat, n as nat),
{
    let shard_id = ShardId(i as u64);
    let mut rt = SessionRuntime::new();
    rt.domains.register_tenant(TenantDomain::single_tenant());
    let addr = ShardFabricAddr {
        region: 0,
        pod: 0,
        rack: 0,
        fabric_leaf: (i % 0x1_0000) as u16,
    };
    rt.domains.register_shard(ShardDomain { id: shard_id, fabric_addr: Some(addr) });
    let ghost base = rt@;
    let healthy = ShardPressure { queue_depth: 0, budget_consumed: 0, cursor_count: 0 };
    rt.update_pressure(shard_id, healthy);
    let mut j: usize = 0;
    while j < n
        invariant
            i < n,
            j <= n,
            shard_id == ShardId(i as u64),
            healthy == no_pressure(),
            base.pressure == Map::<ShardId, ShardPressure>::empty(),
            base.topology == Map::<ShardId, TopologyNode>::empty(),
            rt@ == (RuntimeView {
                pressure: rt@.pressure,
                topology: rt@.topology,
                telemetry: rt@.telemetry,
                ..base
            }),
            rt@.telemetry.capacity == base.telemetry.capacity,
            forall|k: ShardId| #[trigger]
                rt@.pressure.contains_key(k) <==> (k.0 < j || k == shard_id),
            forall|k: ShardId| #[trigger]
                rt@.pressure.contains_key(k) ==> rt@.pressure[k] == no_pressure(),
            forall|k: ShardId| #[trigger]
                rt@.topology.contains_key(k) <==> (k.0 < j || k == shard_id),
            forall|k: ShardId| #[trigger]
                rt@.topology.contains_key(k) ==> rt@.topology[k] == node_of(no_pressure()),
        decreases n - j,
    {
        if j != i {
            rt.update_pressure(ShardId(j as u64), healthy);
        }
        j = j + 1;
    }
    let _ = rt.telemetry.drain();
    proof {
        let goal = initial_shard(i as nat, n as nat);
        assert(rt@.pressure =~= goal.pressure);
        assert(rt@.topology =~= goal.topology);
        assert(rt@.domains.tenants =~= goal.domains.tenants);
        assert(rt@.domains.shards =~= goal.domains.shards);
    }
    rt
}

proof fn lemma_views_insert(shards: Map<ShardId, SessionRuntime>, id: ShardId, rt: SessionRuntime)
    ensures
        runtime_views(shards.insert(id, rt)) == runtime_views(shards).insert(id, rt@),
{
    assert(runtime_views(shards.insert(id, rt)) =~= runtime_views(shards).insert(id, rt@));
}

impl SimCluster {
    /// A cluster of `n` shards in one rack, all alive and healthy in each other's eyes.
    pub fn new(n: usize, seed: u64) -> (cluster: Self)
        ensures
            cluster@ == initial_cluster(n as nat, seed),
    {
        let mut shards: IdMap<ShardId, SessionRuntime> = IdMap::new();
        let mut lifecycle: IdMap<ShardId, ShardLifecycle> = IdMap::new();
        let mut i: usize = 0;
        while i < n
            invariant
                i <= n,
                forall|k: ShardId| #[trigger] shards@.contains_key(k) <==> k.0 < i,
                forall|k: ShardId| #[trigger]
                    shards@.contains_key(k) ==> shards@[k]@ == initial_shard(k.0 as nat, n as nat),
                forall|k: ShardId| #[trigger] lifecycle@.contains_key(k) <==> k.0 < i,
                forall|k: ShardId| #[trigger]
                    lifecycle@.contains_key(k) ==> lifecycle@[k] == ShardLifecycle::Alive,
            decreases n - i,
        {
            let shard_id = ShardId(i as u64);
            let _ = shards.insert(shard_id, initial_runtime(i, n));
            let _ = lifecycle.insert(shard_id, ShardLifecycle::Alive);
            i = i + 1;
        }
        let cluster = SimCluster {
            shards,
            lifecycle,
            network: SimNetwork::new(),
            rng: Lcg64::new(seed),
            epoch: 1,
            tick: 0,
        };
        proof {
            let goal = initial_cluster(n as nat, seed);
            assert(cluster@.shards =~= goal.shards);
            assert(cluster@.lifecycle =~= goal.lifecycle);
        }
        cluster
    }

    /// One step: delivers what is due from living shards, and lets every living shard tell the
    /// others its pressure.
    pub fn tick_once(&mut self)
        requires
            has_time(old(self)@, 1),
        ensures
            final(self)@ == ticked(old(self)@),
            final(self)@.shards.dom() == old(self)@.shards.dom(),
    {
        self.tick = self.tick + 1;
        self.epoch = self.epoch + 1;
        let msgs = self.network.drain_due(self.tick);
        let ghost start = self@;
        let mut i: usize = 0;
        assert(msgs@.take(0) =~= Seq::empty());
        while i < msgs.len()
            invariant
                i <= msgs@.len(),
                self@ == (ClusterView {
                    shards: delivered_all(start.shards, start.lifecycle, msgs@.take(i as int)),
                    ..start
                }),
            decreases msgs@.len() - i,
        {
            proof {
                assert(msgs@.take(i + 1).drop_last() =~= msgs@.take(i as int));
            }
            self.deliver(msgs[i]);
            i = i + 1;
        }
        assert(msgs@.take(msgs@.len() as int) =~= msgs@);
        proof {
            lemma_delivered_dom(start.shards, start.lifecycle, msgs@);
        }
        let alive = self.alive_shards();
        self.gossip(&alive);
    }

    /// `n` steps.
    pub fn tick(&mut self, n: u64)
        requires
            has_time(old(self)@, n as int),
        ensures
            final(self)@ == ticked_times(old(self)@, n as nat),
            final(self)@.shards.dom() == old(self)@.shards.dom(),
            final(self)@.lifecycle == old(self)@.lifecycle,
            final(self)@.network.faults == old(self)@.network.faults,
            final(self)@.tick == old(self)@.tick + n,
            final(self)@.epoch == old(self)@.epoch + n,
    {
        let mut i: u64 = 0;
        while i < n
            invariant
                i <= n,
                has_time(old(self)@, n as int),
                self@ == ticked_times(old(self)@, i as nat),
                self@.tick == old(self)@.tick + i,
                self@.epoch == old(self)@.epoch + i,
                self@.network.faults == old(self)@.network.faults,
                self@.lifecycle == old(self)@.lifecycle,
                self@.shards.dom() == old(self)@.shards.dom(),
            decreases n - i,
        {
            self.tick_once();
            i = i + 1;
        }
    }

    fn alive_shards(&self) -> (alive: Vec<ShardId>)
        ensures
            alive@ == alive_among(self@.lifecycle, sorted_keys(self@.shards.dom())),
            forall|i: int| 0 <= i < alive@.len() ==> self@.shards.contains_key(
                #[trigger] alive@[i],
            ),
    {
        let keys = self.shards.keys();
        assert(self.shards@.dom() =~= self@.shards.dom());
        let mut alive: Vec<ShardId> = Vec::new();
        let mut i: usize = 0;
        assert(keys@.take(0) =~= Seq::empty());
        while i < keys.len()
            invariant
                i <= keys@.len(),
                keys@.to_set() == self@.shards.dom(),
                alive@ == alive_among(self@.lifecycle, keys@.take(i as int)),
                forall|j: int| 0 <= j < alive@.len() ==> self@.shards.contains_key(
                    #[trigger] alive@[j],
                ),
            decreases keys@.len() - i,
        {
            let id = keys[i];
            proof {
                assert(keys@.take(i + 1).drop_last() =~= keys@.take(i as int));
                assert(keys@.to_set().contains(id));
            }
            if let Some(state) = self.lifecycle.get(&id) {
                if *state == ShardLifecycle::Alive {
                    alive.push(id);
                }
            }
            i = i + 1;
        }
        assert(keys@.take(keys@.len() as int) =~= keys@);
        alive
    }

    fn gossip(&mut self, alive: &Vec<ShardId>)
        requires
            forall|i: int| 0 <= i < alive@.len() ==> old(self)@.shards.contains_key(
                #[trigger] alive@[i],
            ),
            old(self)@.tick + 1 <= u64::MAX,
            old(self)@.tick + old(self)@.network.faults.max_delay_ticks <= u64::MAX,
        ensures
            ({
                let out = gossiped(
                    Outbox { rng: old(self)@.rng, pending: old(self)@.network.pending },
                    old(self)@.network.faults,
                    old(self)@.tick,
                    old(self)@.shards,
                    alive@,
                    alive@,
                );
                final(self)@ == (ClusterView {
                    network: NetworkView { pending: out.pending, ..old(self)@.network },
                    rng: out.rng,
                    ..old(self)@
                })
            }),
    {
        let ghost start = self@;
        let ghost empty = Outbox { rng: start.rng, pending: start.network.pending };
        let ghost mut out = empty;
        let mut i: usize = 0;
        assert(alive@.take(0) =~= Seq::empty());
        while i < alive.len()
            invariant
                i <= alive@.len(),
                forall|j: int| 0 <= j < alive@.len() ==> start.shards.contains_key(
                    #[trigger] alive@[j],
                ),
                start.tick + 1 <= u64::MAX,
                start.tick + start.network.faults.max_delay_ticks <= u64::MAX,
                start == old(self)@,
                empty == (Outbox { rng: start.rng, pending: start.network.pending }),
                out == gossiped(
                    empty,
                    start.network.faults,
                    start.tick,
                    start.shards,
                    alive@.take(i as int),
                    alive@,
                ),
                self@ == (ClusterView {
                    network: NetworkView { pending: out.pending, ..start.network },
                    rng: out.rng,
                    ..start
                }),
            decreases alive@.len() - i,
        {
            let src = alive[i];
            proof {
                assert(alive@.take(i + 1).drop_last() =~= alive@.take(i as int));
                assert(start.shards.contains_key(alive@[i as int]));
            }
            let own = match self.shards.get(&src) {
                Some(rt) => {
                    match rt.pressure.get(&src) {
                        Some(pressure) => Some(*pressure),
                        None => None,
                    }
                },
                None => None,
            };
            if let Some(pressure) = own {
                self.gossip_from(src, alive, pressure);
            }
            proof {
                out = Outbox { rng: self@.rng, pending: self@.network.pending };
            }
            i = i + 1;
        }
        assert(alive@.take(alive@.len() as int) =~= alive@);
    }

    fn gossip_from(&mut self, src: ShardId, dsts: &Vec<ShardId>, pressure: ShardPressure)
        requires
            old(self)@.tick + 1 <= u64::MAX,
            old(self)@.tick + old(self)@.network.faults.max_delay_ticks <= u64::MAX,
        ensures
            ({
                let out = sent_to(
                    Outbox { rng: old(self)@.rng, pending: old(self)@.network.pending },
                    old(self)@.network.faults,
                    old(self)@.tick,
                    src,
                    dsts@,
                    pressure,
                );
                final(self)@ == (ClusterView {
                    network: NetworkView { pending: out.pending, ..old(self)@.network },
                    rng: out.rng,
                    ..old(self)@
                })
            }),
    {
        let ghost start = self@;
        let ghost empty = Outbox { rng: start.rng, pending: start.network.pending };
        let mut i: usize = 0;
        assert(dsts@.take(0) =~= Seq::empty());
        while i < dsts.len()
            invariant
                i <= dsts@.len(),
                start.tick + 1 <= u64::MAX,
                start.tick + start.network.faults.max_delay_ticks <= u64::MAX,
                ({
                    let out = sent_to(
                        empty,
                        start.network.faults,
                        start.tick,
                        src,
                        dsts@.take(i as int),
                        pressure,
                    );
                    self@ == (ClusterView {
                        network: NetworkView { pending: out.pending, ..start.network },
                        rng: out.rng,
                        ..start
                    })
                }),
            decreases dsts@.len() - i,
        {
            proof {
                assert(dsts@.take(i + 1).drop_last() =~= dsts@.take(i as int));
            }
            self.send(src, dsts[i], pressure);
            i = i + 1;
        }
        assert(dsts@.take(dsts@.len() as int) =~= dsts@);
    }

    fn send(&mut self, src: ShardId, dst: ShardId, pressure: ShardPressure)
        requires
            old(self)@.tick + 1 <= u64::MAX,
            old(self)@.tick + old(self)@.network.faults.max_delay_ticks <= u64::MAX,
        ensures
            ({
                let out = sent(
                    Outbox { rng: old(self)@.rng, pending: old(self)@.network.pending },
                    old(self)@.network.faults,
                    old(self)@.tick,
                    src,
                    dst,
                    pressure,
                );
                final(self)@ == (ClusterView {
                    network: NetworkView { pending: out.pending, ..old(self)@.network },
                    rng: out.rng,
                    ..old(self)@
                })
            }),
    {
        if dst == src || self.network.faults.is_partitioned(src, dst) {
            return;
        }
        if self.network.faults.drop_threshold > 0 {
            let draw: u32 = self.rng.next_draw();
            if draw < self.network.faults.drop_threshold {
                return;
            }
        }
        let delay: u32 = self.network.faults.sample_delay_ticks(&mut self.rng);
        let deliver_at: u64 = self.tick + delay as u64;
        self.network.enqueue(PendingMsg::TopologyGossip { src, dst, pressure, deliver_at });
    }

    fn deliver(&mut self, msg: PendingMsg)
        ensures
            final(self)@ == (ClusterView {
                shards: delivered(old(self)@.shards, old(self)@.lifecycle, msg),
                ..old(self)@
            }),
    {
        match msg {
            PendingMsg::TopologyGossip { src, dst, pressure, .. } => {
                let alive = match self.lifecycle.get(&src) {
                    Some(state) => *state == ShardLifecycle::Alive,
                    None => false,
                };
                if alive {
                    self.tell(dst, src, pressure);
                }
            },
        }
    }

    /// Tells the shard `at` the pressure of `id`.
    fn tell(&mut self, at: ShardId, id: ShardId, pressure: ShardPressure)
        ensures
            final(self)@ == (ClusterView {
                shards: if old(self)@.shards.contains_key(at) {
                    old(self)@.shards.insert(
                        at,
                        with_pressure(old(self)@.shards[at], id, pressure),
                    )
                } else {
                    old(self)@.shards
                },
                ..old(self)@
            }),
    {
        if let Some(rt) = self.shards.get_mut(&at) {
            rt.update_pressure(id, pressure);
        }
        proof {
            if old(self).shards@.contains_key(at) {
                lemma_views_insert(old(self).shards@, at, self.shards@[at]);
                assert(self.shards@ =~= old(self).shards@.insert(at, self.shards@[at]));
            }
        }
    }

    fn tell_everywhere(&mut self, id: ShardId, pressure: ShardPressure)
        ensures
            final(self)@ == (ClusterView {
                shards: told_everywhere(old(self)@.shards, id, pressure),
                ..old(self)@
            }),
    {
        let ghost start = self@;
        let keys = self.shards.keys();
        let mut i: usize = 0;
        while i < keys.len()
            invariant
                i <= keys@.len(),
                start == old(self)@,
                ascending(keys@),
                keys@.to_set() == start.shards.dom(),
                self@ == (ClusterView { shards: self@.shards, ..start }),
                self@.shards.dom() == start.shards.dom(),
                forall|j: int|
                    0 <= j < i ==> self@.shards[#[trigger] keys@[j]] == with_pressure(
                        start.shards[keys@[j]],
                        id,
                        pressure,
                    ),
                forall|j: int|
                    i <= j < keys@.len() ==> self@.shards[#[trigger] keys@[j]]
                        == start.shards[keys@[j]],
            decreases keys@.len() - i,
        {
            let at = keys[i];
            let ghost before = self@;
            proof {
                assert(keys@.to_set().contains(keys@[i as int]));
                assert(self@.shards.contains_key(at));
                assert forall|j: int| 0 <= j < keys@.len() && j != i implies #[trigger] keys@[j] != at by {
                    assert(if j < i {
                        keys@[j].code() < keys@[i as int].code()
                    } else {
                        keys@[i as int].code() < keys@[j].code()
                    });
                }
            }
            self.tell(at, id, pressure);
            assert(self@.shards.dom() =~= before.shards.dom());
            i = i + 1;
        }
        proof {
            let goal = told_everywhere(start.shards, id, pressure);
            assert forall|k: ShardId| #[trigger] start.shards.contains_key(k) implies self@.shards[k]
                == goal[k] by {
                assert(keys@.to_set().contains(k));
                let j = choose|j: int| 0 <= j < keys@.len() && keys@[j] == k;
                assert(self@.shards[keys@[j]] == with_pressure(start.shards[keys@[j]], id, pressure));
            }
            assert(self@.shards =~= goal);
        }
    }

    /// Crashes a shard: it falls silent, and every shard hears at once that it is hot.
    pub fn crash_shard(&mut self, shard_id: ShardId)
        ensures
            final(self)@ == (ClusterView {
                lifecycle: old(self)@.lifecycle.insert(shard_id, ShardLifecycle::Crashed),
                shards: told_everywhere(old(self)@.shards, shard_id, crash_pressure()),
                ..old(self)@
            }),
    {
        let _ = self.lifecycle.insert(shard_id, ShardLifecycle::Crashed);
        self.inject_neg_everywhere(shard_id);
    }

    /// Lets every shard hear that `shard_id` is hot.
    pub fn inject_neg_everywhere(&mut self, shard_id: ShardId)
        ensures
            final(self)@ == (ClusterView {
                shards: told_everywhere(old(self)@.shards, shard_id, crash_pressure()),
                ..old(self)@
            }),
    {
        self.tell_everywhere(
            shard_id,
            ShardPressure { queue_depth: 0, budget_consumed: 0, cursor_count: 1 },
        );
    }

    /// Brings a shard back: it is alive, and every shard hears that it is healthy.
    pub fn heal_shard(&mut self, shard_id: ShardId)
        ensures
            final(self)@ == (ClusterView {
                lifecycle: old(self)@.lifecycle.insert(shard_id, ShardLifecycle::Alive),
                shards: told_everywhere(old(self)@.shards, shard_id, no_pressure()),
                ..old(self)@
            }),
    {
        let _ = self.lifecycle.insert(shard_id, ShardLifecycle::Alive);
        self.tell_everywhere(
            shard_id,
            ShardPressure { queue_depth: 0, budget_consumed: 0, cursor_count: 0 },
        );
    }

    /// Severs every shard of one set from every shard of another.
    pub fn partition_network(&mut self, set_a: &[ShardId], set_b: &[ShardId])
        ensures
            final(self)@ == (ClusterView {
                network: NetworkView {
                    faults: Faults {
                        severed: old(self)@.network.faults.severed.union(
                            pairs_between(set_a@, set_b@),
                        ),
                        ..old(self)@.network.faults
                    },
                    ..old(self)@.network
                },
                ..old(self)@
            }),
    {
        let ghost start = self@;
        let n: usize = set_a.len();
        let m: usize = set_b.len();
        let mut i: usize = 0;
        while i < n
            invariant
                i <= n == set_a@.len(),
                m == set_b@.len(),
                start == old(self)@,
                self@ == (ClusterView {
                    network: NetworkView {
                        faults: Faults {
                            severed: self@.network.faults.severed,
                            ..start.network.faults
                        },
                        ..start.network
                    },
                    ..start
                }),
                forall|p: ShardPair| #[trigger]
                    self@.network.faults.severed.contains(p) <==> (
                    start.network.faults.severed.contains(p) || pairs_between(
                        set_a@.take(i as int),
                        set_b@,
                    ).contains(p)),
            decreases n - i,
        {
            let a = set_a[i];
            let mut j: usize = 0;
            while j < m
                invariant
                    i < n == set_a@.len(),
                    j <= m == set_b@.len(),
                    a == set_a@[i as int],
                    start == old(self)@,
                    self@ == (ClusterView {
                        network: NetworkView {
                            faults: Faults {
                                severed: self@.network.faults.severed,
                                ..start.network.faults
                            },
                            ..start.network
                        },
                        ..start
                    }),
                    forall|p: ShardPair| #[trigger]
                        self@.network.faults.severed.contains(p) <==> (
                        start.network.faults.severed.contains(p) || pairs_between(
                            set_a@.take(i as int),
                            set_b@,
                        ).contains(p) || (exists|y: int|
                            0 <= y < j && p == pair_of(a, #[trigger] set_b@[y]))),
                decreases m - j,
            {
                self.network.faults.add_partition(a, set_b[j]);
                j = j + 1;
            }
            proof {
                lemma_pairs_step(set_a@, set_b@, i as int);
            }
            i = i + 1;
        }
        proof {
            assert(set_a@.take(n as int) =~= set_a@);
            assert(self@.network.faults.severed =~= start.network.faults.severed.union(
                pairs_between(set_a@, set_b@),
            ));
        }
    }

    /// Lets every shard of one set reach every shard of another again.
    pub fn heal_network_partition(&mut self, set_a: &[ShardId], set_b: &[ShardId])
        ensures
            final(self)@ == (ClusterView {
                network: NetworkView {
                    faults: Faults {
                        severed: old(self)@.network.faults.severed.difference(
                            pairs_between(set_a@, set_b@),
                        ),
                        ..old(self)@.network.faults
                    },
                    ..old(self)@.network
                },
                ..old(self)@
            }),
    {
        let ghost start = self@;
        let n: usize = set_a.len();
        let m: usize = set_b.len();
        let mut i: usize = 0;
        while i < n
            invariant
                i <= n == set_a@.len(),
                m == set_b@.len(),
                start == old(self)@,
                self@ == (ClusterView {
                    network: NetworkView {
                        faults: Faults {
                            severed: self@.network.faults.severed,
                            ..start.network.faults
                        },
                        ..start.network
                    },
                    ..start
                }),
                forall|p: ShardPair| #[trigger]
                    self@.network.faults.severed.contains(p) <==> (
                    start.network.faults.severed.contains(p) && !pairs_between(
                        set_a@.take(i as int),
                        set_b@,
                    ).contains(p)),
            decreases n - i,
        {
            let a = set_a[i];
            let mut j: usize = 0;
            while j < m
                invariant
                    i < n == set_a@.len(),
                    j <= m == set_b@.len(),
                    a == set_a@[i as int],
                    start == old(self)@,
                    self@ == (ClusterView {
                        network: NetworkView {
                            faults: Faults {
                                severed: self@.network.faults.severed,
                                ..start.network.faults
                            },
                            ..start.network
                        },
                        ..start
                    }),
                    forall|p: ShardPair| #[trigger]
                        self@.network.faults.severed.contains(p) <==> (
                        start.network.faults.severed.contains(p) && !pairs_between(
                            set_a@.take(i as int),
                            set_b@,
                        ).contains(p) && !(exists|y: int|
                            0 <= y < j && p == pair_of(a, #[trigger] set_b@[y]))),
                decreases m - j,
            {
                self.network.faults.remove_partition(a, set_b[j]);
                j = j + 1;
            }
            proof {
                lemma_pairs_step(set_a@, set_b@, i as int);
            }
            i = i + 1;
        }
        proof {
            assert(set_a@.take(n as int) =~= set_a@);
            assert(self@.network.faults.severed =~= start.network.faults.severed.difference(
                pairs_between(set_a@, set_b@),
            ));
        }
    }

    fn register_session_at(&mut self, at: ShardId, session_id: SessionId, path_id: PathId)
        ensures
            final(self)@ == (ClusterView {
                shards: if old(self)@.shards.contains_key(at) {
                    old(self)@.shards.insert(
                        at,
                        with_session(old(self)@.shards[at], session_id, path_id),
                    )
                } else {
                    old(self)@.shards
                },
                ..old(self)@
            }),
    {
        if let Some(rt) = self.shards.get_mut(&at) {
            rt.domains.register_session(
                SessionDomain {
                    id: session_id,
                    tenant_id: TenantId(0),
                    claimed_caps: CapabilityBits::all(),
                    claimed_policy: AuthorityPolicy::all(),
                    auth_mode: AuthorityMode::Advisory,
                    quota: SessionQuota::default(),
                },
            );
            rt.sessions.create(
                SessionEntry {
                    session_id,
                    tenant_id: TenantId(0),
                    active_path_id: Some(path_id),
                    prev_path_id: None,
                    stream_seq_floor: 0,
                    auth_mode: AuthorityMode::Advisory,
                    last_active_causal_epoch: 0,
                    consecutive_quiescent_epochs: 0,
                },
            );
            rt.paths.create(
                PathEntry {
                    path_id,
                    session_id,
                    last_ack_stream_seq: 0,
                    state: PathState::Active,
                },
            );
        }
        proof {
            if old(self).shards@.contains_key(at) {
                lemma_views_insert(old(self).shards@, at, self.shards@[at]);
                assert(self.shards@ =~= old(self).shards@.insert(at, self.shards@[at]));
            }
        }
    }

    /// Sets up a session with every right on all shards, so that each of them can route it.
    pub fn register_session_everywhere(&mut self, session_id: SessionId, path_id: PathId)
        ensures
            final(self)@ == (ClusterView {
                shards: old(self)@.shards.map_values(
                    |rt: RuntimeView| with_session(rt, session_id, path_id),
                ),
                ..old(self)@
            }),
    {
        let ghost start = self@;
        let keys = self.shards.keys();
        let mut i: usize = 0;
        while i < keys.len()
            invariant
                i <= keys@.len(),
                start == old(self)@,
                ascending(keys@),
                keys@.to_set() == start.shards.dom(),
                self@ == (ClusterView { shards: self@.shards, ..start }),
                self@.shards.dom() == start.shards.dom(),
                forall|j: int|
                    0 <= j < i ==> self@.shards[#[trigger] keys@[j]] == with_session(
                        start.shards[keys@[j]],
                        session_id,
                        path_id,
                    ),
                forall|j: int|
                    i <= j < keys@.len() ==> self@.shards[#[trigger] keys@[j]]
                        == start.shards[keys@[j]],
            decreases keys@.len() - i,
        {
            let at = keys[i];
            let ghost before = self@;
            proof {
                assert(keys@.to_set().contains(keys@[i as int]));
                assert(self@.shards.contains_key(at));
                assert forall|j: int| 0 <= j < keys@.len() && j != i implies #[trigger] keys@[j] != at by {
                    assert(if j < i {
                        keys@[j].code() < keys@[i as int].code()
                    } else {
                        keys@[i as int].code() < keys@[j].code()
                    });
                }
            }
            self.register_session_at(at, session_id, path_id);
            assert(self@.shards.dom() =~= before.shards.dom());
            i = i + 1;
        }
        proof {
            let goal = start.shards.map_values(
                |rt: RuntimeView| with_session(rt, session_id, path_id),
            );
            assert forall|k: ShardId| #[trigger] start.shards.contains_key(k) implies self@.shards[k]
                == goal[k] by {
                assert(keys@.to_set().contains(k));
                let j = choose|j: int| 0 <= j < keys@.len() && keys@[j] == k;
                assert(self@.shards[keys@[j]] == with_session(
                    start.shards[keys@[j]],
                    session_id,
                    path_id,
                ));
            }
            assert(self@.shards =~= goal);
        }
    }

    /// The health of `target` as `observer` sees it.
    pub fn health_as_seen_by(&self, observer: ShardId, target: ShardId) -> (health: i8)
        requires
            self@.shards.contains_key(observer),
        ensures
            health == health_in(self@.shards[observer].topology, target),
    {
        match self.shards.get(&observer) {
            Some(rt) => rt.topology.health(target),
            None => HEALTH_NEG,
        }
    }

    fn observer_health(&self, observer: ShardId, target: ShardId) -> (health: Option<i8>)
        ensures
            health == (if observes(self@, observer, target) {
                Some(health_in(self@.shards[observer].topology, target))
            } else {
                None
            }),
    {
        if observer == target {
            return None;
        }
        let alive = match self.lifecycle.get(&observer) {
            Some(state) => *state == ShardLifecycle::Alive,
            None => false,
        };
        if !alive {
            return None;
        }
        match self.shards.get(&observer) {
            Some(rt) => Some(rt.topology.health(target)),
            None => None,
        }
    }

    /// Whether every other living shard sees `target` as healthy.
    pub fn all_see_healthy(&self, target: ShardId) -> (all: bool)
        ensures
            all == seen_healthy(self@, target),
    {
        let keys = self.shards.keys();
        let mut i: usize = 0;
        while i < keys.len()
            invariant
                i <= keys@.len(),
                keys@.to_set() == self.shards@.dom(),
                forall|j: int|
                    0 <= j < i && observes(self@, #[trigger] keys@[j], target) ==> health_in(
                        self@.shards[keys@[j]].topology,
                        target,
                    ) == HEALTH_POS,
            decreases keys@.len() - i,
        {
            if let Some(health) = self.observer_health(keys[i], target) {
                if health != HEALTH_POS {
                    assert(observes(self@, keys@[i as int], target));
                    return false;
                }
            }
            i = i + 1;
        }
        proof {
            assert forall|k: ShardId| #[trigger] observes(self@, k, target) implies health_in(
                self@.shards[k].topology,
                target,
            ) == HEALTH_POS by {
                assert(keys@.to_set().contains(k));
                let j = choose|j: int| 0 <= j < keys@.len() && keys@[j] == k;
                assert(observes(self@, keys@[j], target));
            }
        }
        true
    }

    /// Whether no other living shard sees `target` as healthy.
    pub fn none_see_pos(&self, target: ShardId) -> (none: bool)
        ensures
            none == seen_by_none(self@, target),
    {
        let keys = self.shards.keys();
        let mut i: usize = 0;
        while i < keys.len()
            invariant
                i <= keys@.len(),
                keys@.to_set() == self.shards@.dom(),
                forall|j: int|
                    0 <= j < i && observes(self@, #[trigger] keys@[j], target) ==> health_in(
                        self@.shards[keys@[j]].topology,
                        target,
                    ) != HEALTH_POS,
            decreases keys@.len() - i,
        {
            if let Some(health) = self.observer_health(keys[i], target) {
                if health == HEALTH_POS {
                    assert(observes(self@, keys@[i as int], target));
                    return false;
                }
            }
            i = i + 1;
        }
        proof {
            assert forall|k: ShardId| #[trigger] observes(self@, k, target) implies health_in(
                self@.shards[k].topology,
                target,
            ) != HEALTH_POS by {
                assert(keys@.to_set().contains(k));
                let j = choose|j: int| 0 <= j < keys@.len() && keys@[j] == k;
                assert(observes(self@, keys@[j], target));
            }
        }
        true
    }

    /// Takes out the telemetry of a shard.
    pub fn drain_telemetry(&mut self, shard_id: ShardId) -> (events: Vec<TelemetryEvent>)
        ensures
            if old(self)@.shards.contains_key(shard_id) {
                let rt = old(self)@.shards[shard_id];
                &&& event_views(events@) == rt.telemetry.events
                &&& final(self)@ == (ClusterView {
                    shards: old(self)@.shards.insert(shard_id, with_drained_telemetry(rt)),
                    ..old(self)@
                })
            } else {
                events@.len() == 0 && final(self)@ == old(self)@
            },
    {
        let mut events: Vec<TelemetryEvent> = Vec::new();
        if let Some(rt) = self.shards.get_mut(&shard_id) {
            events = rt.telemetry.drain();
        }
        proof {
            if old(self).shards@.contains_key(shard_id) {
                lemma_views_insert(old(self).shards@, shard_id, self.shards@[shard_id]);
                assert(self.shards@ =~= old(self).shards@.insert(shard_id, self.shards@[shard_id]));
            }
        }
        events
    }

    /// Takes out the telemetry of a shard, and gives the changes of health in it.
    pub fn drain_topology_events(&mut self, shard_id: ShardId) -> (changes: Vec<(ShardId, i8, i8)>)
        ensures
            if old(self)@.shards.contains_key(shard_id) {
                let rt = old(self)@.shards[shard_id];
                &&& changes@ == health_changes(rt.telemetry.events)
                &&& final(self)@ == (ClusterView {
                    shards: old(self)@.shards.insert(shard_id, with_drained_telemetry(rt)),
                    ..old(self)@
                })
            } else {
                changes@.len() == 0 && final(self)@ == old(self)@
            },
    {
        let events = self.drain_telemetry(shard_id);
        let ghost views = event_views(events@);
        let mut changes: Vec<(ShardId, i8, i8)> = Vec::new();
        let mut i: usize = 0;
        assert(views.take(0) =~= Seq::empty());
        while i < events.len()
            invariant
                i <= events@.len(),
                views == event_views(events@),
                changes@ == health_changes(views.take(i as int)),
            decreases events@.len() - i,
        {
            proof {
                assert(views.take(i + 1).drop_last() =~= views.take(i as int));
                assert(views.take(i + 1).last() == events@[i as int]@);
            }
            if let TelemetryEvent::TopologyHealthChanged { shard_id, old_health, new_health } =
                &events[i] {
                changes.push((*shard_id, *old_health, *new_health));
            }
            i = i + 1;
        }
        assert(views.take(events@.len() as int) =~= views);
        changes
    }

    fn reap_at(&mut self, at: ShardId, policy: &ExpiryPolicy) -> (result: ReapResult)
        requires
            old(self)@.shards.contains_key(at),
        ensures
            result.tombstoned@ == tombstones(
                *policy,
                old(self)@.shards[at].sessions,
                old(self)@.epoch,
                sorted_keys(old(self)@.shards[at].sessions.dom()),
            ),
            final(self)@ == (ClusterView {
                shards: old(self)@.shards.insert(
                    at,
                    RuntimeView {
                        sessions: survivors(
                            *policy,
                            old(self)@.shards[at].sessions,
                            old(self)@.epoch,
                        ),
                        ..old(self)@.shards[at]
                    },
                ),
                ..old(self)@
            }),
    {
        let epoch: u64 = self.epoch;
        let mut result = ReapResult { tombstoned: Vec::new() };
        if let Some(rt) = self.shards.get_mut(&at) {
            result = rt.run_reaper(policy, epoch);
        }
        proof {
            lemma_views_insert(old(self).shards@, at, self.shards@[at]);
            assert(self.shards@ =~= old(self).shards@.insert(at, self.shards@[at]));
        }
        result
    }

    /// Ends, on every shard, the sessions that `policy` no longer lets live at the current epoch.
    /// Gives the result of each shard.
    pub fn reap_all(&mut self, policy: &ExpiryPolicy) -> (results: IdMap<ShardId, ReapResult>)
        ensures
            results@.dom() == old(self)@.shards.dom(),
            forall|k: ShardId| #[trigger]
                results@.contains_key(k) ==> results@[k].tombstoned@ == tombstones(
                    *policy,
                    old(self)@.shards[k].sessions,
                    old(self)@.epoch,
                    sorted_keys(old(self)@.shards[k].sessions.dom()),
                ),
            final(self)@ == (ClusterView {
                shards: old(self)@.shards.map_values(
                    |rt: RuntimeView|
                        RuntimeView {
                            sessions: survivors(*policy, rt.sessions, old(self)@.epoch),
                            ..rt
                        },
                ),
                ..old(self)@
            }),
    {
        let ghost start = self@;
        let keys = self.shards.keys();
        let mut results: IdMap<ShardId, ReapResult> = IdMap::new();
        let mut i: usize = 0;
        while i < keys.len()
            invariant
                i <= keys@.len(),
                start == old(self)@,
                ascending(keys@),
                keys@.to_set() == start.shards.dom(),
                self@ == (ClusterView { shards: self@.shards, ..start }),
                self@.shards.dom() == start.shards.dom(),
                forall|k: ShardId| #[trigger]
                    results@.contains_key(k) <==> keys@.take(i as int).contains(k),
                forall|k: ShardId| #[trigger]
                    results@.contains_key(k) ==> results@[k].tombstoned@ == tombstones(
                        *policy,
                        start.shards[k].sessions,
                        start.epoch,
                        sorted_keys(start.shards[k].sessions.dom()),
                    ),
                forall|j: int|
                    0 <= j < i ==> self@.shards[#[trigger] keys@[j]] == (RuntimeView {
                        sessions: survivors(
                            *policy,
                            start.shards[keys@[j]].sessions,
                            start.epoch,
                        ),
                        ..start.shards[keys@[j]]
                    }),
                forall|j: int|
                    i <= j < keys@.len() ==> self@.shards[#[trigger] keys@[j]]
                        == start.shards[keys@[j]],
            decreases keys@.len() - i,
        {
            let at = keys[i];
            let ghost before = self@;
            proof {
                assert(keys@.to_set().contains(keys@[i as int]));
                assert(self@.shards.contains_key(at));
                assert forall|j: int| 0 <= j < keys@.len() && j != i implies #[trigger] keys@[j] != at by {
                    assert(if j < i {
                        keys@[j].code() < keys@[i as int].code()
                    } else {
                        keys@[i as int].code() < keys@[j].code()
                    });
                }
                let done = keys@.take(i as int);
                let next = keys@.take(i + 1);
                assert forall|k: ShardId| #[trigger] next.contains(k) <==> done.contains(k) || k
                    == at by {
                    if done.contains(k) {
                        let j = choose|j: int| 0 <= j < done.len() && done[j] == k;
                        assert(next[j] == k);
                    }
                    assert(next[i as int] == at);
                    if next.contains(k) {
                        let j = choose|j: int| 0 <= j < next.len() && next[j] == k;
                        if j < i {
                            assert(done[j] == k);
                        }
                    }
                }
            }
            let result = self.reap_at(at, policy);
            let _ = results.insert(at, result);
            assert(self@.shards.dom() =~= before.shards.dom());
            i = i + 1;
        }
        proof {
            assert(keys@.take(keys@.len() as int) =~= keys@);
            assert forall|k: ShardId| results@.dom().contains(k) <==> start.shards.dom().contains(k) by {
                assert(results@.contains_key(k) <==> keys@.contains(k));
                assert(keys@.to_set().contains(k) <==> keys@.contains(k));
            }
            assert(results@.dom() =~= start.shards.dom());
            let goal = start.shards.map_values(
                |rt: RuntimeView|
                    RuntimeView { sessions: survivors(*policy, rt.sessions, start.epoch), ..rt },
            );
            assert forall|k: ShardId| #[trigger] start.shards.contains_key(k) implies self@.shards[k]
                == goal[k] by {
                assert(keys@.to_set().contains(k));
                let j = choose|j: int| 0 <= j < keys@.len() && keys@[j] == k;
                assert(self@.shards[keys@[j]].paths == start.shards[keys@[j]].paths);
            }
            assert(self@.shards =~= goal);
        }
        results
    }
}

proof fn lemma_pairs_step(a: Seq<ShardId>, b: Seq<ShardId>, i: int)
    requires
        0 <= i < a.len(),
    ensures
        forall|p: ShardPair| #[trigger]
            pairs_between(a.take(i + 1), b).contains(p) <==> (pairs_between(a.take(i), b).contains(
                p,
            ) || exists|y: int| 0 <= y < b.len() && p == pair_of(a[i], #[trigger] b[y])),
{
    let done = a.take(i);
    let next = a.take(i + 1);
    assert forall|p: ShardPair| #[trigger] pairs_between(next, b).contains(p) <==> (pairs_between(
        done,
        b,
    ).contains(p) || exists|y: int| 0 <= y < b.len() && p == pair_of(a[i], #[trigger] b[y])) by {
        if pairs_between(next, b).contains(p) {
            let (x, y) = choose|x: int, y: int|
                0 <= x < next.len() && 0 <= y < b.len() && p == pair_of(
                    #[trigger] next[x],
                    #[trigger] b[y],
                );
            if x < i {
                assert(p == pair_of(done[x], b[y]));
            } else {
                assert(p == pair_of(a[i], b[y]));
            }
        }
        if pairs_between(done, b).contains(p) {
            let (x, y) = choose|x: int, y: int|
                0 <= x < done.len() && 0 <= y < b.len() && p == pair_of(
                    #[trigger] done[x],
                    #[trigger] b[y],
                );
            assert(p == pair_of(next[x], b[y]));
        }
        if exists|y: int| 0 <= y < b.len() && p == pair_of(a[i], #[trigger] b[y]) {
            let y = choose|y: int| 0 <= y < b.len() && p == pair_of(a[i], #[trigger] b[y]);
            assert(p == pair_of(next[i], b[y]));
        }
    }
}

} // verus!
