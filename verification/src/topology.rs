//! Topology: the health of shards, and where new partitions are placed.

use vstd::prelude::*;

use crate::admission::ShardPressure;
use crate::domain::{DomainRegistry, ShardDomain, ShardFabricAddr, addr_of, hops, shared_scope};
use crate::idmap::{IdMap, Key, ascending};
use crate::ShardId;
use crate::text::{decimal, numbered};

verus! {

/// The partition that the topology is reserved for.
pub const PARTITION_TOPOLOGY: u64 = 0xFFFF_FFFF_FFFF_FFFD;

/// Queue depth from which a shard is congested.
pub const CONGESTED_QUEUE_DEPTH: u32 = 500;

/// Number of parked work cursors from which a shard is hot.
pub const HOT_CURSOR_COUNT: u32 = 1;

/// Healthy: takes new partitions.
pub const HEALTH_POS: i8 = 1;

/// Congested: others are preferred.
pub const HEALTH_ZERO: i8 = 0;

/// Hot or unknown: takes nothing new.
pub const HEALTH_NEG: i8 = -1;

/// The health of a shard under `p`.
pub open spec fn health_of(p: ShardPressure) -> i8 {
    if p.cursor_count >= HOT_CURSOR_COUNT {
        HEALTH_NEG
    } else if p.queue_depth >= CONGESTED_QUEUE_DEPTH {
        HEALTH_ZERO
    } else {
        HEALTH_POS
    }
}

pub fn health_from_pressure(p: &ShardPressure) -> (health: i8)
    ensures
        health == health_of(*p),
{
    if p.cursor_count >= HOT_CURSOR_COUNT {
        return HEALTH_NEG;
    }
    if p.queue_depth >= CONGESTED_QUEUE_DEPTH {
        return HEALTH_ZERO;
    }
    HEALTH_POS
}

/// What is known of a shard.
#[derive(Clone, Copy, Debug, PartialEq, Eq, Structural)]
pub struct TopologyNode {
    pub health: i8,
    pub queue_depth: u32,
    pub cursor_count: u32,
    pub budget_consumed: u64,
}

/// What `p` says of a shard.
pub open spec fn node_of(p: ShardPressure) -> TopologyNode {
    TopologyNode {
        health: health_of(p),
        queue_depth: p.queue_depth,
        cursor_count: p.cursor_count,
        budget_consumed: p.budget_consumed,
    }
}

impl TopologyNode {
    pub fn from_pressure(pressure: &ShardPressure) -> (node: Self)
        ensures
            node == node_of(*pressure),
    {
        TopologyNode {
            health: health_from_pressure(pressure),
            queue_depth: pressure.queue_depth,
            cursor_count: pressure.cursor_count,
            budget_consumed: pressure.budget_consumed,
        }
    }

    /// The shard takes new partitions.
    #[verifier::allow_in_spec]
    pub fn is_healthy(&self) -> bool
        returns
            self.health == HEALTH_POS,
    {
        self.health == HEALTH_POS
    }
}

/// The health of the shards that a pressure was reported for.
#[derive(Clone, Debug)]
pub struct TopologyPartition {
    nodes: IdMap<ShardId, TopologyNode>,
}

impl View for TopologyPartition {
    type V = Map<ShardId, TopologyNode>;

    closed spec fn view(&self) -> Map<ShardId, TopologyNode> {
        self.nodes@
    }
}

/// The health of a shard. One that nothing was heard of does not count as healthy.
pub open spec fn health_in(nodes: Map<ShardId, TopologyNode>, id: ShardId) -> i8 {
    if nodes.contains_key(id) {
        nodes[id].health
    } else {
        HEALTH_NEG
    }
}

/// A partition may be placed on the shard, and it is known how far away that is.
pub open spec fn is_candidate(
    nodes: Map<ShardId, TopologyNode>,
    shards: Map<ShardId, ShardDomain>,
    id: ShardId,
) -> bool {
    nodes.contains_key(id) && nodes[id].is_healthy() && addr_of(shards, id) is Some
}

/// The hops from `requester` to a candidate.
pub open spec fn distance_to(
    requester: ShardFabricAddr,
    shards: Map<ShardId, ShardDomain>,
    id: ShardId,
) -> u32 {
    hops(shared_scope(requester, addr_of(shards, id)->0))
}

/// `best` is the nearest candidate, the one with the lowest identity among equally near ones;
/// `None` where there is no candidate.
pub open spec fn is_nearest(
    nodes: Map<ShardId, TopologyNode>,
    shards: Map<ShardId, ShardDomain>,
    requester: ShardFabricAddr,
    best: Option<ShardId>,
) -> bool {
    match best {
        Some(b) => {
            &&& is_candidate(nodes, shards, b)
            &&& forall|k: ShardId| #[trigger]
                is_candidate(nodes, shards, k) ==> {
                    ||| distance_to(requester, shards, b) < distance_to(requester, shards, k)
                    ||| distance_to(requester, shards, b) == distance_to(requester, shards, k)
                        && b.0 <= k.0
                }
        },
        None => forall|k: ShardId| !#[trigger] is_candidate(nodes, shards, k),
    }
}

/// `first` is the healthy shard with the lowest identity; `None` where no shard is healthy.
pub open spec fn is_first_healthy(nodes: Map<ShardId, TopologyNode>, first: Option<ShardId>) -> bool {
    match first {
        Some(f) => {
            &&& nodes.contains_key(f) && nodes[f].is_healthy()
            &&& forall|k: ShardId| #[trigger]
                nodes.contains_key(k) && nodes[k].is_healthy() ==> f.0 <= k.0
        },
        None => forall|k: ShardId| #[trigger]
            nodes.contains_key(k) ==> !nodes[k].is_healthy(),
    }
}

/// The nearest candidate, the one with the lowest identity among equally near ones.
pub open spec fn nearest_shard(
    nodes: Map<ShardId, TopologyNode>,
    shards: Map<ShardId, ShardDomain>,
    requester: ShardFabricAddr,
) -> Option<ShardId> {
    choose|best: Option<ShardId>| is_nearest(nodes, shards, requester, best)
}

/// The healthy shard with the lowest identity.
pub open spec fn first_healthy(nodes: Map<ShardId, TopologyNode>) -> Option<ShardId> {
    choose|first: Option<ShardId>| is_first_healthy(nodes, first)
}

impl Default for TopologyPartition {
    fn default() -> (value: Self)
        ensures
            value@ == Map::<ShardId, TopologyNode>::empty(),
    {
        TopologyPartition::new()
    }
}

impl TopologyPartition {
    pub fn new() -> (topology: Self)
        ensures
            topology@ == Map::<ShardId, TopologyNode>::empty(),
    {
        TopologyPartition { nodes: IdMap::new() }
    }

    /// Takes in a pressure report. Gives the health before and after.
    pub fn update(&mut self, shard_id: ShardId, pressure: &ShardPressure) -> (change: (i8, i8))
        ensures
            final(self)@ == old(self)@.insert(shard_id, node_of(*pressure)),
            change == (health_in(old(self)@, shard_id), health_of(*pressure)),
    {
        let before: i8 = self.health(shard_id);
        let node = TopologyNode::from_pressure(pressure);
        let after: i8 = node.health;
        let _ = self.nodes.insert(shard_id, node);
        (before, after)
    }

    /// The health of a shard, `HEALTH_NEG` for one that nothing was heard of.
    pub fn health(&self, shard_id: ShardId) -> (health: i8)
        ensures
            health == health_in(self@, shard_id),
    {
        match self.nodes.get(&shard_id) {
            Some(node) => node.health,
            None => HEALTH_NEG,
        }
    }

    pub fn node(&self, shard_id: ShardId) -> (node: Option<&TopologyNode>)
        ensures
            node == (if self@.contains_key(shard_id) { Some(&self@[shard_id]) } else { None }),
    {
        self.nodes.get(&shard_id)
    }

    /// The healthy shard nearest to `requester_addr` among those whose address is known. Of
    /// equally near ones it is the one with the lowest identity.
    pub fn best_shard_for(&self, requester_addr: &ShardFabricAddr, registry: &DomainRegistry) -> (best:
        Option<ShardId>)
        ensures
            is_nearest(self@, registry@.shards, *requester_addr, best),
            best == nearest_shard(self@, registry@.shards, *requester_addr),
    {
        let ghost nodes = self@;
        let ghost shards = registry@.shards;
        let keys = self.nodes.keys();
        let mut best: Option<(ShardId, u32)> = None;
        let mut i: usize = 0;
        while i < keys.len()
            invariant
                i <= keys@.len(),
                nodes == self.nodes@,
                shards == registry.shards@,
                ascending(keys@),
                keys@.to_set() == nodes.dom(),
                match best {
                    Some((b, distance)) => {
                        &&& is_candidate(nodes, shards, b)
                        &&& distance == distance_to(*requester_addr, shards, b)
                        &&& exists|j: int| 0 <= j < i && keys@[j] == b
                        &&& forall|j: int|
                            0 <= j < i && is_candidate(nodes, shards, #[trigger] keys@[j]) ==> {
                                ||| distance < distance_to(*requester_addr, shards, keys@[j])
                                ||| distance == distance_to(*requester_addr, shards, keys@[j])
                                    && b.0 <= keys@[j].0
                            }
                    },
                    None => forall|j: int|
                        0 <= j < i ==> !is_candidate(nodes, shards, #[trigger] keys@[j]),
                },
            decreases keys@.len() - i,
        {
            let key = keys[i];
            let ghost earlier = best;
            proof {
                assert(keys@.to_set().contains(keys@[i as int]));
                if earlier is Some {
                    let j = choose|j: int| 0 <= j < i && keys@[j] == (earlier->0).0;
                    assert(keys@[j].code() < keys@[i as int].code());
                }
            }
            if let Some(node) = self.nodes.get(&key) {
                if node.is_healthy() {
                    if let Some(domain) = registry.shards.get(&key) {
                        if let Some(addr) = domain.fabric_addr {
                            let distance: u32 = requester_addr.hop_distance(&addr);
                            assert(is_candidate(nodes, shards, key));
                            let closer = match best {
                                Some((_, d)) => distance < d,
                                None => true,
                            };
                            if closer {
                                best = Some((key, distance));
                                assert(keys@[i as int] == key);
                            }
                        }
                    }
                }
            }
            i = i + 1;
        }
        proof {
            assert forall|k: ShardId| #[trigger] is_candidate(nodes, shards, k) implies exists|j: int|
                0 <= j < keys@.len() && #[trigger] keys@[j] == k by {
                assert(keys@.to_set().contains(k));
            }
        }
        let found = match best {
            Some((id, _)) => Some(id),
            None => None,
        };
        proof {
            assert(is_nearest(nodes, shards, *requester_addr, found));
            law_placement_is_deterministic(
                nodes,
                shards,
                *requester_addr,
                found,
                nearest_shard(nodes, shards, *requester_addr),
            );
        }
        found
    }

    /// The healthy shard with the lowest identity.
    pub fn any_healthy_shard(&self) -> (first: Option<ShardId>)
        ensures
            is_first_healthy(self@, first),
            first == first_healthy(self@),
    {
        let ghost nodes = self@;
        let keys = self.nodes.keys();
        let mut i: usize = 0;
        while i < keys.len()
            invariant
                i <= keys@.len(),
                nodes == self.nodes@,
                ascending(keys@),
                keys@.to_set() == nodes.dom(),
                forall|j: int| 0 <= j < i ==> !nodes[#[trigger] keys@[j]].is_healthy(),
            decreases keys@.len() - i,
        {
            let key = keys[i];
            proof {
                assert(keys@.to_set().contains(keys@[i as int]));
            }
            if let Some(node) = self.nodes.get(&key) {
                if node.is_healthy() {
                    proof {
                        assert forall|k: ShardId| #[trigger]
                            nodes.contains_key(k) && nodes[k].is_healthy() implies key.0 <= k.0 by {
                            assert(keys@.to_set().contains(k));
                            let j = choose|j: int| 0 <= j < keys@.len() && keys@[j] == k;
                            if i < j {
                                assert(keys@[i as int].code() < keys@[j].code());
                            }
                        }
                        assert(is_first_healthy(nodes, Some(key)));
                        lemma_first_healthy(nodes, Some(key));
                    }
                    return Some(key);
                }
            }
            i = i + 1;
        }
        proof {
            assert forall|k: ShardId| #[trigger] nodes.contains_key(k) implies !nodes[k].is_healthy() by {
                assert(keys@.to_set().contains(k));
                let j = choose|j: int| 0 <= j < keys@.len() && keys@[j] == k;
                assert(!nodes[keys@[j]].is_healthy());
            }
            assert(is_first_healthy(nodes, None));
            lemma_first_healthy(nodes, None);
        }
        None
    }

    pub fn len(&self) -> (n: usize)
        ensures
            n == self@.dom().len(),
    {
        self.nodes.len()
    }

    pub fn is_empty(&self) -> (empty: bool)
        ensures
            empty == self@.is_empty(),
    {
        self.nodes.is_empty()
    }
}

/// Builders of node names in the topology partition.
pub struct TopologyNodeName;

impl TopologyNodeName {
    pub fn shard(shard_id: ShardId) -> (name: String)
        ensures
            name@ == "shard::"@ + decimal(shard_id.0 as nat) + "::fabric"@,
    {
        numbered("shard::", shard_id.0, "::fabric")
    }

    pub fn locality_radius(shard_id: ShardId) -> (name: String)
        ensures
            name@ == "shard::"@ + decimal(shard_id.0 as nat) + "::locality_radius"@,
    {
        numbered("shard::", shard_id.0, "::locality_radius")
    }

    pub fn placement_coords(shard_id: ShardId) -> (name: String)
        ensures
            name@ == "shard::"@ + decimal(shard_id.0 as nat) + "::placement_coords"@,
    {
        numbered("shard::", shard_id.0, "::placement_coords")
    }
}

proof fn lemma_first_healthy(nodes: Map<ShardId, TopologyNode>, first: Option<ShardId>)
    requires
        is_first_healthy(nodes, first),
    ensures
        first_healthy(nodes) == first,
{
    let nowhere = ShardFabricAddr { region: 0, pod: 0, rack: 0, fabric_leaf: 0 };
    law_placement_is_deterministic(nodes, Map::empty(), nowhere, first, first_healthy(nodes));
}

/// A placement is decided by what is known: there is one nearest shard, and one first healthy
/// one.
pub proof fn law_placement_is_deterministic(
    nodes: Map<ShardId, TopologyNode>,
    shards: Map<ShardId, ShardDomain>,
    requester: ShardFabricAddr,
    a: Option<ShardId>,
    b: Option<ShardId>,
)
    ensures
        is_nearest(nodes, shards, requester, a) && is_nearest(nodes, shards, requester, b) ==> a
            == b,
        is_first_healthy(nodes, a) && is_first_healthy(nodes, b) ==> a == b,
{
    if is_nearest(nodes, shards, requester, a) && is_nearest(nodes, shards, requester, b) {
        if a is Some {
            assert(is_candidate(nodes, shards, a->0));
        }
        if b is Some {
            assert(is_candidate(nodes, shards, b->0));
        }
    }
    if is_first_healthy(nodes, a) && is_first_healthy(nodes, b) {
        if a is Some {
            assert(nodes.contains_key(a->0));
        }
        if b is Some {
            assert(nodes.contains_key(b->0));
        }
    }
}

/// A shard that is not healthy is never chosen for a placement.
pub proof fn law_placement_avoids_unhealthy(
    nodes: Map<ShardId, TopologyNode>,
    shards: Map<ShardId, ShardDomain>,
    requester: ShardFabricAddr,
    chosen: ShardId,
)
    requires
        is_nearest(nodes, shards, requester, Some(chosen)) || is_first_healthy(nodes, Some(chosen)),
    ensures
        health_in(nodes, chosen) == HEALTH_POS,
{
}

} // verus!
