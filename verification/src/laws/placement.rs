//! What health and nearness mean.

use vstd::prelude::*;

use crate::admission::ShardPressure;
use crate::domain::{
    FabricScope, ShardDomain, ShardFabricAddr, addr_of, hops, is_peer, is_radius, link_class,
    shared_scope,
};
use crate::ShardId;
use crate::topology::{
    TopologyNode, health_in, health_of, is_candidate, is_first_healthy, is_nearest, node_of,
};

verus! {

/// A shard is hot where work is parked on it, else congested from 500 entries on, else healthy.
pub proof fn law_health(p: ShardPressure)
    ensures
        health_of(p) == -1 <==> p.cursor_count > 0,
        health_of(p) == 0 <==> p.cursor_count == 0 && p.queue_depth >= 500,
        health_of(p) == 1 <==> p.cursor_count == 0 && p.queue_depth < 500,
        node_of(p).health == health_of(p),
        node_of(p).queue_depth == p.queue_depth,
        node_of(p).cursor_count == p.cursor_count,
        node_of(p).budget_consumed == p.budget_consumed,
        node_of(p).is_healthy() <==> p.cursor_count == 0 && p.queue_depth < 500,
{
}

/// The health of a shard is that of its last report, and that of a hot one before any.
pub proof fn law_health_is_the_last_report(
    nodes: Map<ShardId, TopologyNode>,
    id: ShardId,
    p: ShardPressure,
    other: ShardId,
)
    ensures
        health_in(nodes.insert(id, node_of(p)), id) == health_of(p),
        other != id ==> health_in(nodes.insert(id, node_of(p)), other) == health_in(nodes, other),
        health_in(Map::empty(), id) == -1,
        nodes.contains_key(id) ==> health_in(nodes, id) == nodes[id].health,
{
}

/// In how many levels, from the coarsest on, two addresses agree.
pub open spec fn agreement(a: ShardFabricAddr, b: ShardFabricAddr) -> int {
    if a.region != b.region {
        0
    } else if a.pod != b.pod {
        1
    } else if a.rack != b.rack {
        2
    } else if a.fabric_leaf != b.fabric_leaf {
        3
    } else {
        4
    }
}

/// The scope of a link is the finest level that both ends share, the hops across it double with
/// each level that they do not, and its class takes in one compartment more with each.
pub proof fn law_links(a: ShardFabricAddr, b: ShardFabricAddr)
    ensures
        shared_scope(a, b) == FabricScope::Remote <==> a.region != b.region,
        shared_scope(a, b) == FabricScope::Region <==> a.region == b.region && a.pod != b.pod,
        shared_scope(a, b) == FabricScope::Pod <==> a.region == b.region && a.pod == b.pod && a.rack
            != b.rack,
        shared_scope(a, b) == FabricScope::Rack <==> a.region == b.region && a.pod == b.pod
            && a.rack == b.rack && a.fabric_leaf != b.fabric_leaf,
        shared_scope(a, b) == FabricScope::Leaf <==> a == b,
        hops(FabricScope::Leaf) == 1,
        hops(FabricScope::Rack) == 2 * hops(FabricScope::Leaf),
        hops(FabricScope::Pod) == 2 * hops(FabricScope::Rack),
        hops(FabricScope::Region) == 2 * hops(FabricScope::Pod),
        hops(FabricScope::Remote) == 2 * hops(FabricScope::Region),
        link_class(FabricScope::Leaf).0 == 1,
        link_class(FabricScope::Rack).0 == 2 * link_class(FabricScope::Leaf).0 + 1,
        link_class(FabricScope::Pod).0 == 2 * link_class(FabricScope::Rack).0 + 1,
        link_class(FabricScope::Region).0 == 2 * link_class(FabricScope::Pod).0 + 1,
        link_class(FabricScope::Remote).0 == u64::MAX,
{
}

/// Fewer hops are more levels in common.
pub proof fn law_hops_go_by_agreement(x: ShardFabricAddr, a: ShardFabricAddr, b: ShardFabricAddr)
    ensures
        hops(shared_scope(x, a)) < hops(shared_scope(x, b)) <==> agreement(x, a) > agreement(x, b),
        hops(shared_scope(x, a)) == hops(shared_scope(x, b)) <==> agreement(x, a) == agreement(
            x,
            b,
        ),
{
}

/// The shard is known to be healthy, and where it sits is known.
pub open spec fn may_take(
    nodes: Map<ShardId, TopologyNode>,
    shards: Map<ShardId, ShardDomain>,
    id: ShardId,
) -> bool {
    nodes.contains_key(id) && nodes[id].health == 1 && shards.contains_key(id)
        && shards[id].fabric_addr is Some
}

/// The shard that is chosen for a requester is healthy and addressed; no healthy addressed shard
/// agrees with the requester in more levels; and of those that agree in as many it has the lowest
/// identity. None is chosen only where there is none.
pub proof fn law_nearest(
    nodes: Map<ShardId, TopologyNode>,
    shards: Map<ShardId, ShardDomain>,
    requester: ShardFabricAddr,
    best: ShardId,
    k: ShardId,
)
    ensures
        is_nearest(nodes, shards, requester, Some(best)) ==> may_take(nodes, shards, best),
        is_nearest(nodes, shards, requester, Some(best)) && may_take(nodes, shards, k) ==> {
            let near = agreement(requester, shards[best].fabric_addr->0);
            let other = agreement(requester, shards[k].fabric_addr->0);
            &&& near > other || near == other && best.0 <= k.0
            &&& hops(shared_scope(requester, shards[best].fabric_addr->0)) <= hops(
                shared_scope(requester, shards[k].fabric_addr->0),
            )
        },
        is_nearest(nodes, shards, requester, None) ==> !may_take(nodes, shards, k),
{
    assert(may_take(nodes, shards, k) ==> is_candidate(nodes, shards, k));
    assert(is_candidate(nodes, shards, best) ==> may_take(nodes, shards, best));
    if is_nearest(nodes, shards, requester, Some(best)) && may_take(nodes, shards, k) {
        law_hops_go_by_agreement(
            requester,
            shards[best].fabric_addr->0,
            shards[k].fabric_addr->0,
        );
    }
}

/// While some healthy addressed shard is in the requester's region, none of another region is
/// chosen; and so on for pod, rack and leaf.
pub proof fn law_own_region_comes_first(
    nodes: Map<ShardId, TopologyNode>,
    shards: Map<ShardId, ShardDomain>,
    requester: ShardFabricAddr,
    best: ShardId,
    k: ShardId,
)
    requires
        is_nearest(nodes, shards, requester, Some(best)),
        may_take(nodes, shards, k),
    ensures
        ({
            let a = shards[k].fabric_addr->0;
            let b = shards[best].fabric_addr->0;
            let r = requester;
            &&& a.region == r.region ==> b.region == r.region
            &&& a.region == r.region && a.pod == r.pod ==> b.region == r.region && b.pod == r.pod
            &&& a.region == r.region && a.pod == r.pod && a.rack == r.rack ==> b.region == r.region
                && b.pod == r.pod && b.rack == r.rack
            &&& a == r ==> b == r
        }),
{
    law_nearest(nodes, shards, requester, best, k);
}

/// The first healthy shard is healthy, and no healthy one has a lower identity. None is found only
/// where no shard is healthy.
pub proof fn law_first_healthy(nodes: Map<ShardId, TopologyNode>, first: ShardId, k: ShardId)
    ensures
        is_first_healthy(nodes, Some(first)) ==> nodes.contains_key(first) && nodes[first].health
            == 1,
        is_first_healthy(nodes, Some(first)) && nodes.contains_key(k) && nodes[k].health == 1
            ==> first.0 <= k.0,
        is_first_healthy(nodes, None) && nodes.contains_key(k) ==> nodes[k].health != 1,
{
}

/// At most one answer is the nearest.
pub proof fn lemma_nearest_unique(
    nodes: Map<ShardId, TopologyNode>,
    shards: Map<ShardId, ShardDomain>,
    requester: ShardFabricAddr,
    a: Option<ShardId>,
    b: Option<ShardId>,
)
    requires
        is_nearest(nodes, shards, requester, a),
        is_nearest(nodes, shards, requester, b),
    ensures
        a == b,
{
    if a is Some && b is Some {
        law_nearest(nodes, shards, requester, a->0, b->0);
        law_nearest(nodes, shards, requester, b->0, a->0);
        law_nearest(nodes, shards, requester, b->0, b->0);
        assert((a->0).0 == (b->0).0);
    } else if a is Some {
        law_nearest(nodes, shards, requester, a->0, a->0);
    } else if b is Some {
        law_nearest(nodes, shards, requester, b->0, b->0);
    }
}

/// At most one answer is the first healthy shard.
pub proof fn lemma_first_healthy_unique(
    nodes: Map<ShardId, TopologyNode>,
    a: Option<ShardId>,
    b: Option<ShardId>,
)
    requires
        is_first_healthy(nodes, a),
        is_first_healthy(nodes, b),
    ensures
        a == b,
{
    if a is Some && b is Some {
        law_first_healthy(nodes, a->0, b->0);
        law_first_healthy(nodes, b->0, a->0);
        assert((a->0).0 == (b->0).0);
    } else if a is Some {
        law_first_healthy(nodes, a->0, a->0);
    } else if b is Some {
        law_first_healthy(nodes, b->0, b->0);
    }
}

/// The radius of a shard reaches every other addressed shard, and no farther than one of them.
pub proof fn law_radius(
    shards: Map<ShardId, ShardDomain>,
    shard: ShardId,
    addr: ShardFabricAddr,
    radius: u32,
    k: ShardId,
)
    requires
        is_radius(shards, shard, addr, radius),
    ensures
        shards.contains_key(k) && shards[k].id != shard && shards[k].fabric_addr is Some ==> hops(
            shared_scope(addr, shards[k].fabric_addr->0),
        ) <= radius,
        radius != 0 ==> exists|o: ShardId| #[trigger]
            shards.contains_key(o) && shards[o].id != shard && shards[o].fabric_addr is Some && hops(
                shared_scope(addr, shards[o].fabric_addr->0),
            ) == radius,
{
    assert(shards.contains_key(k) && shards[k].id != shard && shards[k].fabric_addr is Some
        ==> is_peer(shards, shard, k));
    if radius != 0 {
        let o = choose|o: ShardId| #[trigger]
            is_peer(shards, shard, o) && hops(shared_scope(addr, shards[o].fabric_addr->0))
                == radius;
        assert(shards.contains_key(o));
    }
}

/// Where a shard sits is what was registered for it.
pub proof fn law_addresses(shards: Map<ShardId, ShardDomain>, id: ShardId)
    ensures
        addr_of(shards, id) is Some <==> shards.contains_key(id) && shards[id].fabric_addr is Some,
        addr_of(shards, id) is Some ==> addr_of(shards, id) == shards[id].fabric_addr,
{
}

} // verus!
