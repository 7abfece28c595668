//! The domain hierarchy: tenant, session, partition, shard.
//!
//! A tenant sets the ceiling for its sessions. What a session effectively holds is what it
//! claims, cut to what its tenant holds.

use vstd::prelude::*;

use crate::auth::{AuthorityPolicy, law_intersection_is_greatest_bound, law_lattice_flow};
use crate::idmap::IdMap;
use crate::isa::{AuthorityMode, CapabilityBits, LatticeClass};
use crate::{SessionId, ShardId, TenantId, WirePartitionId};

verus! {

/// Where a shard sits in the fabric, from the coarsest level to the finest.
#[derive(Clone, Copy, Debug, PartialEq, Eq, Structural, Hash)]
pub struct ShardFabricAddr {
    pub region: u16,
    pub pod: u16,
    pub rack: u16,
    pub fabric_leaf: u16,
}

/// The finest level that two addresses share, from the cheapest link to the most expensive.
#[derive(Clone, Copy, Debug, PartialEq, Eq, Structural, PartialOrd, Ord)]
pub enum FabricScope {
    /// The same leaf.
    Leaf,
    /// The same rack, another leaf.
    Rack,
    /// The same pod, another rack.
    Pod,
    /// The same region, another pod.
    Region,
    /// Another region.
    Remote,
}

/// The finest level that two addresses share.
pub open spec fn shared_scope(a: ShardFabricAddr, b: ShardFabricAddr) -> FabricScope {
    if a.region != b.region {
        FabricScope::Remote
    } else if a.pod != b.pod {
        FabricScope::Region
    } else if a.rack != b.rack {
        FabricScope::Pod
    } else if a.fabric_leaf != b.fabric_leaf {
        FabricScope::Rack
    } else {
        FabricScope::Leaf
    }
}

/// Hops across a link of this scope: the count doubles from level to level.
pub open spec fn hops(scope: FabricScope) -> u32 {
    match scope {
        FabricScope::Leaf => 1,
        FabricScope::Rack => 2,
        FabricScope::Pod => 4,
        FabricScope::Region => 8,
        FabricScope::Remote => 16,
    }
}

/// The lattice class of a link of this scope: the closer, the lower.
pub open spec fn link_class(scope: FabricScope) -> LatticeClass {
    match scope {
        FabricScope::Leaf => LatticeClass(0x1),
        FabricScope::Rack => LatticeClass(0x3),
        FabricScope::Pod => LatticeClass(0x7),
        FabricScope::Region => LatticeClass(0xF),
        FabricScope::Remote => LatticeClass(u64::MAX),
    }
}

impl ShardFabricAddr {
    pub fn scope(&self, other: &ShardFabricAddr) -> (scope: FabricScope)
        ensures
            scope == shared_scope(*self, *other),
    {
        if self.region != other.region {
            return FabricScope::Remote;
        }
        if self.pod != other.pod {
            return FabricScope::Region;
        }
        if self.rack != other.rack {
            return FabricScope::Pod;
        }
        if self.fabric_leaf != other.fabric_leaf {
            return FabricScope::Rack;
        }
        FabricScope::Leaf
    }

    pub fn hop_distance(&self, other: &ShardFabricAddr) -> (distance: u32)
        ensures
            distance == hops(shared_scope(*self, *other)),
    {
        match self.scope(other) {
            FabricScope::Leaf => 1,
            FabricScope::Rack => 2,
            FabricScope::Pod => 4,
            FabricScope::Region => 8,
            FabricScope::Remote => 16,
        }
    }

    pub fn locality_class(&self, other: &ShardFabricAddr) -> (class: LatticeClass)
        ensures
            class == link_class(shared_scope(*self, *other)),
    {
        match self.scope(other) {
            FabricScope::Leaf => LatticeClass(0x1),
            FabricScope::Rack => LatticeClass(0x3),
            FabricScope::Pod => LatticeClass(0x7),
            FabricScope::Region => LatticeClass(0xF),
            FabricScope::Remote => LatticeClass::top(),
        }
    }
}

#[derive(Clone, Copy, Debug, PartialEq, Eq, Structural)]
pub struct TenantQuota {
    /// Concurrent sessions under the tenant.
    pub max_sessions: u32,
    /// Records per second across all its sessions.
    pub max_records_per_sec: u32,
}

impl Default for TenantQuota {
    fn default() -> (quota: Self)
        ensures
            quota == (TenantQuota { max_sessions: 1_024, max_records_per_sec: 100_000 }),
    {
        TenantQuota { max_sessions: 1_024, max_records_per_sec: 100_000 }
    }
}

#[derive(Clone, Copy, Debug, PartialEq, Eq, Structural)]
pub struct SessionQuota {
    /// Records admitted but not yet applied.
    pub max_inflight: u32,
    /// Partitions that the session may address.
    pub max_partitions: u32,
}

impl Default for SessionQuota {
    fn default() -> (quota: Self)
        ensures
            quota == default_session_quota(),
    {
        SessionQuota { max_inflight: 4_096, max_partitions: 256 }
    }
}

/// The quota of a session that none was agreed for.
pub open spec fn default_session_quota() -> SessionQuota {
    SessionQuota { max_inflight: 4_096, max_partitions: 256 }
}

/// The outermost boundary: a ceiling for every session under it.
#[derive(Clone, Copy, Debug, PartialEq, Eq, Structural)]
pub struct TenantDomain {
    pub id: TenantId,
    /// Ceiling on the sessions' capabilities.
    pub capabilities: CapabilityBits,
    /// Ceiling on the sessions' authority.
    pub policy: AuthorityPolicy,
    pub quota: TenantQuota,
}

impl TenantDomain {
    /// The only tenant of a deployment without tenants: it holds everything.
    pub fn single_tenant() -> (tenant: Self)
        ensures
            tenant.id == TenantId(0),
            tenant.capabilities == CapabilityBits::all(),
            tenant.policy == AuthorityPolicy::all(),
            tenant.quota == (TenantQuota { max_sessions: 1_024, max_records_per_sec: 100_000 }),
    {
        TenantDomain {
            id: TenantId(0),
            capabilities: CapabilityBits::all(),
            policy: AuthorityPolicy::all(),
            quota: TenantQuota::default(),
        }
    }
}

/// What a session claims, under its tenant.
#[derive(Clone, Copy, Debug, PartialEq, Eq, Structural)]
pub struct SessionDomain {
    pub id: SessionId,
    pub tenant_id: TenantId,
    /// Capabilities that the session claims.
    pub claimed_caps: CapabilityBits,
    /// Authority that the session claims.
    pub claimed_policy: AuthorityPolicy,
    pub auth_mode: AuthorityMode,
    pub quota: SessionQuota,
}

/// A unit of causal isolation, with its place on a shard.
#[derive(Clone, Copy, Debug, PartialEq, Eq, Structural)]
pub struct PartitionDomain {
    pub id: WirePartitionId,
    pub session_id: SessionId,
    pub lattice_class: LatticeClass,
    pub causal_scope: u64,
    pub shard_id: ShardId,
}

/// A unit of execution.
#[derive(Clone, Copy, Debug, PartialEq, Eq, Structural)]
pub struct ShardDomain {
    pub id: ShardId,
    /// Where the shard sits, if that is known.
    pub fabric_addr: Option<ShardFabricAddr>,
}

/// All known domains.
#[derive(Clone, Debug)]
pub struct DomainRegistry {
    pub tenants: IdMap<TenantId, TenantDomain>,
    pub sessions: IdMap<SessionId, SessionDomain>,
    pub partitions: IdMap<WirePartitionId, PartitionDomain>,
    pub shards: IdMap<ShardId, ShardDomain>,
}

/// The contents of a [`DomainRegistry`].
pub struct Domains {
    pub tenants: Map<TenantId, TenantDomain>,
    pub sessions: Map<SessionId, SessionDomain>,
    pub partitions: Map<WirePartitionId, PartitionDomain>,
    pub shards: Map<ShardId, ShardDomain>,
}

impl View for DomainRegistry {
    type V = Domains;

    open spec fn view(&self) -> Domains {
        Domains {
            tenants: self.tenants@,
            sessions: self.sessions@,
            partitions: self.partitions@,
            shards: self.shards@,
        }
    }
}

/// The capabilities that a session claims and its tenant holds. `None` where either is unknown.
pub open spec fn effective_caps_of(domains: Domains, id: SessionId) -> Option<CapabilityBits> {
    if domains.sessions.contains_key(id) && domains.tenants.contains_key(
        domains.sessions[id].tenant_id,
    ) {
        let session = domains.sessions[id];
        Some(session.claimed_caps.intersect(domains.tenants[session.tenant_id].capabilities))
    } else {
        None
    }
}

/// The ceiling that a tenant sets. A tenant that is not known holds nothing.
pub open spec fn tenant_policy(domains: Domains, id: TenantId) -> AuthorityPolicy {
    if domains.tenants.contains_key(id) {
        domains.tenants[id].policy
    } else {
        AuthorityPolicy::none()
    }
}

/// The authority that a session claims and its tenant holds. `None` where the session is
/// unknown.
pub open spec fn effective_policy_of(domains: Domains, id: SessionId) -> Option<AuthorityPolicy> {
    if domains.sessions.contains_key(id) {
        let session = domains.sessions[id];
        Some(session.claimed_policy.intersect(tenant_policy(domains, session.tenant_id)))
    } else {
        None
    }
}

/// Where a shard sits, if it is registered and its address is known.
pub open spec fn addr_of(shards: Map<ShardId, ShardDomain>, id: ShardId) -> Option<
    ShardFabricAddr,
> {
    if shards.contains_key(id) {
        shards[id].fabric_addr
    } else {
        None
    }
}

/// The entry under `key` is an addressed shard other than `shard`.
pub open spec fn is_peer(shards: Map<ShardId, ShardDomain>, shard: ShardId, key: ShardId) -> bool {
    shards.contains_key(key) && shards[key].id != shard && shards[key].fabric_addr is Some
}

/// `radius` is the largest hop distance from `addr` to a peer of `shard`, 0 without a peer.
pub open spec fn is_radius(
    shards: Map<ShardId, ShardDomain>,
    shard: ShardId,
    addr: ShardFabricAddr,
    radius: u32,
) -> bool {
    &&& forall|k: ShardId| #[trigger]
        is_peer(shards, shard, k) ==> hops(shared_scope(addr, shards[k].fabric_addr->0)) <= radius
    &&& radius == 0 || exists|k: ShardId| #[trigger]
        is_peer(shards, shard, k) && hops(shared_scope(addr, shards[k].fabric_addr->0)) == radius
}

/// A registry that nothing was entered into.
pub open spec fn no_domains() -> Domains {
    Domains {
        tenants: Map::empty(),
        sessions: Map::empty(),
        partitions: Map::empty(),
        shards: Map::empty(),
    }
}

impl Default for DomainRegistry {
    fn default() -> (registry: Self)
        ensures
            registry@ == no_domains(),
    {
        DomainRegistry::new()
    }
}

impl DomainRegistry {
    pub fn new() -> (registry: Self)
        ensures
            registry@ == no_domains(),
    {
        DomainRegistry {
            tenants: IdMap::new(),
            sessions: IdMap::new(),
            partitions: IdMap::new(),
            shards: IdMap::new(),
        }
    }

    pub fn register_tenant(&mut self, t: TenantDomain)
        ensures
            final(self)@ == (Domains { tenants: old(self)@.tenants.insert(t.id, t), ..old(self)@ }),
    {
        let _ = self.tenants.insert(t.id, t);
    }

    pub fn register_session(&mut self, s: SessionDomain)
        ensures
            final(self)@ == (Domains { sessions: old(self)@.sessions.insert(s.id, s), ..old(self)@ }),
    {
        let _ = self.sessions.insert(s.id, s);
    }

    pub fn register_partition(&mut self, p: PartitionDomain)
        ensures
            final(self)@ == (Domains {
                partitions: old(self)@.partitions.insert(p.id, p),
                ..old(self)@
            }),
    {
        let _ = self.partitions.insert(p.id, p);
    }

    pub fn register_shard(&mut self, s: ShardDomain)
        ensures
            final(self)@ == (Domains { shards: old(self)@.shards.insert(s.id, s), ..old(self)@ }),
    {
        let _ = self.shards.insert(s.id, s);
    }

    /// What a session may do at most: its claimed capabilities, cut to its tenant's.
    pub fn effective_caps(&self, session_id: SessionId) -> (caps: Option<CapabilityBits>)
        ensures
            caps == effective_caps_of(self@, session_id),
    {
        let session = match self.sessions.get(&session_id) {
            Some(session) => session,
            None => return None,
        };
        match self.tenants.get(&session.tenant_id) {
            Some(tenant) => Some(session.claimed_caps.intersect(tenant.capabilities)),
            None => None,
        }
    }

    /// The authority of a session: what it claims, cut to what its tenant holds.
    pub fn effective_policy(&self, session_id: SessionId) -> (policy: Option<AuthorityPolicy>)
        ensures
            policy == effective_policy_of(self@, session_id),
    {
        match self.sessions.get(&session_id) {
            Some(session) => {
                Some(session.claimed_policy.intersect(self.tenant_ceiling(session.tenant_id)))
            },
            None => None,
        }
    }

    /// The ceiling that a tenant sets for its sessions.
    pub fn tenant_ceiling(&self, tenant_id: TenantId) -> (policy: AuthorityPolicy)
        ensures
            policy == tenant_policy(self@, tenant_id),
    {
        match self.tenants.get(&tenant_id) {
            Some(tenant) => tenant.policy,
            None => AuthorityPolicy::none(),
        }
    }

    /// Whether a session effectively holds all of `required`.
    pub fn session_allows(&self, session_id: SessionId, required: CapabilityBits) -> (allows: bool)
        ensures
            allows == (effective_caps_of(self@, session_id) matches Some(caps) && caps.allows(
                required,
            )),
    {
        match self.effective_caps(session_id) {
            Some(caps) => caps.allows(required),
            None => false,
        }
    }

    fn shard_addr(&self, id: ShardId) -> (addr: Option<ShardFabricAddr>)
        ensures
            addr == addr_of(self@.shards, id),
    {
        match self.shards.get(&id) {
            Some(shard) => shard.fabric_addr,
            None => None,
        }
    }

    /// The lattice class of the link between two shards.
    pub fn locality_class(&self, a: ShardId, b: ShardId) -> (class: Option<LatticeClass>)
        ensures
            class == (match (addr_of(self@.shards, a), addr_of(self@.shards, b)) {
                (Some(x), Some(y)) => Some(link_class(shared_scope(x, y))),
                _ => None,
            }),
    {
        match (self.shard_addr(a), self.shard_addr(b)) {
            (Some(x), Some(y)) => Some(x.locality_class(&y)),
            _ => None,
        }
    }

    /// The hops between two shards.
    pub fn hop_distance(&self, a: ShardId, b: ShardId) -> (distance: Option<u32>)
        ensures
            distance == (match (addr_of(self@.shards, a), addr_of(self@.shards, b)) {
                (Some(x), Some(y)) => Some(hops(shared_scope(x, y))),
                _ => None,
            }),
    {
        match (self.shard_addr(a), self.shard_addr(b)) {
            (Some(x), Some(y)) => Some(x.hop_distance(&y)),
            _ => None,
        }
    }

    /// The hops from a shard to the farthest other shard whose address is known.
    pub fn locality_radius(&self, shard: ShardId) -> (radius: Option<u32>)
        ensures
            radius is Some == addr_of(self@.shards, shard) is Some,
            radius is Some ==> is_radius(
                self@.shards,
                shard,
                addr_of(self@.shards, shard)->0,
                radius->0,
            ),
    {
        let addr = match self.shard_addr(shard) {
            Some(addr) => addr,
            None => return None,
        };
        let ghost shards = self@.shards;
        let keys = self.shards.keys();
        let mut radius: u32 = 0;
        let mut i: usize = 0;
        while i < keys.len()
            invariant
                i <= keys@.len(),
                shards == self.shards@,
                keys@.to_set() == shards.dom(),
                forall|j: int|
                    0 <= j < i && is_peer(shards, shard, #[trigger] keys@[j]) ==> hops(
                        shared_scope(addr, shards[keys@[j]].fabric_addr->0),
                    ) <= radius,
                radius == 0 || exists|k: ShardId| #[trigger]
                    is_peer(shards, shard, k) && hops(
                        shared_scope(addr, shards[k].fabric_addr->0),
                    ) == radius,
            decreases keys@.len() - i,
        {
            let key = keys[i];
            proof {
                assert(keys@.to_set().contains(keys@[i as int]));
            }
            if let Some(domain) = self.shards.get(&key) {
                if domain.id != shard {
                    if let Some(other) = domain.fabric_addr {
                        let distance: u32 = addr.hop_distance(&other);
                        assert(is_peer(shards, shard, key));
                        if distance > radius {
                            radius = distance;
                        }
                    }
                }
            }
            i = i + 1;
        }
        proof {
            assert forall|k: ShardId| #[trigger] is_peer(shards, shard, k) implies hops(
                shared_scope(addr, shards[k].fabric_addr->0),
            ) <= radius by {
                assert(keys@.to_set().contains(k));
                let j = choose|j: int| 0 <= j < keys@.len() && keys@[j] == k;
                assert(is_peer(shards, shard, keys@[j]));
            }
        }
        Some(radius)
    }
}

/// What a session effectively holds is bounded by its claim and by its tenant's ceiling.
pub proof fn law_authority_is_bounded_by_tenant(domains: Domains, id: SessionId)
    requires
        domains.sessions.contains_key(id),
    ensures
        effective_policy_of(domains, id) matches Some(policy) && policy.is_bounded_by(
            domains.sessions[id].claimed_policy,
        ) && policy.is_bounded_by(tenant_policy(domains, domains.sessions[id].tenant_id)),
        effective_caps_of(domains, id) matches Some(caps) ==> {
            &&& domains.sessions[id].claimed_caps.allows(caps)
            &&& domains.tenants[domains.sessions[id].tenant_id].capabilities.allows(caps)
        },
{
    let session = domains.sessions[id];
    let ceiling = tenant_policy(domains, session.tenant_id);
    law_intersection_is_greatest_bound(session.claimed_policy, ceiling, ceiling);
    let a = session.claimed_caps.0;
    let b = domains.tenants[session.tenant_id].capabilities.0;
    assert(a & (a & b) == a & b && b & (a & b) == a & b) by (bit_vector);
}

/// Distance, scope and link class do not depend on the direction, and a shard is closest to
/// itself.
pub proof fn law_fabric_is_symmetric(a: ShardFabricAddr, b: ShardFabricAddr)
    ensures
        shared_scope(a, b) == shared_scope(b, a),
        shared_scope(a, b) == FabricScope::Leaf <==> a == b,
        hops(shared_scope(a, a)) <= hops(shared_scope(a, b)),
{
}

/// Going by way of a third shard never crosses a finer boundary than the worse of its two legs.
pub proof fn law_fabric_is_ultrametric(
    a: ShardFabricAddr,
    b: ShardFabricAddr,
    c: ShardFabricAddr,
)
    ensures
        hops(shared_scope(a, c)) <= hops(shared_scope(a, b)) || hops(shared_scope(a, c)) <= hops(
            shared_scope(b, c),
        ),
{
}

/// The class of a closer link flows to the class of a farther one.
pub proof fn law_closer_links_flow_to_farther(x: FabricScope, y: FabricScope)
    requires
        hops(x) <= hops(y),
    ensures
        link_class(x).flows_to(link_class(y)),
{
    assert(0x1u64 & 0x1u64 == 0x1u64 && 0x1u64 & 0x3u64 == 0x1u64 && 0x1u64 & 0x7u64 == 0x1u64
        && 0x1u64 & 0xFu64 == 0x1u64 && 0x3u64 & 0x3u64 == 0x3u64 && 0x3u64 & 0x7u64 == 0x3u64
        && 0x3u64 & 0xFu64 == 0x3u64 && 0x7u64 & 0x7u64 == 0x7u64 && 0x7u64 & 0xFu64 == 0x7u64
        && 0xFu64 & 0xFu64 == 0xFu64) by (bit_vector);
    law_lattice_flow(link_class(x), link_class(x), link_class(x));
}

} // verus!
