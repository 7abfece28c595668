use pgress_session::auth::AuthorityPolicy;
use pgress_session::domain::{
    DomainRegistry, FabricScope, SessionDomain, SessionQuota, ShardDomain, ShardFabricAddr,
    TenantDomain, TenantQuota,
};
use pgress_session::isa::{AuthorityMode, CapabilityBits, LatticeClass};
use pgress_session::{SessionId, ShardId, TenantId};

fn make_registry() -> DomainRegistry {
    let mut r = DomainRegistry::new();
    r.register_tenant(TenantDomain { policy: AuthorityPolicy::all(),
        id:           TenantId(1),
        capabilities: CapabilityBits::read().union(CapabilityBits::propagate()),
        quota:        TenantQuota::default(),
    });
    r.register_session(SessionDomain { claimed_policy: AuthorityPolicy::all(),
        id:           SessionId(10),
        tenant_id:    TenantId(1),
        claimed_caps: CapabilityBits::all(),   // claims everything
        auth_mode:    AuthorityMode::Advisory,
        quota:        SessionQuota::default(),
    });
    r
}

#[test]
fn effective_caps_clips_to_parent() {
    let r = make_registry();
    // Session claims ALL but tenant only grants READ | PROPAGATE
    let eff = r.effective_caps(SessionId(10)).unwrap();
    let expected = CapabilityBits::read().union(CapabilityBits::propagate());
    assert_eq!(eff, expected);
}

#[test]
fn effective_caps_missing_session_returns_none() {
    let r = make_registry();
    assert!(r.effective_caps(SessionId(999)).is_none());
}

#[test]
fn effective_caps_missing_tenant_returns_none() {
    let mut r = DomainRegistry::new();
    // Register session whose tenant does not exist
    r.register_session(SessionDomain { claimed_policy: AuthorityPolicy::all(),
        id:           SessionId(5),
        tenant_id:    TenantId(99),  // no such tenant
        claimed_caps: CapabilityBits::all(),
        auth_mode:    AuthorityMode::Advisory,
        quota:        SessionQuota::default(),
    });
    assert!(r.effective_caps(SessionId(5)).is_none());
}

#[test]
fn session_allows_read_within_parent_ceiling() {
    let r = make_registry();
    assert!(r.session_allows(SessionId(10), CapabilityBits::read()));
}

#[test]
fn session_disallows_stabilize_outside_parent_ceiling() {
    let r = make_registry();
    // Tenant does not grant STABILIZE
    assert!(!r.session_allows(SessionId(10), CapabilityBits::stabilize()));
}

// ── ShardFabricAddr tests ─────────────────────────────────────────────────

fn addr(region: u16, pod: u16, rack: u16, leaf: u16) -> ShardFabricAddr {
    ShardFabricAddr { region, pod, rack, fabric_leaf: leaf }
}

#[test]
fn fabric_scope_same_leaf() {
    let a = addr(1, 1, 1, 1);
    assert_eq!(a.scope(&addr(1, 1, 1, 1)), FabricScope::Leaf);
}

#[test]
fn fabric_scope_same_rack_different_leaf() {
    let a = addr(1, 1, 1, 1);
    assert_eq!(a.scope(&addr(1, 1, 1, 2)), FabricScope::Rack);
}

#[test]
fn fabric_scope_same_pod_different_rack() {
    assert_eq!(addr(1,1,1,1).scope(&addr(1,1,2,1)), FabricScope::Pod);
}

#[test]
fn fabric_scope_same_region_different_pod() {
    assert_eq!(addr(1,1,1,1).scope(&addr(1,2,1,1)), FabricScope::Region);
}

#[test]
fn fabric_scope_remote() {
    assert_eq!(addr(1,1,1,1).scope(&addr(2,1,1,1)), FabricScope::Remote);
}

#[test]
fn hop_distance_doubles_at_each_boundary() {
    let origin = addr(0, 0, 0, 0);
    assert_eq!(origin.hop_distance(&addr(0, 0, 0, 1)),  2);  // Rack
    assert_eq!(origin.hop_distance(&addr(0, 0, 1, 0)),  4);  // Pod
    assert_eq!(origin.hop_distance(&addr(0, 1, 0, 0)),  8);  // Region
    assert_eq!(origin.hop_distance(&addr(1, 0, 0, 0)), 16);  // Remote
}

#[test]
fn locality_class_encodes_proximity() {
    let origin = addr(0, 0, 0, 0);
    assert_eq!(origin.locality_class(&addr(0, 0, 0, 1)), LatticeClass(0b0011)); // Rack
    assert_eq!(origin.locality_class(&addr(0, 0, 1, 0)), LatticeClass(0b0111)); // Pod
    assert_eq!(origin.locality_class(&addr(0, 1, 0, 0)), LatticeClass(0b1111)); // Region
    assert_eq!(origin.locality_class(&addr(1, 0, 0, 0)), LatticeClass::top());    // Remote
}

#[test]
fn locality_radius_is_max_hop_distance() {
    let mut r = DomainRegistry::new();
    r.shards.insert(ShardId(1), ShardDomain { id: ShardId(1), fabric_addr: Some(addr(0,0,0,0)) });
    r.shards.insert(ShardId(2), ShardDomain { id: ShardId(2), fabric_addr: Some(addr(0,0,0,1)) }); // Rack
    r.shards.insert(ShardId(3), ShardDomain { id: ShardId(3), fabric_addr: Some(addr(0,1,0,0)) }); // Region
    // Radius from shard 1: max hop to shard 2 (Rack=2) or shard 3 (Region=8) → 8
    assert_eq!(r.locality_radius(ShardId(1)), Some(8));
}

#[test]
fn locality_radius_no_fabric_addr_returns_none() {
    let mut r = DomainRegistry::new();
    r.shards.insert(ShardId(1), ShardDomain { id: ShardId(1), fabric_addr: None });
    assert_eq!(r.locality_radius(ShardId(1)), None);
}

#[test]
fn single_tenant_default_has_all_caps() {
    let mut r = DomainRegistry::new();
    let tenant = TenantDomain::single_tenant();
    r.register_tenant(tenant);
    r.register_session(SessionDomain { claimed_policy: AuthorityPolicy::all(),
        id:           SessionId(1),
        tenant_id:    TenantId(0),
        claimed_caps: CapabilityBits::read(),
        auth_mode:    AuthorityMode::Advisory,
        quota:        SessionQuota::default(),
    });
    // Effective = min(READ, ALL) = READ
    assert_eq!(r.effective_caps(SessionId(1)), Some(CapabilityBits::read()));
}
