use pgress_session::admission::ShardPressure;
use pgress_session::domain::{DomainRegistry, ShardDomain, ShardFabricAddr};
use pgress_session::ShardId;
use pgress_session::topology::{
    CONGESTED_QUEUE_DEPTH, HEALTH_NEG, HEALTH_POS, HEALTH_ZERO, TopologyNodeName,
    TopologyPartition,
};

fn pressure(depth: u32, cursors: u32) -> ShardPressure {
    ShardPressure { queue_depth: depth, cursor_count: cursors, budget_consumed: 0 }
}

fn addr(region: u16, pod: u16, rack: u16, leaf: u16) -> ShardFabricAddr {
    ShardFabricAddr { region, pod, rack, fabric_leaf: leaf }
}

#[test]
fn unknown_shard_is_neg() {
    let tp = TopologyPartition::new();
    assert_eq!(tp.health(ShardId(99)), HEALTH_NEG);
}

#[test]
fn healthy_pressure_yields_pos() {
    let mut tp = TopologyPartition::new();
    let (_, new) = tp.update(ShardId(1), &pressure(0, 0));
    assert_eq!(new, HEALTH_POS);
    assert!(tp.node(ShardId(1)).unwrap().is_healthy());
}

#[test]
fn congested_queue_yields_zero() {
    let mut tp = TopologyPartition::new();
    let (_, new) = tp.update(ShardId(1), &pressure(CONGESTED_QUEUE_DEPTH, 0));
    assert_eq!(new, HEALTH_ZERO);
}

#[test]
fn parked_cursor_yields_neg() {
    let mut tp = TopologyPartition::new();
    let (_, new) = tp.update(ShardId(1), &pressure(0, 1));
    assert_eq!(new, HEALTH_NEG);
}

#[test]
fn cursor_takes_priority_over_queue() {
    // A shard with both high queue depth AND parked cursors → Neg (not Zero).
    let mut tp = TopologyPartition::new();
    let (_, new) = tp.update(ShardId(1), &pressure(CONGESTED_QUEUE_DEPTH, 1));
    assert_eq!(new, HEALTH_NEG);
}

#[test]
fn update_returns_old_and_new_health() {
    let mut tp = TopologyPartition::new();
    // First update: old = Neg (unknown), new = Pos
    let (old, new) = tp.update(ShardId(1), &pressure(0, 0));
    assert_eq!(old, HEALTH_NEG);
    assert_eq!(new, HEALTH_POS);
    // Second update: old = Pos, new = Zero
    let (old2, new2) = tp.update(ShardId(1), &pressure(CONGESTED_QUEUE_DEPTH, 0));
    assert_eq!(old2, HEALTH_POS);
    assert_eq!(new2, HEALTH_ZERO);
}

#[test]
fn best_shard_for_prefers_nearest_healthy() {
    let mut tp  = TopologyPartition::new();
    let mut reg = DomainRegistry::new();

    // Shard 1: healthy, same rack as requester (hop=2)
    tp.update(ShardId(1), &pressure(0, 0));
    reg.shards.insert(ShardId(1), ShardDomain {
        id: ShardId(1), fabric_addr: Some(addr(0, 0, 0, 1)),
    });

    // Shard 2: healthy, same region (hop=8)
    tp.update(ShardId(2), &pressure(0, 0));
    reg.shards.insert(ShardId(2), ShardDomain {
        id: ShardId(2), fabric_addr: Some(addr(0, 1, 0, 0)),
    });

    // Shard 3: congested (Zero) — should not be selected
    tp.update(ShardId(3), &pressure(CONGESTED_QUEUE_DEPTH, 0));
    reg.shards.insert(ShardId(3), ShardDomain {
        id: ShardId(3), fabric_addr: Some(addr(0, 0, 0, 2)),
    });

    let requester = addr(0, 0, 0, 0);
    assert_eq!(tp.best_shard_for(&requester, &reg), Some(ShardId(1)));
}

#[test]
fn best_shard_for_no_healthy_returns_none() {
    let mut tp  = TopologyPartition::new();
    let mut reg = DomainRegistry::new();
    tp.update(ShardId(1), &pressure(0, 1)); // Neg
    reg.shards.insert(ShardId(1), ShardDomain {
        id: ShardId(1), fabric_addr: Some(addr(0, 0, 0, 1)),
    });
    assert_eq!(tp.best_shard_for(&addr(0, 0, 0, 0), &reg), None);
}

#[test]
fn node_names_have_correct_prefixes() {
    let name = TopologyNodeName::shard(ShardId(7));
    assert!(name.starts_with("shard::7::fabric"), "{}", name);

    let name = TopologyNodeName::locality_radius(ShardId(3));
    assert!(name.contains("locality_radius"), "{}", name);

    let name = TopologyNodeName::placement_coords(ShardId(5));
    assert!(name.contains("placement_coords"), "{}", name);
}
