use pgress_session::admission::ShardPressure;
use pgress_session::{SessionId, ShardId, TenantId, WirePartitionId};
use pgress_session::sim::{Lcg64, ShardLifecycle, SimCluster};
use pgress_session::sim::faults::{DRAWS, FaultPolicy};
use pgress_session::sim::network::{PendingMsg, SimNetwork};
use pgress_session::sim::workload::{CrossShardWorkload, WorkloadBuilder};
use pgress_session::topology::{HEALTH_NEG, HEALTH_POS, HEALTH_ZERO};

fn pressure(queue_depth: u32, cursor_count: u32) -> ShardPressure {
    ShardPressure { queue_depth, cursor_count, budget_consumed: 0 }
}

#[test]
fn generator_values() {
    let mut rng = Lcg64::new(7);
    assert_eq!(rng.next_u64(), 15462296684244204215);
    assert_eq!(rng.next_draw(), 780327312);
    assert_eq!(rng.next_usize_below(10), 9);
    let mut wrapped = Lcg64::new(u64::MAX);
    assert_eq!(wrapped.next_u64(), 1442695040888963407);
}

#[test]
fn delays() {
    let mut rng = Lcg64::new(7);
    let faults = FaultPolicy::perfect().with_max_delay(5);
    let drawn: Vec<u32> = (0..3).map(|_| faults.sample_delay_ticks(&mut rng)).collect();
    assert_eq!(drawn, vec![2, 3, 5]);
    let before = rng;
    assert_eq!(FaultPolicy::new().sample_delay_ticks(&mut rng), 1);
    assert_eq!(rng, before);
    assert_eq!(FaultPolicy::new().with_drop_threshold(u32::MAX).drop_threshold, DRAWS);
}

#[test]
fn severed_pairs_have_no_order() {
    let mut faults = FaultPolicy::default();
    faults.add_partition(ShardId(9), ShardId(4));
    assert!(faults.is_partitioned(ShardId(4), ShardId(9)));
    assert!(!faults.is_partitioned(ShardId(4), ShardId(4)));
    faults.remove_partition(ShardId(4), ShardId(9));
    assert!(!faults.is_partitioned(ShardId(9), ShardId(4)));
}

#[test]
fn messages_are_drained_in_order() {
    let gossip = |n: u64, deliver_at: u64| PendingMsg::TopologyGossip {
        src: ShardId(n),
        dst: ShardId(0),
        pressure: pressure(0, 0),
        deliver_at,
    };
    let mut network = SimNetwork::new();
    for (n, at) in [(1, 5), (2, 3), (3, 4), (4, 9)] {
        network.enqueue(gossip(n, at));
    }
    assert_eq!(network.drain_due(4), vec![gossip(2, 3), gossip(3, 4)]);
    assert_eq!(network.pending_count(), 2);
    assert_eq!(network.drain_due(9), vec![gossip(1, 5), gossip(4, 9)]);
}

#[test]
fn new_cluster() {
    let cluster = SimCluster::new(3, 1);
    for a in 0..3u64 {
        let rt = cluster.shards.get(&ShardId(a)).unwrap();
        assert!(rt.telemetry.is_empty());
        assert_eq!(rt.topology.len(), 3);
        assert_eq!(rt.domains.shards.keys(), vec![ShardId(a)]);
        assert_eq!(rt.domains.tenants.keys(), vec![TenantId(0)]);
    }
    assert!(cluster.all_see_healthy(ShardId(1)));
    assert_eq!((cluster.tick, cluster.epoch), (0, 1));
    assert_eq!(SimCluster::new(0, 1).shards.len(), 0);
}

#[test]
fn gossip_takes_two_ticks() {
    let mut cluster = SimCluster::new(3, 5);
    cluster.shards.get_mut(&ShardId(2)).unwrap().update_pressure(ShardId(2), pressure(600, 0));
    cluster.tick(1);
    assert_eq!(cluster.health_as_seen_by(ShardId(0), ShardId(2)), HEALTH_POS);
    assert_eq!(cluster.network.pending_count(), 6);
    cluster.tick(1);
    assert_eq!(cluster.health_as_seen_by(ShardId(0), ShardId(2)), HEALTH_ZERO);
    assert_eq!(cluster.health_as_seen_by(ShardId(1), ShardId(2)), HEALTH_ZERO);
    assert_eq!((cluster.tick, cluster.epoch), (2, 3));
}

#[test]
fn gossip_converges_within_twice_the_delay() {
    for seed in 0..20u64 {
        for max_delay in [0u32, 1, 4] {
            let mut cluster = SimCluster::new(4, seed);
            cluster.network.faults.max_delay_ticks = max_delay;
            cluster.tick(7);
            cluster.shards.get_mut(&ShardId(3)).unwrap().update_pressure(ShardId(3), pressure(0, 1));
            cluster.tick(2 * u64::from(max_delay.max(1)));
            assert!(cluster.none_see_pos(ShardId(3)));
        }
    }
}

#[test]
fn lossy_network_loses_everything_at_the_top() {
    let mut cluster = SimCluster::new(2, 3);
    cluster.network.faults.drop_threshold = DRAWS;
    cluster.tick(10);
    assert_eq!(cluster.network.pending_count(), 0);
    let mut half = SimCluster::new(2, 3);
    half.network.faults.drop_threshold = DRAWS / 2;
    half.network.faults.max_delay_ticks = 50;
    half.tick(40);
    assert!(half.network.pending_count() > 0 && half.network.pending_count() < 80);
}

#[test]
fn the_seed_matters_to_faults_alone() {
    let run = |seed: u64| {
        let mut cluster = SimCluster::new(3, seed);
        cluster.shards.get_mut(&ShardId(1)).unwrap().update_pressure(ShardId(1), pressure(600, 0));
        cluster.tick(4);
        (cluster.network.pending, cluster.rng)
    };
    assert_eq!(run(1).0, run(2).0);
    assert_eq!(run(1).1, Lcg64::new(1));
}

#[test]
fn only_the_living_count_as_observers() {
    let mut cluster = SimCluster::new(3, 1);
    cluster.shards.get_mut(&ShardId(1)).unwrap().update_pressure(ShardId(0), pressure(600, 0));
    assert!(!cluster.all_see_healthy(ShardId(0)));
    cluster.lifecycle.insert(ShardId(1), ShardLifecycle::Recovering);
    assert!(cluster.all_see_healthy(ShardId(0)));
    assert!(!cluster.none_see_pos(ShardId(0)));
    cluster.lifecycle.insert(ShardId(2), ShardLifecycle::Crashed);
    assert!(cluster.none_see_pos(ShardId(0)));
}

#[test]
fn crash_and_heal_concern_one_shard() {
    let mut cluster = SimCluster::new(3, 1);
    cluster.crash_shard(ShardId(1));
    for observer in 0..3u64 {
        assert_eq!(cluster.health_as_seen_by(ShardId(observer), ShardId(1)), HEALTH_NEG);
        assert_eq!(cluster.health_as_seen_by(ShardId(observer), ShardId(2)), HEALTH_POS);
    }
    assert_eq!(cluster.drain_topology_events(ShardId(0)), vec![(ShardId(1), HEALTH_POS, HEALTH_NEG)]);
    assert!(cluster.drain_topology_events(ShardId(0)).is_empty());
    assert!(cluster.drain_telemetry(ShardId(8)).is_empty());
    cluster.heal_shard(ShardId(1));
    assert_eq!(cluster.lifecycle.get(&ShardId(1)), Some(&ShardLifecycle::Alive));
    assert!(cluster.all_see_healthy(ShardId(1)));
}

#[test]
fn gossip_of_a_crashed_shard_is_not_delivered() {
    for n in 1..6u64 {
        for max_delay in [0u32, 3] {
            let mut cluster = SimCluster::new(3, 7);
            cluster.network.faults.max_delay_ticks = max_delay;
            cluster.tick(n);
            cluster.crash_shard(ShardId(2));
            for _ in 0..6 {
                cluster.tick(1);
                assert!(cluster.none_see_pos(ShardId(2)));
            }
            assert_eq!(cluster.health_as_seen_by(ShardId(0), ShardId(1)), HEALTH_POS);
        }
    }
}

#[test]
fn a_healed_shard_stays_healthy() {
    let mut cluster = SimCluster::new(3, 9);
    cluster.network.faults.max_delay_ticks = 8;
    cluster.network.faults.drop_threshold = DRAWS / 2;
    cluster.tick(5);
    cluster.crash_shard(ShardId(1));
    cluster.tick(3);
    cluster.heal_shard(ShardId(1));
    for _ in 0..20 {
        assert!(cluster.all_see_healthy(ShardId(1)));
        cluster.tick(1);
    }
}

#[test]
fn a_partition_isolates_and_heals() {
    let mut cluster = SimCluster::new(4, 1);
    let (a, b) = ([ShardId(0), ShardId(1)], [ShardId(2), ShardId(3)]);
    cluster.partition_network(&a, &b);
    cluster.shards.get_mut(&ShardId(0)).unwrap().update_pressure(ShardId(0), pressure(600, 0));
    cluster.tick(9);
    assert_eq!(cluster.health_as_seen_by(ShardId(1), ShardId(0)), HEALTH_ZERO);
    assert_eq!(cluster.health_as_seen_by(ShardId(2), ShardId(0)), HEALTH_POS);
    cluster.heal_network_partition(&a, &b);
    cluster.tick(2);
    for id in 0..4u64 {
        assert_eq!(cluster.health_as_seen_by(ShardId(id), ShardId(0)), HEALTH_ZERO);
    }
}

#[test]
fn severing_sets_and_healing_them() {
    let mut cluster = SimCluster::new(4, 1);
    let (a, b) = ([ShardId(0), ShardId(1)], [ShardId(2), ShardId(3)]);
    cluster.partition_network(&a, &b);
    cluster.tick(1);
    assert_eq!(cluster.network.pending_count(), 4);
    cluster.heal_network_partition(&a, &b[..1]);
    assert!(!cluster.network.faults.is_partitioned(ShardId(2), ShardId(1)));
    assert!(cluster.network.faults.is_partitioned(ShardId(3), ShardId(1)));
}

#[test]
fn workloads() {
    let mut w = WorkloadBuilder::propagate(SessionId(1), WirePartitionId(2));
    let first = w.next();
    assert_eq!((first.opcode, first.stream_seq, first.causal_epoch, first.length), (4, 1, 1, 16));
    let seqs: Vec<u64> = w.batch(3).iter().map(|h| h.stream_seq).collect();
    assert_eq!(seqs, vec![2, 3, 4]);
    assert_eq!(WorkloadBuilder::set_value(SessionId(1), WirePartitionId(2)).next().opcode, 1);
    let mut fresh = WorkloadBuilder::set_value(SessionId(4), WirePartitionId(5));
    for k in 1..=4u64 {
        let h = fresh.next();
        assert_eq!((h.stream_seq, h.causal_epoch, h.opcode, h.flags), (k, k, 1, 0));
        assert_eq!((h.session_id, h.partition_id, h.tenant_id), (SessionId(4), WirePartitionId(5), TenantId(0)));
    }
    let mut cross = CrossShardWorkload::new(SessionId(1), WirePartitionId(2), WirePartitionId(3));
    let order: Vec<(u64, u64, bool)> = (0..4)
        .map(|_| {
            let (h, remote) = cross.next();
            (h.partition_id.0, h.stream_seq, remote)
        })
        .collect();
    assert_eq!(order, vec![(2, 1, false), (3, 1, true), (2, 2, false), (3, 2, true)]);
}
