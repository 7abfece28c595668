use pgress_session::admission::ShardPressure;
use pgress_session::{PathId, SessionId, ShardId};
use pgress_session::session::ExpiryPolicy;
use pgress_session::sim::{ShardLifecycle, SimCluster};
use pgress_session::topology::{HEALTH_NEG, HEALTH_POS, HEALTH_ZERO};

// ── Safety: no false Pos after shard death ────────────────────────────────

#[test]
fn no_false_pos_after_shard_crash() {
    // 3-shard cluster. After shard 2 crashes, shards 0 and 1 must NOT
    // report HEALTH_POS for it.
    let mut cluster = SimCluster::new(3, 0xDEAD_BEEF);

    // All shards start healthy — verify baseline
    assert_eq!(cluster.health_as_seen_by(ShardId(0), ShardId(2)), HEALTH_POS);
    assert_eq!(cluster.health_as_seen_by(ShardId(1), ShardId(2)), HEALTH_POS);

    cluster.crash_shard(ShardId(2));

    // After crash, no other shard should see Pos for shard 2
    assert!(cluster.none_see_pos(ShardId(2)),
        "crashed shard 2 must not be visible as Pos to any peer");

    // The neg health must be precisely HEALTH_NEG
    assert_eq!(cluster.health_as_seen_by(ShardId(0), ShardId(2)), HEALTH_NEG);
    assert_eq!(cluster.health_as_seen_by(ShardId(1), ShardId(2)), HEALTH_NEG);
}

#[test]
fn crash_emits_topology_health_changed_event() {
    let mut cluster = SimCluster::new(2, 0xCAFE);

    // Drain the initial bootstrap events so we start clean
    cluster.drain_telemetry(ShardId(0));

    // Now crash shard 1 — shard 0 should emit a TopologyHealthChanged event
    cluster.crash_shard(ShardId(1));
    let events = cluster.drain_topology_events(ShardId(0));

    assert!(!events.is_empty(), "expected topology health changed event");
    let (target, old_h, new_h) = events[0];
    assert_eq!(target, ShardId(1));
    assert_eq!(old_h, HEALTH_POS);
    assert_eq!(new_h, HEALTH_NEG);
}

// ── Liveness: healing converges to Pos ───────────────────────────────────

#[test]
fn healing_converges_to_pos() {
    let mut cluster = SimCluster::new(3, 0xBEEF_CAFE);

    cluster.crash_shard(ShardId(1));
    assert!(cluster.none_see_pos(ShardId(1)));

    cluster.heal_shard(ShardId(1));

    // After heal, all shards should see shard 1 as Pos again
    assert!(cluster.all_see_healthy(ShardId(1)),
        "healed shard 1 should be Pos everywhere");
}

#[test]
fn heal_emits_pos_topology_event_on_all_shards() {
    let mut cluster = SimCluster::new(3, 0xF00D);

    cluster.crash_shard(ShardId(2));
    // Drain crash events
    for i in 0..3u64 { cluster.drain_telemetry(ShardId(i)); }

    cluster.heal_shard(ShardId(2));

    // All shards (other than shard 2 itself) should see a Neg→Pos transition
    for i in 0..2u64 {
        let events = cluster.drain_topology_events(ShardId(i));
        let healed = events.iter().any(|&(t, old_h, new_h)| {
            t == ShardId(2) && old_h == HEALTH_NEG && new_h == HEALTH_POS
        });
        assert!(healed, "shard {} should see shard 2 transition Neg→Pos", i);
    }
}

// ── Placement: pick_shard avoids crashed shards ──────────────────────────

#[test]
fn placement_skips_crashed_shard() {
    // 2-shard cluster. Crash shard 1. Shard 0 must route new partitions
    // only to itself (the last healthy shard).
    let mut cluster = SimCluster::new(2, 0x1234);

    cluster.crash_shard(ShardId(1));

    // any_healthy_shard on shard 0 should only return shard 0
    let healthy = cluster.shards.get(&ShardId(0)).unwrap().topology.any_healthy_shard();
    assert_eq!(healthy, Some(ShardId(0)),
        "only shard 0 is healthy; shard 1 (crashed) must be excluded");
}

#[test]
fn placement_prefers_lowest_id_on_tie() {
    // 3 equally healthy shards, no locality bias — should pick ShardId(0).
    let cluster = SimCluster::new(3, 0xABCD);
    let healthy = cluster.shards.get(&ShardId(0)).unwrap().topology.any_healthy_shard();
    assert_eq!(healthy, Some(ShardId(0)));
}

// ── Network partition semantics ───────────────────────────────────────────

#[test]
fn network_partition_isolates_gossip() {
    // 3-shard cluster. Partition {shard 0} from {shard 1, shard 2}.
    // After ticking, shards 1 and 2 should NOT receive shard 0's gossip.
    let mut cluster = SimCluster::new(3, 0x5678);

    // First: crash shard 0 from within the partition so we have a health signal to test
    cluster.partition_network(&[ShardId(0)], &[ShardId(1), ShardId(2)]);

    // Inject a "healed" pressure from shard 0 on itself — normally this would
    // gossip out, but the network partition should prevent it reaching shards 1/2.
    // We test the inverse: crash shard 0 everywhere first, then heal and tick.
    cluster.inject_neg_everywhere(ShardId(0));
    assert_eq!(cluster.health_as_seen_by(ShardId(1), ShardId(0)), HEALTH_NEG);

    // Now heal shard 0 and tick — BUT the gossip should be dropped by the fault policy
    cluster.lifecycle.insert(ShardId(0), ShardLifecycle::Alive);
    let healthy = ShardPressure { queue_depth: 0, cursor_count: 0, budget_consumed: 0 };
    // Update shard 0's own pressure (would normally be gossiped out on tick)
    if let Some(rt) = cluster.shards.get_mut(&ShardId(0)) {
        rt.update_pressure(ShardId(0), healthy);
    }
    // Tick several times — gossip from shard 0 should be dropped by the partition
    cluster.tick(5);

    // Shards 1 and 2 should still see shard 0 as Neg (gossip never arrived)
    assert_eq!(cluster.health_as_seen_by(ShardId(1), ShardId(0)), HEALTH_NEG,
        "gossip from shard 0 should not reach shard 1 through the network partition");
    assert_eq!(cluster.health_as_seen_by(ShardId(2), ShardId(0)), HEALTH_NEG,
        "gossip from shard 0 should not reach shard 2 through the network partition");

    // After healing the network partition, shard 0's next gossip tick should reach peers
    cluster.heal_network_partition(&[ShardId(0)], &[ShardId(1), ShardId(2)]);
    cluster.tick(2);

    assert_eq!(cluster.health_as_seen_by(ShardId(1), ShardId(0)), HEALTH_POS,
        "after network heal, shard 0 gossip should propagate to shard 1");
}

// ── Determinism ──────────────────────────────────────────────────────────

#[test]
fn deterministic_replay_same_seed_same_health_sequence() {
    // Run cluster A and cluster B with the same seed through the same scenario.
    // They must produce identical health sequences.
    let run = |seed: u64| -> Vec<i8> {
        let mut cluster = SimCluster::new(4, seed);
        cluster.crash_shard(ShardId(2));
        cluster.tick(3);
        cluster.heal_shard(ShardId(2));
        cluster.tick(3);
        // Collect health of shard 2 as seen by shard 0 after each step
        (0..4u64)
            .map(|id| cluster.health_as_seen_by(ShardId(0), ShardId(id)))
            .collect()
    };

    assert_eq!(run(0xDEAD), run(0xDEAD),
        "same seed must produce identical health snapshot");
    // Different seeds may or may not differ (fault injection varies), but
    // the determinism property must hold within a seed.
}

// ── Session expiry in multi-shard context ─────────────────────────────────

#[test]
fn reaper_fires_only_on_stale_sessions() {
    let mut cluster = SimCluster::new(2, 0xAAAA);
    let active_sid  = SessionId(1);
    let stale_sid   = SessionId(2);

    cluster.register_session_everywhere(active_sid, PathId(10));
    cluster.register_session_everywhere(stale_sid,  PathId(20));

    // Advance epoch significantly, then record activity only for active session
    cluster.epoch = 100_000;
    for id in cluster.shards.keys() {
        let rt = cluster.shards.get_mut(&id).unwrap();
        rt.sessions.record_activity(active_sid, 99_999);
        // stale_sid: last_active stays at 0 (from construction)
    }

    let policy = ExpiryPolicy {
        inactivity_epoch_threshold: Some(1_000),
        epoch_lag_threshold:        Some(50_000),
        zero_frustration_threshold: None,
    };

    let results = cluster.reap_all(&policy);
    assert_eq!(results.len(), 2);
    for shard_id in results.keys() {
        let result = results.get(&shard_id).unwrap();
        let tombstoned_ids: Vec<SessionId> = result.tombstoned.iter().map(|(s, _)| *s).collect();
        assert!(tombstoned_ids.contains(&stale_sid),
            "shard {:?}: stale session should be tombstoned", shard_id);
        assert!(!tombstoned_ids.contains(&active_sid),
            "shard {:?}: active session should NOT be tombstoned", shard_id);
    }
}

// ── Interpretation-monotone convergence (AP, non-confluent paths) ────────────

#[test]
fn convergence_under_different_gossip_orderings() {
    // Non-confluence structural test.
    //
    // Two clusters run the same fault scenario (crash shard 2, tick, heal, tick)
    // but with different gossip delay policies, causing different event orderings.
    // The intermediate states are non-canonical — different delivery orderings
    // will produce different health readings mid-scenario.
    //
    // The invariant: the *final observable equivalence class* (which shards are
    // Pos/Zero/Neg after convergence) must agree across both runs, even though
    // the paths through the intermediate state space differ.
    //
    // This is the AP property: availability (the system continues to operate,
    // possibly at Zero) + eventual interpretation-class convergence. It is NOT
    // a claim that intermediate states are identical (that would require global
    // confluence, which does not hold).

    let run = |max_delay: u32, seed: u64| -> [i8; 3] {
        let mut cluster = SimCluster::new(4, seed);
        cluster.network.faults.max_delay_ticks = max_delay;

        // Crash shard 2 via gossip: update only shard 2's own pressure.
        // Peers learn about it through the gossip tick (delayed by delay policy).
        // We do NOT call inject_neg_everywhere — that would bypass the gossip path
        // and remove the ordering non-determinism we are testing.
        let neg = ShardPressure { queue_depth: 0, cursor_count: 1, budget_consumed: 0 };
        cluster.lifecycle.insert(ShardId(2), ShardLifecycle::Crashed);
        cluster.shards.get_mut(&ShardId(2)).unwrap().update_pressure(ShardId(2), neg);

        // Tick enough for even the maximum delay to expire
        cluster.tick(max_delay as u64 + 5);

        // Intermediate check: we intentionally do NOT assert anything about
        // intermediate states here — that would be a non-confluence violation.

        // Heal: restore shard 2's own pressure. Peers learn through gossip ticks.
        let healthy = ShardPressure { queue_depth: 0, cursor_count: 0, budget_consumed: 0 };
        cluster.lifecycle.insert(ShardId(2), ShardLifecycle::Alive);
        cluster.shards.get_mut(&ShardId(2)).unwrap().update_pressure(ShardId(2), healthy);

        // Tick enough for heal gossip to reach all peers regardless of delay
        cluster.tick(max_delay as u64 + 5);

        // Collect final health of shard 2 as seen by shards 0, 1, 3
        // (the three observers that are not shard 2 itself)
        [
            cluster.health_as_seen_by(ShardId(0), ShardId(2)),
            cluster.health_as_seen_by(ShardId(1), ShardId(2)),
            cluster.health_as_seen_by(ShardId(3), ShardId(2)),
        ]
    };

    // Fast gossip (no delay) and slow gossip (delay up to 3 ticks) must
    // produce the same final health classification.
    let fast_class = run(0, 0xC0FFEE);
    let slow_class = run(3, 0xC0FFEE);
    assert_eq!(fast_class, slow_class,
        "different gossip delay orderings must converge to the same interpretation class");
    assert!(fast_class.iter().all(|&h| h == HEALTH_POS),
        "after heal + convergence, all observers must see shard 2 as Pos");

    // Different seeds (different random delay sequences), same delay bound —
    // still the same final class.
    let class_a = run(2, 0x1111_AAAA);
    let class_b = run(2, 0x2222_BBBB);
    assert_eq!(class_a, class_b,
        "different RNG seeds (different delay sequences) must converge to same class");
}

// ── Congested-but-not-dead shard uses Zero health ─────────────────────────

#[test]
fn congested_shard_shows_zero_not_neg() {
    let mut cluster = SimCluster::new(2, 0xBBBB);

    // Inject congested (but not dead) pressure for shard 1
    let congested = ShardPressure {
        queue_depth:     600,  // above CONGESTED_QUEUE_DEPTH (500)
        cursor_count:    0,    // no parked WorkCursor → not Neg
        budget_consumed: 0,
    };
    if let Some(rt) = cluster.shards.get_mut(&ShardId(0)) {
        rt.update_pressure(ShardId(1), congested);
    }

    let health = cluster.health_as_seen_by(ShardId(0), ShardId(1));
    assert_eq!(health, HEALTH_ZERO,
        "congested shard should be HEALTH_ZERO (not Neg, not Pos)");

    // Placement must exclude the congested shard
    let best = cluster.shards.get(&ShardId(0)).unwrap().topology.any_healthy_shard();
    assert_eq!(best, Some(ShardId(0)),
        "congested shard 1 (Zero) must be excluded from placement; only shard 0 qualifies");
}
