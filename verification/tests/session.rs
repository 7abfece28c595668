use pgress_session::isa::AuthorityMode;
use pgress_session::{PathId, SessionId, TenantId};
use pgress_session::session::{
    ExpiryPolicy, ExpiryReason, PathEntry, PathState, PathTable, SessionEntry, SessionReaper,
    SessionTable,
};

fn base_session(session_id: u64, path_id: u64) -> (SessionEntry, PathEntry) {
    let sid = SessionId(session_id);
    let pid = PathId(path_id);
    let session = SessionEntry {
        session_id:       sid,
        tenant_id:        TenantId(1),
        active_path_id:   Some(pid),
        prev_path_id:     None,
        stream_seq_floor: 0,
        auth_mode:        AuthorityMode::Advisory,
        last_active_causal_epoch:    0,
        consecutive_quiescent_epochs: 0,
    };
    let path = PathEntry {
        path_id:             pid,
        session_id:          sid,
        last_ack_stream_seq: 0,
        state:               PathState::Active,
    };
    (session, path)
}

#[test]
fn stream_seq_continues_across_path_migration() {
    let mut sessions = SessionTable::new();
    let mut paths    = PathTable::new();

    let (sess, path_a) = base_session(1, 100);
    sessions.create(sess);
    // Simulate some acks on path_a
    paths.create(PathEntry { last_ack_stream_seq: 50, ..path_a });

    // Migrate to path_b
    sessions.migrate_path(SessionId(1), PathId(200), 50, &mut paths).unwrap();

    // Old path is draining
    assert_eq!(paths.get(PathId(100)).unwrap().state, PathState::Draining);
    // New path is active and inherits last_ack
    let new_path = paths.get(PathId(200)).unwrap();
    assert_eq!(new_path.state,               PathState::Active);
    assert_eq!(new_path.last_ack_stream_seq, 50);   // inherited, not reset
    // Session points at new path
    assert_eq!(sessions.get(SessionId(1)).unwrap().active_path_id, Some(PathId(200)));
    assert_eq!(sessions.get(SessionId(1)).unwrap().prev_path_id,   Some(PathId(100)));
}

#[test]
fn stream_seq_resets_on_session_termination() {
    let mut sessions = SessionTable::new();
    let mut paths    = PathTable::new();

    let (sess, path) = base_session(2, 300);
    sessions.create(sess);
    paths.create(path);
    sessions.ack_seq(SessionId(2), 99);
    assert_eq!(sessions.get(SessionId(2)).unwrap().stream_seq_floor, 100);

    // Terminate session
    sessions.terminate(SessionId(2));

    // Create a new session with the same id — floor starts at 0
    sessions.create(SessionEntry {
        session_id:       SessionId(2),
        tenant_id:        TenantId(1),
        active_path_id:   None,
        prev_path_id:     None,
        stream_seq_floor: 0,   // fresh start
        auth_mode:        AuthorityMode::Advisory,
        last_active_causal_epoch:     0,
        consecutive_quiescent_epochs: 0,
    });
    assert_eq!(sessions.get(SessionId(2)).unwrap().stream_seq_floor, 0);
}

#[test]
fn replay_suppression_below_floor() {
    let mut sessions = SessionTable::new();
    let (sess, _) = base_session(3, 400);
    sessions.create(sess);
    sessions.ack_seq(SessionId(3), 9);  // floor = 10

    assert!(!sessions.is_seq_valid(SessionId(3), 9));  // below floor → replay
    assert!(sessions.is_seq_valid(SessionId(3), 10));  // at floor → valid
    assert!(sessions.is_seq_valid(SessionId(3), 11));  // above floor → valid
}

#[test]
fn closed_path_does_not_resolve_session() {
    let mut paths = PathTable::new();
    paths.create(PathEntry {
        path_id:             PathId(1),
        session_id:          SessionId(1),
        last_ack_stream_seq: 0,
        state:               PathState::Closed,
    });
    assert!(paths.resolve_session(PathId(1)).is_none());
}

#[test]
fn active_path_resolves_session() {
    let mut paths = PathTable::new();
    paths.create(PathEntry {
        path_id:             PathId(2),
        session_id:          SessionId(5),
        last_ack_stream_seq: 0,
        state:               PathState::Active,
    });
    assert_eq!(paths.resolve_session(PathId(2)), Some(SessionId(5)));
}

#[test]
fn migrate_path_unknown_session_returns_error() {
    let mut sessions = SessionTable::new();
    let mut paths    = PathTable::new();
    let result = sessions.migrate_path(SessionId(999), PathId(1), 0, &mut paths);
    assert!(result.is_err());
}

// ── SessionReaper tests ───────────────────────────────────────────────────

fn make_session(id: u64, last_epoch: u64, quiescent_epochs: u32) -> SessionEntry {
    SessionEntry {
        session_id:       SessionId(id),
        tenant_id:        TenantId(0),
        active_path_id:   None,
        prev_path_id:     None,
        stream_seq_floor: 0,
        auth_mode:        AuthorityMode::Advisory,
        last_active_causal_epoch:     last_epoch,
        consecutive_quiescent_epochs: quiescent_epochs,
    }
}

#[test]
fn reaper_inactivity_trigger() {
    let policy = ExpiryPolicy {
        inactivity_epoch_threshold: Some(100),
        epoch_lag_threshold:        None,
        zero_frustration_threshold: None,
    };
    let reaper = SessionReaper::new(policy);
    let mut table = SessionTable::new();
    table.create(make_session(1, 0, 0));   // inactive for > 100 epochs
    table.create(make_session(2, 950, 0)); // last active recently

    let result = reaper.reap(&mut table, 1_000);
    assert_eq!(result.tombstoned.len(), 1);
    assert_eq!(result.tombstoned[0].0, SessionId(1));
    assert!(matches!(result.tombstoned[0].1, ExpiryReason::Inactivity { .. }));
    // Session 2 survives
    assert!(table.get(SessionId(2)).is_some());
}

#[test]
fn reaper_epoch_lag_trigger() {
    let policy = ExpiryPolicy {
        inactivity_epoch_threshold: None,
        epoch_lag_threshold:        Some(500),
        zero_frustration_threshold: None,
    };
    let reaper = SessionReaper::new(policy);
    let mut table = SessionTable::new();
    // frontier = max(100, 1000) = 1000; session 1 lag = 900 > 500
    table.create(make_session(1, 100, 0));
    table.create(make_session(2, 1000, 0));

    let result = reaper.reap(&mut table, 1_000);
    assert_eq!(result.tombstoned.len(), 1);
    assert_eq!(result.tombstoned[0].0, SessionId(1));
    assert!(matches!(result.tombstoned[0].1, ExpiryReason::EpochLag { .. }));
}

#[test]
fn reaper_zero_frustration_trigger() {
    let policy = ExpiryPolicy {
        inactivity_epoch_threshold: None,
        epoch_lag_threshold:        None,
        zero_frustration_threshold: Some(50),
    };
    let reaper = SessionReaper::new(policy);
    let mut table = SessionTable::new();
    table.create(make_session(1, 0, 75));  // 75 >= 50 → tombstone
    table.create(make_session(2, 0, 10));  // 10 < 50 → survive

    let result = reaper.reap(&mut table, 100);
    assert_eq!(result.tombstoned.len(), 1);
    assert!(matches!(
        result.tombstoned[0].1,
        ExpiryReason::ZeroFrustration { consecutive_epochs: 75 }
    ));
    assert!(table.get(SessionId(2)).is_some());
}

#[test]
fn reaper_disabled_triggers_never_tombstone() {
    let policy = ExpiryPolicy {
        inactivity_epoch_threshold: None,
        epoch_lag_threshold:        None,
        zero_frustration_threshold: None,
    };
    let reaper = SessionReaper::new(policy);
    let mut table = SessionTable::new();
    // Session that would be tombstoned by every trigger if enabled
    table.create(make_session(1, 0, u32::MAX));

    let result = reaper.reap(&mut table, u64::MAX);
    assert!(result.tombstoned.is_empty(), "all triggers disabled → no tombstoning");
}

#[test]
fn record_activity_resets_frustration_counter() {
    let mut table = SessionTable::new();
    table.create(make_session(1, 100, 42)); // has 42 consecutive quiescent epochs
    table.record_activity(SessionId(1), 200);
    let s = table.get(SessionId(1)).unwrap();
    assert_eq!(s.consecutive_quiescent_epochs, 0, "activity must reset frustration counter");
    assert_eq!(s.last_active_causal_epoch, 200);
}

#[test]
fn increment_quiescent_epochs_saturates() {
    let mut table = SessionTable::new();
    table.create(make_session(1, 0, u32::MAX));
    table.increment_quiescent_epochs(SessionId(1)); // must not panic / overflow
    assert_eq!(table.get(SessionId(1)).unwrap().consecutive_quiescent_epochs, u32::MAX);
}
