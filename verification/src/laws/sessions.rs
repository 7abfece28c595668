//! What a session's stream, its paths and its life depend on.

use vstd::prelude::*;

use crate::{PathId, SessionId};
use crate::session::{
    ExpiryPolicy, ExpiryReason, PathEntry, PathState, SessionEntry, expiry, frontier_of,
    is_frontier, lemma_tombstones_contain, migrated_paths, migrated_session, seq_valid,
    session_of_path, survivors, tombstones, with_ack, with_activity, with_path_state,
    with_quiescent_epoch,
};

verus! {

/// The two entries differ at most in what is named: the last activity and the quiescent epochs.
pub open spec fn same_identity(a: SessionEntry, b: SessionEntry) -> bool {
    &&& a.session_id == b.session_id
    &&& a.tenant_id == b.tenant_id
    &&& a.auth_mode == b.auth_mode
}

/// A sequence number is valid exactly where its session is live and nothing at or above it was
/// acknowledged.
pub proof fn law_floor(sessions: Map<SessionId, SessionEntry>, id: SessionId, seq: u64)
    ensures
        seq_valid(sessions, id, seq) <==> sessions.contains_key(id) && seq
            >= sessions[id].stream_seq_floor,
{
}

/// An acknowledgement lifts the floor of its session just above the acknowledged number, never
/// lowers it, and touches nothing else.
pub proof fn law_acknowledgement(
    sessions: Map<SessionId, SessionEntry>,
    id: SessionId,
    acked: u64,
    other: SessionId,
)
    requires
        acked < u64::MAX,
    ensures
        ({
            let after = with_ack(sessions, id, acked);
            &&& after.dom() == sessions.dom()
            &&& other != id ==> after[other] == sessions[other]
            &&& sessions.contains_key(id) ==> {
                let a = after[id];
                let s = sessions[id];
                &&& a.stream_seq_floor > acked
                &&& a.stream_seq_floor >= s.stream_seq_floor
                &&& a.stream_seq_floor == s.stream_seq_floor || a.stream_seq_floor == acked + 1
                &&& same_identity(a, s)
                &&& a.active_path_id == s.active_path_id
                &&& a.prev_path_id == s.prev_path_id
                &&& a.last_active_causal_epoch == s.last_active_causal_epoch
                &&& a.consecutive_quiescent_epochs == s.consecutive_quiescent_epochs
            }
        }),
{
    assert(with_ack(sessions, id, acked).dom() =~= sessions.dom());
}

/// Activity sets the last activity of its session to the later of the two epochs, ends its run of
/// quiescent ones, and touches nothing else.
pub proof fn law_activity(
    sessions: Map<SessionId, SessionEntry>,
    id: SessionId,
    epoch: u64,
    other: SessionId,
)
    ensures
        ({
            let after = with_activity(sessions, id, epoch);
            &&& after.dom() == sessions.dom()
            &&& other != id ==> after[other] == sessions[other]
            &&& sessions.contains_key(id) ==> {
                let a = after[id];
                let s = sessions[id];
                &&& a.last_active_causal_epoch >= s.last_active_causal_epoch
                &&& a.last_active_causal_epoch >= epoch
                &&& a.last_active_causal_epoch == s.last_active_causal_epoch
                    || a.last_active_causal_epoch == epoch
                &&& a.consecutive_quiescent_epochs == 0
                &&& same_identity(a, s)
                &&& a.active_path_id == s.active_path_id
                &&& a.prev_path_id == s.prev_path_id
                &&& a.stream_seq_floor == s.stream_seq_floor
            }
        }),
{
    assert(with_activity(sessions, id, epoch).dom() =~= sessions.dom());
}

/// A quiescent epoch counts one more for its session, up to the largest count, and touches nothing
/// else.
pub proof fn law_quiescent_epoch(
    sessions: Map<SessionId, SessionEntry>,
    id: SessionId,
    other: SessionId,
)
    ensures
        ({
            let after = with_quiescent_epoch(sessions, id);
            &&& after.dom() == sessions.dom()
            &&& other != id ==> after[other] == sessions[other]
            &&& sessions.contains_key(id) ==> {
                let a = after[id];
                let s = sessions[id];
                &&& a.consecutive_quiescent_epochs - s.consecutive_quiescent_epochs == if s.consecutive_quiescent_epochs
                    == u32::MAX {
                    0int
                } else {
                    1int
                }
                &&& same_identity(a, s)
                &&& a.active_path_id == s.active_path_id
                &&& a.prev_path_id == s.prev_path_id
                &&& a.stream_seq_floor == s.stream_seq_floor
                &&& a.last_active_causal_epoch == s.last_active_causal_epoch
            }
        }),
{
    assert(with_quiescent_epoch(sessions, id).dom() =~= sessions.dom());
}

/// A migration makes the new path the active one and the old active path the previous one, and
/// leaves the rest of the session as it was.
pub proof fn law_migrated_session(s: SessionEntry, new_path: PathId)
    ensures
        ({
            let a = migrated_session(s, new_path);
            &&& a.active_path_id == Some(new_path)
            &&& s.active_path_id is Some ==> a.prev_path_id == s.active_path_id
            &&& s.active_path_id is None ==> a.prev_path_id == s.prev_path_id
            &&& same_identity(a, s)
            &&& a.stream_seq_floor == s.stream_seq_floor
            &&& a.last_active_causal_epoch == s.last_active_causal_epoch
            &&& a.consecutive_quiescent_epochs == s.consecutive_quiescent_epochs
        }),
{
}

/// A migration drains the old active path, where it is known and another one, enters the new path
/// as active with the acknowledged number, and leaves every other path as it was.
pub proof fn law_migrated_paths(
    paths: Map<PathId, PathEntry>,
    s: SessionEntry,
    id: SessionId,
    new_path: PathId,
    last_ack: u64,
    p: PathId,
)
    ensures
        ({
            let after = migrated_paths(paths, s, id, new_path, last_ack);
            &&& after.contains_key(p) <==> paths.contains_key(p) || p == new_path
            &&& after[new_path].path_id == new_path
            &&& after[new_path].session_id == id
            &&& after[new_path].last_ack_stream_seq == last_ack
            &&& after[new_path].state == PathState::Active
            &&& p != new_path && paths.contains_key(p) ==> {
                &&& after[p].path_id == paths[p].path_id
                &&& after[p].session_id == paths[p].session_id
                &&& after[p].last_ack_stream_seq == paths[p].last_ack_stream_seq
                &&& after[p].state == if s.active_path_id == Some(p) {
                    PathState::Draining
                } else {
                    paths[p].state
                }
            }
        }),
{
}

/// Putting a path in a state does that to this path alone, where it is known.
pub proof fn law_path_state(
    paths: Map<PathId, PathEntry>,
    id: Option<PathId>,
    state: PathState,
    p: PathId,
)
    ensures
        ({
            let after = with_path_state(paths, id, state);
            &&& after.contains_key(p) <==> paths.contains_key(p)
            &&& paths.contains_key(p) ==> {
                &&& after[p].path_id == paths[p].path_id
                &&& after[p].session_id == paths[p].session_id
                &&& after[p].last_ack_stream_seq == paths[p].last_ack_stream_seq
                &&& after[p].state == if id == Some(p) {
                    state
                } else {
                    paths[p].state
                }
            }
        }),
{
}

/// A path leads to its session unless it is not known or is closed.
pub proof fn law_path_leads_to_its_session(paths: Map<PathId, PathEntry>, id: PathId)
    ensures
        session_of_path(paths, id) is Some <==> paths.contains_key(id) && (paths[id].state
            == PathState::Active || paths[id].state == PathState::Draining),
        session_of_path(paths, id) matches Some(s) ==> s == paths[id].session_id,
{
}

// ── The end of sessions ──────────────────────────────────────────────────────

proof fn lemma_latest(sessions: Map<SessionId, SessionEntry>, members: Set<SessionId>) -> (k: SessionId)
    requires
        members.finite(),
        members.len() > 0,
    ensures
        members.contains(k),
        forall|o: SessionId| #[trigger]
            members.contains(o) ==> sessions[o].last_active_causal_epoch
                <= sessions[k].last_active_causal_epoch,
    decreases members.len(),
{
    let x = members.choose();
    let rest = members.remove(x);
    if rest.len() == 0 {
        assert forall|o: SessionId| #[trigger] members.contains(o) implies o == x by {
            if o != x {
                assert(rest.contains(o));
            }
        }
        x
    } else {
        let y = lemma_latest(sessions, rest);
        let k = if sessions[x].last_active_causal_epoch > sessions[y].last_active_causal_epoch {
            x
        } else {
            y
        };
        assert forall|o: SessionId| #[trigger] members.contains(o) implies sessions[o].last_active_causal_epoch
            <= sessions[k].last_active_causal_epoch by {
            if o != x {
                assert(rest.contains(o));
            }
        }
        k
    }
}

/// The frontier is the most recent activity among the sessions: one has it, none has a later one.
pub proof fn law_frontier_is_the_latest_activity(
    sessions: Map<SessionId, SessionEntry>,
    current: u64,
    o: SessionId,
) -> (latest: SessionId)
    requires
        sessions.dom().finite(),
        sessions.contains_key(o),
    ensures
        sessions.contains_key(latest),
        frontier_of(sessions, current) == sessions[latest].last_active_causal_epoch,
        forall|k: SessionId| #[trigger]
            sessions.contains_key(k) ==> sessions[k].last_active_causal_epoch
                <= sessions[latest].last_active_causal_epoch,
{
    assert(sessions.dom().contains(o));
    assert(sessions.dom().len() > 0) by {
        if sessions.dom().len() == 0 {
            assert(sessions.dom() =~= Set::empty());
        }
    }
    let latest = lemma_latest(sessions, sessions.dom());
    assert(sessions.dom().contains(latest));
    assert(!sessions.is_empty());
    assert forall|k: SessionId| #[trigger] sessions.contains_key(k) implies sessions[k].last_active_causal_epoch
        <= sessions[latest].last_active_causal_epoch by {
        assert(sessions.dom().contains(k));
    }
    let f = sessions[latest].last_active_causal_epoch;
    assert(is_frontier(sessions, current, f));
    let g = frontier_of(sessions, current);
    assert(is_frontier(sessions, current, g));
    let at = choose|k: SessionId| #[trigger]
        sessions.contains_key(k) && sessions[k].last_active_causal_epoch == g;
    assert(sessions.contains_key(at));
    latest
}

/// Without sessions the frontier is the current epoch.
pub proof fn law_frontier_of_none(current: u64)
    ensures
        frontier_of(Map::empty(), current) == current,
{
    let none = Map::<SessionId, SessionEntry>::empty();
    assert(none.is_empty());
    assert(is_frontier(none, current, current));
}

/// The session was active more than `t` epochs before `current`.
pub open spec fn is_idle(s: SessionEntry, t: Option<u64>, current: u64) -> bool {
    t is Some && s.last_active_causal_epoch + t->0 < current
}

/// Some session was active more than `t` epochs after this one.
pub open spec fn is_behind(
    sessions: Map<SessionId, SessionEntry>,
    s: SessionEntry,
    t: Option<u64>,
) -> bool {
    t is Some && exists|o: SessionId| #[trigger]
        sessions.contains_key(o) && s.last_active_causal_epoch + t->0
            < sessions[o].last_active_causal_epoch
}

/// The session has had at least `t` quiescent epochs in a row.
pub open spec fn is_at_rest(s: SessionEntry, t: Option<u32>) -> bool {
    t is Some && t->0 <= s.consecutive_quiescent_epochs
}

/// Why one session is to be ended, given the current epoch and the frontier: for idleness, else for
/// lagging behind the frontier, else for rest; and otherwise not.
pub proof fn law_expiry(policy: ExpiryPolicy, s: SessionEntry, current: u64, frontier: u64)
    ensures
        ({
            let reason = expiry(policy, s, current, frontier);
            let idle = is_idle(s, policy.inactivity_epoch_threshold, current);
            let behind = policy.epoch_lag_threshold is Some && s.last_active_causal_epoch + (
            policy.epoch_lag_threshold->0) < frontier;
            let rest = is_at_rest(s, policy.zero_frustration_threshold);
            &&& reason is None <==> !idle && !behind && !rest
            &&& idle ==> reason == Some(
                ExpiryReason::Inactivity { last_active: s.last_active_causal_epoch, current },
            )
            &&& !idle && behind ==> reason == Some(
                ExpiryReason::EpochLag { last_active: s.last_active_causal_epoch, frontier },
            )
            &&& !idle && !behind && rest ==> reason == Some(
                ExpiryReason::ZeroFrustration { consecutive_epochs: s.consecutive_quiescent_epochs },
            )
        }),
{
}

/// A session outlives the reaper exactly where it is not idle, no session is too far ahead of it,
/// and it is not at rest too long; and then it stays as it is. Of idleness alone counts the current
/// epoch; of lagging alone count the other sessions.
pub proof fn law_who_is_reaped(
    policy: ExpiryPolicy,
    sessions: Map<SessionId, SessionEntry>,
    current: u64,
    k: SessionId,
)
    requires
        sessions.dom().finite(),
    ensures
        survivors(policy, sessions, current).contains_key(k) <==> sessions.contains_key(k)
            && !is_idle(sessions[k], policy.inactivity_epoch_threshold, current) && !is_behind(
            sessions,
            sessions[k],
            policy.epoch_lag_threshold,
        ) && !is_at_rest(sessions[k], policy.zero_frustration_threshold),
        survivors(policy, sessions, current).contains_key(k) ==> survivors(
            policy,
            sessions,
            current,
        )[k] == sessions[k],
{
    if sessions.contains_key(k) {
        let latest = law_frontier_is_the_latest_activity(sessions, current, k);
        assert(sessions.contains_key(latest));
    }
}

/// With the lag trigger alone, a session is ended exactly where another one is ahead of it by more
/// than the threshold, whatever the current epoch; so the most recently active one is kept.
pub proof fn law_lag_is_behind_other_sessions(
    policy: ExpiryPolicy,
    sessions: Map<SessionId, SessionEntry>,
    current: u64,
    other_current: u64,
    k: SessionId,
)
    requires
        sessions.dom().finite(),
        sessions.contains_key(k),
        policy.inactivity_epoch_threshold is None,
        policy.zero_frustration_threshold is None,
    ensures
        survivors(policy, sessions, current).contains_key(k) <==> !is_behind(
            sessions,
            sessions[k],
            policy.epoch_lag_threshold,
        ),
        survivors(policy, sessions, current).contains_key(k) == survivors(
            policy,
            sessions,
            other_current,
        ).contains_key(k),
        (forall|o: SessionId| #[trigger]
            sessions.contains_key(o) ==> sessions[o].last_active_causal_epoch
                <= sessions[k].last_active_causal_epoch) ==> survivors(
            policy,
            sessions,
            current,
        ).contains_key(k),
{
    law_who_is_reaped(policy, sessions, current, k);
    law_who_is_reaped(policy, sessions, other_current, k);
}

/// Why a session is ended: for idleness where it is idle, else for lagging where some session is
/// too far ahead, with the most recent activity of any session, else for rest. The reason gives the
/// session's own numbers.
pub proof fn law_reasons(
    policy: ExpiryPolicy,
    sessions: Map<SessionId, SessionEntry>,
    current: u64,
    ids: Seq<SessionId>,
    k: SessionId,
    reason: ExpiryReason,
) -> (latest: SessionId)
    requires
        sessions.dom().finite(),
        ids.to_set() == sessions.dom(),
        sessions.contains_key(k),
    ensures
        sessions.contains_key(latest),
        forall|o: SessionId| #[trigger]
            sessions.contains_key(o) ==> sessions[o].last_active_causal_epoch
                <= sessions[latest].last_active_causal_epoch,
        ({
            let s = sessions[k];
            let idle = is_idle(s, policy.inactivity_epoch_threshold, current);
            let behind = is_behind(sessions, s, policy.epoch_lag_threshold);
            let rest = is_at_rest(s, policy.zero_frustration_threshold);
            tombstones(policy, sessions, current, ids).contains((k, reason)) <==> {
                ||| idle && reason == (ExpiryReason::Inactivity {
                    last_active: s.last_active_causal_epoch,
                    current,
                })
                ||| !idle && behind && reason == (ExpiryReason::EpochLag {
                    last_active: s.last_active_causal_epoch,
                    frontier: sessions[latest].last_active_causal_epoch,
                })
                ||| !idle && !behind && rest && reason == (ExpiryReason::ZeroFrustration {
                    consecutive_epochs: s.consecutive_quiescent_epochs,
                })
            }
        }),
{
    let latest = law_frontier_is_the_latest_activity(sessions, current, k);
    lemma_tombstones_contain(policy, sessions, current, ids, k);
    assert(ids.to_set().contains(k));
    assert(sessions.contains_key(latest));
    latest
}

/// Every reported lag is a lag: the frontier is ahead of the session by more than the threshold.
pub proof fn law_reported_lag_is_a_lag(
    policy: ExpiryPolicy,
    sessions: Map<SessionId, SessionEntry>,
    current: u64,
    ids: Seq<SessionId>,
    k: SessionId,
    last_active: u64,
    frontier: u64,
)
    requires
        sessions.dom().finite(),
        ids.to_set() == sessions.dom(),
        sessions.contains_key(k),
        tombstones(policy, sessions, current, ids).contains(
            (k, ExpiryReason::EpochLag { last_active, frontier }),
        ),
    ensures
        policy.epoch_lag_threshold matches Some(t) && frontier > last_active + t,
        last_active == sessions[k].last_active_causal_epoch,
{
    let _ = law_reasons(
        policy,
        sessions,
        current,
        ids,
        k,
        ExpiryReason::EpochLag { last_active, frontier },
    );
}

/// The ended sessions are listed in ascending order, so each once, and only live ones are.
pub proof fn law_tombstones_ascend(
    policy: ExpiryPolicy,
    sessions: Map<SessionId, SessionEntry>,
    current: u64,
    ids: Seq<SessionId>,
)
    requires
        forall|i: int, j: int| 0 <= i < j < ids.len() ==> ids[i].0 < ids[j].0,
    ensures
        forall|i: int, j: int|
            0 <= i < j < tombstones(policy, sessions, current, ids).len() ==> (#[trigger] tombstones(
                policy,
                sessions,
                current,
                ids,
            )[i]).0.0 < (#[trigger] tombstones(policy, sessions, current, ids)[j]).0.0,
        forall|i: int|
            0 <= i < tombstones(policy, sessions, current, ids).len() ==> ids.contains(
                (#[trigger] tombstones(policy, sessions, current, ids)[i]).0,
            ),
    decreases ids.len(),
{
    let all = tombstones(policy, sessions, current, ids);
    if ids.len() > 0 {
        let init = ids.drop_last();
        let earlier = tombstones(policy, sessions, current, init);
        assert forall|i: int, j: int| 0 <= i < j < init.len() implies init[i].0 < init[j].0 by {
            assert(ids[i].0 < ids[j].0);
        }
        law_tombstones_ascend(policy, sessions, current, init);
        assert forall|i: int| 0 <= i < earlier.len() implies ids.contains(
            (#[trigger] earlier[i]).0,
        ) && earlier[i].0.0 < ids.last().0 by {
            let j = choose|j: int| 0 <= j < init.len() && init[j] == earlier[i].0;
            assert(ids[j] == earlier[i].0);
            assert(ids[j].0 < ids[ids.len() - 1].0);
        }
        assert(ids.contains(ids[ids.len() - 1]));
        assert forall|i: int| 0 <= i < all.len() implies ids.contains((#[trigger] all[i]).0) by {
            if i < earlier.len() {
                assert(earlier[i] == all[i]);
            }
        }
        assert forall|i: int, j: int| 0 <= i < j < all.len() implies (#[trigger] all[i]).0.0 < (
        #[trigger] all[j]).0.0 by {
            assert(earlier[i] == all[i]);
            if j < earlier.len() {
                assert(earlier[j] == all[j]);
            }
        }
    }
}

} // verus!
