//! Sessions and their transport paths.
//!
//! A session is a stable logical identity; a path is an ephemeral transport under it. The stream
//! sequence belongs to the session: it goes on across path migrations, and starts anew only with
//! a new session.

use vstd::prelude::*;

use crate::idmap::{IdMap, Key, ascending, sorted_keys};
use crate::isa::AuthorityMode;
use crate::{PathId, SessionId, TenantId};

verus! {

#[derive(Clone, Copy, Debug, PartialEq, Eq, Structural)]
pub enum PathState {
    /// The primary path of its session.
    Active,
    /// Another path has taken over; records in flight are still accepted.
    Draining,
    /// Retired. Records from this path are rejected.
    Closed,
}

/// A transport path, bound to a session.
#[derive(Clone, Copy, Debug, PartialEq, Eq, Structural)]
pub struct PathEntry {
    pub path_id: PathId,
    pub session_id: SessionId,
    /// Last acknowledged stream sequence number. A new path inherits it on migration.
    pub last_ack_stream_seq: u64,
    pub state: PathState,
}

/// A logical session.
#[derive(Clone, Copy, Debug, PartialEq, Eq, Structural)]
pub struct SessionEntry {
    pub session_id: SessionId,
    pub tenant_id: TenantId,
    /// The active path, once one is bound.
    pub active_path_id: Option<PathId>,
    /// The path that is draining after a migration.
    pub prev_path_id: Option<PathId>,
    /// Records below this stream sequence number are replays.
    pub stream_seq_floor: u64,
    pub auth_mode: AuthorityMode,
    /// Causal epoch of the last admitted record.
    pub last_active_causal_epoch: u64,
    /// Consecutive epochs in which the session's domains were quiescent.
    pub consecutive_quiescent_epochs: u32,
}

#[derive(Clone, Copy, Debug, PartialEq, Eq, Structural)]
pub enum SessionError {
    NotFound(SessionId),
    PathNotFound(PathId),
}

/// The paths with the entry of `id` put in `state`, where there is one.
pub open spec fn with_path_state(
    paths: Map<PathId, PathEntry>,
    id: Option<PathId>,
    state: PathState,
) -> Map<PathId, PathEntry> {
    match id {
        Some(id) => if paths.contains_key(id) {
            paths.insert(id, PathEntry { state, ..paths[id] })
        } else {
            paths
        },
        None => paths,
    }
}

/// A session after it moved to the path `new_path`.
pub open spec fn migrated_session(s: SessionEntry, new_path: PathId) -> SessionEntry {
    SessionEntry {
        active_path_id: Some(new_path),
        prev_path_id: if s.active_path_id is Some {
            s.active_path_id
        } else {
            s.prev_path_id
        },
        ..s
    }
}

/// The paths after session `s` moved to the path `new_path`: the active one drains, and the new
/// one goes on from the acknowledged sequence number.
pub open spec fn migrated_paths(
    paths: Map<PathId, PathEntry>,
    s: SessionEntry,
    id: SessionId,
    new_path: PathId,
    last_ack: u64,
) -> Map<PathId, PathEntry> {
    with_path_state(paths, s.active_path_id, PathState::Draining).insert(
        new_path,
        PathEntry {
            path_id: new_path,
            session_id: id,
            last_ack_stream_seq: last_ack,
            state: PathState::Active,
        },
    )
}

/// A stream sequence number is not a replay for session `id`.
pub open spec fn seq_valid(
    sessions: Map<SessionId, SessionEntry>,
    id: SessionId,
    stream_seq: u64,
) -> bool {
    sessions.contains_key(id) && stream_seq >= sessions[id].stream_seq_floor
}

/// The sessions after a record was admitted for `id` at `epoch`.
pub open spec fn with_activity(
    sessions: Map<SessionId, SessionEntry>,
    id: SessionId,
    epoch: u64,
) -> Map<SessionId, SessionEntry> {
    if sessions.contains_key(id) {
        let s = sessions[id];
        sessions.insert(
            id,
            SessionEntry {
                last_active_causal_epoch: if epoch > s.last_active_causal_epoch {
                    epoch
                } else {
                    s.last_active_causal_epoch
                },
                consecutive_quiescent_epochs: 0,
                ..s
            },
        )
    } else {
        sessions
    }
}

/// The sessions after one more quiescent epoch of `id`.
pub open spec fn with_quiescent_epoch(
    sessions: Map<SessionId, SessionEntry>,
    id: SessionId,
) -> Map<SessionId, SessionEntry> {
    if sessions.contains_key(id) {
        let s = sessions[id];
        sessions.insert(
            id,
            SessionEntry {
                consecutive_quiescent_epochs: if s.consecutive_quiescent_epochs == u32::MAX {
                    u32::MAX
                } else {
                    (s.consecutive_quiescent_epochs + 1) as u32
                },
                ..s
            },
        )
    } else {
        sessions
    }
}

/// The sessions after everything up to `acked` of session `id` was acknowledged.
pub open spec fn with_ack(
    sessions: Map<SessionId, SessionEntry>,
    id: SessionId,
    acked: u64,
) -> Map<SessionId, SessionEntry> {
    if sessions.contains_key(id) && acked + 1 > sessions[id].stream_seq_floor {
        sessions.insert(
            id,
            SessionEntry { stream_seq_floor: (acked + 1) as u64, ..sessions[id] },
        )
    } else {
        sessions
    }
}

/// The live sessions.
#[derive(Clone, Debug)]
pub struct SessionTable(IdMap<SessionId, SessionEntry>);

impl View for SessionTable {
    type V = Map<SessionId, SessionEntry>;

    closed spec fn view(&self) -> Map<SessionId, SessionEntry> {
        self.0@
    }
}

impl Default for SessionTable {
    fn default() -> (value: Self)
        ensures
            value@ == Map::<SessionId, SessionEntry>::empty(),
    {
        SessionTable::new()
    }
}

impl SessionTable {
    pub fn new() -> (table: Self)
        ensures
            table@ == Map::<SessionId, SessionEntry>::empty(),
    {
        SessionTable(IdMap::new())
    }

    /// Enters a session under its own identity, in place of an earlier one.
    pub fn create(&mut self, entry: SessionEntry)
        ensures
            final(self)@ == old(self)@.insert(entry.session_id, entry),
    {
        let _ = self.0.insert(entry.session_id, entry);
    }

    pub fn get(&self, id: SessionId) -> (entry: Option<&SessionEntry>)
        ensures
            entry == (if self@.contains_key(id) { Some(&self@[id]) } else { None }),
    {
        self.0.get(&id)
    }

    pub fn get_mut(&mut self, id: SessionId) -> (entry: Option<&mut SessionEntry>)
        ensures
            match entry {
                Some(s) => {
                    &&& old(self)@.contains_key(id)
                    &&& *s == old(self)@[id]
                    &&& final(self)@ == old(self)@.insert(id, *final(s))
                },
                None => !old(self)@.contains_key(id) && final(self)@ == old(self)@,
            },
    {
        self.0.get_mut(&id)
    }

    /// Ends a session. Its paths are left to the caller.
    pub fn terminate(&mut self, id: SessionId) -> (entry: Option<SessionEntry>)
        ensures
            final(self)@ == old(self)@.remove(id),
            entry == (if old(self)@.contains_key(id) { Some(old(self)@[id]) } else { None }),
    {
        self.0.remove(&id)
    }

    /// Moves a session to a new path.
    ///
    /// The active path drains, and the new one inherits the acknowledged sequence number of the
    /// old one, so that gaps are still seen. The stream sequence of the session is untouched.
    pub fn migrate_path(
        &mut self,
        session_id: SessionId,
        new_path_id: PathId,
        last_ack_on_old: u64,
        path_table: &mut PathTable,
    ) -> (r: Result<(), SessionError>)
        ensures
            r == (if old(self)@.contains_key(session_id) {
                Ok(())
            } else {
                Err(SessionError::NotFound(session_id))
            }),
            r is Ok ==> {
                let s = old(self)@[session_id];
                &&& final(self)@ == old(self)@.insert(session_id, migrated_session(s, new_path_id))
                &&& final(path_table)@ == migrated_paths(
                    old(path_table)@,
                    s,
                    session_id,
                    new_path_id,
                    last_ack_on_old,
                )
            },
            r is Err ==> final(self)@ == old(self)@ && final(path_table)@ == old(path_table)@,
    {
        let session = match self.0.get_mut(&session_id) {
            Some(session) => session,
            None => return Err(SessionError::NotFound(session_id)),
        };
        if let Some(old_path_id) = session.active_path_id {
            if let Some(path) = path_table.0.get_mut(&old_path_id) {
                path.state = PathState::Draining;
            }
            session.prev_path_id = Some(old_path_id);
        }
        let _ = path_table.0.insert(
            new_path_id,
            PathEntry {
                path_id: new_path_id,
                session_id,
                last_ack_stream_seq: last_ack_on_old,
                state: PathState::Active,
            },
        );
        session.active_path_id = Some(new_path_id);
        Ok(())
    }

    /// Closes the path that is draining.
    pub fn retire_draining_path(&mut self, session_id: SessionId, path_table: &mut PathTable) -> (r:
        Result<(), SessionError>)
        ensures
            r == (if old(self)@.contains_key(session_id) {
                Ok(())
            } else {
                Err(SessionError::NotFound(session_id))
            }),
            r is Ok ==> {
                let s = old(self)@[session_id];
                &&& final(self)@ == old(self)@.insert(
                    session_id,
                    SessionEntry { prev_path_id: None, ..s },
                )
                &&& final(path_table)@ == with_path_state(
                    old(path_table)@,
                    s.prev_path_id,
                    PathState::Closed,
                )
            },
            r is Err ==> final(self)@ == old(self)@ && final(path_table)@ == old(path_table)@,
    {
        let session = match self.0.get_mut(&session_id) {
            Some(session) => session,
            None => return Err(SessionError::NotFound(session_id)),
        };
        if let Some(prev) = session.prev_path_id {
            if let Some(path) = path_table.0.get_mut(&prev) {
                path.state = PathState::Closed;
            }
        }
        session.prev_path_id = None;
        Ok(())
    }

    /// Whether a record is no replay. Nothing is valid for a session that does not exist.
    pub fn is_seq_valid(&self, session_id: SessionId, stream_seq: u64) -> (valid: bool)
        ensures
            valid == seq_valid(self@, session_id, stream_seq),
    {
        match self.0.get(&session_id) {
            Some(s) => stream_seq >= s.stream_seq_floor,
            None => false,
        }
    }

    /// Acknowledges everything up to `acked_seq`. The floor never falls.
    pub fn ack_seq(&mut self, session_id: SessionId, acked_seq: u64)
        requires
            old(self)@.contains_key(session_id) ==> acked_seq < u64::MAX,
        ensures
            final(self)@ == with_ack(old(self)@, session_id, acked_seq),
    {
        if let Some(s) = self.0.get_mut(&session_id) {
            if acked_seq + 1 > s.stream_seq_floor {
                s.stream_seq_floor = acked_seq + 1;
            }
        }
        proof {
            if old(self)@.contains_key(session_id) {
                assert(old(self)@.insert(session_id, old(self)@[session_id]) =~= old(self)@);
            }
        }
    }

    /// Notes that a record was admitted: the session was active at `causal_epoch`, and a run of
    /// quiescent epochs is broken.
    pub fn record_activity(&mut self, session_id: SessionId, causal_epoch: u64)
        ensures
            final(self)@ == with_activity(old(self)@, session_id, causal_epoch),
    {
        if let Some(s) = self.0.get_mut(&session_id) {
            if causal_epoch > s.last_active_causal_epoch {
                s.last_active_causal_epoch = causal_epoch;
            }
            s.consecutive_quiescent_epochs = 0;
        }
    }

    /// Counts one more quiescent epoch, up to the largest count.
    pub fn increment_quiescent_epochs(&mut self, session_id: SessionId)
        ensures
            final(self)@ == with_quiescent_epoch(old(self)@, session_id),
    {
        if let Some(s) = self.0.get_mut(&session_id) {
            s.consecutive_quiescent_epochs = s.consecutive_quiescent_epochs.saturating_add(1);
        }
    }

    pub fn len(&self) -> (n: usize)
        ensures
            n == self@.dom().len(),
    {
        self.0.len()
    }

    pub fn is_empty(&self) -> (empty: bool)
        ensures
            empty == self@.is_empty(),
    {
        self.0.is_empty()
    }

    /// The live sessions in ascending order.
    pub fn ids(&self) -> (ids: Vec<SessionId>)
        ensures
            ids@ == sorted_keys(self@.dom()),
            ascending(ids@),
            ids@.to_set() == self@.dom(),
    {
        self.0.keys()
    }
}

/// The known paths.
#[derive(Clone, Debug)]
pub struct PathTable(pub IdMap<PathId, PathEntry>);

impl View for PathTable {
    type V = Map<PathId, PathEntry>;

    open spec fn view(&self) -> Map<PathId, PathEntry> {
        self.0@
    }
}

/// The session that a path leads to, unless the path is closed.
pub open spec fn session_of_path(paths: Map<PathId, PathEntry>, id: PathId) -> Option<SessionId> {
    if paths.contains_key(id) && paths[id].state != PathState::Closed {
        Some(paths[id].session_id)
    } else {
        None
    }
}

impl Default for PathTable {
    fn default() -> (value: Self)
        ensures
            value@ == Map::<PathId, PathEntry>::empty(),
    {
        PathTable::new()
    }
}

impl PathTable {
    pub fn new() -> (table: Self)
        ensures
            table@ == Map::<PathId, PathEntry>::empty(),
    {
        PathTable(IdMap::new())
    }

    /// Enters a path under its own identity, in place of an earlier one.
    pub fn create(&mut self, entry: PathEntry)
        ensures
            final(self)@ == old(self)@.insert(entry.path_id, entry),
    {
        let _ = self.0.insert(entry.path_id, entry);
    }

    pub fn get(&self, id: PathId) -> (entry: Option<&PathEntry>)
        ensures
            entry == (if self@.contains_key(id) { Some(&self@[id]) } else { None }),
    {
        self.0.get(&id)
    }

    pub fn get_mut(&mut self, id: PathId) -> (entry: Option<&mut PathEntry>)
        ensures
            match entry {
                Some(p) => {
                    &&& old(self)@.contains_key(id)
                    &&& *p == old(self)@[id]
                    &&& final(self)@ == old(self)@.insert(id, *final(p))
                },
                None => !old(self)@.contains_key(id) && final(self)@ == old(self)@,
            },
    {
        self.0.get_mut(&id)
    }

    /// The session that a path leads to: none where the path is not known or is closed.
    pub fn resolve_session(&self, path_id: PathId) -> (session: Option<SessionId>)
        ensures
            session == session_of_path(self@, path_id),
    {
        match self.0.get(&path_id) {
            Some(path) => {
                if path.state == PathState::Closed {
                    None
                } else {
                    Some(path.session_id)
                }
            },
            None => None,
        }
    }

    pub fn len(&self) -> (n: usize)
        ensures
            n == self@.dom().len(),
    {
        self.0.len()
    }

    pub fn is_empty(&self) -> (empty: bool)
        ensures
            empty == self@.is_empty(),
    {
        self.0.is_empty()
    }
}

/// When sessions are ended for want of life. A threshold that is `None` never does.
#[derive(Clone, Copy, Debug, PartialEq, Eq, Structural)]
pub struct ExpiryPolicy {
    /// More epochs than this since the last activity.
    pub inactivity_epoch_threshold: Option<u64>,
    /// More epochs than this behind the most recent activity of any session.
    pub epoch_lag_threshold: Option<u64>,
    /// This many consecutive quiescent epochs.
    pub zero_frustration_threshold: Option<u32>,
}

impl Default for ExpiryPolicy {
    fn default() -> (policy: Self)
        ensures
            policy.inactivity_epoch_threshold == Some(10_000u64),
            policy.epoch_lag_threshold == Some(50_000u64),
            policy.zero_frustration_threshold == None::<u32>,
    {
        ExpiryPolicy {
            inactivity_epoch_threshold: Some(10_000),
            epoch_lag_threshold: Some(50_000),
            zero_frustration_threshold: None,
        }
    }
}

/// Why a session was ended.
#[derive(Clone, Copy, Debug, PartialEq, Eq, Structural)]
pub enum ExpiryReason {
    Inactivity { last_active: u64, current: u64 },
    EpochLag { last_active: u64, frontier: u64 },
    ZeroFrustration { consecutive_epochs: u32 },
}

/// The sessions that a run ended, each with the reason.
#[derive(Clone, Debug)]
pub struct ReapResult {
    pub tombstoned: Vec<(SessionId, ExpiryReason)>,
}

impl Default for ReapResult {
    fn default() -> (value: Self)
        ensures
            value.tombstoned@ == Seq::<(SessionId, ExpiryReason)>::empty(),
    {
        ReapResult { tombstoned: Vec::new() }
    }
}

#[derive(Clone, Copy, Debug)]
pub struct SessionReaper {
    pub policy: ExpiryPolicy,
}

impl Default for SessionReaper {
    fn default() -> (reaper: Self)
        ensures
            reaper.policy.inactivity_epoch_threshold == Some(10_000u64),
            reaper.policy.epoch_lag_threshold == Some(50_000u64),
            reaper.policy.zero_frustration_threshold == None::<u32>,
    {
        SessionReaper { policy: ExpiryPolicy::default() }
    }
}

/// `frontier` is the most recent activity of any session, or `current` where there is none.
pub open spec fn is_frontier(
    sessions: Map<SessionId, SessionEntry>,
    current: u64,
    frontier: u64,
) -> bool {
    if sessions.is_empty() {
        frontier == current
    } else {
        &&& exists|k: SessionId| #[trigger]
            sessions.contains_key(k) && sessions[k].last_active_causal_epoch == frontier
        &&& forall|k: SessionId| #[trigger]
            sessions.contains_key(k) ==> sessions[k].last_active_causal_epoch <= frontier
    }
}

/// The most recent activity of any session, or `current` where there is none.
pub open spec fn frontier_of(sessions: Map<SessionId, SessionEntry>, current: u64) -> u64 {
    choose|f: u64| is_frontier(sessions, current, f)
}

/// Why a session is due to be ended: the first trigger that applies.
pub open spec fn expiry(
    policy: ExpiryPolicy,
    s: SessionEntry,
    current: u64,
    frontier: u64,
) -> Option<ExpiryReason> {
    let last_active = s.last_active_causal_epoch;
    if policy.inactivity_epoch_threshold matches Some(t) && current - last_active > t {
        Some(ExpiryReason::Inactivity { last_active, current })
    } else if policy.epoch_lag_threshold matches Some(t) && frontier - last_active > t {
        Some(ExpiryReason::EpochLag { last_active, frontier })
    } else if policy.zero_frustration_threshold matches Some(t) && s.consecutive_quiescent_epochs
        >= t {
        Some(ExpiryReason::ZeroFrustration { consecutive_epochs: s.consecutive_quiescent_epochs })
    } else {
        None
    }
}

/// The sessions that are not due to be ended.
pub open spec fn survivors(
    policy: ExpiryPolicy,
    sessions: Map<SessionId, SessionEntry>,
    current: u64,
) -> Map<SessionId, SessionEntry> {
    sessions.restrict(
        Set::new(
            |k: SessionId|
                expiry(policy, sessions[k], current, frontier_of(sessions, current)) is None,
        ),
    )
}

/// The sessions among `ids` that are due to be ended, each with the reason, in that order.
pub open spec fn tombstones(
    policy: ExpiryPolicy,
    sessions: Map<SessionId, SessionEntry>,
    current: u64,
    ids: Seq<SessionId>,
) -> Seq<(SessionId, ExpiryReason)>
    decreases ids.len(),
{
    if ids.len() == 0 {
        Seq::empty()
    } else {
        let earlier = tombstones(policy, sessions, current, ids.drop_last());
        match expiry(policy, sessions[ids.last()], current, frontier_of(sessions, current)) {
            Some(reason) => earlier.push((ids.last(), reason)),
            None => earlier,
        }
    }
}

impl SessionReaper {
    pub fn new(policy: ExpiryPolicy) -> (reaper: Self)
        ensures
            reaper.policy == policy,
    {
        SessionReaper { policy }
    }

    /// Why the session `s` is due to be ended.
    fn expiry_reason(&self, s: &SessionEntry, current: u64, frontier: u64) -> (reason: Option<
        ExpiryReason,
    >)
        ensures
            reason == expiry(self.policy, *s, current, frontier),
    {
        let last_active: u64 = s.last_active_causal_epoch;
        if let Some(threshold) = self.policy.inactivity_epoch_threshold {
            if current.saturating_sub(last_active) > threshold {
                return Some(ExpiryReason::Inactivity { last_active, current });
            }
        }
        if let Some(threshold) = self.policy.epoch_lag_threshold {
            if frontier.saturating_sub(last_active) > threshold {
                return Some(ExpiryReason::EpochLag { last_active, frontier });
            }
        }
        if let Some(threshold) = self.policy.zero_frustration_threshold {
            if s.consecutive_quiescent_epochs >= threshold {
                return Some(
                    ExpiryReason::ZeroFrustration {
                        consecutive_epochs: s.consecutive_quiescent_epochs,
                    },
                );
            }
        }
        None
    }

    /// Ends the sessions that the policy no longer lets live, and says which and why.
    ///
    /// `current_epoch` is the epoch that counts as now. What else belongs to an ended session is
    /// left to the caller.
    pub fn reap(&self, table: &mut SessionTable, current_epoch: u64) -> (result: ReapResult)
        ensures
            final(table)@ == survivors(self.policy, old(table)@, current_epoch),
            result.tombstoned@ == tombstones(
                self.policy,
                old(table)@,
                current_epoch,
                sorted_keys(old(table)@.dom()),
            ),
    {
        let ghost sessions = table@;
        let ids = table.ids();
        let frontier: u64 = frontier_among(table, &ids, current_epoch);
        let mut tombstoned: Vec<(SessionId, ExpiryReason)> = Vec::new();
        let mut i: usize = 0;
        assert(ids@.take(0) =~= Seq::empty());
        while i < ids.len()
            invariant
                i <= ids@.len(),
                sessions == old(table)@,
                ascending(ids@),
                ids@.to_set() == sessions.dom(),
                frontier == frontier_of(sessions, current_epoch),
                tombstoned@ == tombstones(
                    self.policy,
                    sessions,
                    current_epoch,
                    ids@.take(i as int),
                ),
                forall|k: SessionId| #[trigger]
                    table@.contains_key(k) ==> sessions.contains_key(k) && table@[k] == sessions[k],
                forall|k: SessionId|
                    sessions.contains_key(k) ==> (#[trigger] table@.contains_key(k) <==> (
                    !ids@.take(i as int).contains(k) || expiry(
                        self.policy,
                        sessions[k],
                        current_epoch,
                        frontier,
                    ) is None)),
            decreases ids@.len() - i,
        {
            let session_id = ids[i];
            let ghost done = ids@.take(i as int);
            let ghost next = ids@.take(i + 1);
            proof {
                assert(ids@.to_set().contains(session_id));
                if done.contains(session_id) {
                    let j = choose|j: int| 0 <= j < done.len() && done[j] == session_id;
                    assert(ids@[j].code() < ids@[i as int].code());
                }
                assert(next =~= done.push(session_id));
                assert(next.drop_last() =~= done);
                assert forall|k: SessionId| #[trigger] next.contains(k) <==> done.contains(k) || k
                    == session_id by {
                    if done.contains(k) {
                        let j = choose|j: int| 0 <= j < done.len() && done[j] == k;
                        assert(next[j] == k);
                    }
                    assert(next[i as int] == session_id);
                }
            }
            let reason = match table.get(session_id) {
                Some(s) => self.expiry_reason(s, current_epoch, frontier),
                None => None,
            };
            if let Some(reason) = reason {
                let _ = table.terminate(session_id);
                tombstoned.push((session_id, reason));
            }
            i = i + 1;
        }
        proof {
            assert(ids@.take(ids@.len() as int) =~= ids@);
            assert forall|k: SessionId| table@.contains_key(k) <==> survivors(
                self.policy,
                sessions,
                current_epoch,
            ).contains_key(k) by {
                if sessions.contains_key(k) {
                    assert(ids@.to_set().contains(k));
                }
            }
            assert(table@ =~= survivors(self.policy, sessions, current_epoch));
        }
        ReapResult { tombstoned }
    }
}

proof fn lemma_frontier_unique(
    sessions: Map<SessionId, SessionEntry>,
    current: u64,
    frontier: u64,
)
    requires
        is_frontier(sessions, current, frontier),
    ensures
        frontier_of(sessions, current) == frontier,
{
    let other = frontier_of(sessions, current);
    assert(is_frontier(sessions, current, other));
    if !sessions.is_empty() {
        let a = choose|k: SessionId| #[trigger]
            sessions.contains_key(k) && sessions[k].last_active_causal_epoch == frontier;
        let b = choose|k: SessionId| #[trigger]
            sessions.contains_key(k) && sessions[k].last_active_causal_epoch == other;
        assert(sessions.contains_key(a) && sessions.contains_key(b));
    }
}

fn frontier_among(table: &SessionTable, ids: &Vec<SessionId>, current_epoch: u64) -> (frontier: u64)
    requires
        ids@.to_set() == table@.dom(),
    ensures
        frontier == frontier_of(table@, current_epoch),
{
    let ghost sessions = table@;
    let mut best: Option<u64> = None;
    let mut i: usize = 0;
    while i < ids.len()
        invariant
            i <= ids@.len(),
            sessions == table@,
            ids@.to_set() == sessions.dom(),
            best is None <==> i == 0,
            best matches Some(b) ==> {
                &&& exists|k: SessionId| #[trigger]
                    sessions.contains_key(k) && sessions[k].last_active_causal_epoch == b
                &&& forall|j: int|
                    0 <= j < i ==> sessions[#[trigger] ids@[j]].last_active_causal_epoch <= b
            },
        decreases ids@.len() - i,
    {
        assert(ids@.to_set().contains(ids@[i as int]));
        assert(sessions.contains_key(ids@[i as int]));
        if let Some(s) = table.get(ids[i]) {
            best = match best {
                Some(b) => {
                    if s.last_active_causal_epoch > b {
                        Some(s.last_active_causal_epoch)
                    } else {
                        Some(b)
                    }
                },
                None => Some(s.last_active_causal_epoch),
            };
        }
        i = i + 1;
    }
    let frontier: u64 = match best {
        Some(b) => b,
        None => current_epoch,
    };
    proof {
        if i == 0 {
            assert forall|k: SessionId| !sessions.contains_key(k) by {
                if sessions.contains_key(k) {
                    assert(ids@.to_set().contains(k));
                }
            }
            assert(sessions =~= Map::empty());
        } else {
            assert(ids@.to_set().contains(ids@[0]));
            assert(sessions.contains_key(ids@[0]));
            assert(!sessions.is_empty());
            assert forall|k: SessionId| #[trigger]
                sessions.contains_key(k) implies sessions[k].last_active_causal_epoch <= frontier by {
                assert(ids@.to_set().contains(k));
                let j = choose|j: int| 0 <= j < ids@.len() && ids@[j] == k;
                assert(sessions[ids@[j]].last_active_causal_epoch <= frontier);
            }
        }
        assert(is_frontier(sessions, current_epoch, frontier));
        lemma_frontier_unique(sessions, current_epoch, frontier);
    }
    frontier
}

// ── What holds of sessions and paths as a whole ──────────────────────────────

/// Once a sequence number is acknowledged, it and all before it are replays, and no later
/// acknowledgement makes them valid again.
pub proof fn law_acknowledged_is_replay(
    sessions: Map<SessionId, SessionEntry>,
    id: SessionId,
    acked: u64,
    later: u64,
    seq: u64,
)
    requires
        acked < u64::MAX,
        later < u64::MAX,
        seq <= acked,
    ensures
        !seq_valid(with_ack(sessions, id, acked), id, seq),
        !seq_valid(with_ack(with_ack(sessions, id, acked), id, later), id, seq),
{
}

/// Acknowledging does not reject what comes after the acknowledged record, unless it was a
/// replay before.
pub proof fn law_unacknowledged_stays_valid(
    sessions: Map<SessionId, SessionEntry>,
    id: SessionId,
    acked: u64,
    seq: u64,
)
    requires
        acked < u64::MAX,
        seq > acked,
    ensures
        seq_valid(with_ack(sessions, id, acked), id, seq) == seq_valid(sessions, id, seq),
{
}

/// A migration leaves the stream sequence of the session where it was, makes the new path the
/// one that leads to the session, and leaves every path but the old and the new one as it was.
pub proof fn law_migration_continues_the_stream(
    sessions: Map<SessionId, SessionEntry>,
    paths: Map<PathId, PathEntry>,
    id: SessionId,
    new_path: PathId,
    last_ack: u64,
    seq: u64,
    other: PathId,
)
    requires
        sessions.contains_key(id),
    ensures
        ({
            let s = sessions[id];
            let after = sessions.insert(id, migrated_session(s, new_path));
            let paths_after = migrated_paths(paths, s, id, new_path, last_ack);
            &&& seq_valid(after, id, seq) == seq_valid(sessions, id, seq)
            &&& after[id].active_path_id == Some(new_path)
            &&& paths_after[new_path].last_ack_stream_seq == last_ack
            &&& session_of_path(paths_after, new_path) == Some(id)
            &&& other != new_path && s.active_path_id != Some(other) ==> {
                &&& paths_after.contains_key(other) == paths.contains_key(other)
                &&& paths_after[other] == paths[other]
            }
        }),
{
}

/// The floor of a session's stream moves by acknowledgements alone: not by activity, quiescence
/// or a change of path.
pub proof fn law_floor_moves_by_acknowledgement_alone(
    sessions: Map<SessionId, SessionEntry>,
    id: SessionId,
    epoch: u64,
    new_path: PathId,
    other: SessionId,
)
    requires
        sessions.contains_key(other),
    ensures
        with_activity(sessions, id, epoch)[other].stream_seq_floor
            == sessions[other].stream_seq_floor,
        with_quiescent_epoch(sessions, id)[other].stream_seq_floor
            == sessions[other].stream_seq_floor,
        sessions.insert(id, migrated_session(sessions[id], new_path))[other].stream_seq_floor
            == sessions[other].stream_seq_floor,
{
}

/// A path that drains still leads to its session; once it is retired it leads nowhere.
pub proof fn law_draining_then_closed(
    paths: Map<PathId, PathEntry>,
    s: SessionEntry,
    id: SessionId,
    old_path: PathId,
    new_path: PathId,
    last_ack: u64,
)
    requires
        s.active_path_id == Some(old_path),
        old_path != new_path,
        paths.contains_key(old_path),
    ensures
        ({
            let draining = migrated_paths(paths, s, id, new_path, last_ack);
            let retired = with_path_state(
                draining,
                migrated_session(s, new_path).prev_path_id,
                PathState::Closed,
            );
            &&& session_of_path(draining, old_path) == Some(paths[old_path].session_id)
            &&& session_of_path(retired, old_path) is None
            &&& session_of_path(retired, new_path) == Some(id)
        }),
{
}

/// A reaper with every trigger switched off ends nothing.
pub proof fn law_disabled_reaper_keeps_all(
    policy: ExpiryPolicy,
    sessions: Map<SessionId, SessionEntry>,
    current: u64,
    ids: Seq<SessionId>,
)
    requires
        policy.inactivity_epoch_threshold is None,
        policy.epoch_lag_threshold is None,
        policy.zero_frustration_threshold is None,
    ensures
        survivors(policy, sessions, current) == sessions,
        tombstones(policy, sessions, current, ids) == Seq::<(SessionId, ExpiryReason)>::empty(),
    decreases ids.len(),
{
    assert(survivors(policy, sessions, current) =~= sessions);
    if ids.len() > 0 {
        law_disabled_reaper_keeps_all(policy, sessions, current, ids.drop_last());
    }
}

/// A session that was active just now, at the frontier, outlives any reaper that waits for
/// quiescent epochs to pass.
pub proof fn law_active_session_survives(
    policy: ExpiryPolicy,
    sessions: Map<SessionId, SessionEntry>,
    id: SessionId,
    epoch: u64,
)
    requires
        sessions.contains_key(id),
        forall|k: SessionId| #[trigger]
            sessions.contains_key(k) ==> sessions[k].last_active_causal_epoch <= epoch,
        policy.zero_frustration_threshold != Some(0u32),
    ensures
        survivors(policy, with_activity(sessions, id, epoch), epoch).contains_key(id),
{
    let after = with_activity(sessions, id, epoch);
    assert(after.contains_key(id) && after[id].last_active_causal_epoch == epoch);
    assert(!after.is_empty());
    assert(is_frontier(after, epoch, epoch));
    lemma_frontier_unique(after, epoch, epoch);
}

/// Every session is either kept as it was or listed once with its reason.
pub proof fn law_reaped_or_kept(
    policy: ExpiryPolicy,
    sessions: Map<SessionId, SessionEntry>,
    current: u64,
    ids: Seq<SessionId>,
    id: SessionId,
)
    requires
        ids.contains(id),
        ids.to_set() == sessions.dom(),
    ensures
        survivors(policy, sessions, current).contains_key(id) <==> forall|reason: ExpiryReason|
            !tombstones(policy, sessions, current, ids).contains((id, reason)),
        survivors(policy, sessions, current).contains_key(id) ==> survivors(
            policy,
            sessions,
            current,
        )[id] == sessions[id],
{
    assert(ids.to_set().contains(id));
    lemma_tombstones_contain(policy, sessions, current, ids, id);
    match expiry(policy, sessions[id], current, frontier_of(sessions, current)) {
        Some(reason) => {
            assert(tombstones(policy, sessions, current, ids).contains((id, reason)));
        },
        None => {},
    }
}

/// What is listed of a session.
pub proof fn lemma_tombstones_contain(
    policy: ExpiryPolicy,
    sessions: Map<SessionId, SessionEntry>,
    current: u64,
    ids: Seq<SessionId>,
    id: SessionId,
)
    ensures
        forall|reason: ExpiryReason| #[trigger]
            tombstones(policy, sessions, current, ids).contains((id, reason)) <==> ids.contains(id)
                && expiry(policy, sessions[id], current, frontier_of(sessions, current)) == Some(
                reason,
            ),
    decreases ids.len(),
{
    let all = tombstones(policy, sessions, current, ids);
    if ids.len() > 0 {
        let init = ids.drop_last();
        let earlier = tombstones(policy, sessions, current, init);
        lemma_tombstones_contain(policy, sessions, current, init, id);
        assert forall|reason: ExpiryReason| #[trigger] all.contains((id, reason)) <==> ids.contains(
            id,
        ) && expiry(policy, sessions[id], current, frontier_of(sessions, current)) == Some(
            reason,
        ) by {
            if all.contains((id, reason)) {
                let i = choose|i: int| 0 <= i < all.len() && all[i] == (id, reason);
                if i < earlier.len() {
                    assert(earlier[i] == (id, reason));
                    assert(earlier.contains((id, reason)));
                    let j = choose|j: int| 0 <= j < init.len() && init[j] == id;
                    assert(ids[j] == id);
                } else {
                    assert(ids.last() == id);
                    assert(ids.contains(id));
                }
            }
            if ids.contains(id) && expiry(
                policy,
                sessions[id],
                current,
                frontier_of(sessions, current),
            ) == Some(reason) {
                let j = choose|j: int| 0 <= j < ids.len() && ids[j] == id;
                if j < init.len() {
                    assert(init[j] == id);
                    assert(earlier.contains((id, reason)));
                    let i = choose|i: int| 0 <= i < earlier.len() && earlier[i] == (id, reason);
                    assert(all[i] == (id, reason));
                } else {
                    assert(all.last() == (id, reason));
                }
            }
        }
    }
}

} // verus!
