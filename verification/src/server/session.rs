//! The sessions: how many there are, and which have lasted too long. Times are nanoseconds
//! of a clock that does not go back.

use vstd::prelude::*;

verus! {

/// Time limits in nanoseconds.
pub const PENDING_TIMEOUT: u64 = 30_000_000_000;

pub const NORMAL_TIMEOUT: u64 = 180_000_000_000;

pub const SERVERCMD_TIMEOUT: u64 = 1_800_000_000_000;

pub const PACKET_SEND_TIMEOUT: u64 = 30_000_000_000;

#[derive(Debug, Clone, Copy, PartialEq, Eq, Structural)]
pub enum SessionKind {
    Pending,
    Normal,
    Servercmd,
}

#[derive(Debug, Clone, Copy, PartialEq, Eq, Structural)]
pub enum SessionTimeoutReason {
    StartAge,
    LastPacketSend,
}

#[derive(Debug, Clone, Copy, PartialEq, Eq, Structural)]
pub enum SessionAdmitError {
    MaxConnectionsExceeded { max_connections: u32 },
}

/// What is known of a session.
#[derive(Debug, Clone, Copy, PartialEq, Eq, Structural)]
pub struct SessionState {
    pub started_at: u64,
    pub kind: SessionKind,
    pub last_packet_send: Option<u64>,
}

/// Whether more than `limit` has passed between two times.
pub open spec fn is_older(since: u64, now: u64, limit: u64) -> bool {
    now > since && now - since > limit
}

/// How long a session of a kind may last.
pub open spec fn start_limit(kind: SessionKind) -> u64 {
    match kind {
        SessionKind::Pending => PENDING_TIMEOUT,
        SessionKind::Normal => NORMAL_TIMEOUT,
        SessionKind::Servercmd => SERVERCMD_TIMEOUT,
    }
}

/// Why a session is closed: its last packet went out too long ago, or it began too long ago.
pub open spec fn reason_to_close(s: SessionState, now: u64) -> Option<SessionTimeoutReason> {
    if s.last_packet_send is Some && is_older(s.last_packet_send->0, now, PACKET_SEND_TIMEOUT) {
        Some(SessionTimeoutReason::LastPacketSend)
    } else if is_older(s.started_at, now, start_limit(s.kind)) {
        Some(SessionTimeoutReason::StartAge)
    } else {
        None
    }
}

fn older(since: u64, now: u64, limit: u64) -> (r: bool)
    ensures
        r == is_older(since, now, limit),
{
    now > since && now - since > limit
}

impl SessionState {
    pub fn new(now: u64) -> (r: Self)
        ensures
            r == (SessionState { started_at: now, kind: SessionKind::Pending, last_packet_send: None }),
    {
        SessionState { started_at: now, kind: SessionKind::Pending, last_packet_send: None }
    }

    pub fn timeout_reason(&self, now: u64) -> (r: Option<SessionTimeoutReason>)
        ensures
            r == reason_to_close(*self, now),
    {
        match self.last_packet_send {
            Some(t) => if older(t, now, PACKET_SEND_TIMEOUT) {
                return Some(SessionTimeoutReason::LastPacketSend);
            },
            None => {},
        }
        let limit: u64 = match self.kind {
            SessionKind::Pending => PENDING_TIMEOUT,
            SessionKind::Normal => NORMAL_TIMEOUT,
            SessionKind::Servercmd => SERVERCMD_TIMEOUT,
        };
        if older(self.started_at, now, limit) {
            Some(SessionTimeoutReason::StartAge)
        } else {
            None
        }
    }
}

// ---------------------------------------------------------------------------
// The table
// ---------------------------------------------------------------------------

/// `dashmap::DashMap`, a map that hands out its entries by their keys.
#[verifier::external_type_specification]
#[verifier::external_body]
#[verifier::reject_recursive_types(K)]
#[verifier::reject_recursive_types(V)]
#[verifier::reject_recursive_types(S)]
pub struct ExDashMap<K, V, S>(dashmap::DashMap<K, V, S>);

/// The sessions that a map holds.
pub uninterp spec fn sessions_in(m: dashmap::DashMap<u32, SessionState>) -> Map<u32, SessionState>;

/// `dashmap::DashMap::new`: an empty map.
#[verifier::external_body]
fn no_sessions() -> (r: dashmap::DashMap<u32, SessionState>)
    ensures
        sessions_in(r).is_empty(),
{
    dashmap::DashMap::new()
}

/// `dashmap::DashMap::insert`: the key has that value afterwards, whatever it had.
#[verifier::external_body]
fn put_session(m: &mut dashmap::DashMap<u32, SessionState>, key: u32, value: SessionState)
    ensures
        sessions_in(*final(m)) == sessions_in(*old(m)).insert(key, value),
{
    m.insert(key, value);
}

/// `dashmap::DashMap::remove`: the key is gone afterwards.
#[verifier::external_body]
fn drop_session(m: &mut dashmap::DashMap<u32, SessionState>, key: u32)
    ensures
        sessions_in(*final(m)) == sessions_in(*old(m)).remove(key),
{
    m.remove(&key);
}

/// `dashmap::DashMap::get`: a copy of the value of the key, where it has one.
#[verifier::external_body]
fn get_session(m: &dashmap::DashMap<u32, SessionState>, key: u32) -> (r: Option<SessionState>)
    ensures
        match r {
            Some(s) => sessions_in(*m).contains_pair(key, s),
            None => !sessions_in(*m).contains_key(key),
        },
{
    m.get(&key).map(|s| *s)
}

/// `dashmap::DashMap::iter`: the keys, each once, in no order that is promised.
#[verifier::external_body]
fn session_ids(m: &dashmap::DashMap<u32, SessionState>) -> (r: Vec<u32>)
    ensures
        r@.no_duplicates(),
        forall|k: u32| r@.contains(k) <==> #[trigger] sessions_in(*m).contains_key(k),
{
    m.iter().map(|e| *e.key()).collect()
}

/// The sessions, and how many of them count against the limit.
pub struct SessionManager {
    active_connections: u32,
    sessions: dashmap::DashMap<u32, SessionState>,
}

impl SessionManager {
    pub closed spec fn active(&self) -> u32 {
        self.active_connections
    }

    pub closed spec fn sessions(&self) -> Map<u32, SessionState> {
        sessions_in(self.sessions)
    }

    pub fn new() -> (r: Self)
        ensures
            r.active() == 0,
            r.sessions().is_empty(),
    {
        SessionManager { active_connections: 0, sessions: no_sessions() }
    }

    pub fn active_count(&self) -> (r: u32)
        ensures
            r == self.active(),
    {
        self.active_connections
    }

    /// What is known of a session.
    pub fn session(&self, conn_id: u32) -> (r: Option<SessionState>)
        ensures
            match r {
                Some(s) => self.sessions().contains_pair(conn_id, s),
                None => !self.sessions().contains_key(conn_id),
            },
    {
        get_session(&self.sessions, conn_id)
    }

    /// Takes a session in, unless it counts and the limit was passed before it. Local sessions
    /// and those of the servers do not count. Returns how many there were before a counted one.
    pub fn admit_session(
        &mut self,
        conn_id: u32,
        is_local: bool,
        is_rpc: bool,
        max_connections: u32,
        now: u64,
    ) -> (r: Result<Option<u32>, SessionAdmitError>)
        ensures
            ({
                let counted = !is_local && !is_rpc;
                let before = old(self).active();
                match r {
                    Err(SessionAdmitError::MaxConnectionsExceeded { max_connections: m }) => counted
                        && before > max_connections && m == max_connections && *final(self) == *old(
                        self),
                    Ok(active_before) => {
                        &&& counted ==> before <= max_connections
                        &&& active_before == (if counted {
                            Some(before)
                        } else {
                            None
                        })
                        &&& final(self).active() == (if counted {
                            before.wrapping_add(1)
                        } else {
                            before
                        })
                        &&& final(self).sessions() == old(self).sessions().insert(
                            conn_id,
                            SessionState {
                                started_at: now,
                                kind: SessionKind::Pending,
                                last_packet_send: None,
                            },
                        )
                    },
                }
            }),
    {
        let counted = !is_local && !is_rpc;
        let before: u32 = self.active_connections;
        if counted {
            if before > max_connections {
                return Err(SessionAdmitError::MaxConnectionsExceeded { max_connections });
            }
            self.active_connections = before.wrapping_add(1);
        }
        put_session(&mut self.sessions, conn_id, SessionState::new(now));
        if counted {
            Ok(Some(before))
        } else {
            Ok(None)
        }
    }

    /// Lets a session go. Returns the number of open connections to show, where it counted.
    pub fn release(&mut self, conn_id: u32, counted: bool) -> (r: Option<u32>)
        ensures
            final(self).sessions() == old(self).sessions().remove(conn_id),
            final(self).active() == (if counted {
                old(self).active().wrapping_sub(1)
            } else {
                old(self).active()
            }),
            r == (if counted {
                Some(
                    if old(self).active() > 0 {
                        (old(self).active() - 1) as u32
                    } else {
                        0u32
                    },
                )
            } else {
                None
            }),
    {
        drop_session(&mut self.sessions, conn_id);
        if counted {
            let before: u32 = self.active_connections;
            self.active_connections = before.wrapping_sub(1);
            Some(
                if before > 0 {
                    before - 1
                } else {
                    0
                },
            )
        } else {
            None
        }
    }

    /// Takes out the sessions that have lasted too long, and returns which they are.
    pub fn nuke_old_connections(&mut self, now: u64) -> (r: Vec<u32>)
        ensures
            final(self).active() == old(self).active(),
            r@.no_duplicates(),
            forall|k: u32| #[trigger]
                r@.contains(k) <==> old(self).sessions().contains_key(k) && reason_to_close(
                    old(self).sessions()[k],
                    now,
                ) is Some,
            forall|k: u32| #[trigger]
                final(self).sessions().contains_key(k) <==> old(self).sessions().contains_key(k)
                    && reason_to_close(old(self).sessions()[k], now) is None,
            forall|k: u32| #[trigger]
                final(self).sessions().contains_key(k) ==> final(self).sessions()[k] == old(
                    self).sessions()[k],
    {
        let ids = session_ids(&self.sessions);
        let ghost before = sessions_in(self.sessions);
        let mut expired: Vec<u32> = Vec::new();
        let mut i: usize = 0;
        while i < ids.len()
            invariant
                i <= ids.len(),
                before == old(self).sessions(),
                ids@.no_duplicates(),
                forall|k: u32| ids@.contains(k) <==> #[trigger] before.contains_key(k),
                self.active() == old(self).active(),
                expired@.no_duplicates(),
                forall|k: u32| #[trigger]
                    expired@.contains(k) <==> ids@.take(i as int).contains(k) && reason_to_close(
                        before[k],
                        now,
                    ) is Some,
                forall|k: u32| #[trigger]
                    self.sessions().contains_key(k) <==> before.contains_key(k) && !expired@.contains(k),
                forall|k: u32| #[trigger]
                    self.sessions().contains_key(k) ==> self.sessions()[k] == before[k],
            decreases ids.len() - i,
        {
            let id: u32 = ids[i];
            let ghost shown = expired@;
            let ghost taken = ids@.take(i as int);
            assert(ids@.contains(ids@[i as int]));
            assert(before.contains_key(id));
            proof {
                assert forall|k: u32| ids@.take(i + 1).contains(k) <==> taken.contains(k) || k == id by {
                    assert(ids@.take(i + 1) =~= taken.push(id));
                    if taken.contains(k) {
                        let j = choose|j: int| 0 <= j < taken.len() && taken[j] == k;
                        assert(taken.push(id)[j] == k);
                    }
                    if k == id {
                        assert(taken.push(id)[taken.len() as int] == k);
                    }
                    if taken.push(id).contains(k) {
                        let j = choose|j: int|
                            0 <= j < taken.push(id).len() && taken.push(id)[j] == k;
                        if j < taken.len() {
                            assert(taken[j] == k);
                        }
                    }
                }
                if taken.contains(id) {
                    let j = choose|j: int| 0 <= j < taken.len() && taken[j] == id;
                    assert(ids@[j] == ids@[i as int]);
                }
            }
            match get_session(&self.sessions, id) {
                Some(s) => {
                    assert(self.sessions().contains_key(id));
                    if s.timeout_reason(now).is_some() {
                        expired.push(id);
                        drop_session(&mut self.sessions, id);
                        proof {
                            assert forall|k: u32| #[trigger] expired@.contains(k) <==> shown.contains(k)
                                || k == id by {
                                if shown.contains(k) {
                                    let j = choose|j: int| 0 <= j < shown.len() && shown[j] == k;
                                    assert(expired@[j] == k);
                                }
                                if k == id {
                                    assert(expired@[shown.len() as int] == k);
                                }
                                if expired@.contains(k) {
                                    let j = choose|j: int| 0 <= j < expired@.len() && expired@[j] == k;
                                    if j < shown.len() {
                                        assert(shown[j] == k);
                                    }
                                }
                            }
                            assert forall|a: int, b: int|
                                0 <= a < expired@.len() && 0 <= b < expired@.len() && a
                                    != b implies expired@[a] != expired@[b] by {
                                if a < shown.len() {
                                    assert(shown.contains(shown[a]));
                                }
                                if b < shown.len() {
                                    assert(shown.contains(shown[b]));
                                }
                            }
                        }
                    }
                },
                None => {
                    assert(self.sessions().contains_key(id));
                },
            }
            i += 1;
        }
        proof {
            assert(ids@.take(i as int) =~= ids@);
        }
        expired
    }

    /// Notes what a session is for.
    pub fn mark_kind(&mut self, conn_id: u32, kind: SessionKind)
        ensures
            final(self).active() == old(self).active(),
            final(self).sessions() == (if old(self).sessions().contains_key(conn_id) {
                old(self).sessions().insert(
                    conn_id,
                    SessionState { kind, ..old(self).sessions()[conn_id] },
                )
            } else {
                old(self).sessions()
            }),
    {
        match get_session(&self.sessions, conn_id) {
            Some(s) => put_session(
                &mut self.sessions,
                conn_id,
                SessionState {
                    started_at: s.started_at,
                    kind,
                    last_packet_send: s.last_packet_send,
                },
            ),
            None => {},
        }
    }

    pub fn mark_normal(&mut self, conn_id: u32)
        ensures
            final(self).active() == old(self).active(),
            final(self).sessions() == (if old(self).sessions().contains_key(conn_id) {
                old(self).sessions().insert(
                    conn_id,
                    SessionState { kind: SessionKind::Normal, ..old(self).sessions()[conn_id] },
                )
            } else {
                old(self).sessions()
            }),
    {
        self.mark_kind(conn_id, SessionKind::Normal);
    }

    pub fn mark_servercmd(&mut self, conn_id: u32)
        ensures
            final(self).active() == old(self).active(),
            final(self).sessions() == (if old(self).sessions().contains_key(conn_id) {
                old(self).sessions().insert(
                    conn_id,
                    SessionState { kind: SessionKind::Servercmd, ..old(self).sessions()[conn_id] },
                )
            } else {
                old(self).sessions()
            }),
    {
        self.mark_kind(conn_id, SessionKind::Servercmd);
    }

    /// Notes when a session last sent a packet.
    pub fn mark_packet_sent(&mut self, conn_id: u32, now: u64)
        ensures
            final(self).active() == old(self).active(),
            final(self).sessions() == (if old(self).sessions().contains_key(conn_id) {
                old(self).sessions().insert(
                    conn_id,
                    SessionState { last_packet_send: Some(now), ..old(self).sessions()[conn_id] },
                )
            } else {
                old(self).sessions()
            }),
    {
        match get_session(&self.sessions, conn_id) {
            Some(s) => put_session(
                &mut self.sessions,
                conn_id,
                SessionState {
                    started_at: s.started_at,
                    kind: s.kind,
                    last_packet_send: Some(now),
                },
            ),
            None => {},
        }
    }
}

/// A session that is to be closed stays so as time goes on.
pub proof fn waiting_longer_keeps_the_reason(s: SessionState, now: u64, later: u64)
    requires
        now <= later,
        reason_to_close(s, now) is Some,
    ensures
        reason_to_close(s, later) is Some,
{
}

/// Letting a session go undoes taking it in: the count and the sessions are as before.
pub proof fn releasing_undoes_admission(
    active: u32,
    sessions: Map<u32, SessionState>,
    conn_id: u32,
    state: SessionState,
)
    requires
        !sessions.contains_key(conn_id),
    ensures
        active.wrapping_add(1).wrapping_sub(1) == active,
        sessions.insert(conn_id, state).remove(conn_id) == sessions,
{
    assert(sessions.insert(conn_id, state).remove(conn_id) =~= sessions);
}

} // verus!
