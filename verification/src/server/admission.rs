//! Which connections are taken in. Times are nanoseconds of a clock that does not go back.

use vstd::prelude::*;
use crate::config::Config;
use crate::server::peer::{AdmissionClass, SessionOrigin};
use crate::server::session::{SessionAdmitError, SessionKind, SessionManager, SessionState};

verus! {

/// How long a host is blocked, and how long it is remembered: sixty seconds.
pub const FLOOD_PERIOD: u64 = 60_000_000_000;

/// How often the server may be told of an overload: every thirty seconds.
pub const OVERLOAD_PERIOD: u64 = 30_000_000_000;

#[derive(Debug, Clone, Copy, PartialEq, Eq, Structural)]
pub struct FloodControlEntry {
    pub connect_count: u32,
    pub last_connect: u64,
    pub block_until: Option<u64>,
}

/// Whether a host is blocked.
pub open spec fn is_blocked_at(e: FloodControlEntry, now: u64) -> bool {
    e.block_until is Some && e.block_until->0 > now
}

/// Whether a host can be forgotten.
pub open spec fn is_stale_at(e: FloodControlEntry, now: u64) -> bool {
    now > e.last_connect && now - e.last_connect > FLOOD_PERIOD
}

/// The milliseconds since the last connection, cut to 32 bits.
pub open spec fn elapsed_millis(e: FloodControlEntry, now: u64) -> u32 {
    if now > e.last_connect {
        ((now - e.last_connect) / 1_000_000) as u32
    } else {
        0
    }
}

/// The connections of a host after one more: one less for each second since the last.
pub open spec fn count_after(e: FloodControlEntry, now: u64) -> u32 {
    let seconds = elapsed_millis(e, now) / 1000;
    let left = if e.connect_count > seconds {
        e.connect_count - seconds
    } else {
        0
    };
    if left < u32::MAX {
        (left + 1) as u32
    } else {
        u32::MAX
    }
}

/// A host after one more connection: above ten it is blocked for a minute.
pub open spec fn entry_after(e: FloodControlEntry, now: u64) -> FloodControlEntry {
    FloodControlEntry {
        connect_count: count_after(e, now),
        last_connect: now,
        block_until: if count_after(e, now) > 10 {
            Some((now + FLOOD_PERIOD) as u64)
        } else {
            e.block_until
        },
    }
}

impl FloodControlEntry {
    pub fn is_blocked(&self, now: u64) -> (r: bool)
        ensures
            r == is_blocked_at(*self, now),
    {
        match self.block_until {
            Some(until) => until > now,
            None => false,
        }
    }

    pub fn is_stale(&self, now: u64) -> (r: bool)
        ensures
            r == is_stale_at(*self, now),
    {
        now > self.last_connect && now - self.last_connect > FLOOD_PERIOD
    }

    /// Returns true if the connection should be allowed.
    pub fn hit(&mut self, now: u64) -> (r: bool)
        requires
            now <= u64::MAX - FLOOD_PERIOD,
        ensures
            *final(self) == entry_after(*old(self), now),
            r == (count_after(*old(self), now) <= 10),
    {
        let elapsed: u64 = if now > self.last_connect {
            (now - self.last_connect) / 1_000_000
        } else {
            0
        };
        let millis: u32 = #[verifier::truncate]
        (elapsed as u32);
        let seconds: u32 = millis / 1000;
        let left: u32 = if self.connect_count > seconds {
            self.connect_count - seconds
        } else {
            0
        };
        self.connect_count = if left < u32::MAX {
            left + 1
        } else {
            u32::MAX
        };
        self.last_connect = now;
        if self.connect_count > 10 {
            self.block_until = Some(now + FLOOD_PERIOD);
            false
        } else {
            true
        }
    }
}

/// A host that connects too often is blocked, and stays so for a minute.
pub proof fn flooding_host_is_blocked(e: FloodControlEntry, now: u64, later: u64)
    requires
        now <= u64::MAX - FLOOD_PERIOD,
        count_after(e, now) > 10,
        now <= later < now + FLOOD_PERIOD,
    ensures
        is_blocked_at(entry_after(e, now), later),
{
}

/// After some quiet a host can connect again: eleven seconds or more, and less than the
/// milliseconds that 32 bits hold, take its count from eleven down to one.
pub proof fn quiet_host_is_allowed(e: FloodControlEntry, now: u64)
    requires
        e.connect_count <= 11,
        now >= e.last_connect + 11_000_000_000,
        now - e.last_connect < 4_294_967_296_000_000,
    ensures
        count_after(e, now) == 1,
{
    let m = (now - e.last_connect) / 1_000_000;
    assert(11_000 <= m < 0x1_0000_0000);
    assert(elapsed_millis(e, now) == m);
}

// ---------------------------------------------------------------------------
// The table
// ---------------------------------------------------------------------------

/// The hosts that a map holds, each by the characters of its name.
pub uninterp spec fn hosts_in(m: dashmap::DashMap<String, FloodControlEntry>) -> Map<
    Seq<char>,
    FloodControlEntry,
>;

/// `dashmap::DashMap::new`: an empty map.
#[verifier::external_body]
fn no_hosts() -> (r: dashmap::DashMap<String, FloodControlEntry>)
    ensures
        hosts_in(r).is_empty(),
{
    dashmap::DashMap::new()
}

/// `dashmap::DashMap::insert`: the key has that value afterwards, whatever it had.
#[verifier::external_body]
fn put_host(m: &mut dashmap::DashMap<String, FloodControlEntry>, key: &str, value: FloodControlEntry)
    ensures
        hosts_in(*final(m)) == hosts_in(*old(m)).insert(key@, value),
{
    m.insert(key.to_string(), value);
}

/// `dashmap::DashMap::remove`: the key is gone afterwards.
#[verifier::external_body]
fn drop_host(m: &mut dashmap::DashMap<String, FloodControlEntry>, key: &str)
    ensures
        hosts_in(*final(m)) == hosts_in(*old(m)).remove(key@),
{
    m.remove(key);
}

/// `dashmap::DashMap::get`: a copy of the value of the key, where it has one.
#[verifier::external_body]
fn get_host(m: &dashmap::DashMap<String, FloodControlEntry>, key: &str) -> (r: Option<FloodControlEntry>)
    ensures
        match r {
            Some(e) => hosts_in(*m).contains_pair(key@, e),
            None => !hosts_in(*m).contains_key(key@),
        },
{
    m.get(key).map(|e| *e)
}

/// `dashmap::DashMap::iter`: the keys, each once, in no order that is promised.
#[verifier::external_body]
fn host_names(m: &dashmap::DashMap<String, FloodControlEntry>) -> (r: Vec<String>)
    ensures
        crate::text::texts(r@).no_duplicates(),
        forall|k: Seq<char>| crate::text::texts(r@).contains(k) <==> #[trigger] hosts_in(*m).contains_key(k),
{
    m.iter().map(|e| e.key().clone()).collect()
}

/// The hosts that have connected of late.
pub struct FloodControl {
    hosts: dashmap::DashMap<String, FloodControlEntry>,
}

impl FloodControl {
    pub closed spec fn hosts(&self) -> Map<Seq<char>, FloodControlEntry> {
        hosts_in(self.hosts)
    }

    /// What is known of a host; nothing counts as no connection, just now.
    pub open spec fn entry(&self, host: Seq<char>, now: u64) -> FloodControlEntry {
        if self.hosts().contains_key(host) {
            self.hosts()[host]
        } else {
            FloodControlEntry { connect_count: 0, last_connect: now, block_until: None }
        }
    }

    pub fn new() -> (r: Self)
        ensures
            r.hosts().is_empty(),
    {
        FloodControl { hosts: no_hosts() }
    }

    /// Counts a connection of a host that is not blocked. Says whether it is allowed.
    pub fn check(&mut self, host: &str, now: u64) -> (r: bool)
        requires
            now <= u64::MAX - FLOOD_PERIOD,
        ensures
            ({
                let e = old(self).entry(host@, now);
                let blocked = is_blocked_at(e, now);
                &&& r == (!blocked && count_after(e, now) <= 10)
                &&& final(self).hosts() == old(self).hosts().insert(
                    host@,
                    if blocked {
                        e
                    } else {
                        entry_after(e, now)
                    },
                )
            }),
    {
        let mut entry = match get_host(&self.hosts, host) {
            Some(e) => e,
            None => FloodControlEntry { connect_count: 0, last_connect: now, block_until: None },
        };
        let allowed = if entry.is_blocked(now) {
            false
        } else {
            entry.hit(now)
        };
        put_host(&mut self.hosts, host, entry);
        allowed
    }

    /// Forgets the hosts that have not connected for a minute.
    pub fn prune(&mut self, now: u64)
        ensures
            forall|k: Seq<char>| #[trigger]
                final(self).hosts().contains_key(k) <==> old(self).hosts().contains_key(k)
                    && !is_stale_at(old(self).hosts()[k], now),
            forall|k: Seq<char>| #[trigger]
                final(self).hosts().contains_key(k) ==> final(self).hosts()[k] == old(self).hosts()[k],
    {
        let names = host_names(&self.hosts);
        let ghost all = crate::text::texts(names@);
        let ghost before = hosts_in(self.hosts);
        let mut i: usize = 0;
        while i < names.len()
            invariant
                i <= names.len(),
                all == crate::text::texts(names@),
                all.no_duplicates(),
                forall|k: Seq<char>| all.contains(k) <==> #[trigger] before.contains_key(k),
                forall|k: Seq<char>| #[trigger]
                    self.hosts().contains_key(k) <==> before.contains_key(k) && !(exists|j: int|
                        0 <= j < i && #[trigger] all[j] == k && is_stale_at(before[k], now)),
                forall|k: Seq<char>| #[trigger]
                    self.hosts().contains_key(k) ==> self.hosts()[k] == before[k],
            decreases names.len() - i,
        {
            let name = names[i].as_str();
            let ghost current = self.hosts();
            assert(all[i as int] == name@);
            assert(all.contains(name@));
            assert(before.contains_key(name@));
            proof {
                if exists|j: int| 0 <= j < i && #[trigger] all[j] == name@ && is_stale_at(
                    before[name@],
                    now,
                ) {
                    let j = choose|j: int|
                        0 <= j < i && #[trigger] all[j] == name@ && is_stale_at(before[name@], now);
                    assert(all[j] == all[i as int]);
                }
            }
            match get_host(&self.hosts, name) {
                Some(e) => {
                    if e.is_stale(now) {
                        drop_host(&mut self.hosts, name);
                    }
                },
                None => {},
            }
            proof {
                assert(current.contains_key(name@));
                assert forall|k: Seq<char>| #[trigger] self.hosts().contains_key(k)
                    <==> before.contains_key(k) && !(exists|j: int|
                    0 <= j < i + 1 && #[trigger] all[j] == k && is_stale_at(before[k], now)) by {
                    if k == name@ {
                        assert(all[i as int] == k);
                    }
                    if exists|j: int| 0 <= j < i && #[trigger] all[j] == k && is_stale_at(before[k], now) {
                        let j = choose|j: int|
                            0 <= j < i && #[trigger] all[j] == k && is_stale_at(before[k], now);
                        assert(all[j] == k);
                    }
                }
            }
            i += 1;
        }
        proof {
            assert forall|k: Seq<char>| #[trigger] self.hosts().contains_key(k) <==> before.contains_key(k)
                && !is_stale_at(before[k], now) by {
                if before.contains_key(k) && is_stale_at(before[k], now) {
                    assert(all.contains(k));
                    let j = choose|j: int| 0 <= j < all.len() && all[j] == k;
                    assert(all[j] == k);
                }
            }
        }
    }
}

// ---------------------------------------------------------------------------
// Admission
// ---------------------------------------------------------------------------

#[derive(Debug, Clone, Copy, PartialEq, Eq, Structural)]
pub enum AdmissionRejection {
    Startup,
    FloodControl,
    MaxConnectionsExceeded { max_connections: u32 },
}

/// What becomes of a connection.
#[derive(Debug, Clone, Copy, PartialEq, Eq, Structural)]
pub enum AdmissionOutcome {
    Accepted {
        conn_id: u32,
        /// Whether it counts against the limit.
        counted: bool,
        /// Whether the server is told that the client is near its limit.
        notify_overload: bool,
    },
    Rejected(AdmissionRejection),
}

/// What admission keeps between connections.
pub struct Admission {
    /// Whether others than the servers may connect.
    pub allow_normal_connections: bool,
    pub flood_control: FloodControl,
    pub sessions: SessionManager,
    pub next_conn_id: u32,
    /// When the server was last told of an overload.
    pub last_overload_notification: Option<u64>,
}

/// Whether so many connections are near the limit: above four fifths of it.
pub open spec fn is_near_limit(active_before: u32, max_connections: u32) -> bool {
    active_before > (max_connections as int * 4) / 5 && active_before > 0
}

/// Whether the server may be told again.
pub open spec fn may_notify(last: Option<u64>, now: u64) -> bool {
    match last {
        Some(t) => now >= t && now - t >= OVERLOAD_PERIOD,
        None => true,
    }
}

/// Whether a connection is held back by flood control.
pub open spec fn is_flooding(f: FloodControl, host: Seq<char>, now: u64) -> bool {
    let e = f.entry(host, now);
    is_blocked_at(e, now) || count_after(e, now) > 10
}

impl Admission {
    pub fn new() -> (r: Self)
        ensures
            !r.allow_normal_connections,
            r.flood_control.hosts().is_empty(),
            r.sessions.active() == 0,
            r.sessions.sessions().is_empty(),
            r.next_conn_id == 0,
            r.last_overload_notification is None,
    {
        Admission {
            allow_normal_connections: false,
            flood_control: FloodControl::new(),
            sessions: SessionManager::new(),
            next_conn_id: 0,
            last_overload_notification: None,
        }
    }

    /// Decides on a connection. Before normal connections are allowed, only servers connect.
    /// Hosts that are neither local nor servers pass flood control, unless it is off, and
    /// count against the limit. Near the limit the server is told, every thirty seconds at
    /// most.
    pub fn admit_connection(&mut self, origin: SessionOrigin, config: &Config, now: u64) -> (r:
        AdmissionOutcome)
        requires
            now <= u64::MAX - FLOOD_PERIOD,
        ensures
            ({
                let rpc = crate::server::peer::is_authorized(
                    origin.ip(),
                    config@.rpc_servers,
                    config.disable_ip_origin_check,
                );
                let limited = !origin.local() && !rpc;
                let host = crate::ip::ip_text(origin.ip());
                let flooding = limited && !config.disable_flood_control && is_flooding(
                    old(self).flood_control,
                    host,
                    now,
                );
                let max = crate::config::connection_limit(config.override_conns, config.throttle_bytes);
                let before = old(self).sessions.active();
                let near = limited && is_near_limit(before, max) && may_notify(
                    old(self).last_overload_notification,
                    now,
                );
                match r {
                    AdmissionOutcome::Rejected(AdmissionRejection::Startup) => {
                        &&& !old(self).allow_normal_connections && !rpc
                        &&& *final(self) == *old(self)
                    },
                    AdmissionOutcome::Rejected(AdmissionRejection::FloodControl) => {
                        &&& old(self).allow_normal_connections || rpc
                        &&& flooding
                        &&& final(self).sessions == old(self).sessions
                        &&& final(self).next_conn_id == old(self).next_conn_id
                    },
                    AdmissionOutcome::Rejected(
                        AdmissionRejection::MaxConnectionsExceeded { max_connections },
                    ) => {
                        &&& old(self).allow_normal_connections || rpc
                        &&& !flooding
                        &&& limited && before > max && max_connections == max
                        &&& final(self).sessions == old(self).sessions
                        &&& final(self).next_conn_id == old(self).next_conn_id.wrapping_add(1)
                    },
                    AdmissionOutcome::Accepted { conn_id, counted, notify_overload } => {
                        &&& old(self).allow_normal_connections || rpc
                        &&& !flooding
                        &&& limited ==> before <= max
                        &&& conn_id == old(self).next_conn_id.wrapping_add(1)
                        &&& final(self).next_conn_id == conn_id
                        &&& counted == limited
                        &&& notify_overload == near
                        &&& final(self).last_overload_notification == (if near {
                            Some(now)
                        } else {
                            old(self).last_overload_notification
                        })
                        &&& final(self).sessions.active() == (if limited {
                            before.wrapping_add(1)
                        } else {
                            before
                        })
                        &&& final(self).sessions.sessions() == old(self).sessions.sessions().insert(
                            conn_id,
                            SessionState {
                                started_at: now,
                                kind: SessionKind::Pending,
                                last_packet_send: None,
                            },
                        )
                    },
                }
            }),
            final(self).allow_normal_connections == old(self).allow_normal_connections,
            r is Rejected ==> final(self).last_overload_notification == old(
                self).last_overload_notification,
            ({
                let rpc = crate::server::peer::is_authorized(
                    origin.ip(),
                    config@.rpc_servers,
                    config.disable_ip_origin_check,
                );
                let host = crate::ip::ip_text(origin.ip());
                let e = old(self).flood_control.entry(host, now);
                if old(self).allow_normal_connections && !rpc && !origin.local()
                    && !config.disable_flood_control {
                    final(self).flood_control.hosts() == old(self).flood_control.hosts().insert(
                        host,
                        if is_blocked_at(e, now) {
                            e
                        } else {
                            entry_after(e, now)
                        },
                    )
                } else {
                    final(self).flood_control == old(self).flood_control
                }
            }),
    {
        let rpc = crate::server::peer::is_rpc_authorized(origin.peer_ip(), config);
        if !self.allow_normal_connections && !rpc {
            return AdmissionOutcome::Rejected(AdmissionRejection::Startup);
        }
        let limited = match origin.admission_class(rpc) {
            AdmissionClass::Limited => true,
            AdmissionClass::Exempt => false,
        };
        if limited && !config.disable_flood_control {
            let host = origin.peer_ip().to_text();
            if !self.flood_control.check(host.as_str(), now) {
                return AdmissionOutcome::Rejected(AdmissionRejection::FloodControl);
            }
        }
        let conn_id: u32 = self.next_conn_id.wrapping_add(1);
        self.next_conn_id = conn_id;
        let max: u32 = config.max_connections();
        let active_before = match self.sessions.admit_session(
            conn_id,
            origin.is_local(),
            rpc,
            max,
            now,
        ) {
            Ok(n) => n,
            Err(SessionAdmitError::MaxConnectionsExceeded { max_connections }) => {
                return AdmissionOutcome::Rejected(
                    AdmissionRejection::MaxConnectionsExceeded { max_connections },
                );
            },
        };
        let near = match active_before {
            Some(before) => before as u64 > (max as u64 * 4) / 5 && before > 0,
            None => false,
        };
        let may = match self.last_overload_notification {
            Some(t) => now >= t && now - t >= OVERLOAD_PERIOD,
            None => true,
        };
        let notify_overload = near && may;
        if notify_overload {
            self.last_overload_notification = Some(now);
        }
        AdmissionOutcome::Accepted { conn_id, counted: limited, notify_overload }
    }
}

/// The size of the send buffer of a connection, where it is set: a fifth of the throttle,
/// rounded to the nearest, and not above what memory allows.
pub open spec fn send_buffer(throttle: u32, use_less_memory: bool) -> Option<usize> {
    let cap: int = if use_less_memory {
        131_072
    } else {
        524_288
    };
    let share = (throttle as int + 2) / 5;
    let size = if share < cap {
        share
    } else {
        cap
    };
    if throttle == 0 || size == 0 {
        None
    } else {
        Some(size as usize)
    }
}

/// The size of the send buffer of a connection, where it is set.
pub fn send_buffer_size(config: &Config) -> (r: Option<usize>)
    ensures
        r == send_buffer(config.throttle_bytes, config.use_less_memory),
{
    if config.throttle_bytes == 0 {
        return None;
    }
    let cap: u64 = if config.use_less_memory {
        131_072
    } else {
        524_288
    };
    let share: u64 = (config.throttle_bytes as u64 + 2) / 5;
    let size: u64 = if share < cap {
        share
    } else {
        cap
    };
    if size == 0 {
        None
    } else {
        Some(size as usize)
    }
}

} // verus!
