//! Who is let in, for how long, and how fast they are served.

use vstd::prelude::*;
use crate::bandwidth::BandwidthMonitor;
use crate::server::admission::FloodControlEntry;
use crate::server::session::{SessionKind, SessionState, SessionTimeoutReason};

verus! {

// ---------------------------------------------------------------------------
// Floods
// ---------------------------------------------------------------------------

/// A host after `n` connections at one time.
pub open spec fn after_burst(e: FloodControlEntry, now: u64, n: nat) -> FloodControlEntry
    decreases n,
{
    if n == 0 {
        e
    } else {
        crate::server::admission::entry_after(after_burst(e, now, (n - 1) as nat), now)
    }
}

/// Of the connections that a new host makes at one time, ten are allowed; with the eleventh it is
/// blocked for sixty seconds, and no longer.
pub proof fn eleven_connections_are_a_flood(now: u64, n: nat, later: u64)
    requires
        now <= 0x7fff_ffff_ffff_ffff,
        n <= 11,
        later >= now,
    ensures
        ({
            let e = FloodControlEntry { connect_count: 0, last_connect: now, block_until: None };
            let b = after_burst(e, now, n);
            &&& b.connect_count == n
            &&& n <= 10 ==> !crate::server::admission::is_blocked_at(b, later)
            &&& n == 11 ==> (crate::server::admission::is_blocked_at(b, later) <==> later - now
                < 60_000_000_000)
        }),
    decreases n,
{
    let e = FloodControlEntry { connect_count: 0, last_connect: now, block_until: None };
    if n > 0 {
        eleven_connections_are_a_flood(now, (n - 1) as nat, later);
        lemma_burst_time(e, now, (n - 1) as nat);
        let a = after_burst(e, now, (n - 1) as nat);
        assert(crate::server::admission::elapsed_millis(a, now) == 0);
        if n <= 11 {
            lemma_burst_unblocked(now, (n - 1) as nat);
        }
    }
}

proof fn lemma_burst_time(e: FloodControlEntry, now: u64, n: nat)
    requires
        e.last_connect == now,
    ensures
        after_burst(e, now, n).last_connect == now,
    decreases n,
{
    if n > 0 {
        lemma_burst_time(e, now, (n - 1) as nat);
    }
}

proof fn lemma_burst_unblocked(now: u64, n: nat)
    requires
        n <= 10,
    ensures
        ({
            let e = FloodControlEntry { connect_count: 0, last_connect: now, block_until: None };
            let b = after_burst(e, now, n);
            b.connect_count == n && b.block_until is None
        }),
    decreases n,
{
    let e = FloodControlEntry { connect_count: 0, last_connect: now, block_until: None };
    if n > 0 {
        lemma_burst_unblocked(now, (n - 1) as nat);
        lemma_burst_time(e, now, (n - 1) as nat);
        let a = after_burst(e, now, (n - 1) as nat);
        assert(crate::server::admission::elapsed_millis(a, now) == 0);
    }
}

/// Each whole second between two connections takes one connection off the count.
pub proof fn seconds_take_connections_off(e: FloodControlEntry, now: u64, seconds: u64)
    requires
        e.connect_count < u32::MAX,
        seconds < 4_000_000,
        e.last_connect + seconds * 1_000_000_000 <= now < e.last_connect + (seconds + 1) * 1_000_000_000,
    ensures
        crate::server::admission::count_after(e, now) == (if e.connect_count > seconds {
            e.connect_count - seconds + 1
        } else {
            1
        }),
{
    let m = (now - e.last_connect) / 1_000_000;
    assert(seconds * 1000 <= m < (seconds + 1) * 1000);
    if now > e.last_connect {
        assert(m < 0x1_0000_0000);
        assert(crate::server::admission::elapsed_millis(e, now) == m);
    }
    assert(m / 1000 == seconds);
}

/// A host is forgotten when more than sixty seconds have passed since its last connection.
pub proof fn hosts_are_forgotten_after_a_minute(e: FloodControlEntry, now: u64)
    ensures
        crate::server::admission::is_stale_at(e, now) <==> now - e.last_connect > 60_000_000_000,
{
}

/// A host that is neither blocked nor above ten connections is not held back.
pub proof fn calm_hosts_are_let_in(f: crate::server::admission::FloodControl, host: Seq<char>, now: u64)
    ensures
        crate::server::admission::is_flooding(f, host, now) <==> {
            let e = f.entry(host, now);
            (e.block_until is Some && e.block_until->0 > now) || crate::server::admission::count_after(
                e,
                now,
            ) >= 11
        },
        !f.hosts().contains_key(host) ==> !crate::server::admission::is_flooding(f, host, now),
{
}

/// The server is told of an overload above four fifths of the connections, and then not again for
/// thirty seconds.
pub proof fn overloads_are_told_every_half_minute(active: u32, max: u32, last: u64, now: u64)
    ensures
        crate::server::admission::is_near_limit(active, max) <==> active > 0 && 5 * active > 4 * max,
        crate::server::admission::may_notify(Some(last), now) <==> now - last >= 30_000_000_000,
        crate::server::admission::may_notify(None, now),
{
}

// ---------------------------------------------------------------------------
// Sessions
// ---------------------------------------------------------------------------

/// A session is closed when its last packet went out more than thirty seconds ago, or when it
/// began more than thirty seconds ago without a request, three minutes with an ordinary one, and
/// half an hour with a server command; not before.
pub proof fn sessions_have_time_limits(s: SessionState, now: u64)
    ensures
        ({
            let second: int = 1_000_000_000;
            let age = now - s.started_at;
            let r = crate::server::session::reason_to_close(s, now);
            let stuck = s.last_packet_send is Some && now - s.last_packet_send->0 > 30 * second;
            let old = (s.kind == SessionKind::Pending && age > 30 * second) || (s.kind == SessionKind::Normal
                && age > 180 * second) || (s.kind == SessionKind::Servercmd && age > 1800 * second);
            &&& stuck ==> r == Some(SessionTimeoutReason::LastPacketSend)
            &&& !stuck && old ==> r == Some(SessionTimeoutReason::StartAge)
            &&& !stuck && !old ==> r is None
        }),
{
}

// ---------------------------------------------------------------------------
// Bandwidth
// ---------------------------------------------------------------------------

/// A tick lasts twenty milliseconds.
pub proof fn ticks_last_twenty_milliseconds(now: u64)
    ensures
        20 * crate::bandwidth::tick_of(now) <= now < 20 * crate::bandwidth::tick_of(now) + 20,
{
}

/// Fifty ticks at their limit are a second at its limit, and no more than a byte for each tick
/// above it.
pub proof fn fifty_ticks_are_a_second(throttle: u32)
    ensures
        throttle <= 50 * crate::bandwidth::tick_limit(throttle) < throttle + 50,
{
}

/// No quota is granted where this tick has seen more than eleven tenths of its limit, where the
/// five ticks before it have seen more than 5.25 times the limit, or where the 49 before it have
/// seen more than fifty times; it is granted where none of them has.
pub proof fn quotas_are_granted_below_the_limits(m: BandwidthMonitor, tick: int)
    ensures
        ({
            let five = m.bytes_in(tick - 5) + m.bytes_in(tick - 4) + m.bytes_in(tick - 3) + m.bytes_in(
                tick - 2,
            ) + m.bytes_in(tick - 1);
            m.exceeded(tick) <==> 10 * m.bytes_in(tick) > 11 * m.limit() || 100 * five > 525 * m.limit()
                || m.bytes_between(tick - 49, tick) > 50 * m.limit()
        }),
{
    reveal_with_fuel(BandwidthMonitor::bytes_between, 6);
    assert(m.bytes_between(tick - 5, tick - 5) == 0);
    assert(m.bytes_between(tick - 5, tick - 4) == m.bytes_in(tick - 5));
    assert(m.bytes_between(tick - 5, tick - 3) == m.bytes_in(tick - 5) + m.bytes_in(tick - 4));
    assert(m.bytes_between(tick - 5, tick - 2) == m.bytes_in(tick - 5) + m.bytes_in(tick - 4) + m.bytes_in(
        tick - 3,
    ));
    assert(m.bytes_between(tick - 5, tick - 1) == m.bytes_in(tick - 5) + m.bytes_in(tick - 4) + m.bytes_in(
        tick - 3,
    ) + m.bytes_in(tick - 2));
}

/// The bytes of some ticks are those of the ticks up to any one between and those from it on; the
/// bytes of one tick are its own.
pub proof fn bytes_add_up(m: BandwidthMonitor, from: int, middle: int, to: int)
    requires
        from <= middle <= to,
    ensures
        m.bytes_between(from, to) == m.bytes_between(from, middle) + m.bytes_between(middle, to),
        m.bytes_between(from, from + 1) == m.bytes_in(from),
    decreases to - middle,
{
    reveal_with_fuel(BandwidthMonitor::bytes_between, 2);
    if middle < to {
        bytes_add_up(m, from, middle, to - 1);
    }
}

/// The send buffer takes a fifth of the throttle to the nearest byte, up to 512 KiB, or 128 KiB
/// where memory is short; without a throttle none is set.
pub proof fn buffers_take_a_fifth(throttle: u32, less: bool)
    ensures
        ({
            let b = crate::server::admission::send_buffer(throttle, less);
            let cap: int = if less {
                131_072
            } else {
                524_288
            };
            &&& throttle <= 2 ==> b is None
            &&& 3 <= throttle && throttle < 5 * cap - 2 ==> b is Some && throttle - 2 <= 5 * b->0 <= throttle
                + 2
            &&& throttle >= 5 * cap ==> b == Some(cap as usize)
        }),
{
}

/// The client takes as many connections as the user says, where the user says so; else twenty and
/// one more for each ten thousand bytes of the throttle, and never more than five hundred.
pub proof fn connections_grow_with_the_throttle(overriding: u32, throttle: u32)
    ensures
        overriding > 0 ==> crate::config::connection_limit(overriding, throttle) == overriding,
        throttle < 4_800_000 ==> {
            let n = crate::config::connection_limit(0, throttle);
            20 <= n && (n - 20) * 10_000 <= throttle < (n - 19) * 10_000
        },
        throttle >= 4_800_000 ==> crate::config::connection_limit(0, throttle) == 500,
{
}

// ---------------------------------------------------------------------------
// Local hosts
// ---------------------------------------------------------------------------

proof fn lemma_prefix(a: Seq<char>, rest: Seq<char>)
    ensures
        a.is_prefix_of(a + rest),
{
    assert((a + rest).subrange(0, a.len() as int) =~= a);
}

/// Hosts are local by how their names begin: the local host, the loopback, private and link-local
/// networks, and the unique local addresses.
pub proof fn local_hosts_are_known(rest: Seq<char>)
    ensures
        crate::server::peer::is_local_host("localhost"@ + rest),
        crate::server::peer::is_local_host("127."@ + rest),
        crate::server::peer::is_local_host("10."@ + rest),
        crate::server::peer::is_local_host("192.168."@ + rest),
        crate::server::peer::is_local_host("169.254."@ + rest),
        crate::server::peer::is_local_host("::1"@ + rest),
        crate::server::peer::is_local_host("0:0:0:0:0:0:0:1"@ + rest),
        crate::server::peer::is_local_host("fc"@ + rest),
        crate::server::peer::is_local_host("fd"@ + rest),
{
    lemma_prefix("localhost"@, rest);
    lemma_prefix("127."@, rest);
    lemma_prefix("10."@, rest);
    lemma_prefix("192.168."@, rest);
    lemma_prefix("169.254."@, rest);
    lemma_prefix("::1"@, rest);
    lemma_prefix("0:0:0:0:0:0:0:1"@, rest);
    lemma_prefix("fc"@, rest);
    lemma_prefix("fd"@, rest);
}

/// Of the addresses that begin with 172, those are local whose second number is from 16 to 31.
pub proof fn sixteen_networks_are_local(second: u8, rest: Seq<char>)
    ensures
        crate::server::peer::is_local_host(
            seq!['1', '7', '2', '.'] + crate::number::decimal(second as nat) + seq!['.'] + rest,
        ) <==> 16 <= second <= 31,
{
    let d = crate::number::decimal(second as nat);
    let s = seq!['1', '7', '2', '.'] + d + seq!['.'] + rest;
    reveal_with_fuel(crate::number::decimal, 4);
    reveal_strlit("172.");
    assert("172."@ =~= seq!['1', '7', '2', '.']);
    assert(s.take(4) =~= seq!['1', '7', '2', '.']);
    lemma_not_other(s);
    if second >= 100 {
        assert(d.len() == 3);
        assert(s[6] == d[2]);
    } else if second >= 10 {
        assert(d =~= seq![
            crate::number::digit_char((second / 10) as nat),
            crate::number::digit_char((second % 10) as nat),
        ]);
        assert(s[4] == d[0] && s[5] == d[1]);
        assert(s[6] == '.');
    } else {
        assert(d.len() == 1);
        assert(s[4] == d[0]);
        assert(s[5] == '.');
    }
}

proof fn lemma_not_other(s: Seq<char>)
    requires
        s.len() >= 4,
        s.take(4) == seq!['1', '7', '2', '.'],
    ensures
        crate::server::peer::is_local_host(s) == crate::server::peer::is_private_172(s),
{
    reveal_strlit("localhost");
    reveal_strlit("127.");
    reveal_strlit("10.");
    reveal_strlit("192.168.");
    reveal_strlit("169.254.");
    reveal_strlit("::1");
    reveal_strlit("0:0:0:0:0:0:0:1");
    reveal_strlit("fc");
    reveal_strlit("fd");
    assert(s.take(4)[1] == '7');
    assert(s[0] == '1' && s[1] == '7');
    lemma_differs(s, "localhost"@, 0);
    lemma_differs(s, "127."@, 1);
    lemma_differs(s, "10."@, 1);
    lemma_differs(s, "192.168."@, 1);
    lemma_differs(s, "169.254."@, 1);
    lemma_differs(s, "::1"@, 0);
    lemma_differs(s, "0:0:0:0:0:0:0:1"@, 0);
    lemma_differs(s, "fc"@, 0);
    lemma_differs(s, "fd"@, 0);
}

proof fn lemma_differs(s: Seq<char>, prefix: Seq<char>, i: int)
    requires
        0 <= i < s.len(),
        i < prefix.len(),
        s[i] != prefix[i],
    ensures
        !prefix.is_prefix_of(s),
{
    if prefix.is_prefix_of(s) {
        assert(s.subrange(0, prefix.len() as int)[i] == prefix[i]);
    }
}

/// A host whose name begins with none of the characters that local ones begin with is not local.
pub proof fn other_hosts_are_not_local(s: Seq<char>)
    requires
        s.len() > 0,
        s[0] != 'l',
        s[0] != '0',
        s[0] != '1',
        s[0] != ':',
        s[0] != 'f',
    ensures
        !crate::server::peer::is_local_host(s),
{
    reveal_strlit("localhost");
    reveal_strlit("127.");
    reveal_strlit("10.");
    reveal_strlit("192.168.");
    reveal_strlit("169.254.");
    reveal_strlit("172.");
    reveal_strlit("::1");
    reveal_strlit("0:0:0:0:0:0:0:1");
    reveal_strlit("fc");
    reveal_strlit("fd");
    lemma_differs(s, "localhost"@, 0);
    lemma_differs(s, "127."@, 0);
    lemma_differs(s, "10."@, 0);
    lemma_differs(s, "192.168."@, 0);
    lemma_differs(s, "169.254."@, 0);
    lemma_differs(s, "::1"@, 0);
    lemma_differs(s, "0:0:0:0:0:0:0:1"@, 0);
    lemma_differs(s, "fc"@, 0);
    lemma_differs(s, "fd"@, 0);
    if s.len() >= 7 {
        assert(s.take(4)[0] == s[0]);
        assert("172."@[0] == '1');
    }
}

/// Server commands are taken from the servers alone, unless the origin is not checked.
pub proof fn servers_are_authorized(
    ip: crate::ip::IpView,
    servers: Seq<crate::ip::IpView>,
    i: int,
    unchecked: bool,
)
    ensures
        0 <= i < servers.len() && servers[i] == ip ==> crate::server::peer::is_authorized(
            ip,
            servers,
            unchecked,
        ),
        (forall|j: int| 0 <= j < servers.len() ==> #[trigger] servers[j] != ip)
            ==> crate::server::peer::is_authorized(ip, servers, unchecked) == unchecked,
{
}

} // verus!
