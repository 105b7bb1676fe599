//! Who a connection comes from.

use vstd::prelude::*;
use crate::config::Config;
use crate::ip::IpAddr;

verus! {

/// The address of a network of private use: from `172.16.` to `172.31.`.
pub open spec fn is_private_172(s: Seq<char>) -> bool {
    &&& s.len() >= 7
    &&& s.take(4) == "172."@
    &&& (s[4] == '1' && '6' <= s[5] <= '9') || (s[4] == '2' && '0' <= s[5] <= '9') || (s[4] == '3' && '0'
        <= s[5] <= '1')
    &&& s[6] == '.'
}

/// A host on the local network, by the beginning of its name or address.
pub open spec fn is_local_host(s: Seq<char>) -> bool {
    ||| "localhost"@.is_prefix_of(s)
    ||| "127."@.is_prefix_of(s)
    ||| "10."@.is_prefix_of(s)
    ||| "192.168."@.is_prefix_of(s)
    ||| is_private_172(s)
    ||| "169.254."@.is_prefix_of(s)
    ||| "::1"@.is_prefix_of(s)
    ||| "0:0:0:0:0:0:0:1"@.is_prefix_of(s)
    ||| "fc"@.is_prefix_of(s)
    ||| "fd"@.is_prefix_of(s)
}

pub fn host_is_local(s: &str) -> (r: bool)
    ensures
        r == is_local_host(s@),
{
    if crate::text::has_prefix(s, "localhost") || crate::text::has_prefix(s, "127.")
        || crate::text::has_prefix(s, "10.") || crate::text::has_prefix(s, "192.168.")
        || crate::text::has_prefix(s, "169.254.") || crate::text::has_prefix(s, "::1")
        || crate::text::has_prefix(s, "0:0:0:0:0:0:0:1") || crate::text::has_prefix(s, "fc")
        || crate::text::has_prefix(s, "fd") {
        return true;
    }
    let cs = crate::text::to_chars(s);
    if cs.len() < 7 {
        return false;
    }
    let start = crate::text::substring(&cs, 0, 4);
    assert(start@ =~= s@.take(4));
    let a = cs[4];
    let b = cs[5];
    crate::text::str_eq(start.as_str(), "172.") && ((a == '1' && b >= '6' && b <= '9') || (a == '2' && b
        >= '0' && b <= '9') || (a == '3' && b >= '0' && b <= '1')) && cs[6] == '.'
}

/// Whether admission must enforce the normal connection limit.
#[derive(Debug, Clone, Copy, PartialEq, Eq, Structural)]
pub enum AdmissionClass {
    Exempt,
    Limited,
}

/// Address facts fixed when an inbound session is accepted.
#[derive(Debug, Clone, Copy)]
pub struct SessionOrigin {
    peer_ip: IpAddr,
    is_local: bool,
}

impl SessionOrigin {
    pub closed spec fn ip(&self) -> crate::ip::IpView {
        self.peer_ip@
    }

    pub closed spec fn local(&self) -> bool {
        self.is_local
    }

    /// An address is taken in its normal form; it is local by its text or where it is the
    /// client's own.
    pub fn from_remote_addr(remote: IpAddr, config: &Config) -> (r: Self)
        ensures
            r.ip() == crate::ip::normalized(remote@),
            r.local() == (is_local_host(crate::ip::ip_text(r.ip())) || config.client_host@
                == crate::ip::ip_text(r.ip())),
    {
        let peer_ip = crate::ip::normalize_ip(remote);
        let host = peer_ip.to_text();
        let is_local = host_is_local(host.as_str()) || crate::text::str_eq(
            config.client_host.as_str(),
            host.as_str(),
        );
        SessionOrigin { peer_ip, is_local }
    }

    pub fn peer_ip(self) -> (r: IpAddr)
        ensures
            r@ == self.ip(),
    {
        self.peer_ip
    }

    pub fn is_local(self) -> (r: bool)
        ensures
            r == self.local(),
    {
        self.is_local
    }

    pub fn admission_class(self, rpc_authorized: bool) -> (r: AdmissionClass)
        ensures
            r == (if self.local() || rpc_authorized {
                AdmissionClass::Exempt
            } else {
                AdmissionClass::Limited
            }),
    {
        if self.is_local || rpc_authorized {
            AdmissionClass::Exempt
        } else {
            AdmissionClass::Limited
        }
    }
}

/// Whether an address may send server commands: it is a server's, or nobody asks.
pub open spec fn is_authorized(
    ip: crate::ip::IpView,
    servers: Seq<crate::ip::IpView>,
    check_disabled: bool,
) -> bool {
    check_disabled || servers.contains(ip)
}

/// Whether an address may send server commands, by the current settings: a persistent
/// session can observe refreshed settings for a later request.
pub fn is_rpc_authorized(peer_ip: IpAddr, config: &Config) -> (r: bool)
    ensures
        r == is_authorized(peer_ip@, config@.rpc_servers, config.disable_ip_origin_check),
{
    if config.disable_ip_origin_check {
        return true;
    }
    let ghost servers = config@.rpc_servers;
    let mut i: usize = 0;
    while i < config.rpc_servers.len()
        invariant
            i <= config.rpc_servers.len(),
            servers == crate::ip::views(config.rpc_servers@),
            servers == config@.rpc_servers,
            !config.disable_ip_origin_check,
            forall|j: int| 0 <= j < i ==> (#[trigger] servers[j]) != peer_ip@,
        decreases config.rpc_servers.len() - i,
    {
        if config.rpc_servers[i].same(&peer_ip) {
            assert(servers[i as int] == peer_ip@);
            return true;
        }
        i += 1;
    }
    false
}

} // verus!
