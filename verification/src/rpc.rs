//! Calls to the server: signed queries, URLs, and the form of its answers.

use vstd::prelude::*;
use crate::config::Config;
use crate::error::{ErrorView, HathError};

verus! {

pub const CLIENT_BUILD: i32 = 178;

pub const CLIENT_VERSION: &'static str = "1.6.5";

#[derive(Debug, Clone, Copy, PartialEq, Eq, Structural)]
pub enum Action {
    ServerStat,
    ClientLogin,
    ClientSettings,
    ClientStart,
    ClientSuspend,
    ClientResume,
    ClientStop,
    StillAlive,
    GetBlacklist,
    GetCertificate,
    StaticRangeFetch,
    GalleryQueueFetch,
    DownloaderFetch,
    DownloaderFailreport,
    Overload,
}

/// The name of an action in a query.
pub open spec fn action_name(a: Action) -> Seq<char> {
    match a {
        Action::ServerStat => "server_stat"@,
        Action::ClientLogin => "client_login"@,
        Action::ClientSettings => "client_settings"@,
        Action::ClientStart => "client_start"@,
        Action::ClientSuspend => "client_suspend"@,
        Action::ClientResume => "client_resume"@,
        Action::ClientStop => "client_stop"@,
        Action::StillAlive => "still_alive"@,
        Action::GetBlacklist => "get_blacklist"@,
        Action::GetCertificate => "get_cert"@,
        Action::StaticRangeFetch => "srfetch"@,
        Action::GalleryQueueFetch => "fetchqueue"@,
        Action::DownloaderFetch => "dlfetch"@,
        Action::DownloaderFailreport => "dlfails"@,
        Action::Overload => "overload"@,
    }
}

/// The calls that are made once more after the server says that the key has expired.
pub open spec fn retries_expired_key(a: Action) -> bool {
    a is ClientLogin || a is ClientSettings || a is ClientStart || a is ClientSuspend
        || a is ClientResume || a is ClientStop || a is Overload
}

impl Action {
    /// The first call of all sets the clock; until then no query can be signed.
    pub fn needs_signing(self) -> (r: bool)
        ensures
            r == !(self is ServerStat),
    {
        match self {
            Action::ServerStat => false,
            _ => true,
        }
    }

    /// Whether the call is made once more after the server says that the key has expired.
    pub fn supports_key_expired_retry(self) -> (r: bool)
        ensures
            r == retries_expired_key(self),
    {
        match self {
            Action::ClientLogin
            | Action::ClientSettings
            | Action::ClientStart
            | Action::ClientSuspend
            | Action::ClientResume
            | Action::ClientStop
            | Action::Overload => true,
            _ => false,
        }
    }

    /// The name of the action in a query.
    pub fn name(self) -> (r: &'static str)
        ensures
            r@ == action_name(self),
    {
        match self {
            Action::ServerStat => "server_stat",
            Action::ClientLogin => "client_login",
            Action::ClientSettings => "client_settings",
            Action::ClientStart => "client_start",
            Action::ClientSuspend => "client_suspend",
            Action::ClientResume => "client_resume",
            Action::ClientStop => "client_stop",
            Action::StillAlive => "still_alive",
            Action::GetBlacklist => "get_blacklist",
            Action::GetCertificate => "get_cert",
            Action::StaticRangeFetch => "srfetch",
            Action::GalleryQueueFetch => "fetchqueue",
            Action::DownloaderFetch => "dlfetch",
            Action::DownloaderFailreport => "dlfails",
            Action::Overload => "overload",
        }
    }
}

/// The text that the key of a query is the SHA-1 digest of.
pub open spec fn signed_text(
    act: Action,
    add: Seq<char>,
    id: u32,
    time: i64,
    key: Seq<char>,
) -> Seq<char> {
    "hentai@home-"@ + action_name(act) + "-"@ + add + "-"@ + crate::number::decimal(id as nat) + "-"@
        + crate::number::signed_decimal(time as int) + "-"@ + key
}

/// The query of a call that is signed with `actkey`.
pub open spec fn signed_query(
    act: Action,
    add: Seq<char>,
    id: u32,
    time: i64,
    actkey: Seq<char>,
) -> Seq<char> {
    "clientbuild="@ + crate::number::decimal(178) + "&act="@ + action_name(act) + "&add="@ + add
        + "&cid="@ + crate::number::decimal(id as nat) + "&acttime="@
        + crate::number::signed_decimal(time as int) + "&actkey="@ + actkey
}

/// The query of a call at the server's time `time`.
pub open spec fn rpc_query(act: Action, add: Seq<char>, id: u32, time: i64, key: Seq<char>) -> Seq<
    char,
> {
    if act is ServerStat {
        "clientbuild="@ + crate::number::decimal(178) + "&act="@ + action_name(act)
    } else {
        signed_query(
            act,
            add,
            id,
            time,
            crate::utils::sha1_text(
                vstd::utf8::encode_utf8(signed_text(act, add, id, time, key)),
            ),
        )
    }
}

/// Construct the signed RPC URL query string. The clock is read for the signature.
pub fn make_rpc_query(act: Action, add: &str, config: &Config) -> (r: String)
    ensures
        exists|now: i64|
            0 <= now && r@ == #[trigger] rpc_query(
                act,
                add@,
                config.client_id.0,
                now.wrapping_add(config.server_time_delta),
                config.client_key@,
            ),
{
    let time: i64 = config.server_time();
    make_rpc_query_at(act, add, config, time)
}

/// The query of a call at the server's time `time`.
pub fn make_rpc_query_at(act: Action, add: &str, config: &Config, time: i64) -> (r: String)
    ensures
        r@ == rpc_query(act, add@, config.client_id.0, time, config.client_key@),
{
    if !act.needs_signing() {
        let mut out = String::from_str("clientbuild=");
        crate::number::push_decimal(&mut out, CLIENT_BUILD as u64);
        out.append("&act=");
        out.append(act.name());
        return out;
    }
    let mut plain = String::from_str("hentai@home-");
    plain.append(act.name());
    plain.append("-");
    plain.append(add);
    plain.append("-");
    crate::number::push_decimal(&mut plain, config.client_id.0 as u64);
    plain.append("-");
    plain.append(crate::number::signed_decimal_string(time).as_str());
    plain.append("-");
    plain.append(config.client_key.as_str());
    let actkey = crate::utils::sha1_string(plain.as_str());
    make_signed_query(act, add, config.client_id.0, time, actkey.as_str())
}

/// The query of a call that is signed with `actkey`.
pub fn make_signed_query(act: Action, add: &str, id: u32, time: i64, actkey: &str) -> (r: String)
    ensures
        r@ == signed_query(act, add@, id, time, actkey@),
{
    let mut out = String::from_str("clientbuild=");
    crate::number::push_decimal(&mut out, CLIENT_BUILD as u64);
    out.append("&act=");
    out.append(act.name());
    out.append("&add=");
    out.append(add);
    out.append("&cid=");
    crate::number::push_decimal(&mut out, id as u64);
    out.append("&acttime=");
    out.append(crate::number::signed_decimal_string(time).as_str());
    out.append("&actkey=");
    out.append(actkey);
    out
}

/// What the steps of putting a URL together say when they fail.
pub open spec fn url_error(e: crate::url::BuildErrorView) -> ErrorView {
    match e {
        crate::url::BuildErrorView::Base(m) => ErrorView::Rpc("invalid URL base: "@ + m),
        crate::url::BuildErrorView::Scheme => ErrorView::Rpc("invalid URL scheme"@),
        crate::url::BuildErrorView::Host => ErrorView::Rpc("invalid URL host"@),
        crate::url::BuildErrorView::HostName(m) => ErrorView::Rpc("invalid URL host: "@ + m),
        crate::url::BuildErrorView::Port => ErrorView::Rpc("invalid URL port"@),
    }
}

/// What the steps of putting a URL together say when they fail.
pub fn make_url_error(e: crate::url::BuildError) -> (r: HathError)
    ensures
        r@ == url_error(e@),
{
    match e {
        crate::url::BuildError::Base(m) => HathError::Rpc(
            crate::text::concat("invalid URL base: ", m.as_str()),
        ),
        crate::url::BuildError::Scheme => HathError::Rpc(String::from_str("invalid URL scheme")),
        crate::url::BuildError::Host => HathError::Rpc(String::from_str("invalid URL host")),
        crate::url::BuildError::HostName(m) => HathError::Rpc(
            crate::text::concat("invalid URL host: ", m.as_str()),
        ),
        crate::url::BuildError::Port => HathError::Rpc(String::from_str("invalid URL port")),
    }
}

/// The port as it stands in a URL: the usual one does not.
pub open spec fn port_in_url(port: u16) -> Option<u16> {
    if port == 80 {
        None
    } else {
        Some(port)
    }
}

/// The URL of a call.
pub open spec fn rpc_url(host: Seq<char>, port: u16, path: Seq<char>, query: Seq<char>) -> Result<
    Seq<char>,
    ErrorView,
> {
    match crate::url::with_authority("http://rpc.hentaiathome.net/"@, None, host, port_in_url(port)) {
        Ok(u) => match crate::url::with_path(u, crate::text::trim_end_of(path, '?', '?')) {
            Ok(p) => match crate::url::with_query(p, query) {
                Ok(q) => Ok(q),
                Err(e) => Err(url_error(e)),
            },
            Err(e) => Err(url_error(e)),
        },
        Err(e) => Err(url_error(e)),
    }
}

/// Build the full RPC URL for a given action. The clock is read for the signature.
pub fn make_rpc_url(act: Action, add: &str, config: &Config, host: &str) -> (r: Result<
    String,
    HathError,
>)
    ensures
        exists|now: i64|
            0 <= now && {
                let query = #[trigger] rpc_query(
                    act,
                    add@,
                    config.client_id.0,
                    now.wrapping_add(config.server_time_delta),
                    config.client_key@,
                );
                match r {
                    Ok(u) => rpc_url(host@, config.rpc_port, config.rpc_path@, query) == Ok::<
                        Seq<char>,
                        ErrorView,
                    >(u@),
                    Err(e) => rpc_url(host@, config.rpc_port, config.rpc_path@, query) == Err::<
                        Seq<char>,
                        ErrorView,
                    >(e@),
                }
            },
{
    let time: i64 = config.server_time();
    make_rpc_url_at(act, add, config, host, time)
}

/// The URL of a call at the server's time `time`.
pub fn make_rpc_url_at(act: Action, add: &str, config: &Config, host: &str, time: i64) -> (r: Result<
    String,
    HathError,
>)
    ensures
        ({
            let query = rpc_query(act, add@, config.client_id.0, time, config.client_key@);
            match r {
                Ok(u) => rpc_url(host@, config.rpc_port, config.rpc_path@, query) == Ok::<
                    Seq<char>,
                    ErrorView,
                >(u@),
                Err(e) => rpc_url(host@, config.rpc_port, config.rpc_path@, query) == Err::<
                    Seq<char>,
                    ErrorView,
                >(e@),
            }
        }),
{
    let query = make_rpc_query_at(act, add, config, time);
    let port: Option<u16> = if config.rpc_port == 80 {
        None
    } else {
        Some(config.rpc_port)
    };
    match crate::url::build_authority("http://rpc.hentaiathome.net/", None, host, port) {
        Ok(u) => {
            let path = crate::text::trimmed_end_of(config.rpc_path.as_str(), '?', '?');
            match crate::url::put_path(u.as_str(), path.as_str()) {
                Ok(p) => match crate::url::put_query(p.as_str(), query.as_str()) {
                    Ok(q) => Ok(q),
                    Err(e) => Err(make_url_error(e)),
                },
                Err(e) => Err(make_url_error(e)),
            }
        },
        Err(e) => Err(make_url_error(e)),
    }
}

/// Build the signed gallery-queue URL. The queue endpoint deliberately does not share
/// the configurable RPC path: the protocol fixes it at /15/dl.
pub fn make_gallery_queue_url(act_add: &str, config: &Config, host: &str) -> (r: Result<
    String,
    HathError,
>)
    ensures
        exists|now: i64|
            0 <= now && {
                let query = #[trigger] rpc_query(
                    Action::GalleryQueueFetch,
                    act_add@,
                    config.client_id.0,
                    now.wrapping_add(config.server_time_delta),
                    config.client_key@,
                );
                match rpc_url(host@, config.rpc_port, config.rpc_path@, query) {
                    Ok(u) => match crate::url::with_path(u, "/15/dl"@) {
                        Ok(p) => r matches Ok(q) && q@ == p,
                        Err(e) => r matches Err(f) && f@ == url_error(e),
                    },
                    Err(e) => r matches Err(f) && f@ == e,
                }
            },
{
    let time: i64 = config.server_time();
    match make_rpc_url_at(Action::GalleryQueueFetch, act_add, config, host, time) {
        Ok(u) => match crate::url::put_path(u.as_str(), "/15/dl") {
            Ok(p) => Ok(p),
            Err(e) => Err(make_url_error(e)),
        },
        Err(e) => Err(e),
    }
}

// ---------------------------------------------------------------------------
// Hosts
// ---------------------------------------------------------------------------

/// The hosts of a list of servers: their addresses as text.
pub open spec fn hosts_of(servers: Seq<crate::ip::IpView>) -> Seq<Seq<char>> {
    Seq::new(servers.len(), |i: int| crate::ip::ip_text(servers[i]))
}

/// `rand::rng().next_u32()`: some number; nothing is promised of it.
#[verifier::external_body]
pub(crate) fn random_u32() -> (r: u32) {
    rand::Rng::next_u32(&mut rand::rng())
}

/// Host used by one-off RPC-shaped downloads that do not take part in the routing, such
/// as certificate fetches. One of several servers is picked at random.
pub fn default_rpc_host(config: &Config) -> (r: String)
    ensures
        config.rpc_servers@.len() == 0 ==> r@ == "rpc.hentaiathome.net"@,
        config.rpc_servers@.len() > 0 ==> hosts_of(config@.rpc_servers).contains(r@),
{
    let n: u32 = random_u32();
    let r = default_rpc_host_for(config, n);
    proof {
        if config.rpc_servers@.len() > 0 {
            let k = n as int % config.rpc_servers@.len() as int;
            assert(hosts_of(config@.rpc_servers)[k] == r@);
        }
    }
    r
}

/// The host that the number `n` picks.
pub fn default_rpc_host_for(config: &Config, n: u32) -> (r: String)
    ensures
        r@ == (if config.rpc_servers@.len() == 0 {
            "rpc.hentaiathome.net"@
        } else {
            hosts_of(config@.rpc_servers)[n as int % config.rpc_servers@.len() as int]
        }),
{
    let len: usize = config.rpc_servers.len();
    if len == 0 {
        return String::from_str("rpc.hentaiathome.net");
    }
    let i: usize = n as usize % len;
    config.rpc_servers[i].to_text()
}

// ---------------------------------------------------------------------------
// Answers
// ---------------------------------------------------------------------------

#[derive(Debug, Clone, Copy, PartialEq, Eq, Structural)]
pub enum ResponseStatus {
    Okay,
    Fail,
    Null,
}

#[derive(Debug)]
pub struct ServerResponse {
    pub status: ResponseStatus,
    pub lines: Vec<String>,
    pub fail_code: Option<String>,
    pub fail_host: Option<String>,
}

/// An answer with its texts as characters.
pub ghost struct ResponseView {
    pub status: ResponseStatus,
    pub lines: Seq<Seq<char>>,
    pub fail_code: Option<Seq<char>>,
    pub fail_host: Option<Seq<char>>,
}

impl View for ServerResponse {
    type V = ResponseView;

    open spec fn view(&self) -> ResponseView {
        ResponseView {
            status: self.status,
            lines: crate::text::texts(self.lines@),
            fail_code: crate::text::opt_text(self.fail_code),
            fail_host: crate::text::opt_text(self.fail_host),
        }
    }
}

/// What an answer says by its first line. `host` is the host that it came from, in lower
/// case.
pub open spec fn response_of(body: Seq<char>, host: Seq<char>) -> ResponseView {
    let lines = crate::text::lines(body);
    if lines.len() == 0 {
        ResponseView {
            status: ResponseStatus::Null,
            lines: seq![],
            fail_code: Some("NO_RESPONSE"@),
            fail_host: Some(host),
        }
    } else if lines[0] == "OK"@ {
        ResponseView {
            status: ResponseStatus::Okay,
            lines: lines.skip(1),
            fail_code: None,
            fail_host: None,
        }
    } else if "TEMPORARILY_UNAVAILABLE"@.is_prefix_of(lines[0]) {
        ResponseView {
            status: ResponseStatus::Null,
            lines: seq![],
            fail_code: Some(lines[0]),
            fail_host: Some(host),
        }
    } else {
        ResponseView {
            status: ResponseStatus::Fail,
            lines: seq![],
            fail_code: Some(lines[0]),
            fail_host: Some(host),
        }
    }
}

/// Parse the raw string response from an RPC call.
pub fn parse_server_response(body: &str, request_host: &str) -> (r: ServerResponse)
    ensures
        r@ == response_of(body@, crate::text::lower(request_host@)),
{
    let lines = crate::text::split_lines(body);
    let ghost all = crate::text::texts(lines@);
    let host = crate::text::to_lowercase(request_host);
    let none: Vec<String> = Vec::new();
    assert(crate::text::texts(none@) =~= seq![]);
    if lines.len() == 0 {
        return ServerResponse {
            status: ResponseStatus::Null,
            lines: none,
            fail_code: Some(String::from_str("NO_RESPONSE")),
            fail_host: Some(host),
        };
    }
    let first = lines[0].as_str();
    assert(all[0] == first@);
    if crate::text::str_eq(first, "OK") {
        return ServerResponse {
            status: ResponseStatus::Okay,
            lines: crate::text::copy_from(&lines, 1),
            fail_code: None,
            fail_host: None,
        };
    }
    let status = if crate::text::has_prefix(first, "TEMPORARILY_UNAVAILABLE") {
        ResponseStatus::Null
    } else {
        ResponseStatus::Fail
    };
    ServerResponse {
        status,
        lines: none,
        fail_code: Some(String::from_str(first)),
        fail_host: Some(host),
    }
}

/// An answer is a success exactly where its first line is OK; then it carries the rest of
/// its lines, and otherwise none and a code that says why.
pub proof fn only_ok_carries_lines(body: Seq<char>, host: Seq<char>)
    ensures
        ({
            let r = response_of(body, host);
            let lines = crate::text::lines(body);
            &&& r.status == ResponseStatus::Okay <==> lines.len() > 0 && lines[0] == "OK"@
            &&& r.status == ResponseStatus::Okay ==> r.lines == lines.skip(1)
            &&& r.status != ResponseStatus::Okay ==> r.lines.len() == 0 && r.fail_code is Some
                && r.fail_host == Some(host)
        }),
{
}

} // verus!
