//! What a request asks for, and whether its keys are good.

use vstd::prelude::*;
use crate::config::Config;
use crate::hvfile::HVFile;
use crate::ip::IpAddr;
use crate::utils::Additional;

verus! {

#[derive(Debug)]
#[allow(inconsistent_fields)]
pub enum RequestType {
    FileServe {
        fileid: String,
        hv_file: Option<HVFile>,
        additional: Additional,
        keystamp_valid: bool,
        /// HEAD requests: skip body construction (file read / proxy download).
        head_only: bool,
    },
    ServerCommand { command: String, additional: String, valid: bool },
    SpeedTest {
        testsize: u32,
        valid: bool,
        /// Distinguishes 403 (invalid key) from 400 (malformed URL) when valid=false.
        forbidden: bool,
        /// HEAD requests: skip body generation.
        head_only: bool,
    },
    Favicon,
    Robots,
    NotFound,
    BadRequest,
    MethodNotAllowed,
}

/// A request with its texts as characters; of a file request, the text of its additional
/// segment.
pub ghost enum RequestView {
    FileServe(Seq<char>, Option<crate::hvfile::HVFileView>, Seq<char>, bool, bool),
    ServerCommand(Seq<char>, Seq<char>, bool),
    SpeedTest(u32, bool, bool, bool),
    Favicon,
    Robots,
    NotFound,
    BadRequest,
    MethodNotAllowed,
}

/// Whether a request is the one that is described.
pub open spec fn is_request(r: RequestType, v: RequestView) -> bool {
    match (r, v) {
        (
            RequestType::FileServe { fileid, hv_file, additional, keystamp_valid, head_only },
            RequestView::FileServe(id, file, segment, valid, head),
        ) => {
            &&& fileid@ == id
            &&& file == (match hv_file {
                Some(f) => Some(f@),
                None => None,
            })
            &&& additional.holds(crate::text::split(crate::text::trim(segment), ';'))
            &&& keystamp_valid == valid
            &&& head_only == head
        },
        (
            RequestType::ServerCommand { command, additional, valid },
            RequestView::ServerCommand(c, a, v),
        ) => command@ == c && additional@ == a && valid == v,
        (
            RequestType::SpeedTest { testsize, valid, forbidden, head_only },
            RequestView::SpeedTest(size, v, f, head),
        ) => testsize == size && valid == v && forbidden == f && head_only == head,
        (RequestType::Favicon, RequestView::Favicon) => true,
        (RequestType::Robots, RequestView::Robots) => true,
        (RequestType::NotFound, RequestView::NotFound) => true,
        (RequestType::BadRequest, RequestView::BadRequest) => true,
        (RequestType::MethodNotAllowed, RequestView::MethodNotAllowed) => true,
        _ => false,
    }
}

// ---------------------------------------------------------------------------
// Keys
// ---------------------------------------------------------------------------

/// The distance between two times.
pub open spec fn distance(a: i64, b: i64) -> int {
    if a < b {
        b - a
    } else {
        a - b
    }
}

/// The text that is given, if one is.
pub open spec fn given_text(s: Option<&str>) -> Option<Seq<char>> {
    match s {
        Some(t) => Some(t@),
        None => None,
    }
}

/// The digest whose beginning is the key of a file request.
pub open spec fn keystamp_digest(time: int, fileid: Seq<char>, key: Seq<char>) -> Seq<char> {
    crate::utils::sha1_text(
        vstd::utf8::encode_utf8(
            crate::number::signed_decimal(time) + "-"@ + fileid + "-"@ + key + "-hotlinkthis"@,
        ),
    )
}

/// Whether ten bytes of a keystamp begin the digest `digest`, in letters of either case, and
/// its time is less than fifteen minutes away.
pub open spec fn fits_keystamp(time: i64, prefix: Seq<char>, digest: Seq<char>, now: i64) -> bool {
    &&& distance(now, time) < 900
    &&& vstd::utf8::encode_utf8(prefix).len() == 10
    &&& crate::text::ascii_lower(digest.take(10)) == crate::text::ascii_lower(prefix)
}

/// Whether a key is the expected one, and its time at most five minutes away.
pub open spec fn fits_key(time: i64, key: Seq<char>, expected: Seq<char>, now: i64) -> bool {
    distance(time, now) <= 300 && expected == key
}

/// Whether a keystamp is good at the server's time `now`: a time less than fifteen minutes
/// away, a hyphen, and ten bytes that begin the digest, in letters of either case.
pub open spec fn is_keystamp(
    fileid: Seq<char>,
    keystamp: Option<Seq<char>>,
    key: Seq<char>,
    now: i64,
) -> bool {
    match keystamp {
        Some(k) => match crate::text::split_once(k, '-') {
            Some((time, prefix)) => match crate::number::parse_signed(time) {
                Some(t) => fits_keystamp(t as i64, prefix, keystamp_digest(t, fileid, key), now),
                None => false,
            },
            None => false,
        },
        None => false,
    }
}

/// The key of a server command.
pub open spec fn command_key(
    command: Seq<char>,
    additional: Seq<char>,
    id: u32,
    time: int,
    key: Seq<char>,
) -> Seq<char> {
    crate::utils::sha1_text(
        vstd::utf8::encode_utf8(
            "hentai@home-servercmd-"@ + command + "-"@ + additional + "-"@ + crate::number::decimal(
                id as nat,
            ) + "-"@ + crate::number::signed_decimal(time) + "-"@ + key,
        ),
    )
}

/// The key of a speed test.
pub open spec fn speedtest_key(testsize: u32, time: int, id: u32, key: Seq<char>) -> Seq<char> {
    crate::utils::sha1_text(
        vstd::utf8::encode_utf8(
            "hentai@home-speedtest-"@ + crate::number::decimal(testsize as nat) + "-"@
                + crate::number::signed_decimal(time) + "-"@ + crate::number::decimal(id as nat) + "-"@
                + key,
        ),
    )
}

fn times_apart(a: i64, b: i64) -> (r: i128)
    ensures
        r == distance(a, b),
{
    if a < b {
        b as i128 - a as i128
    } else {
        a as i128 - b as i128
    }
}

/// Validate keystamp for /h/ requests. The clock is read.
pub fn validate_keystamp(fileid: &str, keystamp: Option<&str>, config: &Config) -> (r: bool)
    ensures
        exists|now: i64|
            0 <= now && r == #[trigger] is_keystamp(
                fileid@,
                given_text(keystamp),
                config.client_key@,
                now.wrapping_add(config.server_time_delta),
            ),
{
    let now: i64 = config.server_time();
    validate_keystamp_at(fileid, keystamp, config, now)
}

/// Validate keystamp for /h/ requests at the server's time `now`.
pub fn validate_keystamp_at(fileid: &str, keystamp: Option<&str>, config: &Config, now: i64) -> (r: bool)
    ensures
        r == is_keystamp(
            fileid@,
            given_text(keystamp),
            config.client_key@,
            now,
        ),
{
    let k = match keystamp {
        Some(k) => k,
        None => return false,
    };
    let (time_text, prefix) = match crate::text::split_at_char(k, '-') {
        Some(p) => p,
        None => return false,
    };
    let time: i64 = match crate::number::read_i64(time_text.as_str()) {
        Some(t) => t,
        None => return false,
    };
    let mut plain = crate::number::signed_decimal_string(time);
    plain.append("-");
    plain.append(fileid);
    plain.append("-");
    plain.append(config.client_key.as_str());
    plain.append("-hotlinkthis");
    let digest = crate::utils::sha1_string(plain.as_str());
    check_keystamp(time, prefix.as_str(), digest.as_str(), now)
}

/// Whether a keystamp with the given time and beginning of a digest is good, where the digest
/// is `digest`.
pub fn check_keystamp(time: i64, prefix: &str, digest: &str, now: i64) -> (r: bool)
    requires
        digest@.len() >= 10,
    ensures
        r == fits_keystamp(time, prefix@, digest@, now),
{
    if times_apart(now, time) >= 900 {
        return false;
    }
    if prefix.as_bytes().len() != 10 {
        return false;
    }
    let cs = crate::text::to_chars(digest);
    let start = crate::text::substring(&cs, 0, 10);
    assert(start@ =~= digest@.take(10));
    crate::text::eq_ignoring_ascii_case(start.as_str(), prefix)
}

/// Whether a key with the given time is good, where the right key is `expected`.
pub fn check_key(time: i64, key: &str, expected: &str, now: i64) -> (r: bool)
    ensures
        r == fits_key(time, key@, expected@, now),
{
    if times_apart(time, now) > 300 {
        return false;
    }
    crate::text::str_eq(expected, key)
}

/// Whether a server command is good at the server's time `now`: its time is at most five
/// minutes away, and its key is the right one.
pub fn validate_servercmd(
    command: &str,
    additional: &str,
    time: i64,
    key: &str,
    config: &Config,
    now: i64,
) -> (r: bool)
    ensures
        r == fits_key(
            time,
            key@,
            command_key(
                command@,
                additional@,
                config.client_id.0,
                time as int,
                config.client_key@,
            ),
            now,
        ),
{
    let mut plain = String::from_str("hentai@home-servercmd-");
    plain.append(command);
    plain.append("-");
    plain.append(additional);
    plain.append("-");
    crate::number::push_decimal(&mut plain, config.client_id.0 as u64);
    plain.append("-");
    plain.append(crate::number::signed_decimal_string(time).as_str());
    plain.append("-");
    plain.append(config.client_key.as_str());
    let expected = crate::utils::sha1_string(plain.as_str());
    check_key(time, key, expected.as_str(), now)
}

/// Whether a speed test is good at the server's time `now`.
pub fn validate_speedtest(testsize: u32, testtime: i64, testkey: &str, config: &Config, now: i64) -> (r:
    bool)
    ensures
        r == fits_key(
            testtime,
            testkey@,
            speedtest_key(testsize, testtime as int, config.client_id.0, config.client_key@),
            now,
        ),
{
    let mut plain = String::from_str("hentai@home-speedtest-");
    crate::number::push_decimal(&mut plain, testsize as u64);
    plain.append("-");
    plain.append(crate::number::signed_decimal_string(testtime).as_str());
    plain.append("-");
    crate::number::push_decimal(&mut plain, config.client_id.0 as u64);
    plain.append("-");
    plain.append(config.client_key.as_str());
    let expected = crate::utils::sha1_string(plain.as_str());
    check_key(testtime, testkey, expected.as_str(), now)
}

// ---------------------------------------------------------------------------
// Requests
// ---------------------------------------------------------------------------

/// A target without the scheme and host of an absolute URI.
pub open spec fn relative_target(s: Seq<char>) -> Seq<char> {
    if "http://"@.is_prefix_of(s) {
        let rest = s.skip("http://"@.len() as int);
        let i = crate::text::index_of(rest, '/');
        if i < rest.len() {
            rest.skip(i)
        } else {
            "/"@
        }
    } else {
        s
    }
}

/// The parts of a target between its slashes, with encoded equals signs decoded.
pub open spec fn target_parts(s: Seq<char>) -> Seq<Seq<char>> {
    crate::text::split(crate::text::replace(relative_target(s), "%3d"@, "="@), '/')
}

/// The number that a text writes, or zero.
pub open spec fn time_or_zero(s: Seq<char>) -> int {
    match crate::number::parse_signed(s) {
        Some(t) => t,
        None => 0,
    }
}

/// The size that a text writes, or zero.
pub open spec fn size_or_zero(s: Seq<char>) -> u32 {
    match crate::number::parse_unsigned(s, u32::MAX as nat) {
        Some(n) => n as u32,
        None => 0,
    }
}

/// A request for a file.
pub open spec fn file_request(
    p: Seq<Seq<char>>,
    c: crate::config::ConfigView,
    head: bool,
    now: i64,
) -> RequestView {
    if p.len() < 4 {
        RequestView::BadRequest
    } else {
        RequestView::FileServe(
            p[2],
            crate::hvfile::file_of(p[2]),
            p[3],
            is_keystamp(p[2], crate::utils::additional_value(p[3], "keystamp"@), c.client_key, now),
            head,
        )
    }
}

/// A server command: it is good where it comes from a server and its key is right.
pub open spec fn command_request(
    p: Seq<Seq<char>>,
    ip: crate::ip::IpView,
    c: crate::config::ConfigView,
    now: i64,
) -> RequestView {
    if p.len() < 6 {
        RequestView::ServerCommand(seq![], seq![], false)
    } else {
        let time = time_or_zero(p[4]);
        RequestView::ServerCommand(
            p[2],
            p[3],
            crate::server::peer::is_authorized(ip, c.rpc_servers, c.disable_ip_origin_check) && distance(
                time as i64,
                now,
            ) <= 300 && command_key(p[2], p[3], c.client_id, time, c.client_key) == p[5],
        )
    }
}

/// A speed test.
pub open spec fn speedtest_request(
    p: Seq<Seq<char>>,
    c: crate::config::ConfigView,
    head: bool,
    now: i64,
) -> RequestView {
    if p.len() < 5 {
        RequestView::SpeedTest(0, false, false, head)
    } else {
        let size = size_or_zero(p[2]);
        let time = time_or_zero(p[3]);
        let valid = distance(time as i64, now) <= 300 && speedtest_key(
            size,
            time,
            c.client_id,
            c.client_key,
        ) == p[4];
        RequestView::SpeedTest(size, valid, !valid, head)
    }
}

/// What a request by an allowed method asks for.
pub open spec fn target_request(
    target: Seq<char>,
    head: bool,
    ip: crate::ip::IpView,
    c: crate::config::ConfigView,
    now: i64,
) -> RequestView {
    let p = target_parts(target);
    if p.len() < 2 || p[0].len() != 0 {
        RequestView::NotFound
    } else if p[1] == "h"@ {
        file_request(p, c, head, now)
    } else if p[1] == "servercmd"@ {
        command_request(p, ip, c, now)
    } else if p[1] == "t"@ {
        speedtest_request(p, c, head, now)
    } else if p.len() == 2 && p[1] == "favicon.ico"@ {
        RequestView::Favicon
    } else if p.len() == 2 && p[1] == "robots.txt"@ {
        RequestView::Robots
    } else {
        RequestView::NotFound
    }
}

/// What a request asks for.
pub open spec fn request_of(
    method: Seq<char>,
    target: Seq<char>,
    ip: crate::ip::IpView,
    c: crate::config::ConfigView,
    now: i64,
) -> RequestView {
    let upper = crate::text::upper(method);
    if upper == "GET"@ || upper == "HEAD"@ {
        target_request(
            target,
            crate::text::ascii_lower(method) == crate::text::ascii_lower("HEAD"@),
            ip,
            c,
            now,
        )
    } else {
        RequestView::MethodNotAllowed
    }
}

/// What a request asks for. The clock is read for its keys.
pub fn parse_request(method: &str, path_and_query: &str, client_ip: IpAddr, config: &Config) -> (r:
    RequestType)
    ensures
        exists|now: i64|
            0 <= now && is_request(
                r,
                #[trigger] request_of(
                    method@,
                    path_and_query@,
                    client_ip@,
                    config@,
                    now.wrapping_add(config.server_time_delta),
                ),
            ),
{
    let now: i64 = config.server_time();
    parse_request_at(method, path_and_query, client_ip, config, now)
}

/// What a request asks for at the server's time `now`.
pub fn parse_request_at(
    method: &str,
    path_and_query: &str,
    client_ip: IpAddr,
    config: &Config,
    now: i64,
) -> (r: RequestType)
    ensures
        is_request(r, request_of(method@, path_and_query@, client_ip@, config@, now)),
{
    let upper = crate::text::to_uppercase(method);
    if !crate::text::str_eq(upper.as_str(), "GET") && !crate::text::str_eq(upper.as_str(), "HEAD") {
        return RequestType::MethodNotAllowed;
    }
    let head_only = crate::text::eq_ignoring_ascii_case(method, "HEAD");
    parse_target(path_and_query, head_only, client_ip, config, now)
}

fn make_relative(s: &str) -> (r: String)
    ensures
        r@ == relative_target(s@),
{
    match crate::text::after_prefix(s, "http://") {
        Some(rest) => {
            let cs = crate::text::to_chars(rest.as_str());
            let i = crate::text::find_from(&cs, 0, '/');
            assert(cs@.skip(0) =~= rest@);
            if i < cs.len() {
                let t = crate::text::substring(&cs, i, cs.len());
                assert(t@ =~= rest@.skip(i as int));
                t
            } else {
                String::from_str("/")
            }
        },
        None => String::from_str(s),
    }
}

/// What a request by an allowed method asks for at the server's time `now`.
pub fn parse_target(target: &str, head_only: bool, client_ip: IpAddr, config: &Config, now: i64) -> (r:
    RequestType)
    ensures
        is_request(r, target_request(target@, head_only, client_ip@, config@, now)),
{
    let relative = make_relative(target);
    proof {
        reveal_strlit("%3d");
    }
    let decoded = crate::text::replaced(relative.as_str(), "%3d", "=");
    let parts = crate::text::split_on(decoded.as_str(), '/');
    let ghost p = crate::text::texts(parts@);
    if parts.len() < 2 || !parts[0].as_str().is_empty() {
        return RequestType::NotFound;
    }
    let word = parts[1].as_str();
    if crate::text::str_eq(word, "h") {
        return parse_file_serve(&parts, config, head_only, now);
    }
    if crate::text::str_eq(word, "servercmd") {
        return parse_server_command(&parts, client_ip, config, now);
    }
    if crate::text::str_eq(word, "t") {
        return parse_speed_test(&parts, config, head_only, now);
    }
    if parts.len() == 2 && crate::text::str_eq(word, "favicon.ico") {
        return RequestType::Favicon;
    }
    if parts.len() == 2 && crate::text::str_eq(word, "robots.txt") {
        return RequestType::Robots;
    }
    RequestType::NotFound
}

fn parse_file_serve(parts: &Vec<String>, config: &Config, head_only: bool, now: i64) -> (r: RequestType)
    ensures
        is_request(r, file_request(crate::text::texts(parts@), config@, head_only, now)),
{
    if parts.len() < 4 {
        return RequestType::BadRequest;
    }
    let ghost p = crate::text::texts(parts@);
    let fileid = parts[2].clone();
    let hv_file = HVFile::from_fileid(fileid.as_str());
    let additional = crate::utils::parse_additional(parts[3].as_str());
    let keystamp = match &additional.keystamp {
        Some(k) => Some(k.as_str()),
        None => None,
    };
    let keystamp_valid = validate_keystamp_at(fileid.as_str(), keystamp, config, now);
    assert(p[3] == parts@[3]@);
    assert(crate::utils::additional_value(p[3], "keystamp"@) == crate::text::opt_text(
        additional.keystamp,
    ));
    RequestType::FileServe { fileid, hv_file, additional, keystamp_valid, head_only }
}

fn read_time(s: &str) -> (r: i64)
    ensures
        r == time_or_zero(s@),
{
    match crate::number::read_i64(s) {
        Some(t) => t,
        None => 0,
    }
}

fn parse_server_command(parts: &Vec<String>, client_ip: IpAddr, config: &Config, now: i64) -> (r:
    RequestType)
    ensures
        is_request(r, command_request(crate::text::texts(parts@), client_ip@, config@, now)),
{
    let ghost p = crate::text::texts(parts@);
    if parts.len() < 6 {
        return RequestType::ServerCommand {
            command: String::new(),
            additional: String::new(),
            valid: false,
        };
    }
    let is_from_rpc = crate::server::peer::is_rpc_authorized(client_ip, config);
    let time: i64 = read_time(parts[4].as_str());
    let valid = is_from_rpc && validate_servercmd(
        parts[2].as_str(),
        parts[3].as_str(),
        time,
        parts[5].as_str(),
        config,
        now,
    );
    RequestType::ServerCommand { command: parts[2].clone(), additional: parts[3].clone(), valid }
}

fn parse_speed_test(parts: &Vec<String>, config: &Config, head_only: bool, now: i64) -> (r: RequestType)
    ensures
        is_request(r, speedtest_request(crate::text::texts(parts@), config@, head_only, now)),
{
    let ghost p = crate::text::texts(parts@);
    if parts.len() < 5 {
        return RequestType::SpeedTest { testsize: 0, valid: false, forbidden: false, head_only };
    }
    let testsize: u32 = match crate::number::read_u32(parts[2].as_str()) {
        Some(n) => n,
        None => 0,
    };
    let time: i64 = read_time(parts[3].as_str());
    let valid = validate_speedtest(testsize, time, parts[4].as_str(), config, now);
    RequestType::SpeedTest { testsize, valid, forbidden: !valid, head_only }
}

/// A server command from an address that is no server's is never good, whatever its key.
pub proof fn commands_are_for_servers_only(
    target: Seq<char>,
    head: bool,
    ip: crate::ip::IpView,
    c: crate::config::ConfigView,
    now: i64,
)
    requires
        !crate::server::peer::is_authorized(ip, c.rpc_servers, c.disable_ip_origin_check),
    ensures
        target_request(target, head, ip, c, now) matches RequestView::ServerCommand(_, _, valid) ==> !valid,
{
}

/// A key that is out of its time is not good, whatever it is.
pub proof fn stale_keys_are_refused(
    fileid: Seq<char>,
    time: i64,
    prefix: Seq<char>,
    key: Seq<char>,
    now: i64,
)
    requires
        distance(now, time) >= 900,
    ensures
        !is_keystamp(
            fileid,
            Some(crate::number::signed_decimal(time as int) + seq!['-'] + prefix),
            key,
            now,
        ),
{
    let t = crate::number::signed_decimal(time as int);
    let k = t + seq!['-'] + prefix;
    crate::number::lemma_parse_signed_decimal(time as int);
    if time >= 0 {
        crate::number::lemma_decimal(time as nat);
        if t.contains('-') {
            let i = choose|i: int| 0 <= i < t.len() && t[i] == '-';
            assert(crate::number::is_digit(t[i]));
        }
        crate::text::lemma_split_first(t, '-', prefix);
    } else {
        crate::text::lemma_index_is(k, '-', 0);
        assert(k.take(0) =~= seq![]);
        let parts = crate::text::split_once(k, '-')->0;
        assert(parts.0 =~= seq![]);
    }
}

} // verus!
