//! The client's settings: from the command line, and from the server.

use vstd::prelude::*;
use crate::error::{ErrorView, HathError};
use crate::ip::IpAddr;
use crate::types::{ClientId, ClientKey};

verus! {

/// The options of the command line.
#[derive(Debug)]
pub struct CliArgs {
    pub client_id: Option<u32>,
    pub client_key: Option<String>,
    pub data_dir: String,
    pub log_dir: String,
    pub cache_dir: String,
    pub temp_dir: String,
    pub download_dir: String,
    pub port: Option<u16>,
    pub verify_cache: Option<bool>,
    pub use_less_memory: Option<bool>,
    pub disable_logging: Option<bool>,
    pub disable_bwm: Option<bool>,
    pub disable_download_bwm: Option<bool>,
    pub disable_file_verification: Option<bool>,
    pub disable_ip_origin_check: Option<bool>,
    pub disable_flood_control: Option<bool>,
    pub skip_free_space_check: Option<bool>,
    pub flush_logs: Option<bool>,
    pub max_connections: Option<u32>,
    pub filesystem_blocksize: Option<u64>,
    pub image_proxy_type: Option<String>,
    pub image_proxy_host: Option<String>,
    pub image_proxy_port: Option<u16>,
}

impl Default for CliArgs {
    /// The options of an empty command line.
    fn default() -> (r: Self)
        ensures
            r.client_id is None,
            r.client_key is None,
            r.data_dir@ == "data"@,
            r.log_dir@ == "log"@,
            r.cache_dir@ == "cache"@,
            r.temp_dir@ == "tmp"@,
            r.download_dir@ == "download"@,
            r.port is None,
            r.verify_cache is None,
            r.use_less_memory is None,
            r.disable_logging is None,
            r.disable_bwm is None,
            r.disable_download_bwm is None,
            r.disable_file_verification is None,
            r.disable_ip_origin_check is None,
            r.disable_flood_control is None,
            r.skip_free_space_check is None,
            r.flush_logs is None,
            r.max_connections is None,
            r.filesystem_blocksize is None,
            r.image_proxy_type is None,
            r.image_proxy_host is None,
            r.image_proxy_port is None,
    {
        CliArgs {
            client_id: None,
            client_key: None,
            data_dir: String::from_str("data"),
            log_dir: String::from_str("log"),
            cache_dir: String::from_str("cache"),
            temp_dir: String::from_str("tmp"),
            download_dir: String::from_str("download"),
            port: None,
            verify_cache: None,
            use_less_memory: None,
            disable_logging: None,
            disable_bwm: None,
            disable_download_bwm: None,
            disable_file_verification: None,
            disable_ip_origin_check: None,
            disable_flood_control: None,
            skip_free_space_check: None,
            flush_logs: None,
            max_connections: None,
            filesystem_blocksize: None,
            image_proxy_type: None,
            image_proxy_host: None,
            image_proxy_port: None,
        }
    }
}

/// What was found of the file `client_login`.
#[derive(Debug)]
pub enum LoginFile {
    Missing,
    /// It is there but cannot be read, for this reason.
    Unreadable(String),
    Content(String),
}

#[derive(Debug, Clone)]
pub struct Config {
    pub client_id: ClientId,
    pub client_key: ClientKey,
    pub data_dir: String,
    pub log_dir: String,
    pub cache_dir: String,
    pub temp_dir: String,
    pub download_dir: String,
    pub client_port: u16,
    pub server_time_delta: i64,
    pub throttle_bytes: u32,
    pub disklimit_bytes: u64,
    pub diskremaining_bytes: u64,
    pub filesystem_blocksize: u64,
    pub max_allowed_filesize: u64,
    pub max_filename_length: u32,
    pub rpc_servers: Vec<IpAddr>,
    pub rpc_port: u16,
    pub rpc_path: String,
    /// Static ranges are only sent on startup, as the client only needs them for startup
    /// cache pruning.
    pub static_ranges: Vec<String>,
    /// Updated independently of `static_ranges` to reflect the current assignment.
    pub static_range_count: u32,
    pub verify_cache: bool,
    pub rescan_cache: bool,
    pub use_less_memory: bool,
    pub disable_logging: bool,
    pub disable_bwm: bool,
    pub disable_download_bwm: bool,
    pub disable_file_verification: bool,
    pub disable_ip_origin_check: bool,
    pub disable_flood_control: bool,
    pub skip_free_space_check: bool,
    pub flush_logs: bool,
    pub warn_new_client: bool,
    pub image_proxy_type: Option<String>,
    pub image_proxy_host: Option<String>,
    pub image_proxy_port: Option<u16>,
    pub client_host: String,
    pub override_conns: u32,
}

/// The settings with their texts as characters.
pub ghost struct ConfigView {
    pub client_id: u32,
    pub client_key: Seq<char>,
    pub data_dir: Seq<char>,
    pub log_dir: Seq<char>,
    pub cache_dir: Seq<char>,
    pub temp_dir: Seq<char>,
    pub download_dir: Seq<char>,
    pub client_port: u16,
    pub server_time_delta: i64,
    pub throttle_bytes: u32,
    pub disklimit_bytes: u64,
    pub diskremaining_bytes: u64,
    pub filesystem_blocksize: u64,
    pub max_allowed_filesize: u64,
    pub max_filename_length: u32,
    pub rpc_servers: Seq<crate::ip::IpView>,
    pub rpc_port: u16,
    pub rpc_path: Seq<char>,
    pub static_ranges: Seq<Seq<char>>,
    pub static_range_count: u32,
    pub verify_cache: bool,
    pub rescan_cache: bool,
    pub use_less_memory: bool,
    pub disable_logging: bool,
    pub disable_bwm: bool,
    pub disable_download_bwm: bool,
    pub disable_file_verification: bool,
    pub disable_ip_origin_check: bool,
    pub disable_flood_control: bool,
    pub skip_free_space_check: bool,
    pub flush_logs: bool,
    pub warn_new_client: bool,
    pub image_proxy_type: Option<Seq<char>>,
    pub image_proxy_host: Option<Seq<char>>,
    pub image_proxy_port: Option<u16>,
    pub client_host: Seq<char>,
    pub override_conns: u32,
}

impl View for Config {
    type V = ConfigView;

    open spec fn view(&self) -> ConfigView {
        ConfigView {
            client_id: self.client_id.0,
            client_key: self.client_key@,
            data_dir: self.data_dir@,
            log_dir: self.log_dir@,
            cache_dir: self.cache_dir@,
            temp_dir: self.temp_dir@,
            download_dir: self.download_dir@,
            client_port: self.client_port,
            server_time_delta: self.server_time_delta,
            throttle_bytes: self.throttle_bytes,
            disklimit_bytes: self.disklimit_bytes,
            diskremaining_bytes: self.diskremaining_bytes,
            filesystem_blocksize: self.filesystem_blocksize,
            max_allowed_filesize: self.max_allowed_filesize,
            max_filename_length: self.max_filename_length,
            rpc_servers: crate::ip::views(self.rpc_servers@),
            rpc_port: self.rpc_port,
            rpc_path: self.rpc_path@,
            static_ranges: crate::text::texts(self.static_ranges@),
            static_range_count: self.static_range_count,
            verify_cache: self.verify_cache,
            rescan_cache: self.rescan_cache,
            use_less_memory: self.use_less_memory,
            disable_logging: self.disable_logging,
            disable_bwm: self.disable_bwm,
            disable_download_bwm: self.disable_download_bwm,
            disable_file_verification: self.disable_file_verification,
            disable_ip_origin_check: self.disable_ip_origin_check,
            disable_flood_control: self.disable_flood_control,
            skip_free_space_check: self.skip_free_space_check,
            flush_logs: self.flush_logs,
            warn_new_client: self.warn_new_client,
            image_proxy_type: crate::text::opt_text(self.image_proxy_type),
            image_proxy_host: crate::text::opt_text(self.image_proxy_host),
            image_proxy_port: self.image_proxy_port,
            client_host: self.client_host@,
            override_conns: self.override_conns,
        }
    }
}

// ---------------------------------------------------------------------------
// Settings of the server
// ---------------------------------------------------------------------------

/// What became of a setting.
#[derive(Debug, Clone, Copy, PartialEq, Eq, Structural)]
pub enum SettingOutcome {
    Applied,
    Unknown,
    /// The server asks for this build or a later one: the client must stop.
    ClientTooOld(i32),
}

/// The number that a text writes, or another.
pub open spec fn number_or(s: Seq<char>, max: nat, otherwise: nat) -> nat {
    match crate::number::parse_unsigned(s, max) {
        Some(n) => n,
        None => otherwise,
    }
}

/// The build that a text names, where it is above `than`.
pub open spec fn build_above(s: Seq<char>, than: int) -> Option<int> {
    match crate::number::parse_signed(s) {
        Some(n) => if i32::MIN <= n <= i32::MAX && n > than {
            Some(n)
        } else {
            None
        },
        None => None,
    }
}

/// The addresses that the pieces write, without the pieces that write none.
pub open spec fn servers_in(pieces: Seq<Seq<char>>) -> Seq<crate::ip::IpView>
    decreases pieces.len(),
{
    if pieces.len() == 0 {
        seq![]
    } else {
        match crate::ip::parse_ip(crate::text::trim(pieces.last())) {
            Some(ip) => servers_in(pieces.drop_last()).push(crate::ip::normalized(ip)),
            None => servers_in(pieces.drop_last()),
        }
    }
}

/// The pieces of four bytes, each once, in the order of their first place.
pub open spec fn ranges_in(pieces: Seq<Seq<char>>) -> Seq<Seq<char>>
    decreases pieces.len(),
{
    if pieces.len() == 0 {
        seq![]
    } else {
        let before = ranges_in(pieces.drop_last());
        if vstd::utf8::encode_utf8(pieces.last()).len() == 4 && !before.contains(pieces.last()) {
            before.push(pieces.last())
        } else {
            before
        }
    }
}

/// A host: an address in its normal form, or a name as it is.
pub open spec fn host_of(s: Seq<char>) -> Seq<char> {
    match crate::ip::parse_ip(s) {
        Some(ip) => crate::ip::ip_text(crate::ip::normalized(ip)),
        None => s,
    }
}

/// `n` brought between two bounds.
pub open spec fn clamped(n: nat, low: nat, high: nat) -> nat {
    if n < low {
        low
    } else if n > high {
        high
    } else {
        n
    }
}

/// Whether a value says that something is on.
#[verifier::opaque]
pub open spec fn says_true(value: Seq<char>) -> bool {
    value == "true"@
}

/// What the settings on builds and on the time do, where the key is one of them.
#[verifier::opaque]
pub open spec fn clock_applied(c: ConfigView, key: Seq<char>, value: Seq<char>, now: i64) -> Option<
    (ConfigView, SettingOutcome),
> {
    let done = SettingOutcome::Applied;
    if key == "min_client_build"@ {
        match build_above(value, crate::rpc::CLIENT_BUILD as int) {
            Some(build) => Some((c, SettingOutcome::ClientTooOld(build as i32))),
            None => Some((c, done)),
        }
    } else if key == "cur_client_build"@ {
        match build_above(value, 178) {
            Some(_) => Some((ConfigView { warn_new_client: true, ..c }, done)),
            None => Some((c, done)),
        }
    } else if key == "server_time"@ {
        match crate::number::parse_signed(value) {
            Some(st) => Some(
                (ConfigView { server_time_delta: (st as i64).wrapping_sub(now), ..c }, done),
            ),
            None => Some((c, done)),
        }
    } else {
        None
    }
}

/// What the settings on hosts and ports do, where the key is one of them.
#[verifier::opaque]
pub open spec fn network_applied(c: ConfigView, key: Seq<char>, value: Seq<char>) -> Option<ConfigView> {
    if key == "rpc_server_port"@ {
        Some(ConfigView { rpc_port: number_or(value, u16::MAX as nat, 80) as u16, ..c })
    } else if key == "rpc_server_ip"@ {
        Some(ConfigView { rpc_servers: servers_in(crate::text::split(value, ';')), ..c })
    } else if key == "rpc_path"@ {
        Some(ConfigView { rpc_path: value, ..c })
    } else if key == "host"@ {
        Some(ConfigView { client_host: host_of(value), ..c })
    } else if key == "port"@ {
        if c.client_port == 0 {
            Some(ConfigView { client_port: number_or(value, u16::MAX as nat, 0) as u16, ..c })
        } else {
            Some(c)
        }
    } else {
        None
    }
}

/// What the settings on amounts do, where the key is one of them.
#[verifier::opaque]
pub open spec fn amount_applied(c: ConfigView, key: Seq<char>, value: Seq<char>) -> Option<ConfigView> {
    let u32s = u32::MAX as nat;
    let u64s = u64::MAX as nat;
    if key == "throttle_bytes"@ {
        Some(ConfigView { throttle_bytes: number_or(value, u32s, 0) as u32, ..c })
    } else if key == "disklimit_bytes"@ {
        if number_or(value, u64s, 0) >= c.disklimit_bytes {
            Some(ConfigView { disklimit_bytes: number_or(value, u64s, 0) as u64, ..c })
        } else {
            Some(c)
        }
    } else if key == "diskremaining_bytes"@ {
        Some(ConfigView { diskremaining_bytes: number_or(value, u64s, 0) as u64, ..c })
    } else if key == "filesystem_blocksize"@ {
        Some(
            ConfigView {
                filesystem_blocksize: clamped(number_or(value, u64s, 4096), 1, 65536) as u64,
                ..c
            },
        )
    } else if key == "max_connections"@ {
        Some(ConfigView { override_conns: number_or(value, u32s, 0) as u32, ..c })
    } else if key == "max_allowed_filesize"@ {
        Some(ConfigView { max_allowed_filesize: number_or(value, u64s, 1_073_741_824) as u64, ..c })
    } else if key == "max_filename_length"@ {
        Some(ConfigView { max_filename_length: number_or(value, u32s, 125) as u32, ..c })
    } else if key == "static_ranges"@ {
        Some(ConfigView { static_ranges: ranges_in(crate::text::split(value, ';')), ..c })
    } else if key == "static_range_count"@ {
        Some(
            ConfigView {
                static_range_count: number_or(value, u32s, c.static_range_count as nat) as u32,
                ..c
            },
        )
    } else {
        None
    }
}

/// What the settings on the cache, the log and the bandwidth do, where the key is one of them.
#[verifier::opaque]
pub open spec fn flag_applied(c: ConfigView, key: Seq<char>, value: Seq<char>) -> Option<ConfigView> {
    let yes = says_true(value);
    if key == "rescan_cache"@ {
        Some(ConfigView { rescan_cache: yes, ..c })
    } else if key == "verify_cache"@ {
        Some(ConfigView { verify_cache: yes, rescan_cache: yes, ..c })
    } else if key == "use_less_memory"@ {
        Some(ConfigView { use_less_memory: yes, ..c })
    } else if key == "disable_logging"@ {
        Some(ConfigView { disable_logging: yes, ..c })
    } else if key == "disable_bwm"@ {
        Some(ConfigView { disable_bwm: yes, disable_download_bwm: yes, ..c })
    } else if key == "disable_download_bwm"@ {
        Some(ConfigView { disable_download_bwm: yes, ..c })
    } else {
        None
    }
}

/// What the settings that switch checks off do, where the key is one of them.
#[verifier::opaque]
pub open spec fn check_applied(c: ConfigView, key: Seq<char>, value: Seq<char>) -> Option<ConfigView> {
    let yes = says_true(value);
    if key == "disable_file_verification"@ {
        Some(ConfigView { disable_file_verification: yes, ..c })
    } else if key == "disable_ip_origin_check"@ {
        Some(ConfigView { disable_ip_origin_check: yes, ..c })
    } else if key == "disable_flood_control"@ {
        Some(ConfigView { disable_flood_control: yes, ..c })
    } else if key == "skip_free_space_check"@ {
        Some(ConfigView { skip_free_space_check: yes, ..c })
    } else if key == "flush_logs"@ {
        Some(ConfigView { flush_logs: yes, ..c })
    } else {
        None
    }
}

/// What the settings on directories and the image proxy do, where the key is one of them.
#[verifier::opaque]
pub open spec fn place_applied(c: ConfigView, key: Seq<char>, value: Seq<char>) -> Option<ConfigView> {
    if key == "cache_dir"@ {
        Some(ConfigView { cache_dir: value, ..c })
    } else if key == "temp_dir"@ {
        Some(ConfigView { temp_dir: value, ..c })
    } else if key == "data_dir"@ {
        Some(ConfigView { data_dir: value, ..c })
    } else if key == "log_dir"@ {
        Some(ConfigView { log_dir: value, ..c })
    } else if key == "download_dir"@ {
        Some(ConfigView { download_dir: value, ..c })
    } else if key == "image_proxy_type"@ {
        Some(ConfigView { image_proxy_type: Some(crate::text::lower(value)), ..c })
    } else if key == "image_proxy_host"@ {
        Some(ConfigView { image_proxy_host: Some(crate::text::lower(value)), ..c })
    } else if key == "image_proxy_port"@ {
        Some(
            ConfigView {
                image_proxy_port: match crate::number::parse_unsigned(value, u16::MAX as nat) {
                    Some(n) => Some(n as u16),
                    None => None,
                },
                ..c
            },
        )
    } else {
        None
    }
}

/// What a setting does to the settings, at the time `now`; the key has underscores.
pub open spec fn applied(c: ConfigView, key: Seq<char>, value: Seq<char>, now: i64) -> (
    ConfigView,
    SettingOutcome,
) {
    match clock_applied(c, key, value, now) {
        Some(r) => r,
        None => match network_applied(c, key, value) {
            Some(d) => (d, SettingOutcome::Applied),
            None => match amount_applied(c, key, value) {
                Some(d) => (d, SettingOutcome::Applied),
                None => match flag_applied(c, key, value) {
                    Some(d) => (d, SettingOutcome::Applied),
                    None => match check_applied(c, key, value) {
                        Some(d) => (d, SettingOutcome::Applied),
                        None => match place_applied(c, key, value) {
                            Some(d) => (d, SettingOutcome::Applied),
                            None => (c, SettingOutcome::Unknown),
                        },
                    },
                },
            },
        },
    }
}

/// What a setting under the name that the server uses does: hyphens count as underscores.
pub open spec fn setting_applied(c: ConfigView, setting: Seq<char>, value: Seq<char>, now: i64) -> (
    ConfigView,
    SettingOutcome,
) {
    applied(c, crate::text::replace_char(setting, '-', '_'), value, now)
}

/// What the settings on the lines do, one line behind the other. A line without an equals
/// sign says nothing. Where the client is too old, nothing behind that line counts.
pub open spec fn lines_applied(c: ConfigView, lines: Seq<Seq<char>>, now: i64) -> (
    ConfigView,
    Option<i32>,
)
    decreases lines.len(),
{
    if lines.len() == 0 {
        (c, None)
    } else {
        let before = lines_applied(c, lines.drop_last(), now);
        if before.1 is Some {
            before
        } else {
            match crate::text::split_once(lines.last(), '=') {
                Some((key, value)) => {
                    let r = setting_applied(before.0, crate::text::lower(key), value, now);
                    match r.1 {
                        SettingOutcome::ClientTooOld(build) => (r.0, Some(build)),
                        _ => (r.0, None),
                    }
                },
                None => before,
            }
        }
    }
}

/// No setting lowers the disk limit, and none changes who the client is.
pub proof fn settings_keep_limit_and_identity(
    c: ConfigView,
    setting: Seq<char>,
    value: Seq<char>,
    now: i64,
)
    ensures
        ({
            let d = setting_applied(c, setting, value, now).0;
            &&& d.disklimit_bytes >= c.disklimit_bytes
            &&& d.client_id == c.client_id
            &&& d.client_key == c.client_key
        }),
{
    reveal(clock_applied);
    reveal(network_applied);
    reveal(amount_applied);
    reveal(flag_applied);
    reveal(check_applied);
    reveal(place_applied);
}

/// Over any number of lines, the disk limit never falls, and the client stays who it is.
pub proof fn lines_keep_limit_and_identity(c: ConfigView, lines: Seq<Seq<char>>, now: i64)
    ensures
        ({
            let d = lines_applied(c, lines, now).0;
            &&& d.disklimit_bytes >= c.disklimit_bytes
            &&& d.client_id == c.client_id
            &&& d.client_key == c.client_key
        }),
    decreases lines.len(),
{
    if lines.len() > 0 {
        let before = lines_applied(c, lines.drop_last(), now);
        lines_keep_limit_and_identity(c, lines.drop_last(), now);
        match crate::text::split_once(lines.last(), '=') {
            Some((key, value)) => settings_keep_limit_and_identity(
                before.0,
                crate::text::lower(key),
                value,
                now,
            ),
            None => {},
        }
    }
}

/// A port that the user chose, or that a setting gave, is not changed by a setting.
pub proof fn settings_keep_a_chosen_port(
    c: ConfigView,
    setting: Seq<char>,
    value: Seq<char>,
    now: i64,
)
    requires
        c.client_port != 0,
    ensures
        setting_applied(c, setting, value, now).0.client_port == c.client_port,
{
    reveal(clock_applied);
    reveal(network_applied);
    reveal(amount_applied);
    reveal(flag_applied);
    reveal(check_applied);
    reveal(place_applied);
}

fn read_servers(value: &str) -> (r: Vec<IpAddr>)
    ensures
        crate::ip::views(r@) == servers_in(crate::text::split(value@, ';')),
{
    let pieces = crate::text::split_on(value, ';');
    let ghost all = crate::text::texts(pieces@);
    let mut out: Vec<IpAddr> = Vec::new();
    let mut i: usize = 0;
    assert(all.take(0) =~= seq![]);
    assert(crate::ip::views(out@) =~= seq![]);
    while i < pieces.len()
        invariant
            i <= pieces.len(),
            all == crate::text::texts(pieces@),
            crate::ip::views(out@) == servers_in(all.take(i as int)),
        decreases pieces.len() - i,
    {
        let ghost before = crate::ip::views(out@);
        assert(all.take(i + 1).drop_last() =~= all.take(i as int));
        assert(all.take(i + 1).last() == pieces@[i as int]@);
        let piece = crate::text::trimmed(pieces[i].as_str());
        match IpAddr::parse(piece.as_str()) {
            Some(ip) => {
                let n = crate::ip::normalize_ip(ip);
                out.push(n);
                assert(crate::ip::views(out@) =~= before.push(n@));
            },
            None => {},
        }
        i += 1;
    }
    assert(all.take(i as int) =~= all);
    out
}

fn read_ranges(value: &str) -> (r: Vec<String>)
    ensures
        crate::text::texts(r@) == ranges_in(crate::text::split(value@, ';')),
{
    let pieces = crate::text::split_on(value, ';');
    let ghost all = crate::text::texts(pieces@);
    let mut out: Vec<String> = Vec::new();
    let mut i: usize = 0;
    assert(all.take(0) =~= seq![]);
    assert(crate::text::texts(out@) =~= seq![]);
    while i < pieces.len()
        invariant
            i <= pieces.len(),
            all == crate::text::texts(pieces@),
            crate::text::texts(out@) == ranges_in(all.take(i as int)),
        decreases pieces.len() - i,
    {
        let ghost before = crate::text::texts(out@);
        assert(all.take(i + 1).drop_last() =~= all.take(i as int));
        assert(all.take(i + 1).last() == pieces@[i as int]@);
        if pieces[i].as_str().as_bytes().len() == 4 && !crate::text::holds(&out, pieces[i].as_str()) {
            out.push(pieces[i].clone());
            assert(crate::text::texts(out@) =~= before.push(pieces@[i as int]@));
        }
        i += 1;
    }
    assert(all.take(i as int) =~= all);
    out
}

fn read_host(value: &str) -> (r: String)
    ensures
        r@ == host_of(value@),
{
    match IpAddr::parse(value) {
        Some(ip) => crate::ip::normalize_ip(ip).to_text(),
        None => String::from_str(value),
    }
}

fn read_number(value: &str, max: u64, otherwise: u64) -> (r: u64)
    ensures
        r == number_or(value@, max as nat, otherwise as nat),
        otherwise <= max ==> r <= max,
{
    match crate::number::read_unsigned(value, max) {
        Some(n) => n,
        None => otherwise,
    }
}

fn reads_true(value: &str) -> (r: bool)
    ensures
        r == says_true(value@),
{
    proof {
        reveal(says_true);
    }
    crate::text::str_eq(value, "true")
}

fn read_build(value: &str, than: i32) -> (r: Option<i32>)
    ensures
        match r {
            Some(n) => build_above(value@, than as int) == Some(n as int),
            None => build_above(value@, than as int) is None,
        },
{
    match crate::number::read_i64(value) {
        Some(n) => {
            if n >= i32::MIN as i64 && n <= i32::MAX as i64 && n > than as i64 {
                Some(n as i32)
            } else {
                None
            }
        },
        None => None,
    }
}

impl Config {
    /// Applies a setting of the server. The clock is read for the setting `server_time`.
    pub fn apply_setting(&mut self, setting: &str, value: &str) -> (r: SettingOutcome)
        ensures
            exists|now: i64|
                0 <= now && #[trigger] setting_applied(old(self)@, setting@, value@, now) == (final(self)@, r),
    {
        let now: i64 = crate::utils::timestamp_now();
        self.apply_setting_at(setting, value, now)
    }

    fn apply_clock(&mut self, key: &str, value: &str, now: i64) -> (r: Option<SettingOutcome>)
        ensures
            match r {
                Some(o) => clock_applied(old(self)@, key@, value@, now) == Some((final(self)@, o)),
                None => clock_applied(old(self)@, key@, value@, now) is None && final(self)@ == old(
                    self,
                )@,
            },
    {
        proof {
            reveal(clock_applied);
        }
        if crate::text::str_eq(key, "min_client_build") {
            match read_build(value, crate::rpc::CLIENT_BUILD) {
                Some(build) => return Some(SettingOutcome::ClientTooOld(build)),
                None => {},
            }
        } else if crate::text::str_eq(key, "cur_client_build") {
            match read_build(value, 178) {
                Some(_) => {
                    self.warn_new_client = true;
                },
                None => {},
            }
        } else if crate::text::str_eq(key, "server_time") {
            match crate::number::read_i64(value) {
                Some(st) => {
                    self.server_time_delta = st.wrapping_sub(now);
                },
                None => {},
            }
        } else {
            return None;
        }
        Some(SettingOutcome::Applied)
    }

    fn apply_network(&mut self, key: &str, value: &str) -> (r: bool)
        ensures
            match network_applied(old(self)@, key@, value@) {
                Some(d) => r && final(self)@ == d,
                None => !r && final(self)@ == old(self)@,
            },
    {
        proof {
            reveal(network_applied);
        }
        if crate::text::str_eq(key, "rpc_server_port") {
            self.rpc_port = read_number(value, u16::MAX as u64, 80) as u16;
            return true;
        }
        if crate::text::str_eq(key, "rpc_server_ip") {
            self.rpc_servers = read_servers(value);
            return true;
        }
        if crate::text::str_eq(key, "rpc_path") {
            self.rpc_path = String::from_str(value);
            return true;
        }
        if crate::text::str_eq(key, "host") {
            self.client_host = read_host(value);
            return true;
        }
        if crate::text::str_eq(key, "port") {
            if self.client_port == 0 {
                self.client_port = read_number(value, u16::MAX as u64, 0) as u16;
            }
            return true;
        }
        false
    }

    fn apply_amount(&mut self, key: &str, value: &str) -> (r: bool)
        ensures
            match amount_applied(old(self)@, key@, value@) {
                Some(d) => r && final(self)@ == d,
                None => !r && final(self)@ == old(self)@,
            },
    {
        proof {
            reveal(amount_applied);
        }
        if crate::text::str_eq(key, "throttle_bytes") {
            self.throttle_bytes = read_number(value, u32::MAX as u64, 0) as u32;
            return true;
        }
        if crate::text::str_eq(key, "disklimit_bytes") {
            let limit: u64 = read_number(value, u64::MAX, 0);
            if limit >= self.disklimit_bytes {
                self.disklimit_bytes = limit;
            }
            return true;
        }
        if crate::text::str_eq(key, "diskremaining_bytes") {
            self.diskremaining_bytes = read_number(value, u64::MAX, 0);
            return true;
        }
        if crate::text::str_eq(key, "filesystem_blocksize") {
            let size: u64 = read_number(value, u64::MAX, 4096);
            self.filesystem_blocksize = if size < 1 {
                1
            } else if size > 65536 {
                65536
            } else {
                size
            };
            return true;
        }
        if crate::text::str_eq(key, "max_connections") {
            self.override_conns = read_number(value, u32::MAX as u64, 0) as u32;
            return true;
        }
        if crate::text::str_eq(key, "max_allowed_filesize") {
            self.max_allowed_filesize = read_number(value, u64::MAX, 1_073_741_824);
            return true;
        }
        if crate::text::str_eq(key, "max_filename_length") {
            self.max_filename_length = read_number(value, u32::MAX as u64, 125) as u32;
            return true;
        }
        if crate::text::str_eq(key, "static_ranges") {
            self.static_ranges = read_ranges(value);
            return true;
        }
        if crate::text::str_eq(key, "static_range_count") {
            self.static_range_count =
            read_number(value, u32::MAX as u64, self.static_range_count as u64) as u32;
            return true;
        }
        false
    }

    fn set_rescan_cache(&mut self, on: bool)
        ensures
            final(self)@ == (ConfigView { rescan_cache: on, ..old(self)@ }),
    {
        self.rescan_cache = on;
    }

    fn set_use_less_memory(&mut self, on: bool)
        ensures
            final(self)@ == (ConfigView { use_less_memory: on, ..old(self)@ }),
    {
        self.use_less_memory = on;
    }

    fn set_disable_logging(&mut self, on: bool)
        ensures
            final(self)@ == (ConfigView { disable_logging: on, ..old(self)@ }),
    {
        self.disable_logging = on;
    }

    fn set_disable_download_bwm(&mut self, on: bool)
        ensures
            final(self)@ == (ConfigView { disable_download_bwm: on, ..old(self)@ }),
    {
        self.disable_download_bwm = on;
    }

    fn set_disable_file_verification(&mut self, on: bool)
        ensures
            final(self)@ == (ConfigView { disable_file_verification: on, ..old(self)@ }),
    {
        self.disable_file_verification = on;
    }

    fn set_disable_ip_origin_check(&mut self, on: bool)
        ensures
            final(self)@ == (ConfigView { disable_ip_origin_check: on, ..old(self)@ }),
    {
        self.disable_ip_origin_check = on;
    }

    fn set_disable_flood_control(&mut self, on: bool)
        ensures
            final(self)@ == (ConfigView { disable_flood_control: on, ..old(self)@ }),
    {
        self.disable_flood_control = on;
    }

    fn set_skip_free_space_check(&mut self, on: bool)
        ensures
            final(self)@ == (ConfigView { skip_free_space_check: on, ..old(self)@ }),
    {
        self.skip_free_space_check = on;
    }

    fn set_flush_logs(&mut self, on: bool)
        ensures
            final(self)@ == (ConfigView { flush_logs: on, ..old(self)@ }),
    {
        self.flush_logs = on;
    }

    fn set_verify_cache(&mut self, on: bool)
        ensures
            final(self)@ == (ConfigView { verify_cache: on, rescan_cache: on, ..old(self)@ }),
    {
        self.verify_cache = on;
        self.rescan_cache = on;
    }

    fn set_disable_bwm(&mut self, on: bool)
        ensures
            final(self)@ == (ConfigView { disable_bwm: on, disable_download_bwm: on, ..old(self)@ }),
    {
        self.disable_bwm = on;
        self.disable_download_bwm = on;
    }

    fn apply_flag(&mut self, key: &str, value: &str) -> (r: bool)
        ensures
            match flag_applied(old(self)@, key@, value@) {
                Some(d) => r && final(self)@ == d,
                None => !r && final(self)@ == old(self)@,
            },
    {
        proof {
            reveal(flag_applied);
        }
        let yes = reads_true(value);
        if crate::text::str_eq(key, "rescan_cache") {
            self.set_rescan_cache(yes);
            return true;
        }
        if crate::text::str_eq(key, "verify_cache") {
            self.set_verify_cache(yes);
            return true;
        }
        if crate::text::str_eq(key, "use_less_memory") {
            self.set_use_less_memory(yes);
            return true;
        }
        if crate::text::str_eq(key, "disable_logging") {
            self.set_disable_logging(yes);
            return true;
        }
        if crate::text::str_eq(key, "disable_bwm") {
            self.set_disable_bwm(yes);
            return true;
        }
        if crate::text::str_eq(key, "disable_download_bwm") {
            self.set_disable_download_bwm(yes);
            return true;
        }
        false
    }

    fn apply_check(&mut self, key: &str, value: &str) -> (r: bool)
        ensures
            match check_applied(old(self)@, key@, value@) {
                Some(d) => r && final(self)@ == d,
                None => !r && final(self)@ == old(self)@,
            },
    {
        proof {
            reveal(check_applied);
        }
        let yes = reads_true(value);
        if crate::text::str_eq(key, "disable_file_verification") {
            self.set_disable_file_verification(yes);
            return true;
        }
        if crate::text::str_eq(key, "disable_ip_origin_check") {
            self.set_disable_ip_origin_check(yes);
            return true;
        }
        if crate::text::str_eq(key, "disable_flood_control") {
            self.set_disable_flood_control(yes);
            return true;
        }
        if crate::text::str_eq(key, "skip_free_space_check") {
            self.set_skip_free_space_check(yes);
            return true;
        }
        if crate::text::str_eq(key, "flush_logs") {
            self.set_flush_logs(yes);
            return true;
        }
        false
    }

    fn apply_place(&mut self, key: &str, value: &str) -> (r: bool)
        ensures
            match place_applied(old(self)@, key@, value@) {
                Some(d) => r && final(self)@ == d,
                None => !r && final(self)@ == old(self)@,
            },
    {
        proof {
            reveal(place_applied);
        }
        if crate::text::str_eq(key, "cache_dir") {
            self.cache_dir = String::from_str(value);
            return true;
        }
        if crate::text::str_eq(key, "temp_dir") {
            self.temp_dir = String::from_str(value);
            return true;
        }
        if crate::text::str_eq(key, "data_dir") {
            self.data_dir = String::from_str(value);
            return true;
        }
        if crate::text::str_eq(key, "log_dir") {
            self.log_dir = String::from_str(value);
            return true;
        }
        if crate::text::str_eq(key, "download_dir") {
            self.download_dir = String::from_str(value);
            return true;
        }
        if crate::text::str_eq(key, "image_proxy_type") {
            self.image_proxy_type = Some(crate::text::to_lowercase(value));
            return true;
        }
        if crate::text::str_eq(key, "image_proxy_host") {
            self.image_proxy_host = Some(crate::text::to_lowercase(value));
            return true;
        }
        if crate::text::str_eq(key, "image_proxy_port") {
            self.image_proxy_port = crate::number::read_u16(value);
            return true;
        }
        false
    }

    /// Applies a setting of the server at the time `now`, in seconds.
    pub fn apply_setting_at(&mut self, setting: &str, value: &str, now: i64) -> (r: SettingOutcome)
        ensures
            setting_applied(old(self)@, setting@, value@, now) == (final(self)@, r),
    {
        let underscored = crate::text::with_char_replaced(setting, '-', '_');
        let key = underscored.as_str();
        match self.apply_clock(key, value, now) {
            Some(outcome) => return outcome,
            None => {},
        }
        if self.apply_network(key, value) {
            return SettingOutcome::Applied;
        }
        if self.apply_amount(key, value) {
            return SettingOutcome::Applied;
        }
        if self.apply_flag(key, value) {
            return SettingOutcome::Applied;
        }
        if self.apply_check(key, value) {
            return SettingOutcome::Applied;
        }
        if self.apply_place(key, value) {
            return SettingOutcome::Applied;
        }
        SettingOutcome::Unknown
    }

    /// Applies the settings on the lines of a response, and returns the build that the
    /// server asks for where this client is too old. The clock is read once.
    pub fn apply_server_settings(&mut self, lines: &Vec<String>) -> (r: Option<i32>)
        ensures
            exists|now: i64|
                0 <= now && #[trigger] lines_applied(old(self)@, crate::text::texts(lines@), now) == (final(self)@, r),
    {
        let now: i64 = crate::utils::timestamp_now();
        self.apply_server_settings_at(lines, now)
    }

    /// Applies the settings of a response.
    pub fn apply_server_response(&mut self, response: &crate::rpc::ServerResponse) -> (r: Option<i32>)
        ensures
            exists|now: i64|
                0 <= now && #[trigger] lines_applied(old(self)@, response@.lines, now) == (final(self)@, r),
    {
        let now: i64 = crate::utils::timestamp_now();
        let r = self.apply_server_settings_at(&response.lines, now);
        assert(lines_applied(old(self)@, response@.lines, now) == (self@, r));
        r
    }

    /// Applies the settings on the lines of a response at the time `now`.
    pub fn apply_server_settings_at(&mut self, lines: &Vec<String>, now: i64) -> (r: Option<i32>)
        ensures
            lines_applied(old(self)@, crate::text::texts(lines@), now) == (final(self)@, r),
    {
        let ghost start = self@;
        let ghost all = crate::text::texts(lines@);
        let mut i: usize = 0;
        assert(all.take(0) =~= seq![]);
        while i < lines.len()
            invariant
                i <= lines.len(),
                start == old(self)@,
                all == crate::text::texts(lines@),
                lines_applied(start, all.take(i as int), now) == (self@, None::<i32>),
            decreases lines.len() - i,
        {
            assert(all.take(i + 1).drop_last() =~= all.take(i as int));
            assert(all.take(i + 1).last() == lines@[i as int]@);
            match crate::text::split_at_char(lines[i].as_str(), '=') {
                Some((key, value)) => {
                    let lower = crate::text::to_lowercase(key.as_str());
                    match self.apply_setting_at(lower.as_str(), value.as_str(), now) {
                        SettingOutcome::ClientTooOld(build) => {
                            proof {
                                lemma_too_old(start, all, (i + 1) as nat, now);
                                assert(all.take(all.len() as int) =~= all);
                            }
                            return Some(build);
                        },
                        _ => {},
                    }
                },
                None => {},
            }
            i += 1;
        }
        assert(all.take(i as int) =~= all);
        None
    }

    /// The time of the server, in seconds: the clock and the difference to it.
    pub fn server_time(&self) -> (r: i64)
        ensures
            exists|now: i64| 0 <= now && r == #[trigger] now.wrapping_add(self.server_time_delta),
    {
        let now: i64 = crate::utils::timestamp_now();
        self.server_time_at(now)
    }

    /// The time of the server when the clock says `now`.
    pub fn server_time_at(&self, now: i64) -> (r: i64)
        ensures
            r == now.wrapping_add(self.server_time_delta),
    {
        now.wrapping_add(self.server_time_delta)
    }

    /// How many connections the client takes at a time.
    pub fn max_connections(&self) -> (r: u32)
        ensures
            r == connection_limit(self.override_conns, self.throttle_bytes),
    {
        if self.override_conns > 0 {
            self.override_conns
        } else {
            let extra: u32 = self.throttle_bytes / 10000;
            if extra < 480 {
                20 + extra
            } else {
                500
            }
        }
    }

    pub fn is_static_range(&self, range: &str) -> (r: bool)
        ensures
            r == self@.static_ranges.contains(range@),
    {
        crate::text::holds(&self.static_ranges, range)
    }

    /// The contents of the file that keeps the credentials.
    pub fn client_login_text(&self) -> (r: String)
        ensures
            r@ == login_text(self.client_id.0, self.client_key@),
    {
        let mut out = crate::number::decimal_string(self.client_id.0 as u64);
        out.append("-");
        out.append(self.client_key.as_str());
        out
    }

    /// Load config from CLI args, env vars, and client_login file.
    /// Priority: CLI args > env vars > client_login file.
    pub fn load(args: CliArgs, login: LoginFile) -> (r: Result<Config, HathError>)
        ensures
            match r {
                Ok(c) => credentials(args.client_id, crate::text::opt_text(args.client_key), login) == Ok::<
                    (u32, Seq<char>),
                    ErrorView,
                >((c.client_id.0, c.client_key@)) && c@ == initial(
                    c.client_id.0,
                    c.client_key@,
                    args,
                ),
                Err(e) => credentials(args.client_id, crate::text::opt_text(args.client_key), login)
                    == Err::<(u32, Seq<char>), ErrorView>(e@),
            },
    {
        let (client_id, client_key) = match (args.client_id, &args.client_key) {
            (Some(id), Some(key_text)) => match ClientKey::new(key_text.as_str()) {
                Some(key) => (id, key),
                None => return Err(
                    HathError::Config(
                        String::from_str("client key must be exactly 20 alphanumeric characters"),
                    ),
                ),
            },
            _ => match login {
                LoginFile::Missing => return Err(
                    HathError::Config(
                        String::from_str(
                            "No credentials found. Provide --client-id/--client-key or place client_login file in data dir.",
                        ),
                    ),
                ),
                LoginFile::Unreadable(reason) => return Err(
                    HathError::Config(
                        crate::text::concat("cannot read client_login: ", reason.as_str()),
                    ),
                ),
                LoginFile::Content(content) => match read_login(
                    content.as_str(),
                    "invalid client ID in client_login",
                    "invalid client key in client_login",
                ) {
                    Ok((id, key)) => (id.0, key),
                    Err(e) => return Err(e),
                },
            },
        };
        let rpc_servers: Vec<IpAddr> = Vec::new();
        let static_ranges: Vec<String> = Vec::new();
        assert(crate::ip::views(rpc_servers@) =~= seq![]);
        assert(crate::text::texts(static_ranges@) =~= seq![]);
        let verify_cache = args.verify_cache.unwrap_or(false);
        Ok(
            Config {
                client_id: ClientId(client_id),
                client_key,
                data_dir: args.data_dir,
                log_dir: args.log_dir,
                cache_dir: args.cache_dir,
                temp_dir: args.temp_dir,
                download_dir: args.download_dir,
                client_port: args.port.unwrap_or(0),
                server_time_delta: 0,
                throttle_bytes: 0,
                disklimit_bytes: 0,
                diskremaining_bytes: 0,
                filesystem_blocksize: args.filesystem_blocksize.unwrap_or(4096),
                max_allowed_filesize: 1_073_741_824,
                max_filename_length: 125,
                rpc_servers,
                rpc_port: 80,
                rpc_path: String::from_str("15/rpc?"),
                static_ranges,
                static_range_count: 0,
                verify_cache,
                rescan_cache: verify_cache,
                use_less_memory: args.use_less_memory.unwrap_or(false),
                disable_logging: args.disable_logging.unwrap_or(false),
                disable_bwm: args.disable_bwm.unwrap_or(false),
                disable_download_bwm: args.disable_download_bwm.unwrap_or(false),
                disable_file_verification: args.disable_file_verification.unwrap_or(false),
                disable_ip_origin_check: args.disable_ip_origin_check.unwrap_or(false),
                disable_flood_control: args.disable_flood_control.unwrap_or(false),
                skip_free_space_check: args.skip_free_space_check.unwrap_or(false),
                flush_logs: args.flush_logs.unwrap_or(false),
                warn_new_client: false,
                image_proxy_type: args.image_proxy_type,
                image_proxy_host: args.image_proxy_host,
                image_proxy_port: args.image_proxy_port,
                client_host: String::new(),
                override_conns: args.max_connections.unwrap_or(0),
            },
        )
    }

    /// The credentials in the contents of `client_login`, where the file is there.
    pub fn load_client_login(content: Option<&str>) -> (r: Result<
        Option<(ClientId, ClientKey)>,
        HathError,
    >)
        ensures
            match content {
                None => r matches Ok(None),
                Some(s) => match r {
                    Ok(Some((id, key))) => login_of(
                        s@,
                        "invalid client ID"@,
                        "invalid client key format"@,
                    ) == Ok::<(u32, Seq<char>), ErrorView>((id.0, key@)),
                    Ok(None) => false,
                    Err(e) => login_of(s@, "invalid client ID"@, "invalid client key format"@) == Err::<
                        (u32, Seq<char>),
                        ErrorView,
                    >(e@),
                },
            },
    {
        match content {
            None => Ok(None),
            Some(s) => match read_login(s, "invalid client ID", "invalid client key format") {
                Ok(p) => Ok(Some(p)),
                Err(e) => Err(e),
            },
        }
    }

    /// The directories that the client needs, in the order in which they are made.
    pub fn initialize_directories(&self) -> (r: Vec<String>)
        ensures
            crate::text::texts(r@) == seq![
                self.data_dir@,
                self.log_dir@,
                self.cache_dir@,
                self.temp_dir@,
                self.download_dir@,
            ],
    {
        let mut r: Vec<String> = Vec::new();
        r.push(self.data_dir.clone());
        r.push(self.log_dir.clone());
        r.push(self.cache_dir.clone());
        r.push(self.temp_dir.clone());
        r.push(self.download_dir.clone());
        assert(crate::text::texts(r@) =~= seq![
            self.data_dir@,
            self.log_dir@,
            self.cache_dir@,
            self.temp_dir@,
            self.download_dir@,
        ]);
        r
    }
}

proof fn lemma_too_old(c: ConfigView, lines: Seq<Seq<char>>, n: nat, now: i64)
    requires
        n <= lines.len(),
        lines_applied(c, lines.take(n as int), now).1 is Some,
    ensures
        lines_applied(c, lines.take(lines.len() as int), now) == lines_applied(
            c,
            lines.take(n as int),
            now,
        ),
    decreases lines.len() - n,
{
    if n < lines.len() {
        assert(lines.take(n as int + 1).drop_last() =~= lines.take(n as int));
        lemma_too_old(c, lines, n + 1, now);
    }
}

/// How many connections the client takes: the user's number, or twenty and one more for
/// each ten thousand bytes of throttle, up to five hundred.
pub open spec fn connection_limit(overriding: u32, throttle: u32) -> u32 {
    if overriding > 0 {
        overriding
    } else if throttle / 10000 < 480 {
        (20 + throttle / 10000) as u32
    } else {
        500
    }
}

/// The contents of the file that keeps the credentials.
pub open spec fn login_text(id: u32, key: Seq<char>) -> Seq<char> {
    crate::number::decimal(id as nat) + "-"@ + key
}

/// The credentials that such a file gives: the number before the first hyphen, the key
/// behind it.
pub open spec fn login_of(content: Seq<char>, bad_id: Seq<char>, bad_key: Seq<char>) -> Result<
    (u32, Seq<char>),
    ErrorView,
> {
    match crate::text::split_once(crate::text::trim(content), '-') {
        Some((id, key)) => match crate::number::parse_unsigned(id, u32::MAX as nat) {
            Some(n) => if crate::types::is_key_text(crate::text::trim(key)) {
                Ok((n as u32, crate::text::trim(key)))
            } else {
                Err(ErrorView::Config(bad_key))
            },
            None => Err(ErrorView::Config(bad_id)),
        },
        None => Err(ErrorView::Config("malformed client_login file"@)),
    }
}

/// The credentials: those of the command line where both are there, else the file's.
pub open spec fn credentials(id: Option<u32>, key: Option<Seq<char>>, login: LoginFile) -> Result<
    (u32, Seq<char>),
    ErrorView,
> {
    match (id, key) {
        (Some(n), Some(k)) => if crate::types::is_key_text(k) {
            Ok((n, k))
        } else {
            Err(ErrorView::Config("client key must be exactly 20 alphanumeric characters"@))
        },
        _ => match login {
            LoginFile::Missing => Err(
                ErrorView::Config(
                    "No credentials found. Provide --client-id/--client-key or place client_login file in data dir."@,
                ),
            ),
            LoginFile::Unreadable(reason) => Err(
                ErrorView::Config("cannot read client_login: "@ + reason@),
            ),
            LoginFile::Content(content) => login_of(
                content@,
                "invalid client ID in client_login"@,
                "invalid client key in client_login"@,
            ),
        },
    }
}

/// A flag, off where it is not given.
pub open spec fn flag(o: Option<bool>) -> bool {
    match o {
        Some(b) => b,
        None => false,
    }
}

/// The settings that the client starts with.
pub open spec fn initial(id: u32, key: Seq<char>, args: CliArgs) -> ConfigView {
    ConfigView {
        client_id: id,
        client_key: key,
        data_dir: args.data_dir@,
        log_dir: args.log_dir@,
        cache_dir: args.cache_dir@,
        temp_dir: args.temp_dir@,
        download_dir: args.download_dir@,
        client_port: match args.port {
            Some(p) => p,
            None => 0,
        },
        server_time_delta: 0,
        throttle_bytes: 0,
        disklimit_bytes: 0,
        diskremaining_bytes: 0,
        filesystem_blocksize: match args.filesystem_blocksize {
            Some(b) => b,
            None => 4096,
        },
        max_allowed_filesize: 1_073_741_824,
        max_filename_length: 125,
        rpc_servers: seq![],
        rpc_port: 80,
        rpc_path: "15/rpc?"@,
        static_ranges: seq![],
        static_range_count: 0,
        verify_cache: flag(args.verify_cache),
        rescan_cache: flag(args.verify_cache),
        use_less_memory: flag(args.use_less_memory),
        disable_logging: flag(args.disable_logging),
        disable_bwm: flag(args.disable_bwm),
        disable_download_bwm: flag(args.disable_download_bwm),
        disable_file_verification: flag(args.disable_file_verification),
        disable_ip_origin_check: flag(args.disable_ip_origin_check),
        disable_flood_control: flag(args.disable_flood_control),
        skip_free_space_check: flag(args.skip_free_space_check),
        flush_logs: flag(args.flush_logs),
        warn_new_client: false,
        image_proxy_type: crate::text::opt_text(args.image_proxy_type),
        image_proxy_host: crate::text::opt_text(args.image_proxy_host),
        image_proxy_port: args.image_proxy_port,
        client_host: seq![],
        override_conns: match args.max_connections {
            Some(n) => n,
            None => 0,
        },
    }
}

fn read_login(content: &str, bad_id: &str, bad_key: &str) -> (r: Result<
    (ClientId, ClientKey),
    HathError,
>)
    ensures
        match r {
            Ok((id, key)) => login_of(content@, bad_id@, bad_key@) == Ok::<(u32, Seq<char>), ErrorView>(
                (id.0, key@),
            ),
            Err(e) => login_of(content@, bad_id@, bad_key@) == Err::<(u32, Seq<char>), ErrorView>(e@),
        },
{
    let trimmed = crate::text::trimmed(content);
    match crate::text::split_at_char(trimmed.as_str(), '-') {
        Some((id_text, key_text)) => match crate::number::read_u32(id_text.as_str()) {
            Some(id) => match ClientKey::new(crate::text::trimmed(key_text.as_str()).as_str()) {
                Some(key) => Ok((ClientId(id), key)),
                None => Err(HathError::Config(String::from_str(bad_key))),
            },
            None => Err(HathError::Config(String::from_str(bad_id))),
        },
        None => Err(HathError::Config(String::from_str("malformed client_login file"))),
    }
}

proof fn lemma_trim_unchanged(s: Seq<char>)
    requires
        s.len() > 0,
        !crate::text::is_space(s[0]),
        !crate::text::is_space(s.last()),
    ensures
        crate::text::trim(s) == s,
{
}

/// The credentials that are saved are those that are loaded.
pub proof fn saved_credentials_are_loaded(
    id: u32,
    key: Seq<char>,
    bad_id: Seq<char>,
    bad_key: Seq<char>,
)
    requires
        crate::types::is_key_text(key),
    ensures
        login_of(login_text(id, key), bad_id, bad_key) == Ok::<(u32, Seq<char>), ErrorView>((id, key)),
{
    let d = crate::number::decimal(id as nat);
    let s = login_text(id, key);
    reveal_strlit("-");
    assert("-"@ =~= seq!['-']);
    crate::number::lemma_decimal(id as nat);
    crate::number::lemma_parse_decimal(id as nat, u32::MAX as nat);
    assert(crate::number::is_digit(d[0]));
    assert(crate::types::is_alphanumeric(key[0]));
    assert(crate::types::is_alphanumeric(key[19]));
    assert(s[0] == d[0]);
    assert(s.last() == key[19]);
    lemma_trim_unchanged(s);
    lemma_trim_unchanged(key);
    if d.contains('-') {
        let i = choose|i: int| 0 <= i < d.len() && d[i] == '-';
        assert(crate::number::is_digit(d[i]));
    }
    crate::text::lemma_split_first(d, '-', key);
}

} // verus!
