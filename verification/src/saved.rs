//! What the client starts from, and what it leaves for the next start.

use vstd::prelude::*;
use crate::cache::persistent::SaveStep;
use crate::config::{CliArgs, LoginFile};
use crate::error::ErrorView;

verus! {

// ---------------------------------------------------------------------------
// The state of the cache
// ---------------------------------------------------------------------------

/// The text of a saved state has six lines: the version, the count, the size, the pointer and the
/// two hashes, each behind its name and an equals sign.
pub proof fn states_are_written_in_six_lines(
    count: u32,
    size: u64,
    pointer: usize,
    ages: Seq<char>,
    lru: Seq<char>,
)
    ensures
        crate::cache::persistent::info_text(count, size, pointer, ages, lru)
            == "formatVersion=1\ncacheCount="@ + crate::number::decimal(count as nat) + "\ncacheSize="@
            + crate::number::decimal(size as nat) + "\nlruClearPointer="@ + crate::number::decimal(
            pointer as nat,
        ) + "\nagesHash="@ + ages + "\nlruHash="@ + lru,
{
    reveal_strlit("formatVersion");
    reveal_strlit("1");
    reveal_strlit("cacheCount");
    reveal_strlit("cacheSize");
    reveal_strlit("lruClearPointer");
    reveal_strlit("agesHash");
    reveal_strlit("lruHash");
    reveal_strlit("formatVersion=1\ncacheCount=");
    reveal_strlit("\ncacheSize=");
    reveal_strlit("\nlruClearPointer=");
    reveal_strlit("\nagesHash=");
    reveal_strlit("\nlruHash=");
    let n = seq!['\n'];
    let e = seq!['='];
    assert("formatVersion"@ + e + "1"@ + n + "cacheCount"@ + e =~= "formatVersion=1\ncacheCount="@);
    assert(n + "cacheSize"@ + e =~= "\ncacheSize="@);
    assert(n + "lruClearPointer"@ + e =~= "\nlruClearPointer="@);
    assert(n + "agesHash"@ + e =~= "\nagesHash="@);
    assert(n + "lruHash"@ + e =~= "\nlruHash="@);
    let c = crate::number::decimal(count as nat);
    let s = crate::number::decimal(size as nat);
    let p = crate::number::decimal(pointer as nat);
    assert(crate::cache::persistent::info_text(count, size, pointer, ages, lru) =~= (("formatVersion"@ + e
        + "1"@ + n + "cacheCount"@ + e) + c + (n + "cacheSize"@ + e) + s + (n + "lruClearPointer"@ + e) + p
        + (n + "agesHash"@ + e) + ages + (n + "lruHash"@ + e) + lru));
}

/// A state is saved in four steps. The text goes first and comes last: whenever saving breaks off,
/// there is no text for what is half written.
pub proof fn texts_are_published_last(
    steps: Seq<SaveStep>,
    count: u32,
    size: u64,
    pointer: usize,
    ages: Seq<(Seq<char>, u64)>,
    table: Seq<u16>,
    i: int,
)
    requires
        crate::cache::persistent::are_save_steps(steps, count, size, pointer, ages, table),
        0 <= i < steps.len(),
    ensures
        steps.len() == 4,
        steps[i] is RemoveInfo <==> i == 0,
        steps[i] is WriteInfo <==> i == 3,
        steps[1] is WriteAges && steps[1]->WriteAges_0@ == crate::cache::persistent::encoded_ages(ages),
        steps[2] is WriteLru && steps[2]->WriteLru_0@ == crate::cache::persistent::encoded_table(table),
{
}

/// The last age that a list gives to a range counts.
pub proof fn last_ages_count(p: Seq<(Seq<char>, u64)>, range: Seq<char>, age: u64, other: Seq<char>)
    requires
        other != range,
    ensures
        ({
            let m = crate::cache::ages::map_of(p.push((range, age)));
            &&& m.contains_key(range) && m[range] == age
            &&& m.contains_key(other) <==> crate::cache::ages::map_of(p).contains_key(other)
            &&& m.contains_key(other) ==> m[other] == crate::cache::ages::map_of(p)[other]
        }),
        !crate::cache::ages::map_of(seq![]).contains_key(range),
{
    assert(p.push((range, age)).drop_last() =~= p);
}

/// A table that was saved is restored at full length: its entries in their places, and noughts
/// behind them.
pub proof fn short_tables_are_filled_up(t: Seq<u16>, i: int)
    requires
        0 <= i < 1_048_576,
    ensures
        crate::cache::startup::completed_table(t).len() == 1_048_576,
        i < t.len() ==> crate::cache::startup::completed_table(t)[i] == t[i],
        i >= t.len() ==> crate::cache::startup::completed_table(t)[i] == 0,
{
}

/// Of the directory for temporary files, the logs, the saved state and the credentials stay; any
/// other file is left over.
pub proof fn leftovers_are_known(rest: Seq<char>)
    ensures
        !crate::cache::startup::is_leftover("log_"@ + rest),
        !crate::cache::startup::is_leftover("pcache_"@ + rest),
        !crate::cache::startup::is_leftover("client_login"@),
        crate::cache::startup::is_leftover("proxyfile_"@ + rest),
{
    reveal_strlit("log_");
    reveal_strlit("pcache_");
    reveal_strlit("client_login");
    reveal_strlit("proxyfile_");
    assert(("log_"@ + rest).subrange(0, 4) =~= "log_"@);
    assert(("pcache_"@ + rest).subrange(0, 7) =~= "pcache_"@);
    let s = "proxyfile_"@ + rest;
    assert(s[0] == 'p' && s[1] == 'r');
    if "log_"@.is_prefix_of(s) {
        assert(s.subrange(0, 4)[0] == "log_"@[0]);
    }
    if "pcache_"@.is_prefix_of(s) {
        assert(s.subrange(0, 7)[1] == "pcache_"@[1]);
    }
    assert("client_login"@[0] == 'c');
}

/// A file that lies one level too high goes to its place in the cache where its range is assigned,
/// and away otherwise, as does what is no file.
pub proof fn misplaced_files_are_moved(
    file: crate::hvfile::HVFileView,
    ranges: Seq<Seq<char>>,
    dir: Seq<char>,
    name: Seq<char>,
)
    requires
        crate::hvfile::describable(file),
    ensures
        ({
            let id = crate::hvfile::fileid_of(file);
            let h = file.hash;
            let assigned = ranges.contains(seq![h[0], h[1], h[2], h[3]]);
            crate::cache::startup::file_cleanup(id, ranges, dir) == (if assigned {
                crate::cache::startup::CleanupView::Move(id, crate::hvfile::cached_at(file, dir))
            } else {
                crate::cache::startup::CleanupView::RemoveFile(id)
            })
        }),
        crate::hvfile::file_of(name) is None ==> crate::cache::startup::file_cleanup(name, ranges, dir)
            == crate::cache::startup::CleanupView::RemoveFile(name),
{
    crate::hvfile::fileid_describes_its_file(file);
    let h = file.hash;
    assert(h.take(4) =~= seq![h[0], h[1], h[2], h[3]]);
}

/// Each entry of a directory that is no directory itself is dealt with once, in its order.
pub proof fn entries_are_cleaned_up(
    entries: Seq<crate::cache::startup::FoundEntry>,
    e: crate::cache::startup::FoundEntry,
    ranges: Seq<Seq<char>>,
    dir: Seq<char>,
)
    ensures
        ({
            let before = crate::cache::startup::entries_cleanup(entries, ranges, dir);
            let after = crate::cache::startup::entries_cleanup(entries.push(e), ranges, dir);
            after == (if e.is_dir {
                before
            } else {
                before.push(crate::cache::startup::file_cleanup(e.name@, ranges, dir))
            })
        }),
        crate::cache::startup::entries_cleanup(seq![], ranges, dir).len() == 0,
{
    assert(entries.push(e).drop_last() =~= entries);
}

// ---------------------------------------------------------------------------
// Credentials
// ---------------------------------------------------------------------------

/// The credentials are written as the number, a hyphen and the key, and read so, with or without a
/// line end behind them.
pub proof fn credentials_are_written(id: u32, key: Seq<char>)
    requires
        key.len() == 20,
        forall|j: int|
            0 <= j < 20 ==> ('0' <= #[trigger] key[j] <= '9' || 'a' <= key[j] <= 'z' || 'A' <= key[j] <= 'Z'),
    ensures
        ({
            let text = crate::number::decimal(id as nat) + seq!['-'] + key;
            &&& crate::config::login_text(id, key) == text
            &&& crate::config::login_of(text, seq![], seq![]) == Ok::<(u32, Seq<char>), ErrorView>((id, key))
            &&& crate::config::login_of(text.push('\n'), seq![], seq![]) == Ok::<(u32, Seq<char>), ErrorView>(
                (id, key),
            )
        }),
{
    reveal_strlit("-");
    assert("-"@ =~= seq!['-']);
    let d = crate::number::decimal(id as nat);
    let text = d + seq!['-'] + key;
    assert(crate::types::is_key_text(key)) by {
        assert forall|j: int| 0 <= j < key.len() implies crate::types::is_alphanumeric(#[trigger] key[j]) by {
            assert('0' <= key[j] <= '9' || 'a' <= key[j] <= 'z' || 'A' <= key[j] <= 'Z');
        }
    }
    crate::config::saved_credentials_are_loaded(id, key, seq![], seq![]);
    crate::number::lemma_decimal(id as nat);
    assert(crate::number::is_digit(d[0]));
    let ended = text.push('\n');
    assert(ended[0] == d[0]);
    assert(crate::text::trim_start(ended) == ended);
    assert(ended.drop_last() =~= text);
    assert('0' <= key[19] <= '9' || 'a' <= key[19] <= 'z' || 'A' <= key[19] <= 'Z');
    assert(text.last() == key[19]);
    assert(crate::text::trim_end(text) == text);
    assert(crate::text::trim_end(ended) == text);
    assert(text[0] == d[0]);
    assert(crate::text::trim(text) == text);
    assert(crate::text::trim(ended) == text);
}

/// Credentials that are given in full come before those of the file; what is missing or unreadable
/// is an error, and so is a key that is none.
pub proof fn given_credentials_come_first(
    id: u32,
    key: Seq<char>,
    login: LoginFile,
    content: String,
    reason: String,
)
    ensures
        crate::types::is_key_text(key) ==> crate::config::credentials(Some(id), Some(key), login) == Ok::<
            (u32, Seq<char>),
            ErrorView,
        >((id, key)),
        key.len() != 20 ==> crate::config::credentials(Some(id), Some(key), login) is Err,
        crate::config::credentials(Some(id), None, LoginFile::Content(content)) == crate::config::login_of(
            content@,
            "invalid client ID in client_login"@,
            "invalid client key in client_login"@,
        ),
        crate::config::credentials(None, Some(key), LoginFile::Content(content))
            == crate::config::credentials(None, None, LoginFile::Content(content)),
        crate::config::credentials(None, None, LoginFile::Missing) is Err,
        crate::config::credentials(None, None, LoginFile::Unreadable(reason)) == Err::<
            (u32, Seq<char>),
            ErrorView,
        >(ErrorView::Config("cannot read client_login: "@ + reason@)),
{
}

/// The client starts with what it is given; of what is not given, switches are off, the port is to
/// be had from the servers, and a block has 4096 bytes. What only the servers know is empty.
pub proof fn clients_start_with_what_is_given(id: u32, key: Seq<char>, a: CliArgs)
    ensures
        ({
            let c = crate::config::initial(id, key, a);
            &&& c.client_id == id && c.client_key == key
            &&& c.data_dir == a.data_dir@ && c.log_dir == a.log_dir@ && c.cache_dir == a.cache_dir@
            &&& c.temp_dir == a.temp_dir@ && c.download_dir == a.download_dir@
            &&& a.port matches Some(p) ==> c.client_port == p
            &&& a.port is None ==> c.client_port == 0
            &&& a.filesystem_blocksize matches Some(b) ==> c.filesystem_blocksize == b
            &&& a.filesystem_blocksize is None ==> c.filesystem_blocksize == 4096
            &&& a.max_connections matches Some(n) ==> c.override_conns == n
            &&& a.max_connections is None ==> c.override_conns == 0
            &&& c.image_proxy_port == a.image_proxy_port
            &&& c.image_proxy_host == crate::text::opt_text(a.image_proxy_host)
            &&& c.image_proxy_type == crate::text::opt_text(a.image_proxy_type)
            &&& c.throttle_bytes == 0 && c.disklimit_bytes == 0 && c.diskremaining_bytes == 0
            &&& c.server_time_delta == 0 && c.static_range_count == 0 && c.client_host.len() == 0
            &&& c.rpc_servers.len() == 0 && c.static_ranges.len() == 0 && !c.warn_new_client
            &&& c.rpc_port == 80 && c.rpc_path == "15/rpc?"@
            &&& c.max_allowed_filesize == 1024 * 1_048_576 && c.max_filename_length == 125
        }),
{
}

/// A switch is on where it is given and on, and off otherwise; to verify the cache is to scan it too.
pub proof fn switches_are_given(id: u32, key: Seq<char>, a: CliArgs)
    ensures
        ({
            let c = crate::config::initial(id, key, a);
            &&& c.verify_cache <==> a.verify_cache == Some(true)
            &&& c.rescan_cache <==> a.verify_cache == Some(true)
            &&& c.use_less_memory <==> a.use_less_memory == Some(true)
            &&& c.disable_logging <==> a.disable_logging == Some(true)
            &&& c.disable_bwm <==> a.disable_bwm == Some(true)
            &&& c.disable_download_bwm <==> a.disable_download_bwm == Some(true)
            &&& c.disable_file_verification <==> a.disable_file_verification == Some(true)
            &&& c.disable_ip_origin_check <==> a.disable_ip_origin_check == Some(true)
            &&& c.disable_flood_control <==> a.disable_flood_control == Some(true)
            &&& c.skip_free_space_check <==> a.skip_free_space_check == Some(true)
            &&& c.flush_logs <==> a.flush_logs == Some(true)
        }),
{
}

/// What an error is called begins with its kind and ends with its reason.
pub proof fn errors_are_described(s: Seq<char>, status: u16)
    ensures
        crate::error::error_text(ErrorView::Io(s)) == "I/O error: "@ + s,
        crate::error::error_text(ErrorView::Http(s)) == "HTTP error: "@ + s,
        crate::error::error_text(ErrorView::Tls(s)) == "TLS error: "@ + s,
        crate::error::error_text(ErrorView::Hyper(s)) == "Hyper error: "@ + s,
        crate::error::error_text(ErrorView::Rpc(s)) == "RPC error: "@ + s,
        crate::error::error_text(ErrorView::Config(s)) == "Config error: "@ + s,
        crate::error::error_text(ErrorView::Cache(s)) == "Cache error: "@ + s,
        crate::error::error_text(ErrorView::Parse(s)) == "Parse error: "@ + s,
        crate::error::error_text(ErrorView::Network(s)) == "Network error: "@ + s,
        crate::error::error_text(ErrorView::ProxyDownloader(status, s)) == "Proxy download error ("@
            + crate::number::decimal(status as nat) + "): "@ + s,
        crate::error::error_text(ErrorView::Shutdown) == "Shutdown requested"@,
        crate::error::error_text(ErrorView::CertExpired) == "Certificate expired"@,
        crate::error::error_text(ErrorView::Fatal(s)) == s,
{
}

/// An error of a stream tells the version, the number or the range that it is about.
pub proof fn stream_errors_are_described(v: u16, n: u64, s: Seq<char>)
    ensures
        ({
            let version = crate::migrate::protocol::protocol_error_text(
                crate::migrate::protocol::ProtocolErrorView::Version(v),
            );
            let pointer = crate::migrate::protocol::protocol_error_text(
                crate::migrate::protocol::ProtocolErrorView::InvalidValue(
                    crate::migrate::protocol::Field::LruClearPointer,
                    n,
                ),
            );
            let count = crate::migrate::protocol::protocol_error_text(
                crate::migrate::protocol::ProtocolErrorView::InvalidValue(
                    crate::migrate::protocol::Field::StaticRangeCount,
                    n,
                ),
            );
            let twice = crate::migrate::protocol::protocol_error_text(
                crate::migrate::protocol::ProtocolErrorView::DuplicateRange(s),
            );
            &&& version == "unsupported HPCACHE/1 version "@ + crate::number::decimal(v as nat)
            &&& pointer == "invalid lru_clear_pointer: "@ + crate::number::decimal(n as nat)
            &&& count == "invalid static_range_count: "@ + crate::number::decimal(n as nat)
            &&& twice == "duplicate static range "@ + s
        }),
{
    reveal_strlit("invalid ");
    reveal_strlit(": ");
    reveal_strlit("lru_clear_pointer");
    reveal_strlit("static_range_count");
    reveal_strlit("invalid lru_clear_pointer: ");
    reveal_strlit("invalid static_range_count: ");
    assert("invalid "@ + "lru_clear_pointer"@ + ": "@ =~= "invalid lru_clear_pointer: "@);
    assert("invalid "@ + "static_range_count"@ + ": "@ =~= "invalid static_range_count: "@);
}

/// A range in a stream is four hexadecimal digits without capitals.
pub proof fn ranges_are_four_digits(b: Seq<u8>)
    requires
        b.len() == 4,
    ensures
        crate::migrate::protocol::is_range(b) <==> {
            &&& '0' as u8 <= b[0] <= '9' as u8 || 'a' as u8 <= b[0] <= 'f' as u8
            &&& '0' as u8 <= b[1] <= '9' as u8 || 'a' as u8 <= b[1] <= 'f' as u8
            &&& '0' as u8 <= b[2] <= '9' as u8 || 'a' as u8 <= b[2] <= 'f' as u8
            &&& '0' as u8 <= b[3] <= '9' as u8 || 'a' as u8 <= b[3] <= 'f' as u8
        },
{
    if crate::migrate::protocol::is_range(b) {
        assert(crate::migrate::protocol::is_range_byte(b[0]));
        assert(crate::migrate::protocol::is_range_byte(b[1]));
        assert(crate::migrate::protocol::is_range_byte(b[2]));
        assert(crate::migrate::protocol::is_range_byte(b[3]));
    }
}

} // verus!
