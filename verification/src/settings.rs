//! What each setting of the server does, one law for each.

use vstd::prelude::*;
use crate::config::{ConfigView, SettingOutcome};

verus! {

proof fn lemma_no_hyphen(key: Seq<char>)
    requires
        forall|j: int| 0 <= j < key.len() ==> #[trigger] key[j] != '-',
    ensures
        crate::text::replace_char(key, '-', '_') == key,
{
    assert(crate::text::replace_char(key, '-', '_') =~= key);
}

/// The length and some characters of each key, which tell them apart.
#[verifier::rlimit(60)]
proof fn lemma_keys()
    ensures
        "min_client_build"@.len() == 16 && "min_client_build"@[0] == 'm',
        "cur_client_build"@.len() == 16 && "cur_client_build"@[0] == 'c',
        "server_time"@.len() == 11 && "server_time"@[0] == 's',
        "rpc_server_port"@.len() == 15 && "rpc_server_port"@[0] == 'r',
        "rpc_server_ip"@.len() == 13 && "rpc_server_ip"@[0] == 'r',
        "rpc_path"@.len() == 8 && "rpc_path"@[0] == 'r',
        "host"@.len() == 4 && "host"@[0] == 'h',
        "port"@.len() == 4 && "port"@[0] == 'p',
        "throttle_bytes"@.len() == 14 && "throttle_bytes"@[0] == 't',
        "disklimit_bytes"@.len() == 15 && "disklimit_bytes"@[0] == 'd' && "disklimit_bytes"@[11] == 'y',
        "diskremaining_bytes"@.len() == 19 && "diskremaining_bytes"@[0] == 'd',
        "filesystem_blocksize"@.len() == 20 && "filesystem_blocksize"@[0] == 'f',
        "max_connections"@.len() == 15 && "max_connections"@[0] == 'm',
        "max_allowed_filesize"@.len() == 20 && "max_allowed_filesize"@[0] == 'm',
        "max_filename_length"@.len() == 19 && "max_filename_length"@[0] == 'm',
        "static_ranges"@.len() == 13 && "static_ranges"@[0] == 's',
        "static_range_count"@.len() == 18 && "static_range_count"@[0] == 's',
        "rescan_cache"@.len() == 12 && "rescan_cache"@[0] == 'r',
        "verify_cache"@.len() == 12 && "verify_cache"@[0] == 'v',
        "use_less_memory"@.len() == 15 && "use_less_memory"@[0] == 'u',
        "disable_logging"@.len() == 15 && "disable_logging"@[0] == 'd' && "disable_logging"@[11] == 'g',
        "disable_bwm"@.len() == 11 && "disable_bwm"@[0] == 'd',
        "disable_download_bwm"@.len() == 20 && "disable_download_bwm"@[0] == 'd',
        "disable_file_verification"@.len() == 25 && "disable_file_verification"@[0] == 'd',
        "disable_ip_origin_check"@.len() == 23 && "disable_ip_origin_check"@[0] == 'd',
        "disable_flood_control"@.len() == 21 && "disable_flood_control"@[0] == 'd',
        "skip_free_space_check"@.len() == 21 && "skip_free_space_check"@[0] == 's',
        "flush_logs"@.len() == 10 && "flush_logs"@[0] == 'f',
        "cache_dir"@.len() == 9 && "cache_dir"@[0] == 'c',
        "temp_dir"@.len() == 8 && "temp_dir"@[0] == 't',
        "data_dir"@.len() == 8 && "data_dir"@[0] == 'd',
        "log_dir"@.len() == 7 && "log_dir"@[0] == 'l',
        "download_dir"@.len() == 12 && "download_dir"@[0] == 'd',
        "image_proxy_type"@.len() == 16 && "image_proxy_type"@[0] == 'i' && "image_proxy_type"@[12] == 't',
        "image_proxy_host"@.len() == 16 && "image_proxy_host"@[0] == 'i' && "image_proxy_host"@[12] == 'h',
        "image_proxy_port"@.len() == 16 && "image_proxy_port"@[0] == 'i' && "image_proxy_port"@[12] == 'p',
{
    reveal_strlit("min_client_build");
    reveal_strlit("cur_client_build");
    reveal_strlit("server_time");
    reveal_strlit("rpc_server_port");
    reveal_strlit("rpc_server_ip");
    reveal_strlit("rpc_path");
    reveal_strlit("host");
    reveal_strlit("port");
    reveal_strlit("throttle_bytes");
    reveal_strlit("disklimit_bytes");
    reveal_strlit("diskremaining_bytes");
    reveal_strlit("filesystem_blocksize");
    reveal_strlit("max_connections");
    reveal_strlit("max_allowed_filesize");
    reveal_strlit("max_filename_length");
    reveal_strlit("static_ranges");
    reveal_strlit("static_range_count");
    reveal_strlit("rescan_cache");
    reveal_strlit("verify_cache");
    reveal_strlit("use_less_memory");
    reveal_strlit("disable_logging");
    reveal_strlit("disable_bwm");
    reveal_strlit("disable_download_bwm");
    reveal_strlit("disable_file_verification");
    reveal_strlit("disable_ip_origin_check");
    reveal_strlit("disable_flood_control");
    reveal_strlit("skip_free_space_check");
    reveal_strlit("flush_logs");
    reveal_strlit("cache_dir");
    reveal_strlit("temp_dir");
    reveal_strlit("data_dir");
    reveal_strlit("log_dir");
    reveal_strlit("download_dir");
    reveal_strlit("image_proxy_type");
    reveal_strlit("image_proxy_host");
    reveal_strlit("image_proxy_port");
}

/// No key has a hyphen.
#[verifier::rlimit(60)]
proof fn lemma_keys_stay()
    ensures
        crate::text::replace_char("min_client_build"@, '-', '_') == "min_client_build"@,
        crate::text::replace_char("cur_client_build"@, '-', '_') == "cur_client_build"@,
        crate::text::replace_char("server_time"@, '-', '_') == "server_time"@,
        crate::text::replace_char("rpc_server_port"@, '-', '_') == "rpc_server_port"@,
        crate::text::replace_char("rpc_server_ip"@, '-', '_') == "rpc_server_ip"@,
        crate::text::replace_char("rpc_path"@, '-', '_') == "rpc_path"@,
        crate::text::replace_char("host"@, '-', '_') == "host"@,
        crate::text::replace_char("port"@, '-', '_') == "port"@,
        crate::text::replace_char("throttle_bytes"@, '-', '_') == "throttle_bytes"@,
        crate::text::replace_char("disklimit_bytes"@, '-', '_') == "disklimit_bytes"@,
        crate::text::replace_char("diskremaining_bytes"@, '-', '_') == "diskremaining_bytes"@,
        crate::text::replace_char("filesystem_blocksize"@, '-', '_') == "filesystem_blocksize"@,
        crate::text::replace_char("max_connections"@, '-', '_') == "max_connections"@,
        crate::text::replace_char("max_allowed_filesize"@, '-', '_') == "max_allowed_filesize"@,
        crate::text::replace_char("max_filename_length"@, '-', '_') == "max_filename_length"@,
        crate::text::replace_char("static_ranges"@, '-', '_') == "static_ranges"@,
        crate::text::replace_char("static_range_count"@, '-', '_') == "static_range_count"@,
        crate::text::replace_char("rescan_cache"@, '-', '_') == "rescan_cache"@,
        crate::text::replace_char("verify_cache"@, '-', '_') == "verify_cache"@,
        crate::text::replace_char("use_less_memory"@, '-', '_') == "use_less_memory"@,
        crate::text::replace_char("disable_logging"@, '-', '_') == "disable_logging"@,
        crate::text::replace_char("disable_bwm"@, '-', '_') == "disable_bwm"@,
        crate::text::replace_char("disable_download_bwm"@, '-', '_') == "disable_download_bwm"@,
        crate::text::replace_char("disable_file_verification"@, '-', '_') == "disable_file_verification"@,
        crate::text::replace_char("disable_ip_origin_check"@, '-', '_') == "disable_ip_origin_check"@,
        crate::text::replace_char("disable_flood_control"@, '-', '_') == "disable_flood_control"@,
        crate::text::replace_char("skip_free_space_check"@, '-', '_') == "skip_free_space_check"@,
        crate::text::replace_char("flush_logs"@, '-', '_') == "flush_logs"@,
        crate::text::replace_char("cache_dir"@, '-', '_') == "cache_dir"@,
        crate::text::replace_char("temp_dir"@, '-', '_') == "temp_dir"@,
        crate::text::replace_char("data_dir"@, '-', '_') == "data_dir"@,
        crate::text::replace_char("log_dir"@, '-', '_') == "log_dir"@,
        crate::text::replace_char("download_dir"@, '-', '_') == "download_dir"@,
        crate::text::replace_char("image_proxy_type"@, '-', '_') == "image_proxy_type"@,
        crate::text::replace_char("image_proxy_host"@, '-', '_') == "image_proxy_host"@,
        crate::text::replace_char("image_proxy_port"@, '-', '_') == "image_proxy_port"@,
{
    reveal_strlit("min_client_build");
    lemma_no_hyphen("min_client_build"@);
    reveal_strlit("cur_client_build");
    lemma_no_hyphen("cur_client_build"@);
    reveal_strlit("server_time");
    lemma_no_hyphen("server_time"@);
    reveal_strlit("rpc_server_port");
    lemma_no_hyphen("rpc_server_port"@);
    reveal_strlit("rpc_server_ip");
    lemma_no_hyphen("rpc_server_ip"@);
    reveal_strlit("rpc_path");
    lemma_no_hyphen("rpc_path"@);
    reveal_strlit("host");
    lemma_no_hyphen("host"@);
    reveal_strlit("port");
    lemma_no_hyphen("port"@);
    reveal_strlit("throttle_bytes");
    lemma_no_hyphen("throttle_bytes"@);
    reveal_strlit("disklimit_bytes");
    lemma_no_hyphen("disklimit_bytes"@);
    reveal_strlit("diskremaining_bytes");
    lemma_no_hyphen("diskremaining_bytes"@);
    reveal_strlit("filesystem_blocksize");
    lemma_no_hyphen("filesystem_blocksize"@);
    reveal_strlit("max_connections");
    lemma_no_hyphen("max_connections"@);
    reveal_strlit("max_allowed_filesize");
    lemma_no_hyphen("max_allowed_filesize"@);
    reveal_strlit("max_filename_length");
    lemma_no_hyphen("max_filename_length"@);
    reveal_strlit("static_ranges");
    lemma_no_hyphen("static_ranges"@);
    reveal_strlit("static_range_count");
    lemma_no_hyphen("static_range_count"@);
    reveal_strlit("rescan_cache");
    lemma_no_hyphen("rescan_cache"@);
    reveal_strlit("verify_cache");
    lemma_no_hyphen("verify_cache"@);
    reveal_strlit("use_less_memory");
    lemma_no_hyphen("use_less_memory"@);
    reveal_strlit("disable_logging");
    lemma_no_hyphen("disable_logging"@);
    reveal_strlit("disable_bwm");
    lemma_no_hyphen("disable_bwm"@);
    reveal_strlit("disable_download_bwm");
    lemma_no_hyphen("disable_download_bwm"@);
    reveal_strlit("disable_file_verification");
    lemma_no_hyphen("disable_file_verification"@);
    reveal_strlit("disable_ip_origin_check");
    lemma_no_hyphen("disable_ip_origin_check"@);
    reveal_strlit("disable_flood_control");
    lemma_no_hyphen("disable_flood_control"@);
    reveal_strlit("skip_free_space_check");
    lemma_no_hyphen("skip_free_space_check"@);
    reveal_strlit("flush_logs");
    lemma_no_hyphen("flush_logs"@);
    reveal_strlit("cache_dir");
    lemma_no_hyphen("cache_dir"@);
    reveal_strlit("temp_dir");
    lemma_no_hyphen("temp_dir"@);
    reveal_strlit("data_dir");
    lemma_no_hyphen("data_dir"@);
    reveal_strlit("log_dir");
    lemma_no_hyphen("log_dir"@);
    reveal_strlit("download_dir");
    lemma_no_hyphen("download_dir"@);
    reveal_strlit("image_proxy_type");
    lemma_no_hyphen("image_proxy_type"@);
    reveal_strlit("image_proxy_host");
    lemma_no_hyphen("image_proxy_host"@);
    reveal_strlit("image_proxy_port");
    lemma_no_hyphen("image_proxy_port"@);
}

proof fn lemma_reaches_clock(c: ConfigView, key: Seq<char>, value: Seq<char>, now: i64)
    requires
        crate::text::replace_char(key, '-', '_') == key,
        crate::config::clock_applied(c, key, value, now) is Some,
    ensures
        crate::config::setting_applied(c, key, value, now) == crate::config::clock_applied(c, key, value, now)->0,
{
}

proof fn lemma_reaches_network(c: ConfigView, key: Seq<char>, value: Seq<char>, now: i64)
    requires
        crate::text::replace_char(key, '-', '_') == key,
        key != "min_client_build"@,
        key != "cur_client_build"@,
        key != "server_time"@,
        crate::config::network_applied(c, key, value) is Some,
    ensures
        crate::config::setting_applied(c, key, value, now) == (
            crate::config::network_applied(c, key, value)->0,
            SettingOutcome::Applied,
        ),
{
    reveal(crate::config::clock_applied);
}

proof fn lemma_reaches_amount(c: ConfigView, key: Seq<char>, value: Seq<char>, now: i64)
    requires
        crate::text::replace_char(key, '-', '_') == key,
        key != "min_client_build"@,
        key != "cur_client_build"@,
        key != "server_time"@,
        key != "rpc_server_port"@,
        key != "rpc_server_ip"@,
        key != "rpc_path"@,
        key != "host"@,
        key != "port"@,
        crate::config::amount_applied(c, key, value) is Some,
    ensures
        crate::config::setting_applied(c, key, value, now) == (
            crate::config::amount_applied(c, key, value)->0,
            SettingOutcome::Applied,
        ),
{
    reveal(crate::config::clock_applied);
    reveal(crate::config::network_applied);
}

proof fn lemma_reaches_flag(c: ConfigView, key: Seq<char>, value: Seq<char>, now: i64)
    requires
        crate::text::replace_char(key, '-', '_') == key,
        key != "min_client_build"@,
        key != "cur_client_build"@,
        key != "server_time"@,
        key != "rpc_server_port"@,
        key != "rpc_server_ip"@,
        key != "rpc_path"@,
        key != "host"@,
        key != "port"@,
        key != "throttle_bytes"@,
        key != "disklimit_bytes"@,
        key != "diskremaining_bytes"@,
        key != "filesystem_blocksize"@,
        key != "max_connections"@,
        key != "max_allowed_filesize"@,
        key != "max_filename_length"@,
        key != "static_ranges"@,
        key != "static_range_count"@,
        crate::config::flag_applied(c, key, value) is Some,
    ensures
        crate::config::setting_applied(c, key, value, now) == (
            crate::config::flag_applied(c, key, value)->0,
            SettingOutcome::Applied,
        ),
{
    reveal(crate::config::clock_applied);
    reveal(crate::config::network_applied);
    reveal(crate::config::amount_applied);
}

proof fn lemma_reaches_check(c: ConfigView, key: Seq<char>, value: Seq<char>, now: i64)
    requires
        crate::text::replace_char(key, '-', '_') == key,
        key != "min_client_build"@,
        key != "cur_client_build"@,
        key != "server_time"@,
        key != "rpc_server_port"@,
        key != "rpc_server_ip"@,
        key != "rpc_path"@,
        key != "host"@,
        key != "port"@,
        key != "throttle_bytes"@,
        key != "disklimit_bytes"@,
        key != "diskremaining_bytes"@,
        key != "filesystem_blocksize"@,
        key != "max_connections"@,
        key != "max_allowed_filesize"@,
        key != "max_filename_length"@,
        key != "static_ranges"@,
        key != "static_range_count"@,
        key != "rescan_cache"@,
        key != "verify_cache"@,
        key != "use_less_memory"@,
        key != "disable_logging"@,
        key != "disable_bwm"@,
        key != "disable_download_bwm"@,
        crate::config::check_applied(c, key, value) is Some,
    ensures
        crate::config::setting_applied(c, key, value, now) == (
            crate::config::check_applied(c, key, value)->0,
            SettingOutcome::Applied,
        ),
{
    reveal(crate::config::clock_applied);
    reveal(crate::config::network_applied);
    reveal(crate::config::amount_applied);
    reveal(crate::config::flag_applied);
}

proof fn lemma_reaches_place(c: ConfigView, key: Seq<char>, value: Seq<char>, now: i64)
    requires
        crate::text::replace_char(key, '-', '_') == key,
        key != "min_client_build"@,
        key != "cur_client_build"@,
        key != "server_time"@,
        key != "rpc_server_port"@,
        key != "rpc_server_ip"@,
        key != "rpc_path"@,
        key != "host"@,
        key != "port"@,
        key != "throttle_bytes"@,
        key != "disklimit_bytes"@,
        key != "diskremaining_bytes"@,
        key != "filesystem_blocksize"@,
        key != "max_connections"@,
        key != "max_allowed_filesize"@,
        key != "max_filename_length"@,
        key != "static_ranges"@,
        key != "static_range_count"@,
        key != "rescan_cache"@,
        key != "verify_cache"@,
        key != "use_less_memory"@,
        key != "disable_logging"@,
        key != "disable_bwm"@,
        key != "disable_download_bwm"@,
        key != "disable_file_verification"@,
        key != "disable_ip_origin_check"@,
        key != "disable_flood_control"@,
        key != "skip_free_space_check"@,
        key != "flush_logs"@,
        crate::config::place_applied(c, key, value) is Some,
    ensures
        crate::config::setting_applied(c, key, value, now) == (
            crate::config::place_applied(c, key, value)->0,
            SettingOutcome::Applied,
        ),
{
    reveal(crate::config::clock_applied);
    reveal(crate::config::network_applied);
    reveal(crate::config::amount_applied);
    reveal(crate::config::flag_applied);
    reveal(crate::config::check_applied);
}

/// Behind the setting `disklimit_bytes` with a number in decimal, the limit is the larger of that
/// number and the limit before, and nothing else has changed.
pub proof fn disk_limit_is_set(c: ConfigView, n: u64, now: i64)
    ensures
        crate::config::setting_applied(c, "disklimit_bytes"@, crate::number::decimal(n as nat), now) == (
            ConfigView {
                disklimit_bytes: if n > c.disklimit_bytes {
                    n
                } else {
                    c.disklimit_bytes
                },
                ..c
            },
            SettingOutcome::Applied,
        ),
{
    crate::number::written_numbers_are_read(n as nat, u64::MAX as nat);
    lemma_keys();
    lemma_keys_stay();
    reveal(crate::config::amount_applied);
    lemma_reaches_amount(c, "disklimit_bytes"@, crate::number::decimal(n as nat), now);
}

/// Behind a setting on an amount with a number in decimal, the amount of that name is that number,
/// and nothing else has changed.
pub proof fn amounts_are_set(c: ConfigView, n: u32, m: u64, now: i64)
    ensures
        crate::config::setting_applied(c, "throttle_bytes"@, crate::number::decimal(n as nat), now) == (
            ConfigView { throttle_bytes: n, ..c },
            SettingOutcome::Applied,
        ),
        crate::config::setting_applied(c, "diskremaining_bytes"@, crate::number::decimal(m as nat), now) == (
            ConfigView { diskremaining_bytes: m, ..c },
            SettingOutcome::Applied,
        ),
        crate::config::setting_applied(c, "max_connections"@, crate::number::decimal(n as nat), now) == (
            ConfigView { override_conns: n, ..c },
            SettingOutcome::Applied,
        ),
        crate::config::setting_applied(c, "max_allowed_filesize"@, crate::number::decimal(m as nat), now) == (
            ConfigView { max_allowed_filesize: m, ..c },
            SettingOutcome::Applied,
        ),
        crate::config::setting_applied(c, "max_filename_length"@, crate::number::decimal(n as nat), now) == (
            ConfigView { max_filename_length: n, ..c },
            SettingOutcome::Applied,
        ),
        crate::config::setting_applied(c, "static_range_count"@, crate::number::decimal(n as nat), now) == (
            ConfigView { static_range_count: n, ..c },
            SettingOutcome::Applied,
        ),
{
    crate::number::written_numbers_are_read(n as nat, u32::MAX as nat);
    crate::number::written_numbers_are_read(m as nat, u64::MAX as nat);
    lemma_keys();
    lemma_keys_stay();
    reveal(crate::config::amount_applied);
    lemma_reaches_amount(c, "throttle_bytes"@, crate::number::decimal(n as nat), now);
    lemma_reaches_amount(c, "diskremaining_bytes"@, crate::number::decimal(m as nat), now);
    lemma_reaches_amount(c, "max_connections"@, crate::number::decimal(n as nat), now);
    lemma_reaches_amount(c, "max_allowed_filesize"@, crate::number::decimal(m as nat), now);
    lemma_reaches_amount(c, "max_filename_length"@, crate::number::decimal(n as nat), now);
    lemma_reaches_amount(c, "static_range_count"@, crate::number::decimal(n as nat), now);
}

/// Behind the setting `filesystem_blocksize` with a number in decimal, the size of a block is that
/// number, brought between one byte and 64 KiB.
pub proof fn block_size_is_set(c: ConfigView, n: u64, now: i64)
    ensures
        crate::config::setting_applied(c, "filesystem_blocksize"@, crate::number::decimal(n as nat), now) == (
            ConfigView {
                filesystem_blocksize: if n < 1 {
                    1
                } else if n > 65_536 {
                    65_536
                } else {
                    n
                },
                ..c
            },
            SettingOutcome::Applied,
        ),
{
    crate::number::written_numbers_are_read(n as nat, u64::MAX as nat);
    lemma_keys();
    lemma_keys_stay();
    reveal(crate::config::amount_applied);
    lemma_reaches_amount(c, "filesystem_blocksize"@, crate::number::decimal(n as nat), now);
}

/// Behind a setting on an amount whose value holds a character that no number holds, the amount has
/// its default; the disk limit stays.
pub proof fn amounts_that_are_no_numbers(c: ConfigView, value: Seq<char>, j: int, now: i64)
    requires
        0 <= j < value.len(),
        !('0' <= value[j] <= '9'),
        value[j] != '+',
    ensures
        crate::config::setting_applied(c, "throttle_bytes"@, value, now) == (
            ConfigView { throttle_bytes: 0, ..c },
            SettingOutcome::Applied,
        ),
        crate::config::setting_applied(c, "disklimit_bytes"@, value, now) == (
            c,
            SettingOutcome::Applied,
        ),
        crate::config::setting_applied(c, "diskremaining_bytes"@, value, now) == (
            ConfigView { diskremaining_bytes: 0, ..c },
            SettingOutcome::Applied,
        ),
        crate::config::setting_applied(c, "filesystem_blocksize"@, value, now) == (
            ConfigView { filesystem_blocksize: 4096, ..c },
            SettingOutcome::Applied,
        ),
{
    crate::number::other_texts_are_no_numbers(value, j, u32::MAX as nat);
    crate::number::other_texts_are_no_numbers(value, j, u64::MAX as nat);
    lemma_keys();
    lemma_keys_stay();
    reveal(crate::config::amount_applied);
    lemma_reaches_amount(c, "throttle_bytes"@, value, now);
    lemma_reaches_amount(c, "disklimit_bytes"@, value, now);
    lemma_reaches_amount(c, "diskremaining_bytes"@, value, now);
    lemma_reaches_amount(c, "filesystem_blocksize"@, value, now);
}

/// Behind a setting on a limit whose value holds a character that no number holds, the limit has its
/// default; the number of ranges stays.
pub proof fn limits_that_are_no_numbers(c: ConfigView, value: Seq<char>, j: int, now: i64)
    requires
        0 <= j < value.len(),
        !('0' <= value[j] <= '9'),
        value[j] != '+',
    ensures
        crate::config::setting_applied(c, "max_connections"@, value, now) == (
            ConfigView { override_conns: 0, ..c },
            SettingOutcome::Applied,
        ),
        crate::config::setting_applied(c, "max_allowed_filesize"@, value, now) == (
            ConfigView { max_allowed_filesize: 1_073_741_824, ..c },
            SettingOutcome::Applied,
        ),
        crate::config::setting_applied(c, "max_filename_length"@, value, now) == (
            ConfigView { max_filename_length: 125, ..c },
            SettingOutcome::Applied,
        ),
        crate::config::setting_applied(c, "static_range_count"@, value, now) == (
            c,
            SettingOutcome::Applied,
        ),
{
    crate::number::other_texts_are_no_numbers(value, j, u32::MAX as nat);
    crate::number::other_texts_are_no_numbers(value, j, u64::MAX as nat);
    lemma_keys();
    lemma_keys_stay();
    reveal(crate::config::amount_applied);
    lemma_reaches_amount(c, "max_connections"@, value, now);
    lemma_reaches_amount(c, "max_allowed_filesize"@, value, now);
    lemma_reaches_amount(c, "max_filename_length"@, value, now);
    lemma_reaches_amount(c, "static_range_count"@, value, now);
}

/// Behind a setting on a port whose value holds a character that no number holds, the port of the
/// servers is 80, the client's own port stays, and the image proxy has none.
pub proof fn ports_that_are_no_numbers(c: ConfigView, value: Seq<char>, j: int, now: i64)
    requires
        0 <= j < value.len(),
        !('0' <= value[j] <= '9'),
        value[j] != '+',
    ensures
        crate::config::setting_applied(c, "rpc_server_port"@, value, now) == (
            ConfigView { rpc_port: 80, ..c },
            SettingOutcome::Applied,
        ),
        crate::config::setting_applied(c, "port"@, value, now) == (
            c,
            SettingOutcome::Applied,
        ),
        crate::config::setting_applied(c, "image_proxy_port"@, value, now) == (
            ConfigView { image_proxy_port: None, ..c },
            SettingOutcome::Applied,
        ),
{
    crate::number::other_texts_are_no_numbers(value, j, u16::MAX as nat);
    lemma_keys();
    lemma_keys_stay();
    reveal(crate::config::network_applied);
    reveal(crate::config::place_applied);
    lemma_reaches_network(c, "rpc_server_port"@, value, now);
    lemma_reaches_network(c, "port"@, value, now);
    lemma_reaches_place(c, "image_proxy_port"@, value, now);
}

/// Behind a setting on a port with a number in decimal, the port of that name is that number. The
/// client's own port is set only where it was nought.
pub proof fn ports_are_set(c: ConfigView, n: u16, now: i64)
    ensures
        crate::config::setting_applied(c, "rpc_server_port"@, crate::number::decimal(n as nat), now) == (
            ConfigView { rpc_port: n, ..c },
            SettingOutcome::Applied,
        ),
        crate::config::setting_applied(c, "port"@, crate::number::decimal(n as nat), now) == (
            ConfigView {
                client_port: if c.client_port == 0 {
                    n
                } else {
                    c.client_port
                },
                ..c
            },
            SettingOutcome::Applied,
        ),
        crate::config::setting_applied(c, "image_proxy_port"@, crate::number::decimal(n as nat), now) == (
            ConfigView { image_proxy_port: Some(n), ..c },
            SettingOutcome::Applied,
        ),
{
    crate::number::written_numbers_are_read(n as nat, u16::MAX as nat);
    lemma_keys();
    lemma_keys_stay();
    reveal(crate::config::network_applied);
    reveal(crate::config::place_applied);
    lemma_reaches_network(c, "rpc_server_port"@, crate::number::decimal(n as nat), now);
    lemma_reaches_network(c, "port"@, crate::number::decimal(n as nat), now);
    lemma_reaches_place(c, "image_proxy_port"@, crate::number::decimal(n as nat), now);
}

/// Behind a setting on a path, the path of that name is the value as it stands.
pub proof fn paths_are_set(c: ConfigView, value: Seq<char>, now: i64)
    ensures
        crate::config::setting_applied(c, "rpc_path"@, value, now) == (
            ConfigView { rpc_path: value, ..c },
            SettingOutcome::Applied,
        ),
        crate::config::setting_applied(c, "cache_dir"@, value, now) == (
            ConfigView { cache_dir: value, ..c },
            SettingOutcome::Applied,
        ),
        crate::config::setting_applied(c, "temp_dir"@, value, now) == (
            ConfigView { temp_dir: value, ..c },
            SettingOutcome::Applied,
        ),
        crate::config::setting_applied(c, "data_dir"@, value, now) == (
            ConfigView { data_dir: value, ..c },
            SettingOutcome::Applied,
        ),
        crate::config::setting_applied(c, "log_dir"@, value, now) == (
            ConfigView { log_dir: value, ..c },
            SettingOutcome::Applied,
        ),
        crate::config::setting_applied(c, "download_dir"@, value, now) == (
            ConfigView { download_dir: value, ..c },
            SettingOutcome::Applied,
        ),
{
    lemma_keys();
    lemma_keys_stay();
    reveal(crate::config::network_applied);
    reveal(crate::config::place_applied);
    lemma_reaches_network(c, "rpc_path"@, value, now);
    lemma_reaches_place(c, "cache_dir"@, value, now);
    lemma_reaches_place(c, "temp_dir"@, value, now);
    lemma_reaches_place(c, "data_dir"@, value, now);
    lemma_reaches_place(c, "log_dir"@, value, now);
    lemma_reaches_place(c, "download_dir"@, value, now);
}

/// Behind a setting on the image proxy with a value of ASCII characters without capitals, the field of
/// that name is the value.
pub proof fn image_proxy_is_set(c: ConfigView, value: Seq<char>, now: i64)
    requires
        forall|j: int| 0 <= j < value.len() ==> ('\0' <= #[trigger] value[j] <= '\u{7f}') && !('A' <= value[j] <= 'Z'),
    ensures
        crate::config::setting_applied(c, "image_proxy_type"@, value, now) == (
            ConfigView { image_proxy_type: Some(value), ..c },
            SettingOutcome::Applied,
        ),
        crate::config::setting_applied(c, "image_proxy_host"@, value, now) == (
            ConfigView { image_proxy_host: Some(value), ..c },
            SettingOutcome::Applied,
        ),
{
    assert(vstd::utf8::is_ascii_chars(value));
    assert(crate::text::ascii_lower(value) =~= value);
    lemma_keys();
    lemma_keys_stay();
    reveal(crate::config::place_applied);
    lemma_reaches_place(c, "image_proxy_type"@, value, now);
    lemma_reaches_place(c, "image_proxy_host"@, value, now);
}

/// Behind a setting on the cache that switches something on or off, what it names is on where the
/// value is `true` and off where it is anything else. To verify the cache is to scan it again too.
pub proof fn switches_are_set(c: ConfigView, value: Seq<char>, on: bool, now: i64)
    requires
        on <==> value == seq!['t', 'r', 'u', 'e'],
    ensures
        crate::config::setting_applied(c, "rescan_cache"@, value, now) == (
            ConfigView { rescan_cache: on, ..c },
            SettingOutcome::Applied,
        ),
        crate::config::setting_applied(c, "verify_cache"@, value, now) == (
            ConfigView { verify_cache: on, rescan_cache: on, ..c },
            SettingOutcome::Applied,
        ),
        crate::config::setting_applied(c, "use_less_memory"@, value, now) == (
            ConfigView { use_less_memory: on, ..c },
            SettingOutcome::Applied,
        ),
{
    assert(crate::config::says_true(value) == on) by {
        reveal(crate::config::says_true);
        reveal_strlit("true");
        assert("true"@ =~= seq!['t', 'r', 'u', 'e']);
    }
    lemma_keys();
    lemma_keys_stay();
    reveal(crate::config::flag_applied);
    lemma_reaches_flag(c, "rescan_cache"@, value, now);
    lemma_reaches_flag(c, "verify_cache"@, value, now);
    lemma_reaches_flag(c, "use_less_memory"@, value, now);
}

/// Behind a setting that switches the log or a bandwidth monitor off, it is off where the value is
/// `true` and on where it is anything else. Without a bandwidth monitor there is none for downloads
/// either.
pub proof fn monitors_are_set(c: ConfigView, value: Seq<char>, on: bool, now: i64)
    requires
        on <==> value == seq!['t', 'r', 'u', 'e'],
    ensures
        crate::config::setting_applied(c, "disable_logging"@, value, now) == (
            ConfigView { disable_logging: on, ..c },
            SettingOutcome::Applied,
        ),
        crate::config::setting_applied(c, "disable_bwm"@, value, now) == (
            ConfigView { disable_bwm: on, disable_download_bwm: on, ..c },
            SettingOutcome::Applied,
        ),
        crate::config::setting_applied(c, "disable_download_bwm"@, value, now) == (
            ConfigView { disable_download_bwm: on, ..c },
            SettingOutcome::Applied,
        ),
{
    assert(crate::config::says_true(value) == on) by {
        reveal(crate::config::says_true);
        reveal_strlit("true");
        assert("true"@ =~= seq!['t', 'r', 'u', 'e']);
    }
    lemma_keys();
    lemma_keys_stay();
    reveal(crate::config::flag_applied);
    lemma_reaches_flag(c, "disable_logging"@, value, now);
    lemma_reaches_flag(c, "disable_bwm"@, value, now);
    lemma_reaches_flag(c, "disable_download_bwm"@, value, now);
}

/// Behind a setting that switches a check off, or the flushing of the log on, what it names is on where
/// the value is `true` and off where it is anything else.
pub proof fn checks_are_set(c: ConfigView, value: Seq<char>, on: bool, now: i64)
    requires
        on <==> value == seq!['t', 'r', 'u', 'e'],
    ensures
        crate::config::setting_applied(c, "disable_file_verification"@, value, now) == (
            ConfigView { disable_file_verification: on, ..c },
            SettingOutcome::Applied,
        ),
        crate::config::setting_applied(c, "disable_ip_origin_check"@, value, now) == (
            ConfigView { disable_ip_origin_check: on, ..c },
            SettingOutcome::Applied,
        ),
        crate::config::setting_applied(c, "disable_flood_control"@, value, now) == (
            ConfigView { disable_flood_control: on, ..c },
            SettingOutcome::Applied,
        ),
        crate::config::setting_applied(c, "skip_free_space_check"@, value, now) == (
            ConfigView { skip_free_space_check: on, ..c },
            SettingOutcome::Applied,
        ),
        crate::config::setting_applied(c, "flush_logs"@, value, now) == (
            ConfigView { flush_logs: on, ..c },
            SettingOutcome::Applied,
        ),
{
    assert(crate::config::says_true(value) == on) by {
        reveal(crate::config::says_true);
        reveal_strlit("true");
        assert("true"@ =~= seq!['t', 'r', 'u', 'e']);
    }
    lemma_keys();
    lemma_keys_stay();
    reveal(crate::config::check_applied);
    lemma_reaches_check(c, "disable_file_verification"@, value, now);
    lemma_reaches_check(c, "disable_ip_origin_check"@, value, now);
    lemma_reaches_check(c, "disable_flood_control"@, value, now);
    lemma_reaches_check(c, "skip_free_space_check"@, value, now);
    lemma_reaches_check(c, "flush_logs"@, value, now);
}

/// Behind the setting `server_time` with a time in decimal, the clock of the server is ahead of the
/// local one by the time between them.
pub proof fn server_time_is_set(c: ConfigView, time: i64, now: i64)
    requires
        i64::MIN <= time - now <= i64::MAX,
    ensures
        crate::config::setting_applied(c, "server_time"@, crate::number::signed_decimal(time as int), now) == (
            ConfigView { server_time_delta: (time - now) as i64, ..c },
            SettingOutcome::Applied,
        ),
{
    crate::number::lemma_parse_signed_decimal(time as int);
    lemma_keys();
    lemma_keys_stay();
    reveal(crate::config::clock_applied);
    lemma_reaches_clock(c, "server_time"@, crate::number::signed_decimal(time as int), now);
}

/// Behind the setting `min_client_build`, a client of an earlier build is too old and any other goes
/// on; behind `cur_client_build`, a client of an earlier build is warned.
pub proof fn builds_are_compared(c: ConfigView, build: i32, now: i64)
    ensures
        crate::config::setting_applied(c, "min_client_build"@, crate::number::signed_decimal(build as int), now) == (
            c,
            if build > 178 {
                SettingOutcome::ClientTooOld(build)
            } else {
                SettingOutcome::Applied
            },
        ),
        crate::config::setting_applied(c, "cur_client_build"@, crate::number::signed_decimal(build as int), now) == (
            ConfigView { warn_new_client: c.warn_new_client || build > 178, ..c },
            SettingOutcome::Applied,
        ),
{
    crate::number::lemma_parse_signed_decimal(build as int);
    lemma_keys();
    lemma_keys_stay();
    reveal(crate::config::clock_applied);
    lemma_reaches_clock(c, "min_client_build"@, crate::number::signed_decimal(build as int), now);
    lemma_reaches_clock(c, "cur_client_build"@, crate::number::signed_decimal(build as int), now);
}

/// Hyphens in the name of a setting count as underscores.
pub proof fn hyphens_count_as_underscores(c: ConfigView, hyphened: Seq<char>, underscored: Seq<char>, value: Seq<char>, now: i64)
    requires
        hyphened.len() == underscored.len(),
        forall|j: int|
            0 <= j < hyphened.len() ==> #[trigger] underscored[j] == (if hyphened[j] == '-' {
                '_'
            } else {
                hyphened[j]
            }),
    ensures
        crate::config::setting_applied(c, hyphened, value, now) == crate::config::setting_applied(
            c,
            underscored,
            value,
            now,
        ),
{
    assert(crate::text::replace_char(hyphened, '-', '_') =~= underscored);
    assert(crate::text::replace_char(underscored, '-', '_') =~= underscored);
}

/// A setting under any other name changes nothing.
pub proof fn other_settings_change_nothing(c: ConfigView, key: Seq<char>, value: Seq<char>, now: i64)
    requires
        forall|j: int| 0 <= j < key.len() ==> #[trigger] key[j] != '-',
        key != "min_client_build"@,
        key != "cur_client_build"@,
        key != "server_time"@,
        key != "rpc_server_port"@,
        key != "rpc_server_ip"@,
        key != "rpc_path"@,
        key != "host"@,
        key != "port"@,
        key != "throttle_bytes"@,
        key != "disklimit_bytes"@,
        key != "diskremaining_bytes"@,
        key != "filesystem_blocksize"@,
        key != "max_connections"@,
        key != "max_allowed_filesize"@,
        key != "max_filename_length"@,
        key != "static_ranges"@,
        key != "static_range_count"@,
        key != "rescan_cache"@,
        key != "verify_cache"@,
        key != "use_less_memory"@,
        key != "disable_logging"@,
        key != "disable_bwm"@,
        key != "disable_download_bwm"@,
        key != "disable_file_verification"@,
        key != "disable_ip_origin_check"@,
        key != "disable_flood_control"@,
        key != "skip_free_space_check"@,
        key != "flush_logs"@,
        key != "cache_dir"@,
        key != "temp_dir"@,
        key != "data_dir"@,
        key != "log_dir"@,
        key != "download_dir"@,
        key != "image_proxy_type"@,
        key != "image_proxy_host"@,
        key != "image_proxy_port"@,
    ensures
        crate::config::setting_applied(c, key, value, now) == (c, SettingOutcome::Unknown),
{
    lemma_no_hyphen(key);
    reveal(crate::config::clock_applied);
    reveal(crate::config::network_applied);
    reveal(crate::config::amount_applied);
    reveal(crate::config::flag_applied);
    reveal(crate::config::check_applied);
    reveal(crate::config::place_applied);
}

/// A line with a key of small letters and underscores, an equals sign and a value has that setting
/// applied behind all the lines before it. A line
/// without an equals sign changes nothing.
pub proof fn each_line_is_applied(c: ConfigView, lines: Seq<Seq<char>>, key: Seq<char>, value: Seq<char>, now: i64)
    requires
        crate::config::lines_applied(c, lines, now).1 is None,
        forall|j: int|
            0 <= j < key.len() ==> ('\0' <= #[trigger] key[j] <= '\u{7f}') && key[j] != '=' && !('A' <= key[j]
                <= 'Z'),
    ensures
        ({
            let before = crate::config::lines_applied(c, lines, now).0;
            let d = crate::config::setting_applied(before, key, value, now);
            let t = crate::config::lines_applied(c, lines.push(key + seq!['='] + value), now);
            &&& t.0 == d.0
            &&& t.1 == (match d.1 {
                SettingOutcome::ClientTooOld(build) => Some(build),
                _ => None,
            })
            &&& crate::config::lines_applied(c, lines.push(key), now) == (before, None::<i32>)
        }),
{
    let line = key + seq!['='] + value;
    assert(!key.contains('='));
    crate::text::lemma_split_first(key, '=', value);
    assert(lines.push(line).drop_last() =~= lines);
    assert(lines.push(key).drop_last() =~= lines);
    crate::text::lemma_index_of(key, '=');
    assert(vstd::utf8::is_ascii_chars(key));
    assert(crate::text::ascii_lower(key) =~= key);
}

/// Behind the settings on servers, ranges and the client's host, the fields of those names are what
/// the value lists or names.
pub proof fn lists_reach_their_fields(c: ConfigView, value: Seq<char>, now: i64)
    ensures
        crate::config::setting_applied(c, "rpc_server_ip"@, value, now) == (
            ConfigView { rpc_servers: crate::config::servers_in(crate::text::split(value, ';')), ..c },
            SettingOutcome::Applied,
        ),
        crate::config::setting_applied(c, "static_ranges"@, value, now) == (
            ConfigView { static_ranges: crate::config::ranges_in(crate::text::split(value, ';')), ..c },
            SettingOutcome::Applied,
        ),
        crate::config::setting_applied(c, "host"@, value, now) == (
            ConfigView { client_host: crate::config::host_of(value), ..c },
            SettingOutcome::Applied,
        ),
{
    lemma_keys();
    lemma_keys_stay();
    reveal(crate::config::network_applied);
    reveal(crate::config::amount_applied);
    lemma_reaches_network(c, "rpc_server_ip"@, value, now);
    lemma_reaches_amount(c, "static_ranges"@, value, now);
    lemma_reaches_network(c, "host"@, value, now);
}

} // verus!
