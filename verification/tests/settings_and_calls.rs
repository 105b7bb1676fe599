//! Settings, calls to the servers, and which server is asked.

use hath_rs::config::{CliArgs, Config, LoginFile, SettingOutcome};
use hath_rs::ip::IpAddr;
use hath_rs::url::{
    check_fits, check_fits_host, check_fits_query, measure_part, measure_text,
};
use hath_rs::rpc::{
    default_rpc_host, make_gallery_queue_url, make_rpc_query, make_rpc_query_at, make_rpc_url,
    make_signed_query,
    parse_server_response, Action, ResponseStatus,
};
use hath_rs::rpc_client::{
    after_still_alive, classify_queue_reply, failure_report_add, find_named_source, gallery_file_add,
    gallery_file_url, gallery_queue_add, host_or_unknown, next_send_step, rpc_status_action, source_url,
    static_range_fetch_add,
    still_alive_add, url_host_or_unknown, Attempt, CallStep, GalleryAck, GalleryFileRequest,
    GalleryQueueReply, HeartbeatStep, RpcRequestError, RpcRouter, RpcState, RpcStatusAction, SendStep,
    KEY_EXPIRED_RETRY_LIMIT,
};
use hath_rs::types::ClientKey;

fn test_args() -> CliArgs {
    let mut args = CliArgs::default();
    args.client_id = Some(12345);
    args.client_key = Some("abcde12345abcde12345".to_string());
    args
}

fn test_config() -> Config {
    Config::load(test_args(), LoginFile::Missing).unwrap()
}

fn config_with_rpc_servers(servers: &str) -> Config {
    let mut config = test_config();
    config.apply_setting("rpc_server_ip", servers);
    config
}

#[test]
fn test_load_valid() {
    let config = test_config();
    assert_eq!(config.client_id.0, 12345);
}

#[test]
fn test_apply_server_time() {
    let mut config = test_config();
    let st = chrono::Utc::now().timestamp();
    config.apply_server_settings(&vec![format!("server_time={}", st)]);
    assert!(config.server_time_delta.abs() < 5);
}

#[test]
fn test_static_ranges() {
    let mut config = test_config();
    config.apply_server_settings(&vec!["static_ranges=abcd;ef01".to_string()]);
    assert!(config.is_static_range("abcd"));
    assert!(!config.is_static_range("9999"));
}

#[test]
fn test_max_connections() {
    let mut config = test_config();
    config.throttle_bytes = 1_000_000;
    assert_eq!(config.max_connections(), 120);
}

#[test]
fn test_get_rpc_host_normalizes_ipv4_mapped() {
    let mut config = test_config();
    config.apply_setting("rpc_server_ip", "::ffff:192.0.2.1");

    assert_eq!(config.get_rpc_host(&RpcState::default()), "192.0.2.1");
}

#[test]
fn settings_are_applied_by_their_lower_case_names() {
    let mut config = test_config();
    let lines = vec![
        "THROTTLE_BYTES=5000".to_string(),
        "no equals sign".to_string(),
        "unheard_of=1".to_string(),
        "disable_logging=true".to_string(),
    ];
    assert_eq!(config.apply_server_settings(&lines), None);
    assert_eq!(config.throttle_bytes, 5000);
    assert!(config.disable_logging);
    assert!(matches!(config.apply_setting("unheard_of", "1"), SettingOutcome::Unknown));
    assert!(matches!(config.apply_setting("min_client_build", "9999"), SettingOutcome::ClientTooOld(9999)));
    let response = parse_server_response("OK\nmin_client_build=9999", "h");
    assert_eq!(config.apply_server_response(&response), Some(9999));
}

#[test]
fn credentials_come_from_the_command_line_or_from_the_file() {
    let config = test_config();
    let text = config.client_login_text();
    assert_eq!(text, "12345-abcde12345abcde12345");
    let loaded = Config::load(CliArgs::default(), LoginFile::Content(text)).unwrap();
    assert_eq!(loaded.client_id.0, 12345);
    assert_eq!(loaded.client_key.as_str(), "abcde12345abcde12345");
    assert!(Config::load(CliArgs::default(), LoginFile::Missing).is_err());
    let mut bad = test_args();
    bad.client_key = Some("short".to_string());
    assert!(Config::load(bad, LoginFile::Missing).is_err());
}

#[test]
fn test_server_stat_unsigned() {
    let config = test_config();
    let q = make_rpc_query(Action::ServerStat, "", &config);
    assert_eq!(q, "clientbuild=178&act=server_stat");
    assert!(!q.contains("actkey="));
}

#[test]
fn test_make_rpc_query() {
    let config = test_config();
    let q = make_rpc_query(Action::ClientStart, "", &config);
    assert!(q.contains("clientbuild=178"));
    assert!(q.contains("act=client_start"));
    assert!(q.contains("cid=12345"));
    assert!(q.contains("actkey="));
}

#[test]
fn a_query_is_signed_for_its_time() {
    let config = test_config();
    let q = make_rpc_query_at(Action::StillAlive, "resume", &config, 1_700_000_000);
    let key = hath_rs::utils::sha1_string(
        "hentai@home-still_alive-resume-12345-1700000000-abcde12345abcde12345",
    );
    assert_eq!(
        q,
        format!("clientbuild=178&act=still_alive&add=resume&cid=12345&acttime=1700000000&actkey={}", key)
    );
}

#[test]
fn test_make_rpc_url_normalizes_ipv4_mapped_host() {
    let mut config = test_config();
    config.apply_setting("rpc_server_ip", "::ffff:192.0.2.1");

    let host = default_rpc_host(&config);
    let url = make_rpc_url(Action::GetCertificate, "", &config, &host).unwrap();

    assert!(url
        .as_str()
        .starts_with("http://192.0.2.1/15/rpc?clientbuild=178&act=get_cert"));
}

#[test]
fn test_make_rpc_url_sets_non_default_rpc_port() {
    let mut config = test_config();
    config.apply_setting("rpc_server_ip", "192.0.2.1");
    config.apply_setting("rpc_server_port", "8080");

    let host = default_rpc_host(&config);
    let url = make_rpc_url(Action::GetCertificate, "", &config, &host).unwrap();

    assert!(url
        .as_str()
        .starts_with("http://192.0.2.1:8080/15/rpc?clientbuild=178&act=get_cert"));
}

#[test]
fn hosts_that_are_none_make_no_url() {
    let config = test_config();
    assert!(make_rpc_url(Action::GetCertificate, "", &config, "bad host").is_err());
    // Long names are as good as short ones.
    let long = format!("{}.invalid", "a".repeat(3_000_000));
    let url = make_rpc_url(Action::GetCertificate, "", &config, &long).unwrap();
    assert!(url.starts_with(&format!("http://{}/15/rpc?", long)));
    let url = make_rpc_url(Action::StillAlive, &long, &config, "h.invalid").unwrap();
    assert!(url.contains(&long));
    assert_eq!(measure_text("http://a.b/%20?x"), Some(83));
    assert_eq!(measure_text("\u{e9}"), Some(256));
    assert_eq!(measure_part("/a b?\u{e9}"), Some(21));
    assert!(check_fits("http://h/", &long));
    assert!(check_fits_host("http://h/", &long));
    assert!(check_fits_query("http://h/#x", &long));
    let wide = "\u{e9}".repeat(17_000_000);
    assert_eq!(measure_text(&wide), None);
    assert!(!check_fits_host("http://h/", &wide));
    let e = make_rpc_url(Action::GetCertificate, "", &config, &wide).unwrap_err();
    assert_eq!(e.to_text(), "RPC error: invalid URL base: too long");
    assert_eq!(default_rpc_host(&config), "rpc.hentaiathome.net");
    assert_eq!(url_host_or_unknown("http://[::1]:80/x"), "[::1]");
    assert_eq!(url_host_or_unknown("mailto:a@b"), "unknown");
}

#[test]
fn test_parse_ok() {
    let r = parse_server_response("OK\nkey=val", "rpc.example.com");
    assert_eq!(r.status, ResponseStatus::Okay);
    assert_eq!(r.lines, vec!["key=val"]);
}

#[test]
fn test_parse_fail() {
    let r = parse_server_response("FAIL_CODE", "rpc.example.com");
    assert_eq!(r.status, ResponseStatus::Fail);
    assert_eq!(r.fail_code.unwrap(), "FAIL_CODE");
}

#[test]
fn test_parse_empty_is_null() {
    let r = parse_server_response("", "rpc.example.com");
    assert_eq!(r.status, ResponseStatus::Null);
}

#[test]
fn test_parse_key_expired_is_fail() {
    let r = parse_server_response("KEY_EXPIRED", "rpc.example.com");

    assert_eq!(r.status, ResponseStatus::Fail);
    assert_eq!(r.fail_code.as_deref(), Some("KEY_EXPIRED"));
    assert_eq!(r.fail_host.as_deref(), Some("rpc.example.com"));
}

#[test]
fn a_host_is_noted_in_lower_case() {
    let r = parse_server_response("TEMPORARILY_UNAVAILABLE now", "RPC.Example.COM");
    assert_eq!(r.status, ResponseStatus::Null);
    assert_eq!(r.fail_host.as_deref(), Some("rpc.example.com"));
    assert_eq!(r.fail_code.as_deref(), Some("TEMPORARILY_UNAVAILABLE now"));
}

#[test]
fn key_expired_retries_once_for_retryact_calls() {
    assert_eq!(KEY_EXPIRED_RETRY_LIMIT, 1);
    assert!(Action::ClientStart.supports_key_expired_retry());
    assert!(!Action::StillAlive.supports_key_expired_retry());
    assert!(!Action::StaticRangeFetch.supports_key_expired_retry());
}

#[test]
fn rpc_http_statuses_follow_file_downloader_retry_shape() {
    assert_eq!(rpc_status_action(200), RpcStatusAction::ReadBody);
    assert_eq!(rpc_status_action(404), RpcStatusAction::Abort);
    assert_eq!(rpc_status_action(403), RpcStatusAction::Retry);
    assert_eq!(rpc_status_action(500), RpcStatusAction::Retry);
}

#[test]
fn rpc_router_reuses_valid_current_host() {
    let config = config_with_rpc_servers("192.0.2.1;192.0.2.2");
    let mut router = RpcRouter::default();
    router.mark_success("192.0.2.1".to_string());

    assert_eq!(router.select_host(&config), "192.0.2.1");
}

#[test]
fn rpc_router_invalidates_current_host_after_server_list_changes() {
    let mut config = config_with_rpc_servers("192.0.2.1");
    let mut router = RpcRouter::default();
    router.mark_success("192.0.2.1".to_string());

    config.apply_setting("rpc_server_ip", "192.0.2.2");

    assert_eq!(router.select_host(&config), "192.0.2.2");
    assert!(router.state.rpc_current.is_none());
}

#[test]
fn rpc_router_skips_last_failed_host_when_alternates_exist() {
    let config = config_with_rpc_servers("192.0.2.1;192.0.2.2");
    let mut router = RpcRouter::default();
    router.mark_failed("192.0.2.1".to_string());

    assert_eq!(router.select_host(&config), "192.0.2.2");
}

#[test]
fn key_expired_refreshes_stat_and_retries_retryact_rpc() {
    let mut router = RpcRouter::default();
    let expired = parse_server_response("KEY_EXPIRED", "127.0.0.1");
    assert_eq!(
        router.after_response(Action::ClientStart, 0, &expired, "127.0.0.1"),
        CallStep::RefreshAndRetry
    );
    let stat = parse_server_response("OK\nserver_time=1700000000", "127.0.0.1");
    assert!(router.after_stat(Some(&stat)));
    let done = parse_server_response("OK\n", "127.0.0.1");
    assert_eq!(router.after_response(Action::ClientStart, 1, &done, "127.0.0.1"), CallStep::Finish);
    assert_eq!(done.status, ResponseStatus::Okay);
    assert_eq!(router.after_response(Action::ClientStart, 1, &expired, "127.0.0.1"), CallStep::Finish);
    assert_eq!(router.after_response(Action::StillAlive, 0, &expired, "127.0.0.1"), CallStep::Finish);
}

#[test]
fn rpc_http_500_retries_against_fake_rpc_server() {
    assert_eq!(next_send_step(0, Attempt::Status(500)), SendStep::SendAgain);
    assert_eq!(next_send_step(1, Attempt::Body), SendStep::Done);
    assert_eq!(next_send_step(1, Attempt::Broken), SendStep::SendAgain);
    assert_eq!(next_send_step(2, Attempt::Broken), SendStep::GiveUp);
    assert_eq!(next_send_step(0, Attempt::Status(404)), SendStep::GiveUp);
    assert_eq!(
        RpcRequestError::from_status(500).message,
        "server returned 500 Internal Server Error"
    );
    let mut router = RpcRouter::default();
    let e = router.after_failure("h", "request", "server returned 404 Not Found");
    assert_eq!(e.to_text(), "RPC error: request failed: server returned 404 Not Found");
    assert_eq!(router.state.rpc_last_failed.as_deref(), Some("h"));
}

#[test]
fn gallery_queue_uses_fixed_dl_path_and_acknowledges_previous_gallery() {
    let config = config_with_rpc_servers("127.0.0.1");
    let add = gallery_queue_add(Some(&GalleryAck { gid: 42, minxres: "org".to_string() }));
    let url = make_gallery_queue_url(&add, &config, "127.0.0.1").unwrap();
    assert!(url.starts_with("http://127.0.0.1/15/dl?"));
    assert!(url.contains("act=fetchqueue"));
    assert!(url.contains("add=42;org"));
    assert!(matches!(
        classify_queue_reply("NO_PENDING_DOWNLOADS".to_string()),
        GalleryQueueReply::NoPendingDownloads
    ));
}

#[test]
fn gallery_file_url_requires_a_valid_rpc_url() {
    let response = parse_server_response("OK\nhttp://example.test/file", "h");
    assert_eq!(gallery_file_url(&response).unwrap(), "http://example.test/file");
    let add = gallery_file_add(&GalleryFileRequest {
        gid: 1,
        page: 2,
        fileindex: 3,
        xres: "org".to_string(),
        attempt: 1,
    });
    assert_eq!(add, "1;2;3;org;1");
    assert!(find_named_source(&parse_server_response("OK\n", "h")).is_err());
    assert!(gallery_file_url(&parse_server_response("OK\nno url", "h")).is_err());
}

#[test]
fn calls_carry_what_they_should() {
    assert_eq!(still_alive_add(true), "resume");
    assert_eq!(still_alive_add(false), "");
    assert_eq!(static_range_fetch_add("1", "org", "f"), "1;org;f");
    assert_eq!(failure_report_add(&vec![]), None);
    assert!(matches!(
        after_still_alive(&parse_server_response("TERM_BAD_NETWORK", "h")),
        HeartbeatStep::ShutDown
    ));
}

#[test]
fn keys_have_twenty_letters_or_digits() {
    let key = ClientKey::new("abcde12345abcde12345").unwrap();
    assert_eq!(key.as_bytes().len(), 20);
    assert!(IpAddr::parse("192.0.2.1").unwrap().same(&IpAddr::parse("192.0.2.1").unwrap()));
}

#[test]
fn what_was_read_of_a_url_decides() {
    assert_eq!(host_or_unknown(Some("h".to_string())), "h");
    assert_eq!(host_or_unknown(None), "unknown");
    assert_eq!(source_url(Ok("http://h/".to_string())).unwrap(), "http://h/");
    let e = source_url(Err("empty host".to_string())).unwrap_err();
    assert!(e.to_text().contains("invalid dlfetch URL: empty host"));
}

#[test]
fn signed_queries_carry_their_key() {
    assert_eq!(
        make_signed_query(Action::StillAlive, "resume", 12345, -7, "k"),
        "clientbuild=178&act=still_alive&add=resume&cid=12345&acttime=-7&actkey=k"
    );
}

#[test]
fn saved_credentials_are_read_back() {
    let text = test_config().client_login_text();
    assert_eq!(text, "12345-abcde12345abcde12345");
    let (id, key) = Config::load_client_login(Some(&text)).unwrap().unwrap();
    assert_eq!((id.0, key.as_str()), (12345, "abcde12345abcde12345"));
    assert!(Config::load_client_login(None).unwrap().is_none());
    for (text, message) in [
        ("12345", "malformed client_login file"),
        ("x-abcde12345abcde12345", "invalid client ID"),
        ("12345-short", "invalid client key format"),
    ] {
        let e = Config::load_client_login(Some(text)).unwrap_err();
        assert!(e.to_text().contains(message));
    }
}
