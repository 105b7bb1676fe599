//! Connections, requests and what they are answered.

use hath_rs::config::{CliArgs, Config, LoginFile};
use hath_rs::error::HathError;
use hath_rs::hvfile::HVFile;
use hath_rs::ip::IpAddr;
use hath_rs::rpc::parse_server_response;
use hath_rs::server::access_log::{
    access_log_completion_from_body, access_log_completion_line, access_log_completion_on_drop,
    access_log_prefix, access_log_request_info, declared_content_length, AccessLogBody,
    AccessLogCompletion,
};
use hath_rs::server::admission::{
    send_buffer_size, Admission, AdmissionOutcome, AdmissionRejection, FloodControl,
    FloodControlEntry,
};
use hath_rs::server::body::{BodyCompletion, BodyCompletionSnapshot};
use hath_rs::server::handler::{
    after_source_fetch, command_done_response, download_error_response, handle_request,
    handle_server_command, is_cache_hit, keep_source, monitor_for, parse_sources, proxy_test_response,
    session_kind, should_verify, source_step, transfer_response, CommandStep, RequestClientContext, RequestStep,
    SourceStep,
};
use hath_rs::server::peer::{is_rpc_authorized, AdmissionClass, SessionOrigin};
use hath_rs::server::request::{
    check_key, check_keystamp, parse_request, parse_request_at, validate_keystamp, validate_keystamp_at, RequestType,
};
use hath_rs::server::response::{
    describe_status, file_response, finalize, finalize_at, head_response, header_bytes,
    redirect_response, text_response, BodySource, ResponsePolicy,
};
use hath_rs::server::session::{
    SessionKind, SessionManager, SessionState, SessionTimeoutReason,
};
use hath_rs::utils::sha1_string;

const SECOND: u64 = 1_000_000_000;
const KEY: &str = "abcde12345abcde12345";
const FILEID: &str = "aabbccddeeff00112233445566778899aabbccdd-4-jpg";

fn test_config() -> Config {
    let mut args = CliArgs::default();
    args.client_id = Some(123);
    args.client_key = Some(KEY.to_string());
    Config::load(args, LoginFile::Missing).unwrap()
}

fn ip(text: &str) -> IpAddr {
    IpAddr::parse(text).unwrap()
}

#[test]
fn test_favicon() {
    let c = test_config();
    assert!(matches!(
        parse_request("GET", "/favicon.ico", ip("127.0.0.1"), &c),
        RequestType::Favicon
    ));
}

#[test]
fn test_robots() {
    let c = test_config();
    assert!(matches!(
        parse_request("GET", "/robots.txt", ip("127.0.0.1"), &c),
        RequestType::Robots
    ));
}

#[test]
fn test_keystamp_too_short_rejected() {
    let c = test_config();
    assert!(!validate_keystamp("test", Some("1234567890-12345"), &c));
}

#[test]
fn test_keystamp_without_separator() {
    let c = test_config();
    assert!(!validate_keystamp("test", Some("noseparator"), &c));
}

#[test]
fn good_keystamps_are_taken_for_fifteen_minutes() {
    let c = test_config();
    let digest = sha1_string(&format!("1000000-test-{}-hotlinkthis", KEY));
    let stamp = format!("1000000-{}", &digest[..10]);
    assert!(validate_keystamp_at("test", Some(&stamp), &c, 1_000_899));
    assert!(validate_keystamp_at("test", Some(&stamp.to_uppercase()), &c, 999_101));
    assert!(!validate_keystamp_at("test", Some(&stamp), &c, 1_000_900));
    assert!(!validate_keystamp_at("test", Some(&stamp), &c, 999_100));
    assert!(!validate_keystamp_at("other", Some(&stamp), &c, 1_000_000));
    assert!(!validate_keystamp_at("test", None, &c, 1_000_000));
}

#[test]
fn file_requests_are_read() {
    let c = test_config();
    let digest = sha1_string(&format!("50-{}-{}-hotlinkthis", FILEID, KEY));
    let target = format!(
        "http://h.invalid/h/{}/keystamp%3d50-{};fileindex=7;xres=org/name.jpg",
        FILEID,
        &digest[..10]
    );
    match parse_request_at("HEAD", &target, ip("192.0.2.1"), &c, 60) {
        RequestType::FileServe { fileid, hv_file, additional, keystamp_valid, head_only } => {
            assert_eq!(fileid, FILEID);
            assert_eq!(hv_file.unwrap().size, 4);
            assert_eq!(additional.fileindex.as_deref(), Some("7"));
            assert_eq!(additional.xres.as_deref(), Some("org"));
            assert!(keystamp_valid);
            assert!(head_only);
        }
        _ => panic!("a file was asked for"),
    }
    assert!(matches!(
        parse_request_at("POST", &target, ip("192.0.2.1"), &c, 60),
        RequestType::MethodNotAllowed
    ));
    assert!(matches!(
        parse_request_at("GET", "/nothing", ip("192.0.2.1"), &c, 60),
        RequestType::NotFound
    ));
    assert!(matches!(parse_request_at("GET", "/h", ip("192.0.2.1"), &c, 60), RequestType::BadRequest));
}

#[test]
fn commands_are_taken_from_servers_with_the_right_key_only() {
    let mut c = test_config();
    c.apply_setting("rpc_server_ip", "192.0.2.7");
    let key = sha1_string(&format!("hentai@home-servercmd-still_alive-x-123-1000-{}", KEY));
    let target = format!("/servercmd/still_alive/x/1000/{}", key);
    match parse_request_at("GET", &target, ip("192.0.2.7"), &c, 1300) {
        RequestType::ServerCommand { command, additional, valid } => {
            assert_eq!(command, "still_alive");
            assert_eq!(additional, "x");
            assert!(valid);
        }
        _ => panic!("a command was given"),
    }
    let late = parse_request_at("GET", &target, ip("192.0.2.7"), &c, 1301);
    assert!(matches!(&late, RequestType::ServerCommand { valid: false, .. }));
    let elsewhere = parse_request_at("GET", &target, ip("192.0.2.8"), &c, 1300);
    assert!(matches!(&elsewhere, RequestType::ServerCommand { valid: false, .. }));
    assert!(matches!(handle_request(&late), RequestStep::Answer(s) if s.status == 403));
    assert!(matches!(session_kind(&late), SessionKind::Normal | SessionKind::Servercmd));
}

#[test]
fn speed_tests_need_a_key() {
    let c = test_config();
    let key = sha1_string(&format!("hentai@home-speedtest-5000-1000-123-{}", KEY));
    let good = parse_request_at("GET", &format!("/t/5000/1000/{}", key), ip("192.0.2.1"), &c, 1000);
    assert!(matches!(&good, RequestType::SpeedTest { testsize: 5000, valid: true, .. }));
    match handle_request(&good) {
        RequestStep::Answer(s) => {
            assert_eq!(s.status, 200);
            assert_eq!(s.declared_length, 5000);
            assert!(matches!(s.body, BodySource::Random(5000)));
        }
        _ => panic!("answered at once"),
    }
    let bad = parse_request_at("GET", "/t/5000/1000/key", ip("192.0.2.1"), &c, 1000);
    assert!(matches!(handle_request(&bad), RequestStep::Answer(s) if s.status == 403));
}

#[test]
fn requests_without_work_are_answered_at_once() {
    assert!(matches!(handle_request(&RequestType::NotFound), RequestStep::Answer(s) if s.status == 404));
    assert!(matches!(handle_request(&RequestType::BadRequest), RequestStep::Answer(s) if s.status == 400));
    assert!(matches!(
        handle_request(&RequestType::MethodNotAllowed),
        RequestStep::Answer(s) if s.status == 405
    ));
    match handle_request(&RequestType::Favicon) {
        RequestStep::Answer(s) => {
            assert_eq!(s.status, 301);
            assert!(s.headers.contains(&(
                "location".to_string(),
                "https://e-hentai.org/favicon.ico".to_string()
            )));
        }
        _ => panic!("a redirection"),
    }
    match handle_request(&RequestType::Robots) {
        RequestStep::Answer(s) => {
            assert!(matches!(s.body, BodySource::Text(t) if t == "User-agent: *\nDisallow: /"))
        }
        _ => panic!("a text"),
    }
}

#[test]
fn server_commands_lead_to_actions() {
    assert!(matches!(handle_server_command("STILL_ALIVE", ""), CommandStep::Answer(s)
        if matches!(&s.body, BodySource::Text(t) if t == "I feel FANTASTIC and I'm still alive")));
    assert!(matches!(handle_server_command("refresh_settings", ""), CommandStep::RefreshSettings));
    assert!(matches!(handle_server_command("start_downloader", ""), CommandStep::StartDownloader));
    assert!(matches!(handle_server_command("refresh_certs", ""), CommandStep::RefreshCerts));
    assert!(matches!(handle_server_command("speed_test", "testsize=77"), CommandStep::Answer(s)
        if s.declared_length == 77));
    assert!(matches!(handle_server_command("speed_test", ""), CommandStep::Answer(s)
        if s.declared_length == 1_000_000));
    assert!(matches!(handle_server_command("other", ""), CommandStep::Answer(s)
        if matches!(&s.body, BodySource::Text(t) if t == "INVALID_COMMAND")));
    match handle_server_command(
        "threaded_proxy_test",
        "hostname=h;protocol=https;port=443;testsize=10;testcount=2;testtime=5;testkey=k",
    ) {
        CommandStep::ThreadedProxyTest(t) => {
            assert_eq!(t.hostname, "h");
            assert_eq!(t.protocol, "https");
            assert_eq!((t.port, t.testsize, t.testcount, t.testtime), (443, 10, 2, 5));
            assert_eq!(t.testkey, "k");
        }
        _ => panic!("a test"),
    }
    assert!(matches!(
        handle_server_command("threaded_proxy_test", "hostname=h"),
        CommandStep::Answer(_)
    ));
    assert!(matches!(proxy_test_response(2, 30).body, BodySource::Text(t) if t == "OK:2-30"));
    assert!(matches!(command_done_response().body, BodySource::Text(t) if t.is_empty()));
}

#[test]
fn traffic_policy_exempts_only_local_peers() {
    assert!(RequestClientContext::<()>::new(false, None).records_traffic());
    assert!(!RequestClientContext::<()>::new(true, None).records_traffic());
}

#[test]
fn cached_files_are_served_where_their_size_is_right() {
    let hv = HVFile::from_fileid(FILEID).unwrap();
    assert!(is_cache_hit(&hv, Some(4)));
    assert!(!is_cache_hit(&hv, Some(5)));
    assert!(!is_cache_hit(&hv, None));
    let mut c = test_config();
    assert!(should_verify(true, &c, false));
    assert!(!should_verify(true, &c, true));
    assert!(!should_verify(false, &c, false));
    c.disable_file_verification = true;
    assert!(!should_verify(true, &c, false));
    let head = file_response(&hv, 4, true).unwrap();
    assert_eq!((head.status, head.declared_length), (200, 4));
    assert_eq!(head.content_type, "image/jpeg");
    assert!(file_response(&hv, 5, true).is_err());
}

#[test]
fn sources_are_the_urls_in_the_reply() {
    let reply = parse_server_response("OK\nhttp://a.invalid/x y\nno url\nhttps://b.invalid", "h");
    assert_eq!(
        parse_sources(&reply.lines),
        vec!["http://a.invalid/x%20y", "https://b.invalid/"]
    );
    assert!(matches!(after_source_fetch(Some(&reply)), SourceStep::Download(v) if v.len() == 2));
    assert!(matches!(after_source_fetch(None), SourceStep::NotFound(s) if s.status == 404));
    let none = parse_server_response("OK\n", "h");
    assert!(matches!(after_source_fetch(Some(&none)), SourceStep::NotFound(_)));
}

#[test]
fn failed_downloads_are_answered_with_their_status() {
    let e = HathError::ProxyDownloader { status: 502, message: "gone".to_string() };
    let r = download_error_response(&e);
    assert_eq!(r.status, 502);
    assert!(matches!(r.body, BodySource::Text(t) if t == "gone"));
    let r = download_error_response(&HathError::Io("x".to_string()));
    assert_eq!(r.status, 500);
    let r = transfer_response("image/png", 9, false, true);
    assert_eq!((r.status, r.declared_length), (200, 9));
    assert_eq!(transfer_response("image/png", 9, false, false).status, 500);
}

#[test]
fn quota_is_kept_where_the_settings_say_so() {
    let mut c = test_config();
    c.throttle_bytes = 1000;
    assert!(monitor_for(&c).is_some());
    c.disable_bwm = true;
    assert!(monitor_for(&c).is_none());
}

const TCP_PACKET_SIZE: usize = 1460;

fn header<'a>(headers: &'a [(String, String)], name: &str) -> Option<&'a str> {
    headers.iter().find(|(n, _)| n == name).map(|(_, v)| v.as_str())
}

#[test]
fn finalization_applies_common_headers_flow_control_and_traffic_accounting() {
    let policy = ResponsePolicy::new(false, true);
    let response = finalize(Ok(text_response(200, &"x".repeat(TCP_PACKET_SIZE * 2))));

    assert_eq!(
        header(&response.headers, "content-length"),
        Some((TCP_PACKET_SIZE * 2).to_string().as_str())
    );
    assert_eq!(header(&response.headers, "connection"), Some("close"));
    assert!(header(&response.headers, "date").is_some());
    assert!(header(&response.headers, "server").is_some());
    assert_eq!(
        header_bytes(&response) as usize,
        15 + "OK".len()
            + response.headers.iter().map(|(n, v)| n.len() + 2 + v.len() + 2).sum::<usize>()
            + 2
    );
    let cost = policy.head_cost(&response);
    assert_eq!(cost.recorded, Some(header_bytes(&response)));
    assert_eq!(cost.quota, Some(header_bytes(&response)));
}

#[test]
fn fallback_uses_the_same_common_header_policy() {
    let response = finalize(Err(HathError::Cache("unavailable".into())));

    assert_eq!(response.status, 500);
    assert!(header(&response.headers, "content-type").is_some());
    assert!(header(&response.headers, "date").is_some());
    assert!(header(&response.headers, "server").is_some());
    assert_eq!(header(&response.headers, "connection"), Some("close"));
    let cost = ResponsePolicy::new(true, false).head_cost(&response);
    assert_eq!(cost.recorded, None);
    assert_eq!(cost.quota, None);
}

#[test]
fn head_response_counts_headers_but_not_body_bytes() {
    let response = finalize(Ok(head_response("text/html; charset=iso-8859-1", 1024)));

    assert_eq!(header(&response.headers, "content-length"), Some("1024"));
    assert!(matches!(response.body, BodySource::Empty));
    let cost = ResponsePolicy::new(false, false).head_cost(&response);
    assert_eq!(cost.recorded, Some(header_bytes(&response)));
}

#[test]
fn the_head_has_a_fixed_order_and_a_date_in_the_usual_form() {
    let r = finalize_at(Ok(text_response(404, "x")), "D");
    let names: Vec<&str> = r.headers.iter().map(|(n, _)| n.as_str()).collect();
    assert_eq!(
        names,
        vec!["content-type", "connection", "date", "server", "cache-control", "content-length"]
    );
    assert_eq!(header(&r.headers, "date"), Some("D"));
    let date = finalize(Ok(text_response(200, "x")));
    let date = header(&date.headers, "date").unwrap();
    assert_eq!(date.len(), 29);
    assert!(date.ends_with(" GMT"));
    assert_eq!(describe_status(404), "404 Not Found");
    assert_eq!(describe_status(599), "599 <unknown status code>");
}

#[test]
fn redirections_need_a_location_that_a_header_can_hold() {
    let r = redirect_response("http://a/").unwrap();
    assert_eq!(header(&r.headers, "location"), Some("http://a/"));
    assert!(redirect_response("http://a/\n").is_err());
}

#[test]
fn test_access_log_lines_match_java_shape() {
    let prefix = access_log_prefix(12, ip("222.135.74.27"));
    let info = access_log_request_info(&prefix, 200, Some(145678), false);

    assert_eq!(
        format!("{}GET /h/file HTTP/1.1", info),
        "{12/222.135.74.27}   Code=200 Bytes=145678   GET /h/file HTTP/1.1"
    );
    assert_eq!(
        access_log_completion_line(&info, "0.75", 750, "194.24", AccessLogCompletion::Finished),
        "{12/222.135.74.27}   Code=200 Bytes=145678   Finished processing request in 0.75 seconds (194.24 KB/s)"
    );
    assert_eq!(
        access_log_completion_line(
            &info,
            "0.75",
            750,
            "194.24",
            AccessLogCompletion::Incomplete {
                reason: "proxy_timeout",
                offset: 4096,
                total_size: 145678,
            },
        ),
        "{12/222.135.74.27}   Code=200 Bytes=145678   Incomplete processing request in 0.75 seconds (194.24 KB/s) reason=proxy_timeout offset=4096 expected=145678"
    );
    assert_eq!(
        access_log_completion_line(
            &info,
            "0.75",
            750,
            "194.24",
            AccessLogCompletion::Aborted { offset: 4096, total_size: 145678 },
        ),
        "{12/222.135.74.27}   Code=200 Bytes=145678   Aborted processing request in 0.75 seconds (194.24 KB/s) offset=4096 expected=145678"
    );
}

#[test]
fn completions_are_logged_once() {
    let mut body = AccessLogBody::new("I ".to_string(), 5);
    let line = body.log_completion("0.00", 9, "1.00", AccessLogCompletion::Finished);
    assert_eq!(line.as_deref(), Some("I Finished processing request in 0.00 seconds"));
    assert_eq!(body.log_completion("0.00", 9, "1.00", AccessLogCompletion::Finished), None);
    let mut none = AccessLogBody::new_without_completion();
    assert_eq!(none.log_completion("0.00", 9, "1.00", AccessLogCompletion::Finished), None);
    let running = BodyCompletionSnapshot {
        completion: BodyCompletion::Running,
        offset: 1,
        total_size: 2,
    };
    assert_eq!(access_log_completion_on_drop(running).label(), "Aborted");
    let cut = BodyCompletionSnapshot {
        completion: BodyCompletion::Incomplete("why"),
        offset: 1,
        total_size: 2,
    };
    let c = access_log_completion_from_body(cut);
    assert_eq!(c.label(), "Incomplete");
    assert!(c.is_warning());
    assert_eq!(declared_content_length(Some("17")), Some(17));
    assert_eq!(declared_content_length(Some("x")), None);
    assert_eq!(declared_content_length(None), None);
}

#[test]
fn flood_control_blocks_eleventh_quick_connection_for_sixty_seconds() {
    let now = 1_000 * SECOND;
    let mut entry = FloodControlEntry { connect_count: 10, last_connect: now, block_until: None };

    assert!(!entry.hit(now));
    assert!(entry.is_blocked(now));
    assert!(entry.block_until.is_some_and(|until| until > now + 50 * SECOND));
}

#[test]
fn flood_control_count_decays_by_elapsed_seconds() {
    let now = 1_000 * SECOND;
    let mut entry =
        FloodControlEntry { connect_count: 10, last_connect: now - 2 * SECOND, block_until: None };

    assert!(entry.hit(now));
    assert_eq!(entry.connect_count, 9);
    assert!(!entry.is_blocked(now));
}

#[test]
fn flood_control_keeps_an_entry_for_each_host() {
    let mut flood = FloodControl::new();
    for _ in 0..10 {
        assert!(flood.check("a", 0));
    }
    assert!(!flood.check("a", 0));
    assert!(flood.check("b", 0));
    assert!(!flood.check("a", 59 * SECOND));
    flood.prune(61 * SECOND);
    assert!(flood.check("a", 61 * SECOND));
}

fn state(kind: SessionKind, start_age: u64, now: u64) -> SessionState {
    let mut s = SessionState::new(now - start_age * SECOND);
    s.kind = kind;
    s
}

#[test]
fn timeout_classifier_matches_java_start_age_rules() {
    let now = 10_000 * SECOND;

    assert_eq!(state(SessionKind::Pending, 29, now).timeout_reason(now), None);
    assert_eq!(
        state(SessionKind::Pending, 31, now).timeout_reason(now),
        Some(SessionTimeoutReason::StartAge)
    );
    assert_eq!(state(SessionKind::Normal, 179, now).timeout_reason(now), None);
    assert_eq!(
        state(SessionKind::Normal, 181, now).timeout_reason(now),
        Some(SessionTimeoutReason::StartAge)
    );
    assert_eq!(state(SessionKind::Servercmd, 1799, now).timeout_reason(now), None);
    assert_eq!(
        state(SessionKind::Servercmd, 1801, now).timeout_reason(now),
        Some(SessionTimeoutReason::StartAge)
    );
}

#[test]
fn timeout_classifier_matches_java_last_packet_send_rule() {
    let now = 10_000 * SECOND;
    let mut session = state(SessionKind::Normal, 1, now);
    session.last_packet_send = Some(now - 31 * SECOND);

    assert_eq!(session.timeout_reason(now), Some(SessionTimeoutReason::LastPacketSend));
}

#[test]
fn public_admission_preserves_java_max_connection_boundary() {
    let mut manager = SessionManager::new();
    let first = manager.admit_session(1, false, false, 0, 0);
    assert!(first.is_ok(), "prev == max is accepted");
    assert_eq!(manager.active_count(), 1);
    assert!(manager.admit_session(2, false, false, 0, 0).is_err());
    assert_eq!(manager.active_count(), 1);
    manager.release(1, true);
    assert_eq!(manager.active_count(), 0);
}

#[test]
fn local_and_rpc_sessions_are_not_counted() {
    let mut manager = SessionManager::new();
    manager.admit_session(1, true, false, 0, 0).unwrap();
    manager.admit_session(2, false, true, 0, 0).unwrap();

    assert_eq!(manager.active_count(), 0);
    manager.release(1, false);
    manager.release(2, false);
    assert_eq!(manager.active_count(), 0);
}

#[test]
fn reaper_cancels_timed_out_sessions() {
    let mut manager = SessionManager::new();
    manager.admit_session(1, true, false, 0, 0).unwrap();

    assert_eq!(manager.nuke_old_connections(29 * SECOND), Vec::<u32>::new());
    assert_eq!(manager.nuke_old_connections(31 * SECOND), vec![1]);
}

#[test]
fn sessions_change_their_kind() {
    let mut manager = SessionManager::new();
    manager.admit_session(5, true, false, 0, 0).unwrap();
    manager.mark_normal(5);
    assert!(matches!(manager.session(5).unwrap().kind, SessionKind::Normal));
    manager.mark_servercmd(5);
    assert!(matches!(manager.session(5).unwrap().kind, SessionKind::Servercmd));
    manager.mark_packet_sent(5, 7);
    assert_eq!(manager.session(5).unwrap().last_packet_send, Some(7));
    assert!(manager.session(6).is_none());
}

#[test]
fn peer_policy_separates_locality_from_rpc_authorization() {
    let mut config = test_config();
    let remote_ip = ip("203.0.113.9");

    let origin = SessionOrigin::from_remote_addr(ip("::ffff:203.0.113.9"), &config);
    assert!(origin.peer_ip().same(&remote_ip));
    assert!(!origin.is_local());
    assert!(!is_rpc_authorized(remote_ip, &config));
    assert_eq!(origin.admission_class(false), AdmissionClass::Limited);

    config.rpc_servers.push(remote_ip);
    assert!(is_rpc_authorized(remote_ip, &config));
    assert_eq!(origin.admission_class(true), AdmissionClass::Exempt);

    config.rpc_servers.clear();
    config.disable_ip_origin_check = true;
    assert!(is_rpc_authorized(remote_ip, &config));
}

#[test]
fn connections_are_admitted_or_turned_away() {
    let mut config = test_config();
    config.throttle_bytes = 1;
    let mut admission = Admission::new();
    let origin = SessionOrigin::from_remote_addr(ip("203.0.113.9"), &config);
    assert!(matches!(
        admission.admit_connection(origin, &config, 0),
        AdmissionOutcome::Rejected(AdmissionRejection::Startup)
    ));
    config.apply_setting("rpc_server_ip", "192.0.2.7");
    let local = SessionOrigin::from_remote_addr(ip("192.0.2.7"), &config);
    assert!(matches!(
        admission.admit_connection(local, &config, 0),
        AdmissionOutcome::Accepted { counted: false, .. }
    ));
    admission.allow_normal_connections = true;
    for _ in 0..10 {
        assert!(matches!(
            admission.admit_connection(origin, &config, 0),
            AdmissionOutcome::Accepted { counted: true, .. }
        ));
    }
    assert!(matches!(
        admission.admit_connection(origin, &config, 0),
        AdmissionOutcome::Rejected(AdmissionRejection::FloodControl)
    ));
    config.disable_flood_control = true;
    config.override_conns = 10;
    assert!(matches!(
        admission.admit_connection(origin, &config, 0),
        AdmissionOutcome::Accepted { notify_overload: true, .. }
    ));
    assert!(matches!(
        admission.admit_connection(origin, &config, 0),
        AdmissionOutcome::Rejected(AdmissionRejection::MaxConnectionsExceeded { max_connections: 10 })
    ));
    assert_eq!(send_buffer_size(&config), None);
    config.throttle_bytes = 1000;
    assert_eq!(send_buffer_size(&config), Some(200));
    config.throttle_bytes = 100_000_000;
    assert_eq!(send_buffer_size(&config), Some(524_288));
}

#[test]
fn keys_are_held_against_digest_and_time() {
    let digest = "aabbccddeeff00112233445566778899aabbccdd";
    assert!(check_keystamp(1000, "AABBccddee", digest, 1899));
    assert!(!check_keystamp(1000, "AABBccddee", digest, 1900));
    assert!(!check_keystamp(1000, "aabbccddef", digest, 1000));
    assert!(!check_keystamp(1000, "aabbccdde", digest, 1000));
    assert!(!check_keystamp(1000, "aabbccddeef", digest, 1000));
    assert!(check_key(1000, digest, digest, 1300));
    assert!(check_key(1000, digest, digest, 700));
    assert!(!check_key(1000, digest, digest, 1301));
    assert!(!check_key(1000, "aabb", digest, 1000));
}

#[test]
fn sources_are_kept_where_they_are_urls() {
    let mut sources = Vec::new();
    keep_source(&mut sources, Ok("http://a/".to_string()));
    keep_source(&mut sources, Err("no url".to_string()));
    keep_source(&mut sources, Ok("http://b/".to_string()));
    assert_eq!(sources, ["http://a/", "http://b/"]);
    assert!(matches!(source_step(sources), SourceStep::Download(v) if v.len() == 2));
    assert!(matches!(source_step(vec![]), SourceStep::NotFound(r) if r.status == 404));
}
