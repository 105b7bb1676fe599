//! The client's life, its log, its statistics, and galleries.

use hath_rs::cache::blacklist::listed_files;
use hath_rs::client::{
    check_start, should_save_login, BackgroundTasks, ClientAction, ClientRun, JoinStep, TaskOutcome,
};
use hath_rs::config::{CliArgs, Config, LoginFile};
use hath_rs::gallery_downloader::{
    attempt_route, existing_file_is_valid, failure_key, file_is_verified, finished_gallery,
    gallery_dirs, gallery_file_name, gallery_limit, has_low_space, next_queue_step,
    parse_gallery_metadata, part_path, sanitize_title, source_failure_key, start_outcome,
    DownloadOne, GalleryProgress, GalleryRunReport, QueueStep, Route, StartOutcome,
};
use hath_rs::logging::{line_end, LineWriter, LogLevel, OpenStep, ERROR_LINES, OUTPUT_LINES};
use hath_rs::rpc::parse_server_response;
use hath_rs::rpc_client::{classify_queue_reply, gallery_queue_add};
use hath_rs::server::lifecycle::{
    certificate_ends_client_at, clock_is_off, must_shut_down_at, next_refresh_action, next_start_action,
    next_stop_action, says_bad_network, RefreshAction, RefreshEvent, RefreshPhase, StartAction,
    StartPhase, StopAction, StopPhase,
};
use hath_rs::stats::Stats;

fn test_config() -> Config {
    let mut args = CliArgs::default();
    args.client_id = Some(12345);
    args.client_key = Some("abcde12345abcde12345".to_string());
    Config::load(args, LoginFile::Missing).unwrap()
}

#[test]
fn test_new_stats_are_zeroed() {
    let s = Stats::new();
    assert!(!s.client_running);
    assert_eq!(s.files_sent, 0);
}

#[test]
fn test_record_file_sent_increments() {
    let mut s = Stats::new();
    s.record_file_sent();
    s.record_file_sent();
    assert_eq!(s.files_sent, 2);
}

#[test]
fn test_shift_bytes_sent_history() {
    let mut s = Stats::new();
    s.enable_gui();
    s.bytes_sent_history[0] = 42;
    s.shift_bytes_sent_history();
    assert_eq!(s.bytes_sent_history[0], 0);
    assert_eq!(s.bytes_sent_history[1], 42);
}

#[test]
fn test_shift_skipped_without_gui() {
    let mut s = Stats::new();
    s.bytes_sent_history[0] = 99;
    s.shift_bytes_sent_history();
    assert_eq!(s.bytes_sent_history[0], 99);
    assert_eq!(s.bytes_sent_history[1], 0);
}

#[test]
fn test_program_started_sets_instant() {
    let mut s = Stats::new();
    assert!(s.program_start_time.is_none());
    s.program_started(5);
    assert!(s.program_start_time.is_some());
}

#[test]
fn traffic_is_counted() {
    let mut s = Stats::new();
    s.enable_gui();
    s.client_running = true;
    s.record_bytes_sent(7);
    s.record_bytes_rcvd(8);
    s.record_file_rcvd();
    s.record_server_contact_at(9);
    assert_eq!((s.bytes_sent, s.bytes_rcvd, s.files_rcvd), (7, 8, 1));
    assert_eq!(s.bytes_sent_history[0], 7);
    assert_eq!(s.last_server_contact, 9);
}

#[test]
fn background_task_timeout_prevents_a_clean_shutdown_result() {
    let mut tasks = BackgroundTasks::new();
    tasks.track("never-finishes");
    assert!(matches!(tasks.current(), JoinStep::WaitFor(0)));
    assert!(matches!(tasks.task_joined(TaskOutcome::TimedOut), JoinStep::AbortFrom(0)));
}

#[test]
fn tasks_are_joined_in_turn() {
    let mut tasks = BackgroundTasks::new();
    tasks.track("a");
    tasks.track("b");
    assert!(matches!(tasks.task_joined(TaskOutcome::Ended), JoinStep::WaitFor(1)));
    assert!(matches!(tasks.task_joined(TaskOutcome::Ended), JoinStep::AllEnded));
    let mut tasks = BackgroundTasks::new();
    tasks.track("a");
    assert!(matches!(tasks.task_joined(TaskOutcome::Failed), JoinStep::AbortFrom(_)));
}

/// A run whose tasks in the background are joined.
fn run_at_its_end() -> ClientRun {
    let config = test_config();
    let okay = parse_server_response("OK\n", "h");
    let mut run = ClientRun::new();
    assert!(matches!(run.begin(&config), Ok(ClientAction::AskStat)));
    assert!(matches!(run.stat_received(&okay), Ok(ClientAction::ApplyAndLogin)));
    assert!(matches!(run.login_received(&okay), Ok(ClientAction::ApplyAndLoadCache)));
    assert!(matches!(run.cache_loaded(), ClientAction::StartServer));
    assert!(matches!(run.server_started(Some(Ok(443))), Ok(ClientAction::NotifyStart)));
    assert!(matches!(run.start_received(&okay), Ok(ClientAction::AllowAndRefresh)));
    assert!(run.allow_connections);
    assert!(matches!(run.refresh_received(Some(&okay)), ClientAction::ApplyAndRun));
    assert!(matches!(run.shut_down(), ClientAction::NotifyStop));
    assert!(matches!(run.stop_notified(), ClientAction::StopServer));
    assert!(matches!(run.server_stopped(), ClientAction::JoinTasks));
    run
}

#[test]
fn a_run_goes_through_its_phases() {
    let mut run = run_at_its_end();
    assert!(matches!(run.tasks_joined(true), ClientAction::SaveCache));
}

#[test]
fn a_run_with_tasks_that_were_broken_off_discards_its_cache() {
    let mut run = run_at_its_end();
    assert!(matches!(run.tasks_joined(false), ClientAction::DiscardCache));
}

#[test]
fn refusals_end_the_run() {
    let config = test_config();
    let fail = parse_server_response("FAIL_X", "h");
    let mut run = ClientRun::new();
    run.begin(&config).unwrap();
    assert!(run.stat_received(&fail).is_err());
    assert!(matches!(check_start(&parse_server_response("OK\n", "h")), Ok(true)));
    for code in ["FAIL_CONNECT_TEST", "FAIL_OTHER_CLIENT_CONNECTED", "FAIL_CID_IN_USE", "FAIL_ANY"] {
        assert!(check_start(&parse_server_response(code, "h")).map(|ok| !ok).unwrap_or(true), "{}", code);
    }
    assert!(should_save_login(&config));
}

#[test]
fn blacklists_come_from_good_replies_only() {
    let okay = parse_server_response("OK\na\nb", "h");
    assert_eq!(listed_files(Some(&okay)), Some(vec!["a".to_string(), "b".to_string()]));
    assert_eq!(listed_files(Some(&parse_server_response("FAIL", "h"))), None);
    assert_eq!(listed_files(None), None);
}

#[test]
fn log_levels_have_one_bit_each() {
    let bits =
        [LogLevel::Debug.bit(), LogLevel::Info.bit(), LogLevel::Warning.bit(), LogLevel::Error.bit()];
    for (i, a) in bits.iter().enumerate() {
        assert_eq!(a.count_ones(), 1);
        for b in &bits[i + 1..] {
            assert_eq!(a & b, 0);
        }
    }
}

#[test]
fn log_files_are_put_aside_after_their_last_line() {
    let mut w = LineWriter::new(2);
    assert!(matches!(w.open_step(), OpenStep::Rotate));
    w.rotated();
    assert!(matches!(w.open_step(), OpenStep::Open));
    w.opened();
    assert!(matches!(w.open_step(), OpenStep::Ready));
    assert!(!w.line_written(b"a\n"));
    assert!(!w.line_written(b"b\n"));
    assert!(w.line_written(b"c\n"));
    assert_eq!(line_end(b"ab\ncd", 0), 3);
    assert_eq!(line_end(b"ab\ncd", 3), 5);
}

/// A log file in memory, with the one that was put aside.
struct MemoryLog {
    writer: LineWriter,
    current: Option<String>,
    old: Option<String>,
}

impl MemoryLog {
    fn open(&mut self) {
        if self.writer.open_step() == OpenStep::Rotate {
            if let Some(text) = self.current.take() {
                self.old = Some(text);
            }
            self.writer.rotated();
        }
        if self.writer.open_step() == OpenStep::Open {
            self.current.get_or_insert_with(String::new);
            self.writer.opened();
        }
    }

    fn write(&mut self, data: &[u8]) {
        self.open();
        let mut at = 0;
        while at < data.len() {
            let end = line_end(data, at);
            let line = &data[at..end];
            let text = std::str::from_utf8(line).unwrap();
            self.current.get_or_insert_with(String::new).push_str(text);
            if self.writer.line_written(line) {
                self.open();
            }
            at = end;
        }
    }
}

#[test]
fn rotates_at_java_line_limits_and_retains_only_one_backup() {
    for limit in [OUTPUT_LINES, ERROR_LINES] {
        let writer = LineWriter::new(limit);
        let mut log = MemoryLog { writer, current: None, old: None };
        log.open();
        for _ in 0..limit {
            log.write(b"first batch\n");
        }
        assert!(log.old.is_none());
        log.write(b"threshold line\nafter rotation\n");
        let backup = log.old.clone().unwrap();
        assert_eq!(backup.matches("first batch").count(), limit);
        assert!(backup.contains("threshold line"));
        assert!(!backup.contains("after rotation"));
        assert!(log.current.as_ref().unwrap().contains("after rotation"));
        for _ in 0..limit {
            log.write(b"second batch\n");
        }
        let backup = log.old.unwrap();
        assert!(!backup.contains("first batch"));
        assert_eq!(backup.matches("second batch").count(), limit);
    }
    assert_eq!((OUTPUT_LINES, ERROR_LINES), (100_000, 10_000));
}

#[test]
fn startup_rotates_enabled_files_and_preserves_disabled_output() {
    for disabled in [false, true] {
        let mut log = MemoryLog {
            writer: LineWriter::new(OUTPUT_LINES),
            current: Some("previous run".to_string()),
            old: Some("older run".to_string()),
        };
        if !disabled {
            log.open();
        }
        if disabled {
            assert_eq!(log.current.unwrap(), "previous run");
            assert_eq!(log.old.unwrap(), "older run");
        } else {
            assert_eq!(log.old.unwrap(), "previous run");
            assert!(!log.current.unwrap().contains("previous run"));
        }
    }
}

const GALLERY: &str = "GID 42\nFILECOUNT 2\nMINXRES org\nTITLE hello/world\nFILELIST\n1 10 org unknown jpg first page\n2 11 1280 aaaaaaaaaaaaaaaaaaaaaaaaaaaaaaaaaaaaaaaa png second\nINFORMATION\nline one\nline two\n";

#[test]
fn parses_complete_metadata_and_preserves_information() {
    let metadata = parse_gallery_metadata(
        "GID 42\nFILECOUNT 2\nMINXRES org\nTITLE hello/world\nFILELIST\n1 10 org unknown jpg first page\n2 11 1280 aaaaaaaaaaaaaaaaaaaaaaaaaaaaaaaaaaaaaaaa png second\nINFORMATION\nline one\nline two\n",
    )
    .unwrap();
    assert_eq!(metadata.gid, 42);
    assert_eq!(metadata.title, "helloworld");
    assert_eq!(metadata.files.len(), 2);
    assert_eq!(metadata.information, "line one\nline two\n");
}

#[test]
fn rejects_unsafe_or_incomplete_metadata() {
    assert!(parse_gallery_metadata(
        "GID 1\nFILECOUNT 1\nMINXRES org\nTITLE x\nFILELIST\n1 1 org unknown jpg ../escape\nINFORMATION\n"
    )
    .is_err());
    assert!(parse_gallery_metadata(
        "GID 1\nFILECOUNT 2\nMINXRES org\nTITLE x\nFILELIST\n1 1 org unknown jpg one\nINFORMATION\n"
    )
    .is_err());
}

#[test]
fn galleries_have_their_own_directories() {
    let mut config = test_config();
    config.download_dir = "/d".to_string();
    let m = parse_gallery_metadata(GALLERY).unwrap();
    let (dir, _) = gallery_dirs(&config, &m);
    assert_eq!(dir, "/d/helloworld [42]");
    assert_eq!(m.files[0].xres, "org");
    assert!(m.files[0].expected_sha1.is_none());
    assert!(m.files[1].expected_sha1.is_some());
    assert_ne!(part_path("/d", "a.jpg"), "/d/a.jpg");
    assert!(source_failure_key("http://h.invalid/x", &m.files[0]).unwrap().contains("h.invalid"));
    assert_eq!(source_failure_key("no url", &m.files[0]), None);
    assert_eq!(failure_key(None, &m.files[0]), None);
    let index = m.files[0].fileindex;
    assert_eq!(failure_key(Some("h".to_string()), &m.files[0]), Some(format!("h-{}-org", index)));
}

#[test]
fn gallery_files_are_verified_by_length_and_digest() {
    let m = parse_gallery_metadata(GALLERY).unwrap();
    let a40 = "aaaaaaaaaaaaaaaaaaaaaaaaaaaaaaaaaaaaaaaa";
    assert!(file_is_verified(1, &m.files[0].expected_sha1, "any"));
    assert!(file_is_verified(1, &m.files[1].expected_sha1, a40));
    assert!(!file_is_verified(1, &m.files[1].expected_sha1, "b"));
    assert!(existing_file_is_valid(true, 1, &m.files[1].expected_sha1, a40));
    assert!(!existing_file_is_valid(false, 1, &m.files[1].expected_sha1, a40));
    assert!(!existing_file_is_valid(true, 0, &m.files[1].expected_sha1, a40));
    let config = test_config();
    assert!(has_low_space(&config, Some(0)));
    assert!(!has_low_space(&config, Some(u64::MAX)));
}

#[test]
fn runner_downloads_acknowledges_and_writes_gallery_info() {
    let reply = classify_queue_reply(
        "GID 42\nFILECOUNT 1\nMINXRES org\nTITLE Gallery\nFILELIST\n1 7 org unknown jpg page\nINFORMATION\nmetadata\n"
            .to_string(),
    );
    let m = match next_queue_step(reply) {
        QueueStep::Download(m) => m,
        _ => panic!("a gallery"),
    };
    let (dir, _) = gallery_dirs(&test_config(), &m);
    assert!(dir.ends_with("Gallery [42]"));
    assert_eq!(gallery_file_name(&m.files[0]), "page.jpg");
    assert_eq!(m.information, "metadata\n");
    let mut progress = GalleryProgress::new(1);
    assert_eq!(progress.next_file(), Some(0));
    assert_eq!(progress.begin_attempt(0), 1);
    assert_eq!(progress.record(0, DownloadOne::Downloaded), 1);
    assert_eq!(progress.next_file(), None);
    assert!(progress.is_successful());
    let done = finished_gallery(&m, &progress);
    assert!(done.successful);
    assert_eq!(gallery_queue_add(Some(&done.ack)), "42;org");
    let mut report = GalleryRunReport::new();
    report.count(done.successful);
    assert_eq!((report.galleries_completed, report.galleries_failed), (1, 0));
    let end = classify_queue_reply("NO_PENDING_DOWNLOADS".to_string());
    assert!(matches!(next_queue_step(end), QueueStep::Idle));
}

#[test]
fn galleries_are_given_up_in_the_end() {
    let mut progress = GalleryProgress::new(1);
    let mut tries = 0;
    while let Some(i) = progress.next_file() {
        tries += 1;
        assert_eq!(progress.begin_attempt(i), tries);
        assert_eq!(progress.record(i, DownloadOne::Failed(Some("k".to_string()))), 5);
    }
    assert_eq!(tries, 2);
    assert!(!progress.is_successful());
    let mut progress = GalleryProgress::new(6);
    let mut tries = 0;
    while let Some(i) = progress.next_file() {
        progress.begin_attempt(i);
        if i == 0 {
            tries += 1;
            progress.record(i, DownloadOne::Failed(None));
        } else {
            progress.record(i, DownloadOne::AlreadyPresent);
        }
    }
    assert_eq!(tries, 10);
    assert!(!progress.is_successful());
    assert!(matches!(start_outcome(true), StartOutcome::AlreadyRunning));
    assert!(matches!(start_outcome(false), StartOutcome::Started));
}

#[test]
fn the_server_starts_or_fails() {
    let (p, a) = next_start_action(StartPhase::LoadingCertificate, true);
    assert!(matches!(a, StartAction::Bind));
    let (p, a) = next_start_action(p, false);
    assert!(matches!(a, StartAction::BindV4));
    let (p, a) = next_start_action(p, true);
    assert!(matches!(a, StartAction::ReportReady));
    assert!(matches!(p, StartPhase::Listening));
    let (_, a) = next_start_action(StartPhase::LoadingCertificate, false);
    assert!(matches!(a, StartAction::ReportFailure | StartAction::Abandon));
}

#[test]
fn stopping_waits_for_requests_and_then_ends() {
    let (p, a) = next_stop_action(StopPhase::Draining(0), 1, false);
    assert!(matches!(a, StopAction::WaitForRequests | StopAction::WaitForRequestsLoudly { .. }));
    let (mut p, mut a) = next_stop_action(p, 0, false);
    assert!(matches!(a, StopAction::WaitForServer));
    for _ in 0..100 {
        if let StopAction::Finish { .. } = a {
            break;
        }
        (p, a) = next_stop_action(p, 0, false);
    }
    assert!(matches!(a, StopAction::Finish { gave_up: true }));
    assert!(matches!(p, StopPhase::Stopped));
}

#[test]
fn certificates_are_refreshed_in_turn() {
    let okay = parse_server_response("OK\n", "h");
    let (p, a) = next_refresh_action(RefreshPhase::Idle, RefreshEvent::Notified { requested: true });
    assert!(matches!(a, RefreshAction::Suspend));
    let (p, a) = next_refresh_action(p, RefreshEvent::Replied(Some(&okay)));
    assert!(matches!(a, RefreshAction::Sleep(_)));
    let (p, a) = next_refresh_action(p, RefreshEvent::Waited { shutting_down: false });
    assert!(matches!(a, RefreshAction::StopServer));
    let (p, a) = next_refresh_action(p, RefreshEvent::ServerStopped);
    assert!(matches!(a, RefreshAction::Sleep(_)));
    let (p, a) = next_refresh_action(p, RefreshEvent::Waited { shutting_down: false });
    assert!(matches!(a, RefreshAction::StartServer));
    let (p, a) = next_refresh_action(p, RefreshEvent::ServerStarted { ready: true });
    assert!(matches!(a, RefreshAction::AllowAndResume));
    let (_, a) = next_refresh_action(p, RefreshEvent::Replied(Some(&okay)));
    assert!(matches!(a, RefreshAction::Complete));
    assert!(!says_bad_network(Some(&okay)));
    assert!(says_bad_network(Some(&parse_server_response("TERM_BAD_NETWORK", "h"))));
}

#[test]
fn clocks_and_certificates_are_watched() {
    assert!(!clock_is_off(0));
    assert!(clock_is_off(86_401));
    assert!(clock_is_off(-86_401));
    assert!(!certificate_ends_client_at(None, 0));
    assert!(certificate_ends_client_at(Some(100), 1_000_000));
    assert!(must_shut_down_at(90_000, None, 0));
    assert!(must_shut_down_at(0, Some(100), 1_000_000));
    assert!(!must_shut_down_at(86_400, Some(86_400), 0));
}

#[test]
fn titles_are_sanitized_once() {
    let title = sanitize_title("  a*b:c \t \"d/ e\\f?\u{3000}<g>|  ");
    assert_eq!(title, "abc d ef g");
    assert_eq!(sanitize_title(&title), title);
    assert_eq!(sanitize_title(" ?:* "), "");
}

#[test]
fn first_attempts_go_direct_and_downloads_are_limited_by_the_settings() {
    assert!(matches!(attempt_route(1), Route::Direct));
    assert!(matches!(attempt_route(2), Route::Proxied));
    assert!(matches!(attempt_route(10), Route::Proxied));
    let mut config = test_config();
    config.disable_download_bwm = false;
    config.throttle_bytes = 70_000;
    assert_eq!(gallery_limit(&config), Some(70_000));
    config.throttle_bytes = 0;
    assert_eq!(gallery_limit(&config), None);
    config.throttle_bytes = 70_000;
    config.disable_download_bwm = true;
    assert_eq!(gallery_limit(&config), None);
}

#[test]
fn a_file_is_tried_ten_times_at_most() {
    let mut progress = GalleryProgress::new(30);
    let mut tries = 0;
    while let Some(i) = progress.next_file() {
        let n = progress.begin_attempt(i);
        assert_eq!(n, progress.round + 1);
        if i == 0 {
            tries = n;
            progress.record(i, DownloadOne::Failed(None));
        } else {
            progress.record(i, DownloadOne::Downloaded);
        }
    }
    assert_eq!(tries, 10);
    assert_eq!(progress.attempts[0], 10);
    assert_eq!(progress.attempts[1], 1);
}
