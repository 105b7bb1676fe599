//! Bodies, downloads, quota and speed tests.

use hath_rs::bandwidth::BandwidthMonitor;
use hath_rs::config::{CliArgs, Config, LoginFile};
use hath_rs::downloader::{after_failed_attempt, DownloadAttemptError, DownloadMode, FileDownloader};
use hath_rs::error::HathError;
use hath_rs::hvfile::HVFile;
use hath_rs::proxy_downloader::{
    build_proxy_url, check_proxy_response, image_proxy_url, new_temp_path, next_move_step, temp_path_with,
    validate_proxy_response, DownloadFailReason, MoveStep, ProxyDownloadTask, ProxyFileDownloader,
    SourceSearch, TaskStep,
};
use hath_rs::server::body::{
    BodyCompletion, BodyStep, FileBuffer, FinishAction, ProxyProgress, StreamingBody,
};
use hath_rs::server::threaded_proxy::{
    build_threaded_proxy_test_url, check_test_response, next_test_step, test_urls, total_of, TestRun,
    TestAttempt, TestStep,
};
use hath_rs::utils::sha1_bytes;

fn test_config() -> Config {
    let mut args = CliArgs::default();
    args.client_id = Some(123);
    args.client_key = Some("abcde12345abcde12345".to_string());
    Config::load(args, LoginFile::Missing).unwrap()
}

const IDLE: ProxyProgress = ProxyProgress { written: 0, download_done: false, waited: 0 };

#[test]
fn test_under_limit_grants() {
    let mut bwm = BandwidthMonitor::new(10_000_000);
    for _ in 0..50 {
        assert!(bwm.request_quota(1460, 0));
    }
}

#[test]
fn quota_runs_out_within_a_second() {
    let mut bwm = BandwidthMonitor::new(1000);
    assert!(bwm.request_quota(22, 0));
    assert!(bwm.request_quota(1, 0));
    assert!(!bwm.request_quota(1, 0));
    assert!(!bwm.request_quota(1, 19));
    assert!(bwm.request_quota(100_000, 20));
    assert!(!bwm.request_quota(1, 40));
    assert!(!bwm.request_quota(1, 1019));
    assert!(bwm.request_quota(1, 1020));
}

#[test]
fn static_bodies_are_sent_whole() {
    let data: Vec<u8> = (0..3000u32).map(|i| (i % 251) as u8).collect();
    let mut body = StreamingBody::new(data.clone());
    body.enable_flow_control();
    let mut sent = Vec::new();
    loop {
        match body.poll_frame(IDLE) {
            BodyStep::Send(c) => {
                assert!(c.len() <= 1460);
                sent.extend(c);
            }
            BodyStep::Throttle(_) => body.throttle_completed(),
            BodyStep::Finished => break,
            _ => panic!("nothing to wait for"),
        }
    }
    assert_eq!(sent, data);
    assert!(matches!(body.completion_status(Some("end")).completion, BodyCompletion::Complete));
    assert!(matches!(body.completion_status(None).completion, BodyCompletion::Running));
    assert!(matches!(body.finish(), FinishAction::Nothing));
    assert!(matches!(StreamingBody::empty().poll_frame(IDLE), BodyStep::Finished));
}

#[test]
fn limited_bodies_ask_for_quota_before_each_packet() {
    let mut body = StreamingBody::new(vec![7; 2000]);
    body.enable_flow_control();
    assert!(matches!(body.poll_frame(IDLE), BodyStep::Throttle(1460)));
    body.throttle_completed();
    assert!(matches!(body.poll_frame(IDLE), BodyStep::Send(c) if c.len() == 1460));
    assert!(matches!(body.poll_frame(IDLE), BodyStep::Throttle(540)));
}

#[test]
fn random_bodies_have_the_size_that_was_asked_for() {
    let mut body = StreamingBody::new_random(20_000);
    let mut total = 0;
    let mut first = Vec::new();
    while let BodyStep::Send(c) = body.poll_frame(IDLE) {
        total += c.len();
        if first.is_empty() {
            first = c;
        }
    }
    assert_eq!(total, 20_000);
    assert!(first.iter().any(|b| *b != first[0]));
}

#[test]
fn file_body_skips_integrity_check_when_send_is_partial() {
    let mut body = StreamingBody::new_file(
        "cached-file".to_string(),
        "complete body".len(),
        "0000000000000000000000000000000000000000".to_string(),
        true,
    );
    body.offset = 4;
    assert!(matches!(body.finish(), FinishAction::Nothing));
    assert!(body.to_delete.is_some());
}

fn send_file(body: &mut StreamingBody, data: &[u8]) -> Vec<u8> {
    let mut sent = Vec::new();
    let mut at = 0;
    loop {
        match body.poll_frame(IDLE) {
            BodyStep::Read(n) => {
                let end = data.len().min(at + n);
                body.file_read(&data[at..end]);
                at = end;
            }
            BodyStep::Send(c) => sent.extend(c),
            BodyStep::Finished => return sent,
            _ => panic!("nothing to wait for"),
        }
    }
}

#[test]
fn served_files_are_checked_and_bad_ones_deleted() {
    let data = b"complete body";
    let mut good = StreamingBody::new_file("f".to_string(), data.len(), sha1_bytes(data), true);
    assert_eq!(send_file(&mut good, data), data);
    assert!(matches!(good.finish(), FinishAction::Nothing));
    let mut bad = StreamingBody::new_file("f".to_string(), data.len(), sha1_bytes(b"x"), true);
    send_file(&mut bad, data);
    assert!(matches!(bad.finish(), FinishAction::DeleteFile(f) if f == "f"));
    assert!(matches!(bad.finish(), FinishAction::Nothing));
    let mut unchecked = StreamingBody::new_file("f".to_string(), data.len(), sha1_bytes(b"x"), false);
    send_file(&mut unchecked, data);
    assert!(matches!(unchecked.finish(), FinishAction::Nothing));
}

#[test]
fn proxy_body_rechecks_write_offset_even_without_notify() {
    let mut body = StreamingBody::new_proxy(4);
    assert!(matches!(body.poll_frame(IDLE), BodyStep::Wait));
    let written = ProxyProgress { written: 4, download_done: false, waited: 30_000_000 };
    assert!(matches!(body.poll_frame(written), BodyStep::Read(4)));
    assert!(body.proxy_read(4));
    assert!(matches!(body.poll_frame(written), BodyStep::Finished));
    assert!(matches!(body.finish(), FinishAction::WakeDownloader));
}

#[test]
fn proxy_bodies_give_up_in_the_end() {
    let mut body = StreamingBody::new_proxy(4);
    let late = ProxyProgress { written: 3, download_done: false, waited: 300_000_000_001 };
    assert!(matches!(body.poll_frame(late), BodyStep::Finished));
    let cut = ProxyProgress { written: 3, download_done: true, waited: 0 };
    assert!(matches!(body.poll_frame(cut), BodyStep::Finished));
    let status = body.completion_status(Some("proxy_timeout"));
    assert!(matches!(status.completion, BodyCompletion::Incomplete("proxy_timeout")));
    assert_eq!((status.offset, status.total_size), (0, 4));
}

#[test]
fn buffers_hold_what_was_read_and_not_taken() {
    let mut b = FileBuffer::new();
    assert!(b.next_read(4).is_some());
    b.add(b"abcdef");
    assert_eq!(b.next_read(4), None);
    assert_eq!(b.take(4), b"abcd");
    assert_eq!(b.len(), 2);
}

#[test]
fn does_not_retry_a_not_found_response() {
    let mut d = FileDownloader::new("http://h/missing".to_string(), 1_000, 1_000, DownloadMode::Discard);
    assert!(d.begin_attempt().is_ok());
    let e = d.check_response(404, Some(7)).unwrap_err();
    assert!(matches!(&e, DownloadAttemptError::NotFound(_)));
    assert!(after_failed_attempt(e).is_some());
}

#[test]
fn rejects_a_response_above_the_configured_limit_before_writing() {
    let mut d = FileDownloader::new("http://h/large".to_string(), 1_000, 1_000, DownloadMode::Memory);
    d.set_max_content_length(8);
    assert!(d.check_response(200, Some(16)).is_err());
    assert_eq!(d.check_response(200, Some(8)).ok(), Some(8));
}

#[test]
fn downloads_are_tried_three_times() {
    let mut d = FileDownloader::new("http://h/x".to_string(), 1_000, 2_000, DownloadMode::Discard);
    assert_eq!(d.max_dl_time(), 2_000);
    for _ in 0..3 {
        assert!(d.begin_attempt().is_ok());
        let e = d.check_response(500, None).unwrap_err();
        assert!(matches!(&e, DownloadAttemptError::Retryable(_)));
        assert!(after_failed_attempt(e).is_none());
    }
    assert!(d.begin_attempt().is_err());
    let mut d = FileDownloader::new("http://h/x".to_string(), 1_000, 2_000, DownloadMode::Discard);
    d.set_connect_timeout(5);
    d.set_read_timeout(6);
    assert_eq!((d.connect_timeout_ms, d.read_timeout_ms), (5, 6));
    d.begin_attempt().unwrap();
    d.check_response(200, Some(4)).unwrap();
    assert!(d.finish_attempt(3, 1).is_err());
    assert!(d.finish_attempt(4, 17).is_ok());
    assert_eq!(d.download_time_millis, 17);
}

const FINAL_BODY: &[u8] = b"0123456789abcdefghij";

fn run_body_retry(reconnects: &[bool]) {
    let hash = sha1_bytes(FINAL_BODY);
    let fileid = format!("{}-{}-jpg", hash, FINAL_BODY.len());
    let mut task =
        ProxyDownloadTask::new(fileid.clone(), FINAL_BODY.len() as u64, hash, "cache".to_string());
    assert!(matches!(task.chunk_received(b"partial", 0), TaskStep::Write));
    assert!(matches!(task.chunk_written(true), TaskStep::Receive(Some(7))));
    let mut step = task.body_ended();
    for connected in reconnects {
        assert!(matches!(step, TaskStep::Restart));
        step = task.reconnected(*connected);
    }
    assert!(matches!(step, TaskStep::Receive(_)));
    assert!(matches!(task.chunk_received(FINAL_BODY, 1), TaskStep::Write));
    assert!(matches!(task.chunk_written(true), TaskStep::Receive(Some(20))));
    assert!(matches!(task.body_ended(), TaskStep::Flush));
    assert!(matches!(task.flushed(true), TaskStep::AwaitReader));
    let place = HVFile::from_fileid(&fileid).unwrap().cache_path("cache");
    assert!(matches!(task.reader_done(), TaskStep::MoveTo(p) if p == place));
    assert!(matches!(task.moved(true), TaskStep::Complete));
}

#[test]
fn body_retry_skips_invalid_reconnect_response_and_can_succeed() {
    run_body_retry(&[false, true]);
}

#[test]
fn body_retry_continues_after_reconnect_failure_and_can_succeed() {
    run_body_retry(&[false, true]);
}

#[test]
fn files_with_another_digest_are_not_kept() {
    let mut task = ProxyDownloadTask::new(
        "aabbccddeeff00112233445566778899aabbccdd-3-jpg".to_string(),
        3,
        "aabbccddeeff00112233445566778899aabbccdd".to_string(),
        "cache".to_string(),
    );
    task.chunk_received(b"abc", 0);
    task.chunk_written(true);
    task.body_ended();
    task.flushed(true);
    assert!(matches!(
        task.reader_done(),
        TaskStep::Discard(DownloadFailReason::Sha1Mismatch)
    ));
}

#[test]
fn a_download_is_given_up_after_three_attempts() {
    let mut task = ProxyDownloadTask::new("f".to_string(), 3, "h".to_string(), "c".to_string());
    assert!(matches!(task.receive_failed(), TaskStep::Restart));
    assert!(matches!(task.reconnected(false), TaskStep::Restart));
    assert!(matches!(
        task.reconnected(false),
        TaskStep::GiveUp(DownloadFailReason::NetworkError)
    ));
}

#[test]
fn moved_files_are_copied_where_they_cannot_be_renamed() {
    assert!(matches!(next_move_step(MoveStep::Rename, true), MoveStep::Moved));
    assert!(matches!(next_move_step(MoveStep::Rename, false), MoveStep::Copy));
    assert!(matches!(next_move_step(MoveStep::Copy, true), MoveStep::RemoveSource));
    assert!(matches!(next_move_step(MoveStep::Copy, false), MoveStep::Failed));
}

#[test]
fn copy_temp_to_cache_and_delete_removes_source_after_copy() {
    let copied = next_move_step(MoveStep::Copy, true);
    assert!(matches!(copied, MoveStep::RemoveSource));
    assert!(matches!(next_move_step(copied, true), MoveStep::Moved));
}

#[test]
fn test_build_proxy_url_handles_ipv6_host() {
    let url = build_proxy_url("socks", "::1", 1080).unwrap();

    assert_eq!(url.as_str(), "socks://[::1]:1080/");
}

#[test]
fn images_are_fetched_through_a_proxy_where_one_is_set() {
    let mut config = test_config();
    assert!(image_proxy_url(&config).is_none());
    config.image_proxy_type = Some("http".to_string());
    config.image_proxy_host = Some("proxy.invalid".to_string());
    let url = image_proxy_url(&config).unwrap().unwrap();
    assert_eq!(url, "http://proxy.invalid:8080/");
    config.image_proxy_type = Some("socks5".to_string());
    assert!(matches!(image_proxy_url(&config), Some(Err(HathError::Config(_)))));
}

#[test]
fn validated_proxy_response_rejects_wrong_content_length() {
    let err = validate_proxy_response(200, Some(12), 1_000_000, 20).unwrap_err();

    assert!(matches!(err, HathError::ProxyDownloader { .. }));
}

#[test]
fn validated_proxy_response_rejects_status_and_missing_length() {
    assert!(matches!(
        validate_proxy_response(500, Some(20), 1_000_000, 20),
        Err(HathError::ProxyDownloader { .. })
    ));
    assert!(matches!(
        validate_proxy_response(200, None, 1_000_000, 20),
        Err(HathError::ProxyDownloader { .. })
    ));
    assert!(validate_proxy_response(200, Some(20), 1_000_000, 20).is_ok());
    assert!(validate_proxy_response(200, Some(20), 19, 20).is_err());
}

#[test]
fn downloads_are_described_by_the_file_id() {
    let config = test_config();
    let id = "aabbccddeeff00112233445566778899aabbccdd-12345-800-600-png";
    let d = ProxyFileDownloader::new(id, &config).unwrap();
    assert_eq!(d.content_length, 12345);
    assert_eq!(d.content_type, "image/png");
    assert!(ProxyFileDownloader::new("junk", &config).is_err());
    let a = new_temp_path(&d.hv_file, &config);
    let b = new_temp_path(&d.hv_file, &config);
    assert_ne!(a, b);
    assert!(temp_path_with(&d.hv_file, &config, "U").contains("U"));
}

#[test]
fn sources_are_tried_in_turn() {
    let sources = vec!["a".to_string(), "b".to_string()];
    let mut search = SourceSearch::new();
    assert_eq!(search.next_source(&sources).as_deref(), Some("a"));
    search.source_failed(HathError::Network("x".to_string()));
    assert_eq!(search.next_source(&sources).as_deref(), Some("b"));
    search.source_failed(HathError::Network("y".to_string()));
    assert_eq!(search.next_source(&sources), None);
    assert!(matches!(search.exhausted(), HathError::Network(m) if m == "y"));
}

#[test]
fn test_threaded_proxy_test_url_handles_ipv6_host() {
    let url =
        build_threaded_proxy_test_url("http", "::ffff:192.0.2.1", 8443, 1024, 30, "testkey", 12345)
            .unwrap();

    assert_eq!(url.as_str(), "http://[::ffff:c000:201]:8443/t/1024/30/testkey/12345");
}

#[test]
fn threaded_proxy_test_times_from_first_byte_across_retries() {
    let cut = TestAttempt::Received { content_length: 8, received: 1 };
    assert!(matches!(next_test_step(cut, 8, 1, 2), TestStep::Retry));
    let whole = TestAttempt::Received { content_length: 8, received: 8 };
    assert!(matches!(next_test_step(whole, 8, 61, 1), TestStep::Done(Some(61))));
}

#[test]
fn proxy_tests_are_counted() {
    assert!(matches!(check_test_response(404, Some(1)), Some(TestAttempt::NotFound)));
    assert!(matches!(check_test_response(500, Some(1)), Some(TestAttempt::Failed)));
    assert!(check_test_response(200, Some(1)).is_none());
    assert!(matches!(next_test_step(TestAttempt::NotFound, 8, 0, 2), TestStep::Done(None)));
    assert!(matches!(next_test_step(TestAttempt::Failed, 8, 0, 0), TestStep::Done(None)));
    let cut = TestAttempt::Received { content_length: 8, received: 1 };
    let mut run = TestRun::new();
    assert!(matches!(run.record(TestAttempt::Failed, 8, 0), TestStep::Retry));
    assert!(matches!(run.record(cut, 8, 3), TestStep::Retry));
    assert!(matches!(run.record(TestAttempt::Failed, 8, 3), TestStep::Done(None)));
    assert_eq!(run.left, 0);
    let short = TestAttempt::Received { content_length: 7, received: 7 };
    assert!(matches!(next_test_step(short, 8, 5, 2), TestStep::Done(None)));
    assert_eq!(total_of(&vec![Some(3), None, Some(4)]), (2, 7));
    let long = "k".repeat(3_000_000);
    assert_eq!(test_urls("https", "h.invalid", 443, 5, 3, 9, &long).len(), 3);
    let urls = test_urls("https", "h.invalid", 443, 5, 3, 9, "k");
    assert_eq!(urls.len(), 3);
    assert!(urls.iter().all(|u| u.starts_with("https://h.invalid/t/5/9/k/")));
    assert_ne!(urls[0], urls[1]);
}

#[test]
fn the_digest_of_a_body_decides() {
    let mut body = StreamingBody::new_file("f".to_string(), 0, "right".to_string(), true);
    assert!(matches!(body.finish_with("wrong"), FinishAction::DeleteFile(f) if f == "f"));
    assert!(matches!(body.finish_with("wrong"), FinishAction::Nothing));
    let mut body = StreamingBody::new_file("f".to_string(), 0, "right".to_string(), true);
    assert!(matches!(body.finish_with("right"), FinishAction::Nothing));
    let mut body = StreamingBody::new_file("f".to_string(), 1, "right".to_string(), true);
    assert!(matches!(body.finish_with("wrong"), FinishAction::Nothing));
}

#[test]
fn the_digest_of_a_download_decides() {
    let hash = "aabbccddeeff00112233445566778899aabbccdd";
    let waiting = || {
        let fileid = format!("{}-3-jpg", hash);
        let mut task = ProxyDownloadTask::new(fileid, 3, hash.to_string(), "cache".to_string());
        task.chunk_received(b"abc", 0);
        task.chunk_written(true);
        task.body_ended();
        task.flushed(true);
        task
    };
    assert!(matches!(waiting().reader_done_with(hash), TaskStep::MoveTo(p) if p.contains(hash)));
    assert!(matches!(
        waiting().reader_done_with("other"),
        TaskStep::Discard(DownloadFailReason::Sha1Mismatch)
    ));
}

#[test]
fn answers_are_shown_with_their_words() {
    let words = Some("Gone Fishing".to_string());
    let mut d = FileDownloader::new("http://h/f".to_string(), 1, 1, DownloadMode::Discard);
    let e = d.check_response_with(500, &words, None).unwrap_err();
    assert!(matches!(
        e,
        DownloadAttemptError::Retryable(HathError::Network(m))
            if m == "server returned 500 Gone Fishing for http://h/f"
    ));
    let e = check_proxy_response(599, &None, None, 1, 1).unwrap_err();
    assert!(matches!(
        e,
        HathError::ProxyDownloader { status: 502, message }
            if message == "upstream returned 599 <unknown status code>"
    ));
}

#[test]
fn lengths_beyond_the_limit_are_refused_however_large() {
    let mut d = FileDownloader::new("http://h/f".to_string(), 1, 1, DownloadMode::Discard);
    d.set_max_content_length(10);
    let e = d.check_response(200, Some(4_294_967_297)).unwrap_err();
    assert!(matches!(
        e,
        DownloadAttemptError::Retryable(HathError::Network(m))
            if m == "content too large: 4294967297 exceeds 10"
    ));
    assert!(d.check_response(200, Some(2_147_483_648)).is_err());
    assert_eq!(d.check_response(200, Some(10)).ok(), Some(10));
}
