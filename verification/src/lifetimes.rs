//! How the client, its server, its tests and its logs come to life and end.

use vstd::prelude::*;
use crate::error::ErrorView;
use crate::logging::LineWriter;
use crate::rpc::{ResponseStatus, ServerResponse};
use crate::server::lifecycle::{
    RefreshAction, RefreshEvent, RefreshPhase, StartAction, StartPhase, StopAction, StopPhase,
};
use crate::server::threaded_proxy::{TestAttempt, TestStep};
use crate::stats::Stats;

verus! {

// ---------------------------------------------------------------------------
// The server
// ---------------------------------------------------------------------------

/// A server with a certificate listens on both protocols, or on the older one where both are not to
/// be had; without either it stops without a word, and without a certificate it says so.
pub proof fn servers_start()
    ensures
        ({
            let loaded = crate::server::lifecycle::started(StartPhase::LoadingCertificate, true);
            let both = crate::server::lifecycle::started(loaded.0, true);
            let one = crate::server::lifecycle::started(loaded.0, false);
            &&& loaded.1 == StartAction::Bind
            &&& both == (StartPhase::Listening, StartAction::ReportReady)
            &&& one.1 == StartAction::BindV4
            &&& crate::server::lifecycle::started(one.0, true) == (
                StartPhase::Listening,
                StartAction::ReportReady,
            )
            &&& crate::server::lifecycle::started(one.0, false) == (StartPhase::Failed, StartAction::Abandon)
            &&& crate::server::lifecycle::started(StartPhase::LoadingCertificate, false) == (
                StartPhase::Failed,
                StartAction::ReportFailure,
            )
        }),
{
}

/// Where a stop stands after so many steps with requests active all the time.
pub open spec fn stop_after(n: nat, terminated: bool) -> StopPhase
    decreases n,
{
    if n == 0 {
        StopPhase::Draining(0)
    } else {
        crate::server::lifecycle::stopped(stop_after((n - 1) as nat, terminated), 1, terminated).0
    }
}

/// Requests are given 24 seconds to finish, and every fifth of them is told with what is left of 25;
/// then the server is waited for sixty times, and given up with the next.
pub proof fn stops_take_their_time(n: nat)
    requires
        n <= 84,
    ensures
        n <= 24 ==> stop_after(n, false) == StopPhase::Draining(n as u32),
        24 < n ==> stop_after(n, false) == StopPhase::Terminating((n - 24) as u32),
        n < 24 ==> crate::server::lifecycle::stopped(stop_after(n, false), 1, false).1 == (if (n + 1) % 5 == 0 {
            StopAction::WaitForRequestsLoudly { remaining: (24 - n) as u32 }
        } else {
            StopAction::WaitForRequests
        }),
        24 <= n < 84 ==> crate::server::lifecycle::stopped(stop_after(n, false), 1, false).1
            == StopAction::WaitForServer,
        n == 84 ==> crate::server::lifecycle::stopped(stop_after(n, false), 1, false) == (
            StopPhase::Stopped,
            StopAction::Finish { gave_up: true },
        ),
    decreases n,
{
    if n > 0 {
        stops_take_their_time((n - 1) as nat);
    }
}

/// Without requests a server that has ended is done with at once; one that has not is waited for.
pub proof fn idle_servers_stop_at_once(n: u32)
    requires
        n < 60,
    ensures
        crate::server::lifecycle::stopped(StopPhase::Draining(0), 0, true) == (
            StopPhase::Stopped,
            StopAction::Finish { gave_up: false },
        ),
        crate::server::lifecycle::stopped(StopPhase::Draining(0), 0, false) == (
            StopPhase::Terminating(1),
            StopAction::WaitForServer,
        ),
        crate::server::lifecycle::stopped(StopPhase::Terminating(n), 5, true) == (
            StopPhase::Stopped,
            StopAction::Finish { gave_up: false },
        ),
{
}

/// A renewal that nothing stands against suspends traffic, waits five seconds, stops the server,
/// waits one second, starts it again, resumes traffic and is complete.
pub proof fn renewals_run_through(yes: ServerResponse)
    requires
        yes.status == ResponseStatus::Okay,
    ensures
        ({
            let a = crate::server::lifecycle::refreshed(
                RefreshPhase::Idle,
                RefreshEvent::Notified { requested: true },
            );
            let b = crate::server::lifecycle::refreshed(a.0, RefreshEvent::Replied(Some(&yes)));
            let c = crate::server::lifecycle::refreshed(b.0, RefreshEvent::Waited { shutting_down: false });
            let d = crate::server::lifecycle::refreshed(c.0, RefreshEvent::ServerStopped);
            let e = crate::server::lifecycle::refreshed(d.0, RefreshEvent::Waited { shutting_down: false });
            let f = crate::server::lifecycle::refreshed(e.0, RefreshEvent::ServerStarted { ready: true });
            let g = crate::server::lifecycle::refreshed(f.0, RefreshEvent::Replied(Some(&yes)));
            &&& a.1 == RefreshAction::Suspend
            &&& b.1 == RefreshAction::Sleep(5)
            &&& c.1 == RefreshAction::StopServer
            &&& d.1 == RefreshAction::Sleep(1)
            &&& e.1 == RefreshAction::StartServer
            &&& f.1 == RefreshAction::AllowAndResume
            &&& g == (RefreshPhase::Idle, RefreshAction::Complete)
        }),
{
}

/// A renewal ends with the client where that shuts down while nothing is asked for or between the
/// servers, and ends the client where the new server does not start or the network is bad.
pub proof fn renewals_end(no: ServerResponse)
    requires
        no.status == ResponseStatus::Fail,
        no.fail_code is Some,
        "TERM_BAD_NETWORK"@.is_prefix_of(no.fail_code->0@),
    ensures
        crate::server::lifecycle::refreshed(RefreshPhase::Idle, RefreshEvent::ShutDown) == (
            RefreshPhase::Ended,
            RefreshAction::Exit,
        ),
        crate::server::lifecycle::refreshed(
            RefreshPhase::Pausing,
            RefreshEvent::Waited { shutting_down: true },
        ) == (RefreshPhase::Ended, RefreshAction::Exit),
        crate::server::lifecycle::refreshed(
            RefreshPhase::Starting,
            RefreshEvent::ServerStarted { ready: false },
        ) == (RefreshPhase::Ended, RefreshAction::ShutDownClient),
        crate::server::lifecycle::refreshed(RefreshPhase::Resuming, RefreshEvent::Replied(Some(&no))) == (
            RefreshPhase::Ended,
            RefreshAction::ShutDownClient,
        ),
        crate::server::lifecycle::refreshed(RefreshPhase::Resuming, RefreshEvent::Replied(None)) == (
            RefreshPhase::Idle,
            RefreshAction::Complete,
        ),
        crate::server::lifecycle::refreshed(
            RefreshPhase::Idle,
            RefreshEvent::Notified { requested: false },
        ) == (RefreshPhase::Idle, RefreshAction::AwaitRequest),
{
}

/// The client shuts down where its clock is more than a day off, or where less than a day is left
/// before its certificate expires.
pub proof fn clients_end_in_time(delta: i64, expiry: i64, now: i64)
    requires
        0 <= now <= 0x7fff_ffff_ffff,
    ensures
        crate::server::lifecycle::must_end(delta, Some(expiry), now) <==> delta > 86_400 || delta < -86_400
            || expiry - now < 86_400,
        crate::server::lifecycle::must_end(delta, None, now) <==> delta > 86_400 || delta < -86_400,
{
}

// ---------------------------------------------------------------------------
// The client
// ---------------------------------------------------------------------------

/// Credentials are a number of four digits or more and a key of twenty characters of ASCII.
pub proof fn credentials_are_checked(id: u32, key: Seq<char>)
    requires
        forall|j: int| 0 <= j < key.len() ==> '\0' <= #[trigger] key[j] <= '\u{7f}',
    ensures
        crate::client::are_credentials(id, key) <==> id >= 1_000 && key.len() == 20,
{
    assert(vstd::utf8::is_ascii_chars(key));
    vstd::utf8::is_ascii_chars_encode_utf8(key);
}

/// The client serves where its start was well answered; it stays without serving where its
/// connection could not be tested, and ends where another client has its number, or for any other
/// reason.
pub proof fn starts_are_answered(r: ServerResponse, code: Seq<char>, rest: Seq<char>)
    ensures
        r.status == ResponseStatus::Okay ==> crate::client::start_result(r) == Ok::<bool, ErrorView>(true),
        r.status != ResponseStatus::Okay && crate::text::opt_text(r.fail_code) == Some(code) ==> {
            &&& code == "FAIL_CONNECT_TEST"@ + rest ==> crate::client::start_result(r) == Ok::<bool, ErrorView>(
                false,
            )
            &&& code == "FAIL_OTHER_CLIENT_CONNECTED"@ + rest || code == "FAIL_CID_IN_USE"@ + rest
                ==> crate::client::start_result(r) == Err::<bool, ErrorView>(ErrorView::Fatal(code))
            &&& code.len() < 15 ==> crate::client::start_result(r) == Err::<bool, ErrorView>(
                ErrorView::Fatal("Unexpected client_start failure: "@ + code),
            )
        },
{
    reveal_strlit("FAIL_CONNECT_TEST");
    reveal_strlit("FAIL_OTHER_CLIENT_CONNECTED");
    reveal_strlit("FAIL_CID_IN_USE");
    let a = "FAIL_CONNECT_TEST"@;
    let b = "FAIL_OTHER_CLIENT_CONNECTED"@;
    let c = "FAIL_CID_IN_USE"@;
    assert((a + rest).subrange(0, a.len() as int) =~= a);
    assert((b + rest).subrange(0, b.len() as int) =~= b);
    assert((c + rest).subrange(0, c.len() as int) =~= c);
    let s = a + rest;
    assert(s[6] == 'O' && b[5] == 'O' && c[6] == 'I');
    assert(s[5] == 'C');
    if b.is_prefix_of(s) {
        assert(s.subrange(0, b.len() as int)[5] == b[5]);
    }
    if c.is_prefix_of(s) {
        assert(s.subrange(0, c.len() as int)[6] == c[6]);
    }
}

// ---------------------------------------------------------------------------
// Tests against other servers
// ---------------------------------------------------------------------------

/// A test counts with its time where as much was received as was declared and that is the wanted
/// size or more; with less declared it does not count. What broke off or failed is tried again
/// while tries are left, and what is not found is not.
pub proof fn tests_count(length: u64, received: u64, size: u64, millis: u64, left: u32)
    ensures
        ({
            let r = crate::server::threaded_proxy::step_after(
                TestAttempt::Received { content_length: length, received },
                size,
                millis,
                left,
            );
            &&& received == length && length >= size ==> r == TestStep::Done(Some(millis))
            &&& received == length && length < size ==> r == TestStep::Done(None)
            &&& received != length && left > 0 ==> r == TestStep::Retry
            &&& received != length && left == 0 ==> r == TestStep::Done(None)
        }),
        crate::server::threaded_proxy::step_after(TestAttempt::NotFound, size, millis, left) == TestStep::Done(
            None,
        ),
        left > 0 ==> crate::server::threaded_proxy::step_after(TestAttempt::Failed, size, millis, left)
            == TestStep::Retry,
        left == 0 ==> crate::server::threaded_proxy::step_after(TestAttempt::Failed, size, millis, left)
            == TestStep::Done(None),
{
}

/// Each test that counted adds one to the count and its time to the total; no other does.
pub proof fn tests_add_up(results: Seq<Option<u64>>, millis: u64)
    ensures
        crate::server::threaded_proxy::count_of(results.push(Some(millis)))
            == crate::server::threaded_proxy::count_of(results) + 1,
        crate::server::threaded_proxy::count_of(results.push(None))
            == crate::server::threaded_proxy::count_of(results),
        crate::server::threaded_proxy::time_of(results) + millis <= u64::MAX
            ==> crate::server::threaded_proxy::time_of(results.push(Some(millis)))
            == crate::server::threaded_proxy::time_of(results) + millis,
        crate::server::threaded_proxy::time_of(results.push(None))
            == crate::server::threaded_proxy::time_of(results),
        crate::server::threaded_proxy::count_of(seq![]) == 0,
        crate::server::threaded_proxy::time_of(seq![]) == 0,
{
    assert(results.push(Some(millis)).drop_last() =~= results);
    assert(results.push(None).drop_last() =~= results);
}

/// The path of a test is that of a speed test of its size, time and key, with a number behind it.
pub proof fn tests_have_their_path(size: u64, time: u32, key: Seq<char>, n: u32)
    ensures
        crate::server::threaded_proxy::test_path(size, time, key, n) == seq!['/', 't', '/']
            + crate::number::decimal(size as nat) + seq!['/'] + crate::number::decimal(time as nat) + seq!['/']
            + key + seq!['/'] + crate::number::decimal(n as nat),
{
    reveal_strlit("/t/");
    reveal_strlit("/");
    assert("/t/"@ =~= seq!['/', 't', '/']);
    assert("/"@ =~= seq!['/']);
}

// ---------------------------------------------------------------------------
// Logs and counters
// ---------------------------------------------------------------------------

/// A log file is counted by its whole lines. It stays open up to its limit, and with the line behind
/// that it is closed and put aside before the next is opened.
pub proof fn full_logs_are_put_aside(w: LineWriter, line: Seq<u8>)
    requires
        w.is_open,
        w.lines < usize::MAX,
    ensures
        ({
            let after = crate::logging::after_line(w, line + seq![10u8]);
            &&& after.lines == w.lines + 1
            &&& after.limit == w.limit
            &&& w.lines < w.limit ==> after.is_open && after.rotate_on_open == w.rotate_on_open
            &&& w.lines >= w.limit ==> !after.is_open && after.rotate_on_open
        }),
        !line.contains(10u8) ==> crate::logging::after_line(w, line) == w,
{
    assert((line + seq![10u8]).last() == 10u8);
    if line.len() > 0 && line.last() == 10u8 {
        assert(line.contains(line.last()));
    }
}

/// Each line of a log ends at the first line end, which belongs to it.
pub proof fn lines_end_at_line_ends(line: Seq<u8>, rest: Seq<u8>)
    requires
        !line.contains(10u8),
    ensures
        crate::logging::line_length(line + seq![10u8] + rest) == line.len() + 1,
        crate::logging::physical_lines(line + seq![10u8] + rest) == seq![line + seq![10u8]]
            + crate::logging::physical_lines(rest),
        crate::logging::line_length(line) == line.len(),
{
    lemma_line_end(line, rest);
    lemma_no_line_end(line);
    let data = line + seq![10u8] + rest;
    let n = line.len() as int + 1;
    assert(data.take(n) =~= line + seq![10u8]);
    assert(data.skip(n) =~= rest);
}

proof fn lemma_line_end(line: Seq<u8>, rest: Seq<u8>)
    requires
        !line.contains(10u8),
    ensures
        crate::logging::line_length(line + seq![10u8] + rest) == line.len() + 1,
    decreases line.len(),
{
    let data = line + seq![10u8] + rest;
    if line.len() == 0 {
        assert(data[0] == 10u8);
    } else {
        assert(line.contains(line[0]));
        assert(data[0] == line[0]);
        let less = line.skip(1);
        assert forall|j: int| 0 <= j < less.len() implies less[j] != 10u8 by {
            assert(line.contains(line[j + 1]));
        }
        lemma_line_end(less, rest);
        assert(data.skip(1) =~= less + seq![10u8] + rest);
    }
}

proof fn lemma_no_line_end(line: Seq<u8>)
    requires
        !line.contains(10u8),
    ensures
        crate::logging::line_length(line) == line.len(),
    decreases line.len(),
{
    if line.len() > 0 {
        assert(line.contains(line[0]));
        let less = line.skip(1);
        assert forall|j: int| 0 <= j < less.len() implies less[j] != 10u8 by {
            assert(line.contains(line[j + 1]));
        }
        lemma_no_line_end(less);
    }
}

/// Counting traffic changes the bytes sent and their history, and nothing else.
pub proof fn traffic_changes_nothing_else(a: Stats, b: Stats)
    ensures
        a.same_but_traffic(&b) <==> a == (Stats {
            bytes_sent: a.bytes_sent,
            bytes_sent_history: a.bytes_sent_history,
            ..b
        }),
{
}

/// At the start nothing has been sent, received, counted or contacted.
pub proof fn fresh_counters_are_nought(s: Stats, i: int)
    requires
        s.is_fresh(),
        0 <= i < s.bytes_sent_history@.len(),
    ensures
        s.files_sent == 0,
        s.files_rcvd == 0,
        s.bytes_sent == 0,
        s.bytes_rcvd == 0,
        s.cache_count == 0,
        s.cache_size == 0,
        s.open_connections == 0,
        s.last_server_contact == 0,
        !s.client_running,
        !s.client_suspended,
        s.program_start_time is None,
        s.bytes_sent_history@[i] == 0,
{
}

/// A contact sets the time of the last one and nothing else.
pub proof fn contacts_set_their_time(s: Stats, now: i64)
    ensures
        s.contacted(now).last_server_contact == now,
        s.contacted(now).files_sent == s.files_sent,
        s.contacted(now).bytes_sent == s.bytes_sent,
        s.contacted(now).cache_size == s.cache_size,
        s.contacted(now).open_connections == s.open_connections,
        s.contacted(now).client_running == s.client_running,
{
}

/// A test goes to the given host and port by the given protocol, whatever its key is, as long as the
/// key leaves the URL short enough.
pub proof fn tests_go_to_their_host(
    protocol: Seq<char>,
    host: Seq<char>,
    port: u16,
    key: Seq<char>,
    url: Seq<char>,
)
    requires
        url.len() <= 1_000_000,
        key.len() <= 1_000_000,
    ensures
        crate::url::with_authority("http://hath.invalid/"@, Some(protocol), host, Some(port)) == Ok::<
            Seq<char>,
            crate::url::BuildErrorView,
        >(url) ==> crate::server::threaded_proxy::test_base(protocol, host, port, key) == Ok::<
            Seq<char>,
            crate::url::BuildErrorView,
        >(url),
{
    crate::texts::characters_take_little_room(url);
    crate::texts::characters_take_little_room(key);
}

} // verus!
