//! Starting, stopping and renewing the server: what is done when.

use vstd::prelude::*;
use crate::rpc::{ResponseStatus, ServerResponse};

verus! {

// ---------------------------------------------------------------------------
// Starting
// ---------------------------------------------------------------------------

/// Where the start of a server stands.
#[derive(Debug, Clone, Copy, PartialEq, Eq, Structural)]
pub enum StartPhase {
    /// The certificate is being read.
    LoadingCertificate,
    /// A listener for both protocols is being bound.
    BindingDual,
    /// A listener for the older protocol alone is being bound.
    BindingV4,
    Listening,
    Failed,
}

/// What to do next to start a server.
#[derive(Debug, Clone, Copy, PartialEq, Eq, Structural)]
pub enum StartAction {
    /// Store the certificate and a new bandwidth monitor, then bind to both protocols.
    Bind,
    /// Bind to the older protocol alone.
    BindV4,
    /// Tell the one who waits that the server is ready, and accept connections.
    ReportReady,
    /// Tell the one who waits why the server cannot start.
    ReportFailure,
    /// Stop without a word: the one who waits learns it from the broken channel.
    Abandon,
}

/// What to do after a step of the start went well or not.
pub open spec fn started(phase: StartPhase, succeeded: bool) -> (StartPhase, StartAction) {
    match (phase, succeeded) {
        (StartPhase::LoadingCertificate, true) => (StartPhase::BindingDual, StartAction::Bind),
        (StartPhase::LoadingCertificate, false) => (StartPhase::Failed, StartAction::ReportFailure),
        (StartPhase::BindingDual, true) => (StartPhase::Listening, StartAction::ReportReady),
        (StartPhase::BindingDual, false) => (StartPhase::BindingV4, StartAction::BindV4),
        (StartPhase::BindingV4, true) => (StartPhase::Listening, StartAction::ReportReady),
        _ => (StartPhase::Failed, StartAction::Abandon),
    }
}

/// What to do after a step of the start went well or not.
pub fn next_start_action(phase: StartPhase, succeeded: bool) -> (r: (StartPhase, StartAction))
    ensures
        r == started(phase, succeeded),
{
    match phase {
        StartPhase::LoadingCertificate => if succeeded {
            (StartPhase::BindingDual, StartAction::Bind)
        } else {
            (StartPhase::Failed, StartAction::ReportFailure)
        },
        StartPhase::BindingDual => if succeeded {
            (StartPhase::Listening, StartAction::ReportReady)
        } else {
            (StartPhase::BindingV4, StartAction::BindV4)
        },
        StartPhase::BindingV4 => if succeeded {
            (StartPhase::Listening, StartAction::ReportReady)
        } else {
            (StartPhase::Failed, StartAction::Abandon)
        },
        _ => (StartPhase::Failed, StartAction::Abandon),
    }
}

// ---------------------------------------------------------------------------
// Stopping
// ---------------------------------------------------------------------------

/// The seconds that requests are given to finish.
pub const DRAIN_CYCLES: u32 = 24;

/// How many times the end of the server is waited for.
pub const TERMINATION_CYCLES: u32 = 60;

/// Where the stop of a server stands.
#[derive(Debug, Clone, Copy, PartialEq, Eq, Structural)]
pub enum StopPhase {
    /// Requests are given time to finish; so many seconds have passed.
    Draining(u32),
    /// The end of the server is waited for; so many times.
    Terminating(u32),
    Stopped,
}

/// What to do next to stop a server.
#[derive(Debug, Clone, Copy, PartialEq, Eq, Structural)]
pub enum StopAction {
    /// Wait a second for requests to finish.
    WaitForRequests,
    /// Wait a second, then tell that so many seconds are left for the requests.
    WaitForRequestsLoudly { remaining: u32 },
    /// Wait five seconds for the server to end.
    WaitForServer,
    /// The server has ended, or nobody waits for it any longer.
    Finish { gave_up: bool },
}

/// What to do next, by how many requests are active and whether the server has ended.
pub open spec fn stopped(phase: StopPhase, active: u32, terminated: bool) -> (StopPhase, StopAction) {
    match phase {
        StopPhase::Draining(n) => if n < DRAIN_CYCLES && active > 0 {
            let cycle = (n + 1) as u32;
            (
                StopPhase::Draining(cycle),
                if cycle % 5 == 0 {
                    StopAction::WaitForRequestsLoudly { remaining: (25 - cycle) as u32 }
                } else {
                    StopAction::WaitForRequests
                },
            )
        } else {
            waited(0, terminated)
        },
        StopPhase::Terminating(n) => waited(n, terminated),
        StopPhase::Stopped => (StopPhase::Stopped, StopAction::Finish { gave_up: false }),
    }
}

/// What to do after the end of the server was waited for so many times.
pub open spec fn waited(n: u32, terminated: bool) -> (StopPhase, StopAction) {
    if n >= TERMINATION_CYCLES {
        (StopPhase::Stopped, StopAction::Finish { gave_up: true })
    } else if terminated {
        (StopPhase::Stopped, StopAction::Finish { gave_up: false })
    } else {
        (StopPhase::Terminating((n + 1) as u32), StopAction::WaitForServer)
    }
}

fn wait_for_server(n: u32, terminated: bool) -> (r: (StopPhase, StopAction))
    ensures
        r == waited(n, terminated),
{
    if n >= TERMINATION_CYCLES {
        (StopPhase::Stopped, StopAction::Finish { gave_up: true })
    } else if terminated {
        (StopPhase::Stopped, StopAction::Finish { gave_up: false })
    } else {
        (StopPhase::Terminating(n + 1), StopAction::WaitForServer)
    }
}

/// What to do next, by how many requests are active and whether the server has ended.
pub fn next_stop_action(phase: StopPhase, active: u32, terminated: bool) -> (r: (StopPhase, StopAction))
    ensures
        r == stopped(phase, active, terminated),
{
    match phase {
        StopPhase::Draining(n) => {
            if n < DRAIN_CYCLES && active > 0 {
                let cycle: u32 = n + 1;
                let action = if cycle % 5 == 0 {
                    StopAction::WaitForRequestsLoudly { remaining: 25 - cycle }
                } else {
                    StopAction::WaitForRequests
                };
                (StopPhase::Draining(cycle), action)
            } else {
                wait_for_server(0, terminated)
            }
        },
        StopPhase::Terminating(n) => wait_for_server(n, terminated),
        StopPhase::Stopped => (StopPhase::Stopped, StopAction::Finish { gave_up: false }),
    }
}

/// How many more steps a stop can take.
pub open spec fn steps_left(phase: StopPhase) -> int {
    match phase {
        StopPhase::Draining(n) => if n < DRAIN_CYCLES {
            DRAIN_CYCLES - n + TERMINATION_CYCLES + 1
        } else {
            TERMINATION_CYCLES + 1
        },
        StopPhase::Terminating(n) => if n < TERMINATION_CYCLES {
            TERMINATION_CYCLES - n
        } else {
            0
        },
        StopPhase::Stopped => 0,
    }
}

/// A server is not waited for without end: each step leaves fewer to take, and with none left
/// the next one is the last.
pub proof fn stopping_ends(phase: StopPhase, active: u32, terminated: bool)
    ensures
        stopped(phase, active, terminated).1 is Finish || steps_left(
            stopped(phase, active, terminated).0,
        ) < steps_left(phase),
        steps_left(phase) == 0 ==> stopped(phase, active, terminated).1 is Finish,
{
}

// ---------------------------------------------------------------------------
// Renewing the certificate
// ---------------------------------------------------------------------------

/// Where the renewal of the certificate stands.
#[derive(Debug, Clone, Copy, PartialEq, Eq, Structural)]
pub enum RefreshPhase {
    /// Nothing is asked for.
    Idle,
    /// The servers are told to send no more traffic.
    Suspending,
    /// They could not be told; another try follows.
    BackingOff,
    /// Traffic is given time to cease.
    Settling,
    /// The old server is being stopped.
    Stopping,
    /// A moment passes between the servers.
    Pausing,
    /// The new server is being started.
    Starting,
    /// The servers are told to send traffic again.
    Resuming,
    /// No more renewals.
    Ended,
}

/// What happened while a certificate was renewed.
#[derive(Debug, Clone, Copy)]
pub enum RefreshEvent<'a> {
    /// A renewal was asked for, or not after all.
    Notified { requested: bool },
    /// The client is shut down.
    ShutDown,
    /// The servers answered, or did not.
    Replied(Option<&'a ServerResponse>),
    /// The time that was waited for is over; whether the client is being shut down.
    Waited { shutting_down: bool },
    /// The old server is stopped.
    ServerStopped,
    /// The new server accepts connections, or does not.
    ServerStarted { ready: bool },
}

/// What to do next to renew a certificate.
#[derive(Debug, Clone, Copy, PartialEq, Eq, Structural)]
pub enum RefreshAction {
    /// Wait for a renewal to be asked for.
    AwaitRequest,
    /// Ask the servers to suspend traffic.
    Suspend,
    /// Wait so many seconds.
    Sleep(u64),
    /// Ask for the renewal once more, then wait for it.
    RequestAgain,
    StopServer,
    StartServer,
    /// Accept connections again, and tell the servers to resume traffic.
    AllowAndResume,
    /// The renewal is over: clear the request, then wait for another.
    Complete,
    /// End with the client.
    Exit,
    /// Shut the client down.
    ShutDownClient,
}

/// Whether an answer says that the network of the client is misconfigured.
pub open spec fn is_bad_network(r: ServerResponse) -> bool {
    r.status != ResponseStatus::Okay && (match crate::text::opt_text(r.fail_code) {
        Some(code) => "TERM_BAD_NETWORK"@.is_prefix_of(code),
        None => false,
    })
}

/// What follows an event in a phase. An event that is not due changes nothing.
pub open spec fn refreshed(phase: RefreshPhase, event: RefreshEvent) -> (RefreshPhase, RefreshAction) {
    match (phase, event) {
        (RefreshPhase::Idle, RefreshEvent::ShutDown) => (RefreshPhase::Ended, RefreshAction::Exit),
        (RefreshPhase::Idle, RefreshEvent::Notified { requested }) => if requested {
            (RefreshPhase::Suspending, RefreshAction::Suspend)
        } else {
            (RefreshPhase::Idle, RefreshAction::AwaitRequest)
        },
        (RefreshPhase::Suspending, RefreshEvent::Replied(reply)) => if reply matches Some(r)
            && r.status == ResponseStatus::Okay {
            (RefreshPhase::Settling, RefreshAction::Sleep(5))
        } else {
            (RefreshPhase::BackingOff, RefreshAction::Sleep(10))
        },
        (RefreshPhase::BackingOff, RefreshEvent::Waited { .. }) => (
            RefreshPhase::Idle,
            RefreshAction::RequestAgain,
        ),
        (RefreshPhase::Settling, RefreshEvent::Waited { .. }) => (
            RefreshPhase::Stopping,
            RefreshAction::StopServer,
        ),
        (RefreshPhase::Stopping, RefreshEvent::ServerStopped) => (
            RefreshPhase::Pausing,
            RefreshAction::Sleep(1),
        ),
        (RefreshPhase::Pausing, RefreshEvent::Waited { shutting_down }) => if shutting_down {
            (RefreshPhase::Ended, RefreshAction::Exit)
        } else {
            (RefreshPhase::Starting, RefreshAction::StartServer)
        },
        (RefreshPhase::Starting, RefreshEvent::ServerStarted { ready }) => if ready {
            (RefreshPhase::Resuming, RefreshAction::AllowAndResume)
        } else {
            (RefreshPhase::Ended, RefreshAction::ShutDownClient)
        },
        (RefreshPhase::Resuming, RefreshEvent::Replied(reply)) => if reply matches Some(r)
            && is_bad_network(*r) {
            (RefreshPhase::Ended, RefreshAction::ShutDownClient)
        } else {
            (RefreshPhase::Idle, RefreshAction::Complete)
        },
        (RefreshPhase::Ended, _) => (RefreshPhase::Ended, RefreshAction::Exit),
        _ => (phase, RefreshAction::AwaitRequest),
    }
}

fn is_okay(reply: Option<&ServerResponse>) -> (r: bool)
    ensures
        r == (reply matches Some(s) && s.status == ResponseStatus::Okay),
{
    match reply {
        Some(s) => s.status == ResponseStatus::Okay,
        None => false,
    }
}

/// Whether an answer says that the network of the client is misconfigured.
pub fn says_bad_network(reply: Option<&ServerResponse>) -> (r: bool)
    ensures
        r == (reply matches Some(s) && is_bad_network(*s)),
{
    match reply {
        Some(s) => {
            if s.status == ResponseStatus::Okay {
                return false;
            }
            match &s.fail_code {
                Some(code) => crate::text::has_prefix(code.as_str(), "TERM_BAD_NETWORK"),
                None => false,
            }
        },
        None => false,
    }
}

/// What follows an event in a phase.
pub fn next_refresh_action(phase: RefreshPhase, event: RefreshEvent) -> (r: (
    RefreshPhase,
    RefreshAction,
))
    ensures
        r == refreshed(phase, event),
{
    match (phase, event) {
        (RefreshPhase::Idle, RefreshEvent::ShutDown) => (RefreshPhase::Ended, RefreshAction::Exit),
        (RefreshPhase::Idle, RefreshEvent::Notified { requested }) => if requested {
            (RefreshPhase::Suspending, RefreshAction::Suspend)
        } else {
            (RefreshPhase::Idle, RefreshAction::AwaitRequest)
        },
        (RefreshPhase::Suspending, RefreshEvent::Replied(reply)) => if is_okay(reply) {
            (RefreshPhase::Settling, RefreshAction::Sleep(5))
        } else {
            (RefreshPhase::BackingOff, RefreshAction::Sleep(10))
        },
        (RefreshPhase::BackingOff, RefreshEvent::Waited { .. }) => (
            RefreshPhase::Idle,
            RefreshAction::RequestAgain,
        ),
        (RefreshPhase::Settling, RefreshEvent::Waited { .. }) => (
            RefreshPhase::Stopping,
            RefreshAction::StopServer,
        ),
        (RefreshPhase::Stopping, RefreshEvent::ServerStopped) => (
            RefreshPhase::Pausing,
            RefreshAction::Sleep(1),
        ),
        (RefreshPhase::Pausing, RefreshEvent::Waited { shutting_down }) => if shutting_down {
            (RefreshPhase::Ended, RefreshAction::Exit)
        } else {
            (RefreshPhase::Starting, RefreshAction::StartServer)
        },
        (RefreshPhase::Starting, RefreshEvent::ServerStarted { ready }) => if ready {
            (RefreshPhase::Resuming, RefreshAction::AllowAndResume)
        } else {
            (RefreshPhase::Ended, RefreshAction::ShutDownClient)
        },
        (RefreshPhase::Resuming, RefreshEvent::Replied(reply)) => if says_bad_network(reply) {
            (RefreshPhase::Ended, RefreshAction::ShutDownClient)
        } else {
            (RefreshPhase::Idle, RefreshAction::Complete)
        },
        (RefreshPhase::Ended, _) => (RefreshPhase::Ended, RefreshAction::Exit),
        _ => (phase, RefreshAction::AwaitRequest),
    }
}

/// The old server is stopped only once the servers have agreed to suspend traffic: the
/// action follows only on the phase that such an answer leads to.
pub proof fn server_stops_only_when_suspended(phase: RefreshPhase, event: RefreshEvent)
    ensures
        refreshed(phase, event).1 is StopServer ==> phase is Settling,
        refreshed(phase, event).0 is Settling && !(phase is Settling) ==> phase is Suspending && (
        event matches RefreshEvent::Replied(Some(r)) && r.status == ResponseStatus::Okay),
{
}

/// Connections are accepted again only once the new server is ready.
pub proof fn connections_resume_only_when_ready(phase: RefreshPhase, event: RefreshEvent)
    ensures
        refreshed(phase, event).1 is AllowAndResume ==> phase is Starting && (
        event matches RefreshEvent::ServerStarted { ready: true }),
        refreshed(phase, event).1 is Complete ==> phase is Resuming,
{
}

/// A renewal that could not begin leaves the old server as it is and is tried again.
pub proof fn failed_suspension_is_tried_again(reply: Option<&ServerResponse>, shutting_down: bool)
    requires
        !(reply matches Some(r) && r.status == ResponseStatus::Okay),
    ensures
        ({
            let (phase, action) = refreshed(RefreshPhase::Suspending, RefreshEvent::Replied(reply));
            action == RefreshAction::Sleep(10) && refreshed(
                phase,
                RefreshEvent::Waited { shutting_down },
            ) == (RefreshPhase::Idle, RefreshAction::RequestAgain)
        }),
{
}

// ---------------------------------------------------------------------------
// Checking clock and certificate
// ---------------------------------------------------------------------------

/// Whether the clocks of client and servers are more than a day apart.
pub fn clock_is_off(server_time_delta: i64) -> (r: bool)
    ensures
        r == (server_time_delta > 86400 || server_time_delta < -86400),
{
    server_time_delta > 86400 || server_time_delta < -86400
}

/// Whether the client has to shut down for its certificate at the time `now`.
pub fn certificate_ends_client_at(expiry: Option<i64>, now: i64) -> (r: bool)
    ensures
        r == (expiry matches Some(t) && crate::server::tls::is_past_use(t, now)),
{
    match expiry {
        Some(t) => crate::server::tls::is_cert_expired_at(t, now),
        None => false,
    }
}

/// Whether the client has to shut down: the clocks are more than a day apart, or its
/// certificate expires within the next day.
pub open spec fn must_end(server_time_delta: i64, expiry: Option<i64>, now: i64) -> bool {
    server_time_delta > 86400 || server_time_delta < -86400 || (expiry matches Some(t)
        && crate::server::tls::is_past_use(t, now))
}

/// Whether the client has to shut down at the time `now`.
pub fn must_shut_down_at(server_time_delta: i64, expiry: Option<i64>, now: i64) -> (r: bool)
    ensures
        r == must_end(server_time_delta, expiry, now),
{
    clock_is_off(server_time_delta) || certificate_ends_client_at(expiry, now)
}

/// Whether the client has to shut down. The clock is read.
pub fn must_shut_down(server_time_delta: i64, expiry: Option<i64>) -> (r: bool)
    ensures
        exists|now: i64| 0 <= now && r == #[trigger] must_end(server_time_delta, expiry, now),
{
    let now: i64 = crate::utils::timestamp_now();
    must_shut_down_at(server_time_delta, expiry, now)
}

} // verus!
