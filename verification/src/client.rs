//! The life of the client: what is done from its start to its end, and in which order.

use vstd::prelude::*;
use crate::config::Config;
use crate::error::{ErrorView, HathError};
use crate::rpc::{ResponseStatus, ServerResponse};

verus! {

/// Where the client stands.
#[derive(Debug, Clone, Copy, PartialEq, Eq, Structural)]
pub enum ClientPhase {
    /// The settings are loaded.
    Loaded,
    /// The servers are asked for their time, their list and the oldest build.
    AwaitingStat,
    /// The client logs in.
    AwaitingLogin,
    /// The cache is being loaded.
    LoadingCache,
    /// The server is being started.
    StartingServer,
    /// The servers are told that the client is ready, and test it.
    AwaitingStart,
    /// The settings are asked for once more.
    Refreshing,
    /// The client serves, or waits for its end.
    Running,
    /// The servers are told that the client ends.
    Leaving,
    /// The server is being stopped.
    StoppingServer,
    /// The tasks in the background are waited for.
    JoiningTasks,
    Ended,
}

/// What to do next.
#[derive(Debug, Clone, Copy, PartialEq, Eq, Structural)]
pub enum ClientAction {
    AskStat,
    /// Apply the settings of the answer, then log in.
    ApplyAndLogin,
    /// Apply the settings of the answer, then load the cache.
    ApplyAndLoadCache,
    StartServer,
    /// Tell the servers that the client is ready.
    NotifyStart,
    /// Accept connections, then ask for the settings once more.
    AllowAndRefresh,
    /// Apply the settings of the answer, delete what the servers list, and start the tasks in
    /// the background.
    ApplyAndRun,
    /// Delete what the servers list, and start the tasks in the background.
    Run,
    /// Stay so that the network can be looked into, without serving anybody.
    StayForDiagnosis,
    /// Tell the servers that the client ends.
    NotifyStop,
    StopServer,
    JoinTasks,
    /// Save the state of the cache and the credentials.
    SaveCache,
    /// Forget the saved state of the cache, so that the next start looks at every file, and
    /// save the credentials.
    DiscardCache,
}

/// How far a phase is from the start.
pub open spec fn rank(phase: ClientPhase) -> int {
    match phase {
        ClientPhase::Loaded => 0,
        ClientPhase::AwaitingStat => 1,
        ClientPhase::AwaitingLogin => 2,
        ClientPhase::LoadingCache => 3,
        ClientPhase::StartingServer => 4,
        ClientPhase::AwaitingStart => 5,
        ClientPhase::Refreshing => 6,
        ClientPhase::Running => 7,
        ClientPhase::Leaving => 8,
        ClientPhase::StoppingServer => 9,
        ClientPhase::JoiningTasks => 10,
        ClientPhase::Ended => 11,
    }
}

/// The client between its start and its end.
#[derive(Debug)]
pub struct ClientRun {
    pub phase: ClientPhase,
    /// Whether clients of the network are served.
    pub allow_connections: bool,
    /// Whether the servers know that the client runs; once set, it stays so.
    pub report_shutdown: bool,
}

/// Whether the credentials are saved: there are any.
pub fn should_save_login(config: &Config) -> (r: bool)
    ensures
        r == (config.client_id.0 > 0 && config.client_key@.len() > 0),
{
    config.client_id.0 > 0 && !config.client_key.as_str().is_empty()
}

/// Whether credentials can be the client's: a number of four digits or more and a key of
/// twenty bytes.
pub open spec fn are_credentials(id: u32, key: Seq<char>) -> bool {
    id >= 1000 && vstd::utf8::encode_utf8(key).len() == 20
}

/// The code of a failure, or nothing.
pub open spec fn code_of(r: ServerResponse) -> Seq<char> {
    match crate::text::opt_text(r.fail_code) {
        Some(c) => c,
        None => seq![],
    }
}

/// What the answer to the notice of the start leads to.
pub open spec fn start_result(r: ServerResponse) -> Result<bool, ErrorView> {
    let code = code_of(r);
    if r.status == ResponseStatus::Okay {
        Ok(true)
    } else if "FAIL_OTHER_CLIENT_CONNECTED"@.is_prefix_of(code) || "FAIL_CID_IN_USE"@.is_prefix_of(code) {
        Err(ErrorView::Fatal(code))
    } else if "FAIL_CONNECT_TEST"@.is_prefix_of(code) {
        Ok(false)
    } else {
        Err(ErrorView::Fatal("Unexpected client_start failure: "@ + code))
    }
}

fn fail_code(response: &ServerResponse) -> (r: String)
    ensures
        r@ == code_of(*response),
{
    match &response.fail_code {
        Some(c) => c.clone(),
        None => String::new(),
    }
}

/// What the answer to the notice of the start leads to: whether the client serves, or why it
/// ends. A client that failed the test of its connection stays without serving.
pub fn check_start(response: &ServerResponse) -> (r: Result<bool, HathError>)
    ensures
        match r {
            Ok(b) => start_result(*response) == Ok::<bool, ErrorView>(b),
            Err(e) => start_result(*response) == Err::<bool, ErrorView>(e@),
        },
{
    if response.status == ResponseStatus::Okay {
        return Ok(true);
    }
    let code = fail_code(response);
    if crate::text::has_prefix(code.as_str(), "FAIL_OTHER_CLIENT_CONNECTED") || crate::text::has_prefix(
        code.as_str(),
        "FAIL_CID_IN_USE",
    ) {
        return Err(HathError::Fatal(code));
    }
    if crate::text::has_prefix(code.as_str(), "FAIL_CONNECT_TEST") {
        return Ok(false);
    }
    Err(
        HathError::Fatal(
            crate::text::concat("Unexpected client_start failure: ", code.as_str()),
        ),
    )
}

impl ClientRun {
    /// Nobody is served before the servers were told of the client.
    pub open spec fn wf(&self) -> bool {
        self.allow_connections ==> self.report_shutdown
    }

    /// Whether this is what another run can have become: it has come further, and servers that
    /// knew of it still do.
    pub open spec fn follows(&self, before: &ClientRun) -> bool {
        &&& rank(before.phase) < rank(self.phase)
        &&& before.report_shutdown ==> self.report_shutdown
    }

    /// The same flags in another phase.
    pub open spec fn at(&self, phase: ClientPhase) -> ClientRun {
        ClientRun { phase, ..*self }
    }

    pub fn new() -> (r: Self)
        ensures
            r.wf(),
            r == (ClientRun {
                phase: ClientPhase::Loaded,
                allow_connections: false,
                report_shutdown: false,
            }),
    {
        ClientRun { phase: ClientPhase::Loaded, allow_connections: false, report_shutdown: false }
    }

    /// Begins with these settings, where their credentials can be the client's.
    pub fn begin(&mut self, config: &Config) -> (r: Result<ClientAction, HathError>)
        requires
            old(self).wf(),
            old(self).phase == ClientPhase::Loaded,
        ensures
            final(self).wf(),
            final(self).follows(old(self)),
            if are_credentials(config.client_id.0, config.client_key@) {
                r matches Ok(a) && a == ClientAction::AskStat && *final(self) == old(self).at(
                    ClientPhase::AwaitingStat,
                )
            } else {
                r matches Err(e) && e@ == ErrorView::Config("Invalid credentials"@) && *final(self)
                    == old(self).at(ClientPhase::Ended)
            },
    {
        if config.client_id.0 < 1000 || config.client_key.as_str().as_bytes().len() != 20 {
            self.phase = ClientPhase::Ended;
            return Err(HathError::Config(String::from_str("Invalid credentials")));
        }
        self.phase = ClientPhase::AwaitingStat;
        Ok(ClientAction::AskStat)
    }

    /// The servers told their time, their list and the oldest build. Their settings are
    /// applied before the login, which is signed with the corrected time.
    pub fn stat_received(&mut self, response: &ServerResponse) -> (r: Result<ClientAction, HathError>)
        requires
            old(self).wf(),
            old(self).phase == ClientPhase::AwaitingStat,
        ensures
            final(self).wf(),
            final(self).follows(old(self)),
            if response.status == ResponseStatus::Okay {
                r matches Ok(a) && a == ClientAction::ApplyAndLogin && *final(self) == old(self).at(
                    ClientPhase::AwaitingLogin,
                )
            } else {
                r matches Err(e) && e@ == ErrorView::Rpc("Failed to get initial stat from server"@)
                    && *final(self) == old(self).at(ClientPhase::Ended)
            },
    {
        if response.status != ResponseStatus::Okay {
            self.phase = ClientPhase::Ended;
            return Err(HathError::Rpc(String::from_str("Failed to get initial stat from server")));
        }
        self.phase = ClientPhase::AwaitingLogin;
        Ok(ClientAction::ApplyAndLogin)
    }

    /// The servers answered the login.
    pub fn login_received(&mut self, response: &ServerResponse) -> (r: Result<ClientAction, HathError>)
        requires
            old(self).wf(),
            old(self).phase == ClientPhase::AwaitingLogin,
        ensures
            final(self).wf(),
            final(self).follows(old(self)),
            if response.status == ResponseStatus::Okay {
                r matches Ok(a) && a == ClientAction::ApplyAndLoadCache && *final(self) == old(self).at(
                    ClientPhase::LoadingCache,
                )
            } else {
                r matches Err(e) && e@ == ErrorView::Rpc("Login failed: "@ + code_of(*response))
                    && *final(self) == old(self).at(ClientPhase::Ended)
            },
    {
        if response.status != ResponseStatus::Okay {
            self.phase = ClientPhase::Ended;
            let code = fail_code(response);
            return Err(HathError::Rpc(crate::text::concat("Login failed: ", code.as_str())));
        }
        self.phase = ClientPhase::LoadingCache;
        Ok(ClientAction::ApplyAndLoadCache)
    }

    /// The cache is loaded.
    pub fn cache_loaded(&mut self) -> (r: ClientAction)
        requires
            old(self).wf(),
            old(self).phase == ClientPhase::LoadingCache,
        ensures
            final(self).wf(),
            final(self).follows(old(self)),
            *final(self) == old(self).at(ClientPhase::StartingServer),
            r == ClientAction::StartServer,
    {
        self.phase = ClientPhase::StartingServer;
        ClientAction::StartServer
    }

    /// The server accepts connections, or says why not, or has vanished.
    pub fn server_started(&mut self, outcome: Option<Result<u16, String>>) -> (r: Result<
        ClientAction,
        HathError,
    >)
        requires
            old(self).wf(),
            old(self).phase == ClientPhase::StartingServer,
        ensures
            final(self).wf(),
            final(self).follows(old(self)),
            match outcome {
                Some(Ok(_)) => r matches Ok(a) && a == ClientAction::NotifyStart && *final(self)
                    == old(self).at(ClientPhase::AwaitingStart),
                Some(Err(m)) => r matches Err(e) && e@ == ErrorView::Config(
                    "Server startup failed: "@ + m@,
                ) && *final(self) == old(self).at(ClientPhase::Ended),
                None => r matches Err(e) && e@ == ErrorView::Config(
                    "Server startup failed unexpectedly"@,
                ) && *final(self) == old(self).at(ClientPhase::Ended),
            },
    {
        match outcome {
            Some(Ok(_)) => {
                self.phase = ClientPhase::AwaitingStart;
                Ok(ClientAction::NotifyStart)
            },
            Some(Err(m)) => {
                self.phase = ClientPhase::Ended;
                Err(
                    HathError::Config(crate::text::concat("Server startup failed: ", m.as_str())),
                )
            },
            None => {
                self.phase = ClientPhase::Ended;
                Err(HathError::Config(String::from_str("Server startup failed unexpectedly")))
            },
        }
    }

    /// The servers answered the notice of the start.
    pub fn start_received(&mut self, response: &ServerResponse) -> (r: Result<ClientAction, HathError>)
        requires
            old(self).wf(),
            old(self).phase == ClientPhase::AwaitingStart,
        ensures
            final(self).wf(),
            final(self).follows(old(self)),
            match start_result(*response) {
                Ok(true) => r matches Ok(a) && a == ClientAction::AllowAndRefresh && *final(self) == (
                ClientRun {
                    phase: ClientPhase::Refreshing,
                    allow_connections: true,
                    report_shutdown: true,
                }),
                Ok(false) => r matches Ok(a) && a == ClientAction::StayForDiagnosis && *final(self)
                    == old(self).at(ClientPhase::Running),
                Err(e) => r matches Err(f) && f@ == e && *final(self) == old(self).at(
                    ClientPhase::Ended,
                ),
            },
    {
        match check_start(response) {
            Ok(true) => {
                self.allow_connections = true;
                self.report_shutdown = true;
                self.phase = ClientPhase::Refreshing;
                Ok(ClientAction::AllowAndRefresh)
            },
            Ok(false) => {
                self.phase = ClientPhase::Running;
                Ok(ClientAction::StayForDiagnosis)
            },
            Err(e) => {
                self.phase = ClientPhase::Ended;
                Err(e)
            },
        }
    }

    /// The servers gave the settings once more, or did not: the client runs either way.
    pub fn refresh_received(&mut self, response: Option<&ServerResponse>) -> (r: ClientAction)
        requires
            old(self).wf(),
            old(self).phase == ClientPhase::Refreshing,
        ensures
            final(self).wf(),
            final(self).follows(old(self)),
            *final(self) == old(self).at(ClientPhase::Running),
            r == (if response matches Some(s) && s.status == ResponseStatus::Okay {
                ClientAction::ApplyAndRun
            } else {
                ClientAction::Run
            }),
    {
        self.phase = ClientPhase::Running;
        match response {
            Some(s) => if s.status == ResponseStatus::Okay {
                ClientAction::ApplyAndRun
            } else {
                ClientAction::Run
            },
            None => ClientAction::Run,
        }
    }

    /// The client is to end: the servers are told where they know of it.
    pub fn shut_down(&mut self) -> (r: ClientAction)
        requires
            old(self).wf(),
            old(self).phase == ClientPhase::Running,
        ensures
            final(self).wf(),
            final(self).follows(old(self)),
            if old(self).report_shutdown {
                r == ClientAction::NotifyStop && *final(self) == old(self).at(ClientPhase::Leaving)
            } else {
                r == ClientAction::StopServer && *final(self) == (ClientRun {
                    phase: ClientPhase::StoppingServer,
                    allow_connections: false,
                    ..*old(self)
                })
            },
    {
        if self.report_shutdown {
            self.phase = ClientPhase::Leaving;
            ClientAction::NotifyStop
        } else {
            self.allow_connections = false;
            self.phase = ClientPhase::StoppingServer;
            ClientAction::StopServer
        }
    }

    /// The servers were told, or could not be.
    pub fn stop_notified(&mut self) -> (r: ClientAction)
        requires
            old(self).wf(),
            old(self).phase == ClientPhase::Leaving,
        ensures
            final(self).wf(),
            final(self).follows(old(self)),
            *final(self) == (ClientRun {
                phase: ClientPhase::StoppingServer,
                allow_connections: false,
                ..*old(self)
            }),
            r == ClientAction::StopServer,
    {
        self.allow_connections = false;
        self.phase = ClientPhase::StoppingServer;
        ClientAction::StopServer
    }

    /// The server is stopped.
    pub fn server_stopped(&mut self) -> (r: ClientAction)
        requires
            old(self).wf(),
            old(self).phase == ClientPhase::StoppingServer,
        ensures
            final(self).wf(),
            final(self).follows(old(self)),
            *final(self) == old(self).at(ClientPhase::JoiningTasks),
            r == ClientAction::JoinTasks,
    {
        self.phase = ClientPhase::JoiningTasks;
        ClientAction::JoinTasks
    }

    /// The tasks in the background have ended, or some had to be broken off: then what they
    /// left of the cache is not to be trusted.
    pub fn tasks_joined(&mut self, all_ended: bool) -> (r: ClientAction)
        requires
            old(self).wf(),
            old(self).phase == ClientPhase::JoiningTasks,
        ensures
            final(self).wf(),
            final(self).follows(old(self)),
            *final(self) == old(self).at(ClientPhase::Ended),
            r == (if all_ended {
                ClientAction::SaveCache
            } else {
                ClientAction::DiscardCache
            }),
    {
        self.phase = ClientPhase::Ended;
        if all_ended {
            ClientAction::SaveCache
        } else {
            ClientAction::DiscardCache
        }
    }
}

/// Going on never leads back: what follows a run that follows another follows that one too. So
/// every run ends, and servers that were told of the client are told of its end.
pub proof fn runs_only_go_on(first: ClientRun, second: ClientRun, third: ClientRun)
    requires
        second.follows(&first),
        third.follows(&second),
    ensures
        third.follows(&first),
        !first.follows(&third),
        second.phase != ClientPhase::Ended,
{
}

// ---------------------------------------------------------------------------
// Tasks in the background
// ---------------------------------------------------------------------------

/// How the wait for a task came out.
#[derive(Debug, Clone, Copy, PartialEq, Eq, Structural)]
pub enum TaskOutcome {
    Ended,
    Failed,
    /// The time for all tasks together is over.
    TimedOut,
}

/// What to do about the tasks in the background.
#[derive(Debug, Clone, Copy, PartialEq, Eq, Structural)]
pub enum JoinStep {
    /// Wait for the task with that number.
    WaitFor(usize),
    /// Break off the tasks from that number on.
    AbortFrom(usize),
    AllEnded,
}

/// The tasks in the background, in the order in which they are waited for.
#[derive(Debug)]
pub struct BackgroundTasks {
    pub names: Vec<String>,
    pub next: usize,
}

impl BackgroundTasks {
    pub fn new() -> (r: Self)
        ensures
            r.names@.len() == 0,
            r.next == 0,
    {
        BackgroundTasks { names: Vec::new(), next: 0 }
    }

    /// Adds a task behind the others.
    pub fn track(&mut self, name: &str)
        ensures
            crate::text::texts(final(self).names@) == crate::text::texts(old(self).names@).push(name@),
            final(self).next == old(self).next,
    {
        let ghost before = crate::text::texts(self.names@);
        self.names.push(String::from_str(name));
        assert(crate::text::texts(self.names@) =~= before.push(name@));
    }

    /// The task to wait for now.
    pub fn current(&self) -> (r: JoinStep)
        ensures
            r == (if self.next < self.names@.len() {
                JoinStep::WaitFor(self.next)
            } else {
                JoinStep::AllEnded
            }),
    {
        if self.next < self.names.len() {
            JoinStep::WaitFor(self.next)
        } else {
            JoinStep::AllEnded
        }
    }

    /// The wait for the current task is over. A task that failed has ended, but the others
    /// are broken off; one that did not end in time is broken off with them.
    pub fn task_joined(&mut self, outcome: TaskOutcome) -> (r: JoinStep)
        requires
            old(self).next < old(self).names@.len(),
        ensures
            final(self).names@ == old(self).names@,
            r == (match outcome {
                TaskOutcome::Ended => if old(self).next + 1 < old(self).names@.len() {
                    JoinStep::WaitFor((old(self).next + 1) as usize)
                } else {
                    JoinStep::AllEnded
                },
                TaskOutcome::Failed => JoinStep::AbortFrom((old(self).next + 1) as usize),
                TaskOutcome::TimedOut => JoinStep::AbortFrom(old(self).next),
            }),
            final(self).next == (if outcome == TaskOutcome::Ended {
                (old(self).next + 1) as usize
            } else {
                old(self).names@.len() as usize
            }),
    {
        let total: usize = self.names.len();
        match outcome {
            TaskOutcome::Ended => {
                self.next = self.next + 1;
                self.current()
            },
            TaskOutcome::Failed => {
                let from: usize = self.next + 1;
                self.next = total;
                JoinStep::AbortFrom(from)
            },
            TaskOutcome::TimedOut => {
                let from: usize = self.next;
                self.next = total;
                JoinStep::AbortFrom(from)
            },
        }
    }
}

} // verus!
