//! Which server is called, what is done with its answer, and when a call is made again.

use vstd::prelude::*;
use crate::config::Config;
use crate::error::{ErrorView, HathError};
use crate::rpc::{Action, ResponseStatus, ServerResponse};

verus! {

/// How often a call is made again after the server said that the key has expired.
pub const KEY_EXPIRED_RETRY_LIMIT: u32 = 1;

/// How often a request is sent before it counts as failed.
pub const REQUEST_ATTEMPTS: u32 = 3;

// ---------------------------------------------------------------------------
// Routing
// ---------------------------------------------------------------------------

/// Mutable RPC routing state.
#[derive(Debug)]
pub struct RpcState {
    /// Currently selected RPC host. Kept until failure or periodic reset.
    pub rpc_current: Option<String>,
    /// Last failed RPC host, skipped during host selection.
    pub rpc_last_failed: Option<String>,
}

impl Default for RpcState {
    fn default() -> (r: Self)
        ensures
            r.rpc_current is None,
            r.rpc_last_failed is None,
    {
        RpcState { rpc_current: None, rpc_last_failed: None }
    }
}

#[derive(Debug)]
pub struct RpcRouter {
    pub state: RpcState,
}

impl Default for RpcRouter {
    fn default() -> (r: Self)
        ensures
            r.current() is None,
            r.last_failed() is None,
    {
        RpcRouter { state: RpcState { rpc_current: None, rpc_last_failed: None } }
    }
}

/// The first host, from `at` on and in steps of `step` round the list, that is not the
/// failed one, where one of the next `tries` is.
pub open spec fn first_other(
    hosts: Seq<Seq<char>>,
    failed: Option<Seq<char>>,
    at: int,
    step: int,
    tries: nat,
) -> Option<Seq<char>>
    decreases tries,
{
    if tries == 0 {
        None
    } else {
        let host = hosts[at % hosts.len() as int];
        if failed == Some(host) {
            first_other(hosts, failed, at + step, step, (tries - 1) as nat)
        } else {
            Some(host)
        }
    }
}

/// Whether a host other than the failed one can be chosen.
pub open spec fn choosable(hosts: Seq<Seq<char>>, failed: Option<Seq<char>>) -> bool {
    hosts.len() <= 1 || exists|i: int| 0 <= i < hosts.len() && failed != Some(#[trigger] hosts[i])
}

/// The host that two random numbers choose: the usual one where there are no servers, the
/// only one where there is one, else the first that is not the failed one, from a random
/// place on and in a random direction.
pub open spec fn chosen_host(
    hosts: Seq<Seq<char>>,
    failed: Option<Seq<char>>,
    place: u32,
    turn: u32,
) -> Option<Seq<char>> {
    if hosts.len() == 0 {
        Some("rpc.hentaiathome.net"@)
    } else if hosts.len() == 1 {
        Some(hosts[0])
    } else {
        first_other(
            hosts,
            failed,
            place as int % hosts.len() as int,
            if turn % 2 == 0 {
                -1
            } else {
                1
            },
            hosts.len(),
        )
    }
}

proof fn lemma_first_other(
    hosts: Seq<Seq<char>>,
    failed: Option<Seq<char>>,
    at: int,
    step: int,
    tries: nat,
    good: int,
    k: int,
)
    requires
        hosts.len() > 0,
        0 <= k < tries,
        (at + k * step) % hosts.len() as int == good,
        0 <= good < hosts.len(),
        failed != Some(hosts[good]),
    ensures
        first_other(hosts, failed, at, step, tries) is Some,
        hosts.contains(first_other(hosts, failed, at, step, tries)->0),
        failed != first_other(hosts, failed, at, step, tries),
    decreases tries,
{
    let i = at % hosts.len() as int;
    assert(0 <= i < hosts.len());
    if failed == Some(hosts[i]) {
        assert(k > 0) by {
            if k == 0 {
                assert(k * step == 0) by (nonlinear_arith)
                    requires
                        k == 0,
                ;
            }
        }
        assert(at + k * step == (at + step) + (k - 1) * step) by (nonlinear_arith);
        lemma_first_other(hosts, failed, at + step, step, (tries - 1) as nat, good, k - 1);
    } else {
        assert(hosts.contains(hosts[i]));
    }
}

/// Where another host than the failed one can be chosen, one is chosen, from the list.
pub proof fn failed_host_is_skipped(
    hosts: Seq<Seq<char>>,
    failed: Option<Seq<char>>,
    place: u32,
    turn: u32,
)
    requires
        choosable(hosts, failed),
    ensures
        ({
            let c = chosen_host(hosts, failed, place, turn);
            &&& c is Some
            &&& hosts.len() > 0 ==> hosts.contains(c->0)
            &&& hosts.len() > 1 ==> failed != c
        }),
{
    if hosts.len() == 1 {
        assert(hosts.contains(hosts[0]));
    } else if hosts.len() > 1 {
        let n = hosts.len() as int;
        let good = choose|i: int| 0 <= i < hosts.len() && failed != Some(#[trigger] hosts[i]);
        let at = place as int % n;
        if turn % 2 == 0 {
            let k = if at >= good {
                at - good
            } else {
                at - good + n
            };
            assert(at + k * (-1) == good || at + k * (-1) == good - n);
            assert((good - n) % n == good % n) by {
                vstd::arithmetic::div_mod::lemma_mod_sub_multiples_vanish(good, n);
            }
            vstd::arithmetic::div_mod::lemma_small_mod(good as nat, n as nat);
            lemma_first_other(hosts, failed, at, -1, hosts.len(), good, k);
        } else {
            let k = if good >= at {
                good - at
            } else {
                good - at + n
            };
            assert(at + k * 1 == good || at + k * 1 == good + n);
            assert((good + n) % n == good % n) by {
                vstd::arithmetic::div_mod::lemma_mod_add_multiples_vanish(good, n);
            }
            vstd::arithmetic::div_mod::lemma_small_mod(good as nat, n as nat);
            lemma_first_other(hosts, failed, at, 1, hosts.len(), good, k);
        }
    }
}

/// The host that two random numbers choose.
pub fn choose_host_for(config: &Config, last_failed: Option<&str>, place: u32, turn: u32) -> (r:
    String)
    requires
        choosable(
            crate::rpc::hosts_of(config@.rpc_servers),
            match last_failed {
                Some(f) => Some(f@),
                None => None,
            },
        ),
    ensures
        chosen_host(
            crate::rpc::hosts_of(config@.rpc_servers),
            match last_failed {
                Some(f) => Some(f@),
                None => None,
            },
            place,
            turn,
        ) == Some(r@),
{
    let ghost hosts = crate::rpc::hosts_of(config@.rpc_servers);
    let ghost failed = match last_failed {
        Some(f) => Some(f@),
        None => None,
    };
    proof {
        failed_host_is_skipped(hosts, failed, place, turn);
    }
    let len: usize = config.rpc_servers.len();
    if len == 0 {
        return String::from_str("rpc.hentaiathome.net");
    }
    if len == 1 {
        return config.rpc_servers[0].to_text();
    }
    let start: usize = place as usize % len;
    let back = turn % 2 == 0;
    let ghost step: int = if back {
        -1
    } else {
        1
    };
    let ghost goal = first_other(hosts, failed, start as int, step, len as nat);
    let mut i: usize = start;
    let mut tried: usize = 0;
    let ghost mut at: int = start as int;
    proof {
        vstd::arithmetic::div_mod::lemma_small_mod(start as nat, len as nat);
    }
    while tried < len
        invariant
            len == config.rpc_servers@.len(),
            len > 1,
            hosts == crate::rpc::hosts_of(config@.rpc_servers),
            hosts.len() == len,
            failed == (match last_failed {
                Some(f) => Some(f@),
                None => None,
            }),
            tried <= len,
            i < len,
            i == at % len as int,
            step == (if back {
                -1int
            } else {
                1int
            }),
            goal is Some,
            goal == first_other(hosts, failed, at, step, (len - tried) as nat),
            chosen_host(hosts, failed, place, turn) == goal,
        decreases len - tried,
    {
        let candidate = config.rpc_servers[i].to_text();
        assert(candidate@ == hosts[i as int]);
        let is_failed = match last_failed {
            Some(f) => crate::text::str_eq(candidate.as_str(), f),
            None => false,
        };
        if !is_failed {
            return candidate;
        }
        let next: usize = if back {
            if i == 0 {
                len - 1
            } else {
                i - 1
            }
        } else {
            if i == len - 1 {
                0
            } else {
                i + 1
            }
        };
        proof {
            let n = len as int;
            let q = at / n;
            vstd::arithmetic::div_mod::lemma_fundamental_div_mod(at, n);
            if back {
                if i == 0 {
                    assert(at - 1 == n * (q - 1) + (n - 1)) by (nonlinear_arith)
                        requires
                            at == n * q + 0,
                    ;
                    vstd::arithmetic::div_mod::lemma_fundamental_div_mod_converse_mod(
                        at - 1,
                        n,
                        q - 1,
                        n - 1,
                    );
                } else {
                    vstd::arithmetic::div_mod::lemma_fundamental_div_mod_converse_mod(
                        at - 1,
                        n,
                        q,
                        i - 1,
                    );
                }
            } else {
                if i == len - 1 {
                    assert(at + 1 == n * (q + 1) + 0) by (nonlinear_arith)
                        requires
                            at == n * q + (n - 1),
                    ;
                    vstd::arithmetic::div_mod::lemma_fundamental_div_mod_converse_mod(
                        at + 1,
                        n,
                        q + 1,
                        0,
                    );
                } else {
                    vstd::arithmetic::div_mod::lemma_fundamental_div_mod_converse_mod(
                        at + 1,
                        n,
                        q,
                        i + 1,
                    );
                }
            }
            at = at + step;
        }
        i = next;
        tried += 1;
    }
    assert(false);
    String::new()
}

impl RpcRouter {
    pub open spec fn current(&self) -> Option<Seq<char>> {
        crate::text::opt_text(self.state.rpc_current)
    }

    pub open spec fn last_failed(&self) -> Option<Seq<char>> {
        crate::text::opt_text(self.state.rpc_last_failed)
    }

    /// The current host, where the servers still hold it.
    pub open spec fn kept(&self, hosts: Seq<Seq<char>>) -> Option<Seq<char>> {
        match self.current() {
            Some(h) => if hosts.contains(h) {
                Some(h)
            } else {
                None
            },
            None => None,
        }
    }

    /// The host of the next call. One is chosen at random unless the current one can stay.
    pub fn select_host(&mut self, config: &Config) -> (r: String)
        requires
            choosable(crate::rpc::hosts_of(config@.rpc_servers), old(self).last_failed()),
        ensures
            final(self).last_failed() == old(self).last_failed(),
            final(self).current() == old(self).kept(crate::rpc::hosts_of(config@.rpc_servers)),
            exists|place: u32, turn: u32| #[trigger]
                old(self).selected(crate::rpc::hosts_of(config@.rpc_servers), place, turn) == Some(r@),
    {
        let place: u32 = crate::rpc::random_u32();
        let turn: u32 = crate::rpc::random_u32();
        self.select_host_for(config, place, turn)
    }

    /// The host of the next call, where two random numbers choose.
    pub open spec fn selected(&self, hosts: Seq<Seq<char>>, place: u32, turn: u32) -> Option<Seq<char>> {
        match self.kept(hosts) {
            Some(h) => if self.last_failed() == Some(h) {
                chosen_host(hosts, self.last_failed(), place, turn)
            } else {
                Some(h)
            },
            None => chosen_host(hosts, self.last_failed(), place, turn),
        }
    }

    /// The host of the next call, where two random numbers choose.
    pub fn select_host_for(&mut self, config: &Config, place: u32, turn: u32) -> (r: String)
        requires
            choosable(crate::rpc::hosts_of(config@.rpc_servers), old(self).last_failed()),
        ensures
            final(self).last_failed() == old(self).last_failed(),
            final(self).current() == old(self).kept(crate::rpc::hosts_of(config@.rpc_servers)),
            old(self).selected(crate::rpc::hosts_of(config@.rpc_servers), place, turn) == Some(r@),
    {
        let configured = match &self.state.rpc_current {
            Some(host) => host_is_configured(config, host.as_str()),
            None => false,
        };
        if !configured {
            self.state.rpc_current = None;
        }
        match &self.state.rpc_current {
            Some(host) => {
                let is_failed = match &self.state.rpc_last_failed {
                    Some(failed) => crate::text::str_eq(host.as_str(), failed.as_str()),
                    None => false,
                };
                if !is_failed {
                    return host.clone();
                }
            },
            None => {},
        }
        match &self.state.rpc_last_failed {
            Some(failed) => choose_host_for(config, Some(failed.as_str()), place, turn),
            None => choose_host_for(config, None, place, turn),
        }
    }

    /// Whether a host can be chosen: where every server is the one that failed last, none can.
    pub fn can_select(&self, config: &Config) -> (r: bool)
        ensures
            r == choosable(crate::rpc::hosts_of(config@.rpc_servers), self.last_failed()),
    {
        let ghost hosts = crate::rpc::hosts_of(config@.rpc_servers);
        let len: usize = config.rpc_servers.len();
        if len <= 1 {
            return true;
        }
        let failed = match &self.state.rpc_last_failed {
            Some(f) => f,
            None => {
                assert(self.last_failed() != Some(hosts[0]));
                return true;
            },
        };
        let mut i: usize = 0;
        while i < len
            invariant
                i <= len,
                len == config.rpc_servers@.len(),
                hosts == crate::rpc::hosts_of(config@.rpc_servers),
                hosts.len() == len,
                self.last_failed() == Some(failed@),
                forall|j: int| 0 <= j < i ==> (#[trigger] hosts[j]) == failed@,
            decreases len - i,
        {
            let host = config.rpc_servers[i].to_text();
            assert(host@ == hosts[i as int]);
            if !crate::text::str_eq(host.as_str(), failed.as_str()) {
                return true;
            }
            i += 1;
        }
        false
    }

    pub fn mark_failed(&mut self, host: String)
        ensures
            final(self).last_failed() == Some(host@),
            final(self).current() == old(self).current(),
    {
        self.state.rpc_last_failed = Some(host);
    }

    pub fn mark_success(&mut self, host: String)
        ensures
            final(self).current() == Some(host@),
            final(self).last_failed() == old(self).last_failed(),
    {
        self.state.rpc_current = Some(host);
    }

    pub fn clear(&mut self)
        ensures
            final(self).current() is None,
            final(self).last_failed() is None,
    {
        self.state.rpc_last_failed = None;
        self.state.rpc_current = None;
    }
}

/// Whether a server of that name is in the list.
pub fn host_is_configured(config: &Config, host: &str) -> (r: bool)
    ensures
        r == crate::rpc::hosts_of(config@.rpc_servers).contains(host@),
{
    let ghost hosts = crate::rpc::hosts_of(config@.rpc_servers);
    let mut i: usize = 0;
    while i < config.rpc_servers.len()
        invariant
            i <= config.rpc_servers.len(),
            hosts == crate::rpc::hosts_of(config@.rpc_servers),
            forall|j: int| 0 <= j < i ==> (#[trigger] hosts[j]) != host@,
        decreases config.rpc_servers.len() - i,
    {
        let text = config.rpc_servers[i].to_text();
        assert(text@ == hosts[i as int]);
        if crate::text::str_eq(text.as_str(), host) {
            assert(hosts[i as int] == host@);
            return true;
        }
        i += 1;
    }
    false
}

impl Config {
    /// Pick an RPC host: the cached one if there is one and it is not the last failed,
    /// otherwise a random server.
    pub fn get_rpc_host(&self, state: &RpcState) -> (r: String)
        requires
            state.rpc_current is None || crate::text::opt_text(state.rpc_current)
                == crate::text::opt_text(state.rpc_last_failed) ==> choosable(
                crate::rpc::hosts_of(self@.rpc_servers),
                crate::text::opt_text(state.rpc_last_failed),
            ),
        ensures
            exists|place: u32, turn: u32|
                Some(r@) == (if state.rpc_current is Some && crate::text::opt_text(state.rpc_current)
                    != crate::text::opt_text(state.rpc_last_failed) {
                    crate::text::opt_text(state.rpc_current)
                } else {
                    #[trigger] chosen_host(
                        crate::rpc::hosts_of(self@.rpc_servers),
                        crate::text::opt_text(state.rpc_last_failed),
                        place,
                        turn,
                    )
                }),
    {
        let place: u32 = crate::rpc::random_u32();
        let turn: u32 = crate::rpc::random_u32();
        match &state.rpc_current {
            Some(host) => {
                let is_failed = match &state.rpc_last_failed {
                    Some(failed) => crate::text::str_eq(host.as_str(), failed.as_str()),
                    None => false,
                };
                if !is_failed {
                    return host.clone();
                }
            },
            None => {},
        }
        match &state.rpc_last_failed {
            Some(failed) => choose_host_for(self, Some(failed.as_str()), place, turn),
            None => choose_host_for(self, None, place, turn),
        }
    }
}

// ---------------------------------------------------------------------------
// Sending
// ---------------------------------------------------------------------------

#[derive(Debug, Clone, Copy, PartialEq, Eq, Structural)]
pub enum RpcStatusAction {
    ReadBody,
    Retry,
    Abort,
}

/// What an HTTP status means for a request: not found ends it, other errors are tried
/// again, anything else is read.
pub open spec fn status_action(status: u16) -> RpcStatusAction {
    if status == 404 {
        RpcStatusAction::Abort
    } else if 400 <= status < 600 {
        RpcStatusAction::Retry
    } else {
        RpcStatusAction::ReadBody
    }
}

pub fn rpc_status_action(status: u16) -> (r: RpcStatusAction)
    ensures
        r == status_action(status),
{
    if status == 404 {
        RpcStatusAction::Abort
    } else if status >= 400 && status < 600 {
        RpcStatusAction::Retry
    } else {
        RpcStatusAction::ReadBody
    }
}

/// Why a request failed.
#[derive(Debug)]
pub struct RpcRequestError {
    pub message: String,
}

impl RpcRequestError {
    pub fn new(message: &str) -> (r: Self)
        ensures
            r.message@ == message@,
    {
        RpcRequestError { message: String::from_str(message) }
    }

    /// A request failed for the status of its answer.
    pub fn from_status(status: u16) -> (r: Self)
        ensures
            r.message@ == "server returned "@ + crate::server::response::status_text(
                status,
                crate::server::response::reason_of(status),
            ),
    {
        let text = crate::server::response::describe_status(status);
        RpcRequestError { message: crate::text::concat("server returned ", text.as_str()) }
    }
}

/// What came of sending a request once.
#[derive(Debug, Clone, Copy, PartialEq, Eq, Structural)]
pub enum Attempt {
    /// The body was read.
    Body,
    /// The answer had this status, which is no body to read.
    Status(u16),
    /// The request or the reading of its body failed.
    Broken,
}

/// What is done then.
#[derive(Debug, Clone, Copy, PartialEq, Eq, Structural)]
pub enum SendStep {
    Done,
    SendAgain,
    GiveUp,
}

/// What is done after the attempt with that number, the first being zero.
pub open spec fn step_after(attempt: u32, outcome: Attempt) -> SendStep {
    match outcome {
        Attempt::Body => SendStep::Done,
        Attempt::Status(404) => SendStep::GiveUp,
        _ => if attempt + 1 < REQUEST_ATTEMPTS {
            SendStep::SendAgain
        } else {
            SendStep::GiveUp
        },
    }
}

pub fn next_send_step(attempt: u32, outcome: Attempt) -> (r: SendStep)
    ensures
        r == step_after(attempt, outcome),
{
    match outcome {
        Attempt::Body => SendStep::Done,
        Attempt::Status(404) => SendStep::GiveUp,
        _ => if attempt < REQUEST_ATTEMPTS - 1 {
            SendStep::SendAgain
        } else {
            SendStep::GiveUp
        },
    }
}

// ---------------------------------------------------------------------------
// Calls
// ---------------------------------------------------------------------------

/// What is done with the answer to a call.
#[derive(Debug, Clone, Copy, PartialEq, Eq, Structural)]
pub enum CallStep {
    /// Ask the server for its time, then make the call again.
    RefreshAndRetry,
    /// The answer is the result.
    Finish,
}

/// Whether an answer leads to another try: the key has expired, the call is one of those
/// that are made again, and it was not made again too often.
pub open spec fn is_retried(act: Action, retries: u32, r: crate::rpc::ResponseView) -> bool {
    r.fail_code == Some("KEY_EXPIRED"@) && retries < KEY_EXPIRED_RETRY_LIMIT
        && crate::rpc::retries_expired_key(act)
}

/// The host that an answer without a result is blamed on.
pub open spec fn blamed_host(r: crate::rpc::ResponseView, otherwise: Seq<char>) -> Seq<char> {
    match r.fail_host {
        Some(h) => h,
        None => otherwise,
    }
}

fn host_to_blame(r: &ServerResponse, otherwise: &str) -> (h: String)
    ensures
        h@ == blamed_host(r@, otherwise@),
{
    match &r.fail_host {
        Some(host) => host.clone(),
        None => String::from_str(otherwise),
    }
}

impl RpcRouter {
    /// Takes the answer to a call from `host`. Where it is the result, the host is marked
    /// as failed for an empty answer and as current for any other.
    pub fn after_response(
        &mut self,
        act: Action,
        retries: u32,
        response: &ServerResponse,
        host: &str,
    ) -> (r: CallStep)
        ensures
            r == CallStep::RefreshAndRetry <==> is_retried(act, retries, response@),
            r == CallStep::RefreshAndRetry ==> *final(self) == *old(self),
            r == CallStep::Finish && response.status == ResponseStatus::Null ==> final(self).last_failed() == Some(blamed_host(response@, host@)) && final(self).current() == old(self).current(),
            r == CallStep::Finish && response.status != ResponseStatus::Null ==> final(self).current() == Some(host@) && final(self).last_failed() == old(self).last_failed(),
    {
        let expired = match &response.fail_code {
            Some(code) => crate::text::str_eq(code.as_str(), "KEY_EXPIRED"),
            None => false,
        };
        if expired && retries < KEY_EXPIRED_RETRY_LIMIT && act.supports_key_expired_retry() {
            return CallStep::RefreshAndRetry;
        }
        match response.status {
            ResponseStatus::Null => self.mark_failed(host_to_blame(response, host)),
            _ => self.mark_success(String::from_str(host)),
        }
        CallStep::Finish
    }

    /// Takes the answer to the question for the server's time, which is none where the
    /// request failed. Returns whether its settings are applied.
    pub fn after_stat(&mut self, response: Option<&ServerResponse>) -> (r: bool)
        ensures
            r == (response is Some && response->0.status == ResponseStatus::Okay),
            final(self).current() == old(self).current(),
            final(self).last_failed() == (if response is Some && response->0.status
                == ResponseStatus::Null {
                Some(blamed_host(response->0@, "unknown"@))
            } else {
                old(self).last_failed()
            }),
    {
        match response {
            Some(r) => match r.status {
                ResponseStatus::Okay => true,
                ResponseStatus::Null => {
                    self.mark_failed(host_to_blame(r, "unknown"));
                    false
                },
                ResponseStatus::Fail => false,
            },
            None => false,
        }
    }

    /// Takes the failure of a request to `host`: the host is marked, and the call fails.
    pub fn after_failure(&mut self, host: &str, what: &str, reason: &str) -> (r: HathError)
        ensures
            final(self).last_failed() == Some(host@),
            final(self).current() == old(self).current(),
            r@ == ErrorView::Rpc(what@ + " failed: "@ + reason@),
    {
        self.mark_failed(String::from_str(host));
        let mut message = String::from_str(what);
        message.append(" failed: ");
        message.append(reason);
        HathError::Rpc(message)
    }
}

/// A call is made again at most once: after that many tries the answer is the result.
pub proof fn expired_key_is_retried_once(act: Action, retries: u32, r: crate::rpc::ResponseView)
    requires
        retries >= 1,
    ensures
        !is_retried(act, retries, r),
{
}

/// The host that a URL names, or a word for none.
pub fn url_host_or_unknown(url: &str) -> (r: String)
    ensures
        r@ == (match crate::url::url_host(url@) {
            Some(h) => h,
            None => "unknown"@,
        }),
{
    host_or_unknown(crate::url::host_str(url))
}

/// A host, or a word for none.
pub fn host_or_unknown(host: Option<String>) -> (r: String)
    ensures
        r@ == (match host {
            Some(h) => h@,
            None => "unknown"@,
        }),
{
    match host {
        Some(h) => h,
        None => String::from_str("unknown"),
    }
}

// ---------------------------------------------------------------------------
// What the calls carry
// ---------------------------------------------------------------------------

#[derive(Debug, Clone, PartialEq, Eq)]
pub struct GalleryAck {
    pub gid: u32,
    pub minxres: String,
}

#[derive(Debug, Clone, PartialEq, Eq)]
pub struct GalleryFileRequest {
    pub gid: u32,
    pub page: u32,
    pub fileindex: u32,
    pub xres: String,
    pub attempt: u32,
}

/// The word that goes with a heartbeat.
pub fn still_alive_add(resume: bool) -> (r: &'static str)
    ensures
        r@ == (if resume {
            "resume"@
        } else {
            ""@
        }),
{
    if resume {
        "resume"
    } else {
        ""
    }
}

/// What goes with the request for the sources of a static range file.
pub fn static_range_fetch_add(fileindex: &str, xres: &str, fileid: &str) -> (r: String)
    ensures
        r@ == fileindex@ + ";"@ + xres@ + ";"@ + fileid@,
{
    let mut out = String::from_str(fileindex);
    out.append(";");
    out.append(xres);
    out.append(";");
    out.append(fileid);
    out
}

/// What goes with the request for the next gallery: the one before it, where there is one.
pub fn gallery_queue_add(ack: Option<&GalleryAck>) -> (r: String)
    ensures
        r@ == (match ack {
            Some(a) => crate::number::decimal(a.gid as nat) + ";"@ + a.minxres@,
            None => seq![],
        }),
{
    match ack {
        Some(a) => {
            let mut out = crate::number::decimal_string(a.gid as u64);
            out.append(";");
            out.append(a.minxres.as_str());
            out
        },
        None => String::new(),
    }
}

/// What goes with the request for the source of a gallery file.
pub fn gallery_file_add(request: &GalleryFileRequest) -> (r: String)
    ensures
        r@ == crate::number::decimal(request.gid as nat) + ";"@ + crate::number::decimal(
            request.page as nat,
        ) + ";"@ + crate::number::decimal(request.fileindex as nat) + ";"@ + request.xres@ + ";"@
            + crate::number::decimal(request.attempt as nat),
{
    let mut out = crate::number::decimal_string(request.gid as u64);
    out.append(";");
    crate::number::push_decimal(&mut out, request.page as u64);
    out.append(";");
    crate::number::push_decimal(&mut out, request.fileindex as u64);
    out.append(";");
    out.append(request.xres.as_str());
    out.append(";");
    crate::number::push_decimal(&mut out, request.attempt as u64);
    out
}

#[derive(Debug, Clone, PartialEq, Eq)]
pub enum GalleryQueueReply {
    NoPendingDownloads,
    InvalidRequest,
    Metadata(String),
}

/// What the answer of the gallery queue says, whatever line ends stand behind it.
pub fn classify_queue_reply(body: String) -> (r: GalleryQueueReply)
    ensures
        ({
            let word = crate::text::trim_end_of(body@, '\r', '\n');
            match r {
                GalleryQueueReply::NoPendingDownloads => word == "NO_PENDING_DOWNLOADS"@,
                GalleryQueueReply::InvalidRequest => word == "INVALID_REQUEST"@ && word
                    != "NO_PENDING_DOWNLOADS"@,
                GalleryQueueReply::Metadata(m) => m@ == body@ && word != "NO_PENDING_DOWNLOADS"@ && word
                    != "INVALID_REQUEST"@,
            }
        }),
{
    let word = crate::text::trimmed_end_of(body.as_str(), '\r', '\n');
    if crate::text::str_eq(word.as_str(), "NO_PENDING_DOWNLOADS") {
        GalleryQueueReply::NoPendingDownloads
    } else if crate::text::str_eq(word.as_str(), "INVALID_REQUEST") {
        GalleryQueueReply::InvalidRequest
    } else {
        GalleryQueueReply::Metadata(body)
    }
}

/// The first line that is not empty.
pub open spec fn first_line(lines: Seq<Seq<char>>) -> Option<Seq<char>>
    decreases lines.len(),
{
    if lines.len() == 0 {
        None
    } else if lines[0].len() > 0 {
        Some(lines[0])
    } else {
        first_line(lines.skip(1))
    }
}

/// The code of an answer, or nothing.
pub open spec fn code_or_empty(r: crate::rpc::ResponseView) -> Seq<char> {
    match r.fail_code {
        Some(c) => c,
        None => seq![],
    }
}

fn response_code(r: &ServerResponse) -> (c: String)
    ensures
        c@ == code_or_empty(r@),
{
    match &r.fail_code {
        Some(c) => c.clone(),
        None => String::new(),
    }
}

/// The source that an answer names for a gallery file, before it is read as a URL.
pub open spec fn named_source(r: crate::rpc::ResponseView) -> Result<Seq<char>, ErrorView> {
    if r.status != ResponseStatus::Okay {
        Err(ErrorView::Rpc("dlfetch failed: "@ + code_or_empty(r)))
    } else {
        match first_line(r.lines) {
            Some(line) => Ok(line),
            None => Err(ErrorView::Rpc("dlfetch returned no URL"@)),
        }
    }
}

/// The source that an answer names for a gallery file, before it is read as a URL.
pub fn find_named_source(response: &ServerResponse) -> (r: Result<String, HathError>)
    ensures
        match r {
            Ok(s) => named_source(response@) == Ok::<Seq<char>, ErrorView>(s@),
            Err(e) => named_source(response@) == Err::<Seq<char>, ErrorView>(e@),
        },
{
    match response.status {
        ResponseStatus::Okay => {},
        _ => {
            let code = response_code(response);
            return Err(HathError::Rpc(crate::text::concat("dlfetch failed: ", code.as_str())));
        },
    }
    let ghost all = crate::text::texts(response.lines@);
    let mut i: usize = 0;
    assert(all.skip(0) =~= all);
    while i < response.lines.len()
        invariant
            i <= response.lines.len(),
            response.status == ResponseStatus::Okay,
            all == crate::text::texts(response.lines@),
            first_line(all.skip(i as int)) == first_line(all),
        decreases response.lines.len() - i,
    {
        let line = response.lines[i].as_str();
        assert(all.skip(i as int)[0] == line@);
        if !line.is_empty() {
            return Ok(String::from_str(line));
        }
        assert(all.skip(i as int).skip(1) =~= all.skip(i + 1));
        i += 1;
    }
    Err(HathError::Rpc(String::from_str("dlfetch returned no URL")))
}

/// The one-time source URL that an answer gives for a gallery file.
pub fn gallery_file_url(response: &ServerResponse) -> (r: Result<String, HathError>)
    ensures
        match named_source(response@) {
            Err(e) => r matches Err(f) && f@ == e,
            Ok(line) => match crate::url::url_parsed(line) {
                Ok(u) => r matches Ok(s) && s@ == u,
                Err(m) => r matches Err(f) && f@ == ErrorView::Rpc("invalid dlfetch URL: "@ + m),
            },
        },
{
    match find_named_source(response) {
        Ok(line) => source_url(crate::url::parse(line.as_str())),
        Err(e) => Err(e),
    }
}

/// The source URL of a gallery file, from what its line was read as.
pub fn source_url(parsed: Result<String, String>) -> (r: Result<String, HathError>)
    ensures
        match parsed {
            Ok(u) => r matches Ok(s) && s@ == u@,
            Err(m) => r matches Err(f) && f@ == ErrorView::Rpc("invalid dlfetch URL: "@ + m@),
        },
{
    match parsed {
        Ok(u) => Ok(u),
        Err(m) => Err(HathError::Rpc(crate::text::concat("invalid dlfetch URL: ", m.as_str()))),
    }
}

/// What goes with a report of failed sources; nothing is reported where there are none.
pub fn failure_report_add(failures: &Vec<String>) -> (r: Option<String>)
    ensures
        match r {
            Some(s) => failures@.len() > 0 && s@ == crate::text::join(
                crate::text::texts(failures@),
                ";"@,
            ),
            None => failures@.len() == 0,
        },
{
    if failures.len() == 0 {
        None
    } else {
        Some(crate::text::joined(failures, ";"))
    }
}

/// Whether a report of failed sources was taken.
pub fn failure_report_result(response: &ServerResponse) -> (r: Result<(), HathError>)
    ensures
        match r {
            Ok(()) => response.status == ResponseStatus::Okay,
            Err(e) => response.status != ResponseStatus::Okay && e@ == ErrorView::Rpc(
                "dlfails failed: "@ + code_or_empty(response@),
            ),
        },
{
    match response.status {
        ResponseStatus::Okay => Ok(()),
        _ => {
            let code = response_code(response);
            Err(HathError::Rpc(crate::text::concat("dlfails failed: ", code.as_str())))
        },
    }
}

/// What is done after a heartbeat.
#[derive(Debug, Clone, Copy, PartialEq, Eq, Structural)]
pub enum HeartbeatStep {
    RecordContact,
    /// The network is misconfigured: the client stops.
    ShutDown,
    TryLater,
}

/// What is done after a heartbeat was answered.
pub fn after_still_alive(response: &ServerResponse) -> (r: HeartbeatStep)
    ensures
        r == (if response.status == ResponseStatus::Okay {
            HeartbeatStep::RecordContact
        } else if "TERM_BAD_NETWORK"@.is_prefix_of(code_or_empty(response@)) {
            HeartbeatStep::ShutDown
        } else {
            HeartbeatStep::TryLater
        }),
{
    match response.status {
        ResponseStatus::Okay => HeartbeatStep::RecordContact,
        _ => {
            let code = response_code(response);
            if crate::text::has_prefix(code.as_str(), "TERM_BAD_NETWORK") {
                HeartbeatStep::ShutDown
            } else {
                HeartbeatStep::TryLater
            }
        },
    }
}

} // verus!
