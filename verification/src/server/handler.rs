//! What each request is answered, and what has to be asked first.

use vstd::prelude::*;
use crate::bandwidth::BandwidthMonitor;
use crate::config::Config;
use crate::error::{ErrorView, HathError};
use crate::hvfile::HVFile;
use crate::rpc::{ResponseStatus, ServerResponse};
use crate::server::request::RequestType;
use crate::server::response::{BodyView, ResponseSpec, SpecView};
use crate::server::session::SessionKind;

verus! {

/// What is known of the client that sent a request.
#[derive(Debug)]
pub struct RequestClientContext<B> {
    pub is_local: bool,
    pub bwm: Option<B>,
}

impl<B> RequestClientContext<B> {
    pub fn new(is_local: bool, bwm: Option<B>) -> (r: Self)
        ensures
            r.is_local == is_local,
            r.bwm == bwm,
    {
        RequestClientContext { is_local, bwm }
    }

    /// Whether what is sent to the client counts as traffic.
    pub fn records_traffic(&self) -> (r: bool)
        ensures
            r == !self.is_local,
    {
        !self.is_local
    }
}

/// What a request makes of its session.
pub fn session_kind(request: &RequestType) -> (r: SessionKind)
    ensures
        r == (match *request {
            RequestType::ServerCommand { valid: true, .. } => SessionKind::Servercmd,
            _ => SessionKind::Normal,
        }),
{
    match request {
        RequestType::ServerCommand { valid, .. } => if *valid {
            SessionKind::Servercmd
        } else {
            SessionKind::Normal
        },
        _ => SessionKind::Normal,
    }
}

// ---------------------------------------------------------------------------
// Requests
// ---------------------------------------------------------------------------

/// What a request leads to.
#[derive(Debug)]
pub enum RequestStep {
    Answer(ResponseSpec),
    /// Look for the file in the cache, then ask the servers for it.
    LookUpFile,
    /// Run the server command.
    RunCommand,
}

/// Whether a text is there and writes a number.
pub open spec fn is_given_number(s: Option<Seq<char>>) -> bool {
    match s {
        Some(v) => crate::number::parse_unsigned(v, u32::MAX as nat) is Some,
        None => false,
    }
}

/// Whether a text is there and names a resolution.
pub open spec fn is_given_xres(s: Option<Seq<char>>) -> bool {
    s == Some("org"@) || is_given_number(s)
}

/// What a speed test is answered.
pub open spec fn speedtest_result(testsize: u32, valid: bool, forbidden: bool, head: bool) -> SpecView {
    if valid {
        if head {
            crate::server::response::head_answer(
                crate::server::response::default_content_type(),
                testsize as int,
            )
        } else {
            crate::server::response::speedtest_answer(testsize as usize)
        }
    } else if forbidden {
        crate::server::response::forbidden_answer()
    } else {
        crate::server::response::bad_request_answer()
    }
}

/// What a request is answered at once, where nothing has to be asked first. The arguments of
/// a file request are checked before the cache is: even a cached file with missing or invalid
/// arguments is not found.
pub open spec fn immediate_answer(r: RequestType) -> Option<SpecView> {
    match r {
        RequestType::FileServe { hv_file, additional, keystamp_valid, .. } => if !keystamp_valid {
            Some(crate::server::response::forbidden_answer())
        } else if hv_file is None || !is_given_number(crate::text::opt_text(additional.fileindex))
            || !is_given_xres(crate::text::opt_text(additional.xres)) {
            Some(crate::server::response::not_found_answer())
        } else {
            None
        },
        RequestType::ServerCommand { valid, .. } => if valid {
            None
        } else {
            Some(crate::server::response::forbidden_answer())
        },
        RequestType::SpeedTest { testsize, valid, forbidden, head_only } => Some(
            speedtest_result(testsize, valid, forbidden, head_only),
        ),
        RequestType::Favicon => Some(
            crate::server::response::redirect_answer("https://e-hentai.org/favicon.ico"@),
        ),
        RequestType::Robots => Some(crate::server::response::robots_answer()),
        RequestType::BadRequest => Some(crate::server::response::bad_request_answer()),
        RequestType::MethodNotAllowed => Some(crate::server::response::method_not_allowed_answer()),
        RequestType::NotFound => Some(crate::server::response::not_found_answer()),
    }
}

fn is_number_given(s: &Option<String>) -> (r: bool)
    ensures
        r == is_given_number(crate::text::opt_text(*s)),
{
    match s {
        Some(v) => crate::number::read_u32(v.as_str()).is_some(),
        None => false,
    }
}

fn is_xres_given(s: &Option<String>) -> (r: bool)
    ensures
        r == is_given_xres(crate::text::opt_text(*s)),
{
    match s {
        Some(v) => crate::text::str_eq(v.as_str(), "org") || crate::number::read_u32(v.as_str()).is_some(),
        None => false,
    }
}

/// What a speed test is answered.
pub fn handle_speedtest(testsize: u32, valid: bool, forbidden: bool, head_only: bool) -> (r: ResponseSpec)
    ensures
        r@ == speedtest_result(testsize, valid, forbidden, head_only),
{
    if valid {
        if head_only {
            crate::server::response::head_response("text/html; charset=iso-8859-1", testsize as usize)
        } else {
            crate::server::response::speedtest_response(testsize as usize)
        }
    } else if forbidden {
        crate::server::response::forbidden_response()
    } else {
        crate::server::response::bad_request_response()
    }
}

fn favicon_response() -> (r: ResponseSpec)
    ensures
        r@ == crate::server::response::redirect_answer("https://e-hentai.org/favicon.ico"@),
{
    proof {
        reveal_strlit("https://e-hentai.org/favicon.ico");
    }
    match crate::server::response::redirect_response("https://e-hentai.org/favicon.ico") {
        Ok(r) => r,
        Err(_) => {
            assert(false);
            crate::server::response::not_found_response()
        },
    }
}

/// What a request leads to: an answer, a look at the cache, or a command.
pub fn handle_request(request: &RequestType) -> (r: RequestStep)
    ensures
        match immediate_answer(*request) {
            Some(a) => r matches RequestStep::Answer(s) && s@ == a,
            None => match *request {
                RequestType::ServerCommand { .. } => r is RunCommand,
                _ => r is LookUpFile,
            },
        },
        forall|index: u32, xres: u32|
            (match *request {
                RequestType::FileServe { hv_file: Some(_), additional, keystamp_valid: true, .. } => {
                    &&& crate::text::opt_text(additional.fileindex) == Some(
                        #[trigger] crate::number::decimal(index as nat),
                    )
                    &&& crate::text::opt_text(additional.xres) == Some(seq!['o', 'r', 'g'])
                        || crate::text::opt_text(additional.xres) == Some(
                        #[trigger] crate::number::decimal(xres as nat),
                    )
                },
                _ => false,
            }) ==> r is LookUpFile,
{
    proof {
        assert forall|index: u32, xres: u32|
            (match *request {
                RequestType::FileServe { hv_file: Some(_), additional, keystamp_valid: true, .. } => {
                    &&& crate::text::opt_text(additional.fileindex) == Some(
                        #[trigger] crate::number::decimal(index as nat),
                    )
                    &&& crate::text::opt_text(additional.xres) == Some(seq!['o', 'r', 'g'])
                        || crate::text::opt_text(additional.xres) == Some(
                        #[trigger] crate::number::decimal(xres as nat),
                    )
                },
                _ => false,
            }) implies immediate_answer(*request) is None by {
            good_file_request_is_looked_up(*request, index, xres);
        }
    }
    match request {
        RequestType::FileServe { hv_file, additional, keystamp_valid, .. } => {
            if !*keystamp_valid {
                return RequestStep::Answer(crate::server::response::forbidden_response());
            }
            if hv_file.is_none() || !is_number_given(&additional.fileindex) || !is_xres_given(
                &additional.xres,
            ) {
                return RequestStep::Answer(crate::server::response::not_found_response());
            }
            RequestStep::LookUpFile
        },
        RequestType::ServerCommand { valid, .. } => {
            if *valid {
                RequestStep::RunCommand
            } else {
                RequestStep::Answer(crate::server::response::forbidden_response())
            }
        },
        RequestType::SpeedTest { testsize, valid, forbidden, head_only } => RequestStep::Answer(
            handle_speedtest(*testsize, *valid, *forbidden, *head_only),
        ),
        RequestType::Favicon => RequestStep::Answer(favicon_response()),
        RequestType::Robots => RequestStep::Answer(crate::server::response::robots_response()),
        RequestType::BadRequest => RequestStep::Answer(crate::server::response::bad_request_response()),
        RequestType::MethodNotAllowed => RequestStep::Answer(
            crate::server::response::method_not_allowed_response(),
        ),
        RequestType::NotFound => RequestStep::Answer(crate::server::response::not_found_response()),
    }
}

/// A file request without a good key is refused, whatever is in the cache.
pub proof fn bad_keystamp_is_forbidden(r: RequestType)
    requires
        r is FileServe,
        !r->keystamp_valid,
    ensures
        immediate_answer(r) == Some(crate::server::response::forbidden_answer()),
{
}

/// A file request with a good key, for an ID that describes a file, with a number of 32 bits in
/// decimal as the index, and with `org` or such a number as the resolution, is looked up.
pub proof fn good_file_request_is_looked_up(r: RequestType, index: u32, xres: u32)
    requires
        r matches RequestType::FileServe { hv_file: Some(_), additional, keystamp_valid: true, .. } && {
            &&& additional.fileindex matches Some(i) && i@ == crate::number::decimal(index as nat)
            &&& additional.xres matches Some(x) && (x@ == seq!['o', 'r', 'g'] || x@
                == crate::number::decimal(xres as nat))
        },
    ensures
        immediate_answer(r) is None,
{
    crate::number::written_numbers_are_read(index as nat, u32::MAX as nat);
    crate::number::written_numbers_are_read(xres as nat, u32::MAX as nat);
    reveal_strlit("org");
    assert("org"@ =~= seq!['o', 'r', 'g']);
}

/// Whether a text is no number of 32 bits: it is empty, a plus sign alone, has a character in
/// it that is neither a digit nor a plus sign in front, or writes a larger number.
pub open spec fn is_no_number(s: Seq<char>) -> bool {
    ||| s.len() == 0
    ||| s == seq!['+']
    ||| exists|j: int|
        0 <= j < s.len() && !('0' <= #[trigger] s[j] <= '9') && !(j == 0 && s[j] == '+')
    ||| exists|n: nat| n > u32::MAX && s == #[trigger] crate::number::decimal(n)
}

proof fn lemma_no_number(s: Seq<char>)
    requires
        is_no_number(s),
    ensures
        !is_given_number(Some(s)),
{
    if s.len() == 0 || s == seq!['+'] {
        crate::number::other_texts_are_no_numbers(s, 0, u32::MAX as nat);
    } else if exists|j: int|
        0 <= j < s.len() && !('0' <= #[trigger] s[j] <= '9') && !(j == 0 && s[j] == '+') {
        let j = choose|j: int|
            0 <= j < s.len() && !('0' <= #[trigger] s[j] <= '9') && !(j == 0 && s[j] == '+');
        crate::number::other_texts_are_no_numbers(s, j, u32::MAX as nat);
    } else {
        let n = choose|n: nat| n > u32::MAX && s == #[trigger] crate::number::decimal(n);
        crate::number::written_numbers_are_read(n, u32::MAX as nat);
    }
}

/// A file request with a good key is not found where its ID describes no file, where its index
/// is missing or no number of 32 bits, or where its resolution is missing or is neither `org`
/// nor such a number.
pub proof fn other_file_requests_are_not_found(r: RequestType)
    requires
        r matches RequestType::FileServe { hv_file, additional, keystamp_valid: true, .. } && {
            ||| hv_file is None
            ||| additional.fileindex is None
            ||| additional.xres is None
            ||| additional.fileindex matches Some(i) && is_no_number(i@)
            ||| additional.xres matches Some(x) && x@ != seq!['o', 'r', 'g'] && is_no_number(x@)
        },
    ensures
        immediate_answer(r) matches Some(a) && a.status == 404,
{
    reveal_strlit("org");
    assert("org"@ =~= seq!['o', 'r', 'g']);
    match r {
        RequestType::FileServe { additional, .. } => {
            if let Some(i) = additional.fileindex {
                if is_no_number(i@) {
                    lemma_no_number(i@);
                }
            }
            if let Some(x) = additional.xres {
                if is_no_number(x@) {
                    lemma_no_number(x@);
                }
            }
        },
        _ => {},
    }
}

/// A server command that is not good is refused and never run.
pub proof fn bad_command_is_forbidden(r: RequestType)
    requires
        r matches RequestType::ServerCommand { valid: false, .. },
    ensures
        immediate_answer(r) == Some(crate::server::response::forbidden_answer()),
{
}

// ---------------------------------------------------------------------------
// Files
// ---------------------------------------------------------------------------

/// Whether the cache holds a file: what lies there has the right size.
pub fn is_cache_hit(hv_file: &HVFile, size_on_disk: Option<u64>) -> (r: bool)
    ensures
        r == (size_on_disk matches Some(n) && n == hv_file.size),
{
    match size_on_disk {
        Some(n) => n == hv_file.size as u64,
        None => false,
    }
}

/// Whether a cached file is verified while it is sent: it was not accessed recently, and
/// verification is neither disabled nor on cooldown.
pub fn should_verify(newly_marked: bool, config: &Config, on_cooldown: bool) -> (r: bool)
    ensures
        r == (newly_marked && !config.disable_file_verification && !on_cooldown),
{
    newly_marked && !config.disable_file_verification && !on_cooldown
}

/// The URLs among some lines.
pub open spec fn urls_in(lines: Seq<Seq<char>>) -> Seq<Seq<char>>
    decreases lines.len(),
{
    if lines.len() == 0 {
        seq![]
    } else {
        let before = urls_in(lines.drop_last());
        if lines.last().len() == 0 {
            before
        } else {
            match crate::url::url_parsed(lines.last()) {
                Ok(u) => before.push(u),
                Err(_) => before,
            }
        }
    }
}

/// What the servers' reply to a request for sources leads to.
#[derive(Debug)]
pub enum SourceStep {
    NotFound(ResponseSpec),
    /// Download the file from one of these.
    Download(Vec<String>),
}

/// Adds what a line was read as to the sources, where it is a URL.
pub fn keep_source(sources: &mut Vec<String>, parsed: Result<String, String>)
    ensures
        crate::text::texts(final(sources)@) == (match parsed {
            Ok(u) => crate::text::texts(old(sources)@).push(u@),
            Err(_) => crate::text::texts(old(sources)@),
        }),
{
    if let Ok(u) = parsed {
        let ghost before = crate::text::texts(sources@);
        sources.push(u);
        assert(crate::text::texts(sources@) =~= before.push(u@));
    }
}

/// What the sources of a file lead to: a download where there are any.
pub fn source_step(sources: Vec<String>) -> (r: SourceStep)
    ensures
        match r {
            SourceStep::Download(v) => sources@.len() > 0 && v == sources,
            SourceStep::NotFound(s) => sources@.len() == 0 && s@
                == crate::server::response::not_found_answer(),
        },
{
    if sources.len() > 0 {
        SourceStep::Download(sources)
    } else {
        SourceStep::NotFound(crate::server::response::not_found_response())
    }
}

/// The URLs among some lines.
pub fn parse_sources(lines: &Vec<String>) -> (r: Vec<String>)
    ensures
        crate::text::texts(r@) == urls_in(crate::text::texts(lines@)),
{
    let ghost all = crate::text::texts(lines@);
    let mut out: Vec<String> = Vec::new();
    let mut i: usize = 0;
    assert(all.take(0) =~= seq![]);
    assert(crate::text::texts(out@) =~= urls_in(all.take(0)));
    while i < lines.len()
        invariant
            i <= lines@.len(),
            all == crate::text::texts(lines@),
            crate::text::texts(out@) == urls_in(all.take(i as int)),
        decreases lines.len() - i,
    {
        let ghost now = all.take(i + 1);
        assert(now.drop_last() =~= all.take(i as int));
        assert(now.last() == lines@[i as int]@);
        let line = lines[i].as_str();
        if !line.is_empty() {
            keep_source(&mut out, crate::url::parse(line));
        }
        i += 1;
    }
    assert(all.take(i as int) =~= all);
    out
}

/// What the servers' reply to a request for sources leads to: a download where the call
/// went well and names a source.
pub fn after_source_fetch(reply: Option<&ServerResponse>) -> (r: SourceStep)
    ensures
        ({
            let sources = match reply {
                Some(s) => if s.status == ResponseStatus::Okay {
                    urls_in(s@.lines)
                } else {
                    seq![]
                },
                None => seq![],
            };
            match r {
                SourceStep::Download(v) => sources.len() > 0 && crate::text::texts(v@) == sources,
                SourceStep::NotFound(s) => sources.len() == 0 && s@
                    == crate::server::response::not_found_answer(),
            }
        }),
{
    if let Some(s) = reply {
        if s.status == ResponseStatus::Okay {
            let sources = parse_sources(&s.lines);
            assert(crate::text::texts(sources@).len() == sources@.len());
            return source_step(sources);
        }
    }
    SourceStep::NotFound(crate::server::response::not_found_response())
}

/// What a client is answered whose download could not be started: the status of a failed
/// download, where that is a status, or an internal error.
pub open spec fn download_error_answer(e: ErrorView) -> SpecView {
    match e {
        ErrorView::ProxyDownloader(status, message) => crate::server::response::text_answer(
            if 100 <= status <= 999 {
                status
            } else {
                500
            },
            message,
        ),
        _ => crate::server::response::text_answer(500, crate::error::error_text(e)),
    }
}

/// What a client is answered whose download could not be started.
pub fn download_error_response(e: &HathError) -> (r: ResponseSpec)
    ensures
        r@ == download_error_answer(e@),
{
    match e {
        HathError::ProxyDownloader { status, message } => {
            let code: u16 = if 100 <= *status && *status <= 999 {
                *status
            } else {
                500
            };
            crate::server::response::text_response(code, message.as_str())
        },
        _ => crate::server::response::text_response(500, e.to_text().as_str()),
    }
}

/// What a client is answered whose download has started.
pub fn transfer_response(content_type: &str, content_length: usize, head_only: bool, file_opened: bool) -> (r:
    ResponseSpec)
    ensures
        r@ == (if head_only {
            crate::server::response::head_answer(content_type@, content_length as int)
        } else if !file_opened {
            crate::server::response::text_answer(500, "proxy temp file unavailable"@)
        } else {
            SpecView {
                body: BodyView::Proxy,
                ..crate::server::response::head_answer(content_type@, content_length as int)
            }
        }),
{
    if head_only {
        return crate::server::response::head_response(content_type, content_length);
    }
    if !file_opened {
        return crate::server::response::text_response(500, "proxy temp file unavailable");
    }
    crate::server::response::proxy_body_response(content_type, content_length)
}

// ---------------------------------------------------------------------------
// Server commands
// ---------------------------------------------------------------------------

/// A speed test against another server.
#[derive(Debug)]
pub struct ProxyTest {
    pub hostname: String,
    pub protocol: String,
    pub port: u16,
    pub testsize: u64,
    pub testcount: u32,
    pub testtime: u32,
    pub testkey: String,
}

/// What a server command leads to.
#[derive(Debug)]
pub enum CommandStep {
    Answer(ResponseSpec),
    ThreadedProxyTest(ProxyTest),
    RefreshSettings,
    StartDownloader,
    RefreshCerts,
}

/// What a server command leads to, with texts as characters.
pub ghost enum CommandView {
    Answer(SpecView),
    ThreadedProxyTest(Seq<char>, Seq<char>, u16, u64, u32, u32, Seq<char>),
    RefreshSettings,
    StartDownloader,
    RefreshCerts,
}

impl View for CommandStep {
    type V = CommandView;

    open spec fn view(&self) -> CommandView {
        match self {
            CommandStep::Answer(s) => CommandView::Answer(s@),
            CommandStep::ThreadedProxyTest(t) => CommandView::ThreadedProxyTest(
                t.hostname@,
                t.protocol@,
                t.port,
                t.testsize,
                t.testcount,
                t.testtime,
                t.testkey@,
            ),
            CommandStep::RefreshSettings => CommandView::RefreshSettings,
            CommandStep::StartDownloader => CommandView::StartDownloader,
            CommandStep::RefreshCerts => CommandView::RefreshCerts,
        }
    }
}

/// A number of the additional segment, where it is there and a number.
pub open spec fn number_field(additional: Seq<char>, key: Seq<char>, max: nat) -> Option<nat> {
    match crate::utils::additional_value(additional, key) {
        Some(v) => crate::number::parse_unsigned(v, max),
        None => None,
    }
}

/// The answer to a command that is none.
pub open spec fn invalid_command() -> CommandView {
    CommandView::Answer(crate::server::response::text_answer(200, "INVALID_COMMAND"@))
}

/// A speed test against another server: all but the key has to be there.
pub open spec fn proxy_test_command(add: Seq<char>) -> CommandView {
    match (
        crate::utils::additional_value(add, "hostname"@),
        crate::utils::additional_value(add, "protocol"@),
        number_field(add, "port"@, u16::MAX as nat),
        number_field(add, "testsize"@, u64::MAX as nat),
        number_field(add, "testcount"@, u32::MAX as nat),
        number_field(add, "testtime"@, u32::MAX as nat),
    ) {
        (Some(h), Some(p), Some(port), Some(size), Some(count), Some(time)) => CommandView::ThreadedProxyTest(
            h,
            p,
            port as u16,
            size as u64,
            count as u32,
            time as u32,
            match crate::utils::additional_value(add, "testkey"@) {
                Some(k) => k,
                None => seq![],
            },
        ),
        _ => invalid_command(),
    }
}

/// A speed test of this client: a million bytes where no size is given.
pub open spec fn speed_test_command(add: Seq<char>) -> CommandView {
    match crate::utils::additional_value(add, "testsize"@) {
        None => CommandView::Answer(crate::server::response::speedtest_answer(1_000_000)),
        Some(v) => match crate::number::parse_unsigned(v, usize::MAX as nat) {
            Some(n) => CommandView::Answer(crate::server::response::speedtest_answer(n as usize)),
            None => invalid_command(),
        },
    }
}

/// What a command, in lower case, leads to.
pub open spec fn command_step(word: Seq<char>, add: Seq<char>) -> CommandView {
    if word == "still_alive"@ {
        CommandView::Answer(
            crate::server::response::text_answer(200, "I feel FANTASTIC and I'm still alive"@),
        )
    } else if word == "threaded_proxy_test"@ {
        proxy_test_command(add)
    } else if word == "speed_test"@ {
        speed_test_command(add)
    } else if word == "refresh_settings"@ {
        CommandView::RefreshSettings
    } else if word == "start_downloader"@ {
        CommandView::StartDownloader
    } else if word == "refresh_certs"@ {
        CommandView::RefreshCerts
    } else {
        invalid_command()
    }
}

/// What a server command leads to.
pub fn handle_server_command(command: &str, additional: &str) -> (r: CommandStep)
    ensures
        r@ == command_step(crate::text::lower(command@), additional@),
{
    let word = crate::text::to_lowercase(command);
    handle_command_word(word.as_str(), additional)
}

fn invalid_command_step() -> (r: CommandStep)
    ensures
        r@ == invalid_command(),
{
    CommandStep::Answer(crate::server::response::text_response(200, "INVALID_COMMAND"))
}

fn read_proxy_test(additional: &str) -> (r: CommandStep)
    ensures
        r@ == proxy_test_command(additional@),
{
    let add = crate::utils::parse_additional(additional);
    let (hostname, protocol) = match (add.hostname, add.protocol) {
        (Some(h), Some(p)) => (h, p),
        _ => return invalid_command_step(),
    };
    let port: u16 = match &add.port {
        Some(v) => match crate::number::read_u16(v.as_str()) {
            Some(n) => n,
            None => return invalid_command_step(),
        },
        None => return invalid_command_step(),
    };
    let testsize: u64 = match &add.testsize {
        Some(v) => match crate::number::read_u64(v.as_str()) {
            Some(n) => n,
            None => return invalid_command_step(),
        },
        None => return invalid_command_step(),
    };
    let testcount: u32 = match &add.testcount {
        Some(v) => match crate::number::read_u32(v.as_str()) {
            Some(n) => n,
            None => return invalid_command_step(),
        },
        None => return invalid_command_step(),
    };
    let testtime: u32 = match &add.testtime {
        Some(v) => match crate::number::read_u32(v.as_str()) {
            Some(n) => n,
            None => return invalid_command_step(),
        },
        None => return invalid_command_step(),
    };
    let testkey = match add.testkey {
        Some(k) => k,
        None => String::new(),
    };
    CommandStep::ThreadedProxyTest(
        ProxyTest { hostname, protocol, port, testsize, testcount, testtime, testkey },
    )
}

/// What a command, in lower case, leads to.
pub fn handle_command_word(word: &str, additional: &str) -> (r: CommandStep)
    ensures
        r@ == command_step(word@, additional@),
{
    if crate::text::str_eq(word, "still_alive") {
        return CommandStep::Answer(
            crate::server::response::text_response(200, "I feel FANTASTIC and I'm still alive"),
        );
    }
    if crate::text::str_eq(word, "threaded_proxy_test") {
        return read_proxy_test(additional);
    }
    if crate::text::str_eq(word, "speed_test") {
        let add = crate::utils::parse_additional(additional);
        return match &add.testsize {
            None => CommandStep::Answer(crate::server::response::speedtest_response(1_000_000)),
            Some(v) => match crate::number::read_usize(v.as_str()) {
                Some(n) => CommandStep::Answer(crate::server::response::speedtest_response(n)),
                None => invalid_command_step(),
            },
        };
    }
    if crate::text::str_eq(word, "refresh_settings") {
        return CommandStep::RefreshSettings;
    }
    if crate::text::str_eq(word, "start_downloader") {
        return CommandStep::StartDownloader;
    }
    if crate::text::str_eq(word, "refresh_certs") {
        return CommandStep::RefreshCerts;
    }
    invalid_command_step()
}

/// What a speed test against another server is answered once it has run.
pub fn proxy_test_response(successful: u32, total_time_ms: u64) -> (r: ResponseSpec)
    ensures
        r@ == crate::server::response::text_answer(
            200,
            "OK:"@ + crate::number::decimal(successful as nat) + "-"@ + crate::number::decimal(
                total_time_ms as nat,
            ),
        ),
{
    let mut text = String::from_str("OK:");
    crate::number::push_decimal(&mut text, successful as u64);
    text.append("-");
    crate::number::push_decimal(&mut text, total_time_ms);
    crate::server::response::text_response(200, text.as_str())
}

/// What the other commands are answered once they have run, well or not.
pub fn command_done_response() -> (r: ResponseSpec)
    ensures
        r@ == crate::server::response::text_answer(200, ""@),
{
    crate::server::response::text_response(200, "")
}

/// The bandwidth monitor for the current settings, where there is a limit and it is not
/// disabled.
pub fn monitor_for(config: &Config) -> (r: Option<BandwidthMonitor>)
    ensures
        r is Some == (config.throttle_bytes > 0 && !config.disable_bwm),
        r matches Some(m) ==> m.wf() && m.limit() == crate::bandwidth::tick_limit(config.throttle_bytes)
            && forall|tick: int| #[trigger] m.bytes_in(tick) == 0,
{
    if config.throttle_bytes > 0 && !config.disable_bwm {
        Some(BandwidthMonitor::new(config.throttle_bytes))
    } else {
        None
    }
}

} // verus!
