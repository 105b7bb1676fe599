//! Downloads on behalf of clients: a file is fetched into a temporary file, sent on while it
//! arrives, and moved to the cache when it turns out to be whole.

use vstd::prelude::*;
use crate::config::Config;
use crate::error::{ErrorView, HathError};
use crate::hvfile::HVFile;
use crate::utils::Sha1Stream;

verus! {

/// How many times the body of a file is fetched.
pub const BODY_ATTEMPTS: u32 = 3;

/// The nanoseconds that one attempt may take.
pub const DOWNLOAD_TIME_LIMIT: u64 = 300_000_000_000;

/// Why a proxy download failed.
#[derive(Clone, Copy, Debug, PartialEq, Eq, Structural)]
pub enum DownloadFailReason {
    PrematureEof,
    NetworkError,
    Timeout,
    DiskWriteError,
    Sha1Mismatch,
    FinalizeFailed,
}

/// State published by a download to the body that sends it on.
#[derive(Clone, Copy, Debug, PartialEq, Eq, Structural)]
pub enum DownloadState {
    /// Download in progress; value is bytes written to temp file so far.
    InProgress(u64),
    /// Download complete: SHA1 verified, file moved to the cache.
    Done,
    /// Download failed with a specific reason.
    Failed(DownloadFailReason),
}

// ---------------------------------------------------------------------------
// The download
// ---------------------------------------------------------------------------

/// Where a download stands.
#[derive(Clone, Copy, Debug, PartialEq, Eq, Structural)]
pub enum TaskPhase {
    /// The next piece is waited for.
    Receiving,
    /// A piece is being written.
    Writing,
    /// Another answer is asked for.
    Reconnecting,
    /// The file is being flushed.
    Flushing,
    /// The file is whole; the client is waited for.
    AwaitingReader,
    /// The file is being moved to the cache.
    Moving,
    Ended,
}

/// What to do next for a download.
#[derive(Debug, PartialEq, Eq)]
pub enum TaskStep {
    /// Publish how much was written, where that is given, and wait for the next piece.
    Receive(Option<u64>),
    /// Write the piece.
    Write,
    /// Publish that nothing is written, empty the file, and ask for another answer.
    Restart,
    /// Flush the file.
    Flush,
    /// Count the file as received, and wait until the client is served.
    AwaitReader,
    /// Move the file to this path in the cache.
    MoveTo(String),
    /// Register the file in the cache and publish that the download is done.
    Complete,
    /// Publish the failure, wait until the client is served, and remove the file.
    GiveUp(DownloadFailReason),
    /// Remove the file and publish the failure.
    Discard(DownloadFailReason),
}

/// One download of a file.
pub struct ProxyDownloadTask {
    pub fileid: String,
    pub expected_size: u64,
    pub expected_hash: String,
    pub cache_dir: String,
    pub attempt: u32,
    pub downloaded: u64,
    pub pending: u64,
    pub digest: Sha1Stream,
    pub fail_reason: DownloadFailReason,
    pub phase: TaskPhase,
}

/// What changes while a download goes on.
pub ghost struct TaskView {
    pub attempt: u32,
    pub downloaded: u64,
    pub pending: u64,
    pub received: Seq<u8>,
    pub fail_reason: DownloadFailReason,
    pub phase: TaskPhase,
}

/// What to do next, with the path as characters.
pub ghost enum StepView {
    Receive(Option<u64>),
    Write,
    Restart,
    Flush,
    AwaitReader,
    MoveTo(Seq<char>),
    Complete,
    GiveUp(DownloadFailReason),
    Discard(DownloadFailReason),
}

impl View for TaskStep {
    type V = StepView;

    open spec fn view(&self) -> StepView {
        match self {
            TaskStep::Receive(n) => StepView::Receive(*n),
            TaskStep::Write => StepView::Write,
            TaskStep::Restart => StepView::Restart,
            TaskStep::Flush => StepView::Flush,
            TaskStep::AwaitReader => StepView::AwaitReader,
            TaskStep::MoveTo(p) => StepView::MoveTo(p@),
            TaskStep::Complete => StepView::Complete,
            TaskStep::GiveUp(r) => StepView::GiveUp(*r),
            TaskStep::Discard(r) => StepView::Discard(*r),
        }
    }
}

impl View for ProxyDownloadTask {
    type V = TaskView;

    open spec fn view(&self) -> TaskView {
        TaskView {
            attempt: self.attempt,
            downloaded: self.downloaded,
            pending: self.pending,
            received: self.digest@,
            fail_reason: self.fail_reason,
            phase: self.phase,
        }
    }
}

/// What follows a failed attempt: another one, while there is one left.
pub open spec fn after_failed_attempt(v: TaskView, reason: DownloadFailReason) -> (TaskView, StepView) {
    if v.attempt + 1 < BODY_ATTEMPTS {
        (
            TaskView {
                attempt: (v.attempt + 1) as u32,
                fail_reason: reason,
                phase: TaskPhase::Reconnecting,
                ..v
            },
            StepView::Restart,
        )
    } else {
        (TaskView { fail_reason: reason, phase: TaskPhase::Ended, ..v }, StepView::GiveUp(reason))
    }
}

/// What follows when the client is served and the file has the digest `digest`: a file with
/// the right digest goes to the cache.
pub open spec fn after_digest(
    v: TaskView,
    digest: Seq<char>,
    fileid: Seq<char>,
    expected_hash: Seq<char>,
    cache_dir: Seq<char>,
) -> (TaskView, StepView) {
    if digest != expected_hash {
        (
            TaskView {
                fail_reason: DownloadFailReason::Sha1Mismatch,
                phase: TaskPhase::Ended,
                ..v
            },
            StepView::Discard(DownloadFailReason::Sha1Mismatch),
        )
    } else {
        match crate::hvfile::file_of(fileid) {
            Some(f) => (
                TaskView { phase: TaskPhase::Moving, ..v },
                StepView::MoveTo(crate::hvfile::cached_at(f, cache_dir)),
            ),
            None => (TaskView { phase: TaskPhase::Ended, ..v }, StepView::Discard(v.fail_reason)),
        }
    }
}

/// What follows when the client is served.
pub open spec fn after_reader(
    v: TaskView,
    fileid: Seq<char>,
    expected_hash: Seq<char>,
    cache_dir: Seq<char>,
) -> (TaskView, StepView) {
    after_digest(v, crate::utils::sha1_text(v.received), fileid, expected_hash, cache_dir)
}

impl ProxyDownloadTask {
    /// The digest is that of what was written and of the piece that is being written.
    pub open spec fn wf(&self) -> bool {
        &&& self.attempt < BODY_ATTEMPTS
        &&& self.downloaded + self.pending <= u64::MAX
        &&& (self.phase != TaskPhase::Reconnecting && self.phase != TaskPhase::Ended)
            ==> self.digest@.len() == self.downloaded + self.pending
        &&& self.phase == TaskPhase::Receiving ==> self.pending == 0
        &&& (self.phase == TaskPhase::Flushing || self.phase == TaskPhase::AwaitingReader || self.phase
            == TaskPhase::Moving) ==> self.pending == 0 && self.downloaded == self.expected_size
    }

    /// Whether it is the same download.
    pub open spec fn same_file(&self, other: &ProxyDownloadTask) -> bool {
        &&& self.fileid@ == other.fileid@
        &&& self.expected_size == other.expected_size
        &&& self.expected_hash@ == other.expected_hash@
        &&& self.cache_dir@ == other.cache_dir@
    }

    /// A download whose first answer is there and whose file is open.
    pub fn new(fileid: String, expected_size: u64, expected_hash: String, cache_dir: String) -> (r: Self)
        ensures
            r.wf(),
            r.fileid@ == fileid@,
            r.expected_size == expected_size,
            r.expected_hash@ == expected_hash@,
            r.cache_dir@ == cache_dir@,
            r@ == (TaskView {
                attempt: 0,
                downloaded: 0,
                pending: 0,
                received: seq![],
                fail_reason: DownloadFailReason::NetworkError,
                phase: TaskPhase::Receiving,
            }),
    {
        ProxyDownloadTask {
            fileid,
            expected_size,
            expected_hash,
            cache_dir,
            attempt: 0,
            downloaded: 0,
            pending: 0,
            digest: Sha1Stream::new(),
            fail_reason: DownloadFailReason::NetworkError,
            phase: TaskPhase::Receiving,
        }
    }

    /// The file cannot be opened: there is nothing to wait for.
    pub fn open_failed(&mut self) -> (r: TaskStep)
        requires
            old(self).wf(),
        ensures
            final(self).wf(),
            final(self).same_file(old(self)),
            final(self)@ == (TaskView { phase: TaskPhase::Ended, ..old(self)@ }),
            r@ == StepView::Discard(DownloadFailReason::DiskWriteError),
    {
        self.phase = TaskPhase::Ended;
        TaskStep::Discard(DownloadFailReason::DiskWriteError)
    }

    fn attempt_failed(&mut self, reason: DownloadFailReason) -> (r: TaskStep)
        requires
            old(self).wf(),
        ensures
            final(self).wf(),
            final(self).same_file(old(self)),
            (final(self)@, r@) == after_failed_attempt(old(self)@, reason),
    {
        self.fail_reason = reason;
        if self.attempt + 1 < BODY_ATTEMPTS {
            self.attempt = self.attempt + 1;
            self.phase = TaskPhase::Reconnecting;
            TaskStep::Restart
        } else {
            self.phase = TaskPhase::Ended;
            TaskStep::GiveUp(reason)
        }
    }

    /// A piece has arrived, so many nanoseconds after the attempt began.
    pub fn chunk_received(&mut self, chunk: &[u8], elapsed: u64) -> (r: TaskStep)
        requires
            old(self).wf(),
            old(self).phase == TaskPhase::Receiving,
            old(self).downloaded + chunk@.len() <= u64::MAX,
        ensures
            final(self).wf(),
            final(self).same_file(old(self)),
            (final(self)@, r@) == (if elapsed > DOWNLOAD_TIME_LIMIT {
                after_failed_attempt(old(self)@, DownloadFailReason::Timeout)
            } else {
                (
                    TaskView {
                        received: old(self)@.received + chunk@,
                        pending: chunk@.len() as u64,
                        phase: TaskPhase::Writing,
                        ..old(self)@
                    },
                    StepView::Write,
                )
            }),
    {
        if elapsed > DOWNLOAD_TIME_LIMIT {
            return self.attempt_failed(DownloadFailReason::Timeout);
        }
        self.digest.update(chunk);
        self.pending = chunk.len() as u64;
        self.phase = TaskPhase::Writing;
        TaskStep::Write
    }

    /// The piece was written, or could not be.
    pub fn chunk_written(&mut self, written: bool) -> (r: TaskStep)
        requires
            old(self).wf(),
            old(self).phase == TaskPhase::Writing,
        ensures
            final(self).wf(),
            final(self).same_file(old(self)),
            (final(self)@, r@) == (if written {
                let downloaded = (old(self).downloaded + old(self).pending) as u64;
                (
                    TaskView { downloaded, pending: 0, phase: TaskPhase::Receiving, ..old(self)@ },
                    StepView::Receive(Some(downloaded)),
                )
            } else {
                after_failed_attempt(old(self)@, DownloadFailReason::DiskWriteError)
            }),
    {
        if !written {
            return self.attempt_failed(DownloadFailReason::DiskWriteError);
        }
        self.downloaded = self.downloaded + self.pending;
        self.pending = 0;
        self.phase = TaskPhase::Receiving;
        TaskStep::Receive(Some(self.downloaded))
    }

    /// The answer has ended.
    pub fn body_ended(&mut self) -> (r: TaskStep)
        requires
            old(self).wf(),
            old(self).phase == TaskPhase::Receiving,
        ensures
            final(self).wf(),
            final(self).same_file(old(self)),
            (final(self)@, r@) == (if old(self).downloaded == old(self).expected_size {
                (TaskView { phase: TaskPhase::Flushing, ..old(self)@ }, StepView::Flush)
            } else {
                after_failed_attempt(old(self)@, DownloadFailReason::PrematureEof)
            }),
    {
        if self.downloaded != self.expected_size {
            return self.attempt_failed(DownloadFailReason::PrematureEof);
        }
        self.phase = TaskPhase::Flushing;
        TaskStep::Flush
    }

    /// The answer broke off.
    pub fn receive_failed(&mut self) -> (r: TaskStep)
        requires
            old(self).wf(),
            old(self).phase == TaskPhase::Receiving,
        ensures
            final(self).wf(),
            final(self).same_file(old(self)),
            (final(self)@, r@) == after_failed_attempt(old(self)@, DownloadFailReason::NetworkError),
    {
        self.attempt_failed(DownloadFailReason::NetworkError)
    }

    /// Another answer is there, or none could be had.
    pub fn reconnected(&mut self, connected: bool) -> (r: TaskStep)
        requires
            old(self).wf(),
            old(self).phase == TaskPhase::Reconnecting,
        ensures
            final(self).wf(),
            final(self).same_file(old(self)),
            (final(self)@, r@) == (if connected {
                (
                    TaskView {
                        downloaded: 0,
                        pending: 0,
                        received: seq![],
                        phase: TaskPhase::Receiving,
                        ..old(self)@
                    },
                    StepView::Receive(None),
                )
            } else {
                after_failed_attempt(old(self)@, DownloadFailReason::NetworkError)
            }),
    {
        if !connected {
            return self.attempt_failed(DownloadFailReason::NetworkError);
        }
        self.digest = Sha1Stream::new();
        self.downloaded = 0;
        self.pending = 0;
        self.phase = TaskPhase::Receiving;
        TaskStep::Receive(None)
    }

    /// The file was flushed, or could not be.
    pub fn flushed(&mut self, done: bool) -> (r: TaskStep)
        requires
            old(self).wf(),
            old(self).phase == TaskPhase::Flushing,
        ensures
            final(self).wf(),
            final(self).same_file(old(self)),
            (final(self)@, r@) == (if done {
                (TaskView { phase: TaskPhase::AwaitingReader, ..old(self)@ }, StepView::AwaitReader)
            } else {
                (
                    TaskView {
                        fail_reason: DownloadFailReason::DiskWriteError,
                        phase: TaskPhase::Ended,
                        ..old(self)@
                    },
                    StepView::GiveUp(DownloadFailReason::DiskWriteError),
                )
            }),
    {
        if !done {
            self.fail_reason = DownloadFailReason::DiskWriteError;
            self.phase = TaskPhase::Ended;
            return TaskStep::GiveUp(DownloadFailReason::DiskWriteError);
        }
        self.phase = TaskPhase::AwaitingReader;
        TaskStep::AwaitReader
    }

    /// The client is served, or is gone.
    pub fn reader_done(&mut self) -> (r: TaskStep)
        requires
            old(self).wf(),
            old(self).phase == TaskPhase::AwaitingReader,
        ensures
            final(self).wf(),
            final(self).same_file(old(self)),
            (final(self)@, r@) == after_reader(
                old(self)@,
                old(self).fileid@,
                old(self).expected_hash@,
                old(self).cache_dir@,
            ),
    {
        let digest = self.digest.hex();
        self.reader_done_with(digest.as_str())
    }

    /// The client is served, or is gone, and the digest of what was received is `digest`.
    pub fn reader_done_with(&mut self, digest: &str) -> (r: TaskStep)
        requires
            old(self).wf(),
            old(self).phase == TaskPhase::AwaitingReader,
        ensures
            final(self).wf(),
            final(self).same_file(old(self)),
            (final(self)@, r@) == after_digest(
                old(self)@,
                digest@,
                old(self).fileid@,
                old(self).expected_hash@,
                old(self).cache_dir@,
            ),
    {
        if !crate::text::str_eq(digest, self.expected_hash.as_str()) {
            self.fail_reason = DownloadFailReason::Sha1Mismatch;
            self.phase = TaskPhase::Ended;
            return TaskStep::Discard(DownloadFailReason::Sha1Mismatch);
        }
        match HVFile::from_fileid(self.fileid.as_str()) {
            Some(hv) => {
                self.phase = TaskPhase::Moving;
                TaskStep::MoveTo(hv.cache_path(self.cache_dir.as_str()))
            },
            None => {
                self.phase = TaskPhase::Ended;
                TaskStep::Discard(self.fail_reason)
            },
        }
    }

    /// The file was moved to the cache, or could not be.
    pub fn moved(&mut self, done: bool) -> (r: TaskStep)
        requires
            old(self).wf(),
            old(self).phase == TaskPhase::Moving,
        ensures
            final(self).wf(),
            final(self).same_file(old(self)),
            final(self)@ == (TaskView {
                fail_reason: if done {
                    old(self).fail_reason
                } else {
                    DownloadFailReason::FinalizeFailed
                },
                phase: TaskPhase::Ended,
                ..old(self)@
            }),
            r@ == (if done {
                StepView::Complete
            } else {
                StepView::Discard(DownloadFailReason::FinalizeFailed)
            }),
    {
        self.phase = TaskPhase::Ended;
        if done {
            return TaskStep::Complete;
        }
        self.fail_reason = DownloadFailReason::FinalizeFailed;
        TaskStep::Discard(DownloadFailReason::FinalizeFailed)
    }
}

/// Only whole and verified files reach the cache: what is moved there has the expected size
/// and the expected digest.
pub proof fn only_verified_files_are_kept(task: ProxyDownloadTask)
    requires
        task.wf(),
        task.phase == TaskPhase::AwaitingReader,
        after_reader(task@, task.fileid@, task.expected_hash@, task.cache_dir@).1 is MoveTo,
    ensures
        task.digest@.len() == task.expected_size,
        crate::utils::sha1_text(task.digest@) == task.expected_hash@,
{
}

/// A download is not retried without end: a failed attempt leaves fewer to make, and the last
/// one ends it.
pub proof fn attempts_are_bounded(v: TaskView, reason: DownloadFailReason)
    ensures
        after_failed_attempt(v, reason).1 is Restart ==> after_failed_attempt(v, reason).0.attempt
            == v.attempt + 1 < BODY_ATTEMPTS,
        v.attempt + 1 >= BODY_ATTEMPTS ==> after_failed_attempt(v, reason).1 == StepView::GiveUp(reason),
{
}

/// What to do while a file is moved to the cache.
#[derive(Debug, Clone, Copy, PartialEq, Eq, Structural)]
pub enum MoveStep {
    Rename,
    Copy,
    RemoveSource,
    Moved,
    Failed,
}

/// What follows a step of moving a file: where it cannot be renamed, it is copied, and what
/// is left behind does not matter.
pub fn next_move_step(step: MoveStep, succeeded: bool) -> (r: MoveStep)
    ensures
        r == (match step {
            MoveStep::Rename => if succeeded {
                MoveStep::Moved
            } else {
                MoveStep::Copy
            },
            MoveStep::Copy => if succeeded {
                MoveStep::RemoveSource
            } else {
                MoveStep::Failed
            },
            MoveStep::RemoveSource => MoveStep::Moved,
            MoveStep::Moved => MoveStep::Moved,
            MoveStep::Failed => MoveStep::Failed,
        }),
{
    match step {
        MoveStep::Rename => if succeeded {
            MoveStep::Moved
        } else {
            MoveStep::Copy
        },
        MoveStep::Copy => if succeeded {
            MoveStep::RemoveSource
        } else {
            MoveStep::Failed
        },
        MoveStep::RemoveSource => MoveStep::Moved,
        MoveStep::Moved => MoveStep::Moved,
        MoveStep::Failed => MoveStep::Failed,
    }
}

// ---------------------------------------------------------------------------
// Sources
// ---------------------------------------------------------------------------

/// A file to download, how the request for it is signed, and what the client is told of it.
#[derive(Debug)]
pub struct ProxyFileDownloader {
    pub hv_file: HVFile,
    pub hath_request: String,
    pub content_length: usize,
    pub content_type: String,
}

/// The signature of a request: the client's number and a digest of its key and the file.
pub open spec fn signature(id: u32, key: Seq<char>, fileid: Seq<char>) -> Seq<char> {
    crate::number::decimal(id as nat) + "-"@ + crate::utils::sha1_text(
        vstd::utf8::encode_utf8(key + fileid),
    )
}

/// The digest in a request's signature is of the bytes of the client's key with those of the
/// file's ID directly behind them.
pub proof fn signature_digests_key_and_file(id: u32, key: Seq<char>, fileid: Seq<char>)
    ensures
        ({
            let bytes = vstd::utf8::encode_utf8(key) + vstd::utf8::encode_utf8(fileid);
            &&& signature(id, key, fileid) == crate::number::decimal(id as nat) + seq!['-']
                + crate::utils::hex_text(crate::utils::sha1_digest(bytes))
            &&& bytes.take(vstd::utf8::encode_utf8(key).len() as int) == vstd::utf8::encode_utf8(key)
            &&& bytes.skip(vstd::utf8::encode_utf8(key).len() as int) == vstd::utf8::encode_utf8(fileid)
        }),
{
    reveal_strlit("-");
    assert("-"@ =~= seq!['-']);
    crate::text::lemma_utf8_of_sum(key, fileid);
    let k = vstd::utf8::encode_utf8(key);
    let bytes = k + vstd::utf8::encode_utf8(fileid);
    assert(bytes.take(k.len() as int) =~= k);
    assert(bytes.skip(k.len() as int) =~= vstd::utf8::encode_utf8(fileid));
}

impl ProxyFileDownloader {
    /// Prepares the download of a file.
    pub fn new(fileid: &str, config: &Config) -> (r: Result<Self, HathError>)
        ensures
            match crate::hvfile::file_of(fileid@) {
                Some(f) => r matches Ok(p) && p.hv_file@ == f && p.hath_request@ == signature(
                    config.client_id.0,
                    config.client_key@,
                    crate::hvfile::fileid_of(f),
                ) && p.content_length == f.size && p.content_type@ == crate::types::mime_of(f.file_type),
                None => r matches Err(e) && e@ == ErrorView::Parse("invalid fileid: "@ + fileid@),
            },
            r matches Ok(p) ==> p.hath_request@ == crate::number::decimal(config.client_id.0 as nat)
                + seq!['-'] + crate::utils::hex_text(
                crate::utils::sha1_digest(
                    vstd::utf8::encode_utf8(config.client_key@) + vstd::utf8::encode_utf8(
                        crate::hvfile::fileid_of(p.hv_file@),
                    ),
                ),
            ),
    {
        let hv_file = match HVFile::from_fileid(fileid) {
            Some(f) => f,
            None => return Err(HathError::Parse(crate::text::concat("invalid fileid: ", fileid))),
        };
        let plain = crate::text::concat(config.client_key.as_str(), hv_file.fileid().as_str());
        let mut hath_request = crate::number::decimal_string(config.client_id.0 as u64);
        hath_request.append("-");
        hath_request.append(crate::utils::sha1_string(plain.as_str()).as_str());
        proof {
            signature_digests_key_and_file(
                config.client_id.0,
                config.client_key@,
                crate::hvfile::fileid_of(hv_file@),
            );
        }
        let content_length: usize = hv_file.size as usize;
        let content_type = String::from_str(hv_file.mime_type());
        Ok(ProxyFileDownloader { hv_file, hath_request, content_length, content_type })
    }
}

/// The sources of a file, which are tried in turn.
#[derive(Debug)]
pub struct SourceSearch {
    pub next: usize,
    pub last_error: Option<HathError>,
}

/// The error of the last source that failed.
pub open spec fn search_error(e: Option<HathError>) -> ErrorView {
    match e {
        Some(e) => e@,
        None => ErrorView::ProxyDownloader(500, "all sources exhausted"@),
    }
}

impl SourceSearch {
    pub fn new() -> (r: Self)
        ensures
            r.next == 0,
            r.last_error is None,
    {
        SourceSearch { next: 0, last_error: None }
    }

    /// The source to try next, where one is left.
    pub fn next_source(&mut self, sources: &Vec<String>) -> (r: Option<String>)
        ensures
            final(self).last_error == old(self).last_error,
            match r {
                Some(s) => old(self).next < sources@.len() && s@ == sources@[old(self).next as int]@
                    && final(self).next == old(self).next + 1,
                None => old(self).next >= sources@.len() && final(self).next == old(self).next,
            },
    {
        if self.next < sources.len() {
            let s = sources[self.next].clone();
            self.next = self.next + 1;
            Some(s)
        } else {
            None
        }
    }

    /// The source did not answer as it should.
    pub fn source_failed(&mut self, error: HathError)
        ensures
            final(self).next == old(self).next,
            final(self).last_error == Some(error),
    {
        self.last_error = Some(error);
    }

    /// What went wrong where no source is left.
    pub fn exhausted(self) -> (r: HathError)
        ensures
            r@ == search_error(self.last_error),
    {
        match self.last_error {
            Some(e) => e,
            None => HathError::ProxyDownloader {
                status: 500,
                message: String::from_str("all sources exhausted"),
            },
        }
    }
}

/// What is wrong with an answer, if anything is: it has to have the status of success, and
/// to declare the expected length, which may not be above the limit.
pub open spec fn response_fault(
    status: u16,
    reason: Option<Seq<char>>,
    content_length: Option<u64>,
    max: u64,
    expected: u64,
) -> Option<Seq<char>> {
    if status != 200 {
        Some("upstream returned "@ + crate::server::response::status_text(status, reason))
    } else {
        match content_length {
            None => Some("missing Content-Length"@),
            Some(n) => if n > max {
                Some(
                    "contentLength "@ + crate::number::decimal(n as nat)
                        + " exceeds max allowed filesize "@ + crate::number::decimal(max as nat),
                )
            } else if n != expected {
                Some(
                    "size mismatch: expected "@ + crate::number::decimal(expected as nat) + ", got "@
                        + crate::number::decimal(n as nat),
                )
            } else {
                None
            },
        }
    }
}

fn bad_gateway(message: String) -> (r: HathError)
    ensures
        r@ == ErrorView::ProxyDownloader(502, message@),
{
    HathError::ProxyDownloader { status: 502, message }
}

/// Checks the answer of a source.
pub fn validate_proxy_response(
    status: u16,
    content_length: Option<u64>,
    max_allowed_filesize: u64,
    expected_size: u64,
) -> (r: Result<(), HathError>)
    ensures
        match response_fault(
            status,
            crate::server::response::reason_of(status),
            content_length,
            max_allowed_filesize,
            expected_size,
        ) {
            Some(m) => r matches Err(e) && e@ == ErrorView::ProxyDownloader(502, m),
            None => r is Ok,
        },
{
    let reason = crate::server::response::canonical_reason(status);
    check_proxy_response(status, &reason, content_length, max_allowed_filesize, expected_size)
}

/// Checks the answer of a source whose status has those words.
pub fn check_proxy_response(
    status: u16,
    reason: &Option<String>,
    content_length: Option<u64>,
    max_allowed_filesize: u64,
    expected_size: u64,
) -> (r: Result<(), HathError>)
    ensures
        match response_fault(
            status,
            crate::text::opt_text(*reason),
            content_length,
            max_allowed_filesize,
            expected_size,
        ) {
            Some(m) => r matches Err(e) && e@ == ErrorView::ProxyDownloader(502, m),
            None => r is Ok,
        },
{
    if status != 200 {
        let text = crate::server::response::show_status(status, reason);
        return Err(bad_gateway(crate::text::concat("upstream returned ", text.as_str())));
    }
    let n: u64 = match content_length {
        Some(n) => n,
        None => return Err(bad_gateway(String::from_str("missing Content-Length"))),
    };
    if n > max_allowed_filesize {
        let mut m = String::from_str("contentLength ");
        crate::number::push_decimal(&mut m, n);
        m.append(" exceeds max allowed filesize ");
        crate::number::push_decimal(&mut m, max_allowed_filesize);
        return Err(bad_gateway(m));
    }
    if n != expected_size {
        let mut m = String::from_str("size mismatch: expected ");
        crate::number::push_decimal(&mut m, expected_size);
        m.append(", got ");
        crate::number::push_decimal(&mut m, n);
        return Err(bad_gateway(m));
    }
    Ok(())
}

// ---------------------------------------------------------------------------
// Places
// ---------------------------------------------------------------------------

/// `uuid::Uuid::now_v7` as text; nothing is promised of it.
#[verifier::external_body]
fn fresh_id() -> (r: String) {
    uuid::Uuid::now_v7().to_string()
}

/// Where a download is kept until it is whole.
pub open spec fn temp_path(temp_dir: Seq<char>, fileid: Seq<char>, unique: Seq<char>) -> Seq<char> {
    crate::utils::joined(temp_dir, "proxyfile_"@ + fileid + "_"@ + unique)
}

/// A new place for a download.
pub fn new_temp_path(hv_file: &HVFile, config: &Config) -> (r: String)
    ensures
        exists|unique: Seq<char>|
            r@ == #[trigger] temp_path(config.temp_dir@, crate::hvfile::fileid_of(hv_file@), unique),
{
    let unique = fresh_id();
    temp_path_with(hv_file, config, unique.as_str())
}

/// The place for a download with that mark.
pub fn temp_path_with(hv_file: &HVFile, config: &Config, unique: &str) -> (r: String)
    ensures
        r@ == temp_path(config.temp_dir@, crate::hvfile::fileid_of(hv_file@), unique@),
{
    let mut name = String::from_str("proxyfile_");
    name.append(hv_file.fileid().as_str());
    name.append("_");
    name.append(unique);
    crate::utils::join_path(config.temp_dir.as_str(), name.as_str())
}

// ---------------------------------------------------------------------------
// The proxy of the client
// ---------------------------------------------------------------------------

/// What an error is called where the URL of a proxy cannot be made.
pub open spec fn proxy_url_error(e: crate::url::BuildErrorView, port: u16) -> ErrorView {
    match e {
        crate::url::BuildErrorView::Base(s) => ErrorView::Config("invalid proxy URL base: "@ + s),
        crate::url::BuildErrorView::HostName(s) => ErrorView::Config("invalid proxy host: "@ + s),
        crate::url::BuildErrorView::Port => ErrorView::Config(
            "invalid proxy port: "@ + crate::number::decimal(port as nat),
        ),
        _ => ErrorView::Config("invalid proxy host"@),
    }
}

/// The URL of a proxy.
pub open spec fn proxy_url(proxy_type: Seq<char>, host: Seq<char>, port: u16) -> Result<
    Seq<char>,
    ErrorView,
> {
    if proxy_type != "socks"@ && proxy_type != "http"@ {
        Err(ErrorView::Config("invalid proxy type: "@ + proxy_type))
    } else {
        let base = if proxy_type == "socks"@ {
            "socks://hath.invalid/"@
        } else {
            "http://hath.invalid/"@
        };
        match crate::url::with_authority(base, None, host, Some(port)) {
            Ok(u) => Ok(u),
            Err(e) => Err(proxy_url_error(e, port)),
        }
    }
}

fn make_proxy_url_error(e: crate::url::BuildError, port: u16) -> (r: HathError)
    ensures
        r@ == proxy_url_error(e@, port),
{
    match e {
        crate::url::BuildError::Base(s) => HathError::Config(
            crate::text::concat("invalid proxy URL base: ", s.as_str()),
        ),
        crate::url::BuildError::HostName(s) => HathError::Config(
            crate::text::concat("invalid proxy host: ", s.as_str()),
        ),
        crate::url::BuildError::Port => {
            let mut m = String::from_str("invalid proxy port: ");
            crate::number::push_decimal(&mut m, port as u64);
            HathError::Config(m)
        },
        _ => HathError::Config(String::from_str("invalid proxy host")),
    }
}

/// The URL of a proxy.
pub fn build_proxy_url(proxy_type: &str, proxy_host: &str, proxy_port: u16) -> (r: Result<
    String,
    HathError,
>)
    ensures
        match r {
            Ok(u) => proxy_url(proxy_type@, proxy_host@, proxy_port) == Ok::<Seq<char>, ErrorView>(u@),
            Err(e) => proxy_url(proxy_type@, proxy_host@, proxy_port) == Err::<Seq<char>, ErrorView>(e@),
        },
{
    let socks = crate::text::str_eq(proxy_type, "socks");
    if !socks && !crate::text::str_eq(proxy_type, "http") {
        return Err(HathError::Config(crate::text::concat("invalid proxy type: ", proxy_type)));
    }
    let base = if socks {
        "socks://hath.invalid/"
    } else {
        "http://hath.invalid/"
    };
    match crate::url::build_authority(base, None, proxy_host, Some(proxy_port)) {
        Ok(u) => Ok(u),
        Err(e) => Err(make_proxy_url_error(e, proxy_port)),
    }
}

/// The proxy that images are fetched through, where its host is set: its type is "socks"
/// unless set otherwise, and its port that which is usual for the type.
pub open spec fn image_proxy_of(
    host: Option<Seq<char>>,
    proxy_type: Option<Seq<char>>,
    port: Option<u16>,
) -> Option<Result<Seq<char>, ErrorView>> {
    match host {
        None => None,
        Some(h) => {
            let t = match proxy_type {
                Some(t) => t,
                None => "socks"@,
            };
            let p = match port {
                Some(p) => p,
                None => if t == "http"@ {
                    8080
                } else {
                    1080
                },
            };
            Some(proxy_url(t, h, p))
        },
    }
}

/// The URL of the proxy that images are fetched through, where there is one.
pub fn image_proxy_url(config: &Config) -> (r: Option<Result<String, HathError>>)
    ensures
        ({
            let proxy = image_proxy_of(
                crate::text::opt_text(config.image_proxy_host),
                crate::text::opt_text(config.image_proxy_type),
                config.image_proxy_port,
            );
            match r {
                None => proxy is None,
                Some(Ok(u)) => proxy == Some(Ok::<Seq<char>, ErrorView>(u@)),
                Some(Err(e)) => proxy == Some(Err::<Seq<char>, ErrorView>(e@)),
            }
        }),
{
    match &config.image_proxy_host {
        None => None,
        Some(host) => {
            let proxy_type = match &config.image_proxy_type {
                Some(t) => t.as_str(),
                None => "socks",
            };
            let default_port: u16 = if crate::text::str_eq(proxy_type, "http") {
                8080
            } else {
                1080
            };
            let port: u16 = match config.image_proxy_port {
                Some(p) => p,
                None => default_port,
            };
            Some(build_proxy_url(proxy_type, host.as_str(), port))
        },
    }
}

} // verus!
