//! Downloads of whole files, with a few tries each.

use vstd::prelude::*;
use crate::error::{ErrorView, HathError};

verus! {

/// The most bytes that are kept in memory.
pub const MEMORY_LIMIT: i32 = 10_485_760;

/// Where a download goes.
#[derive(Debug)]
pub enum DownloadMode {
    Memory,
    File(String),
    Discard,
}

/// A download of one URL.
#[derive(Debug)]
pub struct FileDownloader {
    pub source: String,
    pub connect_timeout_ms: u64,
    pub read_timeout_ms: u64,
    /// Kept, but not enforced.
    pub max_dl_time_ms: u64,
    pub retries: u32,
    pub mode: DownloadMode,
    pub max_content_length: Option<u64>,
    pub content_length: i32,
    pub download_time_millis: u64,
}

/// Why a try failed, and whether another is worth making.
#[derive(Debug)]
pub enum DownloadAttemptError {
    Retryable(HathError),
    NotFound(HathError),
}

/// Why a try failed, with its text as characters.
pub ghost enum AttemptErrorView {
    Retryable(ErrorView),
    NotFound(ErrorView),
}

impl View for DownloadAttemptError {
    type V = AttemptErrorView;

    open spec fn view(&self) -> AttemptErrorView {
        match self {
            DownloadAttemptError::Retryable(e) => AttemptErrorView::Retryable(e@),
            DownloadAttemptError::NotFound(e) => AttemptErrorView::NotFound(e@),
        }
    }
}

/// A failure of the network that is worth another try.
pub open spec fn retryable(message: Seq<char>) -> AttemptErrorView {
    AttemptErrorView::Retryable(ErrorView::Network(message))
}

/// The length of an answer that can be downloaded, or why it cannot. A declared length counts
/// in 32 bits, but for the limit.
pub open spec fn accepted_length(
    source: Seq<char>,
    status: u16,
    reason: Option<Seq<char>>,
    declared: Option<u64>,
    max: Option<u64>,
    in_memory: bool,
) -> Result<i32, AttemptErrorView> {
    if status == 404 {
        Err(AttemptErrorView::NotFound(ErrorView::Network("server returned 404 for "@ + source)))
    } else if !(200 <= status < 300) {
        Err(
            retryable(
                "server returned "@ + crate::server::response::status_text(status, reason) + " for "@
                    + source,
            ),
        )
    } else {
        match declared {
            None => Err(retryable("missing Content-Length header"@)),
            Some(n) => {
                let length = n as i32;
                if length < 0 {
                    Err(retryable("invalid Content-Length"@))
                } else if max matches Some(m) && n > m {
                    Err(
                        retryable(
                            "content too large: "@ + crate::number::decimal(n as nat) + " exceeds "@
                                + crate::number::decimal(max->0 as nat),
                        ),
                    )
                } else if length > MEMORY_LIMIT && in_memory {
                    Err(retryable("content too large for memory buffer"@))
                } else {
                    Ok(length)
                }
            },
        }
    }
}

fn network(message: String) -> (r: DownloadAttemptError)
    ensures
        r@ == retryable(message@),
{
    DownloadAttemptError::Retryable(HathError::Network(message))
}

impl FileDownloader {
    pub fn new(source: String, read_timeout_ms: u64, max_dl_time_ms: u64, mode: DownloadMode) -> (r: Self)
        ensures
            r == (FileDownloader {
                source,
                connect_timeout_ms: 5000,
                read_timeout_ms,
                max_dl_time_ms,
                retries: 3,
                mode,
                max_content_length: None,
                content_length: 0,
                download_time_millis: 0,
            }),
    {
        FileDownloader {
            source,
            connect_timeout_ms: 5000,
            read_timeout_ms,
            max_dl_time_ms,
            retries: 3,
            mode,
            max_content_length: None,
            content_length: 0,
            download_time_millis: 0,
        }
    }

    pub fn set_connect_timeout(&mut self, timeout_ms: u64)
        ensures
            *final(self) == (FileDownloader { connect_timeout_ms: timeout_ms, ..*old(self) }),
    {
        self.connect_timeout_ms = timeout_ms;
    }

    pub fn set_read_timeout(&mut self, timeout_ms: u64)
        ensures
            *final(self) == (FileDownloader { read_timeout_ms: timeout_ms, ..*old(self) }),
    {
        self.read_timeout_ms = timeout_ms;
    }

    pub fn max_dl_time(&self) -> (r: u64)
        ensures
            r == self.max_dl_time_ms,
    {
        self.max_dl_time_ms
    }

    /// Reject responses larger than this value before opening the output file.
    pub fn set_max_content_length(&mut self, max_content_length: u64)
        ensures
            *final(self) == (FileDownloader {
                max_content_length: Some(max_content_length),
                ..*old(self)
            }),
    {
        self.max_content_length = Some(max_content_length);
    }

    /// Begins a try, where one is left; returns how many are left behind it.
    pub fn begin_attempt(&mut self) -> (r: Result<u32, HathError>)
        ensures
            match r {
                Ok(left) => old(self).retries > 0 && left == old(self).retries - 1 && *final(self) == (
                FileDownloader { retries: left, ..*old(self) }),
                Err(e) => old(self).retries == 0 && *final(self) == *old(self) && e@ == ErrorView::Network(
                    "exhausted retries for "@ + old(self).source@,
                ),
            },
    {
        if self.retries == 0 {
            return Err(
                HathError::Network(
                    crate::text::concat("exhausted retries for ", self.source.as_str()),
                ),
            );
        }
        self.retries = self.retries - 1;
        Ok(self.retries)
    }

    /// Checks an answer before its body is read.
    pub fn check_response(&mut self, status: u16, content_length: Option<u64>) -> (r: Result<
        i32,
        DownloadAttemptError,
    >)
        ensures
            ({
                let accepted = accepted_length(
                    old(self).source@,
                    status,
                    crate::server::response::reason_of(status),
                    content_length,
                    old(self).max_content_length,
                    old(self).mode is Memory,
                );
                match r {
                    Ok(n) => accepted == Ok::<i32, AttemptErrorView>(n) && *final(self) == (
                    FileDownloader { content_length: n, ..*old(self) }),
                    Err(e) => accepted == Err::<i32, AttemptErrorView>(e@) && *final(self) == *old(self),
                }
            }),
    {
        let reason = crate::server::response::canonical_reason(status);
        self.check_response_with(status, &reason, content_length)
    }

    /// Checks an answer whose status has those words before its body is read.
    pub fn check_response_with(
        &mut self,
        status: u16,
        reason: &Option<String>,
        content_length: Option<u64>,
    ) -> (r: Result<i32, DownloadAttemptError>)
        ensures
            ({
                let accepted = accepted_length(
                    old(self).source@,
                    status,
                    crate::text::opt_text(*reason),
                    content_length,
                    old(self).max_content_length,
                    old(self).mode is Memory,
                );
                match r {
                    Ok(n) => accepted == Ok::<i32, AttemptErrorView>(n) && *final(self) == (
                    FileDownloader { content_length: n, ..*old(self) }),
                    Err(e) => accepted == Err::<i32, AttemptErrorView>(e@) && *final(self) == *old(self),
                }
            }),
    {
        if status == 404 {
            return Err(
                DownloadAttemptError::NotFound(
                    HathError::Network(
                        crate::text::concat("server returned 404 for ", self.source.as_str()),
                    ),
                ),
            );
        }
        if status < 200 || status >= 300 {
            let text = crate::server::response::show_status(status, reason);
            let mut m = String::from_str("server returned ");
            m.append(text.as_str());
            m.append(" for ");
            m.append(self.source.as_str());
            return Err(network(m));
        }
        let declared: u64 = match content_length {
            Some(n) => n,
            None => return Err(network(String::from_str("missing Content-Length header"))),
        };
        let length: i32 = #[verifier::truncate]
        (declared as i32);
        if length < 0 {
            return Err(network(String::from_str("invalid Content-Length")));
        }
        if let Some(max) = self.max_content_length {
            if declared > max {
                let mut m = String::from_str("content too large: ");
                crate::number::push_decimal(&mut m, declared);
                m.append(" exceeds ");
                crate::number::push_decimal(&mut m, max);
                return Err(network(m));
            }
        }
        let in_memory = match self.mode {
            DownloadMode::Memory => true,
            _ => false,
        };
        if length > MEMORY_LIMIT && in_memory {
            return Err(network(String::from_str("content too large for memory buffer")));
        }
        self.content_length = length;
        Ok(length)
    }

    /// Checks what was read once an answer has ended, and notes the time that it took.
    pub fn finish_attempt(&mut self, total_bytes: u64, elapsed_millis: u64) -> (r: Result<
        (),
        DownloadAttemptError,
    >)
        requires
            old(self).content_length >= 0,
        ensures
            match r {
                Ok(()) => total_bytes == old(self).content_length && *final(self) == (FileDownloader {
                    download_time_millis: elapsed_millis,
                    ..*old(self)
                }),
                Err(e) => total_bytes != old(self).content_length && *final(self) == *old(self) && e@
                    == retryable(
                    "incomplete: got "@ + crate::number::decimal(total_bytes as nat) + " of "@
                        + crate::number::decimal(old(self).content_length as nat),
                ),
            },
    {
        let length: u64 = self.content_length as u64;
        if total_bytes != length {
            let mut m = String::from_str("incomplete: got ");
            crate::number::push_decimal(&mut m, total_bytes);
            m.append(" of ");
            crate::number::push_decimal(&mut m, length);
            return Err(network(m));
        }
        self.download_time_millis = elapsed_millis;
        Ok(())
    }
}

/// What follows a failed try.
pub fn after_failed_attempt(error: DownloadAttemptError) -> (r: Option<HathError>)
    ensures
        match error {
            DownloadAttemptError::NotFound(e) => r == Some(e),
            DownloadAttemptError::Retryable(_) => r is None,
        },
{
    match error {
        DownloadAttemptError::NotFound(e) => Some(e),
        DownloadAttemptError::Retryable(_) => None,
    }
}

/// What does not exist is not asked for again.
pub proof fn missing_files_are_not_retried(
    source: Seq<char>,
    reason: Option<Seq<char>>,
    declared: Option<u64>,
    max: Option<u64>,
    in_memory: bool,
)
    ensures
        accepted_length(source, 404, reason, declared, max, in_memory) is Err,
        accepted_length(source, 404, reason, declared, max, in_memory)->Err_0 is NotFound,
{
}

/// An answer above the limit is refused before anything is written.
pub proof fn large_answers_are_refused(
    source: Seq<char>,
    status: u16,
    reason: Option<Seq<char>>,
    declared: u64,
    max: u64,
    in_memory: bool,
)
    requires
        max < declared,
    ensures
        accepted_length(source, status, reason, Some(declared), Some(max), in_memory) is Err,
{
}

} // verus!
