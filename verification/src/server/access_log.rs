//! The lines that are logged for each request.

use vstd::prelude::*;
use crate::ip::IpAddr;
use crate::server::body::{BodyCompletion, BodyCompletionSnapshot};

verus! {

/// How the line of a request begins: the connection and the client in braces.
pub open spec fn prefix_text(conn_id: u32, ip: crate::ip::IpView) -> Seq<char> {
    "{"@ + crate::number::decimal(conn_id as nat) + crate::text::padded(
        "/"@ + crate::ip::ip_text(ip) + "}"@,
        17,
    ) + " "@
}

pub fn access_log_prefix(conn_id: u32, client_ip: IpAddr) -> (r: String)
    ensures
        r@ == prefix_text(conn_id, client_ip@),
{
    let mut client = String::from_str("/");
    client.append(client_ip.to_text().as_str());
    client.append("}");
    let mut line = String::from_str("{");
    crate::number::push_decimal(&mut line, conn_id as u64);
    crate::text::push_padded(&mut line, client.as_str(), 17);
    line.append(" ");
    line
}

/// What is logged of an answer: its status, and its length where it has a body.
pub open spec fn info_text(
    prefix: Seq<char>,
    status_code: u16,
    content_length: Option<usize>,
    head_only: bool,
) -> Seq<char> {
    let code = prefix + "Code="@ + crate::number::decimal(status_code as nat);
    let length = match content_length {
        Some(n) => n,
        None => 0,
    };
    if head_only {
        code + " "@
    } else {
        code + " Bytes="@ + crate::text::padded(crate::number::decimal(length as nat), 8) + " "@
    }
}

pub fn access_log_request_info(
    prefix: &str,
    status_code: u16,
    content_length: Option<usize>,
    head_only: bool,
) -> (r: String)
    ensures
        r@ == info_text(prefix@, status_code, content_length, head_only),
{
    let mut line = String::from_str(prefix);
    line.append("Code=");
    crate::number::push_decimal(&mut line, status_code as u64);
    if head_only {
        line.append(" ");
        return line;
    }
    let length: usize = match content_length {
        Some(n) => n,
        None => 0,
    };
    let digits = crate::number::decimal_string(length as u64);
    line.append(" Bytes=");
    crate::text::push_padded(&mut line, digits.as_str(), 8);
    line.append(" ");
    line
}

/// The length that an answer declares in a header, where it declares one.
pub fn declared_content_length(value: Option<&str>) -> (r: Option<usize>)
    ensures
        r == (match value {
            Some(v) => match crate::number::parse_unsigned(v@, usize::MAX as nat) {
                Some(n) => Some(n as usize),
                None => None,
            },
            None => None,
        }),
{
    match value {
        Some(v) => crate::number::read_usize(v),
        None => None,
    }
}

#[derive(Debug, Clone, Copy, PartialEq, Eq)]
pub enum AccessLogCompletion {
    Finished,
    Incomplete { reason: &'static str, offset: usize, total_size: usize },
    Aborted { offset: usize, total_size: usize },
}

/// The word for how an answer ended.
pub open spec fn label_of(c: AccessLogCompletion) -> Seq<char> {
    match c {
        AccessLogCompletion::Finished => "Finished"@,
        AccessLogCompletion::Incomplete { .. } => "Incomplete"@,
        AccessLogCompletion::Aborted { .. } => "Aborted"@,
    }
}

/// What is said of an answer that did not end well.
pub open spec fn suffix_of(c: AccessLogCompletion) -> Seq<char> {
    match c {
        AccessLogCompletion::Finished => seq![],
        AccessLogCompletion::Incomplete { reason, offset, total_size } => " reason="@ + reason@
            + " offset="@ + crate::number::decimal(offset as nat) + " expected="@
            + crate::number::decimal(total_size as nat),
        AccessLogCompletion::Aborted { offset, total_size } => " offset="@ + crate::number::decimal(
            offset as nat,
        ) + " expected="@ + crate::number::decimal(total_size as nat),
    }
}

impl AccessLogCompletion {
    pub fn label(self) -> (r: &'static str)
        ensures
            r@ == label_of(self),
    {
        match self {
            AccessLogCompletion::Finished => "Finished",
            AccessLogCompletion::Incomplete { .. } => "Incomplete",
            AccessLogCompletion::Aborted { .. } => "Aborted",
        }
    }

    pub fn write_suffix(self, line: &mut String)
        ensures
            final(line)@ == old(line)@ + suffix_of(self),
    {
        let ghost before = line@;
        match self {
            AccessLogCompletion::Finished => {},
            AccessLogCompletion::Incomplete { reason, offset, total_size } => {
                line.append(" reason=");
                line.append(reason);
                line.append(" offset=");
                crate::number::push_decimal(line, offset as u64);
                line.append(" expected=");
                crate::number::push_decimal(line, total_size as u64);
            },
            AccessLogCompletion::Aborted { offset, total_size } => {
                line.append(" offset=");
                crate::number::push_decimal(line, offset as u64);
                line.append(" expected=");
                crate::number::push_decimal(line, total_size as u64);
            },
        }
        assert(line@ =~= before + suffix_of(self));
    }

    /// Whether the line is a warning.
    pub fn is_warning(self) -> (r: bool)
        ensures
            r == (self is Incomplete),
    {
        match self {
            AccessLogCompletion::Incomplete { .. } => true,
            _ => false,
        }
    }
}

/// The last line of a request. The speed is given where it took ten milliseconds or more.
pub open spec fn completion_text(
    info: Seq<char>,
    seconds: Seq<char>,
    elapsed_ms: u64,
    speed: Seq<char>,
    c: AccessLogCompletion,
) -> Seq<char> {
    let pace = if elapsed_ms >= 10 {
        " ("@ + speed + " KB/s)"@
    } else {
        seq![]
    };
    info + label_of(c) + " processing request in "@ + seconds + " seconds"@ + pace + suffix_of(c)
}

/// The last line of a request. `seconds` and `speed` are the time that it took and the
/// kilobytes in each second, with two decimals.
pub fn access_log_completion_line(
    info: &str,
    seconds: &str,
    elapsed_ms: u64,
    speed: &str,
    completion: AccessLogCompletion,
) -> (r: String)
    ensures
        r@ == completion_text(info@, seconds@, elapsed_ms, speed@, completion),
{
    let mut line = String::from_str(info);
    line.append(completion.label());
    line.append(" processing request in ");
    line.append(seconds);
    line.append(" seconds");
    if elapsed_ms >= 10 {
        line.append(" (");
        line.append(speed);
        line.append(" KB/s)");
    }
    completion.write_suffix(&mut line);
    assert(line@ =~= completion_text(info@, seconds@, elapsed_ms, speed@, completion));
    line
}

/// How an answer ended whose body has ended.
pub fn access_log_completion_from_body(snapshot: BodyCompletionSnapshot) -> (r: AccessLogCompletion)
    ensures
        match snapshot.completion {
            BodyCompletion::Complete => r is Finished,
            BodyCompletion::Incomplete(why) => {
                &&& r matches AccessLogCompletion::Incomplete { reason, offset, total_size }
                &&& reason@ == why@
                &&& offset == snapshot.offset
                &&& total_size == snapshot.total_size
            },
            BodyCompletion::Running => {
                &&& r matches AccessLogCompletion::Incomplete { reason, offset, total_size }
                &&& reason@ == "body_returned_eof_without_completion"@
                &&& offset == snapshot.offset
                &&& total_size == snapshot.total_size
            },
        },
{
    match snapshot.completion {
        BodyCompletion::Complete => AccessLogCompletion::Finished,
        BodyCompletion::Incomplete(why) => AccessLogCompletion::Incomplete {
            reason: why,
            offset: snapshot.offset,
            total_size: snapshot.total_size,
        },
        BodyCompletion::Running => AccessLogCompletion::Incomplete {
            reason: "body_returned_eof_without_completion",
            offset: snapshot.offset,
            total_size: snapshot.total_size,
        },
    }
}

/// How an answer ended whose body was dropped.
pub fn access_log_completion_on_drop(snapshot: BodyCompletionSnapshot) -> (r: AccessLogCompletion)
    ensures
        r == (if snapshot.offset >= snapshot.total_size {
            AccessLogCompletion::Finished
        } else {
            AccessLogCompletion::Aborted {
                offset: snapshot.offset,
                total_size: snapshot.total_size,
            }
        }),
{
    if snapshot.offset >= snapshot.total_size {
        AccessLogCompletion::Finished
    } else {
        AccessLogCompletion::Aborted { offset: snapshot.offset, total_size: snapshot.total_size }
    }
}

/// What is still to be logged of an answer: its line, once.
pub struct AccessLogBody {
    pub info: Option<String>,
    pub content_length: usize,
}

impl AccessLogBody {
    pub fn new(info: String, content_length: usize) -> (r: Self)
        ensures
            r.info == Some(info),
            r.content_length == content_length,
    {
        AccessLogBody { info: Some(info), content_length }
    }

    pub fn new_without_completion() -> (r: Self)
        ensures
            r.info is None,
            r.content_length == 0,
    {
        AccessLogBody { info: None, content_length: 0 }
    }

    /// The line to log where none was logged before.
    pub fn log_completion(
        &mut self,
        seconds: &str,
        elapsed_ms: u64,
        speed: &str,
        completion: AccessLogCompletion,
    ) -> (r: Option<String>)
        ensures
            final(self).info is None,
            final(self).content_length == old(self).content_length,
            match old(self).info {
                Some(info) => r matches Some(line) && line@ == completion_text(
                    info@,
                    seconds@,
                    elapsed_ms,
                    speed@,
                    completion,
                ),
                None => r is None,
            },
    {
        match self.info.take() {
            Some(info) => Some(
                access_log_completion_line(info.as_str(), seconds, elapsed_ms, speed, completion),
            ),
            None => None,
        }
    }
}

} // verus!
