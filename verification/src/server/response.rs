//! Answers before they are sent: status, headers, and where the body comes from.

use vstd::prelude::*;
use crate::error::{ErrorView, HathError};
use crate::hvfile::HVFile;

verus! {

/// Where the body of an answer comes from.
#[derive(Debug)]
pub enum BodySource {
    Empty,
    Text(String),
    /// So many bytes of a random pool.
    Random(usize),
    /// The cached file.
    File,
    /// The file that is being downloaded.
    Proxy,
}

/// A response before common HTTP policy has been applied.
#[derive(Debug)]
pub struct ResponseSpec {
    pub status: u16,
    pub content_type: String,
    pub declared_length: usize,
    pub body: BodySource,
    pub headers: Vec<(String, String)>,
}

/// Where a body comes from, with its text as characters.
pub ghost enum BodyView {
    Empty,
    Text(Seq<char>),
    Random(usize),
    File,
    Proxy,
}

/// A response with its texts as characters.
pub ghost struct SpecView {
    pub status: u16,
    pub content_type: Seq<char>,
    pub declared_length: int,
    pub body: BodyView,
    pub headers: Seq<(Seq<char>, Seq<char>)>,
}

/// The names and values of headers.
pub open spec fn header_views(v: Seq<(String, String)>) -> Seq<(Seq<char>, Seq<char>)> {
    Seq::new(v.len(), |i: int| (v[i].0@, v[i].1@))
}

impl View for BodySource {
    type V = BodyView;

    open spec fn view(&self) -> BodyView {
        match self {
            BodySource::Empty => BodyView::Empty,
            BodySource::Text(s) => BodyView::Text(s@),
            BodySource::Random(n) => BodyView::Random(*n),
            BodySource::File => BodyView::File,
            BodySource::Proxy => BodyView::Proxy,
        }
    }
}

impl View for ResponseSpec {
    type V = SpecView;

    open spec fn view(&self) -> SpecView {
        SpecView {
            status: self.status,
            content_type: self.content_type@,
            declared_length: self.declared_length as int,
            body: self.body@,
            headers: header_views(self.headers@),
        }
    }
}

/// The type of an answer that is neither a file nor plain text.
pub open spec fn default_content_type() -> Seq<char> {
    "text/html; charset=iso-8859-1"@
}

/// An answer that is a text, with as many bytes as the text has.
pub open spec fn text_answer(status: u16, text: Seq<char>) -> SpecView {
    SpecView {
        status,
        content_type: default_content_type(),
        declared_length: vstd::utf8::encode_utf8(text).len() as int,
        body: BodyView::Text(text),
        headers: seq![],
    }
}

pub open spec fn not_found_answer() -> SpecView {
    text_answer(404, "Not Found"@)
}

pub open spec fn forbidden_answer() -> SpecView {
    text_answer(403, "Permission Denied"@)
}

pub open spec fn bad_request_answer() -> SpecView {
    text_answer(400, "Bad Request"@)
}

pub open spec fn method_not_allowed_answer() -> SpecView {
    SpecView {
        headers: seq![("allow"@, "GET, HEAD"@)],
        ..text_answer(405, "Method Not Allowed"@)
    }
}

pub open spec fn redirect_answer(location: Seq<char>) -> SpecView {
    SpecView {
        status: 301,
        content_type: default_content_type(),
        declared_length: 0,
        body: BodyView::Empty,
        headers: seq![("location"@, location)],
    }
}

pub open spec fn robots_answer() -> SpecView {
    SpecView {
        content_type: "text/plain; charset=iso-8859-1"@,
        ..text_answer(200, "User-agent: *\nDisallow: /"@)
    }
}

/// An answer to a HEAD request: the length is declared, and the body stays empty.
pub open spec fn head_answer(content_type: Seq<char>, size: int) -> SpecView {
    SpecView { status: 200, content_type, declared_length: size, body: BodyView::Empty, headers: seq![] }
}

pub open spec fn speedtest_answer(size: usize) -> SpecView {
    SpecView {
        status: 200,
        content_type: default_content_type(),
        declared_length: size as int,
        body: BodyView::Random(size),
        headers: seq![],
    }
}

pub open spec fn internal_error_answer() -> SpecView {
    text_answer(500, "Internal Server Error"@)
}

fn no_headers() -> (r: Vec<(String, String)>)
    ensures
        header_views(r@) == Seq::<(Seq<char>, Seq<char>)>::empty(),
{
    let r: Vec<(String, String)> = Vec::new();
    assert(header_views(r@) =~= Seq::empty());
    r
}

fn one_header(name: &str, value: &str) -> (r: Vec<(String, String)>)
    ensures
        header_views(r@) == seq![(name@, value@)],
{
    let mut r: Vec<(String, String)> = Vec::new();
    r.push((String::from_str(name), String::from_str(value)));
    assert(header_views(r@) =~= seq![(name@, value@)]);
    r
}

pub fn text_response(status: u16, text: &str) -> (r: ResponseSpec)
    ensures
        r@ == text_answer(status, text@),
{
    ResponseSpec {
        status,
        content_type: String::from_str("text/html; charset=iso-8859-1"),
        declared_length: text.as_bytes().len(),
        body: BodySource::Text(String::from_str(text)),
        headers: no_headers(),
    }
}

pub fn not_found_response() -> (r: ResponseSpec)
    ensures
        r@ == not_found_answer(),
{
    text_response(404, "Not Found")
}

pub fn forbidden_response() -> (r: ResponseSpec)
    ensures
        r@ == forbidden_answer(),
{
    text_response(403, "Permission Denied")
}

pub fn bad_request_response() -> (r: ResponseSpec)
    ensures
        r@ == bad_request_answer(),
{
    text_response(400, "Bad Request")
}

pub fn method_not_allowed_response() -> (r: ResponseSpec)
    ensures
        r@ == method_not_allowed_answer(),
{
    let mut r = text_response(405, "Method Not Allowed");
    r.headers = one_header("allow", "GET, HEAD");
    r
}

/// Whether a text can be the value of a header: no control characters but tabs.
pub open spec fn is_header_value(s: Seq<char>) -> bool {
    forall|i: int| 0 <= i < s.len() ==> is_header_char(#[trigger] s[i])
}

pub open spec fn is_header_char(c: char) -> bool {
    (32 <= c as u32 && c as u32 != 127) || c == '\t'
}

fn char_fits_header(c: char) -> (r: bool)
    ensures
        r == is_header_char(c),
{
    (32 <= c as u32 && c as u32 != 127) || c == '\t'
}

fn fits_header(s: &str) -> (r: bool)
    ensures
        r == is_header_value(s@),
{
    let cs = crate::text::to_chars(s);
    let mut i: usize = 0;
    while i < cs.len()
        invariant
            i <= cs.len(),
            cs@ == s@,
            forall|j: int| 0 <= j < i ==> is_header_char(#[trigger] s@[j]),
        decreases cs.len() - i,
    {
        if !char_fits_header(cs[i]) {
            assert(!is_header_char(s@[i as int]));
            return false;
        }
        i += 1;
    }
    true
}

/// The answer that sends a client elsewhere, where the place can be written in a header.
pub fn redirect_response(location: &str) -> (r: Result<ResponseSpec, HathError>)
    ensures
        match r {
            Ok(s) => is_header_value(location@) && s@ == redirect_answer(location@),
            Err(e) => !is_header_value(location@) && e@ == ErrorView::Parse(
                "invalid response header value: failed to parse header value"@,
            ),
        },
{
    if !fits_header(location) {
        return Err(
            HathError::Parse(
                String::from_str("invalid response header value: failed to parse header value"),
            ),
        );
    }
    Ok(ResponseSpec {
        status: 301,
        content_type: String::from_str("text/html; charset=iso-8859-1"),
        declared_length: 0,
        body: BodySource::Empty,
        headers: one_header("location", location),
    })
}

pub fn robots_response() -> (r: ResponseSpec)
    ensures
        r@ == robots_answer(),
{
    let mut r = text_response(200, "User-agent: *\nDisallow: /");
    r.content_type = String::from_str("text/plain; charset=iso-8859-1");
    r
}

pub fn head_response(content_type: &str, total_size: usize) -> (r: ResponseSpec)
    ensures
        r@ == head_answer(content_type@, total_size as int),
{
    ResponseSpec {
        status: 200,
        content_type: String::from_str(content_type),
        declared_length: total_size,
        body: BodySource::Empty,
        headers: no_headers(),
    }
}

pub fn proxy_body_response(content_type: &str, total_size: usize) -> (r: ResponseSpec)
    ensures
        r@ == (SpecView { body: BodyView::Proxy, ..head_answer(content_type@, total_size as int) }),
{
    let mut r = head_response(content_type, total_size);
    r.body = BodySource::Proxy;
    r
}

pub fn speedtest_response(size: usize) -> (r: ResponseSpec)
    ensures
        r@ == speedtest_answer(size),
{
    ResponseSpec {
        status: 200,
        content_type: String::from_str("text/html; charset=iso-8859-1"),
        declared_length: size,
        body: BodySource::Random(size),
        headers: no_headers(),
    }
}

pub fn internal_error_response() -> (r: ResponseSpec)
    ensures
        r@ == internal_error_answer(),
{
    text_response(500, "Internal Server Error")
}

/// The answer that is a cached file, once the file is open and its length is known.
pub fn file_response(hv_file: &HVFile, actual_len: u64, head_only: bool) -> (r: Result<
    ResponseSpec,
    HathError,
>)
    ensures
        ({
            let mime = crate::types::mime_of(hv_file.file_type@);
            match r {
                Ok(s) => actual_len == hv_file.size && s@ == (if head_only {
                    head_answer(mime, hv_file.size as int)
                } else {
                    SpecView { body: BodyView::File, ..head_answer(mime, hv_file.size as int) }
                }),
                Err(e) => actual_len != hv_file.size && e@ == ErrorView::Cache(
                    "file size mismatch for "@ + crate::hvfile::fileid_of(hv_file@) + ": expected "@
                        + crate::number::decimal(hv_file.size as nat) + ", got "@
                        + crate::number::decimal(actual_len as nat),
                ),
            }
        }),
{
    if actual_len != hv_file.size as u64 {
        let mut m = String::from_str("file size mismatch for ");
        m.append(hv_file.fileid().as_str());
        m.append(": expected ");
        crate::number::push_decimal(&mut m, hv_file.size as u64);
        m.append(", got ");
        crate::number::push_decimal(&mut m, actual_len);
        return Err(HathError::Cache(m));
    }
    let mut r = head_response(hv_file.mime_type(), hv_file.size as usize);
    if !head_only {
        r.body = BodySource::File;
    }
    Ok(r)
}

// ---------------------------------------------------------------------------
// What every answer gets
// ---------------------------------------------------------------------------

/// A response with all its headers.
#[derive(Debug)]
pub struct FinalResponse {
    pub status: u16,
    pub headers: Vec<(String, String)>,
    pub body: BodySource,
}

/// What an answer to a client costs: local clients are not counted, and the bandwidth may be
/// limited.
#[derive(Debug, Clone, Copy, PartialEq, Eq, Structural)]
pub struct ResponsePolicy {
    pub limited: bool,
    pub records_traffic: bool,
}

/// What the head of an answer costs.
#[derive(Debug, Clone, Copy, PartialEq, Eq, Structural)]
pub struct HeadCost {
    /// The bytes to wait for before the answer is sent.
    pub quota: Option<u64>,
    /// The bytes to count as sent.
    pub recorded: Option<u64>,
}

impl ResponsePolicy {
    pub fn new(is_local: bool, limited: bool) -> (r: Self)
        ensures
            r == (ResponsePolicy { limited, records_traffic: !is_local }),
    {
        ResponsePolicy { limited, records_traffic: !is_local }
    }

    /// What the head of an answer costs.
    pub fn head_cost(self, response: &FinalResponse) -> (r: HeadCost)
        ensures
            ({
                let bytes = capped(
                    head_length(reason_of(response.status), header_views(response.headers@)),
                );
                r == (HeadCost {
                    quota: if self.limited {
                        Some(bytes)
                    } else {
                        None
                    },
                    recorded: if self.records_traffic {
                        Some(bytes)
                    } else {
                        None
                    },
                })
            }),
    {
        let bytes: u64 = header_bytes(response);
        HeadCost {
            quota: if self.limited {
                Some(bytes)
            } else {
                None
            },
            recorded: if self.records_traffic {
                Some(bytes)
            } else {
                None
            },
        }
    }
}

/// The headers of an answer: its own, the type, that the connection is closed, the date and
/// the name of the server, and with a length above zero how long it is and may be kept.
pub open spec fn all_headers(s: SpecView, date: Seq<char>) -> Seq<(Seq<char>, Seq<char>)> {
    let common = s.headers + seq![
        ("content-type"@, s.content_type),
        ("connection"@, "close"@),
        ("date"@, date),
        ("server"@, "Genetic Lifeform and Distributed Open Server 1.6.5"@),
    ];
    if s.declared_length > 0 {
        common + seq![
            ("cache-control"@, "public, max-age=31536000"@),
            ("content-length"@, crate::number::decimal(s.declared_length as nat)),
        ]
    } else {
        common
    }
}

/// The answer that goes out: an error becomes an internal error.
pub open spec fn answered(response: Result<ResponseSpec, HathError>) -> SpecView {
    match response {
        Ok(s) => s@,
        Err(_) => internal_error_answer(),
    }
}

/// The form of an HTTP date.
pub const HTTP_DATE: &'static str = "%a, %d %b %Y %H:%M:%S GMT";

/// The text of a time, in seconds since 1970, in a form; empty where it is no date.
pub uninterp spec fn time_text(secs: i64, form: Seq<char>) -> Seq<char>;

/// `chrono::DateTime::format` of the time that `chrono::DateTime::from_timestamp` makes of
/// those seconds: a function of the seconds and the form.
#[verifier::external_body]
fn format_time(secs: i64, form: &str) -> (r: String)
    requires
        form@ == HTTP_DATE@,
    ensures
        r@ == time_text(secs, form@),
{
    chrono::DateTime::from_timestamp(secs, 0).map(|t| t.format(form).to_string()).unwrap_or_default()
}

/// Applies common response policy after request handling has selected a semantic outcome.
/// An error becomes an internal error. The clock is read for the date.
pub fn finalize(response: Result<ResponseSpec, HathError>) -> (r: FinalResponse)
    ensures
        ({
            let s = answered(response);
            &&& r.status == s.status
            &&& r.body@ == s.body
            &&& exists|now: i64|
                0 <= now && header_views(r.headers@) == all_headers(
                    s,
                    #[trigger] time_text(now, HTTP_DATE@),
                )
        }),
{
    let now: i64 = crate::utils::timestamp_now();
    let date = format_time(now, HTTP_DATE);
    let ghost s = answered(response);
    let r = finalize_at(response, date.as_str());
    assert(header_views(r.headers@) == all_headers(s, time_text(now, HTTP_DATE@)));
    r
}

fn push_header(headers: &mut Vec<(String, String)>, name: &str, value: &str)
    ensures
        header_views(final(headers)@) == header_views(old(headers)@).push((name@, value@)),
{
    let ghost before = header_views(headers@);
    headers.push((String::from_str(name), String::from_str(value)));
    assert(header_views(headers@) =~= before.push((name@, value@)));
}

/// Applies common response policy on that date.
pub fn finalize_at(response: Result<ResponseSpec, HathError>, date: &str) -> (r: FinalResponse)
    ensures
        ({
            let s = answered(response);
            &&& r.status == s.status
            &&& r.body@ == s.body
            &&& header_views(r.headers@) == all_headers(s, date@)
        }),
{
    let spec = match response {
        Ok(s) => s,
        Err(_) => internal_error_response(),
    };
    let ghost view = spec@;
    let mut headers = spec.headers;
    push_header(&mut headers, "content-type", spec.content_type.as_str());
    push_header(&mut headers, "connection", "close");
    push_header(&mut headers, "date", date);
    push_header(&mut headers, "server", "Genetic Lifeform and Distributed Open Server 1.6.5");
    if spec.declared_length > 0 {
        let length = crate::number::decimal_string(spec.declared_length as u64);
        push_header(&mut headers, "cache-control", "public, max-age=31536000");
        push_header(&mut headers, "content-length", length.as_str());
    }
    assert(header_views(headers@) =~= all_headers(view, date@));
    FinalResponse { status: spec.status, headers, body: spec.body }
}

/// The words that go with a status, where there are any.
pub uninterp spec fn reason_of(status: u16) -> Option<Seq<char>>;

/// `http::StatusCode::canonical_reason` of the status with that number: a function of the
/// number.
#[verifier::external_body]
pub(crate) fn canonical_reason(status: u16) -> (r: Option<String>)
    ensures
        crate::text::opt_text(r) == reason_of(status),
{
    let code = http::StatusCode::from_u16(status).ok()?;
    code.canonical_reason().map(str::to_string)
}

/// A status as it is shown to a reader: its number and its words.
pub open spec fn status_text(status: u16, reason: Option<Seq<char>>) -> Seq<char> {
    crate::number::decimal(status as nat) + " "@ + (match reason {
        Some(w) => w,
        None => "<unknown status code>"@,
    })
}

/// A status as it is shown to a reader.
pub fn describe_status(status: u16) -> (r: String)
    ensures
        r@ == status_text(status, reason_of(status)),
{
    show_status(status, &canonical_reason(status))
}

/// A status with those words as it is shown to a reader.
pub fn show_status(status: u16, reason: &Option<String>) -> (r: String)
    ensures
        r@ == status_text(status, crate::text::opt_text(*reason)),
{
    let mut text = crate::number::decimal_string(status as u64);
    text.append(" ");
    match reason {
        Some(w) => text.append(w.as_str()),
        None => text.append("<unknown status code>"),
    }
    text
}

/// The bytes of the headers, each with a colon, a blank and a line end.
pub open spec fn lines_length(h: Seq<(Seq<char>, Seq<char>)>) -> nat
    decreases h.len(),
{
    if h.len() == 0 {
        0
    } else {
        lines_length(h.drop_last()) + vstd::utf8::encode_utf8(h.last().0).len()
            + vstd::utf8::encode_utf8(h.last().1).len() + 4
    }
}

/// The bytes of the head of an answer: the status line, the headers and an empty line.
pub open spec fn head_length(reason: Option<Seq<char>>, h: Seq<(Seq<char>, Seq<char>)>) -> nat {
    let words = match reason {
        Some(w) => vstd::utf8::encode_utf8(w).len(),
        None => 0,
    };
    15 + words + lines_length(h) + 2
}

fn add_up(a: u64, b: u64) -> (r: u64)
    ensures
        r == (if a + b <= u64::MAX {
            (a + b) as u64
        } else {
            u64::MAX
        }),
{
    if b <= u64::MAX - a {
        a + b
    } else {
        u64::MAX
    }
}

/// A length that does not fit in 64 bits counts as the most that does.
pub open spec fn capped(n: nat) -> u64 {
    if n <= u64::MAX {
        n as u64
    } else {
        u64::MAX
    }
}

/// The bytes of the head of an answer. The status has three digits.
pub fn header_bytes(response: &FinalResponse) -> (r: u64)
    ensures
        r == capped(head_length(reason_of(response.status), header_views(response.headers@))),
{
    let reason = canonical_reason(response.status);
    head_bytes_with(&reason, &response.headers)
}

/// The bytes of the head of an answer with those words behind its status.
pub fn head_bytes_with(reason: &Option<String>, headers: &Vec<(String, String)>) -> (r: u64)
    ensures
        r == capped(head_length(crate::text::opt_text(*reason), header_views(headers@))),
{
    let words: u64 = match reason {
        Some(w) => w.as_str().as_bytes().len() as u64,
        None => 0,
    };
    let ghost h = header_views(headers@);
    let mut total: u64 = 0;
    let mut i: usize = 0;
    while i < headers.len()
        invariant
            i <= headers.len(),
            h == header_views(headers@),
            total == capped(lines_length(h.take(i as int))),
        decreases headers.len() - i,
    {
        assert(h.take(i + 1).drop_last() =~= h.take(i as int));
        assert(h.take(i + 1).last() == h[i as int]);
        let name: u64 = headers[i].0.as_str().as_bytes().len() as u64;
        let value: u64 = headers[i].1.as_str().as_bytes().len() as u64;
        total = add_up(add_up(add_up(total, name), value), 4);
        i += 1;
    }
    assert(h.take(i as int) =~= h);
    add_up(add_up(15, words), add_up(total, 2))
}

/// Every answer closes its connection and names its server and its date.
pub proof fn answers_have_common_headers(s: SpecView, date: Seq<char>)
    ensures
        all_headers(s, date).contains(("connection"@, "close"@)),
        all_headers(s, date).contains(
            ("server"@, "Genetic Lifeform and Distributed Open Server 1.6.5"@),
        ),
        all_headers(s, date).contains(("date"@, date)),
        all_headers(s, date).contains(("content-type"@, s.content_type)),
        s.declared_length > 0 ==> all_headers(s, date).contains(
            ("content-length"@, crate::number::decimal(s.declared_length as nat)),
        ),
{
    let h = all_headers(s, date);
    let n = s.headers.len() as int;
    assert(h[n] == ("content-type"@, s.content_type));
    assert(h[n + 1] == ("connection"@, "close"@));
    assert(h[n + 2] == ("date"@, date));
    assert(h[n + 3] == ("server"@, "Genetic Lifeform and Distributed Open Server 1.6.5"@));
    if s.declared_length > 0 {
        assert(h[n + 5] == ("content-length"@, crate::number::decimal(s.declared_length as nat)));
    }
}

} // verus!
