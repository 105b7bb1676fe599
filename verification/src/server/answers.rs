//! What clients are answered, and how the answers are sent.

use vstd::prelude::*;
use crate::error::ErrorView;
use crate::server::access_log::AccessLogCompletion;
use crate::server::body::{BodyStep, DataSource, FinishAction, ProxyProgress, StreamingBody};
use crate::server::request::RequestType;
use crate::server::response::{BodyView, SpecView};

verus! {

// ---------------------------------------------------------------------------
// Answers
// ---------------------------------------------------------------------------

/// Requests that ask for nothing else have their answers at once: a status, and a text whose bytes
/// are declared. The icon lies elsewhere.
pub proof fn plain_requests_are_answered()
    ensures
        crate::server::handler::immediate_answer(RequestType::BadRequest) matches Some(a) && a.status == 400
            && a.body == BodyView::Text("Bad Request"@),
        crate::server::handler::immediate_answer(RequestType::NotFound) matches Some(a) && a.status == 404
            && a.body == BodyView::Text("Not Found"@),
        crate::server::handler::immediate_answer(RequestType::MethodNotAllowed) matches Some(a) && a.status
            == 405 && a.headers == seq![("allow"@, "GET, HEAD"@)],
        crate::server::handler::immediate_answer(RequestType::Robots) matches Some(a) && a.status == 200
            && a.body == BodyView::Text("User-agent: *\nDisallow: /"@),
        crate::server::handler::immediate_answer(RequestType::Favicon) matches Some(a) && a.status == 301
            && a.headers == seq![("location"@, "https://e-hentai.org/favicon.ico"@)],
{
}

/// A text in an answer has the bytes that the answer declares.
pub proof fn texts_declare_their_bytes(status: u16, text: Seq<char>)
    ensures
        ({
            let a = crate::server::response::text_answer(status, text);
            &&& a.status == status
            &&& a.body == BodyView::Text(text)
            &&& a.declared_length == vstd::utf8::encode_utf8(text).len()
            &&& a.headers.len() == 0
            &&& a.content_type == "text/html; charset=iso-8859-1"@
        }),
{
}

/// A good speed test is answered with as many random bytes as it asks for, and for a HEAD request
/// with their number alone; one with a bad key is forbidden, and one without a key is a bad
/// request.
pub proof fn speed_tests_are_answered(size: u32, head: bool)
    ensures
        crate::server::handler::speedtest_result(size, true, false, head).status == 200,
        crate::server::handler::speedtest_result(size, true, false, head).declared_length == size,
        crate::server::handler::speedtest_result(size, true, false, false).body == BodyView::Random(
            size as usize,
        ),
        crate::server::handler::speedtest_result(size, true, false, true).body is Empty,
        crate::server::handler::speedtest_result(size, false, true, head).status == 403,
        crate::server::handler::speedtest_result(size, false, false, head).status == 400,
{
}

/// A download that could not be started is answered with the status that it failed with, where that
/// has three digits, and with an internal error otherwise; the text says why.
pub proof fn failed_downloads_are_answered(status: u16, message: Seq<char>)
    ensures
        ({
            let a = crate::server::handler::download_error_answer(ErrorView::ProxyDownloader(status, message));
            &&& a.status == (if 100 <= status < 1000 {
                status
            } else {
                500
            })
            &&& a.body == BodyView::Text(message)
        }),
        crate::server::handler::download_error_answer(ErrorView::Network(message)).status == 500,
{
}

/// The URLs among some lines are those of the lines that can be read as one, in their order; empty
/// lines and others are passed over.
pub proof fn sources_keep_their_order(lines: Seq<Seq<char>>, line: Seq<char>)
    ensures
        ({
            let before = crate::server::handler::urls_in(lines);
            let after = crate::server::handler::urls_in(lines.push(line));
            &&& line.len() == 0 ==> after == before
            &&& line.len() > 0 && crate::url::url_parsed(line) is Ok ==> after == before.push(
                crate::url::url_parsed(line)->Ok_0,
            )
            &&& crate::url::url_parsed(line) is Err ==> after == before
        }),
        crate::server::handler::urls_in(seq![]).len() == 0,
{
    assert(lines.push(line).drop_last() =~= lines);
}

/// Every answer has four headers behind its own, and two more where it declares a length: how long
/// it may be kept, and the length in decimal.
pub proof fn answers_have_their_headers(s: SpecView, date: Seq<char>)
    requires
        s.declared_length >= 0,
    ensures
        ({
            let h = crate::server::response::all_headers(s, date);
            let n = s.headers.len() as int;
            &&& s.headers.is_prefix_of(h)
            &&& h.len() == (if s.declared_length == 0 {
                n + 4
            } else {
                n + 6
            })
            &&& h[n] == ("content-type"@, s.content_type)
            &&& h[n + 1] == ("connection"@, "close"@)
            &&& h[n + 2] == ("date"@, date)
            &&& h[n + 3] == ("server"@, "Genetic Lifeform and Distributed Open Server 1.6.5"@)
            &&& s.declared_length > 0 ==> h[n + 4] == ("cache-control"@, "public, max-age=31536000"@)
            &&& s.declared_length > 0 ==> h[n + 5] == (
                "content-length"@,
                crate::number::decimal(s.declared_length as nat),
            )
        }),
{
    let h = crate::server::response::all_headers(s, date);
    assert(h.subrange(0, s.headers.len() as int) =~= s.headers);
}

/// The head of an answer takes seventeen bytes and the words of its status; each header adds the
/// bytes of its name and its value and four more.
pub proof fn headers_take_their_bytes(
    words: Seq<char>,
    h: Seq<(Seq<char>, Seq<char>)>,
    name: Seq<char>,
    value: Seq<char>,
)
    ensures
        crate::server::response::head_length(Some(words), seq![]) == 17 + vstd::utf8::encode_utf8(words).len(),
        crate::server::response::head_length(None, seq![]) == 17,
        crate::server::response::head_length(Some(words), h.push((name, value)))
            == crate::server::response::head_length(Some(words), h) + vstd::utf8::encode_utf8(name).len()
            + vstd::utf8::encode_utf8(value).len() + 4,
{
    assert(h.push((name, value)).drop_last() =~= h);
    assert(h.push((name, value)).last() == (name, value));
}

/// The value of a header holds no control character but the tab.
pub proof fn headers_hold_no_controls(s: Seq<char>, i: int)
    requires
        0 <= i < s.len(),
        s[i] == '\n' || s[i] == '\r' || s[i] == '\0' || s[i] == '\u{7f}' || s[i] == '\u{1b}',
    ensures
        !crate::server::response::is_header_value(s),
{
    assert(!crate::server::response::is_header_char(s[i]));
}

/// A status is shown as its number, a blank and its words.
pub proof fn statuses_are_shown(status: u16, words: Seq<char>)
    ensures
        crate::server::response::status_text(status, Some(words)) == crate::number::decimal(status as nat)
            + seq![' '] + words,
{
    reveal_strlit(" ");
    assert(" "@ =~= seq![' ']);
}

// ---------------------------------------------------------------------------
// Bodies
// ---------------------------------------------------------------------------

/// A body that was sent whole is finished. One of a download waits while its next packet of 1460
/// bytes, or its rest, is not written, for five minutes at most and not beyond the download's end.
/// Any other is throttled before each chunk where the bandwidth is limited, and then sent.
pub proof fn bodies_go_on(b: StreamingBody, p: ProxyProgress)
    requires
        b.offset <= b.total_size,
    ensures
        ({
            let left = b.total_size - b.offset;
            let packet = if left < 1460 {
                left
            } else {
                1460
            };
            let missing = b.source == DataSource::Proxy && p.written < b.offset + packet;
            let hopeless = p.download_done || p.waited > 300_000_000_000;
            &&& b.due(p) is Finished <==> left == 0 || (missing && hopeless)
            &&& b.due(p) is Wait <==> left > 0 && missing && !hopeless
            &&& b.due(p) is Throttle <==> left > 0 && !missing && b.limited && !b.throttled
            &&& b.due(p) is Produce <==> left > 0 && !missing && (!b.limited || b.throttled)
            &&& left > 0 ==> b.wanted() == (if b.source == DataSource::Static && !b.limited {
                left
            } else {
                packet
            })
        }),
{
}

/// What is sent of a static body are its next bytes, and they are counted.
pub proof fn static_bytes_are_sent_in_order(
    b: StreamingBody,
    p: ProxyProgress,
    n: u32,
    after: StreamingBody,
    r: BodyStep,
)
    requires
        b.wf(),
        b.source == DataSource::Static,
        b.is_step(p, n, after, r),
    ensures
        r matches BodyStep::Send(c) ==> c@.len() > 0 && after.offset == b.offset + c@.len() && c@
            == b.data@.subrange(b.offset as int, after.offset as int),
        !(r is Send) ==> after == b,
{
}

/// A cached file whose digest was to be checked is deleted where it was sent whole and its digest is
/// not the expected one, and is not deleted otherwise; the check is made once.
pub proof fn corrupt_files_are_deleted(b: StreamingBody, actual: Seq<char>)
    requires
        b.source == DataSource::File,
        b.to_delete is Some,
    ensures
        ({
            let (after, action) = crate::server::body::after_finish(b, actual);
            let whole = b.offset >= b.total_size;
            &&& whole && actual != b.expected_hash@ ==> action == FinishAction::DeleteFile(b.to_delete->0)
            &&& whole && actual == b.expected_hash@ ==> action is Nothing
            &&& !whole ==> action is Nothing && after == b
            &&& whole ==> after.to_delete is None
            &&& whole ==> crate::server::body::after_finish(after, actual).1 is Nothing
        }),
{
}

/// So many bytes are read of a file that the wanted ones are there and the buffer of 64 KiB is full,
/// and no more.
pub proof fn reads_fill_the_buffer(have: int, need: int)
    requires
        0 <= have < need,
    ensures
        ({
            let n = crate::server::body::read_target(have, need);
            &&& have + n >= need
            &&& have + n >= 65_536
            &&& have + n == need || have + n == 65_536
        }),
{
}

/// Random bytes are taken from within the pool, from anywhere where they fit.
pub proof fn random_bytes_are_of_the_pool(len: int, size: int, r: u32)
    requires
        0 <= size <= len,
    ensures
        0 <= crate::server::body::random_place(len, size, r),
        crate::server::body::random_place(len, size, r) + size <= len,
        r <= len - size ==> crate::server::body::random_place(len, size, r) == r,
{
    if len > size {
        let m = len - size + 1;
        assert(0 <= r as int % m < m) by {
            vstd::arithmetic::div_mod::lemma_mod_bound(r as int, m);
        }
        if r <= len - size {
            vstd::arithmetic::div_mod::lemma_small_mod(r as nat, m as nat);
        }
    }
}

// ---------------------------------------------------------------------------
// The log of requests
// ---------------------------------------------------------------------------

/// The line of a request begins with its connection and its client in braces, in seventeen
/// characters or more behind the number, and a blank.
pub proof fn lines_begin_with_the_client(conn: u32, ip: crate::ip::IpView)
    ensures
        ({
            let n = crate::number::decimal(conn as nat);
            let t = crate::ip::ip_text(ip);
            let p = crate::server::access_log::prefix_text(conn, ip);
            &&& (seq!['{'] + n + seq!['/'] + t + seq!['}']).is_prefix_of(p)
            &&& p.last() == ' '
            &&& t.len() <= 15 ==> p.len() == n.len() + 19
            &&& t.len() > 15 ==> p == seq!['{'] + n + seq!['/'] + t + seq!['}', ' ']
            &&& forall|i: int| n.len() + t.len() + 3 <= i < p.len() ==> #[trigger] p[i] == ' '
        }),
{
    let n = crate::number::decimal(conn as nat);
    let t = crate::ip::ip_text(ip);
    let p = crate::server::access_log::prefix_text(conn, ip);
    reveal_strlit("{");
    reveal_strlit("/");
    reveal_strlit("}");
    reveal_strlit(" ");
    let head = seq!['{'] + n + seq!['/'] + t + seq!['}'];
    assert("{"@ =~= seq!['{'] && "/"@ =~= seq!['/'] && "}"@ =~= seq!['}'] && " "@ =~= seq![' ']);
    assert(p.subrange(0, head.len() as int) =~= head);
    if t.len() > 15 {
        assert(p =~= seq!['{'] + n + seq!['/'] + t + seq!['}', ' ']);
    }
}

/// The line of a request says the status of its answer and, but for HEAD requests, its length, which
/// is nought where none is declared, in eight characters or more.
pub proof fn lines_say_the_answer(prefix: Seq<char>, status: u16, length: usize)
    ensures
        ({
            let code = prefix + "Code="@ + crate::number::decimal(status as nat);
            let n = crate::number::decimal(length as nat);
            let line = crate::server::access_log::info_text(prefix, status, Some(length), false);
            &&& crate::server::access_log::info_text(prefix, status, Some(length), true) == code + seq![' ']
            &&& (code + " Bytes="@ + n).is_prefix_of(line)
            &&& line.last() == ' '
            &&& n.len() <= 8 ==> line.len() == code.len() + 16
            &&& crate::server::access_log::info_text(prefix, status, None, false)
                == crate::server::access_log::info_text(prefix, status, Some(0), false)
        }),
{
    let code = prefix + "Code="@ + crate::number::decimal(status as nat);
    let n = crate::number::decimal(length as nat);
    let line = crate::server::access_log::info_text(prefix, status, Some(length), false);
    reveal_strlit(" ");
    reveal_strlit(" Bytes=");
    assert(" "@ =~= seq![' ']);
    let head = code + " Bytes="@ + n;
    assert(line.subrange(0, head.len() as int) =~= head);
}

/// The last line of a request says how it ended and how long it took, with the speed where that is
/// ten milliseconds or more; where it did not end well, it says how far it came.
pub proof fn last_lines_say_the_end(
    info: Seq<char>,
    seconds: Seq<char>,
    speed: Seq<char>,
    ms: u64,
    offset: usize,
    total: usize,
)
    ensures
        ms < 10 ==> crate::server::access_log::completion_text(
            info,
            seconds,
            ms,
            speed,
            AccessLogCompletion::Finished,
        ) == info + "Finished"@ + " processing request in "@ + seconds + " seconds"@,
        ms >= 10 ==> crate::server::access_log::completion_text(
            info,
            seconds,
            ms,
            speed,
            AccessLogCompletion::Finished,
        ) == info + "Finished"@ + " processing request in "@ + seconds + " seconds"@ + " ("@ + speed
            + " KB/s)"@,
        ms < 10 ==> crate::server::access_log::completion_text(
            info,
            seconds,
            ms,
            speed,
            AccessLogCompletion::Aborted { offset, total_size: total },
        ) == info + "Aborted"@ + " processing request in "@ + seconds + " seconds"@ + " offset="@
            + crate::number::decimal(offset as nat) + " expected="@ + crate::number::decimal(total as nat),
{
    let e = Seq::<char>::empty();
    let a = info + "Finished"@ + " processing request in "@ + seconds + " seconds"@;
    assert(a + e + e =~= a);
    let b = a + (" ("@ + speed + " KB/s)"@);
    assert(b + e =~= a + " ("@ + speed + " KB/s)"@);
    let d = info + "Aborted"@ + " processing request in "@ + seconds + " seconds"@;
    let o = crate::number::decimal(offset as nat);
    let t = crate::number::decimal(total as nat);
    assert(d + e + (" offset="@ + o + " expected="@ + t) =~= d + " offset="@ + o + " expected="@ + t);
}

/// What fails inside the server is answered with the status 500 and says so.
pub proof fn failures_are_answered()
    ensures
        crate::server::response::internal_error_answer().status == 500,
        crate::server::response::internal_error_answer().body == BodyView::Text(
            "Internal Server Error"@,
        ),
{
}

/// A count of bytes is what it is unless it is too large for its type.
pub proof fn counts_are_kept(n: nat)
    ensures
        crate::server::response::capped(n) <= n,
        n < 0x1_0000_0000_0000_0000 ==> crate::server::response::capped(n) == n,
{
}

/// Sending a part of a body moves its place and nothing else.
pub proof fn bodies_stay_the_same(a: StreamingBody, b: StreamingBody)
    requires
        a.same_but_place(&b),
    ensures
        a.source == b.source,
        a.total_size == b.total_size,
        a.limited == b.limited,
        a.data@ == b.data@,
        a.expected_hash@ == b.expected_hash@,
        a.to_delete == b.to_delete,
{
}

/// The last line of an incomplete answer says why, and how far it came.
pub proof fn incomplete_lines_say_why(
    info: Seq<char>,
    seconds: Seq<char>,
    speed: Seq<char>,
    ms: u64,
    c: AccessLogCompletion,
)
    requires
        c is Incomplete,
        ms < 10,
    ensures
        crate::server::access_log::completion_text(info, seconds, ms, speed, c) == info + "Incomplete"@
            + " processing request in "@ + seconds + " seconds"@ + " reason="@ + c->reason@ + " offset="@
            + crate::number::decimal(c->Incomplete_offset as nat) + " expected="@ + crate::number::decimal(
            c->Incomplete_total_size as nat,
        ),
{
    let e = Seq::<char>::empty();
    let a = info + "Incomplete"@ + " processing request in "@ + seconds + " seconds"@;
    let r = " reason="@ + c->reason@;
    let o = crate::number::decimal(c->Incomplete_offset as nat);
    let t = crate::number::decimal(c->Incomplete_total_size as nat);
    assert(a + e + (r + " offset="@ + o + " expected="@ + t) =~= a + " reason="@ + c->reason@
        + " offset="@ + o + " expected="@ + t);
}

} // verus!
