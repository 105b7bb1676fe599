//! What requests ask for, from how their targets are written.

use vstd::prelude::*;
use crate::config::ConfigView;
use crate::ip::IpView;
use crate::server::request::RequestView;

verus! {

/// A part of a target: it holds no slash and no percent sign.
pub open spec fn is_part(s: Seq<char>) -> bool {
    !s.contains('/') && !s.contains('%')
}

/// A target of those parts, each with a slash in front.
pub open spec fn target_of(parts: Seq<Seq<char>>) -> Seq<char>
    decreases parts.len(),
{
    if parts.len() == 0 {
        seq![]
    } else {
        target_of(parts.drop_last()) + seq!['/'] + parts.last()
    }
}

proof fn lemma_target_joins(parts: Seq<Seq<char>>)
    ensures
        target_of(parts) == crate::text::join(seq![Seq::<char>::empty()] + parts, seq!['/']),
    decreases parts.len(),
{
    let e = seq![Seq::<char>::empty()];
    let all = e + parts;
    if parts.len() == 0 {
        assert(all =~= e);
        assert(crate::text::join(all, seq!['/']) =~= seq![]);
    } else {
        lemma_target_joins(parts.drop_last());
        assert(all.drop_last() =~= e + parts.drop_last());
        assert(all.last() == parts.last());
    }
}

proof fn lemma_target_chars(parts: Seq<Seq<char>>)
    requires
        forall|i: int| 0 <= i < parts.len() ==> is_part(#[trigger] parts[i]),
    ensures
        !target_of(parts).contains('%'),
        parts.len() > 0 ==> target_of(parts).len() > 0 && target_of(parts)[0] == '/',
    decreases parts.len(),
{
    if parts.len() > 0 {
        let less = parts.drop_last();
        assert forall|i: int| 0 <= i < less.len() implies is_part(#[trigger] less[i]) by {
            assert(less[i] == parts[i]);
        }
        lemma_target_chars(less);
        let b = target_of(less);
        let t = target_of(parts);
        assert(is_part(parts[parts.len() - 1]));
        assert forall|j: int| 0 <= j < t.len() implies t[j] != '%' by {
            if j < b.len() {
                assert(b.contains(b[j]));
            } else if j > b.len() {
                assert(parts.last().contains(parts.last()[j - b.len() - 1]));
            }
        }
        if less.len() == 0 {
            assert(b.len() == 0);
        }
    }
}

/// The parts of a target are those that it was written from, behind an empty one; so it is
/// where a scheme and a host stand in front.
pub proof fn written_targets_are_read(parts: Seq<Seq<char>>, host: Seq<char>)
    requires
        parts.len() > 0,
        forall|i: int| 0 <= i < parts.len() ==> is_part(#[trigger] parts[i]),
        !host.contains('/'),
    ensures
        crate::server::request::target_parts(target_of(parts)) == seq![Seq::<char>::empty()] + parts,
        crate::server::request::target_parts(
            seq!['h', 't', 't', 'p', ':', '/', '/'] + host + target_of(parts),
        ) == seq![Seq::<char>::empty()] + parts,
{
    let t = target_of(parts);
    let all = seq![Seq::<char>::empty()] + parts;
    lemma_target_joins(parts);
    lemma_target_chars(parts);
    reveal_strlit("http://");
    reveal_strlit("%3d");
    assert("%3d"@[0] == '%');
    assert forall|i: int| 0 <= i < all.len() implies !(#[trigger] all[i]).contains('/') by {
        if i > 0 {
            assert(all[i] == parts[i - 1]);
            assert(is_part(parts[i - 1]));
        }
    }
    crate::text::lemma_split_of_joined(all, '/');
    crate::text::lemma_replace_nothing(t, "%3d"@, "="@);
    if "http://"@.is_prefix_of(t) {
        assert(t.subrange(0, 7)[0] == "http://"@[0]);
    }
    let scheme = seq!['h', 't', 't', 'p', ':', '/', '/'];
    assert("http://"@ =~= scheme);
    let s = scheme + host + t;
    assert(s.subrange(0, 7) =~= scheme);
    let rest = s.skip(7);
    assert(rest =~= host + t);
    assert forall|j: int| 0 <= j < host.len() implies rest[j] != '/' by {
        assert(rest[j] == host[j]);
        assert(host.contains(host[j]));
    }
    crate::text::lemma_index_is(rest, '/', host.len() as int);
    assert(rest.skip(host.len() as int) =~= t);
}

proof fn lemma_get()
    ensures
        crate::text::upper("GET"@) == "GET"@,
        crate::text::upper("HEAD"@) == "HEAD"@,
        crate::text::ascii_lower("GET"@) != crate::text::ascii_lower("HEAD"@),
{
    reveal_strlit("GET");
    reveal_strlit("HEAD");
    assert(vstd::utf8::is_ascii_chars("GET"@));
    assert(vstd::utf8::is_ascii_chars("HEAD"@));
    assert(crate::text::ascii_upper("GET"@) =~= "GET"@);
    assert(crate::text::ascii_upper("HEAD"@) =~= "HEAD"@);
    assert(crate::text::ascii_lower("GET"@).len() == 3);
    assert(crate::text::ascii_lower("HEAD"@).len() == 4);
}

/// A target of `h`, a file's ID and a segment of additional fields, with or without more behind
/// them, asks for that file with those fields; with the method HEAD, for its head alone. Its key
/// is the one that the fields give.
pub proof fn file_targets_are_read(
    fileid: Seq<char>,
    additional: Seq<char>,
    more: Seq<Seq<char>>,
    ip: IpView,
    c: ConfigView,
    now: i64,
)
    requires
        is_part(fileid),
        is_part(additional),
        forall|i: int| 0 <= i < more.len() ==> is_part(#[trigger] more[i]),
    ensures
        ({
            let target = target_of(seq![seq!['h'], fileid, additional] + more);
            let file = crate::hvfile::file_of(fileid);
            let valid = crate::server::request::is_keystamp(
                fileid,
                crate::utils::additional_value(additional, "keystamp"@),
                c.client_key,
                now,
            );
            &&& crate::server::request::request_of("GET"@, target, ip, c, now) == RequestView::FileServe(
                fileid,
                file,
                additional,
                valid,
                false,
            )
            &&& crate::server::request::request_of("HEAD"@, target, ip, c, now) == RequestView::FileServe(
                fileid,
                file,
                additional,
                valid,
                true,
            )
        }),
{
    let parts = seq![seq!['h'], fileid, additional] + more;
    lemma_get();
    reveal_strlit("h");
    assert("h"@ =~= seq!['h']);
    assert forall|i: int| 0 <= i < parts.len() implies is_part(#[trigger] parts[i]) by {
        if i >= 3 {
            assert(parts[i] == more[i - 3]);
        }
    }
    written_targets_are_read(parts, seq![]);
}

/// A target of `servercmd`, a command, a segment of additional fields, a time and a key is that
/// command, and good only where it comes from a server, its time is at most five minutes away,
/// and its key is the digest of the command, the fields, the client's number, the time and the
/// client's key, with hyphens between them behind a fixed beginning.
pub proof fn command_targets_are_read(
    command: Seq<char>,
    additional: Seq<char>,
    time: u64,
    key: Seq<char>,
    ip: IpView,
    c: ConfigView,
    now: i64,
)
    requires
        is_part(command),
        is_part(additional),
        is_part(key),
        time <= i64::MAX,
        now >= 0,
    ensures
        ({
            let t = crate::number::decimal(time as nat);
            let target = target_of(seq!["servercmd"@, command, additional, t, key]);
            let signed = vstd::utf8::encode_utf8("hentai@home-servercmd-"@) + vstd::utf8::encode_utf8(command)
                + seq![45u8] + vstd::utf8::encode_utf8(additional) + seq![45u8] + vstd::utf8::encode_utf8(
                crate::number::decimal(c.client_id as nat),
            ) + seq![45u8] + vstd::utf8::encode_utf8(t) + seq![45u8] + vstd::utf8::encode_utf8(c.client_key);
            let valid = (c.disable_ip_origin_check || c.rpc_servers.contains(ip)) && -300 <= time - now
                <= 300 && key == crate::utils::hex_text(crate::utils::sha1_digest(signed));
            crate::server::request::request_of("GET"@, target, ip, c, now) == RequestView::ServerCommand(
                command,
                additional,
                valid,
            )
        }),
{
    let t = crate::number::decimal(time as nat);
    let parts = seq!["servercmd"@, command, additional, t, key];
    lemma_get();
    lemma_time_part(time as nat);
    reveal_strlit("servercmd");
    reveal_strlit("h");
    assert("servercmd"@.len() == 9 && "h"@.len() == 1);
    assert forall|i: int| 0 <= i < parts.len() implies is_part(#[trigger] parts[i]) by {}
    written_targets_are_read(parts, seq![]);
    crate::number::lemma_parse_signed_decimal(time as int);
    let id = crate::number::decimal(c.client_id as nat);
    lemma_nine("hentai@home-servercmd-"@, command, additional, id, t, c.client_key);
}

proof fn lemma_hyphen()
    ensures
        vstd::utf8::encode_utf8("-"@) == seq![45u8],
{
    reveal_strlit("-");
    assert("-"@ =~= seq!['-']);
    vstd::utf8::is_ascii_chars_encode_utf8("-"@);
    assert(vstd::utf8::encode_utf8("-"@) =~= seq![45u8]);
}

proof fn lemma_time_part(n: nat)
    ensures
        is_part(crate::number::decimal(n)),
{
    crate::number::lemma_decimal(n);
    let t = crate::number::decimal(n);
    assert forall|j: int| 0 <= j < t.len() implies t[j] != '/' && t[j] != '%' by {
        assert(crate::number::is_digit(t[j]));
    }
}

proof fn lemma_nine(b: Seq<char>, p: Seq<char>, q: Seq<char>, r: Seq<char>, s: Seq<char>, k: Seq<char>)
    ensures
        vstd::utf8::encode_utf8(b + p + "-"@ + q + "-"@ + r + "-"@ + s + "-"@ + k)
            == vstd::utf8::encode_utf8(b) + vstd::utf8::encode_utf8(p) + seq![45u8]
            + vstd::utf8::encode_utf8(q) + seq![45u8] + vstd::utf8::encode_utf8(r) + seq![45u8]
            + vstd::utf8::encode_utf8(s) + seq![45u8] + vstd::utf8::encode_utf8(k),
{
    lemma_hyphen();
    let h = "-"@;
    crate::text::lemma_utf8_of_sum(b, p);
    crate::text::lemma_utf8_of_sum(b + p, h);
    crate::text::lemma_utf8_of_sum(b + p + h, q);
    crate::text::lemma_utf8_of_sum(b + p + h + q, h);
    crate::text::lemma_utf8_of_sum(b + p + h + q + h, r);
    crate::text::lemma_utf8_of_sum(b + p + h + q + h + r, h);
    crate::text::lemma_utf8_of_sum(b + p + h + q + h + r + h, s);
    crate::text::lemma_utf8_of_sum(b + p + h + q + h + r + h + s, h);
    crate::text::lemma_utf8_of_sum(b + p + h + q + h + r + h + s + h, k);
}

/// A target of `t`, a size, a time and a key is a speed test of that size, and good only where
/// its time is at most five minutes away and its key is the digest of the size, the time, the
/// client's number and the client's key, with hyphens between them behind a fixed beginning.
pub proof fn speed_test_targets_are_read(
    size: u32,
    time: u64,
    key: Seq<char>,
    ip: IpView,
    c: ConfigView,
    now: i64,
)
    requires
        is_part(key),
        time <= i64::MAX,
        now >= 0,
    ensures
        ({
            let n = crate::number::decimal(size as nat);
            let t = crate::number::decimal(time as nat);
            let target = target_of(seq![seq!['t'], n, t, key]);
            let signed = vstd::utf8::encode_utf8("hentai@home-speedtest-"@) + vstd::utf8::encode_utf8(n)
                + seq![45u8] + vstd::utf8::encode_utf8(t) + seq![45u8] + vstd::utf8::encode_utf8(
                crate::number::decimal(c.client_id as nat),
            ) + seq![45u8] + vstd::utf8::encode_utf8(c.client_key);
            let valid = -300 <= time - now <= 300 && key == crate::utils::hex_text(
                crate::utils::sha1_digest(signed),
            );
            &&& crate::server::request::request_of("GET"@, target, ip, c, now) == RequestView::SpeedTest(
                size,
                valid,
                !valid,
                false,
            )
            &&& crate::server::request::request_of("HEAD"@, target, ip, c, now) == RequestView::SpeedTest(
                size,
                valid,
                !valid,
                true,
            )
        }),
{
    let n = crate::number::decimal(size as nat);
    let t = crate::number::decimal(time as nat);
    let parts = seq![seq!['t'], n, t, key];
    lemma_get();
    lemma_time_part(size as nat);
    lemma_time_part(time as nat);
    reveal_strlit("servercmd");
    reveal_strlit("h");
    reveal_strlit("t");
    assert("t"@ =~= seq!['t']);
    assert("h"@[0] == 'h');
    assert forall|i: int| 0 <= i < parts.len() implies is_part(#[trigger] parts[i]) by {}
    written_targets_are_read(parts, seq![]);
    crate::number::lemma_parse_signed_decimal(time as int);
    crate::number::lemma_parse_decimal(size as nat, u32::MAX as nat);
    let id = crate::number::decimal(c.client_id as nat);
    let h = "-"@;
    let b = "hentai@home-speedtest-"@;
    lemma_hyphen();
    crate::text::lemma_utf8_of_sum(b, n);
    crate::text::lemma_utf8_of_sum(b + n, h);
    crate::text::lemma_utf8_of_sum(b + n + h, t);
    crate::text::lemma_utf8_of_sum(b + n + h + t, h);
    crate::text::lemma_utf8_of_sum(b + n + h + t + h, id);
    crate::text::lemma_utf8_of_sum(b + n + h + t + h + id, h);
    crate::text::lemma_utf8_of_sum(b + n + h + t + h + id + h, c.client_key);
}

/// The icon and the rules for robots have targets of their own; any other target of one part is
/// not found.
pub proof fn small_targets_are_read(part: Seq<char>, ip: IpView, c: ConfigView, now: i64)
    requires
        is_part(part),
        part != seq!['h'],
        part != seq!['t'],
        part != "servercmd"@,
    ensures
        crate::server::request::request_of("GET"@, target_of(seq![part]), ip, c, now) == (if part
            == "favicon.ico"@ {
            RequestView::Favicon
        } else if part == "robots.txt"@ {
            RequestView::Robots
        } else {
            RequestView::NotFound
        }),
{
    lemma_get();
    reveal_strlit("h");
    reveal_strlit("t");
    assert("h"@ =~= seq!['h']);
    assert("t"@ =~= seq!['t']);
    let e = Seq::<char>::empty();
    written_targets_are_read(seq![part], e);
    assert((seq![e] + seq![part])[1] == part);
}

/// A target of two or more parts that begins with none of the three known ones is not found.
pub proof fn other_targets_are_not_found(parts: Seq<Seq<char>>, ip: IpView, c: ConfigView, now: i64)
    requires
        parts.len() >= 2,
        forall|i: int| 0 <= i < parts.len() ==> is_part(#[trigger] parts[i]),
        parts[0] != seq!['h'],
        parts[0] != seq!['t'],
        parts[0] != "servercmd"@,
    ensures
        crate::server::request::request_of("GET"@, target_of(parts), ip, c, now) is NotFound,
{
    lemma_get();
    reveal_strlit("h");
    reveal_strlit("t");
    assert("h"@ =~= seq!['h']);
    assert("t"@ =~= seq!['t']);
    let e = Seq::<char>::empty();
    written_targets_are_read(parts, e);
    assert((seq![e] + parts)[1] == parts[0]);
}

/// A target for a file that is cut short is a bad request; a command and a speed test that are
/// cut short are not good, but the test's key is not refused.
pub proof fn short_targets_are_refused(parts: Seq<Seq<char>>, ip: IpView, c: ConfigView, now: i64)
    requires
        0 < parts.len() < 5,
        forall|i: int| 0 <= i < parts.len() ==> is_part(#[trigger] parts[i]),
    ensures
        ({
            let r = crate::server::request::request_of("GET"@, target_of(parts), ip, c, now);
            &&& parts[0] == seq!['h'] && parts.len() < 3 ==> r is BadRequest
            &&& parts[0] == "servercmd"@ ==> (r matches RequestView::ServerCommand(_, _, valid) && !valid)
            &&& parts[0] == seq!['t'] && parts.len() < 4 ==> r == RequestView::SpeedTest(
                0,
                false,
                false,
                false,
            )
        }),
{
    lemma_get();
    reveal_strlit("h");
    reveal_strlit("t");
    reveal_strlit("servercmd");
    assert("h"@ =~= seq!['h']);
    assert("t"@ =~= seq!['t']);
    assert("servercmd"@.len() == 9);
    assert("h"@[0] == 'h' && "t"@[0] == 't');
    let e = Seq::<char>::empty();
    written_targets_are_read(parts, e);
    assert((seq![e] + parts)[1] == parts[0]);
}

/// A request by a method of capitals other than GET and HEAD is not allowed, whatever its target.
pub proof fn other_methods_are_not_allowed(
    method: Seq<char>,
    target: Seq<char>,
    ip: IpView,
    c: ConfigView,
    now: i64,
)
    requires
        forall|j: int| 0 <= j < method.len() ==> 'A' <= #[trigger] method[j] <= 'Z',
        method != seq!['G', 'E', 'T'],
        method != seq!['H', 'E', 'A', 'D'],
    ensures
        crate::server::request::request_of(method, target, ip, c, now) is MethodNotAllowed,
{
    assert(vstd::utf8::is_ascii_chars(method));
    assert(crate::text::ascii_upper(method) =~= method);
    reveal_strlit("GET");
    reveal_strlit("HEAD");
    assert("GET"@ =~= seq!['G', 'E', 'T']);
    assert("HEAD"@ =~= seq!['H', 'E', 'A', 'D']);
}

/// A keystamp of a time, a hyphen and the first ten digits of the digest of that time, the file's
/// ID and the client's key, with hyphens between them and a fixed end, is good where its time is
/// less than fifteen minutes away, and only there. One with ten other digits is not good.
pub proof fn keystamps_are_checked(
    time: u64,
    fileid: Seq<char>,
    key: Seq<char>,
    digits: Seq<char>,
    now: i64,
)
    requires
        time <= i64::MAX,
        now >= 0,
        digits.len() == 10,
        forall|j: int| 0 <= j < 10 ==> ('0' <= #[trigger] digits[j] <= '9' || 'a' <= digits[j] <= 'f'),
    ensures
        ({
            let t = crate::number::decimal(time as nat);
            let signed = vstd::utf8::encode_utf8(t) + seq![45u8] + vstd::utf8::encode_utf8(fileid)
                + seq![45u8] + vstd::utf8::encode_utf8(key) + vstd::utf8::encode_utf8("-hotlinkthis"@);
            let digest = crate::utils::hex_text(crate::utils::sha1_digest(signed));
            digest.len() >= 10 ==> (crate::server::request::is_keystamp(
                fileid,
                Some(t + seq!['-'] + digits),
                key,
                now,
            ) <==> -900 < time - now < 900 && digits == digest.take(10))
        }),
{
    let t = crate::number::decimal(time as nat);
    let h = "-"@;
    let z = "-hotlinkthis"@;
    lemma_hyphen();
    crate::text::lemma_utf8_of_sum(t, h);
    crate::text::lemma_utf8_of_sum(t + h, fileid);
    crate::text::lemma_utf8_of_sum(t + h + fileid, h);
    crate::text::lemma_utf8_of_sum(t + h + fileid + h, key);
    crate::text::lemma_utf8_of_sum(t + h + fileid + h + key, z);
    crate::number::lemma_parse_signed_decimal(time as int);
    crate::number::lemma_decimal(time as nat);
    assert forall|j: int| 0 <= j < t.len() implies t[j] != '-' by {
        assert(crate::number::is_digit(t[j]));
    }
    assert(!t.contains('-'));
    crate::text::lemma_split_first(t, '-', digits);
    let signed = vstd::utf8::encode_utf8(t) + seq![45u8] + vstd::utf8::encode_utf8(fileid) + seq![45u8]
        + vstd::utf8::encode_utf8(key) + vstd::utf8::encode_utf8(z);
    let digest = crate::utils::hex_text(crate::utils::sha1_digest(signed));
    crate::utils::hex_text_shape(crate::utils::sha1_digest(signed));
    assert(vstd::utf8::is_ascii_chars(digits));
    vstd::utf8::is_ascii_chars_encode_utf8(digits);
    assert(crate::text::ascii_lower(digits) =~= digits);
    assert(digest.len() >= 10 ==> crate::text::ascii_lower(digest.take(10)) =~= digest.take(10)) by {
        if digest.len() >= 10 {
            assert forall|j: int| 0 <= j < 10 implies crate::text::ascii_lower(digest.take(10))[j]
                == digest.take(10)[j] by {
                assert(crate::types::is_lower_hex(digest[j]));
            }
        }
    }
    assert(crate::server::request::keystamp_digest(time as int, fileid, key) == digest);
}

/// A segment of three fields with semicolons between them gives each its value.
pub proof fn additional_fields_are_read(keystamp: Seq<char>, index: Seq<char>, xres: Seq<char>)
    requires
        crate::text::is_word(keystamp),
        crate::text::is_word(index),
        crate::text::is_word(xres),
        !keystamp.contains(';'),
        !index.contains(';'),
        !xres.contains(';'),
    ensures
        ({
            let s = "keystamp="@ + keystamp + seq![';'] + "fileindex="@ + index + seq![';'] + "xres="@ + xres;
            &&& crate::utils::additional_value(s, "keystamp"@) == Some(keystamp)
            &&& crate::utils::additional_value(s, "fileindex"@) == Some(index)
            &&& crate::utils::additional_value(s, "xres"@) == Some(xres)
        }),
{
    let s = "keystamp="@ + keystamp + seq![';'] + "fileindex="@ + index + seq![';'] + "xres="@ + xres;
    reveal_strlit("keystamp=");
    reveal_strlit("fileindex=");
    reveal_strlit("xres=");
    reveal_strlit("keystamp");
    reveal_strlit("fileindex");
    reveal_strlit("xres");
    let a = "keystamp="@ + keystamp;
    let b = "fileindex="@ + index;
    let d = "xres="@ + xres;
    let pieces = seq![a, b, d];
    lemma_field("keystamp"@, keystamp);
    lemma_field("fileindex"@, index);
    lemma_field("xres"@, xres);
    assert("keystamp"@ + seq!['='] + keystamp =~= a);
    assert("fileindex"@ + seq!['='] + index =~= b);
    assert("xres"@ + seq!['='] + xres =~= d);
    crate::text::lemma_split_first(a, ';', b + seq![';'] + d);
    crate::text::lemma_split_first(b, ';', d);
    crate::text::lemma_split_single(d, ';');
    assert(s =~= a + seq![';'] + (b + seq![';'] + d));
    assert(seq![a] + (seq![b] + seq![d]) =~= pieces);
    assert(s[0] == 'k');
    assert(s.last() == xres.last());
    assert(xres[xres.len() - 1] == xres.last());
    crate::text::lemma_trim_kept(s);
    assert(crate::text::split(crate::text::trim(s), ';') == pieces);
    assert(pieces.drop_last() =~= seq![a, b]);
    assert(seq![a, b].drop_last() =~= seq![a]);
    assert(seq![a].drop_last() =~= seq![]);
    assert("keystamp"@.len() == 8 && "fileindex"@.len() == 9 && "xres"@.len() == 4);
    reveal_with_fuel(crate::utils::value_in, 4);
}

proof fn lemma_field(key: Seq<char>, value: Seq<char>)
    requires
        crate::text::is_word(key),
        crate::text::is_word(value),
        key.len() >= 2,
        !key.contains('='),
        !key.contains(';'),
        !value.contains(';'),
    ensures
        crate::utils::pair_of(key + seq!['='] + value) == Some((key, value)),
        !(key + seq!['='] + value).contains(';'),
{
    let p = key + seq!['='] + value;
    crate::text::lemma_split_first(key, '=', value);
    assert(key[key.len() - 1] == key.last());
    assert(value[value.len() - 1] == value.last());
    crate::text::lemma_trim_kept(key);
    crate::text::lemma_trim_kept(value);
    lemma_bytes_at_least(p);
    assert forall|j: int| 0 <= j < p.len() implies p[j] != ';' by {
        if j < key.len() {
            assert(key.contains(key[j]));
        } else if j > key.len() {
            assert(value.contains(value[j - key.len() - 1]));
        }
    }
}

proof fn lemma_bytes_at_least(s: Seq<char>)
    ensures
        vstd::utf8::encode_utf8(s).len() >= s.len(),
    decreases s.len(),
{
    if s.len() > 0 {
        lemma_bytes_at_least(s.drop_first());
    }
}

/// Fields with semicolons between them, each with its key, an equals sign and its value.
pub open spec fn segment_of(keys: Seq<Seq<char>>, values: Seq<Seq<char>>) -> Seq<char> {
    crate::text::join(Seq::new(keys.len(), |i: int| keys[i] + seq!['='] + values[i]), seq![';'])
}

/// The key and the value of a field can be read back: neither is empty, neither holds white space
/// or a semicolon, and the key, of at least two characters, holds no equals sign.
pub open spec fn is_field(key: Seq<char>, value: Seq<char>) -> bool {
    &&& crate::text::is_word(key)
    &&& crate::text::is_word(value)
    &&& key.len() >= 2
    &&& !key.contains('=')
    &&& !key.contains(';')
    &&& !value.contains(';')
}

/// A segment of fields gives the last field with a key its value, and none to a key that no
/// field has.
pub proof fn segments_are_read(keys: Seq<Seq<char>>, values: Seq<Seq<char>>, i: int, other: Seq<char>)
    requires
        keys.len() == values.len(),
        0 <= i < keys.len(),
        forall|j: int| 0 <= j < keys.len() ==> is_field(#[trigger] keys[j], values[j]),
        forall|j: int| i < j < keys.len() ==> #[trigger] keys[j] != keys[i],
        !keys.contains(other),
    ensures
        crate::utils::additional_value(segment_of(keys, values), keys[i]) == Some(values[i]),
        crate::utils::additional_value(segment_of(keys, values), other) is None,
{
    let pieces = Seq::new(keys.len(), |j: int| keys[j] + seq!['='] + values[j]);
    let s = segment_of(keys, values);
    assert forall|j: int| 0 <= j < pieces.len() implies !(#[trigger] pieces[j]).contains(';') by {
        assert(is_field(keys[j], values[j]));
        lemma_field(keys[j], values[j]);
    }
    crate::text::lemma_split_of_joined(pieces, ';');
    assert(is_field(keys[0], values[0]));
    let n = keys.len() - 1;
    assert(is_field(keys[n], values[n]));
    lemma_join_ends(pieces, seq![';']);
    assert(pieces[0][0] == keys[0][0]);
    assert(pieces[n].last() == values[n].last());
    assert(values[n][values[n].len() - 1] == values[n].last());
    crate::text::lemma_trim_kept(s);
    lemma_value_in(keys, values, keys.len() as int, i, other);
    assert(pieces.take(keys.len() as int) =~= pieces);
}

proof fn lemma_join_ends(parts: Seq<Seq<char>>, separator: Seq<char>)
    requires
        parts.len() > 0,
        parts[0].len() > 0,
        parts.last().len() > 0,
    ensures
        crate::text::join(parts, separator).len() > 0,
        crate::text::join(parts, separator)[0] == parts[0][0],
        crate::text::join(parts, separator).last() == parts.last().last(),
    decreases parts.len(),
{
    if parts.len() > 1 {
        let less = parts.drop_last();
        lemma_join_begins(less, separator);
    }
}

proof fn lemma_join_begins(parts: Seq<Seq<char>>, separator: Seq<char>)
    requires
        parts.len() > 0,
        parts[0].len() > 0,
    ensures
        crate::text::join(parts, separator).len() > 0,
        crate::text::join(parts, separator)[0] == parts[0][0],
    decreases parts.len(),
{
    if parts.len() > 1 {
        lemma_join_begins(parts.drop_last(), separator);
    }
}

proof fn lemma_value_in(
    keys: Seq<Seq<char>>,
    values: Seq<Seq<char>>,
    n: int,
    i: int,
    other: Seq<char>,
)
    requires
        keys.len() == values.len(),
        0 <= n <= keys.len(),
        0 <= i < keys.len(),
        forall|j: int| 0 <= j < keys.len() ==> is_field(#[trigger] keys[j], values[j]),
        forall|j: int| i < j < keys.len() ==> #[trigger] keys[j] != keys[i],
        !keys.contains(other),
    ensures
        ({
            let pieces = Seq::new(keys.len(), |j: int| keys[j] + seq!['='] + values[j]).take(n);
            &&& i < n ==> crate::utils::value_in(pieces, keys[i]) == Some(values[i])
            &&& crate::utils::value_in(pieces, other) is None
        }),
    decreases n,
{
    let all = Seq::new(keys.len(), |j: int| keys[j] + seq!['='] + values[j]);
    if n > 0 {
        lemma_value_in(keys, values, n - 1, i, other);
        assert(all.take(n).drop_last() =~= all.take(n - 1));
        assert(all.take(n).last() == all[n - 1]);
        assert(is_field(keys[n - 1], values[n - 1]));
        lemma_field(keys[n - 1], values[n - 1]);
        assert(keys.contains(keys[n - 1]));
        if i < n - 1 {
            assert(keys[n - 1] != keys[i]);
        }
    }
}

/// A number in decimal is the value of a field.
proof fn lemma_number_field(n: nat)
    ensures
        crate::text::is_word(crate::number::decimal(n)),
        !crate::number::decimal(n).contains(';'),
{
    crate::number::lemma_decimal(n);
    let t = crate::number::decimal(n);
    assert forall|j: int| 0 <= j < t.len() implies !crate::text::is_space(#[trigger] t[j]) && t[j] != ';' by {
        assert(crate::number::is_digit(t[j]));
    }
}

spec fn test_keys() -> Seq<Seq<char>> {
    seq!["hostname"@, "protocol"@, "port"@, "testsize"@, "testcount"@, "testtime"@, "testkey"@]
}

proof fn lemma_test_keys()
    ensures
        forall|i: int| 0 <= i < 7 ==> crate::text::is_word(#[trigger] test_keys()[i]),
        forall|i: int|
            0 <= i < 7 ==> (#[trigger] test_keys()[i]).len() >= 2 && !test_keys()[i].contains('=')
                && !test_keys()[i].contains(';'),
        test_keys().no_duplicates(),
        !test_keys().contains(seq![]),
{
    reveal_strlit("hostname");
    reveal_strlit("protocol");
    reveal_strlit("port");
    reveal_strlit("testsize");
    reveal_strlit("testcount");
    reveal_strlit("testtime");
    reveal_strlit("testkey");
    let k = test_keys();
    assert(k[0].len() == 8 && k[0][0] == 'h');
    assert(k[1].len() == 8 && k[1][0] == 'p');
    assert(k[2].len() == 4);
    assert(k[3].len() == 8 && k[3][0] == 't' && k[3][4] == 's');
    assert(k[4].len() == 9);
    assert(k[5].len() == 8 && k[5][0] == 't' && k[5][4] == 't');
    assert(k[6].len() == 7);
}

/// A command for a speed test against another server with a host, a protocol, a port, a size, a
/// number of tests, a time and a key in its fields is that test.
pub proof fn proxy_tests_are_read(
    host: Seq<char>,
    protocol: Seq<char>,
    port: u16,
    size: u64,
    count: u32,
    time: u32,
    key: Seq<char>,
)
    requires
        crate::text::is_word(host),
        crate::text::is_word(protocol),
        crate::text::is_word(key),
        !host.contains(';'),
        !protocol.contains(';'),
        !key.contains(';'),
    ensures
        crate::server::handler::command_step(
            "threaded_proxy_test"@,
            segment_of(
                seq!["hostname"@, "protocol"@, "port"@, "testsize"@, "testcount"@, "testtime"@, "testkey"@],
                seq![
                    host,
                    protocol,
                    crate::number::decimal(port as nat),
                    crate::number::decimal(size as nat),
                    crate::number::decimal(count as nat),
                    crate::number::decimal(time as nat),
                    key,
                ],
            ),
        ) == crate::server::handler::CommandView::ThreadedProxyTest(
            host,
            protocol,
            port,
            size,
            count,
            time,
            key,
        ),
{
    let keys = test_keys();
    let values = seq![
        host,
        protocol,
        crate::number::decimal(port as nat),
        crate::number::decimal(size as nat),
        crate::number::decimal(count as nat),
        crate::number::decimal(time as nat),
        key,
    ];
    lemma_test_keys();
    lemma_number_field(port as nat);
    lemma_number_field(size as nat);
    lemma_number_field(count as nat);
    lemma_number_field(time as nat);
    assert forall|j: int| 0 <= j < keys.len() implies is_field(#[trigger] keys[j], values[j]) by {}
    segments_are_read(keys, values, 0, seq![]);
    segments_are_read(keys, values, 1, seq![]);
    segments_are_read(keys, values, 2, seq![]);
    segments_are_read(keys, values, 3, seq![]);
    segments_are_read(keys, values, 4, seq![]);
    segments_are_read(keys, values, 5, seq![]);
    segments_are_read(keys, values, 6, seq![]);
    crate::number::lemma_parse_decimal(port as nat, u16::MAX as nat);
    crate::number::lemma_parse_decimal(size as nat, u64::MAX as nat);
    crate::number::lemma_parse_decimal(count as nat, u32::MAX as nat);
    crate::number::lemma_parse_decimal(time as nat, u32::MAX as nat);
    reveal_strlit("threaded_proxy_test");
    reveal_strlit("still_alive");
    assert("still_alive"@.len() == 11 && "threaded_proxy_test"@.len() == 19);
}

/// A command for a speed test against another server that lacks one of the six fields which it
/// needs is invalid.
pub proof fn incomplete_proxy_tests_are_invalid(
    keys: Seq<Seq<char>>,
    values: Seq<Seq<char>>,
    missing: Seq<char>,
)
    requires
        keys.len() == values.len(),
        keys.len() > 0,
        forall|j: int| 0 <= j < keys.len() ==> is_field(#[trigger] keys[j], values[j]),
        missing == "hostname"@ || missing == "protocol"@ || missing == "port"@ || missing == "testsize"@
            || missing == "testcount"@ || missing == "testtime"@,
        !keys.contains(missing),
    ensures
        crate::server::handler::command_step("threaded_proxy_test"@, segment_of(keys, values))
            == crate::server::handler::CommandView::Answer(
            crate::server::response::text_answer(200, "INVALID_COMMAND"@),
        ),
{
    segments_are_read(keys, values, keys.len() - 1, missing);
    reveal_strlit("threaded_proxy_test");
    reveal_strlit("still_alive");
    assert("still_alive"@.len() == 11 && "threaded_proxy_test"@.len() == 19);
}

/// A command for a speed test of this client is answered with as many bytes as its field says,
/// and with a million where it has no such field.
pub proof fn speed_tests_have_their_size(n: u32)
    ensures
        crate::server::handler::command_step(
            "speed_test"@,
            segment_of(seq!["testsize"@], seq![crate::number::decimal(n as nat)]),
        ) matches crate::server::handler::CommandView::Answer(a) && a.status == 200 && a.declared_length == n
            && a.body == crate::server::response::BodyView::Random(n as usize),
        crate::server::handler::command_step("speed_test"@, seq![]) matches
            crate::server::handler::CommandView::Answer(a) && a.status == 200 && a.declared_length
            == 1_000_000,
{
    let keys = seq!["testsize"@];
    let values = seq![crate::number::decimal(n as nat)];
    lemma_number_field(n as nat);
    reveal_strlit("testsize");
    assert forall|j: int| 0 <= j < keys.len() implies is_field(#[trigger] keys[j], values[j]) by {}
    assert("testsize"@.len() == 8);
    segments_are_read(keys, values, 0, seq![]);
    crate::number::lemma_parse_decimal(n as nat, usize::MAX as nat);
    reveal_strlit("speed_test");
    reveal_strlit("still_alive");
    reveal_strlit("threaded_proxy_test");
    assert("speed_test"@.len() == 10 && "still_alive"@.len() == 11 && "threaded_proxy_test"@.len() == 19);
    let e = Seq::<char>::empty();
    crate::text::lemma_trim_kept(e);
    crate::text::lemma_split_single(e, ';');
    assert(vstd::utf8::encode_utf8(e) =~= seq![]);
    assert(seq![e].drop_last() =~= seq![]);
    reveal_with_fuel(crate::utils::value_in, 2);
}

/// The other commands are known by their names; any other word is an invalid command.
pub proof fn commands_are_known(word: Seq<char>, add: Seq<char>)
    ensures
        crate::server::handler::command_step("refresh_settings"@, add) is RefreshSettings,
        crate::server::handler::command_step("start_downloader"@, add) is StartDownloader,
        crate::server::handler::command_step("refresh_certs"@, add) is RefreshCerts,
        crate::server::handler::command_step("still_alive"@, add)
            == crate::server::handler::CommandView::Answer(
            crate::server::response::text_answer(200, "I feel FANTASTIC and I'm still alive"@),
        ),
        word != "refresh_settings"@ && word != "start_downloader"@ && word != "refresh_certs"@ && word
            != "still_alive"@ && word != "speed_test"@ && word != "threaded_proxy_test"@
            ==> crate::server::handler::command_step(word, add)
            == crate::server::handler::CommandView::Answer(
            crate::server::response::text_answer(200, "INVALID_COMMAND"@),
        ),
{
    reveal_strlit("refresh_settings");
    reveal_strlit("start_downloader");
    reveal_strlit("refresh_certs");
    reveal_strlit("still_alive");
    reveal_strlit("speed_test");
    reveal_strlit("threaded_proxy_test");
    assert("refresh_settings"@.len() == 16 && "refresh_settings"@[0] == 'r');
    assert("start_downloader"@.len() == 16 && "start_downloader"@[0] == 's');
    assert("refresh_certs"@.len() == 13);
    assert("speed_test"@.len() == 10 && "still_alive"@.len() == 11 && "threaded_proxy_test"@.len() == 19);
}

/// What a request holds is what its target says: the file, the command or the test, and whether its
/// key fits.
pub proof fn requests_hold_what_is_asked(r: crate::server::request::RequestType, v: RequestView)
    requires
        crate::server::request::is_request(r, v),
    ensures
        v matches RequestView::FileServe(id, file, segment, valid, head) ==> {
            &&& r is FileServe
            &&& r->FileServe_fileid@ == id
            &&& r->hv_file is Some <==> file is Some
            &&& r->hv_file is Some ==> r->hv_file->0@ == file->0
            &&& r->keystamp_valid == valid
            &&& r->FileServe_head_only == head
        },
        v matches RequestView::ServerCommand(c, a, valid) ==> {
            &&& r is ServerCommand
            &&& r->command@ == c
            &&& r->ServerCommand_additional@ == a
            &&& r->ServerCommand_valid == valid
        },
        v matches RequestView::SpeedTest(size, valid, forbidden, head) ==> {
            &&& r is SpeedTest
            &&& r->testsize == size
            &&& r->SpeedTest_valid == valid
            &&& r->forbidden == forbidden
            &&& r->SpeedTest_head_only == head
        },
        v is Favicon <==> r is Favicon,
        v is Robots <==> r is Robots,
        v is NotFound <==> r is NotFound,
        v is BadRequest <==> r is BadRequest,
        v is MethodNotAllowed <==> r is MethodNotAllowed,
{
}

/// Each additional field holds the value that stands behind its own name.
pub proof fn fields_hold_their_values(a: crate::utils::Additional, pieces: Seq<Seq<char>>)
    requires
        a.holds(pieces),
    ensures
        crate::text::opt_text(a.keystamp) == crate::utils::value_in(pieces, "keystamp"@),
        crate::text::opt_text(a.fileindex) == crate::utils::value_in(pieces, "fileindex"@),
        crate::text::opt_text(a.xres) == crate::utils::value_in(pieces, "xres"@),
        crate::text::opt_text(a.hostname) == crate::utils::value_in(pieces, "hostname"@),
        crate::text::opt_text(a.protocol) == crate::utils::value_in(pieces, "protocol"@),
        crate::text::opt_text(a.port) == crate::utils::value_in(pieces, "port"@),
        crate::text::opt_text(a.testsize) == crate::utils::value_in(pieces, "testsize"@),
        crate::text::opt_text(a.testcount) == crate::utils::value_in(pieces, "testcount"@),
        crate::text::opt_text(a.testtime) == crate::utils::value_in(pieces, "testtime"@),
        crate::text::opt_text(a.testkey) == crate::utils::value_in(pieces, "testkey"@),
{
}

/// A piece of at most two bytes is no field.
pub proof fn short_pieces_are_no_fields(pieces: Seq<Seq<char>>, piece: Seq<char>, key: Seq<char>)
    requires
        vstd::utf8::encode_utf8(piece).len() <= 2,
    ensures
        crate::utils::value_in(pieces.push(piece), key) == crate::utils::value_in(pieces, key),
{
    assert(pieces.push(piece).drop_last() =~= pieces);
}

/// Of two fields with one name the last one counts, and a field does not touch those with other
/// names.
pub proof fn last_fields_count(
    pieces: Seq<Seq<char>>,
    name: Seq<char>,
    value: Seq<char>,
    other: Seq<char>,
)
    requires
        crate::text::is_word(name),
        crate::text::is_word(value),
        !name.contains('='),
        !name.contains(';'),
        !value.contains(';'),
        name.len() > 1,
        other != name,
    ensures
        crate::utils::value_in(pieces.push(name + seq!['='] + value), name) == Some(value),
        crate::utils::value_in(pieces.push(name + seq!['='] + value), other) == crate::utils::value_in(
            pieces,
            other,
        ),
{
    let piece = name + seq!['='] + value;
    assert(pieces.push(piece).drop_last() =~= pieces);
    lemma_field(name, value);
}

} // verus!
