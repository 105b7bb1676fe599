//! Which answers are downloaded, and what becomes of a download.

use vstd::prelude::*;
use crate::downloader::AttemptErrorView;
use crate::error::ErrorView;
use crate::proxy_downloader::{DownloadFailReason, StepView, TaskPhase, TaskView};

verus! {

/// An answer with the status of success and a declared length is downloaded in that length where
/// it is below two gibibytes, not above the limit if there is one, and, for memory, at most ten
/// mebibytes.
pub proof fn fitting_answers_are_downloaded(
    source: Seq<char>,
    status: u16,
    reason: Option<Seq<char>>,
    n: u64,
    max: Option<u64>,
    in_memory: bool,
)
    requires
        200 <= status <= 299,
        n < 2_147_483_648,
    ensures
        ({
            let r = crate::downloader::accepted_length(source, status, reason, Some(n), max, in_memory);
            if (max is Some && n > max->0) || (in_memory && n > 10 * 1_048_576) {
                r is Err && r->Err_0 is Retryable
            } else {
                r == Ok::<i32, AttemptErrorView>(n as i32)
            }
        }),
{
    assert(n as i32 == n) by (bit_vector)
        requires
            n < 2_147_483_648,
    ;
}

/// An answer without a declared length, or with another status, is not downloaded; it is asked for
/// again unless the status says that there is nothing.
pub proof fn other_answers_are_not_downloaded(
    source: Seq<char>,
    status: u16,
    reason: Option<Seq<char>>,
    declared: Option<u64>,
    max: Option<u64>,
    in_memory: bool,
)
    requires
        declared is None || status < 200 || status >= 300,
    ensures
        ({
            let r = crate::downloader::accepted_length(source, status, reason, declared, max, in_memory);
            &&& r is Err
            &&& r->Err_0 is NotFound <==> status == 404
            &&& status == 404 ==> r->Err_0 == AttemptErrorView::NotFound(
                ErrorView::Network("server returned 404 for "@ + source),
            )
        }),
{
}

/// The answer of a source is taken where its status is 200 and it declares the expected length,
/// which is not above the limit; under no other circumstances.
pub proof fn exact_answers_are_taken(
    status: u16,
    reason: Option<Seq<char>>,
    declared: Option<u64>,
    max: u64,
    expected: u64,
)
    ensures
        crate::proxy_downloader::response_fault(status, reason, declared, max, expected) is None <==> status
            == 200 && declared == Some(expected) && expected <= max,
{
}

/// A download is begun three times at most: a failure behind the first and the second try restarts
/// it, one behind the third ends it, and the reason is kept either way.
pub proof fn downloads_are_begun_three_times(v: TaskView, reason: DownloadFailReason)
    ensures
        ({
            let (w, step) = crate::proxy_downloader::after_failed_attempt(v, reason);
            &&& w.fail_reason == reason
            &&& v.attempt < 2 ==> step == StepView::Restart && w.phase == TaskPhase::Reconnecting
                && w.attempt == v.attempt + 1
            &&& v.attempt >= 2 ==> step == StepView::GiveUp(reason) && w.phase == TaskPhase::Ended
            &&& w.received == v.received && w.downloaded == v.downloaded && w.pending == v.pending
        }),
{
}

/// A whole file is moved to the cache where its digest is the expected one and its ID describes a
/// file, to a directory of the first two digits of its hash and one of the next two; with another
/// digest it is discarded.
pub proof fn files_are_moved_to_their_place(
    v: TaskView,
    digest: Seq<char>,
    file: crate::hvfile::HVFileView,
    expected: Seq<char>,
    dir: Seq<char>,
)
    requires
        crate::hvfile::describable(file),
        dir.len() > 0,
        dir.last() != '/',
    ensures
        ({
            let id = crate::hvfile::fileid_of(file);
            let h = file.hash;
            let (w, step) = crate::proxy_downloader::after_digest(v, digest, id, expected, dir);
            &&& digest == expected ==> w.phase == TaskPhase::Moving && step == StepView::MoveTo(
                dir + seq!['/', h[0], h[1], '/', h[2], h[3], '/'] + id,
            )
            &&& digest != expected ==> w.phase == TaskPhase::Ended && step == StepView::Discard(
                DownloadFailReason::Sha1Mismatch,
            )
        }),
{
    crate::hvfile::fileid_describes_its_file(file);
    cached_files_have_their_place(file, dir);
}

/// A file lies in the cache below a directory of the first two digits of its hash and one of the
/// next two, under its ID.
pub proof fn cached_files_have_their_place(file: crate::hvfile::HVFileView, dir: Seq<char>)
    requires
        crate::types::is_sha1_text(file.hash),
        dir.len() > 0,
        dir.last() != '/',
    ensures
        ({
            let h = file.hash;
            crate::hvfile::cached_at(file, dir) == dir + seq!['/', h[0], h[1], '/', h[2], h[3], '/']
                + crate::hvfile::fileid_of(file)
        }),
{
    let h = file.hash;
    let id = crate::hvfile::fileid_of(file);
    assert(crate::types::is_lower_hex(h[0]) && crate::types::is_lower_hex(h[1]) && crate::types::is_lower_hex(
        h[2],
    ) && crate::types::is_lower_hex(h[3]));
    let a = h.subrange(0, 2);
    let b = h.subrange(2, 4);
    assert(a[0] == h[0] && a[1] == h[1] && b[0] == h[2] && b[1] == h[3]);
    assert(id[0] == h[0]);
    let one = dir + seq!['/'] + a;
    assert(crate::utils::joined(dir, a) == one);
    assert(one.last() == h[1]);
    let two = one + seq!['/'] + b;
    assert(crate::utils::joined(one, b) == two);
    assert(two.last() == h[3]);
    assert(two + seq!['/'] + id =~= dir + seq!['/', h[0], h[1], '/', h[2], h[3], '/'] + id);
}

/// A path with a component behind it has one slash between them, whether or not the path ends in
/// one; a component that begins with a slash stands alone, and an empty path adds nothing.
pub proof fn paths_are_joined(path: Seq<char>, component: Seq<char>)
    requires
        component.len() > 0,
    ensures
        component[0] == '/' ==> crate::utils::joined(path, component) == component,
        component[0] != '/' && path.len() > 0 && path.last() != '/' ==> crate::utils::joined(path, component)
            == path + seq!['/'] + component && crate::utils::joined(path + seq!['/'], component)
            == crate::utils::joined(path, component),
        component[0] != '/' ==> crate::utils::joined(seq![], component) == component,
{
    assert((path + seq!['/']).last() == '/');
    assert(Seq::<char>::empty() + component =~= component);
}

/// A download is kept in the directory for temporary files, under a name with the file's ID and a
/// mark; different marks are different places.
pub proof fn downloads_have_their_own_place(dir: Seq<char>, id: Seq<char>, a: Seq<char>, b: Seq<char>)
    requires
        dir.len() > 0,
        dir.last() != '/',
    ensures
        crate::proxy_downloader::temp_path(dir, id, a) == dir + seq!['/'] + "proxyfile_"@ + id + seq!['_'] + a,
        a != b ==> crate::proxy_downloader::temp_path(dir, id, a) != crate::proxy_downloader::temp_path(
            dir,
            id,
            b,
        ),
{
    reveal_strlit("proxyfile_");
    reveal_strlit("_");
    assert("_"@ =~= seq!['_']);
    let head = dir + seq!['/'] + "proxyfile_"@ + id + seq!['_'];
    assert(crate::proxy_downloader::temp_path(dir, id, a) =~= head + a);
    assert(crate::proxy_downloader::temp_path(dir, id, b) =~= head + b);
    if head + a == head + b {
        assert((head + a).skip(head.len() as int) =~= a);
        assert((head + b).skip(head.len() as int) =~= b);
    }
}

/// Images are fetched through no proxy where no host is set; else through one at that host, of the
/// type and with the port that are set; without a type it is a SOCKS proxy, and without a port it
/// is at 8080 for HTTP and at 1080 otherwise.
pub proof fn image_proxies_have_defaults(host: Seq<char>, kind: Seq<char>, port: u16)
    ensures
        crate::proxy_downloader::image_proxy_of(None, Some(kind), Some(port)) is None,
        crate::proxy_downloader::image_proxy_of(Some(host), Some(kind), Some(port)) == Some(
            crate::proxy_downloader::proxy_url(kind, host, port),
        ),
        crate::proxy_downloader::image_proxy_of(Some(host), None, Some(port)) == Some(
            crate::proxy_downloader::proxy_url("socks"@, host, port),
        ),
        crate::proxy_downloader::image_proxy_of(Some(host), None, None) == Some(
            crate::proxy_downloader::proxy_url("socks"@, host, 1080),
        ),
        crate::proxy_downloader::image_proxy_of(Some(host), Some("http"@), None) == Some(
            crate::proxy_downloader::proxy_url("http"@, host, 8080),
        ),
        kind != "http"@ ==> crate::proxy_downloader::image_proxy_of(Some(host), Some(kind), None) == Some(
            crate::proxy_downloader::proxy_url(kind, host, 1080),
        ),
        kind != "http"@ && kind != "socks"@ ==> crate::proxy_downloader::proxy_url(kind, host, port) == Err::<
            Seq<char>,
            ErrorView,
        >(ErrorView::Config("invalid proxy type: "@ + kind)),
{
    reveal_strlit("socks");
    reveal_strlit("http");
    assert("socks"@.len() == 5 && "http"@.len() == 4);
}

// ---------------------------------------------------------------------------
// File IDs
// ---------------------------------------------------------------------------

/// An ID of a hash, a size, a width, a height and an extension with hyphens between them describes
/// the file with that hash, that size, that resolution and the type of that extension; without the
/// resolution it describes one without.
pub proof fn written_ids_are_read(hash: Seq<char>, size: u32, x: u32, y: u32, ext: Seq<char>)
    requires
        hash.len() == 40,
        forall|j: int| 0 <= j < 40 ==> ('0' <= #[trigger] hash[j] <= '9' || 'a' <= hash[j] <= 'f'),
        x <= 99_999,
        y <= 99_999,
        ext == "jpg"@ || ext == "png"@ || ext == "gif"@ || ext == "mp4"@ || ext == "wbm"@ || ext == "wbp"@
            || ext == "avf"@ || ext == "jxl"@,
    ensures
        ({
            let n = crate::number::decimal(size as nat);
            let h = seq!['-'];
            let t = crate::types::type_of_ext(ext);
            &&& crate::hvfile::file_of(
                hash + h + n + h + crate::number::decimal(x as nat) + h + crate::number::decimal(y as nat) + h
                    + ext,
            ) == Some(crate::hvfile::HVFileView { hash, size, xres: x, yres: y, file_type: t })
            &&& crate::hvfile::file_of(hash + h + n + h + ext) == Some(
                crate::hvfile::HVFileView { hash, size, xres: 0, yres: 0, file_type: t },
            )
        }),
{
    let n = crate::number::decimal(size as nat);
    let a = crate::number::decimal(x as nat);
    let b = crate::number::decimal(y as nat);
    let h = seq!['-'];
    lemma_digits_only(size as nat);
    lemma_digits_only(x as nat);
    lemma_digits_only(y as nat);
    lemma_ext_is_plain(ext);
    crate::number::lemma_parse_decimal(size as nat, u32::MAX as nat);
    crate::number::lemma_parse_decimal(x as nat, u32::MAX as nat);
    crate::number::lemma_parse_decimal(y as nat, u32::MAX as nat);
    lemma_few_digits(size as nat, x as nat, y as nat);
    assert(!hash.contains('-')) by {
        if hash.contains('-') {
            let j = choose|j: int| 0 <= j < hash.len() && hash[j] == '-';
            assert('0' <= hash[j] <= '9' || 'a' <= hash[j] <= 'f');
        }
    }
    assert(crate::types::is_sha1_text(hash)) by {
        assert forall|j: int| 0 <= j < hash.len() implies crate::types::is_lower_hex(#[trigger] hash[j]) by {
            assert('0' <= hash[j] <= '9' || 'a' <= hash[j] <= 'f');
        }
    }
    let five = seq![hash, n, a, b, ext];
    let three = seq![hash, n, ext];
    assert forall|i: int| 0 <= i < 5 implies !(#[trigger] five[i]).contains('-') by {}
    assert forall|i: int| 0 <= i < 3 implies !(#[trigger] three[i]).contains('-') by {}
    crate::text::lemma_split_of_joined(five, '-');
    crate::text::lemma_split_of_joined(three, '-');
    let j1 = seq![hash];
    let j2 = seq![hash, n];
    let j3 = seq![hash, n, a];
    let j4 = seq![hash, n, a, b];
    assert(five.drop_last() =~= j4 && j4.drop_last() =~= j3 && j3.drop_last() =~= j2 && j2.drop_last()
        =~= j1);
    assert(three.drop_last() =~= j2);
    assert(crate::text::join(j1, h) == hash);
    assert(crate::text::join(j2, h) == hash + h + n);
    assert(crate::text::join(j3, h) == hash + h + n + h + a);
    assert(crate::text::join(j4, h) == hash + h + n + h + a + h + b);
    assert(crate::text::join(five, h) == hash + h + n + h + a + h + b + h + ext);
    assert(crate::text::join(three, h) == hash + h + n + h + ext);
}

proof fn lemma_digits_only(n: nat)
    ensures
        !crate::number::decimal(n).contains('-'),
        forall|i: int|
            0 <= i < crate::number::decimal(n).len() ==> crate::hvfile::is_decimal(
                #[trigger] crate::number::decimal(n)[i],
            ),
{
    crate::number::lemma_decimal(n);
    let s = crate::number::decimal(n);
    assert forall|i: int| 0 <= i < s.len() implies crate::hvfile::is_decimal(#[trigger] s[i]) && s[i] != '-' by {
        assert(crate::number::is_digit(s[i]));
    }
}

proof fn lemma_few_digits(size: nat, x: nat, y: nat)
    requires
        size <= u32::MAX,
        x <= 99_999,
        y <= 99_999,
    ensures
        1 <= crate::number::decimal(size).len() <= 10,
        1 <= crate::number::decimal(x).len() <= 5,
        1 <= crate::number::decimal(y).len() <= 5,
{
    reveal_with_fuel(crate::number::decimal, 11);
}

proof fn lemma_ext_is_plain(ext: Seq<char>)
    requires
        ext == "jpg"@ || ext == "png"@ || ext == "gif"@ || ext == "mp4"@ || ext == "wbm"@ || ext == "wbp"@
            || ext == "avf"@ || ext == "jxl"@,
    ensures
        !ext.contains('-'),
        crate::hvfile::is_known_ext(ext),
{
    reveal_strlit("jpg");
    reveal_strlit("png");
    reveal_strlit("gif");
    reveal_strlit("mp4");
    reveal_strlit("wbm");
    reveal_strlit("wbp");
    reveal_strlit("avf");
    reveal_strlit("jxl");
}

/// A text of parts with hyphens between them describes no file where there are not three or five
/// parts, where the first is no hash, where the last is no known extension, or where the second
/// holds a character of ASCII that is no digit.
pub proof fn other_ids_describe_nothing(parts: Seq<Seq<char>>, j: int)
    requires
        parts.len() > 0,
        forall|i: int| 0 <= i < parts.len() ==> !(#[trigger] parts[i]).contains('-'),
        ({
            ||| parts.len() != 3 && parts.len() != 5
            ||| parts[0].len() != 40
            ||| 0 <= j < 40 && !('0' <= parts[0][j] <= '9') && !('a' <= parts[0][j] <= 'f')
            ||| parts.last() != "jpg"@ && parts.last() != "png"@ && parts.last() != "gif"@ && parts.last()
                != "mp4"@ && parts.last() != "wbm"@ && parts.last() != "wbp"@ && parts.last() != "avf"@
                && parts.last() != "jxl"@
            ||| parts.len() >= 2 && parts[1].len() == 0
            ||| parts.len() >= 2 && 0 <= j < parts[1].len() && parts[1][j] < '0'
        }),
    ensures
        crate::hvfile::file_of(crate::text::join(parts, seq!['-'])) is None,
{
    crate::text::lemma_split_of_joined(parts, '-');
    if crate::hvfile::valid_fileid(crate::text::join(parts, seq!['-'])) {
        if 0 <= j < 40 && !('0' <= parts[0][j] <= '9') && !('a' <= parts[0][j] <= 'f') {
            assert(crate::types::is_lower_hex(parts[0][j]));
        }
        if 0 <= j < parts[1].len() {
            assert(crate::hvfile::is_decimal(parts[1][j]));
        }
    }
}

/// The media types of the extensions that IDs end in, and of any other.
pub proof fn extensions_have_media_types(other: Seq<char>)
    ensures
        crate::types::mime_of(crate::types::type_of_ext("jpg"@)) == "image/jpeg"@,
        crate::types::mime_of(crate::types::type_of_ext("png"@)) == "image/png"@,
        crate::types::mime_of(crate::types::type_of_ext("gif"@)) == "image/gif"@,
        crate::types::mime_of(crate::types::type_of_ext("mp4"@)) == "video/mp4"@,
        crate::types::mime_of(crate::types::type_of_ext("wbm"@)) == "video/webm"@,
        crate::types::mime_of(crate::types::type_of_ext("wbp"@)) == "image/webp"@,
        crate::types::mime_of(crate::types::type_of_ext("avf"@)) == "image/avif"@,
        crate::types::mime_of(crate::types::type_of_ext("jxl"@)) == "image/jxl"@,
        other.len() > 4 ==> crate::types::type_of_ext(other) == crate::types::FileTypeView::Other(other),
        other.len() > 4 ==> crate::types::mime_of(crate::types::type_of_ext(other))
            == "application/octet-stream"@,
{
    reveal_strlit("jpg");
    reveal_strlit("png");
    reveal_strlit("gif");
    reveal_strlit("mp4");
    reveal_strlit("wbm");
    reveal_strlit("wbp");
    reveal_strlit("avf");
    reveal_strlit("jxl");
    reveal_strlit("jpeg");
    reveal_strlit("webm");
    reveal_strlit("webp");
    reveal_strlit("avif");
    assert("jpg"@[1] == 'p' && "jpg"@[0] == 'j' && "png"@[0] == 'p' && "gif"@[0] == 'g' && "mp4"@[0] == 'm');
    assert("wbm"@[0] == 'w' && "wbm"@[2] == 'm' && "wbp"@[0] == 'w' && "wbp"@[2] == 'p');
    assert("avf"@[0] == 'a' && "jxl"@[0] == 'j' && "jxl"@[1] == 'x');
    assert("jpg"@.len() == 3 && "png"@.len() == 3 && "gif"@.len() == 3 && "mp4"@.len() == 3);
    assert("wbm"@.len() == 3 && "wbp"@.len() == 3 && "avf"@.len() == 3 && "jxl"@.len() == 3);
    assert("jpeg"@.len() == 4 && "webm"@.len() == 4 && "webp"@.len() == 4 && "avif"@.len() == 4);
}

/// A search that found no source ends with the error of the last one, and, where there was none to
/// ask, with the status 500.
pub proof fn searches_end_with_the_last_error(e: crate::error::HathError)
    ensures
        crate::proxy_downloader::search_error(Some(e)) == e@,
        crate::proxy_downloader::search_error(None) is ProxyDownloader,
        crate::proxy_downloader::search_error(None)->ProxyDownloader_0 == 500,
{
}

/// A step of a download leaves what is downloaded, and where to, as it is.
pub proof fn downloads_keep_their_file(
    a: crate::proxy_downloader::ProxyDownloadTask,
    b: crate::proxy_downloader::ProxyDownloadTask,
)
    requires
        a.same_file(&b),
    ensures
        a.fileid@ == b.fileid@,
        a.expected_size == b.expected_size,
        a.expected_hash@ == b.expected_hash@,
        a.cache_dir@ == b.cache_dir@,
{
}

} // verus!
