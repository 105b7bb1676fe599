//! URLs, each as its text, taken apart and put together by `reqwest::Url`.

use vstd::prelude::*;
use crate::ip::IpAddr;

verus! {

/// What is said of a URL that is too long.
pub const TOO_LONG: &'static str = "too long";

/// The bytes that at most come of a character of a URL or of a host. A host is decoded, mapped
/// and written in ASCII: one character can become many there.
pub open spec fn text_cost(c: char) -> nat {
    if c as u32 >= 0x80 {
        256
    } else if c == '%' {
        64
    } else if ('a' <= c && c <= 'z') || ('A' <= c && c <= 'Z') || ('0' <= c && c <= '9') || c == '-' || c
        == '.' || c == '_' || c == '~' || c == '/' {
        1
    } else {
        3
    }
}

/// The bytes that at most come of a character of a scheme, a path or a query: those that cannot
/// stand there are written with three for each of their own.
pub open spec fn part_cost(c: char) -> nat {
    if c as u32 >= 0x80 {
        12
    } else if c as u32 <= 0x20 || c as u32 == 0x7f || c == '"' || c == '#' || c == '\'' || c == '<' || c
        == '>' || c == '?' || c == '`' || c == '{' || c == '}' {
        3
    } else {
        1
    }
}

/// The bytes that at most come of a URL or of a host.
pub open spec fn text_room(s: Seq<char>) -> nat
    decreases s.len(),
{
    if s.len() == 0 {
        0
    } else {
        text_room(s.drop_last()) + text_cost(s.last())
    }
}

/// The bytes that at most come of a scheme, a path or a query.
pub open spec fn part_room(s: Seq<char>) -> nat
    decreases s.len(),
{
    if s.len() == 0 {
        0
    } else {
        part_room(s.drop_last()) + part_cost(s.last())
    }
}

/// Whether so many bytes, and a few for separators and a port, have places of 32 bits, by which
/// `reqwest::Url` finds the parts of a URL.
pub open spec fn is_indexable(bytes: nat) -> bool {
    bytes + 64 <= u32::MAX
}

/// Whether a scheme or a path can be put into a URL.
pub open spec fn fits(url: Seq<char>, part: Seq<char>) -> bool {
    is_indexable(text_room(url) + part_room(part))
}

/// Whether a host can be put into a URL.
pub open spec fn fits_host(url: Seq<char>, host: Seq<char>) -> bool {
    is_indexable(text_room(url) + text_room(host))
}

/// Whether a query can be put into a URL. It is the last part, so that only its start is found
/// by a place, unless a fragment follows.
pub open spec fn fits_query(url: Seq<char>, query: Seq<char>) -> bool {
    is_indexable(text_room(url)) && (url.contains('#') ==> fits(url, query))
}

fn text_cost_of(c: char) -> (r: u64)
    ensures
        r == text_cost(c),
{
    if c as u32 >= 0x80 {
        256
    } else if c == '%' {
        64
    } else if ('a' <= c && c <= 'z') || ('A' <= c && c <= 'Z') || ('0' <= c && c <= '9') || c == '-' || c
        == '.' || c == '_' || c == '~' || c == '/' {
        1
    } else {
        3
    }
}

fn part_cost_of(c: char) -> (r: u64)
    ensures
        r == part_cost(c),
{
    if c as u32 >= 0x80 {
        12
    } else if c as u32 <= 0x20 || c as u32 == 0x7f || c == '"' || c == '#' || c == '\'' || c == '<' || c
        == '>' || c == '?' || c == '`' || c == '{' || c == '}' {
        3
    } else {
        1
    }
}

proof fn lemma_room_grows(s: Seq<char>, k: int)
    requires
        0 <= k <= s.len(),
    ensures
        text_room(s.take(k)) <= text_room(s),
        part_room(s.take(k)) <= part_room(s),
    decreases s.len(),
{
    if k == s.len() {
        assert(s.take(k) =~= s);
    } else {
        lemma_room_grows(s.drop_last(), k);
        assert(s.drop_last().take(k) =~= s.take(k));
    }
}

/// The room of a text is that of its parts.
pub proof fn lemma_part_room_adds(a: Seq<char>, b: Seq<char>)
    ensures
        part_room(a + b) == part_room(a) + part_room(b),
    decreases b.len(),
{
    if b.len() == 0 {
        assert(a + b =~= a);
    } else {
        lemma_part_room_adds(a, b.drop_last());
        assert((a + b).drop_last() =~= a + b.drop_last());
    }
}

/// Digits take a byte each.
pub proof fn lemma_digits_room(s: Seq<char>)
    requires
        crate::number::all_digits(s),
    ensures
        part_room(s) == s.len(),
    decreases s.len(),
{
    if s.len() > 0 {
        let t = s.drop_last();
        assert forall|i: int| 0 <= i < t.len() implies crate::number::is_digit(#[trigger] t[i]) by {
            assert(t[i] == s[i]);
        }
        assert(crate::number::is_digit(s[s.len() - 1]));
        lemma_digits_room(t);
    }
}

/// The bytes that at most come of a URL or of a host, where they have places of 32 bits.
pub fn measure_text(s: &str) -> (r: Option<u64>)
    ensures
        match r {
            Some(n) => text_room(s@) == n && n <= u32::MAX,
            None => text_room(s@) > u32::MAX,
        },
{
    let cs = crate::text::to_chars(s);
    let mut n: u64 = 0;
    let mut i: usize = 0;
    while i < cs.len()
        invariant
            cs@ == s@,
            i <= cs@.len(),
            n == text_room(s@.take(i as int)),
            n <= u32::MAX,
        decreases cs@.len() - i,
    {
        proof {
            assert(s@.take(i + 1).drop_last() =~= s@.take(i as int));
            lemma_room_grows(s@, i + 1);
        }
        n = n + text_cost_of(cs[i]);
        i += 1;
        if n > u32::MAX as u64 {
            return None;
        }
    }
    assert(s@.take(i as int) =~= s@);
    Some(n)
}

/// The bytes that at most come of a scheme, a path or a query, where they have places of 32
/// bits.
pub fn measure_part(s: &str) -> (r: Option<u64>)
    ensures
        match r {
            Some(n) => part_room(s@) == n && n <= u32::MAX,
            None => part_room(s@) > u32::MAX,
        },
{
    let cs = crate::text::to_chars(s);
    let mut n: u64 = 0;
    let mut i: usize = 0;
    while i < cs.len()
        invariant
            cs@ == s@,
            i <= cs@.len(),
            n == part_room(s@.take(i as int)),
            n <= u32::MAX,
        decreases cs@.len() - i,
    {
        proof {
            assert(s@.take(i + 1).drop_last() =~= s@.take(i as int));
            lemma_room_grows(s@, i + 1);
        }
        n = n + part_cost_of(cs[i]);
        i += 1;
        if n > u32::MAX as u64 {
            return None;
        }
    }
    assert(s@.take(i as int) =~= s@);
    Some(n)
}

/// Whether so many bytes can be found by places of 32 bits.
fn check_indexable(a: Option<u64>, b: Option<u64>) -> (r: bool)
    requires
        a matches Some(n) ==> n <= u32::MAX,
        b matches Some(n) ==> n <= u32::MAX,
    ensures
        r == (a is Some && b is Some && is_indexable((a->0 + b->0) as nat)),
{
    match (a, b) {
        (Some(n), Some(m)) => n + m + 64 <= u32::MAX as u64,
        _ => false,
    }
}

/// Whether a scheme or a path can be put into a URL.
pub fn check_fits(url: &str, part: &str) -> (r: bool)
    ensures
        r == fits(url@, part@),
{
    check_indexable(measure_text(url), measure_part(part))
}

/// Whether a host can be put into a URL.
pub fn check_fits_host(url: &str, host: &str) -> (r: bool)
    ensures
        r == fits_host(url@, host@),
{
    check_indexable(measure_text(url), measure_text(host))
}

/// Whether a query can be put into a URL.
pub fn check_fits_query(url: &str, query: &str) -> (r: bool)
    ensures
        r == fits_query(url@, query@),
{
    let cs = crate::text::to_chars(url);
    let hash = crate::text::find_from(&cs, 0, '#');
    proof {
        assert(cs@.skip(0) =~= url@);
        crate::text::lemma_index_of(url@, '#');
        if hash < cs@.len() {
            assert(url@[hash as int] == '#');
        }
    }
    check_indexable(measure_text(url), Some(0)) && (hash == cs.len() || check_fits(url, query))
}

/// The text of the URL that `reqwest::Url::parse` makes of a text, or of its error.
pub uninterp spec fn url_parsed(text: Seq<char>) -> Result<Seq<char>, Seq<char>>;

/// `reqwest::Url::parse`: the URL, or the reason why there is none, is a function of the
/// text.
#[verifier::external_body]
pub(crate) fn parse(text: &str) -> (r: Result<String, String>)
    ensures
        match r {
            Ok(u) => url_parsed(text@) == Ok::<Seq<char>, Seq<char>>(u@),
            Err(e) => url_parsed(text@) == Err::<Seq<char>, Seq<char>>(e@),
        },
{
    reqwest::Url::parse(text).map(String::from).map_err(|e| e.to_string())
}

/// The text of a URL with another scheme, where that can be.
pub uninterp spec fn url_with_scheme(url: Seq<char>, scheme: Seq<char>) -> Option<Seq<char>>;

/// `reqwest::Url::set_scheme` on the URL of that text: a function of both texts.
#[verifier::external_body]
pub(crate) fn set_scheme(url: &str, scheme: &str) -> (r: Option<String>)
    requires
        fits(url@, scheme@),
    ensures
        crate::text::opt_text(r) == url_with_scheme(url@, scheme@),
{
    let mut u = reqwest::Url::parse(url).ok()?;
    u.set_scheme(scheme).ok()?;
    Some(String::from(u))
}

/// The text of a URL with an address as its host, where that can be.
pub uninterp spec fn url_with_ip(url: Seq<char>, ip: crate::ip::IpView) -> Option<Seq<char>>;

/// `reqwest::Url::set_ip_host` on the URL of that text: a function of the text and the
/// address.
#[verifier::external_body]
pub(crate) fn set_ip_host(url: &str, ip: &IpAddr) -> (r: Option<String>)
    requires
        is_indexable(text_room(url@)),
    ensures
        crate::text::opt_text(r) == url_with_ip(url@, ip@),
{
    let mut u = reqwest::Url::parse(url).ok()?;
    match ip {
        IpAddr::V4(o) => u.set_ip_host((*o).into()).ok()?,
        IpAddr::V6(g) => u.set_ip_host((*g).into()).ok()?,
    }
    Some(String::from(u))
}

/// The text of a URL with a name as its host, or why that cannot be.
pub uninterp spec fn url_with_host(url: Seq<char>, host: Seq<char>) -> Result<Seq<char>, Seq<char>>;

/// `reqwest::Url::set_host` on the URL of that text: a function of both texts.
#[verifier::external_body]
pub(crate) fn set_host(url: &str, host: &str) -> (r: Result<String, String>)
    requires
        fits_host(url@, host@),
    ensures
        match r {
            Ok(u) => url_with_host(url@, host@) == Ok::<Seq<char>, Seq<char>>(u@),
            Err(e) => url_with_host(url@, host@) == Err::<Seq<char>, Seq<char>>(e@),
        },
{
    let mut u = reqwest::Url::parse(url).map_err(|e| e.to_string())?;
    u.set_host(Some(host)).map_err(|e| e.to_string())?;
    Ok(String::from(u))
}

/// The text of a URL with a port, or without one, where that can be.
pub uninterp spec fn url_with_port(url: Seq<char>, port: Option<u16>) -> Option<Seq<char>>;

/// `reqwest::Url::set_port` on the URL of that text: a function of the text and the port.
#[verifier::external_body]
pub(crate) fn set_port(url: &str, port: Option<u16>) -> (r: Option<String>)
    requires
        is_indexable(text_room(url@)),
    ensures
        crate::text::opt_text(r) == url_with_port(url@, port),
{
    let mut u = reqwest::Url::parse(url).ok()?;
    u.set_port(port).ok()?;
    Some(String::from(u))
}

/// The text of a URL with another path; of a text that is no URL, the empty text.
pub uninterp spec fn url_with_path(url: Seq<char>, path: Seq<char>) -> Seq<char>;

/// `reqwest::Url::set_path` on the URL of that text: a function of both texts.
#[verifier::external_body]
pub(crate) fn set_path(url: &str, path: &str) -> (r: String)
    requires
        fits(url@, path@),
    ensures
        r@ == url_with_path(url@, path@),
{
    match reqwest::Url::parse(url) {
        Ok(mut u) => {
            u.set_path(path);
            String::from(u)
        },
        Err(_) => String::new(),
    }
}

/// The text of a URL with another query; of a text that is no URL, the empty text.
pub uninterp spec fn url_with_query(url: Seq<char>, query: Seq<char>) -> Seq<char>;

/// `reqwest::Url::set_query` on the URL of that text: a function of both texts.
#[verifier::external_body]
pub(crate) fn set_query(url: &str, query: &str) -> (r: String)
    requires
        fits_query(url@, query@),
    ensures
        r@ == url_with_query(url@, query@),
{
    match reqwest::Url::parse(url) {
        Ok(mut u) => {
            u.set_query(Some(query));
            String::from(u)
        },
        Err(_) => String::new(),
    }
}

/// The host of a URL as it stands in its text, where it has one.
pub uninterp spec fn url_host(url: Seq<char>) -> Option<Seq<char>>;

/// `reqwest::Url::host_str` of the URL of that text: a function of the text.
#[verifier::external_body]
pub(crate) fn host_str(url: &str) -> (r: Option<String>)
    ensures
        crate::text::opt_text(r) == url_host(url@),
{
    reqwest::Url::parse(url).ok()?.host_str().map(str::to_string)
}

/// What goes wrong when a URL is put together.
pub enum BuildError {
    Base(String),
    Scheme,
    Host,
    HostName(String),
    Port,
}

/// What goes wrong, with its text as characters.
pub ghost enum BuildErrorView {
    Base(Seq<char>),
    Scheme,
    Host,
    HostName(Seq<char>),
    Port,
}

impl View for BuildError {
    type V = BuildErrorView;

    open spec fn view(&self) -> BuildErrorView {
        match self {
            BuildError::Base(s) => BuildErrorView::Base(s@),
            BuildError::Scheme => BuildErrorView::Scheme,
            BuildError::Host => BuildErrorView::Host,
            BuildError::HostName(s) => BuildErrorView::HostName(s@),
            BuildError::Port => BuildErrorView::Port,
        }
    }
}

/// A base with another host: an address where the host is one, a name otherwise.
pub open spec fn with_any_host(url: Seq<char>, host: Seq<char>) -> Result<Seq<char>, BuildErrorView> {
    if !fits_host(url, host) {
        Err(BuildErrorView::Base(TOO_LONG@))
    } else {
        match crate::ip::parse_ip(host) {
            Some(ip) => match url_with_ip(url, ip) {
                Some(u) => Ok(u),
                None => Err(BuildErrorView::Host),
            },
            None => match url_with_host(url, host) {
                Ok(u) => Ok(u),
                Err(e) => Err(BuildErrorView::HostName(e)),
            },
        }
    }
}

/// A URL with its scheme, where another is wanted.
pub open spec fn with_scheme(url: Seq<char>, scheme: Option<Seq<char>>) -> Result<
    Seq<char>,
    BuildErrorView,
> {
    match scheme {
        None => Ok(url),
        Some(s) => if !fits(url, s) {
            Err(BuildErrorView::Base(TOO_LONG@))
        } else {
            match url_with_scheme(url, s) {
                Some(u) => Ok(u),
                None => Err(BuildErrorView::Scheme),
            }
        },
    }
}

/// A URL with its port.
pub open spec fn with_port(url: Seq<char>, port: Option<u16>) -> Result<Seq<char>, BuildErrorView> {
    if !is_indexable(text_room(url)) {
        Err(BuildErrorView::Base(TOO_LONG@))
    } else {
        match url_with_port(url, port) {
            Some(u) => Ok(u),
            None => Err(BuildErrorView::Port),
        }
    }
}

/// A base with its scheme, where another is wanted, its host and its port.
pub open spec fn with_authority(
    base: Seq<char>,
    scheme: Option<Seq<char>>,
    host: Seq<char>,
    port: Option<u16>,
) -> Result<Seq<char>, BuildErrorView> {
    match url_parsed(base) {
        Err(e) => Err(BuildErrorView::Base(e)),
        Ok(parsed) => match with_scheme(parsed, scheme) {
            Err(e) => Err(e),
            Ok(schemed) => match with_any_host(schemed, host) {
                Err(e) => Err(e),
                Ok(hosted) => with_port(hosted, port),
            },
        },
    }
}

/// A URL with another path.
pub open spec fn with_path(url: Seq<char>, path: Seq<char>) -> Result<Seq<char>, BuildErrorView> {
    if fits(url, path) {
        Ok(url_with_path(url, path))
    } else {
        Err(BuildErrorView::Base(TOO_LONG@))
    }
}

/// A URL with another query.
pub open spec fn with_query(url: Seq<char>, query: Seq<char>) -> Result<Seq<char>, BuildErrorView> {
    if fits_query(url, query) {
        Ok(url_with_query(url, query))
    } else {
        Err(BuildErrorView::Base(TOO_LONG@))
    }
}

/// A result with its texts as characters.
pub open spec fn built(r: Result<String, BuildError>) -> Result<Seq<char>, BuildErrorView> {
    match r {
        Ok(u) => Ok(u@),
        Err(e) => Err(e@),
    }
}

fn too_long() -> (r: BuildError)
    ensures
        r@ == BuildErrorView::Base(TOO_LONG@),
{
    BuildError::Base(String::from_str(TOO_LONG))
}

/// A URL with another path.
pub fn put_path(url: &str, path: &str) -> (r: Result<String, BuildError>)
    ensures
        built(r) == with_path(url@, path@),
{
    if check_fits(url, path) {
        Ok(set_path(url, path))
    } else {
        Err(too_long())
    }
}

/// A URL with another query.
pub fn put_query(url: &str, query: &str) -> (r: Result<String, BuildError>)
    ensures
        built(r) == with_query(url@, query@),
{
    if check_fits_query(url, query) {
        Ok(set_query(url, query))
    } else {
        Err(too_long())
    }
}

/// A base with its scheme, where another is wanted, its host and its port.
pub fn build_authority(base: &str, scheme: Option<&str>, host: &str, port: Option<u16>) -> (r: Result<
    String,
    BuildError,
>)
    ensures
        ({
            let s = match scheme {
                Some(s) => Some(s@),
                None => None,
            };
            match r {
                Ok(u) => with_authority(base@, s, host@, port) == Ok::<Seq<char>, BuildErrorView>(u@),
                Err(e) => with_authority(base@, s, host@, port) == Err::<Seq<char>, BuildErrorView>(e@),
            }
        }),
{
    let parsed = match parse(base) {
        Ok(u) => u,
        Err(e) => return Err(BuildError::Base(e)),
    };
    let schemed = match scheme {
        Some(s) => {
            if !check_fits(parsed.as_str(), s) {
                return Err(too_long());
            }
            match set_scheme(parsed.as_str(), s) {
                Some(u) => u,
                None => return Err(BuildError::Scheme),
            }
        },
        None => parsed,
    };
    if !check_fits_host(schemed.as_str(), host) {
        return Err(too_long());
    }
    let hosted = match IpAddr::parse(host) {
        Some(ip) => match set_ip_host(schemed.as_str(), &ip) {
            Some(u) => u,
            None => return Err(BuildError::Host),
        },
        None => match set_host(schemed.as_str(), host) {
            Ok(u) => u,
            Err(e) => return Err(BuildError::HostName(e)),
        },
    };
    if !check_indexable(measure_text(hosted.as_str()), Some(0)) {
        return Err(too_long());
    }
    match set_port(hosted.as_str(), port) {
        Some(u) => Ok(u),
        None => Err(BuildError::Port),
    }
}

} // verus!
