//! Speed tests against another server: many downloads at once, each timed.

use vstd::prelude::*;
use crate::error::{ErrorView, HathError};

verus! {

/// How many times a download is tried.
pub const TEST_ATTEMPTS: u32 = 3;

/// What came of one try to download.
#[derive(Debug, Clone, Copy)]
pub enum TestAttempt {
    /// The server does not know the test.
    NotFound,
    /// No connection, another status, no declared length, or a broken transfer.
    Failed,
    /// The transfer ended.
    Received { content_length: u64, received: u64 },
}

/// What to do after a try.
#[derive(Debug, Clone, Copy, PartialEq, Eq, Structural)]
pub enum TestStep {
    /// The test is over; with the milliseconds that it took, where it counts.
    Done(Option<u64>),
    Retry,
}

/// What to do after a try with `left` tries left. A transfer of the declared length ends
/// the test, and counts where that is the wanted size or more.
pub open spec fn step_after(attempt: TestAttempt, testsize: u64, millis: u64, left: u32) -> TestStep {
    let failed = if left == 0 {
        TestStep::Done(None)
    } else {
        TestStep::Retry
    };
    match attempt {
        TestAttempt::NotFound => TestStep::Done(None),
        TestAttempt::Failed => failed,
        TestAttempt::Received { content_length, received } => if received != content_length {
            failed
        } else if content_length >= testsize {
            TestStep::Done(Some(millis))
        } else {
            TestStep::Done(None)
        },
    }
}

/// The outcome of the answer's status and declared length, before its body is read.
pub fn check_test_response(status: u16, content_length: Option<u64>) -> (r: Option<TestAttempt>)
    ensures
        match r {
            Some(TestAttempt::NotFound) => status == 404,
            Some(TestAttempt::Failed) => status != 404 && (!(200 <= status < 300)
                || content_length is None),
            Some(TestAttempt::Received { .. }) => false,
            None => 200 <= status < 300 && content_length is Some,
        },
{
    if status == 404 {
        return Some(TestAttempt::NotFound);
    }
    if status < 200 || status >= 300 {
        return Some(TestAttempt::Failed);
    }
    match content_length {
        Some(_) => None,
        None => Some(TestAttempt::Failed),
    }
}

/// What to do after a try. `millis` is the time since the first byte of any try came, or
/// zero where none ever came.
pub fn next_test_step(attempt: TestAttempt, testsize: u64, millis: u64, left: u32) -> (r: TestStep)
    ensures
        r == step_after(attempt, testsize, millis, left),
{
    match attempt {
        TestAttempt::NotFound => return TestStep::Done(None),
        TestAttempt::Received { content_length, received } => {
            if received == content_length {
                return if content_length >= testsize {
                    TestStep::Done(Some(millis))
                } else {
                    TestStep::Done(None)
                };
            }
        },
        TestAttempt::Failed => {},
    }
    if left == 0 {
        TestStep::Done(None)
    } else {
        TestStep::Retry
    }
}

/// How many tests counted.
pub open spec fn count_of(results: Seq<Option<u64>>) -> nat
    decreases results.len(),
{
    if results.len() == 0 {
        0
    } else {
        count_of(results.drop_last()) + (if results.last() is Some {
            1nat
        } else {
            0
        })
    }
}

/// The time that the tests that counted took together, in 64 bits.
pub open spec fn time_of(results: Seq<Option<u64>>) -> u64
    decreases results.len(),
{
    if results.len() == 0 {
        0
    } else {
        match results.last() {
            Some(ms) => time_of(results.drop_last()).wrapping_add(ms),
            None => time_of(results.drop_last()),
        }
    }
}

/// How many tests counted, and how long those took together.
pub fn total_of(results: &Vec<Option<u64>>) -> (r: (u32, u64))
    requires
        results@.len() <= u32::MAX,
    ensures
        r.0 == count_of(results@),
        r.1 == time_of(results@),
{
    let mut successful: u32 = 0;
    let mut total_time_ms: u64 = 0;
    let mut i: usize = 0;
    while i < results.len()
        invariant
            i <= results@.len() <= u32::MAX,
            successful == count_of(results@.take(i as int)),
            successful <= i,
            total_time_ms == time_of(results@.take(i as int)),
        decreases results.len() - i,
    {
        assert(results@.take(i + 1).drop_last() =~= results@.take(i as int));
        assert(results@.take(i + 1).last() == results@[i as int]);
        if let Some(ms) = results[i] {
            successful = successful + 1;
            total_time_ms = total_time_ms.wrapping_add(ms);
        }
        i += 1;
    }
    assert(results@.take(i as int) =~= results@);
    (successful, total_time_ms)
}

/// What an error is called where the URL of a test cannot be made.
pub open spec fn test_url_error(
    e: crate::url::BuildErrorView,
    protocol: Seq<char>,
    port: u16,
) -> ErrorView {
    match e {
        crate::url::BuildErrorView::Base(s) => ErrorView::Network("invalid speedtest URL base: "@ + s),
        crate::url::BuildErrorView::Scheme => ErrorView::Network(
            "invalid speedtest protocol: "@ + protocol,
        ),
        crate::url::BuildErrorView::Host => ErrorView::Network("invalid speedtest host"@),
        crate::url::BuildErrorView::HostName(s) => ErrorView::Network(
            "invalid speedtest host: "@ + s,
        ),
        crate::url::BuildErrorView::Port => ErrorView::Network(
            "invalid speedtest port: "@ + crate::number::decimal(port as nat),
        ),
    }
}

/// The path of a test.
pub open spec fn test_path(testsize: u64, testtime: u32, testkey: Seq<char>, number: u32) -> Seq<char> {
    "/t/"@ + crate::number::decimal(testsize as nat) + "/"@ + crate::number::decimal(testtime as nat)
        + "/"@ + testkey + "/"@ + crate::number::decimal(number as nat)
}

/// Whether the path of a test can be put into a URL, whatever its numbers are.
pub open spec fn key_fits(url: Seq<char>, testkey: Seq<char>) -> bool {
    crate::url::is_indexable(crate::url::text_room(url) + crate::url::part_room(testkey) + 66)
}

/// The URL of tests before their path. A key that makes the path too long has none.
pub open spec fn test_base(protocol: Seq<char>, hostname: Seq<char>, port: u16, testkey: Seq<char>) -> Result<
    Seq<char>,
    crate::url::BuildErrorView,
> {
    match crate::url::with_authority("http://hath.invalid/"@, Some(protocol), hostname, Some(port)) {
        Err(e) => Err(e),
        Ok(u) => if key_fits(u, testkey) {
            Ok(u)
        } else {
            Err(crate::url::BuildErrorView::Base(crate::url::TOO_LONG@))
        },
    }
}

/// Whether a URL is that of a test, with some number behind its path.
pub open spec fn is_test_url(
    url: Seq<char>,
    base: Seq<char>,
    testsize: u64,
    testtime: u32,
    testkey: Seq<char>,
) -> bool {
    exists|n: u32|
        url == crate::url::url_with_path(base, #[trigger] test_path(testsize, testtime, testkey, n))
}

/// What an error is called where the URL of a test cannot be made.
pub fn make_test_url_error(e: crate::url::BuildError, protocol: &str, port: u16) -> (r: HathError)
    ensures
        r@ == test_url_error(e@, protocol@, port),
{
    match e {
        crate::url::BuildError::Base(s) => HathError::Network(
            crate::text::concat("invalid speedtest URL base: ", s.as_str()),
        ),
        crate::url::BuildError::Scheme => HathError::Network(
            crate::text::concat("invalid speedtest protocol: ", protocol),
        ),
        crate::url::BuildError::Host => HathError::Network(String::from_str("invalid speedtest host")),
        crate::url::BuildError::HostName(s) => HathError::Network(
            crate::text::concat("invalid speedtest host: ", s.as_str()),
        ),
        crate::url::BuildError::Port => {
            let mut m = String::from_str("invalid speedtest port: ");
            crate::number::push_decimal(&mut m, port as u64);
            HathError::Network(m)
        },
    }
}

proof fn lemma_test_path_room(testsize: u64, testtime: u32, testkey: Seq<char>, number: u32)
    ensures
        crate::url::part_room(test_path(testsize, testtime, testkey, number)) <= crate::url::part_room(
            testkey,
        ) + 66,
{
    reveal_strlit("/t/");
    reveal_strlit("/");
    let size = crate::number::decimal(testsize as nat);
    let time = crate::number::decimal(testtime as nat);
    let last = crate::number::decimal(number as nat);
    crate::number::lemma_decimal_is_short(testsize);
    crate::number::lemma_decimal_is_short(testtime as u64);
    crate::number::lemma_decimal_is_short(number as u64);
    crate::number::lemma_decimal(testsize as nat);
    crate::number::lemma_decimal(testtime as nat);
    crate::number::lemma_decimal(number as nat);
    crate::url::lemma_digits_room(size);
    crate::url::lemma_digits_room(time);
    crate::url::lemma_digits_room(last);
    let a = "/t/"@;
    let b = a + size;
    let c = b + "/"@;
    let d = c + time;
    let e = d + "/"@;
    let f = e + testkey;
    let g = f + "/"@;
    crate::url::lemma_part_room_adds(a, size);
    crate::url::lemma_part_room_adds(b, "/"@);
    crate::url::lemma_part_room_adds(c, time);
    crate::url::lemma_part_room_adds(d, "/"@);
    crate::url::lemma_part_room_adds(e, testkey);
    crate::url::lemma_part_room_adds(f, "/"@);
    crate::url::lemma_part_room_adds(g, last);
    reveal_with_fuel(crate::url::part_room, 4);
    assert(crate::url::part_room("/"@) == 1);
    assert(crate::url::part_room("/t/"@) == 3);
}

/// Whether the path of a test can be put into a URL, whatever its numbers are.
fn check_key_fits(url: &str, testkey: &str) -> (r: bool)
    ensures
        r == key_fits(url@, testkey@),
{
    match (crate::url::measure_text(url), crate::url::measure_part(testkey)) {
        (Some(n), Some(m)) => n + m + 66 + 64 <= u32::MAX as u64,
        _ => false,
    }
}

/// The URL of a test.
pub fn build_threaded_proxy_test_url(
    protocol: &str,
    hostname: &str,
    port: u16,
    testsize: u64,
    testtime: u32,
    testkey: &str,
    random_int: u32,
) -> (r: Result<String, HathError>)
    ensures
        match test_base(protocol@, hostname@, port, testkey@) {
            Ok(u) => r matches Ok(url) && url@ == crate::url::url_with_path(
                u,
                test_path(testsize, testtime, testkey@, random_int),
            ),
            Err(e) => r matches Err(f) && f@ == test_url_error(e, protocol@, port),
        },
{
    match crate::url::build_authority("http://hath.invalid/", Some(protocol), hostname, Some(port)) {
        Ok(u) => {
            if !check_key_fits(u.as_str(), testkey) {
                let e = crate::url::BuildError::Base(String::from_str(crate::url::TOO_LONG));
                return Err(make_test_url_error(e, protocol, port));
            }
            let mut path = String::from_str("/t/");
            crate::number::push_decimal(&mut path, testsize);
            path.append("/");
            crate::number::push_decimal(&mut path, testtime as u64);
            path.append("/");
            path.append(testkey);
            path.append("/");
            crate::number::push_decimal(&mut path, random_int as u64);
            proof {
                lemma_test_path_room(testsize, testtime, testkey@, random_int);
                assert(path@ =~= test_path(testsize, testtime, testkey@, random_int));
            }
            match crate::url::put_path(u.as_str(), path.as_str()) {
                Ok(url) => Ok(url),
                Err(e) => Err(make_test_url_error(e, protocol, port)),
            }
        },
        Err(e) => Err(make_test_url_error(e, protocol, port)),
    }
}

/// The URLs of so many tests, each with a random number behind its path. Where one cannot
/// be made, the test is left out.
pub fn test_urls(
    protocol: &str,
    hostname: &str,
    port: u16,
    testsize: u64,
    testcount: u32,
    testtime: u32,
    testkey: &str,
) -> (r: Vec<String>)
    ensures
        match test_base(protocol@, hostname@, port, testkey@) {
            Ok(u) => r@.len() == testcount && forall|i: int|
                0 <= i < r@.len() ==> is_test_url(
                    (#[trigger] r@[i])@,
                    u,
                    testsize,
                    testtime,
                    testkey@,
                ),
            Err(_) => r@.len() == 0,
        },
{
    let ghost base = test_base(protocol@, hostname@, port, testkey@);
    let mut urls: Vec<String> = Vec::new();
    let mut i: u32 = 0;
    while i < testcount
        invariant
            i <= testcount,
            base == test_base(protocol@, hostname@, port, testkey@),
            match base {
                Ok(u) => urls@.len() == i && forall|j: int|
                    0 <= j < urls@.len() ==> is_test_url(
                        (#[trigger] urls@[j])@,
                        u,
                        testsize,
                        testtime,
                        testkey@,
                    ),
                Err(_) => urls@.len() == 0,
            },
        decreases testcount - i,
    {
        let n: u32 = crate::rpc::random_u32();
        if let Ok(url) = build_threaded_proxy_test_url(
            protocol,
            hostname,
            port,
            testsize,
            testtime,
            testkey,
            n,
        ) {
            let ghost before = urls@;
            urls.push(url);
            assert(forall|j: int| 0 <= j < before.len() ==> urls@[j] == before[j]);
        }
        i += 1;
    }
    urls
}

/// A test that is run: how many tries are left.
#[derive(Debug)]
pub struct TestRun {
    pub left: u32,
}

impl TestRun {
    /// A test before its first try.
    pub fn new() -> (r: TestRun)
        ensures
            r.left == TEST_ATTEMPTS,
    {
        TestRun { left: TEST_ATTEMPTS }
    }

    /// Takes what came of a try, and says what to do.
    pub fn record(&mut self, attempt: TestAttempt, testsize: u64, millis: u64) -> (r: TestStep)
        requires
            old(self).left > 0,
        ensures
            final(self).left == old(self).left - 1,
            r == step_after(attempt, testsize, millis, final(self).left),
            r is Retry ==> final(self).left > 0,
    {
        self.left = self.left - 1;
        next_test_step(attempt, testsize, millis, self.left)
    }
}

/// What is done after one of the tries of a test, the first one at nought.
pub open spec fn step_at(attempts: Seq<TestAttempt>, testsize: u64, millis: Seq<u64>, k: int) -> TestStep {
    step_after(attempts[k], testsize, millis[k], (TEST_ATTEMPTS - 1 - k) as u32)
}

/// Whatever comes of its tries, a test is over after the third one, if not before.
pub proof fn tests_end(attempts: Seq<TestAttempt>, testsize: u64, millis: Seq<u64>)
    requires
        attempts.len() >= TEST_ATTEMPTS,
        millis.len() >= TEST_ATTEMPTS,
    ensures
        TEST_ATTEMPTS == 3,
        exists|k: int| 0 <= k < TEST_ATTEMPTS && step_at(attempts, testsize, millis, k) is Done,
{
    assert(step_at(attempts, testsize, millis, 2) is Done);
}

} // verus!
