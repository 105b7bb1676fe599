//! Bodies that are sent in packets, each after its share of the bandwidth was granted.

use vstd::prelude::*;
use crate::utils::Sha1Stream;

verus! {

/// The most bytes that a packet carries.
pub const TCP_PACKET_SIZE: usize = 1460;

/// The bytes that are read ahead of a cached file.
pub const FILE_BUFFER_SIZE: usize = 65_536;

/// The random bytes that speed tests are served from.
pub const SPEEDTEST_RANDOM_LENGTH: usize = 8_192;

/// The nanoseconds after which a body gives up waiting for a download.
pub const PROXY_WAIT_LIMIT: u64 = 300_000_000_000;

/// Where the body data comes from.
#[derive(Debug, Clone, Copy, PartialEq, Eq, Structural)]
pub enum DataSource {
    /// Pre-loaded data (for small text responses).
    Static,
    /// Speedtest chunks from a reusable random pool.
    Random,
    /// A cached file, with optional verification.
    File,
    /// A file that a download is still writing.
    Proxy,
}

// ---------------------------------------------------------------------------
// Reading ahead
// ---------------------------------------------------------------------------

/// Bytes of a file that were read and are not sent yet.
#[derive(Debug)]
pub struct FileBuffer {
    pub data: Vec<u8>,
    pub start: usize,
}

impl View for FileBuffer {
    type V = Seq<u8>;

    open spec fn view(&self) -> Seq<u8> {
        self.data@.skip(self.start as int)
    }
}

/// The bytes to ask a file for, with `have` bytes at hand and `need` bytes wanted: enough to
/// fill the buffer, and never less than what is wanted.
pub open spec fn read_target(have: int, need: int) -> int {
    let room = if have < FILE_BUFFER_SIZE {
        FILE_BUFFER_SIZE - have
    } else {
        0
    };
    if room < need - have {
        need - have
    } else {
        room
    }
}

impl FileBuffer {
    pub open spec fn wf(&self) -> bool {
        self.start <= self.data@.len()
    }

    pub fn new() -> (r: Self)
        ensures
            r.wf(),
            r@ == Seq::<u8>::empty(),
    {
        let r = FileBuffer { data: Vec::new(), start: 0 };
        assert(r@ =~= Seq::<u8>::empty());
        r
    }

    pub fn len(&self) -> (r: usize)
        requires
            self.wf(),
        ensures
            r == self@.len(),
    {
        self.data.len() - self.start
    }

    /// How many bytes to read before `need` bytes are at hand, if any are missing.
    pub fn next_read(&self, need: usize) -> (r: Option<usize>)
        requires
            self.wf(),
        ensures
            r == (if self@.len() < need {
                Some(read_target(self@.len() as int, need as int) as usize)
            } else {
                None
            }),
    {
        let have = self.len();
        if have >= need {
            return None;
        }
        let room: usize = if have < FILE_BUFFER_SIZE {
            FILE_BUFFER_SIZE - have
        } else {
            0
        };
        Some(
            if room < need - have {
                need - have
            } else {
                room
            },
        )
    }

    /// Adds bytes behind those at hand.
    pub fn add(&mut self, bytes: &[u8])
        requires
            old(self).wf(),
        ensures
            final(self).wf(),
            final(self)@ == old(self)@ + bytes@,
    {
        let ghost before = self@;
        if self.start > 0 {
            let mut rest: Vec<u8> = Vec::new();
            let mut i: usize = self.start;
            while i < self.data.len()
                invariant
                    self.start <= i <= self.data@.len(),
                    before == self.data@.skip(self.start as int),
                    rest@ == before.take(i - self.start),
                decreases self.data.len() - i,
            {
                rest.push(self.data[i]);
                i += 1;
                assert(rest@ =~= before.take(i - self.start));
            }
            assert(rest@ =~= before);
            self.data = rest;
            self.start = 0;
        }
        let ghost middle = self.data@;
        let mut i: usize = 0;
        assert(bytes@.take(0) =~= Seq::<u8>::empty());
        assert(before =~= middle);
        while i < bytes.len()
            invariant
                i <= bytes.len(),
                self.start == 0,
                self.data@ == middle + bytes@.take(i as int),
            decreases bytes.len() - i,
        {
            self.data.push(bytes[i]);
            i += 1;
            assert(self.data@ =~= middle + bytes@.take(i as int));
        }
        assert(self@ =~= before + bytes@);
    }

    /// Takes the first bytes out.
    pub fn take(&mut self, n: usize) -> (r: Vec<u8>)
        requires
            old(self).wf(),
            n <= old(self)@.len(),
        ensures
            final(self).wf(),
            r@ == old(self)@.take(n as int),
            final(self)@ == old(self)@.skip(n as int),
    {
        let ghost before = self@;
        let total: usize = self.data.len();
        let mut r: Vec<u8> = Vec::new();
        let mut i: usize = 0;
        assert(before.take(0) =~= Seq::<u8>::empty());
        while i < n
            invariant
                i <= n <= before.len(),
                total == self.data@.len(),
                self.start <= total,
                before == self.data@.skip(self.start as int),
                r@ == before.take(i as int),
            decreases n - i,
        {
            r.push(self.data[self.start + i]);
            i += 1;
            assert(r@ =~= before.take(i as int));
        }
        self.start = self.start + n;
        assert(self@ =~= before.skip(n as int));
        r
    }
}

// ---------------------------------------------------------------------------
// Bodies
// ---------------------------------------------------------------------------

/// A body that streams data in chunks.
///
/// Without a bandwidth limit, pre-loaded data is sent in one piece. With one, data is split
/// into packets, and each packet is throttled before it is sent. A cached file and a
/// running download are always sent in packets.
pub struct StreamingBody {
    pub source: DataSource,
    pub offset: usize,
    pub total_size: usize,
    /// Whether the bandwidth is limited.
    pub limited: bool,
    /// Whether a throttle just completed (prevents double-throttle for same chunk).
    pub throttled: bool,
    /// The data of a static body, or the random pool.
    pub data: Vec<u8>,
    /// What was read ahead of a cached file.
    pub buffer: FileBuffer,
    /// Whether the last read of a cached file found its end.
    pub at_end: bool,
    /// The digest of what was sent of a cached file.
    pub digest: Sha1Stream,
    pub expected_hash: String,
    /// The file that is deleted after it was sent, if it turns out to be corrupt.
    pub to_delete: Option<String>,
}

/// How far a download has come.
#[derive(Debug, Clone, Copy)]
pub struct ProxyProgress {
    /// Bytes written so far.
    pub written: u64,
    /// Whether the download has ended, well or not.
    pub download_done: bool,
    /// The nanoseconds since the body was made.
    pub waited: u64,
}

/// What to do next for a body.
#[derive(Debug)]
pub enum BodyStep {
    /// The body has ended: finish it.
    Finished,
    /// Wait for the download to write more.
    Wait,
    /// Wait until so many bytes may be sent.
    Throttle(usize),
    /// Read at most so many bytes of the file.
    Read(usize),
    /// Send these bytes.
    Send(Vec<u8>),
}

/// Which of the next steps is due.
pub ghost enum Due {
    Finished,
    Wait,
    Throttle,
    Produce,
}

/// What remains to be done when a body has ended.
#[derive(Debug)]
pub enum FinishAction {
    Nothing,
    /// Tell the download that its reader is gone.
    WakeDownloader,
    /// The file is corrupt: remove it from the cache.
    DeleteFile(String),
}

/// Where the next chunk ends.
pub open spec fn chunk_end(whole: bool, offset: int, total: int) -> int {
    if whole || total - offset < TCP_PACKET_SIZE {
        total
    } else {
        offset + TCP_PACKET_SIZE
    }
}

/// What becomes of a static body of these bytes from `offset` on, chunk after chunk.
pub open spec fn chunks(data: Seq<u8>, whole: bool, offset: int) -> Seq<Seq<u8>>
    decreases data.len() - offset,
{
    if 0 <= offset < data.len() {
        let end = chunk_end(whole, offset, data.len() as int);
        seq![data.subrange(offset, end)] + chunks(data, whole, end)
    } else {
        seq![]
    }
}

/// Where in a pool of `len` bytes a chunk of `size` bytes is taken, for a random number.
pub open spec fn random_place(len: int, size: int, r: u32) -> int {
    if len <= size {
        0
    } else {
        r as int % (len - size + 1)
    }
}

/// What finishing a body leaves behind and asks for, where `actual` is the digest of what was
/// sent: a cached file that was sent whole is checked once, and goes where its digest is wrong.
pub open spec fn after_finish(s: StreamingBody, actual: Seq<char>) -> (StreamingBody, FinishAction) {
    match s.source {
        DataSource::Static => (s, FinishAction::Nothing),
        DataSource::Random => (s, FinishAction::Nothing),
        DataSource::Proxy => (s, FinishAction::WakeDownloader),
        DataSource::File => match s.to_delete {
            Some(fileid) => if s.offset < s.total_size {
                (s, FinishAction::Nothing)
            } else {
                (
                    StreamingBody { to_delete: None, ..s },
                    if actual == s.expected_hash@ {
                        FinishAction::Nothing
                    } else {
                        FinishAction::DeleteFile(fileid)
                    },
                )
            },
            None => (s, FinishAction::Nothing),
        },
    }
}

impl StreamingBody {
    pub open spec fn wf(&self) -> bool {
        &&& self.offset <= self.total_size
        &&& self.source == DataSource::Static ==> self.data@.len() == self.total_size
        &&& self.source == DataSource::Random ==> self.data@.len() == SPEEDTEST_RANDOM_LENGTH
        &&& self.source == DataSource::File ==> self.digest@.len() == self.offset
        &&& self.buffer.wf()
    }

    /// Whether the next packet of a running download is not there yet.
    pub open spec fn needs_more(&self, p: ProxyProgress) -> bool {
        self.source == DataSource::Proxy && p.written < chunk_end(
            false,
            self.offset as int,
            self.total_size as int,
        )
    }

    /// Which step is due: the end where everything was sent, or where a download stopped or
    /// takes too long; then waiting for data; then throttling, once for each chunk; then the
    /// next chunk.
    pub open spec fn due(&self, p: ProxyProgress) -> Due {
        if self.offset >= self.total_size {
            Due::Finished
        } else if self.needs_more(p) {
            if p.download_done || p.waited > PROXY_WAIT_LIMIT {
                Due::Finished
            } else {
                Due::Wait
            }
        } else if self.limited && !self.throttled {
            Due::Throttle
        } else {
            Due::Produce
        }
    }

    /// The bytes of the next chunk.
    pub open spec fn wanted(&self) -> int {
        chunk_end(
            self.source == DataSource::Static && !self.limited,
            self.offset as int,
            self.total_size as int,
        ) - self.offset
    }

    /// Whether nothing but the place and the throttle has changed.
    pub open spec fn same_but_place(&self, before: &StreamingBody) -> bool {
        &&& self.source == before.source
        &&& self.total_size == before.total_size
        &&& self.limited == before.limited
        &&& self.data@ == before.data@
        &&& self.expected_hash@ == before.expected_hash@
        &&& self.to_delete == before.to_delete
    }

    fn with_source(source: DataSource, data: Vec<u8>, total_size: usize) -> (r: Self)
        requires
            source == DataSource::Static ==> data@.len() == total_size,
            source == DataSource::Random ==> data@.len() == SPEEDTEST_RANDOM_LENGTH,
        ensures
            r.wf(),
            r.source == source,
            r.offset == 0,
            r.total_size == total_size,
            !r.limited,
            !r.throttled,
            !r.at_end,
            r.data@ == data@,
            r.buffer@ == Seq::<u8>::empty(),
            r.digest@ == Seq::<u8>::empty(),
            r.to_delete is None,
    {
        StreamingBody {
            source,
            offset: 0,
            total_size,
            limited: false,
            throttled: false,
            data,
            buffer: FileBuffer::new(),
            at_end: false,
            digest: Sha1Stream::new(),
            expected_hash: String::new(),
            to_delete: None,
        }
    }

    /// Create a new static body from pre-loaded data.
    pub fn new(data: Vec<u8>) -> (r: Self)
        ensures
            r.wf(),
            r.source == DataSource::Static,
            r.data@ == data@,
            r.offset == 0,
            r.total_size == data@.len(),
            !r.limited,
            !r.throttled,
            r.to_delete is None,
    {
        let total: usize = data.len();
        Self::with_source(DataSource::Static, data, total)
    }

    /// An empty body (for HEAD responses).
    pub fn empty() -> (r: Self)
        ensures
            r.wf(),
            r.source == DataSource::Static,
            r.data@ == Seq::<u8>::empty(),
            r.offset == 0,
            r.total_size == 0,
            !r.limited,
            !r.throttled,
            r.to_delete is None,
    {
        Self::new(Vec::new())
    }

    /// Create a file-streaming body. The caller is responsible for opening the file and
    /// verifying its size.
    pub fn new_file(fileid: String, total_size: usize, expected_hash: String, verify: bool) -> (r: Self)
        ensures
            r.wf(),
            r.source == DataSource::File,
            r.offset == 0,
            r.total_size == total_size,
            !r.limited,
            !r.throttled,
            !r.at_end,
            r.buffer@ == Seq::<u8>::empty(),
            r.digest@ == Seq::<u8>::empty(),
            r.expected_hash@ == expected_hash@,
            r.to_delete == (if verify {
                Some(fileid)
            } else {
                None
            }),
    {
        let mut r = Self::with_source(DataSource::File, Vec::new(), total_size);
        r.expected_hash = expected_hash;
        r.to_delete = if verify {
            Some(fileid)
        } else {
            None
        };
        r
    }

    /// Create a body that serves random-looking chunks from a reusable 8 KiB pool.
    pub fn new_random(total_size: usize) -> (r: Self)
        ensures
            r.wf(),
            r.source == DataSource::Random,
            r.offset == 0,
            r.total_size == total_size,
            !r.limited,
            !r.throttled,
            r.to_delete is None,
    {
        let pool = random_bytes(SPEEDTEST_RANDOM_LENGTH);
        Self::with_source(DataSource::Random, pool, total_size)
    }

    /// Create a proxy-streaming body, which reads what a download writes.
    pub fn new_proxy(total_size: usize) -> (r: Self)
        ensures
            r.wf(),
            r.source == DataSource::Proxy,
            r.offset == 0,
            r.total_size == total_size,
            !r.limited,
            !r.throttled,
            r.to_delete is None,
    {
        Self::with_source(DataSource::Proxy, Vec::new(), total_size)
    }

    /// From now on every chunk is throttled.
    pub fn enable_flow_control(&mut self)
        ensures
            *final(self) == (StreamingBody { limited: true, ..*old(self) }),
    {
        self.limited = true;
    }

    /// The quota for the next chunk was granted.
    pub fn throttle_completed(&mut self)
        ensures
            *final(self) == (StreamingBody { throttled: true, ..*old(self) }),
    {
        self.throttled = true;
    }

    fn next_size(&self) -> (r: usize)
        requires
            self.wf(),
        ensures
            r == self.wanted(),
    {
        let left: usize = self.total_size - self.offset;
        let whole = self.source == DataSource::Static && !self.limited;
        if whole || left < TCP_PACKET_SIZE {
            left
        } else {
            TCP_PACKET_SIZE
        }
    }

    /// What to do next. A random number is drawn for a speed test.
    pub fn poll_frame(&mut self, progress: ProxyProgress) -> (r: BodyStep)
        requires
            old(self).wf(),
        ensures
            final(self).wf(),
            final(self).same_but_place(old(self)),
            exists|n: u32| #[trigger] old(self).is_step(progress, n, *final(self), r),
    {
        let n: u32 = crate::rpc::random_u32();
        self.poll_frame_for(progress, n)
    }

    /// Whether `r` is what to do next, and `after` the body then, with the random number `n`.
    pub open spec fn is_step(&self, p: ProxyProgress, n: u32, after: StreamingBody, r: BodyStep) -> bool {
        match self.due(p) {
            Due::Finished => r == BodyStep::Finished && after == *self,
            Due::Wait => r == BodyStep::Wait && after == *self,
            Due::Throttle => r == BodyStep::Throttle(
                (chunk_end(false, self.offset as int, self.total_size as int) - self.offset) as usize,
            ) && after == *self,
            Due::Produce => match self.source {
                DataSource::Static => {
                    &&& r matches BodyStep::Send(c)
                    &&& c@ == self.data@.subrange(self.offset as int, self.offset + self.wanted())
                    &&& self.moved(after, self.wanted())
                    &&& self.same_read(after)
                },
                DataSource::Random => {
                    let start = random_place(self.data@.len() as int, self.wanted(), n);
                    &&& r matches BodyStep::Send(c)
                    &&& c@ == self.data@.subrange(start, start + self.wanted())
                    &&& self.moved(after, self.wanted())
                    &&& self.same_read(after)
                },
                DataSource::File => if self.buffer@.len() < self.wanted() && !self.at_end {
                    r == BodyStep::Read(
                        read_target(self.buffer@.len() as int, self.wanted()) as usize,
                    ) && after == *self
                } else if self.buffer@.len() == 0 {
                    r == BodyStep::Finished && self.moved(after, 0) && self.same_read(after)
                } else {
                    let size = if self.wanted() < self.buffer@.len() {
                        self.wanted()
                    } else {
                        self.buffer@.len() as int
                    };
                    &&& r matches BodyStep::Send(c)
                    &&& c@ == self.buffer@.take(size)
                    &&& after.buffer@ == self.buffer@.skip(size)
                    &&& after.digest@ == self.digest@ + c@
                    &&& !after.at_end
                    &&& self.moved(after, size)
                },
                DataSource::Proxy => r == BodyStep::Read(self.wanted() as usize) && self.moved(after, 0)
                    && self.same_read(after),
            },
        }
    }

    /// Whether the place has moved on by `n` bytes, and the next chunk is to be throttled.
    pub open spec fn moved(&self, after: StreamingBody, n: int) -> bool {
        after.offset == self.offset + n && !after.throttled
    }

    /// Whether what was read of the file and not sent yet, what was digested of it, and whether
    /// its end was seen, have stayed.
    pub open spec fn same_read(&self, after: StreamingBody) -> bool {
        &&& after.buffer@ == self.buffer@
        &&& after.digest@ == self.digest@
        &&& after.at_end == self.at_end
    }

    /// What to do next, with the random number `n`.
    pub fn poll_frame_for(&mut self, progress: ProxyProgress, n: u32) -> (r: BodyStep)
        requires
            old(self).wf(),
        ensures
            final(self).wf(),
            final(self).same_but_place(old(self)),
            old(self).is_step(progress, n, *final(self), r),
    {
        if self.offset >= self.total_size {
            return BodyStep::Finished;
        }
        let left: usize = self.total_size - self.offset;
        let packet: usize = if left < TCP_PACKET_SIZE {
            left
        } else {
            TCP_PACKET_SIZE
        };
        if self.source == DataSource::Proxy && progress.written < (self.offset + packet) as u64 {
            if progress.download_done || progress.waited > PROXY_WAIT_LIMIT {
                return BodyStep::Finished;
            }
            return BodyStep::Wait;
        }
        if self.limited && !self.throttled {
            return BodyStep::Throttle(packet);
        }
        let size = self.next_size();
        match self.source {
            DataSource::Static => {
                let c = copy_range(&self.data, self.offset, self.offset + size);
                self.throttled = false;
                self.offset = self.offset + size;
                BodyStep::Send(c)
            },
            DataSource::Random => {
                let start = place_in_pool(self.data.len(), size, n);
                let c = copy_range(&self.data, start, start + size);
                self.throttled = false;
                self.offset = self.offset + size;
                BodyStep::Send(c)
            },
            DataSource::File => self.next_of_file(size),
            DataSource::Proxy => {
                self.throttled = false;
                BodyStep::Read(size)
            },
        }
    }

    fn next_of_file(&mut self, size: usize) -> (r: BodyStep)
        requires
            old(self).wf(),
            old(self).source == DataSource::File,
            size == old(self).wanted(),
            old(self).offset < old(self).total_size,
        ensures
            final(self).wf(),
            final(self).same_but_place(old(self)),
            forall|p: ProxyProgress, n: u32|
                old(self).due(p) is Produce ==> #[trigger] old(self).is_step(p, n, *final(self), r),
    {
        let have = self.buffer.len();
        if !self.at_end {
            if let Some(target) = self.buffer.next_read(size) {
                return BodyStep::Read(target);
            }
        }
        self.throttled = false;
        if have == 0 {
            return BodyStep::Finished;
        }
        let n: usize = if size < have {
            size
        } else {
            have
        };
        let c = self.buffer.take(n);
        self.digest.update(c.as_slice());
        self.at_end = false;
        self.offset = self.offset + n;
        BodyStep::Send(c)
    }

    /// Bytes of the cached file have been read; none where the file ended.
    pub fn file_read(&mut self, bytes: &[u8])
        requires
            old(self).wf(),
        ensures
            final(self).wf(),
            final(self).same_but_place(old(self)),
            final(self).offset == old(self).offset,
            final(self).throttled == old(self).throttled,
            final(self).digest@ == old(self).digest@,
            final(self).buffer@ == old(self).buffer@ + bytes@,
            final(self).at_end == (bytes@.len() == 0),
    {
        self.buffer.add(bytes);
        self.at_end = bytes.len() == 0;
    }

    /// So many bytes of the download have been read and are sent. Says whether there were any:
    /// if not, the body has ended.
    pub fn proxy_read(&mut self, n: usize) -> (r: bool)
        requires
            old(self).wf(),
            old(self).source == DataSource::Proxy,
            old(self).offset + n <= old(self).total_size,
        ensures
            final(self).wf(),
            *final(self) == (StreamingBody {
                offset: (old(self).offset + n) as usize,
                ..*old(self)
            }),
            r == (n > 0),
    {
        self.offset = self.offset + n;
        n > 0
    }

    /// Signal the download task that the body has finished reading. For a cached file that
    /// was sent whole, verify its digest, once: the digest only covers bytes that were sent.
    pub fn finish(&mut self) -> (r: FinishAction)
        ensures
            (*final(self), r) == after_finish(*old(self), crate::utils::sha1_text(old(self).digest@)),
    {
        let actual = self.digest.hex();
        self.finish_with(actual.as_str())
    }

    /// Finishes a body whose sent bytes have the digest `actual`.
    pub fn finish_with(&mut self, actual: &str) -> (r: FinishAction)
        ensures
            (*final(self), r) == after_finish(*old(self), actual@),
    {
        match self.source {
            DataSource::Static => FinishAction::Nothing,
            DataSource::Random => FinishAction::Nothing,
            DataSource::Proxy => FinishAction::WakeDownloader,
            DataSource::File => {
                if self.offset < self.total_size {
                    return FinishAction::Nothing;
                }
                match self.to_delete.take() {
                    Some(fileid) => {
                        if crate::text::str_eq(actual, self.expected_hash.as_str()) {
                            FinishAction::Nothing
                        } else {
                            FinishAction::DeleteFile(fileid)
                        }
                    },
                    None => FinishAction::Nothing,
                }
            },
        }
    }

    /// How far the body has come, and why it ended if it has.
    pub fn completion_status(&self, ended: Option<&'static str>) -> (r: BodyCompletionSnapshot)
        ensures
            r.offset == self.offset,
            r.total_size == self.total_size,
            r.completion == (match ended {
                None => BodyCompletion::Running,
                Some(reason) => if self.offset >= self.total_size {
                    BodyCompletion::Complete
                } else {
                    BodyCompletion::Incomplete(reason)
                },
            }),
    {
        let completion = match ended {
            None => BodyCompletion::Running,
            Some(reason) => if self.offset >= self.total_size {
                BodyCompletion::Complete
            } else {
                BodyCompletion::Incomplete(reason)
            },
        };
        BodyCompletionSnapshot { completion, offset: self.offset, total_size: self.total_size }
    }
}

/// Whether a body is running, and how it ended.
#[derive(Debug, Clone, Copy)]
pub enum BodyCompletion {
    Running,
    Complete,
    Incomplete(&'static str),
}

/// How far a body has come.
#[derive(Debug, Clone, Copy)]
pub struct BodyCompletionSnapshot {
    pub completion: BodyCompletion,
    pub offset: usize,
    pub total_size: usize,
}

/// `rand::Rng::fill_bytes`: as many bytes as were asked for, of any value.
#[verifier::external_body]
fn random_bytes(n: usize) -> (r: Vec<u8>)
    ensures
        r@.len() == n,
{
    let mut bytes = vec![0u8; n];
    rand::Rng::fill_bytes(&mut rand::rng(), &mut bytes);
    bytes
}

fn copy_range(data: &Vec<u8>, start: usize, end: usize) -> (r: Vec<u8>)
    requires
        start <= end <= data@.len(),
    ensures
        r@ == data@.subrange(start as int, end as int),
{
    let mut r: Vec<u8> = Vec::new();
    let mut i: usize = start;
    while i < end
        invariant
            start <= i <= end <= data@.len(),
            r@ == data@.subrange(start as int, i as int),
        decreases end - i,
    {
        r.push(data[i]);
        i += 1;
        assert(r@ =~= data@.subrange(start as int, i as int));
    }
    r
}

fn place_in_pool(len: usize, size: usize, n: u32) -> (r: usize)
    requires
        size <= len <= SPEEDTEST_RANDOM_LENGTH,
    ensures
        r == random_place(len as int, size as int, n),
        r + size <= len,
{
    if len <= size {
        0
    } else {
        let room: u32 = (len - size + 1) as u32;
        (n % room) as usize
    }
}

/// The pieces of a sequence, one behind the other.
pub open spec fn put_together(pieces: Seq<Seq<u8>>) -> Seq<u8>
    decreases pieces.len(),
{
    if pieces.len() == 0 {
        seq![]
    } else {
        pieces.first() + put_together(pieces.skip(1))
    }
}

/// A static body is sent whole and in order, in one chunk or in packets.
pub proof fn static_body_is_sent_whole(data: Seq<u8>, whole: bool, offset: int)
    requires
        0 <= offset <= data.len(),
    ensures
        put_together(chunks(data, whole, offset)) == data.skip(offset),
    decreases data.len() - offset,
{
    if offset < data.len() {
        let end = chunk_end(whole, offset, data.len() as int);
        static_body_is_sent_whole(data, whole, end);
        let c = chunks(data, whole, offset);
        assert(c.skip(1) =~= chunks(data, whole, end));
        assert(c.first() == data.subrange(offset, end));
        assert(data.subrange(offset, end) + data.skip(end) =~= data.skip(offset));
    } else {
        assert(data.skip(offset) =~= Seq::<u8>::empty());
    }
}

/// A limited body never sends more than a packet at a time, nor beyond its size.
pub proof fn packets_stay_small(body: StreamingBody, p: ProxyProgress, n: u32, after: StreamingBody, r: BodyStep)
    requires
        body.wf(),
        body.limited,
        body.is_step(p, n, after, r),
    ensures
        r matches BodyStep::Send(c) ==> c@.len() <= TCP_PACKET_SIZE && body.offset + c@.len()
            <= body.total_size,
{
}

} // verus!
