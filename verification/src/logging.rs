//! Log files: when they are opened and when they are put aside.

use vstd::prelude::*;

verus! {

/// The lines that a file of all messages holds.
pub const OUTPUT_LINES: usize = 100_000;

/// The lines that a file of warnings and errors holds.
pub const ERROR_LINES: usize = 10_000;

#[derive(Debug, Clone, Copy, PartialEq, Eq, Structural)]
pub enum LogLevel {
    Debug,
    Info,
    Warning,
    Error,
}

impl LogLevel {
    /// The bit of the level.
    pub fn bit(self) -> (r: u8)
        ensures
            r == (match self {
                LogLevel::Debug => 1u8,
                LogLevel::Info => 2,
                LogLevel::Warning => 4,
                LogLevel::Error => 8,
            }),
    {
        match self {
            LogLevel::Debug => 1,
            LogLevel::Info => 2,
            LogLevel::Warning => 4,
            LogLevel::Error => 8,
        }
    }
}

/// A log file that is put aside after so many lines and one more.
#[derive(Debug)]
pub struct LineWriter {
    pub is_open: bool,
    pub lines: usize,
    pub limit: usize,
    pub rotate_on_open: bool,
}

/// What to do before a line can be written.
#[derive(Debug, Clone, Copy, PartialEq, Eq, Structural)]
pub enum OpenStep {
    Ready,
    /// Put the old file aside.
    Rotate,
    /// Open a new file and write its first lines.
    Open,
}

/// The lines of some bytes, each with its line end; the last may have none.
pub open spec fn physical_lines(data: Seq<u8>) -> Seq<Seq<u8>>
    decreases data.len(),
{
    if data.len() == 0 {
        seq![]
    } else {
        let i = line_length(data);
        if 0 < i <= data.len() {
            seq![data.take(i)] + physical_lines(data.skip(i))
        } else {
            seq![]
        }
    }
}

/// The length of the first line, with its line end where it has one.
pub open spec fn line_length(data: Seq<u8>) -> int
    decreases data.len(),
{
    if data.len() == 0 {
        0
    } else if data[0] == 10 {
        1
    } else {
        1 + line_length(data.skip(1))
    }
}

proof fn lemma_line_length(data: Seq<u8>)
    ensures
        0 <= line_length(data) <= data.len(),
        data.len() > 0 ==> line_length(data) > 0,
    decreases data.len(),
{
    if data.len() > 0 && data[0] != 10 {
        lemma_line_length(data.skip(1));
    }
}

/// The end of the line that begins at `start`.
pub fn line_end(data: &[u8], start: usize) -> (r: usize)
    requires
        start < data@.len(),
    ensures
        start < r <= data@.len(),
        r - start == line_length(data@.skip(start as int)),
{
    let mut i: usize = start;
    let ghost whole = line_length(data@.skip(start as int));
    proof {
        lemma_line_length(data@.skip(start as int));
    }
    while i < data.len()
        invariant
            start <= i <= data@.len(),
            whole == line_length(data@.skip(start as int)),
            whole == i - start + line_length(data@.skip(i as int)),
            start < data@.len(),
            0 < whole,
        decreases data.len() - i,
    {
        assert(data@.skip(i as int)[0] == data@[i as int]);
        assert(data@.skip(i as int).skip(1) =~= data@.skip(i + 1));
        if data[i] == 10 {
            return i + 1;
        }
        i += 1;
    }
    assert(data@.skip(i as int) =~= seq![]);
    i
}

/// The writer once a line was written.
pub open spec fn after_line(w: LineWriter, line: Seq<u8>) -> LineWriter {
    if line.len() > 0 && line.last() == 10 {
        let lines = w.lines.wrapping_add(1);
        if lines > w.limit {
            LineWriter { is_open: false, lines, rotate_on_open: true, ..w }
        } else {
            LineWriter { lines, ..w }
        }
    } else {
        w
    }
}

impl LineWriter {
    pub fn new(limit: usize) -> (r: Self)
        ensures
            r == (LineWriter { is_open: false, lines: 0, limit, rotate_on_open: true }),
    {
        LineWriter { is_open: false, lines: 0, limit, rotate_on_open: true }
    }

    /// What to do before a line can be written.
    pub fn open_step(&self) -> (r: OpenStep)
        ensures
            r == (if self.is_open {
                OpenStep::Ready
            } else if self.rotate_on_open {
                OpenStep::Rotate
            } else {
                OpenStep::Open
            }),
    {
        if self.is_open {
            OpenStep::Ready
        } else if self.rotate_on_open {
            OpenStep::Rotate
        } else {
            OpenStep::Open
        }
    }

    /// The old file was put aside. If opening the new file fails, the next try leaves that
    /// file alone.
    pub fn rotated(&mut self)
        ensures
            *final(self) == (LineWriter { rotate_on_open: false, ..*old(self) }),
    {
        self.rotate_on_open = false;
    }

    /// The new file is open.
    pub fn opened(&mut self)
        ensures
            *final(self) == (LineWriter { is_open: true, lines: 0, ..*old(self) }),
    {
        self.is_open = true;
        self.lines = 0;
    }

    /// A line was written. Says whether the file is full: then it is closed, and put aside
    /// before another is opened.
    pub fn line_written(&mut self, line: &[u8]) -> (r: bool)
        requires
            old(self).is_open,
        ensures
            *final(self) == after_line(*old(self), line@),
            r == !final(self).is_open,
    {
        if line.len() == 0 || line[line.len() - 1] != 10 {
            return false;
        }
        self.lines = self.lines.wrapping_add(1);
        if self.lines > self.limit {
            self.is_open = false;
            self.rotate_on_open = true;
            return true;
        }
        false
    }
}

/// The bytes that are written are those of the lines, in their order.
pub proof fn lines_are_written_whole(data: Seq<u8>)
    ensures
        crate::server::body::put_together(physical_lines(data)) == data,
    decreases data.len(),
{
    if data.len() > 0 {
        lemma_line_length(data);
        let i = line_length(data);
        lines_are_written_whole(data.skip(i));
        let p = physical_lines(data);
        assert(p.skip(1) =~= physical_lines(data.skip(i)));
        assert(data.take(i) + data.skip(i) =~= data);
    }
}

/// A file is put aside only once it holds more lines than its limit.
pub proof fn only_full_files_are_put_aside(w: LineWriter, line: Seq<u8>)
    requires
        w.is_open,
        w.lines < usize::MAX,
        !after_line(w, line).is_open,
    ensures
        w.lines + 1 > w.limit,
{
}

} // verus!
