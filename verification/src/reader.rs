//! The state of a game-log reader: the checked header, the read position and
//! the pending record, with the decisions of reading records line by line.
//!
//! The file itself is read elsewhere; this module is told what was read and
//! answers what to do next.
use std::collections::VecDeque;
use vstd::prelude::*;
use vstd::utf8::*;

use crate::language::{generate_language, language_table};
use crate::pattern::{
    capture_group, capture_group_exec, regex_captures, regex_captures_result, regex_is_match,
    regex_is_match_result,
};
use crate::text::{
    contains_seq, parse_u64, spec_parse_u64, lemma_contains_concat, lemma_starts_with_contains, starts_with_seq, str_contains,
    str_starts_with,
};
use vstd::string::*;

verus! {

/// The rule that opens and closes the header.
pub const HEADER_RULE: &'static str = "------------";

/// Second header line: the log's title.
pub const HEADER_TITLE_PATTERN: &'static str = r"^\s\s.*\r?\n";

/// Third header line: `  Listener: <name>`.
pub const HEADER_LISTENER_PATTERN: &'static str = r"^\s\s.*:.*\r?\n";

/// Fourth header line: `  Session Started: YYYY.MM.DD hh:mm:ss`.
pub const HEADER_SESSION_PATTERN: &'static str =
    r"\s\s.*:\s+\d{4}.\d{2}.\d{2}\s\d{2}:\d{2}:\d{2}\r?\n";

/// The listener's name in the third header line is capture group 1.
pub const LISTENER_NAME_PATTERN: &'static str = r"^\s\s.*:\s+(.*?)\r?\n";

/// A game-log file name `YYYYMMDD_hhmmss_<user id>.txt`; the id is group 1.
pub const FILE_NAME_PATTERN: &'static str = r"^\d{8}_\d{6}_(\d+).txt$";

/// Every record of the log body starts with this mark.
pub const RECORD_MARK: &'static str = "[ ";

/// The number of lines of a log header.
pub const HEADER_LINES: usize = 5;

// ---------------------------------------------------------------------------
// Header
// ---------------------------------------------------------------------------

/// The characters of each string.
pub open spec fn string_views(v: Seq<String>) -> Seq<Seq<char>> {
    v.map_values(|s: String| s@)
}

/// The number of bytes of the UTF-8 encoding of each line, added up.
pub open spec fn total_bytes(lines: Seq<Seq<char>>) -> nat
    decreases lines.len(),
{
    if lines.len() == 0 {
        0
    } else {
        total_bytes(lines.drop_last()) + encode_utf8(lines.last()).len()
    }
}

/// The bytes of the (at most five) header lines can be counted in a `u64`.
pub open spec fn header_bytes_fit(lines: Seq<Seq<char>>) -> bool {
    total_bytes(
        lines.take(
            if lines.len() < 5 {
                lines.len() as int
            } else {
                5
            },
        ),
    ) <= u64::MAX
}

/// Whether line `k` (0-based) of a header has the form it must have.
pub open spec fn header_line_ok(k: int, line: Seq<char>) -> bool {
    if k == 0 || k == 4 {
        contains_seq(line, HEADER_RULE@)
    } else if k == 1 {
        regex_is_match_result(HEADER_TITLE_PATTERN@, line) == Some(true)
    } else if k == 2 {
        regex_is_match_result(HEADER_LISTENER_PATTERN@, line) == Some(true)
    } else {
        regex_is_match_result(HEADER_SESSION_PATTERN@, line) == Some(true)
    }
}

/// From line `k` on: the index of the first header line that is wrong, or
/// where the lines (or the five header lines) end.
pub open spec fn first_bad_from(lines: Seq<Seq<char>>, k: nat) -> nat
    decreases 5 - k,
{
    if k >= 5 || k >= lines.len() {
        k
    } else if !header_line_ok(k as int, lines[k as int]) {
        k
    } else {
        first_bad_from(lines, k + 1)
    }
}

/// A reader just created for a file of `size` bytes that opens with the
/// header lines `lines`: nothing pending, the file closed, reading to start
/// after the five header lines.
pub open spec fn fresh_reader(size: u64, lines: Seq<Seq<char>>) -> ReaderView {
    ReaderView {
        buffer: Seq::empty(),
        size,
        offset: total_bytes(lines.take(5)) as u64,
        header: lines.take(5),
        header_offset: total_bytes(lines.take(5)) as u64,
        reading: false,
    }
}

/// The index of the first wrong header line, or the number of header lines
/// that were there (at most five) when none is wrong.
pub open spec fn first_bad_line(lines: Seq<Seq<char>>) -> nat {
    first_bad_from(lines, 0)
}

/// The error for a wrong header line `k`.
pub open spec fn header_line_error(k: int) -> Seq<char> {
    if k == 0 {
        "Header parse error: line #0"@
    } else if k == 1 {
        "Header parse error: line #1"@
    } else if k == 2 {
        "Header parse error: line #2"@
    } else if k == 3 {
        "Header parse error: line #3"@
    } else {
        "Header parse error: line #4"@
    }
}

/// The error for a header of fewer than five lines.
pub open spec fn short_header_error() -> Seq<char> {
    "Header parse error: header contains less that 5 lines"@
}

/// What [`LogReader::new`] answers for the lines at the start of a file:
/// `None` when they open with a valid header, else the error.
pub open spec fn header_verdict(lines: Seq<Seq<char>>) -> Option<Seq<char>> {
    let c = first_bad_line(lines);
    if c < 5 && c < lines.len() {
        Some(header_line_error(c as int))
    } else if c < 5 {
        Some(short_header_error())
    } else {
        None
    }
}

proof fn lemma_first_bad_from(lines: Seq<Seq<char>>, k: nat)
    requires
        k <= 5,
        k <= lines.len(),
        forall|j: int| 0 <= j < k ==> header_line_ok(j, #[trigger] lines[j]),
    ensures
        ({
            let c = first_bad_from(lines, k);
            &&& k <= c <= 5
            &&& c <= lines.len()
            &&& forall|j: int| 0 <= j < c ==> header_line_ok(j, #[trigger] lines[j])
            &&& (c < 5 && c < lines.len()) ==> !header_line_ok(c as int, lines[c as int])
        }),
    decreases 5 - k,
{
    if k >= 5 || k >= lines.len() {
    } else if !header_line_ok(k as int, lines[k as int]) {
    } else {
        lemma_first_bad_from(lines, k + 1);
    }
}

/// A valid header has (at least) five lines, all of the right form.
pub proof fn lemma_valid_header(lines: Seq<Seq<char>>)
    requires
        header_verdict(lines) is None,
    ensures
        lines.len() >= 5,
        forall|j: int| 0 <= j < 5 ==> header_line_ok(j, #[trigger] lines[j]),
{
    lemma_first_bad_from(lines, 0);
}

/// Whether header line `k` has the form it must have.
fn header_line_check(k: usize, line: &str) -> (res: bool)
    requires
        k < 5,
    ensures
        res == header_line_ok(k as int, line@),
{
    if k == 0 || k == 4 {
        str_contains(line, HEADER_RULE)
    } else if k == 1 {
        regex_is_match(HEADER_TITLE_PATTERN, line) == Some(true)
    } else if k == 2 {
        regex_is_match(HEADER_LISTENER_PATTERN, line) == Some(true)
    } else {
        regex_is_match(HEADER_SESSION_PATTERN, line) == Some(true)
    }
}

fn header_line_error_text(k: usize) -> (res: &'static str)
    ensures
        res@ == header_line_error(k as int),
{
    if k == 0 {
        "Header parse error: line #0"
    } else if k == 1 {
        "Header parse error: line #1"
    } else if k == 2 {
        "Header parse error: line #2"
    } else if k == 3 {
        "Header parse error: line #3"
    } else {
        "Header parse error: line #4"
    }
}

// ---------------------------------------------------------------------------
// Reading records
// ---------------------------------------------------------------------------

/// Why reading a record fails on a line of the body.
#[derive(Clone, Copy, Debug, PartialEq, Eq, Structural)]
pub enum ReadFault {
    /// The record mark stands inside the line instead of at its start.
    MisplacedMark,
    /// A continuation line came while no record was open.
    NoOpenRecord,
}

/// What to do when a record is asked for.
#[derive(Debug)]
pub enum ReadStart {
    /// The answer is known without reading the file.
    Done(Option<String>),
    /// Open the file, seek to this byte offset and read lines.
    OpenAt(u64),
    /// Go on reading lines from the open file.
    ReadLines,
}

/// What to do after a line of the body was read.
#[derive(Debug)]
pub enum LineStep {
    /// The record to hand out (`None`: there is none).
    Done(Option<String>),
    /// Read the next line.
    ReadMore,
}

/// A [`ReadStart`] or a [`LineStep`], with records as characters.
pub ghost enum StepView {
    Done(Option<Seq<char>>),
    OpenAt(u64),
    ReadLines,
    ReadMore,
}

/// The state of a [`LogReader`] as mathematical values.
pub ghost struct ReaderView {
    /// Records not yet handed out (at most one).
    pub buffer: Seq<Seq<char>>,
    /// The length of the file when it was last opened.
    pub size: u64,
    /// How many bytes of the file have been consumed.
    pub offset: u64,
    /// The five header lines.
    pub header: Seq<Seq<char>>,
    /// Where the body starts.
    pub header_offset: u64,
    /// Whether the file is open for reading.
    pub reading: bool,
}

impl ReaderView {
    /// The invariant of a reader: at most one pending record, none while the
    /// file is closed, and every pending record holds the record mark.
    pub open spec fn wf(self) -> bool {
        &&& self.buffer.len() <= 1
        &&& !self.reading ==> self.buffer.len() == 0
        &&& forall|i: int| 0 <= i < self.buffer.len() ==> contains_seq(#[trigger] self.buffer[i], RECORD_MARK@)
        &&& self.header.len() == 5
    }
}

/// All pending text, in order.
pub open spec fn joined(lines: Seq<Seq<char>>) -> Seq<char>
    decreases lines.len(),
{
    if lines.len() == 0 {
        Seq::<char>::empty()
    } else {
        joined(lines.drop_last()) + lines.last()
    }
}

/// The text a step hands out.
pub open spec fn emitted(step: StepView) -> Seq<char> {
    match step {
        StepView::Done(Some(s)) => s,
        _ => Seq::<char>::empty(),
    }
}

/// The start of a read: what [`LogReader::begin_read`] does, given the
/// file's current length when the file is closed.
pub open spec fn begin_spec(r: ReaderView, file_len: u64) -> (ReaderView, StepView) {
    if !r.reading {
        if r.offset == file_len {
            (r, StepView::Done(None))
        } else {
            (ReaderView { size: file_len, reading: true, ..r }, StepView::OpenAt(r.offset))
        }
    } else if r.offset == r.size {
        if r.buffer.len() == 0 {
            (ReaderView { reading: false, ..r }, StepView::Done(None))
        } else {
            (
                ReaderView { buffer: r.buffer.drop_first(), reading: false, ..r },
                StepView::Done(Some(r.buffer[0])),
            )
        }
    } else {
        (r, StepView::ReadLines)
    }
}

/// Where reading a body line of `num` bytes goes wrong: a line that does
/// not end the file and holds the record mark elsewhere than at its start,
/// or a line without the mark while no record is open.
pub open spec fn feed_fault(r: ReaderView, line: Seq<char>, num: u64) -> Option<ReadFault> {
    if r.offset + num == r.size {
        if num != 0 && !contains_seq(line, RECORD_MARK@) && r.buffer.len() == 0 {
            Some(ReadFault::NoOpenRecord)
        } else {
            None
        }
    } else if starts_with_seq(line, RECORD_MARK@) {
        None
    } else if contains_seq(line, RECORD_MARK@) {
        Some(ReadFault::MisplacedMark)
    } else if r.buffer.len() == 0 {
        Some(ReadFault::NoOpenRecord)
    } else {
        None
    }
}

/// A line of `num` bytes read from the body (not a fault): what
/// [`LogReader::feed_line`] does. When the line ends the file and nothing
/// is left pending, the file is closed, so that a later read opens it again
/// and reads what was appended.
pub open spec fn feed_spec(r: ReaderView, line: Seq<char>, num: u64) -> (ReaderView, StepView) {
    let offset = (r.offset + num) as u64;
    let r1 = ReaderView { offset, ..r };
    if offset == r.size {
        if num == 0 {
            (
                ReaderView { buffer: Seq::empty(), reading: false, ..r1 },
                StepView::Done(
                    if r.buffer.len() == 0 {
                        None
                    } else {
                        Some(r.buffer[0])
                    },
                ),
            )
        } else if contains_seq(line, RECORD_MARK@) {
            let b = r.buffer.push(line);
            (
                ReaderView { buffer: b.drop_first(), reading: r.buffer.len() > 0, ..r1 },
                StepView::Done(Some(b[0])),
            )
        } else {
            (
                ReaderView { buffer: Seq::empty(), reading: false, ..r1 },
                StepView::Done(Some(r.buffer[0] + line)),
            )
        }
    } else if starts_with_seq(line, RECORD_MARK@) {
        if r.buffer.len() == 0 {
            (ReaderView { buffer: seq![line], ..r1 }, StepView::ReadMore)
        } else {
            (ReaderView { buffer: seq![line], ..r1 }, StepView::Done(Some(r.buffer[0])))
        }
    } else {
        (ReaderView { buffer: seq![r.buffer[0] + line], ..r1 }, StepView::ReadMore)
    }
}

/// A [`ReadStart`] as a [`StepView`].
pub open spec fn start_view(s: ReadStart) -> StepView {
    match s {
        ReadStart::Done(None) => StepView::Done(None),
        ReadStart::Done(Some(t)) => StepView::Done(Some(t@)),
        ReadStart::OpenAt(o) => StepView::OpenAt(o),
        ReadStart::ReadLines => StepView::ReadLines,
    }
}

/// A [`LineStep`] as a [`StepView`].
pub open spec fn line_step_view(s: LineStep) -> StepView {
    match s {
        LineStep::Done(None) => StepView::Done(None),
        LineStep::Done(Some(t)) => StepView::Done(Some(t@)),
        LineStep::ReadMore => StepView::ReadMore,
    }
}

// ---------------------------------------------------------------------------
// The reader
// ---------------------------------------------------------------------------

/// A game-log reader: its checked header, how far the file has been read,
/// and the record that is still being gathered.
#[derive(Debug)]
pub struct LogReader {
    line_buffer: VecDeque<String>,
    size: u64,
    offset: u64,
    header: Vec<String>,
    header_offset: u64,
    reading: bool,
}

impl View for LogReader {
    type V = ReaderView;

    closed spec fn view(&self) -> ReaderView {
        ReaderView {
            buffer: string_views(self.line_buffer@),
            size: self.size,
            offset: self.offset,
            header: string_views(self.header@),
            header_offset: self.header_offset,
            reading: self.reading,
        }
    }
}

impl LogReader {
    /// Creates the reader of a file of `size` bytes whose first lines, as read
    /// one by one with their line ends, are `lines`; fails unless they open
    /// with a valid five-line header. Reading starts after the header.
    pub fn new(size: u64, lines: &Vec<String>) -> (res: Result<Self, &'static str>)
        requires
            header_bytes_fit(string_views(lines@)),
        ensures
            match res {
                Ok(r) => {
                    &&& header_verdict(string_views(lines@)) is None
                    &&& r@.wf()
                    &&& r@ == fresh_reader(size, string_views(lines@))
                },
                Err(e) => header_verdict(string_views(lines@)) == Some(e@),
            },
    {
        let mut this = LogReader {
            line_buffer: VecDeque::with_capacity(3),
            size,
            offset: 0,
            header: Vec::with_capacity(6),
            header_offset: 0,
            reading: false,
        };
        assert(this@.header =~= Seq::<Seq<char>>::empty());
        assert(this@.buffer =~= Seq::<Seq<char>>::empty());
        match this.check_header(lines) {
            Err(e) => {
                proof {
                    lemma_first_bad_from(string_views(lines@), 0);
                }
                Err(e)
            },
            Ok(()) => {
                proof {
                    lemma_first_bad_from(string_views(lines@), 0);
                    assert(this@.buffer =~= Seq::<Seq<char>>::empty());
                    assert(Seq::<Seq<char>>::empty() + string_views(lines@).take(5) =~= string_views(
                        lines@,
                    ).take(5));
                }
                Ok(this)
            },
        }
    }

    /// Checks the header lines `lines` (the first lines of the file, as read
    /// one by one) and keeps them. Each line that passes is kept until one
    /// fails; when all five pass, reading is set to start after them. The
    /// answer is `Ok` when no line fails and five lines are kept in all.
    pub fn check_header(&mut self, lines: &Vec<String>) -> (res: Result<(), &'static str>)
        requires
            header_bytes_fit(string_views(lines@)),
        ensures
            ({
                let ls = string_views(lines@);
                let c = first_bad_line(ls);
                let bad = c < 5 && c < ls.len();
                &&& final(self)@.header == old(self)@.header + ls.take(c as int)
                &&& final(self)@.buffer == old(self)@.buffer
                &&& final(self)@.size == old(self)@.size
                &&& final(self)@.reading == old(self)@.reading
                &&& if c == 5 {
                    &&& final(self)@.offset == total_bytes(ls.take(5))
                    &&& final(self)@.header_offset == total_bytes(ls.take(5))
                } else {
                    &&& final(self)@.offset == old(self)@.offset
                    &&& final(self)@.header_offset == old(self)@.header_offset
                }
                &&& match res {
                    Ok(()) => !bad && old(self)@.header.len() + c == 5,
                    Err(e) => if bad {
                        e@ == header_line_error(c as int)
                    } else {
                        old(self)@.header.len() + c != 5 && e@ == short_header_error()
                    },
                }
            }),
    {
        let ghost ls = string_views(lines@);
        proof {
            lemma_first_bad_from(ls, 0);
        }
        let ghost c = first_bad_line(ls);
        let n = lines.len();
        let mut offset: u64 = 0;
        let mut i: usize = 0;
        while i < n && i < HEADER_LINES
            invariant
                n == lines@.len(),
                ls == string_views(lines@),
                c == first_bad_line(ls),
                i <= c,
                i <= 5,
                forall|j: int| 0 <= j < c ==> header_line_ok(j, #[trigger] ls[j]),
                (c < 5 && c < ls.len()) ==> !header_line_ok(c as int, ls[c as int]),
                c <= 5,
                c <= ls.len(),
                offset == total_bytes(ls.take(i as int)),
                header_bytes_fit(ls),
                self@.header == old(self)@.header + ls.take(i as int),
                self@.buffer == old(self)@.buffer,
                self@.size == old(self)@.size,
                self@.reading == old(self)@.reading,
                i < 5 ==> self@.offset == old(self)@.offset,
                i < 5 ==> self@.header_offset == old(self)@.header_offset,
                i == 5 ==> self@.offset == offset,
                i == 5 ==> self@.header_offset == offset,
            decreases n - i,
        {
            let line = &lines[i];
            assert(ls[i as int] == line@);
            if !header_line_check(i, line.as_str()) {
                return Err(header_line_error_text(i));
            }
            assert(i < c);
            let bytes = line.as_str().as_bytes().len();
            proof {
                assert(ls.take(i + 1).drop_last() =~= ls.take(i as int));
                assert(ls.take(i + 1).last() == line@);
                lemma_total_bytes_prefix(
                    ls,
                    i + 1,
                    if ls.len() < 5 {
                        ls.len() as int
                    } else {
                        5
                    },
                );
            }
            offset = offset + bytes as u64;
            if i == 4 {
                self.offset = offset;
                self.header_offset = offset;
            }
            let ghost prev = self.header@;
            self.header.push(line.clone());
            proof {
                assert(string_views(self.header@) =~= string_views(prev).push(line@));
                assert(ls.take(i + 1) =~= ls.take(i as int).push(line@));
            }
            i = i + 1;
        }
        assert(i == c);
        if self.header.len() != HEADER_LINES {
            return Err("Header parse error: header contains less that 5 lines");
        }
        Ok(())
    }

    /// How many bytes of the file have been consumed.
    pub fn offset(&self) -> (res: u64)
        ensures
            res == self@.offset,
    {
        self.offset
    }

    /// Whether the file is open for reading (the reader's file handle exists).
    pub fn is_reading(&self) -> (res: bool)
        ensures
            res == self@.reading,
    {
        self.reading
    }

    /// Whether a file that is now `file_len` bytes long holds bytes not read
    /// yet.
    pub fn is_changed(&self, file_len: u64) -> (res: bool)
        ensures
            res == (file_len > self@.offset),
    {
        file_len > self.offset
    }

    /// First step of reading one record (`read_multiline`). While the file is
    /// closed, `file_len` is its current length (and `None` while it is open).
    /// When nothing is left, the answer is `Done(None)`; when the file has
    /// been read to its end, the file is closed and the pending record, if
    /// any, handed out; otherwise the file is to be (opened and) read on.
    pub fn begin_read(&mut self, file_len: Option<u64>) -> (res: ReadStart)
        requires
            old(self)@.wf(),
            file_len is Some <==> !old(self)@.reading,
        ensures
            final(self)@.wf(),
            (final(self)@, start_view(res)) == begin_spec(
                old(self)@,
                match file_len {
                    Some(l) => l,
                    None => 0,
                },
            ),
    {
        if !self.reading {
            let len = match file_len {
                Some(l) => l,
                None => 0,
            };
            if self.offset == len {
                return ReadStart::Done(None);
            }
            self.size = len;
            self.reading = true;
            return ReadStart::OpenAt(self.offset);
        }
        if self.offset == self.size {
            self.reading = false;
            if self.line_buffer.len() == 0 {
                return ReadStart::Done(None);
            }
            let first = self.line_buffer.pop_front();
            proof {
                assert(string_views(self.line_buffer@) =~= old(self)@.buffer.drop_first());
            }
            return ReadStart::Done(first);
        }
        ReadStart::ReadLines
    }

    /// Whether the body line `line` of `num` bytes cannot be read on (see
    /// [`feed_fault`]); [`LogReader::feed_line`] takes only lines that can.
    pub fn feed_fault(&self, line: &str, num: u64) -> (res: Option<ReadFault>)
        requires
            self@.offset + num <= u64::MAX,
        ensures
            res == feed_fault(self@, line@, num),
    {
        if self.offset + num == self.size {
            if num != 0 && !str_contains(line, RECORD_MARK) && self.line_buffer.len() == 0 {
                Some(ReadFault::NoOpenRecord)
            } else {
                None
            }
        } else if str_starts_with(line, RECORD_MARK) {
            None
        } else if str_contains(line, RECORD_MARK) {
            Some(ReadFault::MisplacedMark)
        } else if self.line_buffer.len() == 0 {
            Some(ReadFault::NoOpenRecord)
        } else {
            None
        }
    }

    /// Next step of reading one record: `line` (with its line end) was read
    /// from the body and is `num` bytes long (`num == 0` at the end of the
    /// file). A line that starts with the record mark opens a new record and
    /// hands out the pending one; any other line continues the pending
    /// record. At the file's end the pending record is handed out, and the
    /// file is closed once nothing is left pending.
    pub fn feed_line(&mut self, line: String, num: u64) -> (res: LineStep)
        requires
            old(self)@.wf(),
            old(self)@.reading,
            old(self)@.offset + num <= u64::MAX,
            feed_fault(old(self)@, line@, num) is None,
        ensures
            final(self)@.wf(),
            (final(self)@, line_step_view(res)) == feed_spec(old(self)@, line@, num),
    {
        let ghost old_buffer = self.line_buffer@;
        self.offset = self.offset + num;
        if self.offset == self.size {
            if num == 0 {
                self.reading = false;
                let first = self.line_buffer.pop_front();
                proof {
                    assert(string_views(self.line_buffer@) =~= Seq::<Seq<char>>::empty());
                }
                return LineStep::Done(first);
            }
            if str_contains(line.as_str(), RECORD_MARK) {
                let pending = self.line_buffer.len() > 0;
                self.line_buffer.push_back(line);
                let first = self.line_buffer.pop_front();
                self.reading = pending;
                proof {
                    assert(string_views(old_buffer.push(line)) =~= old(self)@.buffer.push(line@));
                    assert(string_views(self.line_buffer@) =~= old(self)@.buffer.push(
                        line@,
                    ).drop_first());
                }
                return LineStep::Done(first);
            }
            self.reading = false;
            let first = match self.line_buffer.pop_front() {
                Some(f) => f,
                None => String::new(),
            };
            proof {
                assert(string_views(self.line_buffer@) =~= Seq::<Seq<char>>::empty());
            }
            return LineStep::Done(Some(first.concat(line.as_str())));
        }
        if str_starts_with(line.as_str(), RECORD_MARK) {
            if self.line_buffer.len() == 0 {
                self.line_buffer.push_back(line);
                proof {
                    assert(string_views(self.line_buffer@) =~= seq![line@]);
                    lemma_starts_with_contains(line@, RECORD_MARK@);
                }
                return LineStep::ReadMore;
            }
            self.line_buffer.push_back(line);
            let first = self.line_buffer.pop_front();
            proof {
                assert(string_views(self.line_buffer@) =~= seq![line@]);
                lemma_starts_with_contains(line@, RECORD_MARK@);
            }
            return LineStep::Done(first);
        }
        let first = match self.line_buffer.pop_front() {
            Some(f) => f,
            None => String::new(),
        };
        let joined_line = first.concat(line.as_str());
        self.line_buffer.push_back(joined_line);
        proof {
            assert(string_views(self.line_buffer@) =~= seq![old(self)@.buffer[0] + line@]);
            lemma_contains_concat(old(self)@.buffer[0], line@, RECORD_MARK@);
        }
        LineStep::ReadMore
    }
}

// ---------------------------------------------------------------------------
// Details and language of a log
// ---------------------------------------------------------------------------

/// The listener's name in the third header line.
pub open spec fn listener_name(line: Seq<char>) -> Option<Seq<char>> {
    capture_group(regex_captures_result(LISTENER_NAME_PATTERN@, line), 1)
}

/// The digits of the user id in a log file name.
pub open spec fn file_user_digits(file_name: Seq<char>) -> Option<Seq<char>> {
    capture_group(regex_captures_result(FILE_NAME_PATTERN@, file_name), 1)
}

/// The user id of the file name, when found, fits in a `u64` (else
/// [`LogReader::get_details`] has no answer: the id cannot be parsed).
pub open spec fn details_fit(line: Seq<char>, file_name: Seq<char>) -> bool {
    match (listener_name(line), file_user_digits(file_name)) {
        (Some(_), Some(d)) => spec_parse_u64(d) is Some,
        _ => true,
    }
}

/// The user name (from the listener line) and the user id (from the file
/// name), or the error for the first of them that is not found.
pub open spec fn details_spec(line: Seq<char>, file_name: Seq<char>) -> Result<
    (Seq<char>, u64),
    Seq<char>,
> {
    match listener_name(line) {
        None => Err("Header parse error: line #2"@),
        Some(name) => match file_user_digits(file_name) {
            None => Err("bad file name format(timestamp + user_id)"@),
            Some(d) => Ok((name, spec_parse_u64(d)->0)),
        },
    }
}

/// From table index `i` on: the first language whose listener text occurs in
/// `line`.
pub open spec fn first_language_from(line: Seq<char>, i: nat) -> Option<nat>
    decreases language_table().len() - i,
{
    if i >= language_table().len() {
        None
    } else if contains_seq(line, language_table()[i as int].character) {
        Some(i)
    } else {
        first_language_from(line, i + 1)
    }
}

/// The language of a log whose listener line is `line`: the first entry of
/// the table whose listener text occurs in it.
pub open spec fn detected_language(line: Seq<char>) -> Option<nat> {
    first_language_from(line, 0)
}

proof fn lemma_listener_first(line: Seq<char>, i: nat)
    requires
        i <= language_table().len(),
        forall|j: int| 0 <= j < i ==> !contains_seq(line, #[trigger] language_table()[j].character),
    ensures
        first_language_from(line, 0) == first_language_from(line, i),
    decreases i,
{
    if i > 0 {
        lemma_listener_first(line, (i - 1) as nat);
    }
}

/// The language found is one whose listener text occurs in the line, and
/// none is found only when no language's listener text occurs in it.
pub proof fn lemma_detected_language(line: Seq<char>)
    ensures
        detected_language(line) matches Some(i) ==> i < language_table().len() && contains_seq(
            line,
            language_table()[i as int].character,
        ),
        detected_language(line) is None ==> forall|j: int|
            0 <= j < language_table().len() ==> !contains_seq(
                line,
                #[trigger] language_table()[j].character,
            ),
{
    lemma_first_language_from(line, 0);
}

/// A listener line that holds the listener text of entry `i` of the table,
/// and that of no entry before it, is detected as entry `i`.
pub proof fn lemma_detects_first_listener(line: Seq<char>, i: int)
    requires
        0 <= i < language_table().len(),
        contains_seq(line, language_table()[i].character),
        forall|j: int| 0 <= j < i ==> !contains_seq(line, #[trigger] language_table()[j].character),
    ensures
        detected_language(line) == Some(i as nat),
{
    lemma_listener_first(line, i as nat);
}

proof fn lemma_first_language_from(line: Seq<char>, i: nat)
    ensures
        first_language_from(line, i) matches Some(k) ==> i <= k < language_table().len()
            && contains_seq(line, language_table()[k as int].character),
        first_language_from(line, i) is None ==> forall|j: int|
            i <= j < language_table().len() ==> !contains_seq(
                line,
                #[trigger] language_table()[j].character,
            ),
    decreases language_table().len() - i,
{
    if i < language_table().len() && !contains_seq(line, language_table()[i as int].character) {
        lemma_first_language_from(line, i + 1);
    }
}

impl LogReader {
    /// The user name (from the third header line) and user id (from the file
    /// name `file_name`) of the log.
    pub fn get_details(&self, file_name: &str) -> (res: Result<(String, u64), &'static str>)
        requires
            self@.wf(),
            details_fit(self@.header[2], file_name@),
        ensures
            match res {
                Ok((name, id)) => details_spec(self@.header[2], file_name@) == Ok::<
                    (Seq<char>, u64),
                    Seq<char>,
                >((name@, id)),
                Err(e) => details_spec(self@.header[2], file_name@) == Err::<
                    (Seq<char>, u64),
                    Seq<char>,
                >(e@),
            },
    {
        let line = self.header[2].as_str();
        let user_name = match capture_group_exec(regex_captures(LISTENER_NAME_PATTERN, line), 1) {
            Some(n) => n.to_owned(),
            None => {
                return Err("Header parse error: line #2");
            },
        };
        match capture_group_exec(regex_captures(FILE_NAME_PATTERN, file_name), 1) {
            Some(digits) => {
                let id = parse_u64(digits);
                match id {
                    Some(id) => Ok((user_name, id)),
                    None => Err("bad file name format(timestamp + user_id)"),
                }
            },
            None => Err("bad file name format(timestamp + user_id)"),
        }
    }

    /// [`LogReader::get_details`] where it has an answer; `None` where the
    /// user id of the file name does not fit in a `u64`.
    pub fn try_get_details(&self, file_name: &str) -> (res: Option<Result<(String, u64), &'static str>>)
        requires
            self@.wf(),
        ensures
            res is None <==> !details_fit(self@.header[2], file_name@),
            match res {
                Some(Ok((name, id))) => details_spec(self@.header[2], file_name@) == Ok::<
                    (Seq<char>, u64),
                    Seq<char>,
                >((name@, id)),
                Some(Err(e)) => details_spec(self@.header[2], file_name@) == Err::<
                    (Seq<char>, u64),
                    Seq<char>,
                >(e@),
                None => true,
            },
    {
        let line = self.header[2].as_str();
        if capture_group_exec(regex_captures(LISTENER_NAME_PATTERN, line), 1).is_some() {
            match capture_group_exec(regex_captures(FILE_NAME_PATTERN, file_name), 1) {
                Some(digits) => {
                    if parse_u64(digits).is_none() {
                        return None;
                    }
                },
                None => {},
            }
        }
        Some(self.get_details(file_name))
    }

    /// The language of the log: the first language of the table whose
    /// listener text occurs in the third header line.
    pub fn get_language(&self) -> (res: Result<&'static str, &'static str>)
        requires
            self@.wf(),
        ensures
            match detected_language(self@.header[2]) {
                Some(i) => res matches Ok(name) && name@ == language_table()[i as int].language,
                None => res matches Err(e) && e@ == "problem with detecting language"@,
            },
    {
        let line = self.header[2].as_str();
        let table = generate_language();
        let mut i: usize = 0;
        while i < table.len()
            invariant
                i <= table@.len(),
                table@.len() == language_table().len(),
                forall|j: int| 0 <= j < table@.len() ==> (#[trigger] table@[j])@ == language_table()[j],
                line@ == self@.header[2],
                forall|j: int| 0 <= j < i ==> !contains_seq(line@, #[trigger] language_table()[j].character),
            decreases table@.len() - i,
        {
            let lang = &table[i];
            if str_contains(line, lang.character()) {
                proof {
                    lemma_listener_first(line@, i as nat);
                }
                return Ok(lang.name());
            }
            i = i + 1;
        }
        proof {
            lemma_listener_first(line@, i as nat);
        }
        Err("problem with detecting language")
    }
}

// ---------------------------------------------------------------------------
// Laws of reading records
// ---------------------------------------------------------------------------

/// At most one pending record, and each pending record holds the mark.
pub open spec fn pending_ok(r: ReaderView) -> bool {
    &&& r.buffer.len() <= 1
    &&& forall|i: int| 0 <= i < r.buffer.len() ==> contains_seq(#[trigger] r.buffer[i], RECORD_MARK@)
}

/// Every pending record starts with the mark.
pub open spec fn pending_starts(r: ReaderView) -> bool {
    forall|i: int| 0 <= i < r.buffer.len() ==> starts_with_seq(#[trigger] r.buffer[i], RECORD_MARK@)
}

/// A body line as a well-formed log writes it: it opens a record (starts
/// with the mark) or holds no mark at all.
pub open spec fn line_well_formed(line: Seq<char>) -> bool {
    starts_with_seq(line, RECORD_MARK@) || !contains_seq(line, RECORD_MARK@)
}

/// The records a step hands out (none, or one).
pub open spec fn records_of(step: StepView) -> Seq<Seq<char>> {
    match step {
        StepView::Done(Some(s)) => seq![s],
        _ => Seq::empty(),
    }
}

/// Feeds the body lines `lines` (each with its byte count) one after the
/// other: the final state, the records handed out, and whether a line could
/// not be read on (which stops the feeding).
pub open spec fn feed_all(r: ReaderView, lines: Seq<(Seq<char>, u64)>) -> (
    ReaderView,
    Seq<Seq<char>>,
    bool,
)
    decreases lines.len(),
{
    if lines.len() == 0 {
        (r, Seq::empty(), false)
    } else if feed_fault(r, lines[0].0, lines[0].1) is Some {
        (r, Seq::empty(), true)
    } else {
        let (r1, st) = feed_spec(r, lines[0].0, lines[0].1);
        let (r2, recs, f) = feed_all(r1, lines.drop_first());
        (r2, records_of(st) + recs, f)
    }
}

/// The texts of the lines, one after the other.
pub open spec fn joined_lines(lines: Seq<(Seq<char>, u64)>) -> Seq<char>
    decreases lines.len(),
{
    if lines.len() == 0 {
        Seq::<char>::empty()
    } else {
        lines[0].0 + joined_lines(lines.drop_first())
    }
}

/// The byte counts of the lines, added up.
pub open spec fn bytes_read(lines: Seq<(Seq<char>, u64)>) -> nat
    decreases lines.len(),
{
    if lines.len() == 0 {
        0
    } else {
        lines[0].1 as nat + bytes_read(lines.drop_first())
    }
}

proof fn lemma_joined_prepend(a: Seq<char>, rest: Seq<Seq<char>>)
    ensures
        joined(seq![a] + rest) == a + joined(rest),
    decreases rest.len(),
{
    let e = Seq::<Seq<char>>::empty();
    assert(joined(e) =~= Seq::<char>::empty());
    if rest.len() == 0 {
        assert(seq![a] + rest =~= seq![a]);
        assert(seq![a].drop_last() =~= e);
        assert(joined(seq![a]) == joined(seq![a].drop_last()) + a);
        assert(Seq::<char>::empty() + a =~= a);
        assert(a + Seq::<char>::empty() =~= a);
    } else {
        lemma_joined_prepend(a, rest.drop_last());
        assert((seq![a] + rest).drop_last() =~= seq![a] + rest.drop_last());
        assert((seq![a] + rest).last() == rest.last());
        assert(a + joined(rest.drop_last()) + rest.last() =~= a + (joined(rest.drop_last())
            + rest.last()));
    }
}

proof fn lemma_joined_small(b: Seq<Seq<char>>)
    requires
        b.len() <= 1,
    ensures
        joined(b) == if b.len() == 0 {
            Seq::<char>::empty()
        } else {
            b[0]
        },
{
    assert(joined(Seq::<Seq<char>>::empty()) =~= Seq::<char>::empty());
    if b.len() == 1 {
        assert(b.drop_last() =~= Seq::<Seq<char>>::empty());
        assert(joined(b) == joined(b.drop_last()) + b.last());
        assert(Seq::<char>::empty() + b[0] =~= b[0]);
    }
}

/// One line that can be read on (a read of zero bytes reads nothing): what
/// is handed out, followed by what stays pending, is what was pending
/// followed by the line; every record handed out holds the mark; the
/// pending state stays well formed; the offset grows by the line's bytes,
/// and the size and header stay.
pub proof fn lemma_feed_keeps_text(r: ReaderView, line: Seq<char>, num: u64)
    requires
        pending_ok(r),
        num == 0 ==> line.len() == 0,
        feed_fault(r, line, num) is None,
        r.offset + num <= u64::MAX,
    ensures
        ({
            let (r2, st) = feed_spec(r, line, num);
            &&& emitted(st) + joined(r2.buffer) == joined(r.buffer) + line
            &&& pending_ok(r2)
            &&& forall|i: int|
                0 <= i < records_of(st).len() ==> contains_seq(
                    #[trigger] records_of(st)[i],
                    RECORD_MARK@,
                )
            &&& r2.offset == r.offset + num
            &&& r2.size == r.size
            &&& r2.header == r.header
            &&& r2.header_offset == r.header_offset
        }),
{
    let (r2, st) = feed_spec(r, line, num);
    lemma_joined_small(r.buffer);
    lemma_joined_small(r2.buffer);
    if r.buffer.len() == 1 {
        lemma_contains_concat(r.buffer[0], line, RECORD_MARK@);
    }
    if starts_with_seq(line, RECORD_MARK@) {
        lemma_starts_with_contains(line, RECORD_MARK@);
    }
    let e = emitted(st);
    let p = joined(r2.buffer);
    let empty = Seq::<char>::empty();
    assert(empty + line =~= line);
    assert(line + empty =~= line);
    assert(e + empty =~= e);
    assert(empty + p =~= p);
    let offset = (r.offset + num) as u64;
    if offset == r.size {
        if num == 0 {
            assert(line =~= empty);
        } else if contains_seq(line, RECORD_MARK@) {
            if r.buffer.len() == 1 {
                assert(r2.buffer =~= seq![line]);
            } else {
                assert(r2.buffer =~= Seq::<Seq<char>>::empty());
            }
        }
    }
    assert(e + p =~= joined(r.buffer) + line);
}

/// Starting a read hands out at most the pending record, and nothing is
/// lost: what is handed out followed by what stays pending is what was
/// pending.
pub proof fn lemma_begin_keeps_text(r: ReaderView, file_len: u64)
    requires
        pending_ok(r),
    ensures
        ({
            let (r2, st) = begin_spec(r, file_len);
            &&& emitted(st) + joined(r2.buffer) == joined(r.buffer)
            &&& pending_ok(r2)
        }),
{
    let (r2, st) = begin_spec(r, file_len);
    lemma_joined_small(r.buffer);
    lemma_joined_small(r2.buffer);
    assert(emitted(st) + joined(r2.buffer) =~= joined(r.buffer));
}

/// Reading a body line by line loses and invents nothing (a read of zero
/// bytes reads nothing): unless a line cannot be read on, the records
/// handed out, one after the other and followed by the text still pending,
/// are exactly the text pending before followed by all the lines read; each
/// record holds the record mark; and the offset has grown by the bytes read
/// (so it reaches the file's length when the lines are the rest of the
/// file), with size and header kept.
pub proof fn lemma_records_keep_text(r: ReaderView, lines: Seq<(Seq<char>, u64)>)
    requires
        pending_ok(r),
        forall|i: int| 0 <= i < lines.len() && (#[trigger] lines[i]).1 == 0 ==> lines[i].0.len() == 0,
        r.offset + bytes_read(lines) <= u64::MAX,
    ensures
        ({
            let (r2, recs, faulted) = feed_all(r, lines);
            !faulted ==> {
                &&& joined(recs) + joined(r2.buffer) == joined(r.buffer) + joined_lines(lines)
                &&& forall|i: int| 0 <= i < recs.len() ==> contains_seq(#[trigger] recs[i], RECORD_MARK@)
                &&& r2.offset == r.offset + bytes_read(lines)
                &&& r2.size == r.size
                &&& r2.header == r.header
                &&& r2.header_offset == r.header_offset
            }
        }),
    decreases lines.len(),
{
    if lines.len() == 0 {
        assert(joined(Seq::<Seq<char>>::empty()) == Seq::<char>::empty());
        assert(Seq::<char>::empty() + joined(r.buffer) =~= joined(r.buffer) + Seq::<char>::empty());
    } else if feed_fault(r, lines[0].0, lines[0].1) is None {
        let (r1, st) = feed_spec(r, lines[0].0, lines[0].1);
        lemma_feed_keeps_text(r, lines[0].0, lines[0].1);
        let rest = lines.drop_first();
        assert forall|i: int| 0 <= i < rest.len() && (#[trigger] rest[i]).1 == 0 implies rest[i].0.len() == 0 by {
            assert(rest[i] == lines[i + 1]);
        }
        lemma_records_keep_text(r1, rest);
        let (r2, recs, f) = feed_all(r1, rest);
        if !f {
            let all = records_of(st) + recs;
            if records_of(st).len() == 1 {
                lemma_joined_prepend(emitted(st), recs);
                assert(records_of(st) =~= seq![emitted(st)]);
            } else {
                assert(all =~= recs);
                assert(emitted(st) =~= Seq::<char>::empty());
            }
            assert(joined(all) == emitted(st) + joined(recs));
            assert(joined(all) + joined(r2.buffer) =~= emitted(st) + (joined(recs) + joined(
                r2.buffer,
            )));
            assert(joined(r.buffer) + joined_lines(lines) =~= (joined(r.buffer) + lines[0].0)
                + joined_lines(rest));
            assert forall|i: int| 0 <= i < all.len() implies contains_seq(
                #[trigger] all[i],
                RECORD_MARK@,
            ) by {
                if i < records_of(st).len() {
                    assert(all[i] == records_of(st)[i]);
                } else {
                    assert(all[i] == recs[i - records_of(st).len()]);
                }
            }
        }
    }
}

proof fn lemma_starts_with_concat(a: Seq<char>, b: Seq<char>, p: Seq<char>)
    requires
        starts_with_seq(a, p),
    ensures
        starts_with_seq(a + b, p),
{
    assert((a + b).subrange(0, p.len() as int) =~= a.subrange(0, p.len() as int));
}

/// One well-formed line that can be read on: every record handed out starts
/// with the mark, and so does every record still pending.
pub proof fn lemma_feed_starts_with_mark(r: ReaderView, line: Seq<char>, num: u64)
    requires
        pending_ok(r),
        pending_starts(r),
        line_well_formed(line),
        feed_fault(r, line, num) is None,
    ensures
        ({
            let (r2, st) = feed_spec(r, line, num);
            &&& pending_starts(r2)
            &&& forall|i: int|
                0 <= i < records_of(st).len() ==> starts_with_seq(
                    #[trigger] records_of(st)[i],
                    RECORD_MARK@,
                )
        }),
{
    let (r2, st) = feed_spec(r, line, num);
    if r.buffer.len() == 1 {
        lemma_starts_with_concat(r.buffer[0], line, RECORD_MARK@);
        assert(starts_with_seq(r.buffer[0], RECORD_MARK@));
    }
    if (r.offset + num) as u64 == r.size && num != 0 && contains_seq(line, RECORD_MARK@) {
        let b = r.buffer.push(line);
        assert(forall|i: int| 0 <= i < b.len() ==> starts_with_seq(#[trigger] b[i], RECORD_MARK@));
        assert(r2.buffer =~= b.drop_first());
        assert(forall|i: int| 0 <= i < r2.buffer.len() ==> r2.buffer[i] == b[i + 1]);
    }
}

/// Reading well-formed body lines, starting with every pending record
/// opening with the mark: unless a line cannot be read on, every record
/// handed out starts with the record mark.
pub proof fn lemma_records_start_with_mark(r: ReaderView, lines: Seq<(Seq<char>, u64)>)
    requires
        pending_ok(r),
        pending_starts(r),
        forall|i: int| 0 <= i < lines.len() ==> line_well_formed(#[trigger] lines[i].0),
    ensures
        ({
            let (r2, recs, faulted) = feed_all(r, lines);
            !faulted ==> forall|i: int|
                0 <= i < recs.len() ==> starts_with_seq(#[trigger] recs[i], RECORD_MARK@)
        }),
    decreases lines.len(),
{
    if lines.len() > 0 && feed_fault(r, lines[0].0, lines[0].1) is None {
        let (r1, st) = feed_spec(r, lines[0].0, lines[0].1);
        assert(line_well_formed(lines[0].0));
        lemma_feed_starts_with_mark(r, lines[0].0, lines[0].1);
        lemma_pending_ok_kept(r, lines[0].0, lines[0].1);
        let rest = lines.drop_first();
        assert forall|i: int| 0 <= i < rest.len() implies line_well_formed(#[trigger] rest[i].0) by {
            assert(rest[i] == lines[i + 1]);
        }
        lemma_records_start_with_mark(r1, rest);
        let (r2, recs, f) = feed_all(r1, rest);
        let all = records_of(st) + recs;
        if !f {
            assert forall|i: int| 0 <= i < all.len() implies starts_with_seq(
                #[trigger] all[i],
                RECORD_MARK@,
            ) by {
                if i < records_of(st).len() {
                    assert(all[i] == records_of(st)[i]);
                } else {
                    assert(all[i] == recs[i - records_of(st).len()]);
                }
            }
        }
    }
}

proof fn lemma_pending_ok_kept(r: ReaderView, line: Seq<char>, num: u64)
    requires
        pending_ok(r),
        feed_fault(r, line, num) is None,
    ensures
        pending_ok(feed_spec(r, line, num).0),
{
    let r2 = feed_spec(r, line, num).0;
    if r.buffer.len() == 1 {
        lemma_contains_concat(r.buffer[0], line, RECORD_MARK@);
    }
    if starts_with_seq(line, RECORD_MARK@) {
        lemma_starts_with_contains(line, RECORD_MARK@);
    }
    if (r.offset + num) as u64 == r.size && num != 0 && contains_seq(line, RECORD_MARK@) {
        let b = r.buffer.push(line);
        assert(r2.buffer =~= b.drop_first());
        assert(forall|i: int| 0 <= i < r2.buffer.len() ==> r2.buffer[i] == b[i + 1]);
    }
}

/// After a start of a read that gives nothing, while the file keeps its
/// length, the file is closed and every further read gives nothing and
/// changes nothing: reading all records a second time gives none.
pub proof fn lemma_nothing_left_stays(r: ReaderView, file_len: u64)
    requires
        r.reading ==> r.size == file_len,
        begin_spec(r, file_len).1 == StepView::Done(None),
    ensures
        ({
            let r2 = begin_spec(r, file_len).0;
            &&& !r2.reading
            &&& begin_spec(r2, file_len) == (r2, StepView::Done(None))
        }),
{
}

/// After a line that ends a read with nothing (the end of the file, with
/// nothing pending), the file is closed and, while it keeps its length,
/// every further read gives nothing and changes nothing.
pub proof fn lemma_feed_nothing_left_stays(r: ReaderView, line: Seq<char>, num: u64)
    requires
        feed_fault(r, line, num) is None,
        feed_spec(r, line, num).1 == StepView::Done(None),
    ensures
        ({
            let r2 = feed_spec(r, line, num).0;
            &&& !r2.reading
            &&& begin_spec(r2, r2.size) == (r2, StepView::Done(None))
        }),
{
}

// ---------------------------------------------------------------------------
// Laws of whole reads
// ---------------------------------------------------------------------------

/// The unread lines of a well-formed body, as `read_line` hands them out:
/// none is empty, each is counted by its (non-zero) bytes, and each opens a
/// record or holds no record mark.
pub open spec fn body_ok(lines: Seq<(Seq<char>, u64)>) -> bool {
    forall|i: int|
        0 <= i < lines.len() ==> {
            &&& (#[trigger] lines[i]).1 > 0
            &&& lines[i].0.len() > 0
            &&& line_well_formed(lines[i].0)
        }
}

/// The text still to be handed out: what is pending, then the unread lines.
pub open spec fn rest_text(r: ReaderView, lines: Seq<(Seq<char>, u64)>) -> Seq<char> {
    joined(r.buffer) + joined_lines(lines)
}

/// What holds between the calls of a whole read of a file of `file_len`
/// bytes whose unread lines, from the reader's offset on, are `lines`.
pub open spec fn read_inv(r: ReaderView, file_len: u64, lines: Seq<(Seq<char>, u64)>) -> bool {
    &&& pending_ok(r)
    &&& pending_starts(r)
    &&& body_ok(lines)
    &&& r.offset + bytes_read(lines) == file_len
    &&& (r.buffer.len() == 0 && lines.len() > 0) ==> starts_with_seq(lines[0].0, RECORD_MARK@)
    &&& !r.reading ==> r.buffer.len() == 0
    &&& r.reading ==> r.size == file_len
}

/// A measure that every record handed out makes smaller.
pub open spec fn read_measure(r: ReaderView, lines: Seq<(Seq<char>, u64)>) -> nat {
    3 * lines.len() + r.buffer.len() + if r.reading {
        1nat
    } else {
        0nat
    }
}

/// Feeds lines until a record is handed out: the state, the record (`None`
/// when the lines run out first) and how many lines were read.
pub open spec fn feed_until_done(r: ReaderView, lines: Seq<(Seq<char>, u64)>) -> (
    ReaderView,
    Option<Seq<char>>,
    nat,
)
    decreases lines.len(),
{
    if lines.len() == 0 {
        (r, None, 0)
    } else {
        let (r2, st) = feed_spec(r, lines[0].0, lines[0].1);
        match st {
            StepView::Done(x) => (r2, x, 1),
            _ => {
                let (r3, x, n) = feed_until_done(r2, lines.drop_first());
                (r3, x, n + 1)
            },
        }
    }
}

/// One read of a record (`read_multiline`) on a file of `file_len` bytes
/// whose unread lines are `lines`: [`LogReader::begin_read`], then
/// [`LogReader::feed_line`] on the lines in order until a record is handed
/// out. The state, the record, and how many lines were read.
pub open spec fn read_one(r: ReaderView, file_len: u64, lines: Seq<(Seq<char>, u64)>) -> (
    ReaderView,
    Option<Seq<char>>,
    nat,
) {
    let (r1, st) = begin_spec(r, file_len);
    match st {
        StepView::Done(x) => (r1, x, 0),
        _ => feed_until_done(r1, lines),
    }
}

/// Reading all records (`read_allines`): reads of a record, one after the
/// other, until one hands out nothing (at most `fuel` reads). The state and
/// the records, in order.
pub open spec fn read_all(r: ReaderView, file_len: u64, lines: Seq<(Seq<char>, u64)>, fuel: nat) -> (
    ReaderView,
    Seq<Seq<char>>,
)
    decreases fuel,
{
    if fuel == 0 {
        (r, Seq::empty())
    } else {
        let (r1, x, n) = read_one(r, file_len, lines);
        match x {
            None => (r1, Seq::empty()),
            Some(rec) => {
                let (r2, recs) = read_all(r1, file_len, lines.skip(n as int), (fuel - 1) as nat);
                (r2, seq![rec] + recs)
            },
        }
    }
}

proof fn lemma_no_bytes_no_lines(lines: Seq<(Seq<char>, u64)>)
    requires
        body_ok(lines),
    ensures
        bytes_read(lines) == 0 <==> lines.len() == 0,
{
    if lines.len() > 0 {
        assert(lines[0].1 > 0);
    }
}

proof fn lemma_body_ok_rest(lines: Seq<(Seq<char>, u64)>)
    requires
        body_ok(lines),
        lines.len() > 0,
    ensures
        body_ok(lines.drop_first()),
{
    assert forall|i: int| 0 <= i < lines.drop_first().len() implies {
        &&& (#[trigger] lines.drop_first()[i]).1 > 0
        &&& lines.drop_first()[i].0.len() > 0
        &&& line_well_formed(lines.drop_first()[i].0)
    } by {
        assert(lines.drop_first()[i] == lines[i + 1]);
    }
}

proof fn lemma_bytes_split(lines: Seq<(Seq<char>, u64)>, n: int)
    requires
        0 <= n <= lines.len(),
    ensures
        bytes_read(lines) == bytes_read(lines.take(n)) + bytes_read(lines.skip(n)),
    decreases n,
{
    if n > 0 {
        lemma_bytes_split(lines.drop_first(), n - 1);
        assert(lines.take(n).drop_first() =~= lines.drop_first().take(n - 1));
        assert(lines.drop_first().skip(n - 1) =~= lines.skip(n));
    } else {
        assert(lines.skip(0) =~= lines);
        assert(bytes_read(lines.take(0)) == 0);
    }
}

/// One line of a whole read: it can be read on, and what holds between the
/// calls still holds, with no text lost.
proof fn lemma_feed_step(r: ReaderView, file_len: u64, lines: Seq<(Seq<char>, u64)>)
    requires
        read_inv(r, file_len, lines),
        r.reading,
        lines.len() > 0,
    ensures
        ({
            let (r2, st) = feed_spec(r, lines[0].0, lines[0].1);
            let rest = lines.drop_first();
            &&& feed_fault(r, lines[0].0, lines[0].1) is None
            &&& read_inv(r2, file_len, rest)
            &&& emitted(st) + rest_text(r2, rest) == rest_text(r, lines)
            &&& forall|i: int|
                0 <= i < records_of(st).len() ==> starts_with_seq(
                    #[trigger] records_of(st)[i],
                    RECORD_MARK@,
                )
            &&& (st is Done || st is ReadMore)
            &&& st is Done ==> emitted(st) == records_of(st)[0] && records_of(st).len() == 1
            &&& st is ReadMore ==> r2.reading && rest.len() > 0
            &&& r2.header == r.header
            &&& r2.header_offset == r.header_offset
        }),
{
    let line = lines[0].0;
    let num = lines[0].1;
    let rest = lines.drop_first();
    assert(lines[0].1 > 0 && lines[0].0.len() > 0 && line_well_formed(lines[0].0));
    lemma_body_ok_rest(lines);
    assert(bytes_read(lines) == num + bytes_read(rest));
    if starts_with_seq(line, RECORD_MARK@) {
        lemma_starts_with_contains(line, RECORD_MARK@);
    }
    assert(feed_fault(r, line, num) is None);
    let (r2, st) = feed_spec(r, line, num);
    lemma_feed_keeps_text(r, line, num);
    lemma_feed_starts_with_mark(r, line, num);
    lemma_no_bytes_no_lines(rest);
    lemma_joined_small(r2.buffer);
    assert(joined_lines(lines) == line + joined_lines(rest));
    assert(emitted(st) + rest_text(r2, rest) =~= (emitted(st) + joined(r2.buffer)) + joined_lines(
        rest,
    ));
    assert(rest_text(r, lines) =~= (joined(r.buffer) + line) + joined_lines(rest));
}

proof fn lemma_feed_until_done(r: ReaderView, file_len: u64, lines: Seq<(Seq<char>, u64)>)
    requires
        read_inv(r, file_len, lines),
        r.reading,
        lines.len() > 0,
    ensures
        ({
            let (r3, x, n) = feed_until_done(r, lines);
            &&& 1 <= n <= lines.len()
            &&& x is Some
            &&& starts_with_seq(x->0, RECORD_MARK@)
            &&& read_inv(r3, file_len, lines.skip(n as int))
            &&& x->0 + rest_text(r3, lines.skip(n as int)) == rest_text(r, lines)
            &&& r3.header == r.header
            &&& r3.header_offset == r.header_offset
        }),
    decreases lines.len(),
{
    let (r2, st) = feed_spec(r, lines[0].0, lines[0].1);
    lemma_feed_step(r, file_len, lines);
    let rest = lines.drop_first();
    match st {
        StepView::Done(x) => {
            assert(records_of(st)[0] == x->0);
            assert(lines.skip(1) =~= rest);
        },
        _ => {
            lemma_feed_until_done(r2, file_len, rest);
            let (r3, x, n) = feed_until_done(r2, rest);
            assert(rest.skip(n as int) =~= lines.skip(n + 1int));
            assert(emitted(st) =~= Seq::<char>::empty());
            assert(Seq::<char>::empty() + rest_text(r2, rest) =~= rest_text(r2, rest));
        },
    }
}

/// One read of a record (`read_multiline`) within a whole read of a
/// well-formed body: what holds between the calls still holds (at most one
/// record pending, header and body start kept, the offset grown by exactly
/// the bytes of the lines read and still within the file); the record
/// handed out starts with the mark and, followed by the text still to come,
/// gives the text that was to come; nothing is handed out only when the
/// whole file has been read, and then the file is closed.
pub proof fn lemma_read_one(r: ReaderView, file_len: u64, lines: Seq<(Seq<char>, u64)>)
    requires
        read_inv(r, file_len, lines),
    ensures
        ({
            let (r1, x, n) = read_one(r, file_len, lines);
            &&& n <= lines.len()
            &&& read_inv(r1, file_len, lines.skip(n as int))
            &&& r1.header == r.header
            &&& r1.header_offset == r.header_offset
            &&& r1.offset == r.offset + bytes_read(lines.take(n as int))
            &&& r1.offset <= file_len
            &&& match x {
                None => {
                    &&& n == 0
                    &&& lines.len() == 0
                    &&& !r1.reading
                    &&& r1.buffer.len() == 0
                    &&& r1.offset == file_len
                    &&& rest_text(r, lines) == Seq::<char>::empty()
                },
                Some(rec) => {
                    &&& starts_with_seq(rec, RECORD_MARK@)
                    &&& rec + rest_text(r1, lines.skip(n as int)) == rest_text(r, lines)
                    &&& read_measure(r1, lines.skip(n as int)) < read_measure(r, lines)
                },
            }
        }),
{
    let (r1, st) = begin_spec(r, file_len);
    let (rr, x, n) = read_one(r, file_len, lines);
    lemma_no_bytes_no_lines(lines);
    lemma_joined_small(r.buffer);
    assert(lines.skip(0) =~= lines);
    assert(bytes_read(lines.take(0)) == 0);
    if lines.len() == 0 {
        assert(joined_lines(lines) == Seq::<char>::empty());
    }
    match st {
        StepView::Done(y) => {
            lemma_joined_small(r1.buffer);
            if y is Some {
                assert(y->0 + rest_text(r1, lines) =~= rest_text(r, lines));
            }
        },
        _ => {
            assert(r1.reading);
            assert(lines.len() > 0);
            lemma_feed_until_done(r1, file_len, lines);
            lemma_bytes_split(lines, n as int);
            lemma_no_bytes_no_lines(lines.skip(n as int));
        },
    }
}

/// Reading all records (`read_allines`) from where the reader stands, on a
/// file of `file_len` bytes whose unread lines `lines` form a well-formed
/// body: the records, in order, give back exactly the pending text and the
/// unread body, each starting with the record mark; afterwards the whole
/// file has been read, the file is closed with nothing pending, the header
/// is kept, and a second read of all records, while the file keeps its
/// length, hands out nothing and changes nothing.
pub proof fn lemma_read_all(r: ReaderView, file_len: u64, lines: Seq<(Seq<char>, u64)>, fuel: nat)
    requires
        read_inv(r, file_len, lines),
        fuel > read_measure(r, lines),
    ensures
        ({
            let (r2, recs) = read_all(r, file_len, lines, fuel);
            &&& joined(recs) == rest_text(r, lines)
            &&& forall|i: int| 0 <= i < recs.len() ==> starts_with_seq(#[trigger] recs[i], RECORD_MARK@)
            &&& !r2.reading
            &&& r2.buffer.len() == 0
            &&& r2.offset == file_len
            &&& r2.header == r.header
            &&& r2.header_offset == r.header_offset
            &&& forall|more: Seq<(Seq<char>, u64)>, f: nat|
                #[trigger] read_all(r2, file_len, more, f) == (r2, Seq::<Seq<char>>::empty())
        }),
    decreases fuel,
{
    let (r1, x, n) = read_one(r, file_len, lines);
    lemma_read_one(r, file_len, lines);
    let (r2, recs) = read_all(r, file_len, lines, fuel);
    match x {
        None => {
            assert(joined(Seq::<Seq<char>>::empty()) == Seq::<char>::empty());
        },
        Some(rec) => {
            let rest = lines.skip(n as int);
            lemma_read_all(r1, file_len, rest, (fuel - 1) as nat);
            let (r3, recs1) = read_all(r1, file_len, rest, (fuel - 1) as nat);
            lemma_joined_prepend(rec, recs1);
            assert forall|i: int| 0 <= i < recs.len() implies starts_with_seq(
                #[trigger] recs[i],
                RECORD_MARK@,
            ) by {
                if i > 0 {
                    assert(recs[i] == recs1[i - 1]);
                }
            }
        },
    }
    assert forall|more: Seq<(Seq<char>, u64)>, f: nat|
        #[trigger] read_all(r2, file_len, more, f) == (r2, Seq::<Seq<char>>::empty()) by {
        if f > 0 {
            assert(begin_spec(r2, file_len) == (r2, StepView::Done(None)));
        }
    }
}

/// Reading all records of a reader just created (nothing pending, the file
/// closed), on a file whose body after the header is well formed and opens
/// with a record: the records, in order, are exactly the body, each starts
/// with the record mark, the whole file is read, and a second read of all
/// records on the unchanged file gives nothing.
pub proof fn lemma_read_all_fresh(r: ReaderView, file_len: u64, lines: Seq<(Seq<char>, u64)>)
    requires
        !r.reading,
        r.buffer.len() == 0,
        r.offset + bytes_read(lines) == file_len,
        body_ok(lines),
        lines.len() > 0 ==> starts_with_seq(lines[0].0, RECORD_MARK@),
    ensures
        ({
            let (r2, recs) = read_all(r, file_len, lines, 3 * lines.len() + 1);
            &&& joined(recs) == joined_lines(lines)
            &&& forall|i: int| 0 <= i < recs.len() ==> starts_with_seq(#[trigger] recs[i], RECORD_MARK@)
            &&& r2.offset == file_len
            &&& r2.header == r.header
            &&& r2.header_offset == r.header_offset
            &&& read_all(r2, file_len, Seq::empty(), 3 * 0 + 1).1 == Seq::<Seq<char>>::empty()
        }),
{
    lemma_read_all(r, file_len, lines, 3 * lines.len() + 1);
    lemma_joined_small(r.buffer);
    assert(rest_text(r, lines) =~= joined_lines(lines));
    let (r2, recs) = read_all(r, file_len, lines, 3 * lines.len() + 1);
    assert(read_all(r2, file_len, Seq::empty(), 3 * 0 + 1) == (r2, Seq::<Seq<char>>::empty()));
}

proof fn lemma_total_bytes_prefix(ls: Seq<Seq<char>>, k: int, m: int)
    requires
        0 <= k <= m <= ls.len(),
    ensures
        total_bytes(ls.take(k)) <= total_bytes(ls.take(m)),
    decreases m - k,
{
    if k < m {
        lemma_total_bytes_prefix(ls, k, m - 1);
        assert(ls.take(m).drop_last() =~= ls.take(m - 1));
    }
}

} // verus!
