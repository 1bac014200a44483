//! Finding the last lines of a log file without reading the whole of it.
//!
//! A [`TailScan`] walks a file from its end in chunks. It says which bytes to read next, takes
//! them, and in the end says where the last lines begin. The reading itself is done elsewhere.
use vstd::prelude::*;
use vstd::slice::slice_subrange;
use vstd::utf8;

verus! {

/// The number of lines of a tail where none is asked for.
pub const DEFAULT_LOG_TAIL_LINES: usize = 200;

/// The least number of lines of a tail that can be asked for.
pub const MIN_LOG_TAIL_LINES: usize = 20;

/// The greatest number of lines of a tail that can be asked for.
pub const MAX_LOG_TAIL_LINES: usize = 5000;

/// The greatest number of bytes that are read at once.
pub const LOG_TAIL_SCAN_CHUNK_BYTES: u64 = 8192;

/// The byte that ends a line.
pub const NEWLINE: u8 = 10;

/// A number of lines, or the default, brought within the limits.
pub open spec fn clamped(line_limit: Option<usize>) -> usize {
    let asked = match line_limit {
        Some(lines) => lines,
        None => DEFAULT_LOG_TAIL_LINES,
    };
    if asked < MIN_LOG_TAIL_LINES {
        MIN_LOG_TAIL_LINES
    } else if asked > MAX_LOG_TAIL_LINES {
        MAX_LOG_TAIL_LINES
    } else {
        asked
    }
}

/// The number of line ends in `s`.
pub open spec fn newlines(s: Seq<u8>) -> nat
    decreases s.len(),
{
    if s.len() == 0 {
        0
    } else if s.first() == NEWLINE {
        1 + newlines(s.drop_first())
    } else {
        newlines(s.drop_first())
    }
}

/// The least offset of `s` from which on there are no more than `limit` line ends.
pub open spec fn tail_start(s: Seq<u8>, limit: nat) -> int
    decreases s.len(),
{
    if newlines(s) <= limit {
        0
    } else {
        1 + tail_start(s.drop_first(), limit)
    }
}

/// The number of line ends that a tail of `line_limit` lines may hold: at least one.
pub open spec fn effective_limit(line_limit: usize) -> nat {
    if line_limit == 0 {
        1
    } else {
        line_limit as nat
    }
}

/// What `String::from_utf8_lossy` makes of `bytes`.
pub uninterp spec fn utf8_lossy(bytes: Seq<u8>) -> Seq<char>;

/// The number of bytes before the first line end of `s`, or all of them where there is none.
pub open spec fn line_end(s: Seq<u8>) -> nat
    decreases s.len(),
{
    if s.len() == 0 || s.first() == NEWLINE {
        0
    } else {
        1 + line_end(s.drop_first())
    }
}

/// The text that the bytes of a line stand for: the one that they encode where they are valid
/// UTF-8, else what [`utf8_lossy`] makes of them.
pub open spec fn line_text(line: Seq<u8>) -> Seq<char> {
    if utf8::valid_utf8(line) {
        utf8::decode_utf8(line)
    } else {
        utf8_lossy(line)
    }
}

/// The text that bytes stand for, line by line.
pub open spec fn log_text(bytes: Seq<u8>) -> Seq<char>
    decreases bytes.len(),
{
    let end = line_end(bytes) as int;
    if end >= bytes.len() {
        line_text(bytes)
    } else {
        line_text(bytes.take(end)) + seq!['\n'] + log_text(bytes.skip(end + 1))
    }
}

/// The bytes of the last lines of a file.
pub open spec fn tail_bytes(contents: Seq<u8>, line_limit: usize) -> Seq<u8> {
    contents.skip(tail_start(contents, effective_limit(line_limit)))
}

/// The text of the last lines of a file.
pub open spec fn tail_text(contents: Seq<u8>, line_limit: usize) -> Seq<char> {
    log_text(tail_bytes(contents, line_limit))
}

/// Calls `String::from_utf8_lossy`, whose result depends on the bytes alone. It keeps what is valid
/// UTF-8 and puts the replacement character for what is not. A line end is a character of its own
/// and no part of any other, so each line comes out as it would alone, with the line ends where
/// they were; a line that is valid UTF-8 as the text that it encodes. Of bytes that are not valid
/// UTF-8 the result holds the replacement character. How many of them stand for which bytes of a
/// line is left unsaid.
#[verifier::external_body]
fn from_utf8_lossy(bytes: &[u8]) -> (res: String)
    ensures
        res@ == utf8_lossy(bytes@),
        res@ == log_text(bytes@),
        !utf8::valid_utf8(bytes@) ==> res@.contains('\u{fffd}'),
{
    String::from_utf8_lossy(bytes).to_string()
}

proof fn lemma_newlines_concat(a: Seq<u8>, b: Seq<u8>)
    ensures
        newlines(a + b) == newlines(a) + newlines(b),
    decreases a.len(),
{
    if a.len() == 0 {
    } else {
        lemma_newlines_concat(a.drop_first(), b);
        assert((a + b).drop_first() == a.drop_first() + b);
    }
}

proof fn lemma_newlines_skip(s: Seq<u8>, i: int)
    requires
        0 <= i <= s.len(),
    ensures
        newlines(s.skip(i)) <= newlines(s),
{
    lemma_newlines_concat(s.take(i), s.skip(i));
    assert(s == s.take(i) + s.skip(i));
}

/// [`tail_start`] is the first offset with no more than `limit` line ends behind it.
pub proof fn law_tail_start_is_least(s: Seq<u8>, limit: nat)
    ensures
        0 <= tail_start(s, limit) <= s.len(),
        newlines(s.skip(tail_start(s, limit))) <= limit,
        forall|i: int| 0 <= i < tail_start(s, limit) ==> newlines(#[trigger] s.skip(i)) > limit,
    decreases s.len(),
{
    assert(s.skip(0) == s);
    if newlines(s) > limit {
        let rest = s.drop_first();
        law_tail_start_is_least(rest, limit);
        assert(rest.skip(tail_start(rest, limit)) == s.skip(tail_start(s, limit)));
        assert forall|i: int| 0 <= i < tail_start(s, limit) implies newlines(#[trigger] s.skip(i))
            > limit by {
            if i > 0 {
                assert(s.skip(i) == rest.skip(i - 1));
            }
        }
    }
}

/// A tail begins at the start of the file or right behind a line end, and in the second case it
/// holds exactly `limit` line ends.
pub proof fn law_tail_begins_at_a_line(s: Seq<u8>, limit: nat)
    ensures
        tail_start(s, limit) > 0 ==> s[tail_start(s, limit) - 1] == NEWLINE && newlines(
            s.skip(tail_start(s, limit)),
        ) == limit,
        tail_start(s, limit) == 0 <==> newlines(s) <= limit,
{
    law_tail_start_is_least(s, limit);
    let t = tail_start(s, limit);
    assert(s.skip(0) == s);
    if t > 0 {
        assert(newlines(s.skip(t - 1)) > limit);
        assert(s.skip(t - 1).drop_first() == s.skip(t));
    }
}

/// To ask for more lines gives a tail that is at least as long.
pub proof fn law_tail_grows_with_limit(s: Seq<u8>, fewer: nat, more: nat)
    requires
        fewer <= more,
    ensures
        tail_start(s, more) <= tail_start(s, fewer),
{
    law_tail_start_is_least(s, fewer);
    law_tail_start_is_least(s, more);
    if tail_start(s, more) > tail_start(s, fewer) {
        assert(newlines(s.skip(tail_start(s, fewer))) > more);
    }
}

proof fn lemma_line_end(s: Seq<u8>)
    ensures
        line_end(s) <= s.len(),
        forall|i: int| 0 <= i < line_end(s) ==> s[i] != NEWLINE,
        line_end(s) < s.len() ==> s[line_end(s) as int] == NEWLINE,
    decreases s.len(),
{
    if s.len() > 0 && s.first() != NEWLINE {
        let rest = s.drop_first();
        lemma_line_end(rest);
        assert forall|i: int| 0 <= i < line_end(s) implies s[i] != NEWLINE by {
            if i > 0 {
                assert(s[i] == rest[i - 1]);
            }
        }
    }
}

/// A line end parts a text: what stands on its two sides is read separately.
pub proof fn law_text_is_read_on_both_sides(a: Seq<u8>, b: Seq<u8>)
    ensures
        log_text(a + seq![NEWLINE] + b) == log_text(a) + seq!['\n'] + log_text(b),
    decreases a.len(),
{
    let s = a + seq![NEWLINE] + b;
    lemma_line_end(a);
    lemma_line_end(s);
    let end = line_end(a) as int;
    let found = line_end(s) as int;
    assert(s[a.len() as int] == NEWLINE);
    if end < a.len() {
        assert(s[end] == a[end]);
        if found < end {
            assert(s[found] == a[found]);
        }
        let rest = a.skip(end + 1);
        law_text_is_read_on_both_sides(rest, b);
        assert(s.take(end) == a.take(end));
        assert(s.skip(end + 1) == rest + seq![NEWLINE] + b);
    } else {
        if found < end {
            assert(s[found] == a[found]);
        }
        assert(s.take(end) == a);
        assert(s.skip(end + 1) == b);
    }
}

proof fn lemma_valid_around_line_end(s: Seq<u8>, end: int)
    requires
        utf8::valid_utf8(s),
        0 <= end < s.len(),
        s[end] == NEWLINE,
    ensures
        utf8::valid_utf8(s.take(end)),
        utf8::valid_utf8(s.skip(end + 1)),
        utf8::decode_utf8(s) == utf8::decode_utf8(s.take(end)) + seq!['\n'] + utf8::decode_utf8(
            s.skip(end + 1),
        ),
{
    utf8::is_char_boundary_iff_not_is_continuation_byte(s, end);
    utf8::valid_utf8_split(s, end);
    utf8::decode_utf8_split(s, end);
    let rest = s.subrange(end, s.len() as int);
    assert(utf8::pop_first_scalar(rest) == s.skip(end + 1));
    assert(10u8 & 0x7f == 10) by (bit_vector);
}

/// The text of bytes that are valid UTF-8 is the one that they encode.
pub proof fn law_valid_bytes_are_decoded(bytes: Seq<u8>)
    requires
        utf8::valid_utf8(bytes),
    ensures
        log_text(bytes) == utf8::decode_utf8(bytes),
    decreases bytes.len(),
{
    lemma_line_end(bytes);
    let end = line_end(bytes) as int;
    if end < bytes.len() {
        lemma_valid_around_line_end(bytes, end);
        law_valid_bytes_are_decoded(bytes.skip(end + 1));
    }
}

/// A tail is the end of the text of the file: what stands before it and the tail make up the whole
/// text. The tail of a readable file is readable.
pub proof fn law_tail_of_text_is_its_end(contents: Seq<u8>, limit: nat)
    ensures
        log_text(contents) == log_text(contents.take(tail_start(contents, limit))) + log_text(
            contents.skip(tail_start(contents, limit)),
        ),
        utf8::valid_utf8(contents) ==> utf8::valid_utf8(
            contents.skip(tail_start(contents, limit)),
        ),
{
    law_tail_start_is_least(contents, limit);
    law_tail_begins_at_a_line(contents, limit);
    let t = tail_start(contents, limit);
    if t > 0 {
        assert(contents == contents.take(t - 1) + seq![NEWLINE] + contents.skip(t));
        law_text_is_read_on_both_sides(contents.take(t - 1), contents.skip(t));
        assert(contents.take(t) == contents.take(t - 1) + seq![NEWLINE] + Seq::<u8>::empty());
        law_text_is_read_on_both_sides(contents.take(t - 1), Seq::<u8>::empty());
        if utf8::valid_utf8(contents) {
            lemma_valid_around_line_end(contents, t - 1);
        }
    } else {
        assert(contents.skip(0) == contents);
    }
}

/// To look for fewer lines in a tail is to look for them in the whole file.
pub proof fn law_tail_of_tail(s: Seq<u8>, fewer: nat, more: nat)
    requires
        fewer <= more,
    ensures
        tail_start(s, fewer) == tail_start(s, more) + tail_start(
            s.skip(tail_start(s, more)),
            fewer,
        ),
    decreases s.len(),
{
    if newlines(s) > more {
        law_tail_of_tail(s.drop_first(), fewer, more);
        law_tail_start_is_least(s.drop_first(), more);
        assert(s.drop_first().skip(tail_start(s.drop_first(), more)) == s.skip(
            tail_start(s, more),
        ));
    } else {
        assert(s.skip(0) == s);
    }
}

/// Fewer lines give the end of what more lines give, of the bytes and of the text.
pub proof fn law_smaller_limit_gives_a_suffix(contents: Seq<u8>, fewer: usize, more: usize)
    requires
        fewer <= more,
    ensures
        tail_bytes(contents, fewer).is_suffix_of(tail_bytes(contents, more)),
        tail_text(contents, fewer).is_suffix_of(tail_text(contents, more)),
{
    let few = effective_limit(fewer);
    let many = effective_limit(more);
    let long = tail_bytes(contents, more);
    law_tail_of_tail(contents, few, many);
    law_tail_start_is_least(contents, many);
    law_tail_start_is_least(long, few);
    assert(tail_bytes(contents, fewer) == long.skip(tail_start(long, few)));
    law_tail_of_text_is_its_end(long, few);
}

/// Clamping keeps the limits, and clamping twice is clamping once.
pub proof fn law_clamped(line_limit: Option<usize>)
    ensures
        MIN_LOG_TAIL_LINES <= clamped(line_limit) <= MAX_LOG_TAIL_LINES,
        clamped(Some(clamped(line_limit))) == clamped(line_limit),
        line_limit matches Some(lines) ==> MIN_LOG_TAIL_LINES <= lines <= MAX_LOG_TAIL_LINES
            ==> clamped(line_limit) == lines,
{
}

/// Brings the number of lines asked for within the limits.
pub fn clamp_log_tail_lines(line_limit: Option<usize>) -> (res: usize)
    ensures
        res == clamped(line_limit),
{
    let asked: usize = line_limit.unwrap_or(DEFAULT_LOG_TAIL_LINES);
    if asked < MIN_LOG_TAIL_LINES {
        MIN_LOG_TAIL_LINES
    } else if asked > MAX_LOG_TAIL_LINES {
        MAX_LOG_TAIL_LINES
    } else {
        asked
    }
}

/// A walk through a file, from its end to the start of its last lines.
#[derive(Clone, Copy, PartialEq, Eq, Structural, Debug)]
pub struct TailScan {
    /// The number of line ends that the tail may hold.
    pub line_limit: u64,
    /// The bytes from this offset on have been seen.
    pub pos: u64,
    /// The number of line ends among the bytes that belong to the tail so far.
    pub newline_count: u64,
    /// Where the tail begins, once that is known.
    pub start: Option<u64>,
}

impl TailScan {
    /// What holds of every scan.
    pub open spec fn wf(self) -> bool {
        &&& self.newline_count <= self.line_limit
        &&& self.newline_count + self.pos <= u64::MAX
    }

    /// Whether nothing is left to read.
    pub open spec fn finished(self) -> bool {
        self.start is Some || self.pos == 0
    }

    /// Whether the scan has gone through the end of a file with these contents.
    pub open spec fn tracks(self, contents: Seq<u8>) -> bool {
        match self.start {
            Some(start) => start == tail_start(contents, self.line_limit as nat),
            None => {
                &&& self.pos <= contents.len()
                &&& self.newline_count == newlines(contents.skip(self.pos as int))
                &&& self.newline_count <= self.line_limit
            },
        }
    }

    /// The scan after the bytes `chunk`, which end at its position, have been seen.
    pub open spec fn after(self, chunk: Seq<u8>) -> TailScan {
        let pos = (self.pos - chunk.len()) as u64;
        let room = (self.line_limit - self.newline_count) as nat;
        if newlines(chunk) <= room {
            TailScan {
                line_limit: self.line_limit,
                pos,
                newline_count: (self.newline_count + newlines(chunk)) as u64,
                start: None,
            }
        } else {
            TailScan {
                line_limit: self.line_limit,
                pos,
                newline_count: self.line_limit,
                start: Some((pos + tail_start(chunk, room)) as u64),
            }
        }
    }

    /// The scan of a file of `file_len` bytes for its last `line_limit` lines, before anything
    /// has been read.
    pub fn new(file_len: u64, line_limit: usize) -> (res: TailScan)
        ensures
            res.wf(),
            res.line_limit == effective_limit(line_limit),
            res.pos == file_len,
            res.newline_count == 0,
            res.start is None,
    {
        let line_limit: u64 = if line_limit == 0 {
            1
        } else {
            line_limit as u64
        };
        TailScan { line_limit, pos: file_len, newline_count: 0, start: None }
    }

    /// The bytes to read next, as an offset and a length; `None` where nothing is left to read.
    pub fn next_read(&self) -> (res: Option<(u64, usize)>)
        ensures
            res is None <==> self.finished(),
            res matches Some((offset, len)) ==> {
                &&& offset + len == self.pos
                &&& len == if self.pos < LOG_TAIL_SCAN_CHUNK_BYTES {
                    self.pos
                } else {
                    LOG_TAIL_SCAN_CHUNK_BYTES
                }
            },
    {
        if self.start.is_some() || self.pos == 0 {
            return None;
        }
        let len: u64 = if self.pos < LOG_TAIL_SCAN_CHUNK_BYTES {
            self.pos
        } else {
            LOG_TAIL_SCAN_CHUNK_BYTES
        };
        Some((self.pos - len, len as usize))
    }

    /// Takes the bytes that were asked for.
    pub fn feed(&mut self, chunk: &[u8])
        requires
            old(self).wf(),
            !old(self).finished(),
            chunk@.len() <= old(self).pos,
        ensures
            final(self).wf(),
            *final(self) == old(self).after(chunk@),
    {
        let ghost before = *self;
        let pos: u64 = self.pos - chunk.len() as u64;
        let mut count: u64 = self.newline_count;
        let mut i: usize = chunk.len();
        while i > 0
            invariant
                i <= chunk@.len(),
                before == *self,
                before == *old(self),
                before.wf(),
                chunk@.len() <= before.pos,
                pos == before.pos - chunk@.len(),
                count == before.newline_count + newlines(chunk@.skip(i as int)),
                count <= before.line_limit,
                count + i + pos <= u64::MAX,
            decreases i,
        {
            i -= 1;
            proof {
                assert(chunk@.skip(i as int).drop_first() == chunk@.skip(i + 1));
            }
            if chunk[i] == NEWLINE {
                if count == self.line_limit {
                    proof {
                        let room = (before.line_limit - before.newline_count) as nat;
                        law_tail_start_is_least(chunk@, room);
                        let t = tail_start(chunk@, room);
                        if t > i + 1 {
                            assert(newlines(chunk@.skip(i + 1)) > room);
                        }
                        if t <= i {
                            lemma_newlines_skip(chunk@.skip(t), i - t);
                            assert(chunk@.skip(t).skip(i - t) == chunk@.skip(i as int));
                        }
                    }
                    self.newline_count = count;
                    self.start = Some(pos + i as u64 + 1);
                    self.pos = pos;
                    return;
                }
                count += 1;
            }
        }
        assert(chunk@.skip(0) == chunk@);
        self.newline_count = count;
        self.pos = pos;
    }

    /// Where the last lines begin.
    pub fn start_offset(&self) -> (res: u64)
        ensures
            res == match self.start {
                Some(start) => start,
                None => 0,
            },
            forall|contents: Seq<u8>| #[trigger]
                self.tracks(contents) && self.finished() ==> res == tail_start(
                    contents,
                    self.line_limit as nat,
                ),
    {
        assert forall|contents: Seq<u8>| #[trigger] self.tracks(contents) && self.start is None
            && self.pos == 0 implies tail_start(contents, self.line_limit as nat) == 0 by {
            assert(contents.skip(0) == contents);
        }
        match self.start {
            Some(start) => start,
            None => 0,
        }
    }
}

/// The number of line ends is the number of bytes with the value 10.
pub proof fn law_newlines_are_counted(s: Seq<u8>)
    ensures
        newlines(s) == s.filter(|b: u8| b == 10).len(),
    decreases s.len(),
{
    let ends = |b: u8| b == 10;
    if s.len() == 0 {
        reveal(Seq::filter);
    } else {
        let rest = s.drop_first();
        law_newlines_are_counted(rest);
        assert(s == seq![s.first()] + rest);
        Seq::filter_distributes_over_add(seq![s.first()], rest, ends);
        reveal_with_fuel(Seq::filter, 2);
        assert(seq![s.first()].drop_last() == Seq::<u8>::empty());
    }
}

/// A file with no more line ends than lines are asked for comes back whole. Of any other the tail
/// holds as many line ends as lines are asked for, and begins right behind a line end. To ask for
/// no line is to ask for one.
pub proof fn law_tail_holds_the_lines_asked_for(contents: Seq<u8>, line_limit: usize)
    ensures
        ({
            let lines = if line_limit == 0 {
                1
            } else {
                line_limit as int
            };
            let tail = tail_bytes(contents, line_limit);
            if contents.filter(|b: u8| b == 10).len() <= lines {
                tail == contents
            } else {
                &&& tail.filter(|b: u8| b == 10).len() == lines
                &&& tail.len() < contents.len()
                &&& contents == contents.take(contents.len() - tail.len()) + tail
                &&& contents[contents.len() - tail.len() - 1] == 10
            }
        }),
{
    let limit = effective_limit(line_limit);
    law_newlines_are_counted(contents);
    law_newlines_are_counted(tail_bytes(contents, line_limit));
    law_tail_start_is_least(contents, limit);
    law_tail_begins_at_a_line(contents, limit);
    assert(contents.skip(0) == contents);
}

/// The text of a tail is read from the bytes of the tail: bytes that are valid UTF-8 are decoded, a
/// line that is not goes to [`utf8_lossy`].
pub proof fn law_tail_text_is_read_from_its_bytes(contents: Seq<u8>, line_limit: usize)
    ensures
        tail_text(contents, line_limit) == log_text(tail_bytes(contents, line_limit)),
        utf8::valid_utf8(tail_bytes(contents, line_limit)) ==> tail_text(contents, line_limit)
            == utf8::decode_utf8(tail_bytes(contents, line_limit)),
{
    if utf8::valid_utf8(tail_bytes(contents, line_limit)) {
        law_valid_bytes_are_decoded(tail_bytes(contents, line_limit));
    }
}

/// A line that is not valid UTF-8 goes to [`utf8_lossy`] as a whole.
pub proof fn law_invalid_line_is_handed_over(line: Seq<u8>)
    requires
        !line.contains(10),
        !utf8::valid_utf8(line),
    ensures
        log_text(line) == utf8_lossy(line),
{
    lemma_line_end(line);
    if line_end(line) < line.len() {
        assert(line.contains(line[line_end(line) as int]));
    }
}

/// Where a finished scan of a file says that the tail begins, there are as many line ends behind
/// as the scan was made for and a line end right before, or it is the start of a file with no more
/// line ends than that.
pub proof fn law_finished_scan_gives_the_tail(scan: TailScan, contents: Seq<u8>, start: int)
    requires
        scan.tracks(contents),
        scan.finished(),
        start == match scan.start {
            Some(start) => start as int,
            None => 0,
        },
    ensures
        0 <= start <= contents.len(),
        start == 0 <==> contents.filter(|b: u8| b == 10).len() <= scan.line_limit,
        start > 0 ==> contents[start - 1] == 10 && contents.skip(start).filter(
            |b: u8| b == 10,
        ).len() == scan.line_limit,
{
    let limit = scan.line_limit as nat;
    law_newlines_are_counted(contents);
    law_newlines_are_counted(contents.skip(start));
    law_tail_start_is_least(contents, limit);
    law_tail_begins_at_a_line(contents, limit);
    assert(contents.skip(0) == contents);
}

/// A number of lines asked for is kept as far as it lies between 20 and 5000, and brought to the
/// nearer of the two where it does not. Where none is asked for it is 200.
pub proof fn law_lines_asked_for_lie_between_the_limits(lines: usize)
    ensures
        clamped(None) == 200,
        lines < 20 ==> clamped(Some(lines)) == 20,
        20 <= lines <= 5000 ==> clamped(Some(lines)) == lines,
        lines > 5000 ==> clamped(Some(lines)) == 5000,
        effective_limit(0) == 1,
        lines > 0 ==> effective_limit(lines) == lines,
{
}

/// A new scan fits every file of the length that it was made for.
pub proof fn law_new_scan_tracks(scan: TailScan, contents: Seq<u8>)
    requires
        scan.wf(),
        scan.pos == contents.len(),
        scan.newline_count == 0,
        scan.start is None,
    ensures
        scan.tracks(contents),
{
}

/// A scan that fits a file still fits it after the bytes before its position have been seen,
/// however many they are.
pub proof fn law_scan_keeps_tracking(scan: TailScan, contents: Seq<u8>, from: int)
    requires
        scan.wf(),
        scan.tracks(contents),
        !scan.finished(),
        0 <= from <= scan.pos,
    ensures
        scan.after(contents.subrange(from, scan.pos as int)).tracks(contents),
{
    let chunk = contents.subrange(from, scan.pos as int);
    let seen = contents.skip(scan.pos as int);
    let limit = scan.line_limit as nat;
    let room = (scan.line_limit - scan.newline_count) as nat;
    assert(contents.skip(from) == chunk + seen);
    lemma_newlines_concat(chunk, seen);
    if newlines(chunk) > room {
        law_tail_start_is_least(chunk, room);
        law_tail_start_is_least(contents, limit);
        let t = tail_start(chunk, room);
        assert(contents.skip(from + t) == chunk.skip(t) + seen);
        lemma_newlines_concat(chunk.skip(t), seen);
        let found = tail_start(contents, limit);
        if found > from + t {
            assert(newlines(contents.skip(from + t)) > limit);
        }
        if found < from {
            lemma_newlines_skip(contents.skip(found), from - found);
            assert(contents.skip(found).skip(from - found) == contents.skip(from));
        } else if found < from + t {
            let k = found - from;
            assert(newlines(chunk.skip(k)) > room);
            assert(contents.skip(found) == chunk.skip(k) + seen);
            lemma_newlines_concat(chunk.skip(k), seen);
        }
    }
}

/// The text that the bytes of a log encode.
pub fn decode_log_text(bytes: &[u8]) -> (res: String)
    ensures
        res@ == log_text(bytes@),
        utf8::valid_utf8(bytes@) ==> res@ == utf8::decode_utf8(bytes@),
        !utf8::valid_utf8(bytes@) ==> res@.contains('\u{fffd}'),
{
    proof {
        if utf8::valid_utf8(bytes@) {
            law_valid_bytes_are_decoded(bytes@);
        }
    }
    from_utf8_lossy(bytes)
}

/// The last `line_limit` lines of a log whose contents are at hand.
pub fn read_log_tail_lines(contents: &[u8], line_limit: usize) -> (res: String)
    ensures
        res@ == tail_text(contents@, line_limit),
        utf8::valid_utf8(tail_bytes(contents@, line_limit)) ==> res@ == utf8::decode_utf8(
            tail_bytes(contents@, line_limit),
        ),
        !utf8::valid_utf8(tail_bytes(contents@, line_limit)) ==> res@.contains('\u{fffd}'),
        forall|fewer: usize|
            fewer <= line_limit ==> (#[trigger] tail_text(contents@, fewer)).is_suffix_of(res@),
{
    proof {
        assert forall|fewer: usize| fewer <= line_limit implies (#[trigger] tail_text(
            contents@,
            fewer,
        )).is_suffix_of(tail_text(contents@, line_limit)) by {
            law_smaller_limit_gives_a_suffix(contents@, fewer, line_limit);
        }
    }
    if contents.len() == 0 {
        assert(tail_bytes(contents@, line_limit) == Seq::<u8>::empty());
        return String::new();
    }
    let mut scan = TailScan::new(contents.len() as u64, line_limit);
    proof {
        law_new_scan_tracks(scan, contents@);
    }
    let mut next = scan.next_read();
    while next.is_some()
        invariant
            scan.wf(),
            scan.tracks(contents@),
            scan.pos <= contents@.len(),
            contents@.len() <= usize::MAX,
            scan.line_limit == effective_limit(line_limit),
            next is None <==> scan.finished(),
            next matches Some((offset, len)) ==> offset + len == scan.pos && len > 0,
        decreases scan.pos,
    {
        if let Some((offset, len)) = next {
            let from: usize = offset as usize;
            let chunk = slice_subrange(contents, from, from + len);
            proof {
                law_scan_keeps_tracking(scan, contents@, from as int);
            }
            scan.feed(chunk);
        }
        next = scan.next_read();
    }
    let start = scan.start_offset();
    proof {
        law_tail_start_is_least(contents@, effective_limit(line_limit));
    }
    let tail = slice_subrange(contents, start as usize, contents.len());
    decode_log_text(tail)
}

} // verus!
