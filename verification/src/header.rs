use vstd::prelude::*;

verus! {

/// The byte that ends a line.
pub const NEWLINE: u8 = 10;

/// How many bytes at the front of `input` make up its first `lines` lines:
/// everything up to and including the `lines`-th newline, or all of `input`
/// when it holds fewer newlines than that.
pub open spec fn header_end(input: Seq<u8>, lines: nat) -> nat
    decreases input.len(),
{
    if lines == 0 || input.len() == 0 {
        0
    } else if input[0] == NEWLINE {
        1 + header_end(input.drop_first(), (lines - 1) as nat)
    } else {
        1 + header_end(input.drop_first(), lines)
    }
}

/// What is printed for the header: the bytes of the first `lines` lines as
/// they were read, with a newline added after a last line that the input
/// ended without one.
pub open spec fn header_output(input: Seq<u8>, lines: nat) -> Seq<u8> {
    let end = header_end(input, lines);
    let taken = input.take(end as int);
    if end > 0 && input[end - 1] != NEWLINE {
        taken.push(NEWLINE)
    } else {
        taken
    }
}

/// One outcome of asking standard input for one more byte.
#[derive(Debug, Clone, Copy, PartialEq, Eq)]
pub enum ReadEvent {
    /// A byte arrived.
    Byte(u8),
    /// The input is exhausted.
    EndOfInput,
    /// The read was interrupted before anything arrived; it may be retried.
    Interrupted,
    /// The read failed.
    Failed,
}

/// The abstract state of a [`HeaderReader`].
pub ghost struct HeaderReaderView {
    /// Header lines still to be read in full.
    pub remaining: nat,
    /// The bytes of the line being read, without its newline.
    pub line: Seq<u8>,
    /// Whether a read has failed.
    pub failed: bool,
}

/// The bytes that a pending partial line is printed as when the input
/// stops: the line and a newline, or nothing for an empty line.
pub open spec fn flushed(line: Seq<u8>) -> Seq<u8> {
    if line.len() == 0 {
        Seq::empty()
    } else {
        line.push(NEWLINE)
    }
}

/// Whether a reader in state `v` asks for more input.
pub open spec fn spec_wants_input(v: HeaderReaderView) -> bool {
    v.remaining > 0 && !v.failed
}

/// How a reader in state `v` answers `event`: its next state, and the bytes
/// that it hands out to be printed.
pub open spec fn step(v: HeaderReaderView, event: ReadEvent) -> (HeaderReaderView, Seq<u8>) {
    if !spec_wants_input(v) {
        (v, Seq::empty())
    } else {
        match event {
            ReadEvent::Byte(b) => if b == NEWLINE {
                (
                    HeaderReaderView { remaining: (v.remaining - 1) as nat, line: Seq::empty(), ..v },
                    v.line.push(NEWLINE),
                )
            } else {
                (HeaderReaderView { line: v.line.push(b), ..v }, Seq::empty())
            },
            ReadEvent::EndOfInput => (
                HeaderReaderView { remaining: 0, line: Seq::empty(), ..v },
                flushed(v.line),
            ),
            ReadEvent::Interrupted => (v, Seq::empty()),
            ReadEvent::Failed => (
                HeaderReaderView { remaining: 0, line: Seq::empty(), failed: true },
                flushed(v.line),
            ),
        }
    }
}

/// Reads the header of standard input one byte at a time, so that not a
/// byte past the last header line is taken from the stream, and hands out
/// each line as soon as it is complete.
pub struct HeaderReader {
    remaining: u64,
    line: Vec<u8>,
    failed: bool,
}

impl View for HeaderReader {
    type V = HeaderReaderView;

    closed spec fn view(&self) -> HeaderReaderView {
        HeaderReaderView { remaining: self.remaining as nat, line: self.line@, failed: self.failed }
    }
}

impl HeaderReader {
    /// A reader for a header of `lines` lines.
    pub fn new(lines: u64) -> (r: HeaderReader)
        ensures
            r@ == (HeaderReaderView { remaining: lines as nat, line: Seq::empty(), failed: false }),
    {
        HeaderReader { remaining: lines, line: Vec::new(), failed: false }
    }

    /// Whether the header is still incomplete, so that one more byte must be read.
    pub fn wants_input(&self) -> (r: bool)
        ensures
            r == spec_wants_input(self@),
    {
        self.remaining > 0 && !self.failed
    }

    /// Whether a read failed while the header was being read.
    pub fn has_failed(&self) -> (r: bool)
        ensures
            r == self@.failed,
    {
        self.failed
    }

    /// Takes the outcome of one read; returns the bytes to print now.
    pub fn feed(&mut self, event: ReadEvent) -> (out: Vec<u8>)
        ensures
            (final(self)@, out@) == step(old(self)@, event),
    {
        if !self.wants_input() {
            return Vec::new();
        }
        match event {
            ReadEvent::Byte(b) => {
                if b == NEWLINE {
                    let mut emitted: Vec<u8> = Vec::new();
                    std::mem::swap(&mut emitted, &mut self.line);
                    emitted.push(NEWLINE);
                    self.remaining = self.remaining - 1;
                    emitted
                } else {
                    self.line.push(b);
                    Vec::new()
                }
            },
            ReadEvent::EndOfInput => {
                self.remaining = 0;
                self.flush()
            },
            ReadEvent::Interrupted => Vec::new(),
            ReadEvent::Failed => {
                self.remaining = 0;
                self.failed = true;
                self.flush()
            },
        }
    }

    fn flush(&mut self) -> (out: Vec<u8>)
        ensures
            out@ == flushed(old(self)@.line),
            final(self)@ == (HeaderReaderView { line: Seq::empty(), ..old(self)@ }),
    {
        let mut emitted: Vec<u8> = Vec::new();
        std::mem::swap(&mut emitted, &mut self.line);
        if emitted.len() > 0 {
            emitted.push(NEWLINE);
        }
        emitted
    }
}


/// Reads the header of `lines` lines from an input that is at hand as a
/// whole, through a [`HeaderReader`] fed one byte at a time. Returns what
/// is printed for the header and how many bytes of `input` were taken; the
/// rest of `input` is the body.
pub fn take_header(input: &[u8], lines: u64) -> (r: (Vec<u8>, usize))
    ensures
        r.0@ == header_output(input@, lines as nat),
        r.1 == header_end(input@, lines as nat),
        r.1 <= input@.len(),
{
    let n = input.len();
    let mut reader = HeaderReader::new(lines);
    let mut out: Vec<u8> = Vec::new();
    let mut i: usize = 0;
    assert(input@.skip(0) =~= input@);
    while i < n && reader.wants_input()
        invariant
            n == input@.len(),
            0 <= i <= n,
            !reader@.failed,
            reader@.line.len() <= i,
            header_end(input@, lines as nat) == i + header_end(input@.skip(i as int), reader@.remaining),
            out@ == input@.take(i - reader@.line.len()),
            reader@.line == input@.subrange(i - reader@.line.len(), i as int),
            reader@.line.len() == 0 ==> (i == 0 || input@[i - 1] == NEWLINE),
            reader@.line.len() > 0 ==> input@[i - 1] != NEWLINE,
            reader@.remaining == 0 ==> reader@.line.len() == 0,
        decreases n - i,
    {
        let b = input[i];
        proof {
            let rest = input@.skip(i as int);
            assert(rest[0] == b);
            assert(rest.drop_first() =~= input@.skip(i + 1));
        }
        let mut chunk = reader.feed(ReadEvent::Byte(b));
        out.append(&mut chunk);
        i = i + 1;
        proof {
            assert(out@ =~= input@.take(i - reader@.line.len()));
            assert(reader@.line =~= input@.subrange(i - reader@.line.len(), i as int));
        }
    }
    if reader.wants_input() {
        assert(input@.skip(i as int) =~= Seq::<u8>::empty());
        let mut chunk = reader.feed(ReadEvent::EndOfInput);
        out.append(&mut chunk);
    }
    assert(out@ =~= header_output(input@, lines as nat));
    (out, i)
}


/// How many newlines `bytes` holds.
pub open spec fn newline_count(bytes: Seq<u8>) -> nat
    decreases bytes.len(),
{
    if bytes.len() == 0 {
        0
    } else {
        (if bytes[0] == NEWLINE { 1nat } else { 0nat }) + newline_count(bytes.drop_first())
    }
}

/// The smaller of two numbers.
pub open spec fn min_nat(a: nat, b: nat) -> nat {
    if a <= b { a } else { b }
}

/// The header takes exactly the header lines and not a byte more: the bytes
/// taken hold as many newlines as were asked for, or all of them when the
/// input has fewer; they stop right after a newline unless the input ran
/// out or no line was asked for; and an input with fewer lines than asked
/// for is taken whole. What is not taken is left to the command.
pub proof fn law_header_takes_exactly_the_header_lines(input: Seq<u8>, lines: nat)
    ensures
        header_end(input, lines) <= input.len(),
        newline_count(input.take(header_end(input, lines) as int)) == min_nat(
            lines,
            newline_count(input),
        ),
        header_end(input, lines) == input.len() || (lines == 0 && header_end(input, lines) == 0)
            || input[header_end(input, lines) - 1] == NEWLINE,
        newline_count(input) < lines ==> header_end(input, lines) == input.len(),
        0 < lines <= newline_count(input) ==> header_end(input, lines) > 0 && input[header_end(
            input,
            lines,
        ) - 1] == NEWLINE && newline_count(input.take(header_end(input, lines) as int)) == lines,
    decreases input.len(),
{
    let end = header_end(input, lines);
    if lines == 0 || input.len() == 0 {
        assert(input.take(0) =~= Seq::<u8>::empty());
    } else {
        let rest = input.drop_first();
        let next_lines: nat = if input[0] == NEWLINE { (lines - 1) as nat } else { lines };
        law_header_takes_exactly_the_header_lines(rest, next_lines);
        let rest_end = header_end(rest, next_lines);
        assert(end == 1 + rest_end);
        assert(input.take(end as int).drop_first() =~= rest.take(rest_end as int));
        assert(input.take(end as int)[0] == input[0]);
        if rest_end > 0 {
            assert(input[end - 1] == rest[rest_end - 1]);
        }
    }
}

/// With zero header lines nothing is printed and nothing is taken: the whole
/// input goes to the command.
pub proof fn law_zero_header_lines_take_nothing(input: Seq<u8>)
    ensures
        header_end(input, 0) == 0,
        header_output(input, 0) == Seq::<u8>::empty(),
{
    assert(input.take(0) =~= Seq::<u8>::empty());
}

/// The printed header is the taken bytes themselves, untouched, except that
/// a last line which the input ended without a newline is printed with one.
pub proof fn law_header_is_printed_untouched(input: Seq<u8>, lines: nat)
    ensures
        header_output(input, lines) == input.take(header_end(input, lines) as int) || (
        header_end(input, lines) == input.len() && input.len() > 0 && input.last() != NEWLINE
            && header_output(input, lines) == input.push(NEWLINE)),
        header_end(input, lines) == 0 || input[header_end(input, lines) - 1] == NEWLINE
            ==> header_output(input, lines) == input.take(header_end(input, lines) as int),
        header_end(input, lines) > 0 && input[header_end(input, lines) - 1] != NEWLINE
            ==> header_end(input, lines) == input.len() && header_output(input, lines) == input
            + seq![NEWLINE],
{
    law_header_takes_exactly_the_header_lines(input, lines);
    let end = header_end(input, lines);
    if end > 0 && input[end - 1] != NEWLINE {
        assert(end == input.len());
        assert(input.take(end as int) =~= input);
        assert(input.push(NEWLINE) =~= input + seq![NEWLINE]);
    }
}


/// A read that was interrupted changes nothing and prints nothing: it is
/// simply tried again.
pub proof fn law_interrupted_read_changes_nothing(v: HeaderReaderView)
    ensures
        step(v, ReadEvent::Interrupted) == (v, Seq::<u8>::empty()),
{
}

/// When the input ends, or a read fails, the reader stops asking for input,
/// and prints what it has of an unfinished line, followed by a newline.
pub proof fn law_reader_stops_at_end_or_failure(v: HeaderReaderView, line: Seq<u8>, remaining: nat)
    requires
        remaining > 0,
        !v.failed,
        v.remaining == remaining,
        v.line == line,
    ensures
        !spec_wants_input(step(v, ReadEvent::EndOfInput).0),
        !spec_wants_input(step(v, ReadEvent::Failed).0),
        step(v, ReadEvent::Failed).0.failed,
        !step(v, ReadEvent::EndOfInput).0.failed,
        line.len() > 0 ==> step(v, ReadEvent::EndOfInput).1 == line + seq![NEWLINE]
            && step(v, ReadEvent::Failed).1 == line + seq![NEWLINE],
        line.len() == 0 ==> step(v, ReadEvent::EndOfInput).1.len() == 0 && step(
            v,
            ReadEvent::Failed,
        ).1.len() == 0,
{
    assert(line.push(NEWLINE) =~= line + seq![NEWLINE]);
}

/// A byte other than a newline is held back in the current line; a newline
/// prints the whole line with it and counts one header line done.
pub proof fn law_reader_prints_whole_lines(v: HeaderReaderView, b: u8)
    requires
        spec_wants_input(v),
    ensures
        b != NEWLINE ==> step(v, ReadEvent::Byte(b)).1.len() == 0 && step(
            v,
            ReadEvent::Byte(b),
        ).0.line == v.line + seq![b] && step(v, ReadEvent::Byte(b)).0.remaining == v.remaining,
        b == NEWLINE ==> step(v, ReadEvent::Byte(b)).1 == v.line + seq![NEWLINE] && step(
            v,
            ReadEvent::Byte(b),
        ).0.line.len() == 0 && step(v, ReadEvent::Byte(b)).0.remaining + 1 == v.remaining,
{
    assert(v.line.push(b) =~= v.line + seq![b]);
}

} // verus!
