//! Framing of the inbound byte stream: bounded command lines and message bodies.
//!
//! `LineReader` and `DataReader` take the stream one byte or one chunk at a time,
//! so that whoever owns the socket can feed them. `read_line` and `read_data` run
//! them over a stream that is already in memory.

use vstd::prelude::*;
use crate::text::{lemma_position_of, lemma_position_of_skip, position_of};

verus! {

/// The line feed that ends a line.
pub const LF: u8 = 10;

/// The carriage return that may precede the line feed.
pub const CR: u8 = 13;

/// The dot that, alone on a line, ends a message body.
pub const DOT: u8 = 46;

/// Why reading from the stream failed.
#[derive(Clone, Copy, Debug, PartialEq, Eq, Structural)]
pub enum ReadError {
    /// More bytes than the line limit arrived without a line feed.
    LineTooLong,
    /// The message body grew beyond the size limit.
    MessageTooLarge,
    /// The stream ended inside a message body.
    UnexpectedEof,
}

/// The text that a run of bytes decodes to when every malformed UTF-8 sequence
/// is replaced by U+FFFD.
pub uninterp spec fn lossy_text(bytes: Seq<u8>) -> Seq<char>;

/// Decodes bytes as UTF-8, replacing what is malformed.
///
/// Trusted: the body calls `String::from_utf8_lossy` and takes ownership of what
/// it returns. The contract only gives that result its name.
#[verifier::external_body]
fn decode_lossy(bytes: &[u8]) -> (r: String)
    ensures
        r@ == lossy_text(bytes@),
{
    String::from_utf8_lossy(bytes).into_owned()
}

/// `line` without one trailing carriage return.
pub open spec fn strip_cr(line: Seq<u8>) -> Seq<u8> {
    if line.len() > 0 && line[line.len() - 1] == CR {
        line.subrange(0, line.len() - 1)
    } else {
        line
    }
}

/// `chunk` without its line ending: `\r\n`, or else `\n`.
pub open spec fn strip_eol(chunk: Seq<u8>) -> Seq<u8> {
    let n = chunk.len() as int;
    if n >= 2 && chunk[n - 2] == CR && chunk[n - 1] == LF {
        chunk.subrange(0, n - 2)
    } else if n >= 1 && chunk[n - 1] == LF {
        chunk.subrange(0, n - 1)
    } else {
        chunk
    }
}

/// Whether a chunk is the line that ends a message body: a lone dot.
pub open spec fn is_terminator(chunk: Seq<u8>) -> bool {
    strip_eol(chunk) == seq![DOT]
}

/// What reading one line from a stream yields.
pub enum LineFrame {
    /// The stream is at its end.
    End,
    /// The line limit was exceeded before a line feed came; this many bytes were
    /// taken from the stream.
    TooLong { used: int },
    /// A line, without its line ending, and the number of bytes it took from the
    /// stream.
    Line { raw: Seq<u8>, used: int },
}

/// Reads one line from what is left of a stream.
///
/// A line ends at the first line feed. More than `max_len` bytes without one is
/// an error, which shows after one byte more than the limit. At the end of the
/// stream what is left is the last line, and nothing left is the end.
pub open spec fn line_frame(rest: Seq<u8>, max_len: int) -> LineFrame {
    let n = position_of(rest, LF);
    if n > max_len {
        LineFrame::TooLong { used: max_len + 1 }
    } else if n < rest.len() {
        LineFrame::Line { raw: strip_cr(rest.subrange(0, n)), used: n + 1 }
    } else if n == 0 {
        LineFrame::End
    } else {
        LineFrame::Line { raw: strip_cr(rest), used: n }
    }
}

/// What reading a message body from a stream yields.
pub enum DataFrame {
    /// The body, without the terminating line, and the number of bytes read.
    Done { data: Seq<u8>, used: int },
    /// The body grew beyond the size limit after this many bytes were read.
    TooLarge { used: int },
    /// The stream ended before the terminating line, after this many bytes.
    Truncated { used: int },
}

/// The first chunk of a stream: up to and including its first line feed, or all
/// of it when it holds none.
pub open spec fn first_chunk(rest: Seq<u8>) -> Seq<u8> {
    let n = position_of(rest, LF);
    if n < rest.len() {
        rest.subrange(0, n + 1)
    } else {
        rest
    }
}

/// Reads a message body from what is left of a stream, after `acc` was read.
///
/// Chunks are appended as they are, line endings included, until the
/// terminating line, which is left out.
pub open spec fn data_frame(rest: Seq<u8>, acc: Seq<u8>, used: int, max_size: int) -> DataFrame
    decreases rest.len(),
    via data_frame_decreases
{
    let chunk = first_chunk(rest);
    if rest.len() == 0 {
        DataFrame::Truncated { used }
    } else if is_terminator(chunk) {
        DataFrame::Done { data: acc, used: used + chunk.len() }
    } else if acc.len() + chunk.len() > max_size {
        DataFrame::TooLarge { used: used + chunk.len() }
    } else {
        data_frame(
            rest.subrange(chunk.len() as int, rest.len() as int),
            acc + chunk,
            used + chunk.len(),
            max_size,
        )
    }
}

#[via_fn]
proof fn data_frame_decreases(rest: Seq<u8>, acc: Seq<u8>, used: int, max_size: int) {
    lemma_position_of(rest, LF);
}

/// What a `LineReader` says after one byte.
#[derive(Debug, PartialEq, Eq)]
pub enum LineStep {
    /// The line is not complete.
    More,
    /// A line is complete; these are its bytes without the line ending.
    Line(Vec<u8>),
    /// The line limit was exceeded.
    TooLong,
}

/// Collects the bytes of one line at a time, up to a limit.
pub struct LineReader {
    buf: Vec<u8>,
    max_len: usize,
}

impl LineReader {
    /// The bytes of the line that is being collected.
    pub closed spec fn pending(&self) -> Seq<u8> {
        self.buf@
    }

    /// The line limit.
    pub closed spec fn limit(&self) -> int {
        self.max_len as int
    }

    /// The pending bytes never exceed the limit.
    pub closed spec fn wf(&self) -> bool {
        self.buf@.len() <= self.max_len
    }

    /// A reader with nothing pending.
    pub fn new(max_len: usize) -> (r: Self)
        ensures
            r.wf(),
            r.pending() == Seq::<u8>::empty(),
            r.limit() == max_len,
    {
        LineReader { buf: Vec::new(), max_len }
    }

    /// Takes the next byte of the stream.
    ///
    /// A line feed completes the line. Any other byte is kept, unless it would
    /// take the line over the limit: then the line is refused and the reader
    /// starts over.
    pub fn push(&mut self, byte: u8) -> (r: LineStep)
        requires
            old(self).wf(),
        ensures
            final(self).wf(),
            final(self).limit() == old(self).limit(),
            match r {
                LineStep::Line(raw) => {
                    &&& byte == LF
                    &&& raw@ == strip_cr(old(self).pending())
                    &&& raw@.len() <= old(self).limit()
                    &&& final(self).pending() == Seq::<u8>::empty()
                },
                LineStep::TooLong => {
                    &&& byte != LF
                    &&& old(self).pending().len() + 1 > old(self).limit()
                    &&& final(self).pending() == Seq::<u8>::empty()
                },
                LineStep::More => {
                    &&& byte != LF
                    &&& old(self).pending().len() + 1 <= old(self).limit()
                    &&& final(self).pending() == old(self).pending().push(byte)
                },
            },
    {
        if byte == LF {
            let raw = self.take_line();
            LineStep::Line(raw)
        } else if self.buf.len() >= self.max_len {
            self.buf.clear();
            LineStep::TooLong
        } else {
            self.buf.push(byte);
            LineStep::More
        }
    }

    /// Takes the end of the stream: what is pending is the last line.
    pub fn finish(&mut self) -> (r: Option<Vec<u8>>)
        requires
            old(self).wf(),
        ensures
            final(self).wf(),
            final(self).limit() == old(self).limit(),
            final(self).pending() == Seq::<u8>::empty(),
            match r {
                Some(raw) => old(self).pending().len() > 0 && raw@ == strip_cr(
                    old(self).pending(),
                ) && raw@.len() <= old(self).limit(),
                None => old(self).pending().len() == 0,
            },
    {
        if self.buf.len() == 0 {
            None
        } else {
            Some(self.take_line())
        }
    }

    fn take_line(&mut self) -> (raw: Vec<u8>)
        requires
            old(self).wf(),
        ensures
            final(self).wf(),
            final(self).limit() == old(self).limit(),
            final(self).pending() == Seq::<u8>::empty(),
            raw@ == strip_cr(old(self).pending()),
            raw@.len() <= old(self).limit(),
    {
        let mut raw: Vec<u8> = Vec::new();
        core::mem::swap(&mut raw, &mut self.buf);
        let n: usize = raw.len();
        if n > 0 && raw[n - 1] == CR {
            raw.pop();
        }
        raw
    }
}

/// The text of a line: its bytes decoded as UTF-8, malformed sequences replaced.
pub fn line_text(raw: &Vec<u8>) -> (r: String)
    ensures
        r@ == lossy_text(raw@),
{
    decode_lossy(raw.as_slice())
}

/// What a `DataReader` says after one chunk.
#[derive(Debug, PartialEq, Eq)]
pub enum DataStep {
    /// The body is not complete.
    More,
    /// The terminating line came; this is the body.
    Done(Vec<u8>),
    /// The body grew beyond the size limit.
    TooLarge,
    /// The stream ended before the terminating line.
    Truncated,
}

/// Collects a message body chunk by chunk, up to a size limit.
pub struct DataReader {
    data: Vec<u8>,
    max_size: usize,
}

impl DataReader {
    /// The body collected so far.
    pub closed spec fn collected(&self) -> Seq<u8> {
        self.data@
    }

    /// The size limit.
    pub closed spec fn limit(&self) -> int {
        self.max_size as int
    }

    /// The collected body never exceeds the limit.
    pub closed spec fn wf(&self) -> bool {
        self.data@.len() <= self.max_size
    }

    /// A reader with an empty body.
    pub fn new(max_size: usize) -> (r: Self)
        ensures
            r.wf(),
            r.collected() == Seq::<u8>::empty(),
            r.limit() == max_size,
    {
        DataReader { data: Vec::new(), max_size }
    }

    /// Takes the next chunk of the stream: the bytes up to and including the
    /// next line feed, or what was left when the stream ended, or nothing when it
    /// had ended already.
    pub fn push_chunk(&mut self, chunk: &[u8]) -> (r: DataStep)
        requires
            old(self).wf(),
        ensures
            final(self).wf(),
            final(self).limit() == old(self).limit(),
            match r {
                DataStep::Truncated => chunk@.len() == 0 && final(self).collected() == old(self).collected(),
                DataStep::Done(body) => {
                    &&& chunk@.len() > 0
                    &&& is_terminator(chunk@)
                    &&& body@ == old(self).collected()
                    &&& final(self).collected() == Seq::<u8>::empty()
                },
                DataStep::TooLarge => {
                    &&& chunk@.len() > 0
                    &&& !is_terminator(chunk@)
                    &&& old(self).collected().len() + chunk@.len() > old(self).limit()
                    &&& final(self).collected() == old(self).collected()
                },
                DataStep::More => {
                    &&& chunk@.len() > 0
                    &&& !is_terminator(chunk@)
                    &&& old(self).collected().len() + chunk@.len() <= old(self).limit()
                    &&& final(self).collected() == old(self).collected() + chunk@
                },
            },
    {
        let n: usize = chunk.len();
        if n == 0 {
            return DataStep::Truncated;
        }
        if chunk_is_terminator(chunk) {
            let mut body: Vec<u8> = Vec::new();
            core::mem::swap(&mut body, &mut self.data);
            return DataStep::Done(body);
        }
        if n > self.max_size - self.data.len() {
            return DataStep::TooLarge;
        }
        let mut i: usize = 0;
        while i < n
            invariant
                n == chunk@.len(),
                i <= n,
                self.max_size == old(self).max_size,
                old(self).data@.len() + n <= self.max_size,
                self.data@ == old(self).data@ + chunk@.subrange(0, i as int),
            decreases n - i,
        {
            self.data.push(chunk[i]);
            assert(chunk@.subrange(0, i + 1) =~= chunk@.subrange(0, i as int).push(chunk@[i as int]));
            i = i + 1;
        }
        assert(chunk@.subrange(0, n as int) =~= chunk@);
        DataStep::More
    }
}

/// Whether a chunk is the line that ends a message body.
pub fn chunk_is_terminator(chunk: &[u8]) -> (r: bool)
    ensures
        r == is_terminator(chunk@),
{
    let n: usize = chunk.len();
    let r = if n >= 2 && chunk[n - 2] == CR && chunk[n - 1] == LF {
        n == 3 && chunk[0] == DOT
    } else if n >= 1 && chunk[n - 1] == LF {
        n == 2 && chunk[0] == DOT
    } else {
        n == 1 && chunk[0] == DOT
    };
    proof {
        let s = strip_eol(chunk@);
        if r {
            assert(s =~= seq![DOT]);
        } else {
            if s == seq![DOT] {
                assert(s.len() == 1);
                assert(s[0] == DOT);
            }
        }
    }
    r
}

/// A stream of bytes held in memory, and how far it has been read.
pub struct Cursor {
    data: Vec<u8>,
    pos: usize,
}

impl Cursor {
    /// What has not been read yet.
    pub closed spec fn rest(&self) -> Seq<u8> {
        self.data@.subrange(self.pos as int, self.data@.len() as int)
    }

    /// The position lies within the stream.
    pub closed spec fn wf(&self) -> bool {
        self.pos <= self.data@.len()
    }

    /// A stream at its start.
    pub fn new(data: Vec<u8>) -> (r: Self)
        ensures
            r.wf(),
            r.rest() == data@,
    {
        let r = Cursor { data, pos: 0 };
        assert(r.data@.subrange(0, r.data@.len() as int) =~= r.data@);
        r
    }

    /// The number of bytes that have not been read yet.
    pub fn remaining(&self) -> (n: usize)
        requires
            self.wf(),
        ensures
            n == self.rest().len(),
    {
        self.data.len() - self.pos
    }

    /// Takes the next byte, if there is one.
    pub fn next_byte(&mut self) -> (r: Option<u8>)
        requires
            old(self).wf(),
        ensures
            final(self).wf(),
            match r {
                Some(b) => old(self).rest().len() > 0 && b == old(self).rest()[0] && final(self).rest() == old(self).rest().subrange(1, old(self).rest().len() as int),
                None => old(self).rest().len() == 0 && final(self).rest() == old(self).rest(),
            },
    {
        if self.pos < self.data.len() {
            let b = self.data[self.pos];
            self.pos = self.pos + 1;
            assert(self.rest() =~= old(self).rest().subrange(1, old(self).rest().len() as int));
            Some(b)
        } else {
            None
        }
    }

    /// Takes the next chunk: the bytes up to and including the next line feed,
    /// or all that is left when there is none.
    pub fn next_chunk(&mut self) -> (r: Vec<u8>)
        requires
            old(self).wf(),
        ensures
            final(self).wf(),
            r@ == first_chunk(old(self).rest()),
            final(self).rest() == old(self).rest().subrange(
                r@.len() as int,
                old(self).rest().len() as int,
            ),
    {
        let ghost rest = self.rest();
        let mut out: Vec<u8> = Vec::new();
        let mut found = false;
        while !found && self.pos < self.data.len()
            invariant
                self.wf(),
                self.data == old(self).data,
                old(self).wf(),
                rest == old(self).rest(),
                out@.len() + self.rest().len() == rest.len(),
                out@ == rest.subrange(0, out@.len() as int),
                self.rest() == rest.subrange(out@.len() as int, rest.len() as int),
                found ==> out@.len() > 0 && out@[out@.len() - 1] == LF,
                forall|j: int| 0 <= j < out@.len() - (if found { 1int } else { 0int }) ==> rest[j] != LF,
            decreases self.data.len() - self.pos + (if found { 0int } else { 1int }),
        {
            let b = self.data[self.pos];
            assert(b == rest[out@.len() as int]) by {
                assert(self.rest()[0] == b);
            }
            out.push(b);
            self.pos = self.pos + 1;
            assert(out@ =~= rest.subrange(0, out@.len() as int));
            assert(self.rest() =~= rest.subrange(out@.len() as int, rest.len() as int));
            if b == LF {
                found = true;
            }
        }
        proof {
            lemma_position_of(rest, LF);
            if found {
                lemma_position_of_skip(rest, LF, out@.len() - 1);
                assert(rest.subrange(out@.len() - 1, rest.len() as int)[0] == LF);
            } else {
                lemma_position_of_skip(rest, LF, out@.len() as int);
                assert(rest.subrange(out@.len() as int, rest.len() as int).len() == 0);
                assert(out@ =~= rest);
            }
        }
        out
    }
}

/// Reads one line from a stream, with a hard limit on its length in bytes.
///
/// Returns the line without its ending, `None` at the end of the stream, or an
/// error when more than `max_len` bytes come without a line feed.
pub fn read_line(reader: &mut Cursor, max_len: usize) -> (r: Result<Option<String>, ReadError>)
    requires
        old(reader).wf(),
    ensures
        final(reader).wf(),
        match line_frame(old(reader).rest(), max_len as int) {
            LineFrame::End => {
                &&& r == Ok::<Option<String>, ReadError>(None)
                &&& final(reader).rest() == old(reader).rest()
            },
            LineFrame::TooLong { used } => {
                &&& r == Err::<Option<String>, ReadError>(ReadError::LineTooLong)
                &&& final(reader).rest() == old(reader).rest().subrange(
                    used,
                    old(reader).rest().len() as int,
                )
            },
            LineFrame::Line { raw, used } => {
                &&& r matches Ok(Some(line))
                &&& line@ == lossy_text(raw)
                &&& raw.len() <= max_len
                &&& final(reader).rest() == old(reader).rest().subrange(
                    used,
                    old(reader).rest().len() as int,
                )
            },
        },
{
    let ghost rest = reader.rest();
    let mut lines = LineReader::new(max_len);
    proof {
        assert(rest.subrange(0, rest.len() as int) =~= rest);
    }
    loop
        invariant
            reader.wf(),
            lines.wf(),
            lines.limit() == max_len,
            rest == old(reader).rest(),
            lines.pending().len() + reader.rest().len() == rest.len(),
            lines.pending() == rest.subrange(0, lines.pending().len() as int),
            reader.rest() == rest.subrange(lines.pending().len() as int, rest.len() as int),
            forall|j: int| 0 <= j < lines.pending().len() ==> rest[j] != LF,
        decreases reader.rest().len(),
    {
        let ghost before = lines.pending();
        match reader.next_byte() {
            None => {
                proof {
                    lemma_position_of_skip(rest, LF, before.len() as int);
                    assert(rest.subrange(before.len() as int, rest.len() as int).len() == 0);
                    assert(before =~= rest);
                }
                match lines.finish() {
                    None => {
                        proof {
                            assert(reader.rest() =~= rest);
                        }
                        return Ok(None);
                    },
                    Some(raw) => {
                        proof {
                            assert(reader.rest() =~= rest.subrange(
                                rest.len() as int,
                                rest.len() as int,
                            ));
                        }
                        return Ok(Some(line_text(&raw)));
                    },
                }
            },
            Some(b) => {
                assert(b == rest[before.len() as int]);
                match lines.push(b) {
                    LineStep::Line(raw) => {
                        proof {
                            lemma_position_of_skip(rest, LF, before.len() as int);
                            assert(rest.subrange(before.len() as int, rest.len() as int)[0] == LF);
                            assert(reader.rest() =~= rest.subrange(
                                before.len() as int + 1,
                                rest.len() as int,
                            ));
                        }
                        return Ok(Some(line_text(&raw)));
                    },
                    LineStep::TooLong => {
                        proof {
                            lemma_position_of_skip(rest, LF, before.len() as int + 1);
                            lemma_position_of(
                                rest.subrange(before.len() as int + 1, rest.len() as int),
                                LF,
                            );
                            assert(reader.rest() =~= rest.subrange(
                                before.len() as int + 1,
                                rest.len() as int,
                            ));
                        }
                        return Err(ReadError::LineTooLong);
                    },
                    LineStep::More => {
                        proof {
                            assert(lines.pending() =~= rest.subrange(
                                0,
                                lines.pending().len() as int,
                            ));
                            assert(reader.rest() =~= rest.subrange(
                                lines.pending().len() as int,
                                rest.len() as int,
                            ));
                        }
                    },
                }
            },
        }
    }
}

/// Reads a message body from a stream until the line that holds a lone dot.
///
/// The body is returned byte for byte, line endings included and leading dots
/// untouched; the terminating line is not part of it.
pub fn read_data(reader: &mut Cursor, max_size: usize) -> (r: Result<Vec<u8>, ReadError>)
    requires
        old(reader).wf(),
    ensures
        final(reader).wf(),
        match data_frame(old(reader).rest(), Seq::<u8>::empty(), 0, max_size as int) {
            DataFrame::Truncated { used } => {
                &&& r == Err::<Vec<u8>, ReadError>(ReadError::UnexpectedEof)
                &&& used == old(reader).rest().len()
                &&& final(reader).rest() == Seq::<u8>::empty()
            },
            DataFrame::TooLarge { used } => {
                &&& r == Err::<Vec<u8>, ReadError>(ReadError::MessageTooLarge)
                &&& 0 <= used <= old(reader).rest().len()
                &&& final(reader).rest() == old(reader).rest().subrange(
                    used,
                    old(reader).rest().len() as int,
                )
            },
            DataFrame::Done { data, used } => {
                &&& r matches Ok(body)
                &&& body@ == data
                &&& body@.len() <= max_size
                &&& 0 <= used <= old(reader).rest().len()
                &&& final(reader).rest() == old(reader).rest().subrange(
                    used,
                    old(reader).rest().len() as int,
                )
            },
        },
{
    let ghost start = reader.rest();
    let mut body = DataReader::new(max_size);
    let ghost mut used: int = 0;
    proof {
        assert(start.subrange(0, start.len() as int) =~= start);
    }
    loop
        invariant
            reader.wf(),
            body.wf(),
            body.limit() == max_size,
            start == old(reader).rest(),
            0 <= used <= start.len(),
            reader.rest() == start.subrange(used, start.len() as int),
            data_frame(start, Seq::<u8>::empty(), 0, max_size as int) == data_frame(
                reader.rest(),
                body.collected(),
                used,
                max_size as int,
            ),
        decreases reader.rest().len(),
    {
        let ghost rest = reader.rest();
        proof {
            lemma_position_of(rest, LF);
        }
        let chunk = reader.next_chunk();
        match body.push_chunk(chunk.as_slice()) {
            DataStep::Truncated => {
                proof {
                    assert(reader.rest() =~= Seq::<u8>::empty());
                }
                return Err(ReadError::UnexpectedEof);
            },
            DataStep::TooLarge => {
                proof {
                    assert(reader.rest() =~= start.subrange(
                        used + chunk@.len(),
                        start.len() as int,
                    ));
                }
                return Err(ReadError::MessageTooLarge);
            },
            DataStep::Done(data) => {
                proof {
                    assert(reader.rest() =~= start.subrange(
                        used + chunk@.len(),
                        start.len() as int,
                    ));
                }
                return Ok(data);
            },
            DataStep::More => {
                proof {
                    assert(reader.rest() =~= start.subrange(
                        used + chunk@.len(),
                        start.len() as int,
                    ));
                    used = used + chunk@.len();
                }
            },
        }
    }
}

} // verus!
