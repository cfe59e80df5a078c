//! The relay transaction: the client side of the SMTP exchange that forwards an
//! accepted message to the backend.
//!
//! `RelayClient` is a state machine that takes the backend's response lines one
//! at a time and says what to send next. `relay_step` is its transition
//! function.

use vstd::prelude::*;
use vstd::string::*;
use crate::reader::{data_frame, first_chunk, is_terminator, strip_eol, DataFrame, CR, DOT, LF};
use crate::text::{
    chars_of, digit_value, is_digit, lemma_position_of, position_of, texts, trim, trimmed,
};

verus! {

/// Why a relay attempt failed.
#[derive(Debug, PartialEq, Eq)]
pub enum RelayError {
    /// The connection to the backend could not be opened.
    Connect(String),
    /// Reading from or writing to the backend failed.
    Io(String),
    /// The backend answered with an unexpected code or a malformed line.
    Protocol(String),
}

/// A relay error with its detail taken as text.
#[verifier::ext_equal]
pub enum RelayErrorView {
    Connect(Seq<char>),
    Io(Seq<char>),
    Protocol(Seq<char>),
}

impl View for RelayError {
    type V = RelayErrorView;

    open spec fn view(&self) -> RelayErrorView {
        match self {
            RelayError::Connect(d) => RelayErrorView::Connect(d@),
            RelayError::Io(d) => RelayErrorView::Io(d@),
            RelayError::Protocol(d) => RelayErrorView::Protocol(d@),
        }
    }
}

/// The message of a relay error.
pub open spec fn error_message(e: RelayErrorView) -> Seq<char> {
    match e {
        RelayErrorView::Connect(d) => "connection failed: "@ + d,
        RelayErrorView::Io(d) => "I/O error: "@ + d,
        RelayErrorView::Protocol(d) => "protocol error: "@ + d,
    }
}

impl RelayError {
    /// The message of the error: what kind it is, and its detail.
    pub fn message(&self) -> (r: String)
        ensures
            r@ == error_message(self@),
    {
        match self {
            RelayError::Connect(d) => {
                let mut m = "connection failed: ".to_owned();
                m.append(d.as_str());
                m
            },
            RelayError::Io(d) => {
                let mut m = "I/O error: ".to_owned();
                m.append(d.as_str());
                m
            },
            RelayError::Protocol(d) => {
                let mut m = "protocol error: ".to_owned();
                m.append(d.as_str());
                m
            },
        }
    }
}

/// The status code of a response line: the number that its first three
/// characters spell, or zero when they spell none.
///
/// Three digits spell a number; so do a plus sign and two digits.
pub open spec fn reply_code(line: Seq<char>) -> int {
    if line.len() < 3 {
        0
    } else if is_digit(line[0]) && is_digit(line[1]) && is_digit(line[2]) {
        100 * digit_value(line[0]) + 10 * digit_value(line[1]) + digit_value(line[2])
    } else if line[0] == '+' && is_digit(line[1]) && is_digit(line[2]) {
        10 * digit_value(line[1]) + digit_value(line[2])
    } else {
        0
    }
}

/// The value of a decimal digit, if `c` is one.
fn digit_of(c: char) -> (r: Option<u16>)
    ensures
        match r {
            Some(d) => is_digit(c) && d == digit_value(c),
            None => !is_digit(c),
        },
{
    if '0' <= c && c <= '9' {
        let n: u8 = c as u8;
        let d: u8 = n - 48;
        Some(d as u16)
    } else {
        None
    }
}

/// The status code of a response line.
pub fn response_code(line: &str) -> (code: u16)
    ensures
        code == reply_code(line@),
{
    let v = chars_of(line);
    if v.len() < 3 {
        return 0;
    }
    let d1 = match digit_of(v[1]) {
        Some(d) => d,
        None => {
            return 0;
        },
    };
    let d2 = match digit_of(v[2]) {
        Some(d) => d,
        None => {
            return 0;
        },
    };
    match digit_of(v[0]) {
        Some(d0) => 100 * d0 + 10 * d1 + d2,
        None => {
            if v[0] == '+' {
                10 * d1 + d2
            } else {
                0
            }
        },
    }
}

/// Whether a message ends with `\r\n`.
pub open spec fn ends_with_crlf(message: Seq<u8>) -> bool {
    message.len() >= 2 && message[message.len() - 2] == CR && message[message.len() - 1] == LF
}

/// What is written in the DATA phase: the message as it is, a `\r\n` if it
/// does not end with one, and the terminating `.\r\n`.
pub open spec fn data_payload(message: Seq<u8>) -> Seq<u8> {
    if ends_with_crlf(message) {
        message + seq![DOT, CR, LF]
    } else {
        message + seq![CR, LF] + seq![DOT, CR, LF]
    }
}

/// Builds what is written in the DATA phase.
pub fn build_payload(message: &Vec<u8>) -> (r: Vec<u8>)
    ensures
        r@ == data_payload(message@),
{
    let n: usize = message.len();
    let mut out: Vec<u8> = Vec::new();
    let mut i: usize = 0;
    while i < n
        invariant
            n == message@.len(),
            i <= n,
            out@ == message@.subrange(0, i as int),
        decreases n - i,
    {
        out.push(message[i]);
        assert(message@.subrange(0, i + 1) =~= message@.subrange(0, i as int).push(
            message@[i as int],
        ));
        i = i + 1;
    }
    assert(message@.subrange(0, n as int) =~= message@);
    if !(n >= 2 && message[n - 2] == CR && message[n - 1] == LF) {
        out.push(CR);
        out.push(LF);
    }
    out.push(DOT);
    out.push(CR);
    out.push(LF);
    assert(out@ =~= data_payload(message@));
    out
}

/// Where a relay transaction stands: the response that it is waiting for.
#[derive(Clone, Copy, Debug, PartialEq, Eq, Structural)]
pub enum RelayPhase {
    /// The greeting of the backend.
    Greeting,
    /// The lines of the response to `EHLO`.
    Hello,
    /// The response to `MAIL FROM`.
    MailFrom,
    /// The response to `RCPT TO` for the recipient with this index.
    Rcpt(usize),
    /// The response to `DATA`.
    Data,
    /// The response to the message.
    Sent,
    /// Nothing: the message was taken.
    Done,
    /// Nothing: the transaction failed.
    Failed,
}

/// What the owner of the backend connection has to do next.
#[derive(Debug, PartialEq, Eq)]
pub enum RelayAction {
    /// Read one more response line.
    Receive,
    /// Send this command line, then read one response line.
    Send(String),
    /// Send these bytes, then read one response line.
    SendBody(Vec<u8>),
    /// Send this command line and finish with success, without reading.
    Finish(String),
    /// Give up with this error.
    Fail(RelayError),
}

/// A relay action with its strings taken as texts.
#[verifier::ext_equal]
pub enum RelayActionView {
    Receive,
    Send(Seq<char>),
    SendBody(Seq<u8>),
    Finish(Seq<char>),
    Fail(RelayErrorView),
}

impl View for RelayAction {
    type V = RelayActionView;

    open spec fn view(&self) -> RelayActionView {
        match self {
            RelayAction::Receive => RelayActionView::Receive,
            RelayAction::Send(l) => RelayActionView::Send(l@),
            RelayAction::SendBody(b) => RelayActionView::SendBody(b@),
            RelayAction::Finish(l) => RelayActionView::Finish(l@),
            RelayAction::Fail(e) => RelayActionView::Fail(e@),
        }
    }
}

/// A relay transaction as plain values.
#[verifier::ext_equal]
pub struct RelayView {
    /// The name that the client gives in `EHLO`.
    pub hostname: Seq<char>,
    /// The envelope sender.
    pub sender: Seq<char>,
    /// The recipients, in the order in which they are announced.
    pub recipients: Seq<Seq<char>>,
    /// The message body.
    pub message: Seq<u8>,
    /// Where the transaction stands.
    pub phase: RelayPhase,
}

impl RelayView {
    /// The recipient that is being announced exists.
    pub open spec fn wf(self) -> bool {
        self.phase matches RelayPhase::Rcpt(i) ==> i < self.recipients.len()
    }

    /// Whether the transaction still waits for a response.
    pub open spec fn active(self) -> bool {
        self.phase != RelayPhase::Done && self.phase != RelayPhase::Failed
    }
}

/// The command that announces a recipient.
pub open spec fn rcpt_command(recipient: Seq<char>) -> Seq<char> {
    "RCPT TO:<"@ + recipient + ">\r\n"@
}

/// A failure of the protocol: what went wrong, and the response, trimmed.
pub open spec fn refusal(what: Seq<char>, line: Seq<char>) -> (RelayPhase, RelayActionView) {
    (
        RelayPhase::Failed,
        RelayActionView::Fail(RelayErrorView::Protocol(what + trimmed(line))),
    )
}

/// What follows the response to `MAIL FROM` or to a `RCPT TO`: the next
/// recipient, or `DATA` when all were announced.
pub open spec fn announce(c: RelayView, next: int) -> (RelayPhase, RelayActionView) {
    if 0 <= next < c.recipients.len() {
        (RelayPhase::Rcpt(next as usize), RelayActionView::Send(rcpt_command(c.recipients[next])))
    } else {
        (RelayPhase::Data, RelayActionView::Send("DATA\r\n"@))
    }
}

/// The transition function of a relay transaction: the phase and the action
/// that follow one response line.
///
/// The greeting must carry 220, the responses to `MAIL FROM` and to the
/// message 250, the response to `DATA` 354. The response to `EHLO` ends with
/// the line whose fourth character is a space; a line of fewer than four
/// characters is an error. What the backend says to a recipient is not looked
/// at.
pub open spec fn relay_step(c: RelayView, line: Seq<char>) -> (RelayPhase, RelayActionView) {
    match c.phase {
        RelayPhase::Greeting => if reply_code(line) != 220 {
            refusal("unexpected banner: "@, line)
        } else {
            (RelayPhase::Hello, RelayActionView::Send("EHLO "@ + c.hostname + "\r\n"@))
        },
        RelayPhase::Hello => if line.len() < 4 {
            refusal("short EHLO response: "@, line)
        } else if line[3] == ' ' {
            (RelayPhase::MailFrom, RelayActionView::Send("MAIL FROM:<"@ + c.sender + ">\r\n"@))
        } else {
            (RelayPhase::Hello, RelayActionView::Receive)
        },
        RelayPhase::MailFrom => if reply_code(line) != 250 {
            refusal("MAIL FROM rejected: "@, line)
        } else {
            announce(c, 0)
        },
        RelayPhase::Rcpt(i) => announce(c, i + 1),
        RelayPhase::Data => if reply_code(line) != 354 {
            refusal("DATA not accepted: "@, line)
        } else {
            (RelayPhase::Sent, RelayActionView::SendBody(data_payload(c.message)))
        },
        RelayPhase::Sent => if reply_code(line) != 250 {
            refusal("message not accepted: "@, line)
        } else {
            (RelayPhase::Done, RelayActionView::Finish("QUIT\r\n"@))
        },
        RelayPhase::Done => (RelayPhase::Done, RelayActionView::Receive),
        RelayPhase::Failed => (RelayPhase::Failed, RelayActionView::Receive),
    }
}

/// One relay transaction.
pub struct RelayClient {
    hostname: String,
    sender: String,
    recipients: Vec<String>,
    message: Vec<u8>,
    phase: RelayPhase,
}

impl View for RelayClient {
    type V = RelayView;

    closed spec fn view(&self) -> RelayView {
        RelayView {
            hostname: self.hostname@,
            sender: self.sender@,
            recipients: texts(self.recipients@),
            message: self.message@,
            phase: self.phase,
        }
    }
}

/// A protocol failure as an action.
fn refuse(what: &str, line: &str) -> (r: RelayAction)
    ensures
        r@ == RelayActionView::Fail(RelayErrorView::Protocol(what@ + trimmed(line@))),
{
    let mut detail = what.to_owned();
    detail.append(trim(line));
    RelayAction::Fail(RelayError::Protocol(detail))
}

impl RelayClient {
    /// A transaction that waits for the greeting of the backend.
    pub fn new(hostname: String, sender: String, recipients: Vec<String>, message: Vec<u8>) -> (r:
        Self)
        ensures
            r@.wf(),
            r@ == (RelayView {
                hostname: hostname@,
                sender: sender@,
                recipients: texts(recipients@),
                message: message@,
                phase: RelayPhase::Greeting,
            }),
    {
        RelayClient { hostname, sender, recipients, message, phase: RelayPhase::Greeting }
    }

    /// Where the transaction stands.
    pub fn phase(&self) -> (r: RelayPhase)
        ensures
            r == self@.phase,
    {
        self.phase
    }

    /// Whether the transaction still waits for a response.
    pub fn is_active(&self) -> (r: bool)
        ensures
            r == self@.active(),
    {
        match self.phase {
            RelayPhase::Done => false,
            RelayPhase::Failed => false,
            _ => true,
        }
    }

    /// Announces the recipient with index `next`, or sends `DATA` when there
    /// is none.
    fn announce(&mut self, next: usize) -> (r: RelayAction)
        ensures
            final(self)@ == (RelayView { phase: announce(old(self)@, next as int).0, ..old(self)@ }),
            r@ == announce(old(self)@, next as int).1,
            final(self)@.wf(),
    {
        if next < self.recipients.len() {
            self.phase = RelayPhase::Rcpt(next);
            let mut line = "RCPT TO:<".to_owned();
            line.append(self.recipients[next].as_str());
            line.append(">\r\n");
            RelayAction::Send(line)
        } else {
            self.phase = RelayPhase::Data;
            RelayAction::Send("DATA\r\n".to_owned())
        }
    }

    /// Takes one response line of the backend, with its line ending, and says
    /// what to do next. An empty line stands for the end of the stream.
    pub fn on_response(&mut self, line: &str) -> (r: RelayAction)
        requires
            old(self)@.wf(),
        ensures
            final(self)@.wf(),
            final(self)@ == (RelayView { phase: relay_step(old(self)@, line@).0, ..old(self)@ }),
            r@ == relay_step(old(self)@, line@).1,
    {
        match self.phase {
            RelayPhase::Greeting => {
                if response_code(line) != 220 {
                    self.phase = RelayPhase::Failed;
                    refuse("unexpected banner: ", line)
                } else {
                    self.phase = RelayPhase::Hello;
                    let mut cmd = "EHLO ".to_owned();
                    cmd.append(self.hostname.as_str());
                    cmd.append("\r\n");
                    RelayAction::Send(cmd)
                }
            },
            RelayPhase::Hello => {
                let v = chars_of(line);
                if v.len() < 4 {
                    self.phase = RelayPhase::Failed;
                    refuse("short EHLO response: ", line)
                } else if v[3] == ' ' {
                    self.phase = RelayPhase::MailFrom;
                    let mut cmd = "MAIL FROM:<".to_owned();
                    cmd.append(self.sender.as_str());
                    cmd.append(">\r\n");
                    RelayAction::Send(cmd)
                } else {
                    RelayAction::Receive
                }
            },
            RelayPhase::MailFrom => {
                if response_code(line) != 250 {
                    self.phase = RelayPhase::Failed;
                    refuse("MAIL FROM rejected: ", line)
                } else {
                    self.announce(0)
                }
            },
            RelayPhase::Rcpt(i) => {
                let n: usize = self.recipients.len();
                assert(i < n) by {
                    assert(texts(self.recipients@).len() == n);
                }
                self.announce(i + 1)
            },
            RelayPhase::Data => {
                if response_code(line) != 354 {
                    self.phase = RelayPhase::Failed;
                    refuse("DATA not accepted: ", line)
                } else {
                    self.phase = RelayPhase::Sent;
                    RelayAction::SendBody(build_payload(&self.message))
                }
            },
            RelayPhase::Sent => {
                if response_code(line) != 250 {
                    self.phase = RelayPhase::Failed;
                    refuse("message not accepted: ", line)
                } else {
                    self.phase = RelayPhase::Done;
                    RelayAction::Finish("QUIT\r\n".to_owned())
                }
            },
            RelayPhase::Done => RelayAction::Receive,
            RelayPhase::Failed => RelayAction::Receive,
        }
    }
}

/// Whether a run of bytes is made of whole lines, each ended by a line feed,
/// none of them the line that ends a message body.
pub open spec fn is_body(b: Seq<u8>) -> bool
    decreases b.len(),
    via is_body_decreases
{
    if b.len() == 0 {
        true
    } else {
        let chunk = first_chunk(b);
        &&& position_of(b, LF) < b.len()
        &&& !is_terminator(chunk)
        &&& is_body(b.subrange(chunk.len() as int, b.len() as int))
    }
}

#[via_fn]
proof fn is_body_decreases(b: Seq<u8>) {
    lemma_position_of(b, LF);
}

/// In a stream that starts with a whole line, the first chunk is that line,
/// whatever follows it.
proof fn lemma_first_chunk_of_prefix(b: Seq<u8>, tail: Seq<u8>)
    requires
        position_of(b, LF) < b.len(),
    ensures
        first_chunk(b + tail) == first_chunk(b),
        position_of(b + tail, LF) == position_of(b, LF),
{
    let p = position_of(b, LF);
    let s = b + tail;
    lemma_position_of(b, LF);
    lemma_position_of(s, LF);
    let q = position_of(s, LF);
    assert(s[p] == LF);
    assert(q <= p) by {
        if q > p {
            assert(s[p] != LF);
        }
    }
    assert(q >= p) by {
        if q < p {
            assert(b[q] == s[q]);
        }
    }
    assert(s.subrange(0, p + 1) =~= b.subrange(0, p + 1));
}

/// A body that is followed by `.\r\n` on the wire is read back byte for byte,
/// and what the relay writes for it is the body, a `\r\n` if the body does not
/// end with one, and `.\r\n`.
pub proof fn lemma_body_round_trip(body: Seq<u8>, tail: Seq<u8>, max_size: int)
    requires
        is_body(body),
        body.len() <= max_size,
    ensures
        data_frame(body + seq![DOT, CR, LF] + tail, Seq::empty(), 0, max_size) == (DataFrame::Done {
            data: body,
            used: body.len() as int + 3,
        }),
        data_payload(body) == body + (if ends_with_crlf(body) {
            Seq::<u8>::empty()
        } else {
            seq![CR, LF]
        }) + seq![DOT, CR, LF],
{
    lemma_body_frame(body, tail, Seq::empty(), 0, max_size);
    assert(Seq::<u8>::empty() + body =~= body);
    assert(data_payload(body) =~= body + (if ends_with_crlf(body) {
        Seq::<u8>::empty()
    } else {
        seq![CR, LF]
    }) + seq![DOT, CR, LF]);
}

/// Reading a body that is followed by `.\r\n` appends it to what was read
/// before, if the size limit allows.
proof fn lemma_body_frame(body: Seq<u8>, tail: Seq<u8>, acc: Seq<u8>, used: int, max_size: int)
    requires
        is_body(body),
        acc.len() + body.len() <= max_size,
    ensures
        data_frame(body + seq![DOT, CR, LF] + tail, acc, used, max_size) == (DataFrame::Done {
            data: acc + body,
            used: used + body.len() + 3,
        }),
    decreases body.len(),
{
    let term = seq![DOT, CR, LF];
    let wire = body + term + tail;
    if body.len() == 0 {
        assert(wire =~= term + tail);
        assert(position_of(term, LF) == 2) by {
            lemma_position_of(term, LF);
            assert(term[2] == LF);
            assert(term[0] != LF && term[1] != LF);
        }
        lemma_first_chunk_of_prefix(term, tail);
        assert(first_chunk(term) =~= term);
        assert(strip_eol(term) =~= seq![DOT]);
        assert(acc + body =~= acc);
    } else {
        let chunk = first_chunk(body);
        let rest = body.subrange(chunk.len() as int, body.len() as int);
        lemma_position_of(body, LF);
        assert(wire =~= body + (term + tail));
        lemma_first_chunk_of_prefix(body, term + tail);
        assert(wire.subrange(chunk.len() as int, wire.len() as int) =~= rest + term + tail);
        lemma_body_frame(rest, tail, acc + chunk, used + chunk.len(), max_size);
        assert(acc + chunk + rest =~= acc + body);
    }
}

} // verus!
