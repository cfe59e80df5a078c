//! The server side of an SMTP session as a state machine.
//!
//! The machine takes one event at a time (a command line, the answer of the
//! mailbox lookup, a message body, the outcome of a relay, the end of a TLS
//! handshake) and answers with the next state and one action for whoever owns
//! the connection. `step_spec` is the transition function; `Session::step`
//! computes it.

use vstd::prelude::*;
use vstd::string::*;
use crate::command::{address_in, command_args, command_token};
use crate::config::Config;
use crate::domain::domain_accepted;
use crate::reader::ReadError;
use crate::text::{
    chars_of, is_lowercased, last_position_of, lowercase, opt_text, rfind_char, text_eq, texts,
    to_lowercase,
};

pub use crate::command::{extract_address, parse_command};
pub use crate::domain::is_domain_accepted;

verus! {

/// Counters for monitoring. They wrap around at the end of their range.
#[derive(Clone, Copy, Debug, PartialEq, Eq, Structural)]
pub struct Metrics {
    /// Recipients of messages that were relayed.
    pub accepted: u64,
    /// Recipients that were refused.
    pub rejected: u64,
    /// Sessions that were opened.
    pub connections: u64,
    /// Relay attempts that failed.
    pub relay_errors: u64,
}

/// `x + n`, wrapped around at the end of the range of `u64`.
pub open spec fn wrapping_sum(x: u64, n: nat) -> u64 {
    ((x + n) % 0x1_0000_0000_0000_0000) as u64
}

/// The commands that the gateway tells apart.
#[derive(Clone, Copy, Debug, PartialEq, Eq, Structural)]
pub enum Command {
    /// `EHLO` or `HELO`.
    Hello,
    /// `STARTTLS`.
    StartTls,
    /// `MAIL`.
    Mail,
    /// `RCPT`.
    Rcpt,
    /// `DATA`.
    Data,
    /// `RSET`.
    Rset,
    /// `NOOP`.
    Noop,
    /// `QUIT`.
    Quit,
    /// `VRFY`.
    Vrfy,
    /// An empty line.
    Empty,
    /// Anything else.
    Unknown,
}

/// The command that an upper-cased token names.
pub open spec fn command_kind(token: Seq<char>) -> Command {
    if token == "EHLO"@ || token == "HELO"@ {
        Command::Hello
    } else if token == "STARTTLS"@ {
        Command::StartTls
    } else if token == "MAIL"@ {
        Command::Mail
    } else if token == "RCPT"@ {
        Command::Rcpt
    } else if token == "DATA"@ {
        Command::Data
    } else if token == "RSET"@ {
        Command::Rset
    } else if token == "NOOP"@ {
        Command::Noop
    } else if token == "QUIT"@ {
        Command::Quit
    } else if token == "VRFY"@ {
        Command::Vrfy
    } else if token.len() == 0 {
        Command::Empty
    } else {
        Command::Unknown
    }
}

/// What the session is waiting for.
#[derive(Clone, Copy, Debug, PartialEq, Eq, Structural)]
pub enum Phase {
    /// The next command line.
    Command,
    /// The answer of the mailbox lookup for the pending recipient.
    Lookup,
    /// The message body.
    Body,
    /// The outcome of the relay.
    Relay,
    /// The end of the TLS handshake.
    Handshake,
    /// Nothing: the session is over.
    Closed,
}

/// What happened on the connection.
#[derive(Debug, PartialEq, Eq)]
pub enum Event {
    /// A command line arrived; this is its text without the line ending.
    Line(String),
    /// The input ended or could not be read.
    InputClosed,
    /// The mailbox lookup answered whether the pending recipient exists.
    Mailbox(bool),
    /// The message body was read, or reading it failed.
    Body(Result<Vec<u8>, ReadError>),
    /// The relay finished; `true` when the backend took the message.
    Relayed(bool),
    /// The TLS handshake succeeded.
    Secured,
    /// The TLS handshake failed.
    HandshakeFailed,
}

/// A message as it is handed to the relay.
#[derive(Debug, PartialEq, Eq)]
pub struct Envelope {
    /// The envelope sender; empty when none was given.
    pub sender: String,
    /// The accepted recipients.
    pub recipients: Vec<String>,
    /// The message body as it was received.
    pub data: Vec<u8>,
}

/// What the owner of the connection has to do next.
#[derive(Debug, PartialEq, Eq)]
pub enum Action {
    /// Send these lines, then read the next command line.
    Reply(Vec<String>),
    /// Ask the mailbox lookup about this address, then report `Event::Mailbox`.
    Lookup(String),
    /// Send this line, read the message body, then report `Event::Body`.
    ReadBody(String),
    /// Relay this message, then report `Event::Relayed`.
    Relay(Envelope),
    /// Send this line, run the TLS handshake, then report `Event::Secured` or
    /// `Event::HandshakeFailed`.
    StartTls(String),
    /// Send this line, if there is one, and close the connection.
    Close(Option<String>),
}

/// An action with its strings taken as texts.
#[verifier::ext_equal]
pub enum ActionView {
    /// The lines to send before the next command line is read.
    Reply(Seq<Seq<char>>),
    /// The address to ask the mailbox lookup about.
    Lookup(Seq<char>),
    /// The line to send before the message body is read.
    ReadBody(Seq<char>),
    /// The message to relay.
    Relay { sender: Seq<char>, recipients: Seq<Seq<char>>, data: Seq<u8> },
    /// The line to send before the TLS handshake.
    StartTls(Seq<char>),
    /// The line to send, if any, before the connection is closed.
    Close(Option<Seq<char>>),
}

impl View for Action {
    type V = ActionView;

    open spec fn view(&self) -> ActionView {
        match self {
            Action::Reply(lines) => ActionView::Reply(texts(lines@)),
            Action::Lookup(address) => ActionView::Lookup(address@),
            Action::ReadBody(line) => ActionView::ReadBody(line@),
            Action::Relay(envelope) => ActionView::Relay {
                sender: envelope.sender@,
                recipients: texts(envelope.recipients@),
                data: envelope.data@,
            },
            Action::StartTls(line) => ActionView::StartTls(line@),
            Action::Close(line) => ActionView::Close(
                match line {
                    Some(l) => Some(l@),
                    None => None,
                },
            ),
        }
    }
}

/// The state of a session as plain values.
#[verifier::ext_equal]
pub struct SessionView {
    /// The envelope sender of the current transaction.
    pub sender: Option<Seq<char>>,
    /// The accepted recipients of the current transaction, in the order in
    /// which they were accepted.
    pub recipients: Seq<Seq<char>>,
    /// Whether the client has said hello since the connection was last
    /// established or secured.
    pub ehlo_received: bool,
    /// The number of recipient attempts in this session.
    pub recipient_count: nat,
    /// Whether TLS material is configured.
    pub tls_offered: bool,
    /// Whether the connection is secured.
    pub tls_active: bool,
    /// What the session is waiting for.
    pub phase: Phase,
    /// The recipient that the mailbox lookup was asked about.
    pub pending: Option<Seq<char>>,
}

impl SessionView {
    /// The invariant of a session: no recipient occurs twice, every recipient is
    /// a lower-cased address, no more recipients were accepted than attempted,
    /// and a recipient is pending exactly while the lookup is awaited.
    pub open spec fn wf(self) -> bool {
        &&& self.recipients.no_duplicates()
        &&& forall|i: int| 0 <= i < self.recipients.len() ==> is_lowercased(#[trigger] self.recipients[i])
        &&& self.recipients.len() <= self.recipient_count <= usize::MAX
        &&& self.phase == Phase::Lookup ==> {
            &&& self.pending matches Some(p)
            &&& is_lowercased(p)
            &&& self.recipients.len() < self.recipient_count
        }
        &&& self.phase != Phase::Lookup ==> self.pending is None
    }

    /// The state with an empty transaction.
    pub open spec fn reset(self) -> SessionView {
        SessionView { sender: None, recipients: Seq::empty(), ..self }
    }

    /// The state after the session ended.
    pub open spec fn closed(self) -> SessionView {
        SessionView { phase: Phase::Closed, pending: None, ..self }
    }
}

/// What a step leads to.
#[verifier::ext_equal]
pub struct Outcome {
    /// The state after the step.
    pub state: SessionView,
    /// The action that the step asks for.
    pub action: ActionView,
    /// The counters after the step.
    pub metrics: Metrics,
}

/// The banner that opens a session.
pub open spec fn banner(name: Seq<char>) -> Seq<char> {
    "220 "@ + name + " ESMTP burngate"@
}

/// The lines that answer `EHLO` or `HELO`: the greeting and the capabilities,
/// the last of which is written with a space after the code.
pub open spec fn hello_lines(name: Seq<char>, args: Seq<char>, starttls: bool) -> Seq<Seq<char>> {
    let first = "250-"@ + name + " Hello "@ + args;
    if starttls {
        seq![
            first,
            "250-SIZE 10485760"@,
            "250-8BITMIME"@,
            "250-PIPELINING"@,
            "250-ENHANCEDSTATUSCODES"@,
            "250 STARTTLS"@,
        ]
    } else {
        seq![
            first,
            "250-SIZE 10485760"@,
            "250-8BITMIME"@,
            "250-PIPELINING"@,
            "250 ENHANCEDSTATUSCODES"@,
        ]
    }
}

/// The domain of an address: what follows its last `@`, or nothing when it
/// holds no `@`.
pub open spec fn domain_of(address: Seq<char>) -> Seq<char> {
    let p = last_position_of(address, '@');
    if p >= 0 {
        address.subrange(p + 1, address.len() as int)
    } else {
        Seq::empty()
    }
}

/// `recipients` with `address` added, unless it is there already.
pub open spec fn with_recipient(recipients: Seq<Seq<char>>, address: Seq<char>) -> Seq<Seq<char>> {
    if recipients.contains(address) {
        recipients
    } else {
        recipients.push(address)
    }
}

/// The outcome of a step that answers with one line.
pub open spec fn answer(s: SessionView, m: Metrics, line: Seq<char>) -> Outcome {
    Outcome { state: s, action: ActionView::Reply(seq![line]), metrics: m }
}

/// The outcome of a step that ends the session without a word.
pub open spec fn hang_up(s: SessionView, m: Metrics) -> Outcome {
    Outcome { state: s.closed(), action: ActionView::Close(None), metrics: m }
}

/// The step for `RCPT` with argument `args`.
pub open spec fn rcpt_step(s: SessionView, config: Config, m: Metrics, args: Seq<char>) -> Outcome {
    match address_in(args) {
        None => answer(s, m, "501 5.1.3 Bad recipient address syntax"@),
        Some(address) => {
            let counted = SessionView {
                recipient_count: if s.recipient_count < usize::MAX {
                    s.recipient_count + 1
                } else {
                    s.recipient_count
                },
                ..s
            };
            let lower = lowercase(address);
            if s.recipient_count + 1 > config.max_recipients {
                answer(counted, m, "452 4.5.3 Too many recipients"@)
            } else if !domain_accepted(domain_of(lower), config.accepted_domains@) {
                answer(
                    counted,
                    Metrics { rejected: wrapping_sum(m.rejected, 1), ..m },
                    "550 5.1.2 Unknown domain"@,
                )
            } else {
                Outcome {
                    state: SessionView { phase: Phase::Lookup, pending: Some(lower), ..counted },
                    action: ActionView::Lookup(lower),
                    metrics: m,
                }
            }
        },
    }
}

/// The step for a command line.
pub open spec fn line_step(s: SessionView, config: Config, m: Metrics, line: Seq<char>) -> Outcome {
    let args = command_args(line);
    match command_kind(command_token(line)) {
        Command::Hello => Outcome {
            state: SessionView { ehlo_received: true, ..s },
            action: ActionView::Reply(
                hello_lines(config.server_name@, args, s.tls_offered && !s.tls_active),
            ),
            metrics: m,
        },
        Command::StartTls => if s.tls_active {
            answer(s, m, "554 5.5.1 TLS already active"@)
        } else if s.tls_offered {
            Outcome {
                state: SessionView { phase: Phase::Handshake, ..s },
                action: ActionView::StartTls("220 2.0.0 Ready to start TLS"@),
                metrics: m,
            }
        } else {
            answer(s, m, "502 5.5.1 STARTTLS not available"@)
        },
        Command::Mail => answer(
            SessionView { sender: address_in(args), recipients: Seq::empty(), ..s },
            m,
            "250 2.1.0 OK"@,
        ),
        Command::Rcpt => rcpt_step(s, config, m, args),
        Command::Data => if s.recipients.len() == 0 {
            answer(s, m, "503 5.5.1 No valid recipients"@)
        } else {
            Outcome {
                state: SessionView { phase: Phase::Body, ..s },
                action: ActionView::ReadBody("354 Start mail input; end with <CRLF>.<CRLF>"@),
                metrics: m,
            }
        },
        Command::Rset => answer(s.reset(), m, "250 2.0.0 OK"@),
        Command::Noop => answer(s, m, "250 2.0.0 OK"@),
        Command::Quit => Outcome {
            state: s.closed(),
            action: ActionView::Close(Some("221 2.0.0 Bye"@)),
            metrics: m,
        },
        Command::Vrfy => answer(s, m, "252 2.5.2 Cannot verify user"@),
        Command::Empty => Outcome { state: s, action: ActionView::Reply(Seq::empty()), metrics: m },
        Command::Unknown => answer(s, m, "502 5.5.2 Command not recognized"@),
    }
}

/// The step for the answer of the mailbox lookup.
pub open spec fn mailbox_step(s: SessionView, m: Metrics, found: bool) -> Outcome {
    let back = SessionView { phase: Phase::Command, pending: None, ..s };
    if found {
        answer(
            SessionView { recipients: with_recipient(s.recipients, s.pending->0), ..back },
            m,
            "250 2.1.5 OK"@,
        )
    } else {
        answer(back, Metrics { rejected: wrapping_sum(m.rejected, 1), ..m }, "550 5.1.1 User unknown"@)
    }
}

/// The step for a message body.
pub open spec fn body_step(s: SessionView, m: Metrics, body: Result<Vec<u8>, ReadError>) -> Outcome {
    match body {
        Ok(data) => Outcome {
            state: SessionView { phase: Phase::Relay, ..s },
            action: ActionView::Relay {
                sender: match s.sender {
                    Some(a) => a,
                    None => Seq::empty(),
                },
                recipients: s.recipients,
                data: data@,
            },
            metrics: m,
        },
        Err(ReadError::MessageTooLarge) => answer(
            SessionView { phase: Phase::Command, ..s },
            m,
            "552 5.3.4 Message too large"@,
        ),
        Err(_) => hang_up(s, m),
    }
}

/// The step for the outcome of a relay.
pub open spec fn relayed_step(s: SessionView, m: Metrics, delivered: bool) -> Outcome {
    let next = SessionView { phase: Phase::Command, ..s.reset() };
    if delivered {
        answer(
            next,
            Metrics { accepted: wrapping_sum(m.accepted, s.recipients.len()), ..m },
            "250 2.0.0 OK message accepted"@,
        )
    } else {
        answer(
            next,
            Metrics { relay_errors: wrapping_sum(m.relay_errors, 1), ..m },
            "451 4.3.0 Temporary relay failure, try again later"@,
        )
    }
}

/// The step for the end of a successful TLS handshake.
pub open spec fn secured_step(s: SessionView, m: Metrics) -> Outcome {
    Outcome {
        state: SessionView {
            phase: Phase::Command,
            tls_active: true,
            ehlo_received: false,
            ..s.reset()
        },
        action: ActionView::Reply(Seq::empty()),
        metrics: m,
    }
}

/// The transition function of a session.
///
/// An event that the session is not waiting for ends it.
pub open spec fn step_spec(s: SessionView, config: Config, m: Metrics, event: Event) -> Outcome {
    match (s.phase, event) {
        (Phase::Command, Event::Line(line)) => line_step(s, config, m, line@),
        (Phase::Lookup, Event::Mailbox(found)) => mailbox_step(s, m, found),
        (Phase::Body, Event::Body(body)) => body_step(s, m, body),
        (Phase::Relay, Event::Relayed(delivered)) => relayed_step(s, m, delivered),
        (Phase::Handshake, Event::Secured) => secured_step(s, m),
        _ => hang_up(s, m),
    }
}

impl Metrics {
    /// All counters at zero.
    pub fn new() -> (r: Self)
        ensures
            r == (Metrics { accepted: 0, rejected: 0, connections: 0, relay_errors: 0 }),
    {
        Metrics { accepted: 0, rejected: 0, connections: 0, relay_errors: 0 }
    }
}

/// `x + n`, wrapped around at the end of the range of `u64`.
pub fn wrapping_add(x: u64, n: u64) -> (r: u64)
    ensures
        r == wrapping_sum(x, n as nat),
{
    if x > u64::MAX - n {
        x - (u64::MAX - n) - 1
    } else {
        x + n
    }
}

/// The transaction state of a session.
pub struct SessionState {
    sender: Option<String>,
    recipients: Vec<String>,
    ehlo_received: bool,
    recipient_count: usize,
}

impl SessionState {
    /// The envelope sender, as text.
    pub closed spec fn sender_text(&self) -> Option<Seq<char>> {
        opt_text(self.sender)
    }

    /// The accepted recipients, as texts.
    pub closed spec fn recipient_texts(&self) -> Seq<Seq<char>> {
        texts(self.recipients@)
    }

    /// Whether the client has said hello.
    pub closed spec fn said_hello(&self) -> bool {
        self.ehlo_received
    }

    /// The number of recipient attempts.
    pub closed spec fn attempts(&self) -> nat {
        self.recipient_count as nat
    }

    /// The state of a fresh session: no sender, no recipients, no hello, no
    /// attempts.
    pub fn new() -> (r: Self)
        ensures
            r.sender_text() is None,
            r.recipient_texts() == Seq::<Seq<char>>::empty(),
            !r.said_hello(),
            r.attempts() == 0,
    {
        let r = SessionState {
            sender: None,
            recipients: Vec::new(),
            ehlo_received: false,
            recipient_count: 0,
        };
        assert(texts(r.recipients@) =~= Seq::<Seq<char>>::empty());
        r
    }

    /// Ends the transaction: forgets the sender and the recipients, and keeps
    /// the hello flag and the number of attempts.
    pub fn reset_transaction(&mut self)
        ensures
            final(self).sender_text() is None,
            final(self).recipient_texts() == Seq::<Seq<char>>::empty(),
            final(self).said_hello() == old(self).said_hello(),
            final(self).attempts() == old(self).attempts(),
    {
        self.sender = None;
        self.recipients.clear();
        assert(texts(self.recipients@) =~= Seq::<Seq<char>>::empty());
    }
}

/// A session: its transaction state, whether TLS is offered and active, and
/// what it is waiting for.
pub struct Session {
    state: SessionState,
    tls_offered: bool,
    tls_active: bool,
    phase: Phase,
    pending: Option<String>,
}

impl View for Session {
    type V = SessionView;

    closed spec fn view(&self) -> SessionView {
        SessionView {
            sender: self.state.sender_text(),
            recipients: self.state.recipient_texts(),
            ehlo_received: self.state.said_hello(),
            recipient_count: self.state.attempts(),
            tls_offered: self.tls_offered,
            tls_active: self.tls_active,
            phase: self.phase,
            pending: opt_text(self.pending),
        }
    }
}

/// One reply line as an action.
fn reply(line: &str) -> (r: Action)
    ensures
        r@ == ActionView::Reply(seq![line@]),
{
    let mut lines: Vec<String> = Vec::new();
    lines.push(line.to_owned());
    assert(texts(lines@) =~= seq![line@]);
    Action::Reply(lines)
}

/// Tells the commands apart by their upper-cased token.
pub fn classify(token: &str) -> (r: Command)
    ensures
        r == command_kind(token@),
{
    if text_eq(token, "EHLO") || text_eq(token, "HELO") {
        Command::Hello
    } else if text_eq(token, "STARTTLS") {
        Command::StartTls
    } else if text_eq(token, "MAIL") {
        Command::Mail
    } else if text_eq(token, "RCPT") {
        Command::Rcpt
    } else if text_eq(token, "DATA") {
        Command::Data
    } else if text_eq(token, "RSET") {
        Command::Rset
    } else if text_eq(token, "NOOP") {
        Command::Noop
    } else if text_eq(token, "QUIT") {
        Command::Quit
    } else if text_eq(token, "VRFY") {
        Command::Vrfy
    } else if token.is_empty() {
        Command::Empty
    } else {
        Command::Unknown
    }
}

/// The domain of an address: what follows its last `@`.
pub fn domain_part<'a>(address: &'a str) -> (r: &'a str)
    ensures
        r@ == domain_of(address@),
{
    let v = chars_of(address);
    match rfind_char(&v, '@') {
        Some(p) => address.substring_char(p + 1, v.len()),
        None => {
            proof {
                assert(address@.subrange(0, 0) =~= Seq::<char>::empty());
            }
            address.substring_char(0, 0)
        },
    }
}

/// The lines that answer `EHLO` or `HELO`.
pub fn hello_reply(name: &str, args: &str, starttls: bool) -> (r: Vec<String>)
    ensures
        texts(r@) == hello_lines(name@, args@, starttls),
{
    let mut first = "250-".to_owned();
    first.append(name);
    first.append(" Hello ");
    first.append(args);
    let mut lines: Vec<String> = Vec::new();
    lines.push(first);
    lines.push("250-SIZE 10485760".to_owned());
    lines.push("250-8BITMIME".to_owned());
    lines.push("250-PIPELINING".to_owned());
    if starttls {
        lines.push("250-ENHANCEDSTATUSCODES".to_owned());
        lines.push("250 STARTTLS".to_owned());
    } else {
        lines.push("250 ENHANCEDSTATUSCODES".to_owned());
    }
    assert(texts(lines@) =~= hello_lines(name@, args@, starttls));
    lines
}

/// Whether a list of strings holds this text.
fn holds_text(v: &Vec<String>, s: &str) -> (r: bool)
    ensures
        r == texts(v@).contains(s@),
{
    let mut i: usize = 0;
    while i < v.len()
        invariant
            i <= v.len(),
            forall|j: int| 0 <= j < i ==> texts(v@)[j] != s@,
        decreases v.len() - i,
    {
        if text_eq(v[i].as_str(), s) {
            assert(texts(v@)[i as int] == s@);
            return true;
        }
        i = i + 1;
    }
    false
}

/// A copy of a list of strings.
fn copy_strings(v: &Vec<String>) -> (r: Vec<String>)
    ensures
        texts(r@) == texts(v@),
{
    let mut out: Vec<String> = Vec::new();
    let mut i: usize = 0;
    while i < v.len()
        invariant
            i <= v.len(),
            out@.len() == i,
            forall|j: int| 0 <= j < i ==> out@[j]@ == v@[j]@,
        decreases v.len() - i,
    {
        out.push(v[i].clone());
        i = i + 1;
    }
    assert(texts(out@) =~= texts(v@));
    out
}

impl Session {
    /// A fresh session on a connection that is not secured.
    pub fn new(tls_offered: bool) -> (r: Self)
        ensures
            r@.wf(),
            r@ == (SessionView {
                sender: None,
                recipients: Seq::empty(),
                ehlo_received: false,
                recipient_count: 0,
                tls_offered,
                tls_active: false,
                phase: Phase::Command,
                pending: None,
            }),
    {
        Session {
            state: SessionState::new(),
            tls_offered,
            tls_active: false,
            phase: Phase::Command,
            pending: None,
        }
    }

    /// Opens the session: counts the connection and answers with the banner.
    pub fn greet(&self, config: &Config, metrics: &mut Metrics) -> (action: Action)
        ensures
            action@ == ActionView::Reply(seq![banner(config.server_name@)]),
            *final(metrics) == (Metrics {
                connections: wrapping_sum(old(metrics).connections, 1),
                ..*old(metrics)
            }),
    {
        metrics.connections = wrapping_add(metrics.connections, 1);
        let mut line = "220 ".to_owned();
        line.append(config.server_name.as_str());
        line.append(" ESMTP burngate");
        let mut lines: Vec<String> = Vec::new();
        lines.push(line);
        assert(texts(lines@) =~= seq![banner(config.server_name@)]);
        Action::Reply(lines)
    }


    /// What the session is waiting for.
    pub fn phase(&self) -> (r: Phase)
        ensures
            r == self@.phase,
    {
        self.phase
    }

    /// Whether the connection is secured.
    pub fn tls_active(&self) -> (r: bool)
        ensures
            r == self@.tls_active,
    {
        self.tls_active
    }

    /// Whether the client has said hello.
    pub fn ehlo_received(&self) -> (r: bool)
        ensures
            r == self@.ehlo_received,
    {
        self.state.ehlo_received
    }

    /// The number of recipient attempts in this session.
    pub fn recipient_count(&self) -> (r: usize)
        ensures
            r == self@.recipient_count,
    {
        self.state.recipient_count
    }

    /// The envelope sender of the current transaction.
    pub fn sender(&self) -> (r: Option<String>)
        ensures
            opt_text(r) == self@.sender,
    {
        match &self.state.sender {
            Some(a) => Some(a.clone()),
            None => None,
        }
    }

    /// The accepted recipients of the current transaction.
    pub fn recipients(&self) -> (r: Vec<String>)
        ensures
            texts(r@) == self@.recipients,
    {
        copy_strings(&self.state.recipients)
    }

    /// Ends the session without a word.
    fn hang_up(&mut self) -> (action: Action)
        ensures
            final(self)@ == old(self)@.closed(),
            action@ == ActionView::Close(None),
    {
        self.phase = Phase::Closed;
        self.pending = None;
        Action::Close(None)
    }

    /// Handles `RCPT`.
    fn on_rcpt(&mut self, config: &Config, metrics: &mut Metrics, args: &str) -> (action: Action)
        requires
            old(self)@.wf(),
            old(self)@.phase == Phase::Command,
        ensures
            ({
                let o = rcpt_step(old(self)@, *config, *old(metrics), args@);
                &&& final(self)@ == o.state
                &&& action@ == o.action
                &&& *final(metrics) == o.metrics
            }),
    {
        let address = match extract_address(args) {
            Some(a) => a,
            None => {
                return reply("501 5.1.3 Bad recipient address syntax");
            },
        };
        if self.state.recipient_count == usize::MAX {
            return reply("452 4.5.3 Too many recipients");
        }
        self.state.recipient_count = self.state.recipient_count + 1;
        if self.state.recipient_count > config.max_recipients {
            return reply("452 4.5.3 Too many recipients");
        }
        let lower = to_lowercase(address.as_str());
        if !is_domain_accepted(domain_part(lower.as_str()), &config.accepted_domains) {
            metrics.rejected = wrapping_add(metrics.rejected, 1);
            return reply("550 5.1.2 Unknown domain");
        }
        self.phase = Phase::Lookup;
        self.pending = Some(lower.clone());
        Action::Lookup(lower)
    }

    /// Handles a command line.
    fn on_line(&mut self, config: &Config, metrics: &mut Metrics, line: &str) -> (action: Action)
        requires
            old(self)@.wf(),
            old(self)@.phase == Phase::Command,
        ensures
            ({
                let o = line_step(old(self)@, *config, *old(metrics), line@);
                &&& final(self)@ == o.state
                &&& action@ == o.action
                &&& *final(metrics) == o.metrics
            }),
    {
        let (token, args) = parse_command(line);
        match classify(token.as_str()) {
            Command::Hello => {
                self.state.ehlo_received = true;
                Action::Reply(
                    hello_reply(
                        config.server_name.as_str(),
                        args,
                        self.tls_offered && !self.tls_active,
                    ),
                )
            },
            Command::StartTls => {
                if self.tls_active {
                    reply("554 5.5.1 TLS already active")
                } else if self.tls_offered {
                    self.phase = Phase::Handshake;
                    Action::StartTls("220 2.0.0 Ready to start TLS".to_owned())
                } else {
                    reply("502 5.5.1 STARTTLS not available")
                }
            },
            Command::Mail => {
                self.state.sender = extract_address(args);
                self.state.recipients.clear();
                assert(texts(self.state.recipients@) =~= Seq::<Seq<char>>::empty());
                reply("250 2.1.0 OK")
            },
            Command::Rcpt => self.on_rcpt(config, metrics, args),
            Command::Data => {
                if self.state.recipients.len() == 0 {
                    reply("503 5.5.1 No valid recipients")
                } else {
                    self.phase = Phase::Body;
                    Action::ReadBody("354 Start mail input; end with <CRLF>.<CRLF>".to_owned())
                }
            },
            Command::Rset => {
                self.state.reset_transaction();
                reply("250 2.0.0 OK")
            },
            Command::Noop => reply("250 2.0.0 OK"),
            Command::Quit => {
                self.phase = Phase::Closed;
                self.pending = None;
                Action::Close(Some("221 2.0.0 Bye".to_owned()))
            },
            Command::Vrfy => reply("252 2.5.2 Cannot verify user"),
            Command::Empty => {
                let lines: Vec<String> = Vec::new();
                assert(texts(lines@) =~= Seq::<Seq<char>>::empty());
                Action::Reply(lines)
            },
            Command::Unknown => reply("502 5.5.2 Command not recognized"),
        }
    }

    /// Handles the answer of the mailbox lookup.
    fn on_mailbox(&mut self, metrics: &mut Metrics, found: bool) -> (action: Action)
        requires
            old(self)@.wf(),
            old(self)@.phase == Phase::Lookup,
        ensures
            ({
                let o = mailbox_step(old(self)@, *old(metrics), found);
                &&& final(self)@ == o.state
                &&& action@ == o.action
                &&& *final(metrics) == o.metrics
            }),
    {
        self.phase = Phase::Command;
        let mut pending: Option<String> = None;
        core::mem::swap(&mut pending, &mut self.pending);
        let address = pending.unwrap();
        if found {
            if !holds_text(&self.state.recipients, address.as_str()) {
                self.state.recipients.push(address);
                assert(texts(self.state.recipients@) =~= old(self)@.recipients.push(address@));
            }
            reply("250 2.1.5 OK")
        } else {
            metrics.rejected = wrapping_add(metrics.rejected, 1);
            reply("550 5.1.1 User unknown")
        }
    }

    /// Handles a message body.
    fn on_body(&mut self, Ghost(m): Ghost<Metrics>, body: Result<Vec<u8>, ReadError>) -> (action:
        Action)
        requires
            old(self)@.wf(),
            old(self)@.phase == Phase::Body,
        ensures
            ({
                let o = body_step(old(self)@, m, body);
                &&& final(self)@ == o.state
                &&& action@ == o.action
            }),
    {
        match body {
            Ok(data) => {
                self.phase = Phase::Relay;
                let sender = match &self.state.sender {
                    Some(a) => a.clone(),
                    None => String::new(),
                };
                let recipients = copy_strings(&self.state.recipients);
                Action::Relay(Envelope { sender, recipients, data })
            },
            Err(ReadError::MessageTooLarge) => {
                self.phase = Phase::Command;
                reply("552 5.3.4 Message too large")
            },
            Err(_) => self.hang_up(),
        }
    }

    /// Handles the outcome of a relay.
    fn on_relayed(&mut self, metrics: &mut Metrics, delivered: bool) -> (action: Action)
        requires
            old(self)@.wf(),
            old(self)@.phase == Phase::Relay,
        ensures
            ({
                let o = relayed_step(old(self)@, *old(metrics), delivered);
                &&& final(self)@ == o.state
                &&& action@ == o.action
                &&& *final(metrics) == o.metrics
            }),
    {
        let n: usize = self.state.recipients.len();
        self.phase = Phase::Command;
        self.state.reset_transaction();
        if delivered {
            metrics.accepted = wrapping_add(metrics.accepted, n as u64);
            reply("250 2.0.0 OK message accepted")
        } else {
            metrics.relay_errors = wrapping_add(metrics.relay_errors, 1);
            reply("451 4.3.0 Temporary relay failure, try again later")
        }
    }

    /// Takes one event and answers with the action that follows from it.
    ///
    /// The new state, the action and the counters are those of `step_spec`.
    pub fn step(&mut self, config: &Config, metrics: &mut Metrics, event: Event) -> (action: Action)
        requires
            old(self)@.wf(),
        ensures
            final(self)@.wf(),
            ({
                let o = step_spec(old(self)@, *config, *old(metrics), event);
                &&& final(self)@ == o.state
                &&& action@ == o.action
                &&& *final(metrics) == o.metrics
            }),
    {
        proof {
            lemma_step_keeps_wf(self@, *config, *metrics, event);
        }
        match event {
            Event::Line(line) => {
                if self.phase == Phase::Command {
                    self.on_line(config, metrics, line.as_str())
                } else {
                    self.hang_up()
                }
            },
            Event::Mailbox(found) => {
                if self.phase == Phase::Lookup {
                    self.on_mailbox(metrics, found)
                } else {
                    self.hang_up()
                }
            },
            Event::Body(body) => {
                if self.phase == Phase::Body {
                    self.on_body(Ghost(*metrics), body)
                } else {
                    self.hang_up()
                }
            },
            Event::Relayed(delivered) => {
                if self.phase == Phase::Relay {
                    self.on_relayed(metrics, delivered)
                } else {
                    self.hang_up()
                }
            },
            Event::Secured => {
                if self.phase == Phase::Handshake {
                    self.phase = Phase::Command;
                    self.tls_active = true;
                    self.state.ehlo_received = false;
                    self.state.reset_transaction();
                    let lines: Vec<String> = Vec::new();
                    assert(texts(lines@) =~= Seq::<Seq<char>>::empty());
                    Action::Reply(lines)
                } else {
                    self.hang_up()
                }
            },
            Event::InputClosed => self.hang_up(),
            Event::HandshakeFailed => self.hang_up(),
        }
    }
}

/// Every step keeps the invariant of the session.
pub proof fn lemma_step_keeps_wf(s: SessionView, config: Config, m: Metrics, event: Event)
    requires
        s.wf(),
    ensures
        step_spec(s, config, m, event).state.wf(),
{
    let o = step_spec(s, config, m, event);
    match (s.phase, event) {
        (Phase::Command, Event::Line(line)) => {
            assert(o.state.wf());
        },
        (Phase::Lookup, Event::Mailbox(found)) => {
            if found && !s.recipients.contains(s.pending->0) {
                let r = s.recipients.push(s.pending->0);
                assert forall|i: int, j: int| 0 <= i < r.len() && 0 <= j < r.len() && i != j implies r[i] != r[j] by {
                    if i < s.recipients.len() && j < s.recipients.len() {
                    } else if i < s.recipients.len() {
                        assert(s.recipients.contains(s.recipients[i]));
                    } else {
                        assert(s.recipients.contains(s.recipients[j]));
                    }
                }
            }
        },
        _ => {},
    }
}

/// Whether a reply line refuses a command for good or for too many recipients:
/// a code of the `5xx` class, or `452`.
pub open spec fn is_rejection(line: Seq<char>) -> bool {
    line.len() >= 3 && (line[0] == '5' || (line[0] == '4' && line[1] == '5' && line[2] == '2'))
}

/// A message that goes to the relay carries exactly the recipients of the
/// transaction: as many as were accepted, each a lower-cased address, none
/// twice. When the relay succeeds, that number is added to the accepted count.
pub proof fn lemma_relay_carries_recipients(
    s: SessionView,
    config: Config,
    m: Metrics,
    data: Vec<u8>,
)
    requires
        s.wf(),
        s.phase == Phase::Body,
    ensures
        ({
            let o = step_spec(s, config, m, Event::Body(Ok(data)));
            let done = step_spec(o.state, config, o.metrics, Event::Relayed(true));
            &&& o.action matches ActionView::Relay { recipients, data: sent, .. }
            &&& recipients == s.recipients
            &&& sent == data@
            &&& recipients.no_duplicates()
            &&& forall|i: int| 0 <= i < recipients.len() ==> is_lowercased(#[trigger] recipients[i])
            &&& done.metrics.accepted == wrapping_sum(m.accepted, s.recipients.len())
        }),
{
}

/// A step that answers with a rejection leaves the transaction as it was:
/// the same sender and the same recipients.
pub proof fn lemma_rejection_keeps_transaction(
    s: SessionView,
    config: Config,
    m: Metrics,
    event: Event,
)
    ensures
        ({
            let o = step_spec(s, config, m, event);
            o.action matches ActionView::Reply(lines) && lines.len() == 1 && is_rejection(lines[0])
                ==> o.state.recipients == s.recipients && o.state.sender == s.sender
        }),
{
    reveal_strlit("250 2.1.0 OK");
    reveal_strlit("250 2.0.0 OK");
    reveal_strlit("250 2.1.5 OK");
    reveal_strlit("250 2.0.0 OK message accepted");
    reveal_strlit("451 4.3.0 Temporary relay failure, try again later");
}

/// After a successful TLS handshake the client has not said hello, the
/// transaction is empty, and the session waits for a command on the secured
/// connection.
pub proof fn lemma_secured_starts_over(s: SessionView, config: Config, m: Metrics)
    requires
        s.phase == Phase::Handshake,
    ensures
        ({
            let o = step_spec(s, config, m, Event::Secured);
            &&& !o.state.ehlo_received
            &&& o.state.sender is None
            &&& o.state.recipients.len() == 0
            &&& o.state.tls_active
            &&& o.state.phase == Phase::Command
        }),
{
}

/// `RSET` empties the transaction and keeps the number of recipient attempts.
pub proof fn lemma_rset_keeps_count(s: SessionView, config: Config, m: Metrics, line: String)
    requires
        s.phase == Phase::Command,
        command_kind(command_token(line@)) == Command::Rset,
    ensures
        ({
            let o = step_spec(s, config, m, Event::Line(line));
            &&& o.state.recipient_count == s.recipient_count
            &&& o.state.sender is None
            &&& o.state.recipients.len() == 0
        }),
{
}

/// No step lowers the number of recipient attempts.
pub proof fn lemma_count_never_falls(s: SessionView, config: Config, m: Metrics, event: Event)
    ensures
        step_spec(s, config, m, event).state.recipient_count >= s.recipient_count,
{
}

} // verus!
