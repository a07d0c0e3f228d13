//! The session state machine: handshake, the single-slot outbound buffer,
//! and the effect of every read, write and local command.
use vstd::prelude::*;
use vstd::string::StringSliceAdditionalSpecFns;
use vstd::utf8::{decode_utf8, encode_utf8, valid_utf8};
use crate::bytes::append_from;
use crate::command::{command_of, parse_command, trimmed, Command, CommandView};
use crate::io_result::IoFailure;

verus! {

/// The most bytes one outbound message may take, frame included.
pub const OUTBOUND_CAPACITY: usize = 512;

/// Whether the identity has gone out in full.
#[derive(Clone, Copy, Debug, PartialEq, Eq, Structural)]
pub enum HandshakeState {
    NotSent,
    Sent,
}

/// Why a session ended.
#[derive(Clone, Copy, Debug, PartialEq, Eq, Structural)]
pub enum CloseReason {
    /// The peer shut the connection down (a read of zero bytes).
    PeerClosed,
    /// The local `leave` command.
    Left,
    /// A read from the connection failed.
    ReadFailed,
    /// A write to the connection failed.
    WriteFailed,
}

/// Whether the connection is still in use.
#[derive(Clone, Copy, Debug, PartialEq, Eq, Structural)]
pub enum Status {
    Open,
    Closed(CloseReason),
}

/// Where the session stands.
#[derive(Clone, Copy, Debug, PartialEq, Eq, Structural)]
pub enum Phase {
    /// Open, and the identity has not gone out in full.
    Handshaking,
    /// Open, and the identity has gone out.
    Active,
    /// Terminal.
    Closed,
}

/// What a local command line did.
#[derive(Clone, Copy, Debug, PartialEq, Eq, Structural)]
pub enum CommandOutcome {
    /// The message was framed and stored for transmission.
    Queued,
    /// A previous message is still pending: the new one was rejected.
    Busy,
    /// The framed message would not fit the outbound buffer: rejected.
    TooLong,
    /// The session is now closed.
    Left,
    /// The line is not a command: nothing happened.
    Unknown,
    /// The session was already closed: nothing happened.
    SessionClosed,
}

/// What a read from the connection means.
#[derive(Debug)]
pub enum ReadStep {
    /// Bytes arrived; the text to show, decoded as UTF-8 with replacement.
    Received(String),
    /// The peer closed the connection; the session is now closed.
    PeerClosed,
    /// Nothing to read yet.
    Retry,
    /// The read failed; the session is now closed.
    Failed,
    /// The session was already closed: nothing happened.
    Ignored,
}

/// What to do after a write to the connection.
#[derive(Clone, Copy, Debug, PartialEq, Eq, Structural)]
pub enum WriteStep {
    /// More bytes are waiting and the connection took some: write again.
    Continue,
    /// Nothing is left to write.
    Idle,
    /// Bytes are waiting but the connection took none: wait for the next
    /// writable notification.
    Wait,
    /// The write failed; the session is now closed.
    Failed,
    /// The session was already closed: nothing happened.
    Ignored,
}

/// What `String::from_utf8_lossy` makes of a byte sequence.
pub uninterp spec fn lossy_text(b: Seq<u8>) -> Seq<char>;

/// Relies on String::from_utf8_lossy: invalid sequences become U+FFFD, and a
/// valid sequence is decoded as it is.
#[verifier::external_body]
fn decode_lossy(b: &[u8]) -> (r: String)
    ensures
        r@ == lossy_text(b@),
        valid_utf8(b@) ==> r@ == decode_utf8(b@),
{
    String::from_utf8_lossy(b).into_owned()
}

/// The frame that carries `text` from `user`: `"[" + user + "]: " + text + "\n"`.
pub open spec fn frame(user: Seq<u8>, text: Seq<u8>) -> Seq<u8> {
    seq![91u8] + user + seq![93u8, 58u8, 32u8] + text + seq![10u8]
}

/// The frames of all `texts` from `user`, in order.
pub open spec fn frames_of(user: Seq<u8>, texts: Seq<Seq<u8>>) -> Seq<u8>
    decreases texts.len(),
{
    if texts.len() == 0 {
        Seq::empty()
    } else {
        frames_of(user, texts.drop_last()) + frame(user, texts.last())
    }
}

/// The bytes of a read result, for contracts.
pub open spec fn read_view(r: Result<Vec<u8>, IoFailure>) -> Result<Seq<u8>, IoFailure> {
    match r {
        Ok(b) => Ok(b@),
        Err(e) => Err(e),
    }
}

/// The mathematical state of a [`Session`].
pub struct SessionView {
    /// The username bytes, written once as the first bytes on the connection.
    pub identity: Seq<u8>,
    /// How many identity bytes the connection has taken.
    pub identity_written: nat,
    /// The outbound buffer: the pending frame, or empty.
    pub message: Seq<u8>,
    /// How many bytes of the pending frame the connection has taken.
    pub message_written: nat,
    pub status: Status,
    /// Every byte the connection has taken so far.
    pub wire: Seq<u8>,
    /// The texts of every accepted `send`, in order.
    pub texts: Seq<Seq<u8>>,
}

impl SessionView {
    pub open spec fn initial(identity: Seq<u8>) -> SessionView {
        SessionView {
            identity,
            identity_written: 0,
            message: Seq::empty(),
            message_written: 0,
            status: Status::Open,
            wire: Seq::empty(),
            texts: Seq::empty(),
        }
    }

    pub open spec fn handshake(self) -> HandshakeState {
        if self.identity_written >= self.identity.len() {
            HandshakeState::Sent
        } else {
            HandshakeState::NotSent
        }
    }

    pub open spec fn phase(self) -> Phase {
        if self.status is Closed {
            Phase::Closed
        } else if self.handshake() is NotSent {
            Phase::Handshaking
        } else {
            Phase::Active
        }
    }

    /// Whether a message waits in the outbound buffer.
    pub open spec fn pending(self) -> bool {
        self.message.len() > 0
    }

    /// Everything accepted for the connection that it has not taken yet.
    pub open spec fn unsent(self) -> Seq<u8> {
        self.identity.skip(self.identity_written as int) + self.message.skip(
            self.message_written as int,
        )
    }

    /// The bytes to hand to the next write: the rest of the identity while
    /// it is not out, then the rest of the pending frame; nothing once closed.
    pub open spec fn write_request(self) -> Seq<u8> {
        if self.status is Closed {
            Seq::empty()
        } else if self.identity_written < self.identity.len() {
            self.identity.skip(self.identity_written as int)
        } else {
            self.message.skip(self.message_written as int)
        }
    }

    /// The bytes the connection is meant to carry, in order: the identity,
    /// then one frame per accepted message.
    pub open spec fn transcript(self) -> Seq<u8> {
        self.identity + frames_of(self.identity, self.texts)
    }

    pub open spec fn wf(self) -> bool {
        &&& self.identity_written <= self.identity.len()
        &&& self.message.len() == 0 ==> self.message_written == 0
        &&& self.message.len() > 0 ==> self.message_written < self.message.len()
        &&& self.message.len() <= OUTBOUND_CAPACITY
        &&& self.wire + self.unsent() == self.transcript()
    }

    pub open spec fn command_outcome(self, cmd: CommandView) -> CommandOutcome {
        if self.status is Closed {
            CommandOutcome::SessionClosed
        } else {
            match cmd {
                CommandView::Send(text) => {
                    if self.pending() {
                        CommandOutcome::Busy
                    } else if frame(self.identity, text).len() > OUTBOUND_CAPACITY {
                        CommandOutcome::TooLong
                    } else {
                        CommandOutcome::Queued
                    }
                },
                CommandView::Leave => CommandOutcome::Left,
                CommandView::Unknown => CommandOutcome::Unknown,
            }
        }
    }

    pub open spec fn after_command(self, cmd: CommandView) -> SessionView {
        match cmd {
            CommandView::Send(text) => {
                if self.command_outcome(cmd) is Queued {
                    SessionView {
                        message: frame(self.identity, text),
                        message_written: 0,
                        texts: self.texts.push(text),
                        ..self
                    }
                } else {
                    self
                }
            },
            CommandView::Leave => {
                if self.status is Closed {
                    self
                } else {
                    SessionView { status: Status::Closed(CloseReason::Left), ..self }
                }
            },
            CommandView::Unknown => self,
        }
    }

    pub open spec fn after_read(self, result: Result<Seq<u8>, IoFailure>) -> SessionView {
        if self.status is Closed {
            self
        } else {
            match result {
                Ok(b) => {
                    if b.len() == 0 {
                        SessionView { status: Status::Closed(CloseReason::PeerClosed), ..self }
                    } else {
                        self
                    }
                },
                Err(IoFailure::WouldBlock) => self,
                Err(IoFailure::Fatal) => SessionView {
                    status: Status::Closed(CloseReason::ReadFailed),
                    ..self
                },
            }
        }
    }

    pub open spec fn read_step_is(self, result: Result<Seq<u8>, IoFailure>, step: ReadStep) -> bool {
        if self.status is Closed {
            step is Ignored
        } else {
            match result {
                Ok(b) => if b.len() == 0 {
                    step is PeerClosed
                } else {
                    step matches ReadStep::Received(s) && s@ == lossy_text(b) && (valid_utf8(b)
                        ==> s@ == decode_utf8(b))
                },
                Err(IoFailure::WouldBlock) => step is Retry,
                Err(IoFailure::Fatal) => step is Failed,
            }
        }
    }

    /// Whether `result` is something a write of `write_request()` can report.
    pub open spec fn write_result_fits(self, result: Result<usize, IoFailure>) -> bool {
        result matches Ok(n) ==> n <= self.write_request().len()
    }

    pub open spec fn after_write(self, result: Result<usize, IoFailure>) -> SessionView {
        if self.status is Closed {
            self
        } else {
            match result {
                Ok(n) => {
                    let wire = self.wire + self.write_request().take(n as int);
                    if self.identity_written < self.identity.len() {
                        SessionView { identity_written: (self.identity_written + n) as nat, wire, ..self }
                    } else if self.message_written + n >= self.message.len() {
                        SessionView { message: Seq::empty(), message_written: 0, wire, ..self }
                    } else {
                        SessionView { message_written: (self.message_written + n) as nat, wire, ..self }
                    }
                },
                Err(IoFailure::WouldBlock) => self,
                Err(IoFailure::Fatal) => SessionView {
                    status: Status::Closed(CloseReason::WriteFailed),
                    ..self
                },
            }
        }
    }

    pub open spec fn write_step(self, result: Result<usize, IoFailure>) -> WriteStep {
        if self.status is Closed {
            WriteStep::Ignored
        } else {
            match result {
                Ok(n) => if self.after_write(result).write_request().len() == 0 {
                    WriteStep::Idle
                } else if n == 0 {
                    WriteStep::Wait
                } else {
                    WriteStep::Continue
                },
                Err(IoFailure::WouldBlock) => WriteStep::Wait,
                Err(IoFailure::Fatal) => WriteStep::Failed,
            }
        }
    }
}

/// Accepting one more message appends exactly its frame to the frames sent
/// before it.
pub proof fn lemma_frames_push(user: Seq<u8>, texts: Seq<Seq<u8>>, text: Seq<u8>)
    ensures
        frames_of(user, texts.push(text)) == frames_of(user, texts) + frame(user, text),
{
    assert(texts.push(text).drop_last() =~= texts);
}

/// Every local command keeps a well-formed session well-formed.
pub proof fn lemma_command_keeps_wf(s: SessionView, cmd: CommandView)
    requires
        s.wf(),
    ensures
        s.after_command(cmd).wf(),
{
    if let CommandView::Send(text) = cmd {
        if s.command_outcome(cmd) is Queued {
            let t = s.after_command(cmd);
            let f = frame(s.identity, text);
            lemma_frames_push(s.identity, s.texts, text);
            assert(s.message =~= Seq::<u8>::empty());
            assert(t.message.skip(0) =~= f);
            assert(s.unsent() =~= s.identity.skip(s.identity_written as int));
            assert(t.unsent() =~= s.unsent() + f);
            assert(t.wire + t.unsent() =~= (s.wire + s.unsent()) + f);
            assert(t.transcript() =~= s.transcript() + f);
            assert(f.len() > 0);
        }
    }
}

/// Every read result keeps a well-formed session well-formed.
pub proof fn lemma_read_keeps_wf(s: SessionView, result: Result<Seq<u8>, IoFailure>)
    requires
        s.wf(),
    ensures
        s.after_read(result).wf(),
{
}

/// Every write result that a write of `write_request()` can report keeps a
/// well-formed session well-formed.
pub proof fn lemma_write_keeps_wf(s: SessionView, result: Result<usize, IoFailure>)
    requires
        s.wf(),
        s.write_result_fits(result),
    ensures
        s.after_write(result).wf(),
{
    if s.status is Open {
        if let Ok(n) = result {
            let t = s.after_write(result);
            let req = s.write_request();
            let iw = s.identity_written as int;
            let mw = s.message_written as int;
            if s.identity_written < s.identity.len() {
                assert(req.take(n as int) + s.identity.skip(iw + n) =~= s.identity.skip(iw));
                assert(t.unsent() =~= s.identity.skip(iw + n) + s.message.skip(mw));
                assert(t.wire + t.unsent() =~= s.wire + s.unsent());
            } else if s.message_written + n >= s.message.len() {
                assert(req.take(n as int) =~= s.message.skip(mw));
                assert(s.identity.skip(iw) =~= Seq::<u8>::empty());
                assert(t.unsent() =~= Seq::<u8>::empty());
                assert(t.wire + t.unsent() =~= s.wire + s.unsent());
            } else {
                assert(req.take(n as int) + s.message.skip(mw + n) =~= s.message.skip(mw));
                assert(t.unsent() =~= s.identity.skip(iw) + s.message.skip(mw + n));
                assert(s.identity.skip(iw) =~= Seq::<u8>::empty());
                assert(t.wire + t.unsent() =~= s.wire + s.unsent());
            }
        }
    }
}

/// Builds the frame `"[" + user + "]: " + text + "\n"`.
pub fn frame_message(user: &[u8], text: &[u8]) -> (r: Vec<u8>)
    requires
        user@.len() + text@.len() + 5 <= usize::MAX,
    ensures
        r@ == frame(user@, text@),
{
    let mut out: Vec<u8> = Vec::new();
    out.push(91u8);
    append_from(&mut out, user, 0);
    out.push(93u8);
    out.push(58u8);
    out.push(32u8);
    append_from(&mut out, text, 0);
    out.push(10u8);
    assert(user@.skip(0) =~= user@);
    assert(text@.skip(0) =~= text@);
    assert(out@ =~= frame(user@, text@));
    out
}

/// One chat session over one connection.
///
/// The caller performs every read and write and hands the result back; the
/// session decides what it means and what to write next.
pub struct Session {
    identity: Vec<u8>,
    identity_written: usize,
    message: Vec<u8>,
    message_written: usize,
    status: Status,
    wire: Ghost<Seq<u8>>,
    texts: Ghost<Seq<Seq<u8>>>,
}

impl View for Session {
    type V = SessionView;

    closed spec fn view(&self) -> SessionView {
        SessionView {
            identity: self.identity@,
            identity_written: self.identity_written as nat,
            message: self.message@,
            message_written: self.message_written as nat,
            status: self.status,
            wire: self.wire@,
            texts: self.texts@,
        }
    }
}

impl Session {
    /// Starts a session for `username`, whose bytes are the identity.
    pub fn new(username: &str) -> (r: Session)
        ensures
            r@ == SessionView::initial(username.spec_bytes()),
            r@.wf(),
    {
        let mut identity: Vec<u8> = Vec::new();
        append_from(&mut identity, username.as_bytes(), 0);
        assert(identity@ =~= username.spec_bytes());
        let r = Session {
            identity,
            identity_written: 0,
            message: Vec::new(),
            message_written: 0,
            status: Status::Open,
            wire: Ghost(Seq::empty()),
            texts: Ghost(Seq::empty()),
        };
        assert(r@.unsent() =~= r@.identity);
        assert(r@.wire + r@.unsent() =~= r@.transcript());
        r
    }

    /// The identity, as bytes.
    pub fn identity(&self) -> (r: &[u8])
        ensures
            r@ == self@.identity,
    {
        self.identity.as_slice()
    }

    pub fn status(&self) -> (r: Status)
        ensures
            r == self@.status,
    {
        self.status
    }

    pub fn is_closed(&self) -> (r: bool)
        ensures
            r == (self@.status is Closed),
    {
        match self.status {
            Status::Open => false,
            Status::Closed(_) => true,
        }
    }

    pub fn handshake(&self) -> (r: HandshakeState)
        requires
            self@.wf(),
        ensures
            r == self@.handshake(),
    {
        if self.identity_written >= self.identity.len() {
            HandshakeState::Sent
        } else {
            HandshakeState::NotSent
        }
    }

    pub fn phase(&self) -> (r: Phase)
        requires
            self@.wf(),
        ensures
            r == self@.phase(),
    {
        if self.is_closed() {
            Phase::Closed
        } else if self.identity_written < self.identity.len() {
            Phase::Handshaking
        } else {
            Phase::Active
        }
    }

    /// Whether a message waits in the outbound buffer.
    pub fn has_pending_message(&self) -> (r: bool)
        ensures
            r == self@.pending(),
    {
        self.message.len() > 0
    }

    /// Whether the connection should be watched for writability: there are
    /// bytes to write and the session is open.
    pub fn wants_write(&self) -> (r: bool)
        requires
            self@.wf(),
        ensures
            r == (self@.write_request().len() > 0),
    {
        if self.is_closed() {
            false
        } else if self.identity_written < self.identity.len() {
            true
        } else {
            self.message_written < self.message.len()
        }
    }

    /// The bytes to hand to the next write on the connection.
    pub fn write_request(&self) -> (r: Vec<u8>)
        requires
            self@.wf(),
        ensures
            r@ == self@.write_request(),
    {
        let mut out: Vec<u8> = Vec::new();
        if self.is_closed() {
        } else if self.identity_written < self.identity.len() {
            append_from(&mut out, self.identity.as_slice(), self.identity_written);
        } else {
            append_from(&mut out, self.message.as_slice(), self.message_written);
        }
        assert(out@ =~= self@.write_request());
        out
    }

    /// Takes in what a write of `write_request()` returned: the number of
    /// bytes the connection took, or the failure.
    pub fn on_written(&mut self, result: Result<usize, IoFailure>) -> (r: WriteStep)
        requires
            old(self)@.wf(),
            old(self)@.write_result_fits(result),
        ensures
            final(self)@ == old(self)@.after_write(result),
            r == old(self)@.write_step(result),
            final(self)@.wf(),
    {
        proof {
            lemma_write_keeps_wf(self@, result);
        }
        if self.is_closed() {
            return WriteStep::Ignored;
        }
        match result {
            Ok(n) => {
                let ghost req = self@.write_request();
                self.wire = Ghost(self.wire@ + req.take(n as int));
                if self.identity_written < self.identity.len() {
                    self.identity_written = self.identity_written + n;
                } else if n >= self.message.len() - self.message_written {
                    self.message = Vec::new();
                    self.message_written = 0;
                } else {
                    self.message_written = self.message_written + n;
                }
                if !self.wants_write() {
                    WriteStep::Idle
                } else if n == 0 {
                    WriteStep::Wait
                } else {
                    WriteStep::Continue
                }
            },
            Err(IoFailure::WouldBlock) => WriteStep::Wait,
            Err(IoFailure::Fatal) => {
                self.status = Status::Closed(CloseReason::WriteFailed);
                WriteStep::Failed
            },
        }
    }

    /// Takes in what a read from the connection returned: the bytes read, or
    /// the failure.
    pub fn on_read(&mut self, result: Result<Vec<u8>, IoFailure>) -> (r: ReadStep)
        requires
            old(self)@.wf(),
        ensures
            final(self)@ == old(self)@.after_read(read_view(result)),
            old(self)@.read_step_is(read_view(result), r),
            final(self)@.wf(),
    {
        proof {
            lemma_read_keeps_wf(self@, read_view(result));
        }
        if self.is_closed() {
            return ReadStep::Ignored;
        }
        match result {
            Ok(b) => {
                if b.len() == 0 {
                    self.status = Status::Closed(CloseReason::PeerClosed);
                    ReadStep::PeerClosed
                } else {
                    ReadStep::Received(decode_lossy(b.as_slice()))
                }
            },
            Err(IoFailure::WouldBlock) => ReadStep::Retry,
            Err(IoFailure::Fatal) => {
                self.status = Status::Closed(CloseReason::ReadFailed);
                ReadStep::Failed
            },
        }
    }

    /// Carries out a parsed local command.
    pub fn apply_command(&mut self, cmd: Command) -> (r: CommandOutcome)
        requires
            old(self)@.wf(),
        ensures
            final(self)@ == old(self)@.after_command(cmd@),
            r == old(self)@.command_outcome(cmd@),
            final(self)@.wf(),
    {
        proof {
            lemma_command_keeps_wf(self@, cmd@);
        }
        if self.is_closed() {
            return CommandOutcome::SessionClosed;
        }
        match cmd {
            Command::Send(text) => {
                if self.message.len() > 0 {
                    CommandOutcome::Busy
                } else if text.len() > OUTBOUND_CAPACITY - 5 || self.identity.len()
                    > OUTBOUND_CAPACITY - 5 - text.len() {
                    CommandOutcome::TooLong
                } else {
                    let ghost t = text@;
                    self.message = frame_message(self.identity.as_slice(), text.as_slice());
                    self.message_written = 0;
                    self.texts = Ghost(self.texts@.push(t));
                    CommandOutcome::Queued
                }
            },
            Command::Leave => {
                self.status = Status::Closed(CloseReason::Left);
                CommandOutcome::Left
            },
            Command::Unknown => CommandOutcome::Unknown,
        }
    }

    /// Carries out a local input line: `send <text>`, `leave`, or anything
    /// else, with surrounding whitespace ignored.
    pub fn on_command(&mut self, line: &str) -> (r: CommandOutcome)
        requires
            old(self)@.wf(),
        ensures
            final(self)@ == old(self)@.after_command(command_of(encode_utf8(trimmed(line@)))),
            r == old(self)@.command_outcome(command_of(encode_utf8(trimmed(line@)))),
            final(self)@.wf(),
    {
        let cmd = parse_command(line);
        self.apply_command(cmd)
    }
}

/// With nothing left to go out on an open session, an accepted `send`
/// makes what is left to go out, and the next write request, exactly the
/// frame `"[" + username + "]: " + text + "\n"`.
pub proof fn lemma_send_queues_exact_frame(s: SessionView, text: Seq<u8>)
    requires
        s.wf(),
        s.status is Open,
        s.unsent().len() == 0,
        frame(s.identity, text).len() <= OUTBOUND_CAPACITY,
    ensures
        s.command_outcome(CommandView::Send(text)) is Queued,
        s.after_command(CommandView::Send(text)).wire == s.wire,
        s.after_command(CommandView::Send(text)).unsent() == frame(s.identity, text),
        s.after_command(CommandView::Send(text)).write_request() == frame(s.identity, text),
{
    let t = s.after_command(CommandView::Send(text));
    let f = frame(s.identity, text);
    assert(s.identity.skip(s.identity_written as int).len() == 0);
    assert(s.message.skip(s.message_written as int).len() == 0);
    assert(s.identity_written == s.identity.len());
    assert(s.message.len() == 0);
    assert(t.message.skip(0) =~= f);
    assert(t.identity.skip(t.identity_written as int) =~= Seq::<u8>::empty());
    assert(t.unsent() =~= f);
}

/// Once the identity is out, each write puts the leading bytes of the
/// request on the connection, and the rest is the next request: the pending
/// frame goes out whole, in order, and nothing else with it.
pub proof fn lemma_write_sends_request_prefix(s: SessionView, n: usize)
    requires
        s.wf(),
        s.status is Open,
        s.handshake() is Sent,
        n <= s.write_request().len(),
    ensures
        s.after_write(Ok(n)).wire == s.wire + s.write_request().take(n as int),
        s.after_write(Ok(n)).write_request() == s.write_request().skip(n as int),
{
    assert(s.after_write(Ok(n)).write_request() =~= s.write_request().skip(n as int));
}

/// A `send` while a message is still pending is rejected and leaves the
/// session, its outbound buffer included, as it was.
pub proof fn lemma_send_while_pending_is_rejected(s: SessionView, text: Seq<u8>)
    requires
        s.wf(),
        s.status is Open,
        s.pending(),
    ensures
        s.command_outcome(CommandView::Send(text)) is Busy,
        s.after_command(CommandView::Send(text)) == s,
{
}

/// A read of zero bytes always leaves the session closed; on an open
/// session the reason is that the peer closed the connection.
pub proof fn lemma_zero_read_closes(s: SessionView)
    requires
        s.wf(),
    ensures
        s.after_read(Ok(Seq::empty())).status is Closed,
        s.after_read(Ok(Seq::empty())).phase() is Closed,
        s.status is Open ==> s.after_read(Ok(Seq::empty())).status == Status::Closed(
            CloseReason::PeerClosed,
        ),
{
}

/// The connection carries the identity once, as its first bytes, and after
/// it only frames of accepted messages, in order: what it has taken is always
/// a prefix of the identity followed by those frames, and while the identity
/// is not out in full, it is all that a write is asked to carry.
pub proof fn lemma_identity_goes_first(s: SessionView)
    requires
        s.wf(),
    ensures
        s.wire == s.transcript().take(s.wire.len() as int),
        s.wire.len() <= s.identity.len() ==> s.wire == s.identity.take(s.wire.len() as int),
        s.wire.len() >= s.identity.len() ==> s.wire.take(s.identity.len() as int) == s.identity,
        s.wire.len() >= s.identity.len() ==> s.wire.skip(s.identity.len() as int) == frames_of(
            s.identity,
            s.texts,
        ).take(s.wire.len() - s.identity.len()),
        s.handshake() is NotSent && s.status is Open ==> s.write_request() == s.identity.skip(
            s.identity_written as int,
        ),
{
    let tr = s.transcript();
    assert(s.wire =~= (s.wire + s.unsent()).take(s.wire.len() as int));
    assert(s.wire == tr.take(s.wire.len() as int));
    if s.wire.len() <= s.identity.len() {
        assert(s.wire =~= tr.take(s.wire.len() as int));
        assert(tr.take(s.wire.len() as int) =~= s.identity.take(s.wire.len() as int));
    } else {
        assert(s.wire.take(s.identity.len() as int) =~= tr.take(s.identity.len() as int));
        assert(tr.take(s.identity.len() as int) =~= s.identity);
        assert(tr.take(s.wire.len() as int).skip(s.identity.len() as int) =~= frames_of(
            s.identity,
            s.texts,
        ).take(s.wire.len() - s.identity.len()));
        assert(s.wire.skip(s.identity.len() as int) =~= frames_of(s.identity, s.texts).take(
            s.wire.len() - s.identity.len(),
        ));
    }
}

/// `leave` closes the session whether or not a message is pending, and puts
/// nothing more on the connection: the closed session asks for no write, and
/// no later read, write result or command changes it.
pub proof fn lemma_leave_ends_session(s: SessionView)
    requires
        s.wf(),
    ensures
        s.after_command(CommandView::Leave).status is Closed,
        s.after_command(CommandView::Leave).wire == s.wire,
        s.after_command(CommandView::Leave).write_request().len() == 0,
        forall|r: Result<usize, IoFailure>| #[trigger]
            s.after_command(CommandView::Leave).after_write(r) == s.after_command(
                CommandView::Leave,
            ),
        forall|r: Result<Seq<u8>, IoFailure>| #[trigger]
            s.after_command(CommandView::Leave).after_read(r) == s.after_command(
                CommandView::Leave,
            ),
        forall|c: CommandView| #[trigger]
            s.after_command(CommandView::Leave).after_command(c) == s.after_command(
                CommandView::Leave,
            ),
{
}

/// A line that is not a command changes nothing: not the handshake, not the
/// outbound buffer, not the connection.
pub proof fn lemma_unknown_command_changes_nothing(s: SessionView)
    requires
        s.wf(),
    ensures
        s.after_command(CommandView::Unknown) == s,
        s.after_command(CommandView::Unknown).handshake() == s.handshake(),
        s.after_command(CommandView::Unknown).write_request() == s.write_request(),
{
}

} // verus!
