//! The decisions that drive a session. The caller performs the I/O: it
//! hands each occurrence to these functions and carries out the action they
//! return.

use crate::codec::{prepared_line, ConfabCodec};
use crate::encoding::CharEncoding;
use crate::events::{is_hms_text, now_hms};
use vstd::prelude::*;

verus! {

/// Whether the connection is still open when a phase ends.
#[derive(Clone, Copy, Debug, PartialEq, Eq, Structural)]
pub enum ConnectState {
    /// The input source ended; the connection is still open.
    Open,
    /// The remote end closed the connection.
    Closed,
}

/// Failures of the local terminal, display or script file. Always fatal.
#[derive(Clone, Copy, Debug, PartialEq, Eq, Structural)]
pub enum InterfaceError {
    Init,
    ReadScript,
    ReadLine,
    Write,
}

/// Failures of the network peer. Reported as an event; they end the
/// session with a failure.
#[derive(Clone, Copy, Debug, PartialEq, Eq, Structural)]
pub enum InetError {
    Connect,
    PeerAddr,
    Tls,
    Send,
    Recv,
    Close,
}

/// A failure that ends a session.
#[derive(Clone, Copy, Debug, PartialEq, Eq, Structural)]
pub enum IoError {
    Interface(InterfaceError),
    Inet(InetError),
}

impl InterfaceError {
    /// What went wrong, in words.
    pub fn message(&self) -> &'static str {
        match self {
            InterfaceError::Init => "failed to initialize readline facility",
            InterfaceError::ReadScript => "error reading from startup script",
            InterfaceError::ReadLine => "error reading input from terminal",
            InterfaceError::Write => "error writing output",
        }
    }
}

impl InetError {
    /// What went wrong, in words.
    pub fn message(&self) -> &'static str {
        match self {
            InetError::Connect => "failed to connect to server",
            InetError::PeerAddr => "failed to get peer address",
            InetError::Tls => "failed to establish TLS connection",
            InetError::Send => "failed to send line to server",
            InetError::Recv => "failed to receive line from server",
            InetError::Close => "failed to close connection",
        }
    }
}

/// What one phase of the I/O loop sees happen next: from the connection, or
/// from the input source (the startup script, or the user).
pub enum LoopEvent {
    /// A line arrived from the connection.
    Received(String),
    /// The connection reached its end.
    RemoteClosed,
    /// Reading from the connection failed.
    RecvFailed,
    /// The input source gave a line to send.
    InputLine(String),
    /// The user pressed Ctrl-C.
    Interrupt,
    /// The input source ended.
    InputClosed,
    /// Reading from the input source failed.
    InputFailed(InterfaceError),
}

/// What the I/O loop does about an event.
pub enum LoopAction {
    /// Report a `Recv` event with this text; the phase goes on.
    ReportRecv(String),
    /// Transmit this text, then report a `Send` event with it; the phase goes
    /// on.
    Transmit(String),
    /// Show an interrupt indicator on the display only; the phase goes on.
    EchoInterrupt,
    /// The phase ends.
    End(ConnectState),
    /// The phase aborts with an error.
    Fail(IoError),
}

/// One step of the I/O loop: what to do about the next event of a phase.
/// A line to send is transmitted as the codec prepares it (line ending
/// appended, Latin-1 substitution made), and that exact text is reported.
pub fn ioloop_step(codec: &ConfabCodec, event: LoopEvent) -> (r: LoopAction)
    ensures
        match event {
            LoopEvent::Received(line) => r == LoopAction::ReportRecv(line),
            LoopEvent::RemoteClosed => r == LoopAction::End(ConnectState::Closed),
            LoopEvent::RecvFailed => r == LoopAction::Fail(IoError::Inet(InetError::Recv)),
            LoopEvent::InputLine(line) => r matches LoopAction::Transmit(t) && t@ == prepared_line(
                codec.spec_encoding(),
                codec.spec_crlf(),
                line@,
            ),
            LoopEvent::Interrupt => r == LoopAction::EchoInterrupt,
            LoopEvent::InputClosed => r == LoopAction::End(ConnectState::Open),
            LoopEvent::InputFailed(e) => r == LoopAction::Fail(IoError::Interface(e)),
        },
{
    match event {
        LoopEvent::Received(line) => LoopAction::ReportRecv(line),
        LoopEvent::RemoteClosed => LoopAction::End(ConnectState::Closed),
        LoopEvent::RecvFailed => LoopAction::Fail(IoError::Inet(InetError::Recv)),
        LoopEvent::InputLine(line) => LoopAction::Transmit(codec.prepare_line(line)),
        LoopEvent::Interrupt => LoopAction::EchoInterrupt,
        LoopEvent::InputClosed => LoopAction::End(ConnectState::Open),
        LoopEvent::InputFailed(e) => LoopAction::Fail(IoError::Interface(e)),
    }
}

/// What follows the startup script phase.
#[derive(Clone, Copy, Debug, PartialEq, Eq, Structural)]
pub enum AfterScript {
    /// Go on to the interactive phase.
    Interactive,
    /// The remote end closed: close the connection, report `Disconnect`, and
    /// end the session.
    Disconnect,
    /// Close the connection without reporting a failure to close, and end
    /// the session with this error.
    Abort(IoError),
}

/// What follows the startup script phase, given how it ended.
pub fn after_script(phase: Result<ConnectState, IoError>) -> (r: AfterScript)
    ensures
        match phase {
            Ok(ConnectState::Open) => r == AfterScript::Interactive,
            Ok(ConnectState::Closed) => r == AfterScript::Disconnect,
            Err(e) => r == AfterScript::Abort(e),
        },
{
    match phase {
        Ok(ConnectState::Open) => AfterScript::Interactive,
        Ok(ConnectState::Closed) => AfterScript::Disconnect,
        Err(e) => AfterScript::Abort(e),
    }
}

/// How a session ends once its last phase has ended and the connection has
/// been closed.
#[derive(Clone, Copy, Debug, PartialEq, Eq, Structural)]
pub enum SessionEnd {
    /// The phase ended this way and the connection closed cleanly.
    Ended(ConnectState),
    /// The phase failed; a failure to close is not reported.
    PhaseFailed(IoError),
    /// The phase ended, but closing the connection failed.
    CloseFailed(InetError),
}

impl SessionEnd {
    /// The session's result: how the phase ended, or the error that ended it.
    pub open spec fn spec_result(self) -> Result<ConnectState, IoError> {
        match self {
            SessionEnd::Ended(s) => Ok(s),
            SessionEnd::PhaseFailed(e) => Err(e),
            SessionEnd::CloseFailed(c) => Err(IoError::Inet(c)),
        }
    }

    pub fn result(&self) -> (r: Result<ConnectState, IoError>)
        ensures
            r == self.spec_result(),
    {
        match self {
            SessionEnd::Ended(s) => Ok(*s),
            SessionEnd::PhaseFailed(e) => Err(*e),
            SessionEnd::CloseFailed(c) => Err(IoError::Inet(*c)),
        }
    }
}

/// The end of the interactive phase: the connection has been closed, and
/// `Disconnect` is reported exactly once, whether or not closing succeeded.
pub struct InteractiveEnd {
    /// Whether to report `Disconnect`.
    pub report_disconnect: bool,
    pub end: SessionEnd,
}

/// How the interactive phase ends, given how its loop ended and how closing
/// the connection went: `Disconnect` is always reported; the phase's error
/// comes first, then a failure to close, else how the phase ended.
pub fn end_interactive(phase: Result<ConnectState, IoError>, close: Result<(), InetError>) -> (r:
    InteractiveEnd)
    ensures
        r.report_disconnect,
        match (phase, close) {
            (Err(e), _) => r.end == SessionEnd::PhaseFailed(e),
            (Ok(_), Err(c)) => r.end == SessionEnd::CloseFailed(c),
            (Ok(s), Ok(())) => r.end == SessionEnd::Ended(s),
        },
{
    let end = match phase {
        Err(e) => SessionEnd::PhaseFailed(e),
        Ok(s) => match close {
            Err(c) => SessionEnd::CloseFailed(c),
            Ok(()) => SessionEnd::Ended(s),
        },
    };
    InteractiveEnd { report_disconnect: true, end }
}

/// What the process does at the end of a session.
#[derive(Clone, Copy, Debug, PartialEq, Eq, Structural)]
pub enum RunOutcome {
    /// Exit, successfully or not.
    Exit { success: bool },
    /// Report this network error as an `Error` event, then exit with a
    /// failure.
    ReportAndFail(InetError),
    /// Stop with this fatal error.
    Fatal(InterfaceError),
}

/// Maps how a session ended to what the process does: success only where
/// the user ended the session; a failure where the remote end closed it; a
/// network error is reported, then a failure; an interface error is fatal.
pub fn run_outcome(result: Result<ConnectState, IoError>) -> (r: RunOutcome)
    ensures
        match result {
            Ok(ConnectState::Open) => r == RunOutcome::Exit { success: true },
            Ok(ConnectState::Closed) => r == RunOutcome::Exit { success: false },
            Err(IoError::Inet(e)) => r == RunOutcome::ReportAndFail(e),
            Err(IoError::Interface(e)) => r == RunOutcome::Fatal(e),
        },
{
    match result {
        Ok(ConnectState::Open) => RunOutcome::Exit { success: true },
        Ok(ConnectState::Closed) => RunOutcome::Exit { success: false },
        Err(IoError::Inet(e)) => RunOutcome::ReportAndFail(e),
        Err(IoError::Interface(e)) => RunOutcome::Fatal(e),
    }
}

/// Paces the startup script: every line after the first waits for the
/// delay.
#[derive(Clone, Copy, Debug, PartialEq, Eq, Structural)]
pub struct ScriptPacer {
    started: bool,
}

impl ScriptPacer {
    pub closed spec fn spec_started(self) -> bool {
        self.started
    }

    /// A pacer before the first line.
    pub fn new() -> (r: ScriptPacer)
        ensures
            !r.spec_started(),
    {
        ScriptPacer { started: false }
    }

    /// Whether to wait before sending the line about to go out: not before
    /// the first, before every other.
    pub fn delay_before_line(&mut self) -> (r: bool)
        ensures
            r == old(self).spec_started(),
            final(self).spec_started(),
    {
        let r = self.started;
        self.started = true;
        r
    }
}

/// What happens to the transcript after one attempt to write to it: it
/// stays open after a success; after a failure it closes for good and one
/// diagnostic is shown. Returns the new state and whether a diagnostic is
/// shown.
pub open spec fn transcript_step(open: bool, write_ok: bool) -> (bool, bool) {
    if !open {
        (false, false)
    } else if write_ok {
        (true, false)
    } else {
        (false, true)
    }
}

/// The diagnostic line for a failed transcript write, given the time of day
/// to show before it, if any.
pub open spec fn transcript_diagnostic(time: Option<Seq<char>>, error: Seq<char>) -> Seq<char> {
    let prefix = match time {
        Some(t) => seq!['['] + t + seq![']', ' '],
        None => Seq::empty(),
    };
    prefix + "! Error writing to transcript: "@ + error
}

/// Where the reporter sends events: whether times are shown, and whether
/// the transcript is still open.
#[derive(Clone, Copy, Debug, PartialEq, Eq, Structural)]
pub struct ReporterState {
    show_times: bool,
    transcript_open: bool,
}

impl ReporterState {
    pub closed spec fn spec_show_times(self) -> bool {
        self.show_times
    }

    pub closed spec fn spec_transcript_open(self) -> bool {
        self.transcript_open
    }

    pub fn new(show_times: bool, transcript_open: bool) -> (r: ReporterState)
        ensures
            r.spec_show_times() == show_times,
            r.spec_transcript_open() == transcript_open,
    {
        ReporterState { show_times, transcript_open }
    }

    pub fn show_times(&self) -> (r: bool)
        ensures
            r == self.spec_show_times(),
    {
        self.show_times
    }

    /// Whether an event's JSON line is written to the transcript.
    pub fn writes_transcript(&self) -> (r: bool)
        ensures
            r == self.spec_transcript_open(),
    {
        self.transcript_open
    }

    /// Records the result of a transcript write. Returns whether a
    /// diagnostic is to be shown: only for the first failure, after which the
    /// transcript stays closed.
    pub fn after_transcript_write(&mut self, write_ok: bool) -> (r: bool)
        ensures
            (final(self).spec_transcript_open(), r) == transcript_step(
                old(self).spec_transcript_open(),
                write_ok,
            ),
            final(self).spec_show_times() == old(self).spec_show_times(),
    {
        if self.transcript_open && !write_ok {
            self.transcript_open = false;
            true
        } else {
            false
        }
    }

    /// The diagnostic line for a failed transcript write, with the time of
    /// day in front where times are shown.
    pub fn transcript_diagnostic(&self, error: &str) -> (r: String)
        ensures
            exists|t: Option<Seq<char>>|
                (t is Some <==> self.spec_show_times()) && (t matches Some(s) ==> is_hms_text(s))
                    && r@ == transcript_diagnostic(t, error@),
    {
        let mut out = String::new();
        let ghost t: Option<Seq<char>> = None;
        if self.show_times {
            let hms = now_hms();
            out.push('[');
            out.push_str(hms.as_str());
            out.push(']');
            out.push(' ');
            proof {
                t = Some(hms@);
            }
        }
        out.push_str("! Error writing to transcript: ");
        out.push_str(error);
        assert(out@ =~= transcript_diagnostic(t, error@));
        out
    }
}

/// The number of diagnostics shown over a run of transcript writes, from a
/// transcript that is open or not.
pub open spec fn diagnostics_shown(open: bool, writes: Seq<bool>) -> nat
    decreases writes.len(),
{
    if writes.len() == 0 {
        0
    } else {
        let (next, shown) = transcript_step(open, writes[0]);
        (if shown { 1nat } else { 0nat }) + diagnostics_shown(next, writes.skip(1))
    }
}

/// Whether the transcript is still open after a run of writes.
pub open spec fn open_after(open: bool, writes: Seq<bool>) -> bool
    decreases writes.len(),
{
    if writes.len() == 0 {
        open
    } else {
        open_after(transcript_step(open, writes[0]).0, writes.skip(1))
    }
}

/// Over any run of transcript writes, a diagnostic is shown exactly when
/// some write fails while the transcript is open, once at most; once a write
/// has failed no later one is attempted, and the transcript stays closed.
pub proof fn lemma_one_transcript_diagnostic(open: bool, writes: Seq<bool>)
    ensures
        diagnostics_shown(open, writes) <= 1,
        diagnostics_shown(open, writes) == 1 <==> (open && exists|i: int|
            0 <= i < writes.len() && !writes[i]),
        open_after(open, writes) <==> (open && forall|i: int| 0 <= i < writes.len() ==> writes[i]),
    decreases writes.len(),
{
    if writes.len() > 0 {
        let (next, shown) = transcript_step(open, writes[0]);
        lemma_one_transcript_diagnostic(next, writes.skip(1));
        lemma_closed_stays_closed(writes.skip(1));
        if open && writes[0] {
            assert forall|i: int| 0 <= i < writes.len() && !writes[i] implies (0 <= i - 1 < writes.skip(1).len()
                && !writes.skip(1)[i - 1]) by {}
            assert forall|i: int| 0 <= i < writes.skip(1).len() && !writes.skip(1)[i] implies (0 <= i + 1 < writes.len()
                && !writes[i + 1]) by {}
        }
    }
}

/// A closed transcript shows no diagnostic and stays closed.
proof fn lemma_closed_stays_closed(writes: Seq<bool>)
    ensures
        diagnostics_shown(false, writes) == 0,
        !open_after(false, writes),
    decreases writes.len(),
{
    if writes.len() > 0 {
        lemma_closed_stays_closed(writes.skip(1));
    }
}

/// How to reach the remote end, and the framing of the session's lines.
pub struct Connector {
    pub tls: bool,
    pub host: String,
    pub port: u16,
    /// Name for SNI and certificate validation, where it differs from the
    /// host.
    pub servername: Option<String>,
    pub encoding: CharEncoding,
    /// At least 1.
    pub max_line_length: usize,
    pub crlf: bool,
}

/// How far opening a connection has come.
#[derive(Clone, Copy, Debug, PartialEq, Eq, Structural)]
pub enum ConnectProgress {
    /// Nothing done yet.
    NotStarted,
    /// The TCP connection is up and its peer reported.
    Dialled,
    /// The TLS handshake is done and reported.
    TlsEstablished,
}

/// The next thing to do to open a connection.
pub enum ConnectStep {
    /// Report `ConnectStart`, connect over TCP, report `ConnectFinish`.
    Dial,
    /// Report `TlsStart`, upgrade to TLS for this server name, report
    /// `TlsFinish`.
    StartTls(String),
    /// Frame the stream into lines with this codec; the connection is open.
    Frame(ConfabCodec),
}

impl Connector {
    /// What to do next to open the connection: dial first; then, with TLS,
    /// the handshake; then framing.
    pub fn next_connect_step(&self, progress: ConnectProgress) -> (r: ConnectStep)
        requires
            self.max_line_length > 0,
        ensures
            match progress {
                ConnectProgress::NotStarted => r is Dial,
                ConnectProgress::Dialled if self.tls => r matches ConnectStep::StartTls(name) && name@
                    == self.spec_tls_server_name(),
                _ => r matches ConnectStep::Frame(c) && c.wf() && c.spec_next_index() == 0
                    && c.spec_max_length() == self.max_line_length && c.spec_encoding()
                    == self.encoding && c.spec_crlf() == self.crlf,
            },
    {
        match progress {
            ConnectProgress::NotStarted => ConnectStep::Dial,
            ConnectProgress::Dialled if self.tls => ConnectStep::StartTls(
                self.tls_server_name().to_owned(),
            ),
            _ => ConnectStep::Frame(self.codec()),
        }
    }

    /// The name given to TLS.
    pub open spec fn spec_tls_server_name(&self) -> Seq<char> {
        match self.servername {
            Some(s) => s@,
            None => self.host@,
        }
    }

    /// The codec for the session's connection.
    pub fn codec(&self) -> (r: ConfabCodec)
        requires
            self.max_line_length > 0,
        ensures
            r.wf(),
            r.spec_next_index() == 0,
            r.spec_max_length() == self.max_line_length,
            r.spec_encoding() == self.encoding,
            r.spec_crlf() == self.crlf,
    {
        ConfabCodec::new_with_max_length(self.max_line_length).encoding(self.encoding).crlf(self.crlf)
    }

    /// The name given to TLS: the server name where one is set, else the
    /// host.
    pub fn tls_server_name(&self) -> (r: &str)
        ensures
            r@ == self.spec_tls_server_name(),
    {
        match &self.servername {
            Some(s) => s.as_str(),
            None => self.host.as_str(),
        }
    }
}

} // verus!
