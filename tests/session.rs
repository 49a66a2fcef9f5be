use bytes::BytesMut;
use confab::codec::ConfabCodec;
use confab::encoding::CharEncoding;
use confab::session::{
    after_script, end_interactive, ioloop_step, ConnectProgress, ConnectStep, run_outcome, AfterScript, ConnectState, Connector,
    InetError, InterfaceError, IoError, LoopAction, LoopEvent, ReporterState, RunOutcome,
    ScriptPacer, SessionEnd,
};

fn transmitted(a: LoopAction) -> String {
    match a {
        LoopAction::Transmit(t) => t,
        _ => panic!("expected a transmission"),
    }
}

#[test]
fn ioloop_reports_received_lines() {
    let codec = ConfabCodec::new();
    match ioloop_step(&codec, LoopEvent::Received(String::from("Ping 1\n"))) {
        LoopAction::ReportRecv(t) => assert_eq!(t, "Ping 1\n"),
        _ => panic!("expected a report"),
    }
}

#[test]
fn ioloop_transmits_prepared_lines() {
    let codec = ConfabCodec::new().crlf(true);
    let t = transmitted(ioloop_step(&codec, LoopEvent::InputLine(String::from("quit"))));
    assert_eq!(t, "quit\r\n");
    let codec = ConfabCodec::new().encoding(CharEncoding::Latin1);
    let t = transmitted(ioloop_step(
        &codec,
        LoopEvent::InputLine(String::from("F\u{eb}anor is an \u{1F9DD}.  Frosty is a \u{2603}.")),
    ));
    assert_eq!(t, "F\u{eb}anor is an ?.  Frosty is a ?.\n");
}

#[test]
fn ioloop_phase_endings() {
    let codec = ConfabCodec::new();
    assert!(matches!(
        ioloop_step(&codec, LoopEvent::RemoteClosed),
        LoopAction::End(ConnectState::Closed)
    ));
    assert!(matches!(
        ioloop_step(&codec, LoopEvent::InputClosed),
        LoopAction::End(ConnectState::Open)
    ));
    assert!(matches!(
        ioloop_step(&codec, LoopEvent::Interrupt),
        LoopAction::EchoInterrupt
    ));
    assert!(matches!(
        ioloop_step(&codec, LoopEvent::RecvFailed),
        LoopAction::Fail(IoError::Inet(InetError::Recv))
    ));
    assert!(matches!(
        ioloop_step(&codec, LoopEvent::InputFailed(InterfaceError::ReadLine)),
        LoopAction::Fail(IoError::Interface(InterfaceError::ReadLine))
    ));
}

#[test]
fn session_sequencing() {
    assert_eq!(after_script(Ok(ConnectState::Open)), AfterScript::Interactive);
    assert_eq!(after_script(Ok(ConnectState::Closed)), AfterScript::Disconnect);
    let e = IoError::Interface(InterfaceError::ReadScript);
    assert_eq!(after_script(Err(e)), AfterScript::Abort(e));
    let end = end_interactive(Ok(ConnectState::Open), Err(InetError::Close));
    assert!(end.report_disconnect);
    assert_eq!(end.end, SessionEnd::CloseFailed(InetError::Close));
    assert_eq!(end.end.result(), Err(IoError::Inet(InetError::Close)));
    let end = end_interactive(Err(IoError::Inet(InetError::Send)), Err(InetError::Close));
    assert!(end.report_disconnect);
    assert_eq!(end.end, SessionEnd::PhaseFailed(IoError::Inet(InetError::Send)));
    let end = end_interactive(Ok(ConnectState::Open), Ok(()));
    assert!(end.report_disconnect);
    assert_eq!(end.end.result(), Ok(ConnectState::Open));
}

#[test]
fn exit_outcomes() {
    assert_eq!(run_outcome(Ok(ConnectState::Open)), RunOutcome::Exit { success: true });
    assert_eq!(run_outcome(Ok(ConnectState::Closed)), RunOutcome::Exit { success: false });
    assert_eq!(
        run_outcome(Err(IoError::Inet(InetError::Connect))),
        RunOutcome::ReportAndFail(InetError::Connect)
    );
    assert_eq!(
        run_outcome(Err(IoError::Interface(InterfaceError::Write))),
        RunOutcome::Fatal(InterfaceError::Write)
    );
}

#[test]
fn welcome_hi_then_remote_close() {
    let codec = ConfabCodec::new_with_max_length(65535);
    let mut decoder = codec;
    let mut buf = BytesMut::from("Welcome\n");
    let line = decoder.decode(&mut buf).unwrap();
    match ioloop_step(&codec, LoopEvent::Received(line)) {
        LoopAction::ReportRecv(t) => assert_eq!(t, "Welcome\n"),
        _ => panic!("expected a report"),
    }
    let sent = transmitted(ioloop_step(&codec, LoopEvent::InputLine(String::from("hi"))));
    assert_eq!(sent, "hi\n");
    let mut wire = BytesMut::new();
    codec.encode(&sent, &mut wire);
    assert_eq!(wire, "hi\n");
    let end = match ioloop_step(&codec, LoopEvent::RemoteClosed) {
        LoopAction::End(s) => s,
        _ => panic!("expected the phase to end"),
    };
    let finish = end_interactive(Ok(end), Ok(()));
    assert!(finish.report_disconnect);
    assert_eq!(run_outcome(finish.end.result()), RunOutcome::Exit { success: false });
}

#[test]
fn transcript_failure_is_reported_once() {
    let mut r = ReporterState::new(false, true);
    let mut shown = 0;
    for ok in [true, true, false, false, true, false] {
        if r.writes_transcript() && r.after_transcript_write(ok) {
            shown += 1;
        }
    }
    assert_eq!(shown, 1);
    assert!(!r.writes_transcript());
    assert_eq!(
        r.transcript_diagnostic("No space left on device"),
        "! Error writing to transcript: No space left on device"
    );
}

#[test]
fn transcript_diagnostic_with_time() {
    let r = ReporterState::new(true, true);
    assert!(r.show_times());
    let d = r.transcript_diagnostic("gone");
    assert!(d.starts_with('['));
    assert!(d.ends_with("] ! Error writing to transcript: gone"));
    assert_eq!(d.len(), "[12:34:56] ! Error writing to transcript: gone".len());
}

#[test]
fn no_transcript_no_diagnostic() {
    let mut r = ReporterState::new(false, false);
    assert!(!r.writes_transcript());
    assert!(!r.after_transcript_write(false));
}

#[test]
fn script_lines_after_the_first_wait() {
    let mut p = ScriptPacer::new();
    assert!(!p.delay_before_line());
    assert!(p.delay_before_line());
    assert!(p.delay_before_line());
}

#[test]
fn connector_codec_and_server_name() {
    let mut c = Connector {
        tls: true,
        host: String::from("example.com"),
        port: 443,
        servername: None,
        encoding: CharEncoding::Latin1,
        max_line_length: 42,
        crlf: true,
    };
    assert_eq!(c.tls_server_name(), "example.com");
    let codec = c.codec();
    assert_eq!(codec.max_length(), 42);
    assert_eq!(codec.char_encoding(), CharEncoding::Latin1);
    assert_eq!(codec.prepare_line(String::from("x")), "x\r\n");
    c.servername = Some(String::from("sni.example"));
    assert_eq!(c.tls_server_name(), "sni.example");
}

#[test]
fn error_messages() {
    assert_eq!(InetError::Connect.message(), "failed to connect to server");
    assert_eq!(InterfaceError::Write.message(), "error writing output");
}

#[test]
fn connect_steps_plain_and_tls() {
    let mut c = Connector {
        tls: false,
        host: String::from("localhost"),
        port: 80,
        servername: None,
        encoding: CharEncoding::Utf8,
        max_line_length: 10,
        crlf: false,
    };
    assert!(matches!(c.next_connect_step(ConnectProgress::NotStarted), ConnectStep::Dial));
    match c.next_connect_step(ConnectProgress::Dialled) {
        ConnectStep::Frame(codec) => assert_eq!(codec.max_length(), 10),
        _ => panic!("plain connections are framed after dialling"),
    }
    c.tls = true;
    match c.next_connect_step(ConnectProgress::Dialled) {
        ConnectStep::StartTls(name) => assert_eq!(name, "localhost"),
        _ => panic!("TLS connections start TLS after dialling"),
    }
    assert!(matches!(
        c.next_connect_step(ConnectProgress::TlsEstablished),
        ConnectStep::Frame(_)
    ));
}
