use std::io::ErrorKind;

use async_chat_client::command::{classify_command, parse_command, Command};
use async_chat_client::io_result::{failure_of_kind, would_block, IoFailure};
use async_chat_client::session::{
    frame_message, CloseReason, CommandOutcome, HandshakeState, Phase, ReadStep, Session, Status,
    WriteStep,
};

fn send_text(cmd: Command) -> Vec<u8> {
    match cmd {
        Command::Send(t) => t,
        other => panic!("expected a send, got {:?}", other),
    }
}

/// A session whose identity has gone out in full.
fn active_session(name: &str) -> Session {
    let mut s = Session::new(name);
    let n = s.write_request().len();
    assert_eq!(s.on_written(Ok(n)), WriteStep::Idle);
    s
}

#[test]
fn parse_send_takes_text_after_keyword() {
    assert_eq!(send_text(parse_command("send hello")), b"hello".to_vec());
}

#[test]
fn parse_trims_surrounding_whitespace() {
    assert!(matches!(parse_command("  leave \n"), Command::Leave));
    assert_eq!(send_text(parse_command("\t send  hi there  \n")), b" hi there".to_vec());
}

#[test]
fn parse_is_case_sensitive_and_exact() {
    assert!(matches!(parse_command("Send hi"), Command::Unknown));
    assert!(matches!(parse_command("LEAVE"), Command::Unknown));
    assert!(matches!(parse_command("leaving"), Command::Unknown));
    assert!(matches!(parse_command("send"), Command::Unknown));
    assert!(matches!(parse_command("send   "), Command::Unknown));
    assert!(matches!(parse_command(""), Command::Unknown));
}

#[test]
fn classify_does_not_trim() {
    assert!(matches!(classify_command(" leave"), Command::Unknown));
    assert_eq!(send_text(classify_command("send ")), Vec::<u8>::new());
}

#[test]
fn frame_has_username_brackets_and_newline() {
    assert_eq!(frame_message(b"alice", b"hello"), b"[alice]: hello\n".to_vec());
    assert_eq!(frame_message(b"", b""), b"[]: \n".to_vec());
}

#[test]
fn new_session_writes_identity_first() {
    let s = Session::new("alice");
    assert_eq!(s.identity(), b"alice");
    assert_eq!(s.handshake(), HandshakeState::NotSent);
    assert_eq!(s.phase(), Phase::Handshaking);
    assert!(s.wants_write());
    assert_eq!(s.write_request(), b"alice".to_vec());
}

#[test]
fn identity_written_once_regardless_of_writable_events() {
    let mut s = Session::new("alice");
    assert_eq!(s.on_written(Ok(5)), WriteStep::Idle);
    assert_eq!(s.handshake(), HandshakeState::Sent);
    assert_eq!(s.phase(), Phase::Active);
    for _ in 0..3 {
        assert!(!s.wants_write());
        assert!(s.write_request().is_empty());
    }
    assert_eq!(s.on_command("send hi"), CommandOutcome::Queued);
    assert_eq!(s.write_request(), b"[alice]: hi\n".to_vec());
}

#[test]
fn send_during_handshake_waits_for_identity() {
    let mut s = Session::new("bob");
    assert_eq!(s.on_command("send yo"), CommandOutcome::Queued);
    assert_eq!(s.write_request(), b"bob".to_vec());
    assert_eq!(s.on_written(Ok(2)), WriteStep::Continue);
    assert_eq!(s.write_request(), b"b".to_vec());
    assert_eq!(s.on_written(Ok(1)), WriteStep::Continue);
    assert_eq!(s.handshake(), HandshakeState::Sent);
    assert_eq!(s.write_request(), b"[bob]: yo\n".to_vec());
}

#[test]
fn partial_write_keeps_the_rest() {
    let mut s = active_session("alice");
    assert_eq!(s.on_command("send hello"), CommandOutcome::Queued);
    assert_eq!(s.on_written(Ok(4)), WriteStep::Continue);
    assert_eq!(s.write_request(), b"ce]: hello\n".to_vec());
    assert!(s.has_pending_message());
    assert_eq!(s.on_written(Ok(11)), WriteStep::Idle);
    assert!(!s.has_pending_message());
}

#[test]
fn send_while_pending_is_rejected() {
    let mut s = active_session("alice");
    assert_eq!(s.on_command("send one"), CommandOutcome::Queued);
    assert_eq!(s.on_command("send two"), CommandOutcome::Busy);
    assert_eq!(s.write_request(), b"[alice]: one\n".to_vec());
    assert_eq!(s.on_written(Ok(13)), WriteStep::Idle);
    assert_eq!(s.on_command("send two"), CommandOutcome::Queued);
    assert_eq!(s.write_request(), b"[alice]: two\n".to_vec());
}

#[test]
fn message_must_fit_the_buffer() {
    let mut s = active_session("alice");
    let fits = format!("send {}", "x".repeat(502));
    let too_long = format!("send {}", "x".repeat(503));
    assert_eq!(s.on_command(&too_long), CommandOutcome::TooLong);
    assert!(!s.has_pending_message());
    assert_eq!(s.on_command(&fits), CommandOutcome::Queued);
    assert_eq!(s.write_request().len(), 512);
}

#[test]
fn would_block_write_leaves_buffer_unchanged() {
    let mut s = active_session("alice");
    assert_eq!(s.on_command("send hi"), CommandOutcome::Queued);
    assert_eq!(s.on_written(Err(IoFailure::WouldBlock)), WriteStep::Wait);
    assert_eq!(s.write_request(), b"[alice]: hi\n".to_vec());
    assert_eq!(s.on_written(Ok(0)), WriteStep::Wait);
    assert_eq!(s.write_request(), b"[alice]: hi\n".to_vec());
}

#[test]
fn failed_write_closes() {
    let mut s = active_session("alice");
    assert_eq!(s.on_command("send hi"), CommandOutcome::Queued);
    assert_eq!(s.on_written(Err(IoFailure::Fatal)), WriteStep::Failed);
    assert_eq!(s.status(), Status::Closed(CloseReason::WriteFailed));
    assert!(!s.wants_write());
}

#[test]
fn zero_byte_read_closes() {
    let mut s = active_session("alice");
    assert!(matches!(s.on_read(Ok(Vec::new())), ReadStep::PeerClosed));
    assert_eq!(s.status(), Status::Closed(CloseReason::PeerClosed));
    assert_eq!(s.phase(), Phase::Closed);
    assert!(matches!(s.on_read(Ok(Vec::new())), ReadStep::Ignored));
    assert_eq!(s.phase(), Phase::Closed);
}

#[test]
fn zero_byte_read_closes_during_handshake() {
    let mut s = Session::new("alice");
    assert!(matches!(s.on_read(Ok(Vec::new())), ReadStep::PeerClosed));
    assert_eq!(s.phase(), Phase::Closed);
    assert!(s.write_request().is_empty());
}

#[test]
fn read_decodes_lossy() {
    let mut s = active_session("alice");
    match s.on_read(Ok(vec![0x68, 0xff, 0x69])) {
        ReadStep::Received(text) => assert_eq!(text, "h\u{FFFD}i"),
        other => panic!("unexpected {:?}", other),
    }
    assert_eq!(s.status(), Status::Open);
}

#[test]
fn read_would_block_and_failure() {
    let mut s = active_session("alice");
    assert!(matches!(s.on_read(Err(IoFailure::WouldBlock)), ReadStep::Retry));
    assert_eq!(s.status(), Status::Open);
    assert!(matches!(s.on_read(Err(IoFailure::Fatal)), ReadStep::Failed));
    assert_eq!(s.status(), Status::Closed(CloseReason::ReadFailed));
}

#[test]
fn leave_with_pending_message_writes_nothing() {
    let mut s = active_session("alice");
    assert_eq!(s.on_command("send bye"), CommandOutcome::Queued);
    assert_eq!(s.on_command("leave"), CommandOutcome::Left);
    assert_eq!(s.status(), Status::Closed(CloseReason::Left));
    assert!(!s.wants_write());
    assert!(s.write_request().is_empty());
    assert_eq!(s.on_written(Ok(0)), WriteStep::Ignored);
    assert_eq!(s.on_command("send again"), CommandOutcome::SessionClosed);
    assert_eq!(s.on_command("leave"), CommandOutcome::SessionClosed);
}

#[test]
fn unknown_command_changes_nothing() {
    let mut s = Session::new("alice");
    assert_eq!(s.on_command("hello"), CommandOutcome::Unknown);
    assert_eq!(s.handshake(), HandshakeState::NotSent);
    assert_eq!(s.write_request(), b"alice".to_vec());
    assert_eq!(s.on_written(Ok(5)), WriteStep::Idle);
    assert_eq!(s.on_command("send x"), CommandOutcome::Queued);
    assert_eq!(s.on_command("whatever"), CommandOutcome::Unknown);
    assert_eq!(s.status(), Status::Open);
    assert_eq!(s.write_request(), b"[alice]: x\n".to_vec());
}

#[test]
fn echo_peer_scenario() {
    let mut s = Session::new("alice");
    let mut wire: Vec<u8> = Vec::new();
    let id = s.write_request();
    wire.extend_from_slice(&id);
    assert_eq!(s.on_written(Ok(id.len())), WriteStep::Idle);
    assert_eq!(s.on_command("send hello"), CommandOutcome::Queued);
    let msg = s.write_request();
    wire.extend_from_slice(&msg);
    assert_eq!(s.on_written(Ok(msg.len())), WriteStep::Idle);
    assert_eq!(msg, b"[alice]: hello\n".to_vec());
    assert_eq!(wire, b"alice[alice]: hello\n".to_vec());
    match s.on_read(Ok(b"hi\n".to_vec())) {
        ReadStep::Received(text) => assert_eq!(text, "hi\n"),
        other => panic!("unexpected {:?}", other),
    }
    assert_eq!(s.on_command("leave"), CommandOutcome::Left);
    assert_eq!(s.phase(), Phase::Closed);
}

#[test]
fn would_block_tells_kinds_apart() {
    let wb = std::io::Error::new(std::io::ErrorKind::WouldBlock, "not ready");
    let other = std::io::Error::new(std::io::ErrorKind::ConnectionReset, "reset");
    let interrupted = std::io::Error::new(std::io::ErrorKind::Interrupted, "interrupted");
    let pipe = std::io::Error::new(std::io::ErrorKind::BrokenPipe, "pipe");
    assert!(would_block(&wb));
    assert!(!would_block(&other));
    assert!(!would_block(&interrupted));
    assert!(!would_block(&pipe));
}

#[test]
fn error_kinds_classified() {
    assert_eq!(failure_of_kind(ErrorKind::WouldBlock), IoFailure::WouldBlock);
    assert_eq!(failure_of_kind(ErrorKind::Interrupted), IoFailure::Fatal);
    assert_eq!(failure_of_kind(ErrorKind::ConnectionReset), IoFailure::Fatal);
    assert_eq!(failure_of_kind(ErrorKind::UnexpectedEof), IoFailure::Fatal);
}
