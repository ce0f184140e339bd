use hotfix_core::message::{encode_message, Message};
use hotfix_core::session::{
    inbound_or_default, outbound_or_default, CommandAction, CommandKind, InboundDecision,
    OutboundDecision, SessionCore, SessionError, SessionState,
};

fn active() -> SessionCore {
    let mut s = SessionCore::new();
    assert!(s.start());
    assert!(s.logon_completed());
    assert_eq!(s.state(), SessionState::Active);
    s
}

fn msg() -> Message {
    let mut m = Message::new("D".to_string());
    m.insert(55, "EUR/USD".to_string()).unwrap();
    m
}

#[test]
fn lifecycle_reaches_active() {
    let mut s = SessionCore::new();
    assert_eq!(s.state(), SessionState::Created);
    assert!(!s.logon_completed());
    assert!(s.start());
    assert_eq!(s.state(), SessionState::LoggingOn);
    assert!(!s.start());
    assert!(s.logon_completed());
    assert_eq!(s.state(), SessionState::Active);
}

#[test]
fn send_transmits_encoded_bytes() {
    let mut s = active();
    let m = msg();
    let r = s.process_outbound(&m, "FIX.4.4", b'|', OutboundDecision::Send);
    assert_eq!(r, Ok(encode_message(&m, "FIX.4.4", b'|')));
    assert_eq!(s.state(), SessionState::Active);
}

#[test]
fn drop_succeeds_without_bytes() {
    let mut s = active();
    let r = s.process_outbound(&msg(), "FIX.4.4", b'|', OutboundDecision::Drop);
    assert_eq!(r, Ok(Vec::new()));
    assert_eq!(s.state(), SessionState::Active);
}

#[test]
fn send_before_logon_fails() {
    let mut s = SessionCore::new();
    let r = s.process_outbound(&msg(), "FIX.4.4", b'|', OutboundDecision::Send);
    assert_eq!(r, Err(SessionError::NotConnected));
}

#[test]
fn outbound_terminate_closes_session() {
    let mut s = active();
    let r = s.process_outbound(&msg(), "FIX.4.4", b'|', OutboundDecision::TerminateSession);
    assert_eq!(r, Err(SessionError::SessionTerminated));
    assert_eq!(s.state(), SessionState::ShuttingDown);
    assert!(s.finish_shutdown());
    assert_eq!(s.state(), SessionState::Closed);
    assert!(!s.finish_shutdown());
    let r = s.process_outbound(&msg(), "FIX.4.4", b'|', OutboundDecision::Send);
    assert_eq!(r, Err(SessionError::SessionClosed));
}

#[test]
fn inbound_terminate_closes_session() {
    let mut s = active();
    assert!(s.process_inbound(InboundDecision::Accept));
    assert!(!s.process_inbound(InboundDecision::TerminateSession));
    assert_eq!(s.state(), SessionState::ShuttingDown);
    assert!(!s.process_inbound(InboundDecision::Accept));
    assert!(s.finish_shutdown());
    let r = s.process_outbound(&msg(), "FIX.4.4", b'|', OutboundDecision::Send);
    assert_eq!(r, Err(SessionError::SessionClosed));
}

#[test]
fn explicit_shutdown_closes_session() {
    let mut s = active();
    assert!(s.request_shutdown());
    assert!(!s.request_shutdown());
    assert!(s.finish_shutdown());
    assert_eq!(s.state(), SessionState::Closed);
}

#[test]
fn closing_twice_is_a_no_op() {
    let mut s = active();
    assert!(s.close());
    assert_eq!(s.state(), SessionState::Closed);
    assert!(!s.close());
    assert_eq!(s.state(), SessionState::Closed);
    let mut fresh = SessionCore::new();
    assert!(fresh.close());
    assert!(!fresh.close());
}

#[test]
fn commands_follow_the_lifecycle() {
    let mut s = active();
    assert_eq!(s.next_action(CommandKind::SendMessage), CommandAction::Submit);
    assert_eq!(s.state(), SessionState::Active);
    assert_eq!(s.next_action(CommandKind::Shutdown), CommandAction::Stop);
    assert_eq!(s.state(), SessionState::ShuttingDown);
    assert_eq!(
        s.next_action(CommandKind::SendMessage),
        CommandAction::Refuse(SessionError::SessionClosed)
    );
    assert!(s.finish_shutdown());
    assert_eq!(s.next_action(CommandKind::Shutdown), CommandAction::Stop);
    assert_eq!(s.state(), SessionState::Closed);
    assert_eq!(s.check_open(), Err(SessionError::SessionClosed));
}

#[test]
fn failed_callbacks_fall_back_to_safe_defaults() {
    assert_eq!(outbound_or_default(None), OutboundDecision::Send);
    assert_eq!(outbound_or_default(Some(OutboundDecision::Drop)), OutboundDecision::Drop);
    assert_eq!(inbound_or_default(None), InboundDecision::Accept);
    assert_eq!(
        inbound_or_default(Some(InboundDecision::TerminateSession)),
        InboundDecision::TerminateSession
    );
}
