//! The transport's pumping decisions and the request wire grammar.

use gemini_protocol::mime::MimeType;
use gemini_protocol::transport::{
    format_request, prior_io_action, read_pump_continues, PriorIoPhase, PumpAction,
};

#[test]
fn test_prior_io_handshake_then_flush() {
    let (p1, a1) = prior_io_action(PriorIoPhase::CheckHandshake, true, false);
    assert_eq!(p1, PriorIoPhase::CheckQueuedWrite);
    assert_eq!(a1, PumpAction::DriveIo);

    let (p2, a2) = prior_io_action(p1, false, true);
    assert_eq!(p2, PriorIoPhase::Done);
    assert_eq!(a2, PumpAction::DriveIo);

    let (p3, a3) = prior_io_action(p2, false, true);
    assert_eq!(p3, PriorIoPhase::Done);
    assert_eq!(a3, PumpAction::Skip);
}

#[test]
fn test_prior_io_idle_session_is_quiet() {
    let (p1, a1) = prior_io_action(PriorIoPhase::CheckHandshake, false, false);
    assert_eq!(a1, PumpAction::Skip);
    let (_p2, a2) = prior_io_action(p1, false, false);
    assert_eq!(a2, PumpAction::Skip);
}

#[test]
fn test_read_pump_stops_on_empty_round() {
    assert!(read_pump_continues(true, None));
    assert!(read_pump_continues(true, Some(512)));
    assert!(!read_pump_continues(true, Some(0)));
    assert!(!read_pump_continues(false, None));
    assert!(!read_pump_continues(false, Some(512)));
}

#[test]
fn test_format_request_appends_crlf() {
    assert_eq!(format_request("gemini://example.org/"), "gemini://example.org/\r\n");
}

#[test]
fn test_default_mime_type() {
    let m = MimeType::default();
    assert_eq!(m.typ, "text");
    assert_eq!(m.sub, "gemini");
    assert!(m.parameters.is_none());
}
