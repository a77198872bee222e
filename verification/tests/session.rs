use pylon::grid::Row;
use pylon::session::manager::{
    events_for, on_command, on_stream, send_failure, RateLimitInfo, ResultInfo, SessionAction,
    SessionCommand, SessionEvent, SessionManager, SessionMessage, SessionWork, StreamOutcome,
};
use pylon::session::renderer::SessionRenderer;

fn text_of(rows: &[Row]) -> Vec<String> {
    rows.iter().map(|row| (0..row.len()).map(|i| row.get(i).unwrap().ch).collect()).collect()
}

fn message(session_id: Option<&str>) -> SessionMessage {
    SessionMessage {
        session_id: session_id.map(String::from),
        rate_limit: None,
        context_tokens: None,
        result: None,
    }
}

#[test]
fn text_is_wrapped_into_rows() {
    let rows = SessionRenderer::render_text("abcdef\ng\n\nh", 4);
    assert_eq!(text_of(&rows), ["abcd", "ef  ", "g   ", "    ", "h   "]);
    assert_eq!(text_of(&SessionRenderer::render_text("abcd", 4)), ["abcd"]);
    assert_eq!(text_of(&SessionRenderer::render_text("abcd\n", 4)), ["abcd"]);
    assert!(SessionRenderer::render_text("", 4).is_empty());
    assert!(SessionRenderer::render_text("abc", 0).is_empty());
}

#[test]
fn commands_become_actions() {
    let send = Some(SessionCommand::SendMessage("hi".to_string()));
    assert!(matches!(on_command(send), SessionAction::Inject(m) if m == "hi"));
    assert!(matches!(on_command(Some(SessionCommand::Interrupt)), SessionAction::Interrupt));
    assert!(matches!(on_command(Some(SessionCommand::Kill)), SessionAction::Kill));
    assert!(matches!(on_command(None), SessionAction::Stop));
}

#[test]
fn a_message_is_announced_in_order() {
    let full = SessionMessage {
        rate_limit: Some(RateLimitInfo {
            utilization_bits: 0.5f64.to_bits(),
            status: "allowed".to_string(),
            resets_at: 7,
        }),
        context_tokens: Some(42),
        result: Some(ResultInfo { cost_usd_bits: None, duration_ms: Some(3) }),
        ..message(Some("id"))
    };
    let events = events_for(full);
    assert_eq!(events.len(), 4);
    assert!(matches!(
        &events[0],
        SessionEvent::RateLimit { utilization_bits, status, resets_at: 7 }
            if f64::from_bits(*utilization_bits) == 0.5 && status == "allowed"
    ));
    assert!(matches!(events[1], SessionEvent::ContextUpdate { context_tokens: 42 }));
    assert!(matches!(
        events[2],
        SessionEvent::Finished { cost_usd_bits: None, duration_ms: Some(3) }
    ));
    assert!(matches!(events[3], SessionEvent::Message(_)));
    assert_eq!(events_for(message(None)).len(), 1);
}

#[test]
fn the_stream_goes_on_until_it_ends() {
    let (events, on) = on_stream(StreamOutcome::Message(message(None)));
    assert!(on && events.len() == 1);
    let (events, on) = on_stream(StreamOutcome::Ended);
    assert!(!on && events.is_empty());
    let (events, on) = on_stream(StreamOutcome::Failed("gone".to_string()));
    assert!(!on);
    assert!(matches!(&events[0], SessionEvent::Error(m) if m == "stream error: gone"));
}

#[test]
fn failures_are_reported() {
    let said = |work: SessionWork| match work.failure("x") {
        SessionEvent::Error(m) => m,
        _ => panic!("an error"),
    };
    assert_eq!(said(SessionWork::Spawn), "spawn failed: x");
    assert_eq!(said(SessionWork::Warmup), "warmup failed: x");
    assert_eq!(said(SessionWork::Inject), "inject failed: x");
    assert_eq!(said(SessionWork::Interrupt), "interrupt failed: x");
    assert_eq!(said(SessionWork::Stream), "stream error: x");
    assert_eq!(send_failure("closed").message(), "Session error: send failed: closed");
}

#[test]
fn the_session_is_known_from_its_messages() {
    let mut manager = SessionManager::default();
    assert_eq!(manager.session_id(), None);
    manager.note(&SessionEvent::Message(message(Some("one"))));
    manager.note(&SessionEvent::Message(message(None)));
    manager.note(&SessionEvent::ContextUpdate { context_tokens: 1 });
    assert_eq!(manager.session_id(), Some("one"));
    manager.note(&SessionEvent::Message(message(Some("two"))));
    assert_eq!(manager.session_id(), Some("two"));
}
