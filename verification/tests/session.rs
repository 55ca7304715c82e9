use notify_hub::RenderFailure;
use notify_hub::Session;
use notify_hub::SessionEvent;
use notify_hub::data_frame;
use notify_hub::heartbeat_frame;

#[test]
fn frames_are_encoded_exactly() {
    assert_eq!(data_frame("<div>hi</div>"), "data: <div>hi</div>\n\n");
    assert_eq!(heartbeat_frame(), ":keep-alive-message\n\n");
}

#[test]
fn heartbeat_frame_is_distinct_from_data_frames() {
    assert_ne!(heartbeat_frame(), data_frame("keep-alive-message"));
    assert_ne!(heartbeat_frame(), data_frame(":keep-alive-message"));
    assert_ne!(heartbeat_frame(), data_frame(""));
}

#[test]
fn idle_interval_emits_exactly_one_heartbeat() {
    let mut session = Session::new();
    let step = session.step(SessionEvent::Tick);
    assert_eq!(step.frame.as_deref(), Some(":keep-alive-message\n\n"));
    assert!(!step.done);

    let step = session.step(SessionEvent::Tick);
    assert_eq!(step.frame.as_deref(), Some(":keep-alive-message\n\n"));
    assert!(!step.done);
}

#[test]
fn a_data_frame_suppresses_the_next_heartbeat() {
    let mut session = Session::new();
    let step = session.step(SessionEvent::Delivered(Ok(String::from("<div>x</div>"))));
    assert_eq!(step.frame.as_deref(), Some("data: <div>x</div>\n\n"));
    assert!(!step.done);

    let step = session.step(SessionEvent::Tick);
    assert!(step.frame.is_none());

    let step = session.step(SessionEvent::Tick);
    assert_eq!(step.frame.as_deref(), Some(":keep-alive-message\n\n"));
}

#[test]
fn render_failure_substitutes_the_fallback_frame() {
    let mut session = Session::new();
    let step = session.step(SessionEvent::Delivered(Err(RenderFailure)));
    assert_eq!(
        step.frame.as_deref(),
        Some("data: <div>error handling notification</div>\n\n")
    );
    assert!(!step.done);
}

#[test]
fn lag_is_transparent_to_the_connection() {
    let mut session = Session::new();
    let step = session.step(SessionEvent::Lagged(7));
    assert!(step.frame.is_none());
    assert!(!step.done);
}

#[test]
fn hub_closure_terminates_the_session() {
    let mut session = Session::new();
    let step = session.step(SessionEvent::HubClosed);
    assert!(step.frame.is_none());
    assert!(step.done);
}

#[test]
fn disconnect_terminates_the_session() {
    let mut session = Session::new();
    let step = session.step(SessionEvent::Disconnected);
    assert!(step.frame.is_none());
    assert!(step.done);
}
