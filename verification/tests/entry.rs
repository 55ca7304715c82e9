use notify_hub::Hub;
use notify_hub::MalformedIdentifier;
use notify_hub::RecvOutcome;
use notify_hub::Severity;
use notify_hub::fresh_entry_id;
use notify_hub::handle_create;
use notify_hub::handle_delete;

fn is_canonical(text: &str) -> bool {
    text.len() == 36
        && text.chars().enumerate().all(|(i, c)| {
            if i == 8 || i == 13 || i == 18 || i == 23 {
                c == '-'
            } else {
                c.is_ascii_hexdigit() && !c.is_ascii_uppercase()
            }
        })
}

#[test]
fn created_entry_is_observed_by_a_streaming_subscriber() {
    let mut hub = Hub::new(10);
    let id = hub.subscribe();

    let notification = handle_create("hello");
    assert!(matches!(notification.severity, Severity::Success));
    assert_eq!(notification.message, "created entry with content: hello");
    assert!(notification.message.contains("hello"));
    assert!(is_canonical(&notification.id));

    hub.publish(&notification).unwrap();
    match hub.recv(id) {
        RecvOutcome::Notification(n) => {
            assert!(matches!(n.severity, Severity::Success));
            assert!(n.message.contains("hello"));
        },
        _ => panic!("expected the created-entry notification"),
    }
}

#[test]
fn delete_with_malformed_identifier_is_a_client_error_and_publishes_nothing() {
    let mut hub = Hub::new(10);
    let id = hub.subscribe();

    let result = handle_delete("not-a-uuid");
    assert_eq!(result.err(), Some(MalformedIdentifier));

    assert!(matches!(hub.recv(id), RecvOutcome::Empty));
}

#[test]
fn delete_with_valid_identifier_builds_the_notification() {
    let result = handle_delete("550e8400-e29b-41d4-a716-446655440000");
    let n = result.ok().expect("a hyphenated identifier parses");
    assert!(matches!(n.severity, Severity::Success));
    assert_eq!(
        n.message,
        "deleted entry with id: 550e8400-e29b-41d4-a716-446655440000"
    );
    assert!(is_canonical(&n.id));
}

#[test]
fn delete_normalizes_the_identifier_to_canonical_form() {
    let result = handle_delete("urn:uuid:550E8400-E29B-41D4-A716-446655440000");
    let n = result.ok().expect("a urn-form identifier parses");
    assert_eq!(
        n.message,
        "deleted entry with id: 550e8400-e29b-41d4-a716-446655440000"
    );
}

#[test]
fn malformed_identifiers_are_rejected() {
    for bad in ["", "zzz", "550e8400e29b41d4a716_44665544000", "550e8400-e29b-41d4-a716"] {
        assert!(handle_delete(bad).is_err());
    }
}

#[test]
fn fresh_identifiers_are_canonical_and_distinct() {
    let a = fresh_entry_id();
    let b = fresh_entry_id();
    assert!(is_canonical(&a));
    assert!(is_canonical(&b));
    assert_ne!(a, b);
}

#[test]
fn severity_labels_are_exhaustive_and_fixed() {
    assert_eq!(Severity::Success.label(), "success");
    assert_eq!(Severity::Error.label(), "error");
}
