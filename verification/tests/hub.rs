use notify_hub::Hub;
use notify_hub::NoSubscribers;
use notify_hub::NotificationTemplate;
use notify_hub::RecvOutcome;
use notify_hub::Severity;

fn note(message: &str) -> NotificationTemplate {
    NotificationTemplate {
        id: String::from("id"),
        severity: Severity::Success,
        message: String::from(message),
    }
}

fn expect_message(outcome: RecvOutcome, want: &str) {
    match outcome {
        RecvOutcome::Notification(n) => assert_eq!(n.message, want),
        _ => panic!("expected a notification"),
    }
}

#[test]
fn fan_out_delivers_to_all_live_subscriptions() {
    let mut hub = Hub::new(10);
    let a = hub.subscribe();
    let b = hub.subscribe();
    let c = hub.subscribe();

    let delivered = hub.publish(&note("first")).unwrap();
    assert_eq!(delivered, 3);
    let delivered = hub.publish(&note("second")).unwrap();
    assert_eq!(delivered, 3);

    for id in [a, b, c] {
        expect_message(hub.recv(id), "first");
        expect_message(hub.recv(id), "second");
        assert!(matches!(hub.recv(id), RecvOutcome::Empty));
    }
}

#[test]
fn publish_returns_in_bounded_time_with_undrained_subscriber() {
    let mut hub = Hub::new(2);
    let _never_drained = hub.subscribe();
    for i in 0..1000 {
        let r = hub.publish(&note(&format!("event {}", i)));
        assert_eq!(r, Ok(1));
    }
}

#[test]
fn lag_reports_dropped_count_then_newest_retained_in_order() {
    let mut hub = Hub::new(3);
    let id = hub.subscribe();
    for i in 1..=5 {
        hub.publish(&note(&format!("event {}", i))).unwrap();
    }

    match hub.recv(id) {
        RecvOutcome::Lagged(k) => assert_eq!(k, 2),
        _ => panic!("expected a lag report"),
    }
    expect_message(hub.recv(id), "event 3");
    expect_message(hub.recv(id), "event 4");
    expect_message(hub.recv(id), "event 5");
    assert!(matches!(hub.recv(id), RecvOutcome::Empty));
}

#[test]
fn publish_without_subscribers_signals_no_subscribers() {
    let mut hub = Hub::new(10);
    assert_eq!(hub.publish(&note("unheard")), Err(NoSubscribers));

    let id = hub.subscribe();
    hub.unsubscribe(id);
    assert_eq!(hub.publish(&note("unheard again")), Err(NoSubscribers));
}

#[test]
fn teardown_removes_subscription_from_live_set() {
    let mut hub = Hub::new(10);
    let gone = hub.subscribe();
    let kept = hub.subscribe();
    assert_eq!(hub.subscriber_count(), 2);

    hub.unsubscribe(gone);
    assert_eq!(hub.subscriber_count(), 1);

    let delivered = hub.publish(&note("after teardown")).unwrap();
    assert_eq!(delivered, 1);
    expect_message(hub.recv(kept), "after teardown");
}

#[test]
fn close_delivers_backlog_then_closed() {
    let mut hub = Hub::new(10);
    let id = hub.subscribe();
    hub.publish(&note("pending")).unwrap();
    hub.close();

    expect_message(hub.recv(id), "pending");
    assert!(matches!(hub.recv(id), RecvOutcome::Closed));
    assert!(matches!(hub.recv(id), RecvOutcome::Closed));
}

#[test]
fn a_new_subscription_starts_with_an_empty_backlog() {
    let mut hub = Hub::new(10);
    hub.publish(&note("before subscribe")).unwrap_err();
    let id = hub.subscribe();
    assert!(matches!(hub.recv(id), RecvOutcome::Empty));
}

#[test]
fn lag_is_not_terminal() {
    let mut hub = Hub::new(1);
    let id = hub.subscribe();
    hub.publish(&note("old")).unwrap();
    hub.publish(&note("new")).unwrap();

    assert!(matches!(hub.recv(id), RecvOutcome::Lagged(1)));
    expect_message(hub.recv(id), "new");
    hub.publish(&note("later")).unwrap();
    expect_message(hub.recv(id), "later");
}

#[test]
fn notification_carries_severity_and_id() {
    let mut hub = Hub::new(10);
    let id = hub.subscribe();
    let published = NotificationTemplate {
        id: String::from("n-1"),
        severity: Severity::Error,
        message: String::from("something failed"),
    };
    hub.publish(&published).unwrap();
    match hub.recv(id) {
        RecvOutcome::Notification(n) => {
            assert_eq!(n.id, "n-1");
            assert!(matches!(n.severity, Severity::Error));
            assert_eq!(n.message, "something failed");
        },
        _ => panic!("expected a notification"),
    }
}
