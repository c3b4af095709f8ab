use pomodoro::domain::CaptureStatus;
use pomodoro::notifications::status_after_monitor;
use pomodoro::notifications::{
    urgency_from_value, urgency_of, Deduplicator, HintValue, NotifyEvent, DEDUP_CAPACITY,
    DEDUP_WINDOW_MS,
};

fn event(app_name: &str, summary: &str, body: &str) -> NotifyEvent {
    NotifyEvent {
        app_name: app_name.to_string(),
        summary: summary.to_string(),
        body: body.to_string(),
        urgency: 1,
        replaces_id: 0,
    }
}

#[test]
fn the_relayed_second_copy_of_a_notification_is_dropped() {
    let first = event("Signal", "Alice", "See you at six");
    let relayed = NotifyEvent {
        urgency: 1,
        ..first.clone()
    };

    let mut deduplicator = Deduplicator::new(DEDUP_WINDOW_MS);
    assert!(deduplicator.accept(first.dedup_key(), 10_000));
    assert!(!deduplicator.accept(relayed.dedup_key(), 10_002));
}

#[test]
fn deduplication_is_scoped_to_the_window_and_to_the_exact_content() {
    let mut deduplicator = Deduplicator::new(DEDUP_WINDOW_MS);
    let repeated = event("Signal", "Alice", "See you at six");

    assert!(deduplicator.accept(repeated.dedup_key(), 0));
    assert!(!deduplicator.accept(repeated.dedup_key(), DEDUP_WINDOW_MS));
    assert!(deduplicator.accept(repeated.dedup_key(), DEDUP_WINDOW_MS + 1));

    assert!(deduplicator.accept(event("Slack", "Alice", "See you at six").dedup_key(), 1));
    assert!(deduplicator.accept(event("Signal", "Bob", "See you at six").dedup_key(), 1));
    assert!(deduplicator.accept(event("Signal", "Alice", "Make it seven").dedup_key(), 1));
}

#[test]
fn dedup_keys_cannot_be_forged_by_embedding_the_separator() {
    let split = event("a\u{1f}b", "c", "d");
    let joined = event("a", "b\u{1f}c", "d");
    assert_ne!(split.dedup_key(), joined.dedup_key());
}

#[test]
fn urgency_hints_accept_any_integer_encoding() {
    assert_eq!(urgency_from_value(&HintValue::U8(2)), Some(2));
    assert_eq!(urgency_from_value(&HintValue::U32(0)), Some(0));
    assert_eq!(urgency_from_value(&HintValue::I32(1)), Some(1));
    assert_eq!(urgency_from_value(&HintValue::I32(-1)), None);
    assert_eq!(urgency_from_value(&HintValue::Other), None);
}

#[test]
fn a_dedup_key_prefixes_each_field_with_its_length_in_bytes() {
    let key = NotifyEvent {
        app_name: "é".to_string(),
        summary: "s".to_string(),
        body: String::new(),
        urgency: 2,
        replaces_id: 7,
    }
    .dedup_key();
    assert_eq!(key, "2\u{1f}é\u{1f}1\u{1f}s\u{1f}0\u{1f}\u{1f}7");
}

#[test]
fn a_key_is_remembered_no_longer_than_the_capacity_allows() {
    let mut deduplicator = Deduplicator::default();
    assert!(deduplicator.accept("first".to_string(), 0));
    for index in 0..DEDUP_CAPACITY {
        assert!(deduplicator.accept(format!("other {index}"), 0));
    }
    // The first key has been pushed out, though still inside the window.
    assert!(deduplicator.accept("first".to_string(), 0));
}

#[test]
fn a_clock_that_went_back_does_not_forget_a_key_early() {
    let mut deduplicator = Deduplicator::new(DEDUP_WINDOW_MS);
    assert!(deduplicator.accept("key".to_string(), 5_000));
    assert!(!deduplicator.accept("key".to_string(), 4_000));
}

#[test]
fn urgency_defaults_to_normal_and_is_clamped_to_critical() {
    assert_eq!(urgency_of(None), 1);
    assert_eq!(urgency_of(Some(&HintValue::Other)), 1);
    assert_eq!(urgency_of(Some(&HintValue::U8(0))), 0);
    assert_eq!(urgency_of(Some(&HintValue::U64(200))), 2);
    assert_eq!(urgency_of(Some(&HintValue::I64(300))), 1);
    assert_eq!(
        urgency_of(Some(&HintValue::Nested(Box::new(HintValue::U16(2))))),
        2
    );
}

#[test]
fn a_monitor_that_ends_is_reported_as_failed_unless_superseded() {
    assert_eq!(status_after_monitor(Some("no bus"), true), None);
    assert_eq!(status_after_monitor(None, true), None);
    assert_eq!(
        status_after_monitor(Some("no bus"), false),
        Some(CaptureStatus::failed("no bus"))
    );
    assert_eq!(
        status_after_monitor(None, false),
        Some(CaptureStatus::failed("the session bus closed the connection"))
    );
}
