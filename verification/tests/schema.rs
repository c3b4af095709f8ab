use pomodoro::domain::{
    AppData, DesktopNotification, SessionRecord, TimerStatus, NOTIFICATION_RETENTION,
    SESSION_RETENTION,
};
use pomodoro::schema::{
    document, document_version, finish_import, import_document, unique_ids,
    missing_member_message, DecodeError, JsonKind, VersionField, CURRENT_VERSION,
    MAX_IMPORT_BYTES,
};

#[test]
fn versions_newer_than_this_build_are_refused_by_number() {
    match document_version(JsonKind::Object, VersionField::Whole(99)) {
        Err(DecodeError::FutureVersion(99)) => {}
        other => panic!("unexpected {other:?}"),
    }
    let message = DecodeError::FutureVersion(99).message();
    assert!(message.contains("newer"));
    assert_eq!(
        message,
        "This data uses schema 99; this build supports up to 1. Open it with a newer Pomodoro build."
    );
    assert!(matches!(
        document_version(JsonKind::Object, VersionField::Absent),
        Ok(true)
    ));
    assert!(matches!(
        document_version(JsonKind::Object, VersionField::Whole(CURRENT_VERSION)),
        Ok(false)
    ));
    assert!(matches!(
        document_version(JsonKind::Array, VersionField::Absent),
        Err(DecodeError::Invalid(_))
    ));
    assert!(matches!(
        document_version(JsonKind::Object, VersionField::NotWhole),
        Err(DecodeError::Invalid(_))
    ));
}

#[test]
fn documents_are_parsed_and_versioned() {
    assert!(matches!(document(b"not json"), Err(DecodeError::Invalid(_))));
    assert!(matches!(document(b"[]"), Err(DecodeError::Invalid(_))));
    assert!(matches!(document(br#"{"schemaVersion":99}"#), Err(DecodeError::FutureVersion(99))));
    assert!(matches!(document(br#"{"schemaVersion":"one"}"#), Err(DecodeError::Invalid(_))));
    assert!(matches!(document(b"{}"), Ok(true)));
    assert!(matches!(document(br#"{"schemaVersion":1}"#), Ok(false)));
}

#[test]
fn an_import_needs_every_list_and_object() {
    assert_eq!(
        import_document(b"{}").unwrap_err(),
        "The file is missing the tasks list."
    );
    assert_eq!(
        import_document(b"not json").unwrap_err(),
        "The file is not valid Pomodoro JSON."
    );
    assert!(import_document(br#"{"schemaVersion":99}"#).unwrap_err().contains("newer"));
    let full = br#"{"tasks":[],"sessions":[],"interruptions":[],"settings":{},"timer":{}}"#;
    assert!(import_document(full).is_ok());
    let no_timer = br#"{"tasks":[],"sessions":[],"interruptions":[],"settings":{}}"#;
    assert_eq!(import_document(no_timer).unwrap_err(), "The file is missing its timer.");
    assert_eq!(
        missing_member_message(
            Some(JsonKind::Array),
            Some(JsonKind::Object),
            None,
            None,
            None
        ),
        Some("The file is missing the sessions list.".to_string())
    );
    let oversized = vec![b' '; MAX_IMPORT_BYTES as usize + 1];
    assert_eq!(
        import_document(&oversized).unwrap_err(),
        "Choose a data file smaller than 32 MiB."
    );
}

#[test]
fn imported_data_breaking_a_rule_is_refused() {
    let mut data = AppData::default();
    data.create_task("A task", 1, 100);
    data.tasks.push(data.tasks[0].clone());
    assert!(finish_import(data).unwrap_err().contains("duplicate"));

    let mut blank = AppData::default();
    blank.create_task("A task", 1, 100);
    blank.tasks[0].title = "  ".to_string();
    assert_eq!(finish_import(blank).unwrap_err(), "Every imported task needs a name.");

    let mut backwards = AppData::default();
    backwards.sessions.push(SessionRecord {
        id: "s".into(),
        started_at: 10,
        ended_at: 5,
        ..SessionRecord::default()
    });
    assert_eq!(
        finish_import(backwards).unwrap_err(),
        "An imported session ends before it starts."
    );

    let mut wild = AppData::default();
    wild.settings.focus_minutes = 0;
    assert_eq!(
        finish_import(wild).unwrap_err(),
        "Some imported settings are outside their supported limits."
    );

    let mut timer = AppData::default();
    timer.timer.remaining_seconds = timer.timer.duration_seconds + 1;
    assert_eq!(
        finish_import(timer).unwrap_err(),
        "The imported timer has an invalid duration."
    );
    assert_eq!(
        unique_ids(&vec!["a".to_string(), " ".to_string()], "tasks").unwrap_err(),
        "The tasks contain an empty or duplicate ID."
    );
    assert!(unique_ids(&vec!["a".to_string(), "a".to_string()], "tasks").is_err());
    assert!(unique_ids(&vec!["a".to_string(), "b".to_string()], "tasks").is_ok());
}

#[test]
fn transfer_preserves_history_but_does_not_activate_desktop_features() {
    let mut data = AppData::default();
    data.create_task("A task", 1, 100);
    data.start_or_resume(100);
    data.settings.notification_filter.enabled = true;
    data.settings.silence_banners_during_focus = true;
    data.banner_restore = Some(true);
    let tasks = data.tasks.clone();
    let restored = finish_import(data).unwrap();
    assert_eq!(restored.tasks, tasks);
    assert_eq!(restored.timer.status, TimerStatus::Paused);
    assert_eq!(restored.timer.ends_at, None);
    assert!(!restored.settings.notification_filter.enabled);
    assert!(!restored.settings.silence_banners_during_focus);
    assert_eq!(restored.banner_restore, None);
}

#[test]
fn imports_cannot_exceed_the_history_and_notification_retention_limits() {
    let mut data = AppData {
        sessions: (0..SESSION_RETENTION)
            .map(|index| SessionRecord {
                id: format!("session-{index}"),
                ..SessionRecord::default()
            })
            .collect(),
        notifications: (0..NOTIFICATION_RETENTION)
            .map(|index| DesktopNotification {
                id: format!("notification-{index}"),
                ..DesktopNotification::default()
            })
            .collect(),
        ..AppData::default()
    };
    let restored = finish_import(data.clone()).unwrap();
    assert_eq!(restored.sessions.len(), SESSION_RETENTION);
    assert_eq!(restored.notifications.len(), NOTIFICATION_RETENTION);

    data.sessions.push(SessionRecord {
        id: "one-too-many".into(),
        ..SessionRecord::default()
    });
    let refused = finish_import(data.clone()).unwrap_err();
    assert!(refused.contains("sessions"));
    assert_eq!(
        refused,
        "The file contains 5001 sessions; Pomodoro can keep at most 5000."
    );
    data.sessions.pop();
    data.notifications.push(DesktopNotification {
        id: "one-too-many".into(),
        ..DesktopNotification::default()
    });
    assert!(finish_import(data).unwrap_err().contains("notifications"));
}

#[test]
fn links_to_tasks_the_import_lacks_are_dropped() {
    let mut data = AppData::default();
    data.timer.active_task_id = Some("task-gone".into());
    data.capture_interruption("Call", pomodoro::domain::InterruptionCategory::External, 5);
    data.interruptions[0].converted_task_id = Some("task-gone".into());
    data.interruptions[0].task_id = Some("task-gone".into());
    let restored = finish_import(data).unwrap();
    assert_eq!(restored.timer.active_task_id, None);
    assert_eq!(restored.interruptions[0].converted_task_id, None);
    assert_eq!(restored.interruptions[0].task_id.as_deref(), Some("task-gone"));
}

#[test]
fn future_versions_are_never_read_as_current_data() {
    assert!(matches!(
        document(br#"{"schemaVersion":99}"#),
        Err(DecodeError::FutureVersion(99))
    ));
    assert!(import_document(br#"{"schemaVersion":99}"#)
        .unwrap_err()
        .contains("newer"));
}

#[test]
fn unrelated_and_inconsistent_imports_are_rejected() {
    assert!(import_document(b"{}").is_err());
    assert!(import_document(b"[]").is_err());
    assert!(import_document(b"not json").is_err());
    let mut data = AppData::default();
    data.create_task("A task", 1, 100);
    data.tasks.push(data.tasks[0].clone());
    assert!(finish_import(data).unwrap_err().contains("duplicate"));
}

#[test]
fn an_import_names_what_is_wrong_with_the_document() {
    assert_eq!(import_document(b"[]").unwrap_err(), "The data must be a JSON object.");
    assert_eq!(
        import_document(br#"{"schemaVersion":"one"}"#).unwrap_err(),
        "The data schema version must be a whole number."
    );
    assert_eq!(
        import_document(br#"{"schemaVersion":-1}"#).unwrap_err(),
        "The data schema version must be a whole number."
    );
    assert_eq!(
        import_document(br#"{"tasks":{},"sessions":[],"interruptions":[],"settings":{},"timer":{}}"#)
            .unwrap_err(),
        "The file is missing the tasks list."
    );
    assert_eq!(
        import_document(br#"{"tasks":[],"sessions":[],"interruptions":[],"settings":[],"timer":{}}"#)
            .unwrap_err(),
        "The file is missing its settings."
    );
    assert_eq!(
        import_document(br#"{"tasks":[],"sessions":[],"interruptions":[],"settings":{},"timer":{}} x"#)
            .unwrap_err(),
        "The file is not valid Pomodoro JSON."
    );
    assert!(import_document(
        br#"{"schemaVersion":1,"tasks":[],"sessions":[],"interruptions":[],"settings":{},"timer":{}}"#
    )
    .is_ok());
}
