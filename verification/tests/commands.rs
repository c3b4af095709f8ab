use pomodoro::commands::{
    add_task, capture_interruption, convert_interruption_to_task, convert_notification,
    delete_interruption, delete_notification, delete_task, select_task, set_interruption_handled,
    set_phase, toggle_task, toggle_timer, triage_notification, update_task,
};
use pomodoro::domain::{AppData, InterruptionCategory, NotificationFilter, Phase, TimerStatus};

fn with_task(title: &str) -> (AppData, String) {
    let mut data = AppData::default();
    add_task(&mut data, title, 2, 0).unwrap();
    let id = data.tasks[0].id.clone();
    (data, id)
}

#[test]
fn a_focus_cannot_start_without_a_task() {
    let mut data = AppData::default();
    let before = data.clone();
    assert_eq!(
        toggle_timer(&mut data, 0),
        Err("Choose a task before starting a focus session.".to_string())
    );
    assert_eq!(data, before);
}

#[test]
fn toggling_starts_pauses_and_resumes() {
    let (mut data, id) = with_task("Write");
    assert_eq!(data.timer.active_task_id.as_deref(), Some(id.as_str()));
    assert_eq!(toggle_timer(&mut data, 0), Ok(()));
    assert_eq!(data.timer.status, TimerStatus::Running);
    assert_eq!(toggle_timer(&mut data, 10_000), Ok(()));
    assert_eq!(data.timer.status, TimerStatus::Paused);
    assert_eq!(data.timer.remaining_seconds, 1_490);
    assert_eq!(toggle_timer(&mut data, 20_000), Ok(()));
    assert_eq!(data.timer.status, TimerStatus::Running);
}

#[test]
fn task_commands_refuse_with_their_messages() {
    let (mut data, id) = with_task("Write");
    assert_eq!(add_task(&mut data, "   ", 1, 0), Err("Enter a task name.".to_string()));
    assert_eq!(
        update_task(&mut data, "task-missing", "x", 1, 0),
        Err("Task not found.".to_string())
    );
    assert_eq!(
        update_task(&mut data, &id, "  ", 1, 0),
        Err("Enter a task name.".to_string())
    );
    assert!(toggle_task(&mut data, "task-missing", 0).is_err());
    toggle_timer(&mut data, 0).unwrap();
    assert_eq!(
        delete_task(&mut data, &id),
        Err("Finish or reset that task's active focus before deleting it.".to_string())
    );
    assert_eq!(
        select_task(&mut data, None),
        Err("Finish or reset the current focus before switching tasks.".to_string())
    );
    assert_eq!(
        set_phase(&mut data, Phase::ShortBreak, 1_000),
        Err("Reset the current interval before changing timer mode.".to_string())
    );
}

#[test]
fn an_estimate_is_kept_between_one_and_sixteen() {
    let mut data = AppData::default();
    add_task(&mut data, "Big", 99, 0).unwrap();
    add_task(&mut data, "Small", 0, 0).unwrap();
    assert_eq!(data.tasks[0].estimate, 16);
    assert_eq!(data.tasks[1].estimate, 1);
}

#[test]
fn finishing_a_task_reports_its_alert() {
    let (mut data, id) = with_task("Write");
    let (alert, title) = toggle_task(&mut data, &id, 5).unwrap();
    assert!(alert.sound);
    assert!(alert.notify);
    assert_eq!(title, "Write");
    assert!(data.tasks[0].done);
    assert_eq!(data.tasks[0].completed_at, Some(5));
    let (reopened, _) = toggle_task(&mut data, &id, 6).unwrap();
    assert!(!reopened.sound && !reopened.notify);
}

#[test]
fn note_and_notification_commands_refuse_unknown_ids() {
    let mut data = AppData::default();
    assert_eq!(
        capture_interruption(&mut data, "  ", InterruptionCategory::Internal, 0),
        Err("Write a short note first.".to_string())
    );
    assert_eq!(
        set_interruption_handled(&mut data, "x", true),
        Err("Interruption not found.".to_string())
    );
    assert_eq!(delete_interruption(&mut data, "x"), Err("Interruption not found.".to_string()));
    assert_eq!(
        convert_interruption_to_task(&mut data, "x", 0),
        Err("Interruption not found.".to_string())
    );
    assert_eq!(triage_notification(&mut data, "x", true), Err("Notification not found.".to_string()));
    assert_eq!(convert_notification(&mut data, "x", 0), Err("Notification not found.".to_string()));
    assert_eq!(delete_notification(&mut data, "x"), Err("Notification not found.".to_string()));

    data.settings.notification_filter = NotificationFilter {
        enabled: true,
        ..NotificationFilter::default()
    };
    let row = data.capture_notification("Mail", "Invoice", "", 1, 10).unwrap();
    assert_eq!(convert_notification(&mut data, &row.id, 20), Ok(()));
    assert_eq!(convert_notification(&mut data, &row.id, 30), Ok(()));
    assert_eq!(data.tasks.len(), 1);
    assert_eq!(triage_notification(&mut data, &row.id, false), Ok(()));
    assert_eq!(delete_notification(&mut data, &row.id), Ok(()));
    assert!(data.notifications.is_empty());

    capture_interruption(&mut data, "Call back", InterruptionCategory::External, 40).unwrap();
    let note = data.interruptions[0].id.clone();
    assert_eq!(convert_interruption_to_task(&mut data, &note, 50), Ok(()));
    assert_eq!(set_interruption_handled(&mut data, &note, false), Ok(()));
    assert_eq!(delete_interruption(&mut data, &note), Ok(()));
}
