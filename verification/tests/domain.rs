use pomodoro::domain::{
    AppData, InterruptionCategory, NotificationFilter, Phase, SessionOutcome, Settings,
    TimerStatus, MAX_APP_NAME_CHARS, MAX_BODY_CHARS, MAX_SUMMARY_CHARS, MAX_URGENCY,
    NOTIFICATION_RETENTION, REPLACE_WINDOW_MS, SESSION_RETENTION, SNAPSHOT_SESSION_WINDOW_MS,
};
use std::collections::HashSet;

fn one_minute_settings() -> Settings {
    Settings {
        focus_minutes: 1,
        short_break_minutes: 1,
        long_break_minutes: 1,
        ..Settings::default()
    }
}

fn capturing_filter() -> NotificationFilter {
    NotificationFilter {
        enabled: true,
        ..NotificationFilter::default()
    }
}

fn running_focus(data: &mut AppData) {
    data.create_task("Focus on something", 1, 0);
    let id = data.tasks[0].id.clone();
    data.select_task(Some(id));
    data.start_or_resume(0);
    assert!(data.is_focus_running(0));
}

#[test]
fn defaults_match_the_product_contract() {
    let data = AppData::default();
    assert_eq!(data.settings.focus_minutes, 25);
    assert_eq!(data.settings.short_break_minutes, 5);
    assert_eq!(data.settings.long_break_minutes, 15);
    assert_eq!(data.settings.rounds_before_long_break, 4);
    assert!(data.settings.auto_start_breaks);
    assert!(!data.settings.auto_start_focus);
    assert_eq!(data.timer.duration_seconds, 1_500);
    assert_eq!(data.timer.remaining_seconds, 1_500);
}

// ---------------------------------------------------------------------------
// The timer.

#[test]
fn expiry_follows_four_focus_rounds_then_a_long_break() {
    let mut data = AppData::default();
    data.update_settings(one_minute_settings());
    let task = data.create_task("Write tests", 4, 0).unwrap();
    assert!(data.select_task(Some(task.id.clone())));

    let mut now = 0;
    for completed_focuses in 1..=4 {
        assert_eq!(data.timer.phase, Phase::Focus);
        assert_eq!(data.timer.status, TimerStatus::Idle);
        assert!(data.start_or_resume(now));
        now += 60_000;
        assert_eq!(data.tick(now), Some(Phase::Focus));
        assert_eq!(data.timer.completed_in_cycle, completed_focuses);
        assert_eq!(data.tasks[0].completed_pomodoros, completed_focuses);

        let expected_break = if completed_focuses == 4 {
            Phase::LongBreak
        } else {
            Phase::ShortBreak
        };
        assert_eq!(data.timer.phase, expected_break);
        assert_eq!(data.timer.status, TimerStatus::Running);

        now += 60_000;
        assert_eq!(data.tick(now), Some(expected_break));
        assert_eq!(data.timer.phase, Phase::Focus);
        assert_eq!(data.timer.status, TimerStatus::Idle);
    }

    assert_eq!(data.timer.completed_in_cycle, 0);
    assert_eq!(data.sessions.len(), 8);
    assert!(data
        .sessions
        .iter()
        .all(|session| session.outcome == SessionOutcome::Completed));
}

#[test]
fn pause_preserves_displayed_seconds_and_resume_uses_a_new_deadline() {
    let mut data = AppData::default();
    data.update_settings(one_minute_settings());
    assert!(data.start_or_resume(1_000));

    assert!(data.pause(13_345));
    assert_eq!(data.timer.status, TimerStatus::Paused);
    assert_eq!(data.timer.remaining_seconds, 48);
    assert_eq!(data.timer.ends_at, None);
    assert_eq!(data.snapshot(50_000).timer.remaining_seconds, 48);

    assert!(data.start_or_resume(50_000));
    assert_eq!(data.timer.ends_at, Some(98_000));
    assert_eq!(data.tick(97_999), None);
    assert_eq!(data.timer.remaining_seconds, 1);
    assert_eq!(data.tick(98_000), Some(Phase::Focus));
}

#[test]
fn quitting_as_a_focus_runs_out_completes_it_but_starts_no_break() {
    let mut data = AppData::default();
    data.update_settings(one_minute_settings());
    assert!(data.settings.auto_start_breaks);
    data.start_or_resume(0);

    data.pause_to_quit(60_010);
    assert_eq!(data.timer.phase, Phase::ShortBreak);
    assert_eq!(data.timer.status, TimerStatus::Idle);
    assert_eq!(data.timer.completed_in_cycle, 1);
    assert_eq!(data.sessions.len(), 1);
    assert_eq!(data.sessions[0].phase, Phase::Focus);
    assert_eq!(data.sessions[0].outcome, SessionOutcome::Completed);

    assert!(!data.recover_at_launch(660_010));
    assert_eq!(data.sessions.len(), 1);
    assert_eq!(data.timer.status, TimerStatus::Idle);
}

#[test]
fn quitting_before_the_deadline_pauses_what_is_left() {
    let mut data = AppData::default();
    data.update_settings(one_minute_settings());
    data.start_or_resume(0);

    data.pause_to_quit(20_000);
    assert_eq!(data.timer.phase, Phase::Focus);
    assert_eq!(data.timer.status, TimerStatus::Paused);
    assert_eq!(data.timer.remaining_seconds, 40);
    assert!(data.sessions.is_empty());
}

#[test]
fn skipping_focus_records_the_skip_but_never_awards_focus_credit() {
    let mut data = AppData::default();
    data.update_settings(one_minute_settings());
    let task = data.create_task("Ship feature", 2, 10).unwrap();
    data.select_task(Some(task.id));
    data.start_or_resume(100);

    assert_eq!(data.skip(30_100), Phase::ShortBreak);
    assert_eq!(data.timer.completed_in_cycle, 0);
    assert_eq!(data.tasks[0].completed_pomodoros, 0);
    assert_eq!(data.sessions.len(), 1);
    assert_eq!(data.sessions[0].outcome, SessionOutcome::Skipped);
    assert_eq!(data.sessions[0].duration_seconds, 30);
    assert_eq!(data.timer.status, TimerStatus::Running);
}

#[test]
fn ticking_an_expired_phase_is_idempotent() {
    let mut data = AppData::default();
    data.update_settings(one_minute_settings());
    data.start_or_resume(0);

    assert_eq!(data.tick(60_000), Some(Phase::Focus));
    let after_first_tick = data.clone();
    assert_eq!(data.tick(60_000), None);
    assert_eq!(data, after_first_tick);
    assert_eq!(data.sessions.len(), 1);
    assert_eq!(data.timer.completed_in_cycle, 1);
}

#[test]
fn settings_only_resize_idle_and_future_phases() {
    let mut data = AppData::default();
    data.start_or_resume(0);

    let mut changed = data.settings.clone();
    changed.focus_minutes = 45;
    changed.short_break_minutes = 9;
    data.update_settings(changed.clone());
    assert_eq!(data.timer.duration_seconds, 1_500);

    data.pause(10_000);
    changed.focus_minutes = 40;
    data.update_settings(changed.clone());
    assert_eq!(data.timer.duration_seconds, 1_500);

    data.skip(20_000);
    assert_eq!(data.timer.phase, Phase::ShortBreak);
    assert_eq!(data.timer.status, TimerStatus::Running);
    assert_eq!(data.timer.duration_seconds, 9 * 60);

    changed.short_break_minutes = 7;
    data.update_settings(changed);
    assert_eq!(data.timer.duration_seconds, 9 * 60);

    data.tick(20_000 + 9 * 60 * 1_000);
    assert_eq!(data.timer.phase, Phase::Focus);
    assert_eq!(data.timer.status, TimerStatus::Idle);
    assert_eq!(data.timer.duration_seconds, 40 * 60);

    let mut final_settings = data.settings.clone();
    final_settings.focus_minutes = 35;
    data.update_settings(final_settings);
    assert_eq!(data.timer.duration_seconds, 35 * 60);
    assert_eq!(data.timer.remaining_seconds, 35 * 60);
}

#[test]
fn completed_active_task_keeps_attribution_then_clears_before_next_focus() {
    let mut data = AppData::default();
    let mut settings = one_minute_settings();
    settings.auto_start_focus = true;
    data.update_settings(settings);
    let task = data.create_task("Finish early", 1, 0).unwrap();
    data.select_task(Some(task.id.clone()));
    data.start_or_resume(0);

    assert!(data.set_task_done(&task.id, true, 1_000));
    assert_eq!(data.timer.active_task_id.as_deref(), Some(task.id.as_str()));
    assert_eq!(data.tick(60_000), Some(Phase::Focus));
    assert_eq!(data.sessions[0].task_id.as_deref(), Some(task.id.as_str()));
    assert_eq!(data.sessions[0].task_title.as_deref(), Some("Finish early"));
    assert_eq!(data.tasks[0].completed_pomodoros, 1);

    assert_eq!(data.tick(120_000), Some(Phase::ShortBreak));
    assert_eq!(data.timer.phase, Phase::Focus);
    assert_eq!(data.timer.status, TimerStatus::Idle);
    assert_eq!(data.timer.active_task_id, None);
}

#[test]
fn a_focus_interval_that_ran_out_is_no_longer_focus() {
    let mut data = AppData::default();
    data.settings.notification_filter = capturing_filter();
    running_focus(&mut data);
    let expires_at = data.timer.ends_at.expect("a running timer has a deadline");

    assert!(data.is_focus_running(expires_at - 1));
    assert!(!data.is_focus_running(expires_at));
    assert!(!data.is_focus_running(expires_at + 5_000));

    let late = data
        .capture_notification("Slack", "Standup", "Now", 1, expires_at + 100)
        .expect("the notification is still captured");
    assert!(!late.during_focus);
    assert_eq!(data.timer.status, TimerStatus::Running);
    assert_eq!(data.timer.phase, Phase::Focus);
}

#[test]
fn a_completion_noticed_late_is_recorded_as_ending_at_its_deadline() {
    let mut data = AppData::default();
    data.update_settings(one_minute_settings());
    data.start_or_resume(1_000);

    let noticed = 1_000 + 3 * 60 * 60 * 1_000;
    assert_eq!(data.tick(noticed), Some(Phase::Focus));
    let session = &data.sessions[0];
    assert_eq!(session.outcome, SessionOutcome::Completed);
    assert_eq!(session.started_at, 1_000);
    assert_eq!(session.ended_at, 61_000);
    assert_eq!(session.duration_seconds, 60);
    assert_eq!(data.timer.started_at, Some(noticed));

    let mut paused = AppData::default();
    paused.update_settings(one_minute_settings());
    paused.start_or_resume(0);
    paused.pause(30_000);
    paused.start_or_resume(100_000);
    assert_eq!(paused.tick(500_000), Some(Phase::Focus));
    assert_eq!(paused.sessions[0].started_at, 0);
    assert_eq!(paused.sessions[0].ended_at, 130_000);

    let mut skewed = AppData::default();
    skewed.update_settings(one_minute_settings());
    skewed.start_or_resume(100_000);
    skewed.timer.ends_at = Some(90_000);
    assert_eq!(skewed.tick(95_000), Some(Phase::Focus));
    assert_eq!(skewed.sessions[0].ended_at, 90_000);
    assert!(skewed.sessions[0].started_at <= skewed.sessions[0].ended_at);

    let mut skipped = AppData::default();
    skipped.update_settings(one_minute_settings());
    skipped.start_or_resume(0);
    skipped.skip(20_000);
    assert_eq!(skipped.sessions[0].ended_at, 20_000);
    let mut abandoned = AppData::default();
    abandoned.update_settings(one_minute_settings());
    abandoned.start_or_resume(0);
    abandoned.reset(25_000);
    assert_eq!(abandoned.sessions[0].ended_at, 25_000);
}

#[test]
fn a_phase_that_ran_out_while_the_app_was_closed_is_settled_without_starting_the_next() {
    let mut data = AppData::default();
    assert!(data.settings.auto_start_breaks);
    running_focus(&mut data);
    let deadline = data.timer.ends_at.unwrap();
    let next_morning = deadline + 12 * 60 * 60 * 1_000;

    assert!(data.recover_at_launch(next_morning));
    assert_eq!(data.sessions.len(), 1);
    assert_eq!(data.sessions[0].outcome, SessionOutcome::Completed);
    assert_eq!(data.sessions[0].ended_at, deadline);
    assert_eq!(data.tasks[0].completed_pomodoros, 1);
    assert_eq!(data.timer.completed_in_cycle, 1);
    assert_eq!(data.timer.phase, Phase::ShortBreak);
    assert_eq!(data.timer.status, TimerStatus::Idle);
    assert_eq!(data.timer.started_at, None);
    assert_eq!(data.timer.ends_at, None);

    assert!(!data.recover_at_launch(next_morning));
    assert_eq!(data.tick(next_morning), None);
    assert_eq!(data.sessions.len(), 1);

    let mut from_break = AppData::default();
    from_break.settings.auto_start_focus = true;
    let task = from_break.create_task("Carry on", 1, 0).unwrap();
    from_break.select_task(Some(task.id));
    from_break.set_phase(Phase::ShortBreak, 0);
    from_break.start_or_resume(0);
    assert!(from_break.recover_at_launch(next_morning));
    assert_eq!(from_break.timer.phase, Phase::Focus);
    assert_eq!(from_break.timer.status, TimerStatus::Idle);
}

#[test]
fn launch_leaves_alone_a_timer_that_is_not_due_or_not_running() {
    let mut running = AppData::default();
    running_focus(&mut running);
    let deadline = running.timer.ends_at;
    assert!(!running.recover_at_launch(10 * 60 * 1_000));
    assert_eq!(running.timer.status, TimerStatus::Running);
    assert_eq!(running.timer.ends_at, deadline);
    assert_eq!(running.timer.started_at, Some(0));
    assert!(running.sessions.is_empty());
    assert_eq!(
        running.snapshot(10 * 60 * 1_000).timer.remaining_seconds,
        900
    );

    let mut paused = AppData::default();
    running_focus(&mut paused);
    paused.pause(60_000);
    let before = paused.clone();
    assert!(!paused.recover_at_launch(i64::MAX / 2));
    assert_eq!(paused, before);

    let mut idle = AppData::default();
    let before = idle.clone();
    assert!(!idle.recover_at_launch(i64::MAX / 2));
    assert_eq!(idle, before);
}

#[test]
fn session_history_is_capped_and_the_snapshot_ships_only_the_recent_week() {
    let mut data = AppData::default();
    data.settings.notification_filter = capturing_filter();
    let day = 24 * 60 * 60 * 1_000;

    for index in 0..(SESSION_RETENTION as i64 + 25) {
        let now = index * day;
        data.set_phase(Phase::ShortBreak, now);
        data.start_or_resume(now);
        data.skip(now + 1_000);
    }
    assert_eq!(
        data.sessions.len(),
        SESSION_RETENTION,
        "the oldest are dropped"
    );
    assert_eq!(
        data.sessions[0].started_at,
        25 * day,
        "dropping happens at the old end, never the new one"
    );

    let latest = data.sessions.last().unwrap().started_at;
    let snapshot = data.snapshot(latest);
    assert!(
        snapshot.sessions.len() < 10,
        "got {}",
        snapshot.sessions.len()
    );
    assert!(snapshot
        .sessions
        .iter()
        .all(|session| session.started_at >= latest - SNAPSHOT_SESSION_WINDOW_MS));
    assert!(snapshot.sessions.contains(data.sessions.last().unwrap()));

    assert_eq!(snapshot.tasks, data.tasks);
    assert_eq!(snapshot.settings, data.settings);
    assert_eq!(snapshot.notifications, data.notifications);
    assert_eq!(snapshot.timer.status, data.timer.status);
    assert_eq!(data.sessions.len(), SESSION_RETENTION);
}

// ---------------------------------------------------------------------------
// Tasks and interruptions.

#[test]
fn task_and_interruption_crud_maintain_references() {
    let mut data = AppData::default();
    let task = data.create_task("  Read paper  ", 0, 7).unwrap();
    assert_eq!(task.title, "Read paper");
    assert_eq!(task.estimate, 1);
    assert!(data.select_task(Some(task.id.clone())));

    let interruption = data
        .capture_interruption("  Check email  ", InterruptionCategory::External, 8)
        .unwrap();
    assert_eq!(interruption.task_id.as_deref(), Some(task.id.as_str()));
    assert!(data.handle_interruption(&interruption.id));
    assert!(data.interruptions[0].handled);

    assert!(data.delete_task(&task.id));
    assert_eq!(data.timer.active_task_id, None);
    assert_eq!(data.interruptions[0].task_id, None);
    assert!(data.delete_interruption(&interruption.id));
    assert!(data.interruptions.is_empty());
}

#[test]
fn turning_an_interruption_into_a_task_twice_makes_one_task() {
    let mut data = AppData::default();
    let captured = data
        .capture_interruption("Check the deploy", InterruptionCategory::Internal, 10)
        .unwrap();

    let first = data
        .convert_interruption_to_task(&captured.id, 20)
        .expect("the first conversion creates a task");
    let second = data
        .convert_interruption_to_task(&captured.id, 30)
        .expect("the second returns the task the first made");

    assert_eq!(first, second);
    assert_eq!(data.tasks.len(), 1);
    assert_eq!(
        data.interruptions[0].converted_task_id.as_deref(),
        Some(first.as_str())
    );
    assert_eq!(data.interruptions[0].task_id, None);
    assert!(data.interruptions[0].handled);

    assert!(data
        .convert_interruption_to_task("interruption-missing", 40)
        .is_none());
}

#[test]
fn an_interruption_captured_during_a_task_still_becomes_its_own_task() {
    let mut data = AppData::default();
    running_focus(&mut data);
    let active = data.tasks[0].id.clone();
    let captured = data
        .capture_interruption("Renew the certificate", InterruptionCategory::Internal, 10)
        .unwrap();
    assert_eq!(captured.task_id.as_deref(), Some(active.as_str()));
    assert_eq!(captured.converted_task_id, None);

    let first = data
        .convert_interruption_to_task(&captured.id, 20)
        .expect("the conversion creates a task");
    assert_ne!(first, active, "the active task is not the conversion");
    assert_eq!(data.tasks.len(), 2);
    assert_eq!(data.tasks[1].id, first);
    assert_eq!(data.tasks[1].title, "Renew the certificate");
    assert!(data.interruptions[0].handled);
    assert_eq!(
        data.interruptions[0].task_id.as_deref(),
        Some(active.as_str())
    );
    assert_eq!(
        data.interruptions[0].converted_task_id.as_deref(),
        Some(first.as_str())
    );

    let second = data
        .convert_interruption_to_task(&captured.id, 30)
        .expect("the second returns the task the first made");
    assert_eq!(second, first);
    assert_eq!(data.tasks.len(), 2);

    assert!(data.delete_task(&first));
    assert_eq!(data.interruptions[0].converted_task_id, None);
    assert_eq!(
        data.interruptions[0].task_id.as_deref(),
        Some(active.as_str())
    );
    let third = data
        .convert_interruption_to_task(&captured.id, 40)
        .expect("a released interruption converts again");
    assert_eq!(data.tasks.len(), 2);
    assert_eq!(data.tasks[1].id, third);
}

#[test]
fn same_millisecond_task_burst_keeps_two_thousand_ids_unique() {
    let mut data = AppData::default();
    let mut ids = HashSet::new();

    for index in 0..2_000 {
        let task = data
            .create_task(&format!("Queued task {index}"), 1, 42)
            .expect("every non-empty task is accepted");
        assert!(ids.insert(task.id), "a burst reused a task id");
    }

    assert_eq!(data.tasks.len(), 2_000);
    assert_eq!(ids.len(), 2_000);
}

#[test]
fn a_timer_paused_at_quit_completes_nothing_however_late_the_relaunch() {
    let mut data = AppData::default();
    running_focus(&mut data);
    assert!(data.pause(5 * 60 * 1_000));

    // What the store keeps of it, as a relaunch would find it: every field
    // the timer and the lists hold.
    let mut relaunched = data.clone();
    let next_morning = 16 * 60 * 60 * 1_000;

    assert!(!relaunched.recover_at_launch(next_morning));
    assert_eq!(relaunched.tick(next_morning), None);
    assert!(relaunched.sessions.is_empty());
    assert_eq!(relaunched.tasks[0].completed_pomodoros, 0);
    assert_eq!(relaunched.timer.status, TimerStatus::Paused);
    assert_eq!(relaunched.timer.phase, Phase::Focus);
    assert_eq!(relaunched.timer.remaining_seconds, 20 * 60);
    assert_eq!(
        relaunched.snapshot(next_morning).timer.remaining_seconds,
        20 * 60
    );
}

#[test]
fn sanitizing_settings_twice_changes_nothing() {
    let wild = Settings {
        focus_minutes: 0,
        short_break_minutes: 5_000,
        rounds_before_long_break: 99,
        notification_filter: NotificationFilter {
            min_urgency: 7,
            muted_apps: vec!["  Slack ".into(), "slack".into(), "".into(), "Mail".into()],
            priority_apps: vec![" Phone".into(), "PHONE ".into()],
            ..NotificationFilter::default()
        },
        ..Settings::default()
    };
    let once = wild.sanitized();
    assert_eq!(once.focus_minutes, 1);
    assert_eq!(once.notification_filter.muted_apps, vec!["Slack", "Mail"]);
    assert_eq!(once.notification_filter.priority_apps, vec!["Phone"]);
    assert_eq!(once.clone().sanitized(), once);
}
