use pomodoro::domain::{AppData, Phase, TimerStatus};
use pomodoro::runtime::{
    banner_action, dirty_mark, flush_due, may_silence, retry_mark, wait_for, BannerAction,
    IDLE_WAKE_MS, NOTIFICATION_FLUSH_MS, RUNNING_WAKE_MS, SAVE_RETRY_MS,
};

#[test]
fn the_wait_is_the_nearest_thing_that_needs_doing() {
    let now = 1_000_000;
    assert_eq!(wait_for(None, 0, now), IDLE_WAKE_MS);
    assert_eq!(wait_for(Some(now + 400), 0, now), 400);
    assert_eq!(wait_for(Some(now + 60_000), 0, now), RUNNING_WAKE_MS);
    assert_eq!(wait_for(Some(now - 5), 0, now), 0);
    // A notification filed half a second ago is written in a second and a
    // half.
    assert_eq!(wait_for(None, now - 500, now), 1_500);
    assert_eq!(wait_for(None, now - 10_000, now), 0);

    // After a failed save the next attempt is a retry away — not zero.
    let retry = SAVE_RETRY_MS as u64;
    assert_eq!(wait_for(None, retry_mark(now), now), retry.min(IDLE_WAKE_MS));
    assert_eq!(
        wait_for(None, retry_mark(now), now + 10_000),
        SAVE_RETRY_MS as u64 - 10_000
    );
    assert_ne!(
        retry_mark(-SAVE_RETRY_MS),
        0,
        "0 would mean nothing to save"
    );
}

#[test]
fn nothing_silences_the_desktop_once_shutdown_has_begun() {
    assert!(may_silence(true, false));
    assert!(!may_silence(true, true));
    assert!(!may_silence(false, false));
    assert!(!may_silence(false, true));
}

#[test]
fn the_first_waiting_change_decides_when_the_write_is_due() {
    assert_eq!(dirty_mark(0, 5_000), 5_000);
    assert_eq!(dirty_mark(5_000, 6_000), 5_000);
    assert_eq!(dirty_mark(0, 0), 1);
    assert_eq!(dirty_mark(0, -7), 1);
    assert!(!flush_due(0, 10_000, true));
    assert!(flush_due(1_000, 1_000, true));
    assert!(!flush_due(1_000, 1_000 + NOTIFICATION_FLUSH_MS - 1, false));
    assert!(flush_due(1_000, 1_000 + NOTIFICATION_FLUSH_MS, false));
    // A retry mark is in the future, so the flush is not due before it.
    let now = 50_000;
    assert!(!flush_due(retry_mark(now), now + 1_000, false));
    assert!(flush_due(retry_mark(now), now + SAVE_RETRY_MS, false));
}

#[test]
fn banners_are_silenced_only_when_not_already_ours_and_restored_once() {
    assert_eq!(banner_action(true, None), BannerAction::Silence);
    assert_eq!(banner_action(true, Some(true)), BannerAction::Keep);
    assert_eq!(banner_action(false, Some(true)), BannerAction::Restore(true));
    assert_eq!(banner_action(false, None), BannerAction::Keep);
}

#[test]
fn quiet_is_wanted_only_while_a_focus_counts_down() {
    let mut data = AppData::default();
    data.settings.silence_banners_during_focus = true;
    assert!(!data.wants_quiet(0, false));
    data.create_task("Write", 1, 0);
    let id = data.tasks[0].id.clone();
    data.select_task(Some(id));
    data.start_or_resume(0);
    assert_eq!(data.timer.phase, Phase::Focus);
    assert_eq!(data.timer.status, TimerStatus::Running);
    assert!(data.wants_quiet(1_000, false));
    assert!(!data.wants_quiet(1_000, true));
    let deadline = data.timer.ends_at.unwrap();
    assert!(!data.wants_quiet(deadline, false));
    data.settings.silence_banners_during_focus = false;
    assert!(!data.wants_quiet(1_000, false));
}
