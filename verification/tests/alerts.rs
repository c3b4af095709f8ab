use pomodoro::alerts::{boundary_banner, task_alert, task_complete_summary, TaskAlert};
use pomodoro::domain::{AppData, Phase};

fn at_long_break(rounds: u32) -> AppData {
    let mut data = AppData::default();
    data.timer.phase = Phase::LongBreak;
    data.timer.completed_in_cycle = rounds;
    data
}

#[test]
fn the_long_break_banner_counts_the_rounds_actually_finished() {
    assert_eq!(
        boundary_banner(Phase::Focus, &at_long_break(2)).1,
        "You finished 2 rounds. Take a restorative long break."
    );
    assert_eq!(
        boundary_banner(Phase::Focus, &at_long_break(1)).1,
        "You finished a round. Take a restorative long break."
    );
    assert_eq!(
        boundary_banner(Phase::Focus, &AppData::default()),
        ("Focus complete", "Step away for a short break.".to_string())
    );
}

#[test]
fn a_task_complete_notification_names_the_task_in_its_summary() {
    assert_eq!(
        task_complete_summary("  Fix a<b && c>d  "),
        "Task complete: Fix a<b && c>d"
    );
    assert_eq!(task_complete_summary("   "), "Task complete");
    let long = "x".repeat(200);
    let summary = task_complete_summary(&long);
    assert!(summary.ends_with('…'));
    assert!(summary.chars().count() <= "Task complete: ".len() + 80);
}

#[test]
fn finishing_a_task_alerts_and_reopening_one_does_not() {
    let alert = |sound, notify| TaskAlert { sound, notify };
    assert_eq!(task_alert(false, true, true, true), alert(true, true));
    assert_eq!(task_alert(false, true, true, false), alert(true, false));
    assert_eq!(task_alert(false, true, false, true), alert(false, true));
    assert_eq!(task_alert(false, true, false, false), alert(false, false));
    assert_eq!(task_alert(true, false, true, true), alert(false, false));
    assert_eq!(task_alert(true, true, true, true), alert(false, false));
    assert_eq!(task_alert(false, false, true, true), alert(false, false));
}

#[test]
fn each_boundary_has_its_banner() {
    let data = AppData::default();
    assert_eq!(boundary_banner(Phase::ShortBreak, &data).0, "Break complete");
    assert_eq!(boundary_banner(Phase::LongBreak, &data).0, "Break complete");
    let mut breaking = AppData::default();
    breaking.timer.phase = Phase::ShortBreak;
    assert_eq!(boundary_banner(Phase::Focus, &breaking).1, "Step away for a short break.");
}
