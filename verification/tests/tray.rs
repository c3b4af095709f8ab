use pomodoro::domain::{Phase, TimerStatus};
use pomodoro::tray::{toggle_label, toggle_label_index, toggle_label_text, TOGGLE_LABEL_COUNT};

#[test]
fn the_tray_item_names_what_a_click_will_do() {
    assert_eq!(toggle_label(TimerStatus::Running, Phase::Focus), "Pause");
    assert_eq!(
        toggle_label(TimerStatus::Running, Phase::ShortBreak),
        "Pause"
    );
    assert_eq!(toggle_label(TimerStatus::Paused, Phase::Focus), "Resume");
    assert_eq!(toggle_label(TimerStatus::Idle, Phase::Focus), "Start focus");
    assert_eq!(
        toggle_label(TimerStatus::Idle, Phase::ShortBreak),
        "Start break"
    );
    assert_eq!(
        toggle_label(TimerStatus::Idle, Phase::LongBreak),
        "Start break"
    );
}

#[test]
fn every_label_index_has_its_text() {
    let labels: Vec<&str> = (0..TOGGLE_LABEL_COUNT).map(toggle_label_text).collect();
    assert_eq!(labels, ["Start focus", "Start break", "Pause", "Resume"]);
    assert_eq!(toggle_label_index(TimerStatus::Paused, Phase::LongBreak), 3);
    assert_eq!(toggle_label_index(TimerStatus::Running, Phase::LongBreak), 2);
}
