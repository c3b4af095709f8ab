use pomodoro::sound::{
    admission_for, file_candidates, play_by_stages, theme_candidate, walk_step, Admission,
    Candidate, Cue, Outcome, PlayerEnd, SoundSlot, Walk,
};
use std::cell::RefCell;

/// Every way of playing one cue's own id, in the order they are tried.
fn candidates(cue: Cue, file: Option<&str>) -> Vec<Candidate> {
    let mut list = vec![theme_candidate(cue.event_id(), cue.description())];
    list.extend(file.into_iter().flat_map(file_candidates));
    list
}

fn shown(candidate: &Candidate) -> Vec<String> {
    std::iter::once(candidate.program.to_string())
        .chain(candidate.args.iter().cloned())
        .collect()
}

/// Runs the stages against a script of answers, recording what was asked.
fn staged(cue: Cue, files: &[(&str, &str)], answers: &[Walk]) -> (Outcome, Vec<String>) {
    let asked = RefCell::new(Vec::new());
    let mut answers = answers.iter();
    let outcome = play_by_stages(
        cue,
        |event_id: &str| {
            asked.borrow_mut().push(format!("find {event_id}"));
            files
                .iter()
                .find(|(id, _)| *id == event_id)
                .map(|(_, path)| path.to_string())
        },
        |candidates: &[Candidate]| {
            asked.borrow_mut().push(format!(
                "run {} {}",
                candidates[0].program,
                candidates[0].args.last().unwrap()
            ));
            *answers.next().expect("more stages were run than expected")
        },
    );
    (outcome, asked.into_inner())
}

#[test]
fn each_cue_has_its_theme_id_and_a_description() {
    assert_eq!(Cue::IntervalFinished.event_id(), "alarm-clock-elapsed");
    assert_eq!(Cue::TaskDone.event_id(), "complete");
    assert_eq!(Cue::IntervalFinished.description(), "Interval finished");
    assert_eq!(Cue::TaskDone.description(), "Task complete");
}

#[test]
fn an_interval_may_borrow_the_chime_but_a_task_has_only_its_own() {
    assert_eq!(
        Cue::IntervalFinished.event_ids(),
        vec!["alarm-clock-elapsed", "complete"]
    );
    assert_eq!(Cue::TaskDone.event_ids(), vec!["complete"]);
    assert_eq!(Cue::IntervalFinished.event_count(), 2);
}

#[test]
fn the_theme_player_is_tried_first_then_the_file_players_in_order() {
    let file = "/usr/share/sounds/freedesktop/stereo/alarm-clock-elapsed.oga";
    let list = candidates(Cue::IntervalFinished, Some(file));
    let list: Vec<Vec<String>> = list.iter().map(shown).collect();
    assert_eq!(
        list,
        [
            vec![
                "canberra-gtk-play",
                "-i",
                "alarm-clock-elapsed",
                "-d",
                "Interval finished",
                "--property=canberra.enable=1",
            ],
            vec!["pw-play", "--media-role=Notification", file],
            vec!["paplay", file],
            vec!["gst-play-1.0", "--no-interactive", "-q", file],
        ]
    );
}

#[test]
fn with_no_file_found_only_the_theme_player_is_tried() {
    let list = candidates(Cue::TaskDone, None);
    assert_eq!(list.len(), 1);
    assert_eq!(
        shown(&list[0]),
        [
            "canberra-gtk-play",
            "-i",
            "complete",
            "-d",
            "Task complete",
            "--property=canberra.enable=1",
        ]
    );
}

#[test]
fn the_theme_is_not_searched_by_hand_when_the_theme_player_works() {
    let (outcome, asked) = staged(Cue::IntervalFinished, &[], &[Walk::Played(0)]);
    assert_eq!(outcome, Outcome::Played);
    assert_eq!(
        asked,
        ["run canberra-gtk-play --property=canberra.enable=1"]
    );
}

#[test]
fn an_interval_with_no_alarm_sound_asks_the_theme_player_for_the_chime_too() {
    let (outcome, asked) = staged(
        Cue::IntervalFinished,
        &[],
        &[Walk::NoneWorked, Walk::Played(0)],
    );
    assert_eq!(outcome, Outcome::Played);
    assert_eq!(
        asked,
        [
            "run canberra-gtk-play --property=canberra.enable=1",
            "find alarm-clock-elapsed",
            "run canberra-gtk-play --property=canberra.enable=1",
        ]
    );
}

#[test]
fn the_alarm_by_any_route_comes_before_the_chime_by_any_route() {
    let alarm = "/usr/share/sounds/freedesktop/stereo/alarm-clock-elapsed.oga";
    let chime = "/usr/share/sounds/Yaru/stereo/complete.oga";
    let (outcome, asked) = staged(
        Cue::IntervalFinished,
        &[("alarm-clock-elapsed", alarm), ("complete", chime)],
        &[Walk::NoneWorked; 4],
    );
    assert_eq!(outcome, Outcome::NoneWorked);
    assert_eq!(
        asked,
        [
            "run canberra-gtk-play --property=canberra.enable=1".to_string(),
            "find alarm-clock-elapsed".to_string(),
            format!("run pw-play {alarm}"),
            "run canberra-gtk-play --property=canberra.enable=1".to_string(),
            "find complete".to_string(),
            format!("run pw-play {chime}"),
        ]
    );

    let (outcome, asked) = staged(Cue::TaskDone, &[], &[Walk::NoneWorked]);
    assert_eq!(outcome, Outcome::NoneWorked);
    assert_eq!(
        asked.len(),
        2,
        "its own id by both routes, and nothing more"
    );
}

#[test]
fn a_route_that_hangs_ends_the_whole_attempt() {
    let (outcome, asked) = staged(Cue::IntervalFinished, &[], &[Walk::TimedOut(0)]);
    assert_eq!(outcome, Outcome::TimedOut);
    assert_eq!(asked.len(), 1, "the sound may already have been heard");
}

#[test]
fn the_alarm_waits_behind_a_lesser_sound_and_everything_else_mid_sound_is_dropped() {
    let (start, wait, drop) = (Admission::Start, Admission::Wait, Admission::Drop);
    let (alarm, chime) = (Cue::IntervalFinished, Cue::TaskDone);

    assert_eq!(admission_for(None, false, alarm), start);
    assert_eq!(admission_for(None, false, chime), start);
    assert_eq!(admission_for(Some(chime), false, alarm), wait);
    assert_eq!(
        admission_for(Some(chime), true, alarm),
        drop,
        "one alarm waiting is enough"
    );
    assert_eq!(admission_for(Some(alarm), false, alarm), drop);
    assert_eq!(admission_for(Some(alarm), false, chime), drop);
    assert_eq!(admission_for(Some(chime), false, chime), drop);
}

#[test]
fn a_failed_file_route_moves_on_and_a_hung_one_stops() {
    let file = "/usr/share/sounds/freedesktop/stereo/complete.oga";
    let (outcome, asked) = staged(
        Cue::TaskDone,
        &[("complete", file)],
        &[Walk::NoneWorked, Walk::TimedOut(2)],
    );
    assert_eq!(outcome, Outcome::TimedOut);
    assert_eq!(asked.len(), 3);
}

#[test]
fn a_walk_passes_the_turn_on_failure_and_stops_on_success_or_a_hang() {
    assert_eq!(walk_step(0, PlayerEnd::NotStarted), None);
    assert_eq!(walk_step(1, PlayerEnd::Exited(false)), None);
    assert_eq!(walk_step(1, PlayerEnd::Exited(true)), Some(Walk::Played(1)));
    assert_eq!(walk_step(2, PlayerEnd::Killed), Some(Walk::TimedOut(2)));
}

#[test]
fn an_alarm_admitted_mid_chime_plays_next() {
    let mut slot = SoundSlot::new();
    assert_eq!(slot.request(Cue::TaskDone), Admission::Start);
    assert_eq!(slot.request(Cue::IntervalFinished), Admission::Wait);
    assert_eq!(slot.request(Cue::IntervalFinished), Admission::Drop);
    assert_eq!(slot.finished(), Some(Cue::IntervalFinished));
    assert_eq!(slot.playing, Some(Cue::IntervalFinished));
    assert_eq!(slot.finished(), None);
    assert_eq!(slot.playing, None);
    assert_eq!(slot.request(Cue::TaskDone), Admission::Start);
    assert_eq!(slot.request(Cue::IntervalFinished), Admission::Wait);
    assert!(slot.abandon());
    assert_eq!(slot.playing, None);
    assert_eq!(slot.waiting, None);
}
