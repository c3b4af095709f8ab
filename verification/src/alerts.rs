//! The wording of desktop banners and the independent task alert preferences.

use crate::domain::{AppData, Phase};
use crate::text::{int_text, signed_decimal, trim, trimmed};
use vstd::prelude::*;

verus! {

/// What toggling a task sets off besides the change itself.
#[derive(Clone, Copy, Debug, PartialEq, Eq, Structural)]
pub struct TaskAlert {
    pub sound: bool,
    pub notify: bool,
}

/// Only finishing a task is an occasion, and each alert then follows its own
/// setting and nothing else.
pub fn task_alert(was_done: bool, now_done: bool, sound: bool, notifications: bool) -> (r:
    TaskAlert)
    ensures
        r.sound == (!was_done && now_done && sound),
        r.notify == (!was_done && now_done && notifications),
{
    let finished = !was_done && now_done;
    TaskAlert { sound: finished && sound, notify: finished && notifications }
}

/// The longest title a "task complete" line shows whole.
pub const MOST_TITLE_CHARS: usize = 80;

/// The title as shown: trimmed, and cut to 79 characters and an ellipsis
/// when it is longer than 80.
pub open spec fn shown_title(title: Seq<char>) -> Seq<char> {
    let t = trimmed(title);
    if t.len() > MOST_TITLE_CHARS {
        t.take(MOST_TITLE_CHARS - 1) + seq!['\u{2026}']
    } else {
        t
    }
}

/// The one line a "task complete" notification carries.
pub open spec fn task_summary_text(title: Seq<char>) -> Seq<char> {
    let shown = shown_title(title);
    if shown.len() == 0 {
        "Task complete"@
    } else {
        "Task complete: "@ + shown
    }
}

/// The one line a "task complete" notification carries: the task's title,
/// cut short if it would not fit a banner, and never empty.
pub fn task_complete_summary(title: &str) -> (r: String)
    ensures
        r@ == task_summary_text(title@),
{
    let t = trim(title);
    let n = t.unicode_len();
    let mut shown: String = if n > MOST_TITLE_CHARS {
        let mut cut = t.substring_char(0, MOST_TITLE_CHARS - 1).to_owned();
        let ellipsis = "\u{2026}";
        proof {
            reveal_strlit("\u{2026}");
        }
        cut.append(ellipsis);
        cut
    } else {
        assert(t@.subrange(0, n as int) =~= t@);
        t.to_owned()
    };
    assert(shown@ =~= shown_title(title@));
    if n == 0 {
        return "Task complete".to_owned();
    }
    let mut line = "Task complete: ".to_owned();
    line.append(shown.as_str());
    line
}

/// How many rounds a finished cycle is spoken of.
pub open spec fn rounds_text(count: u32) -> Seq<char> {
    if count == 1 {
        "a round"@
    } else {
        signed_decimal(count as int) + " rounds"@
    }
}

/// The title and text of the banner for the end of `completed`, given the
/// state that followed it.
pub open spec fn banner_text(completed: Phase, next_phase: Phase, completed_in_cycle: u32) -> (
    Seq<char>,
    Seq<char>,
) {
    match completed {
        Phase::Focus => match next_phase {
            Phase::LongBreak => (
                "Focus cycle complete"@,
                "You finished "@ + rounds_text(completed_in_cycle)
                    + ". Take a restorative long break."@,
            ),
            _ => ("Focus complete"@, "Step away for a short break."@),
        },
        _ => ("Break complete"@, "Choose one task when you are ready to focus again."@),
    }
}

/// The title and text of the banner for the end of `completed`. The count of
/// rounds is the one actually finished.
pub fn boundary_banner(completed: Phase, snapshot: &AppData) -> (r: (&'static str, String))
    ensures
        (r.0@, r.1@) == banner_text(
            completed,
            snapshot.timer.phase,
            snapshot.timer.completed_in_cycle,
        ),
{
    match completed {
        Phase::Focus => match snapshot.timer.phase {
            Phase::LongBreak => {
                let rounds = match snapshot.timer.completed_in_cycle {
                    1 => "a round".to_owned(),
                    count => {
                        let mut text = int_text(count as i128);
                        text.append(" rounds");
                        text
                    },
                };
                let mut body = "You finished ".to_owned();
                body.append(rounds.as_str());
                body.append(". Take a restorative long break.");
                ("Focus cycle complete", body)
            },
            _ => ("Focus complete", "Step away for a short break.".to_owned()),
        },
        Phase::ShortBreak | Phase::LongBreak => (
            "Break complete",
            "Choose one task when you are ready to focus again.".to_owned(),
        ),
    }
}

} // verus!
