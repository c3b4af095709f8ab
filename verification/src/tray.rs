//! What the tray's start/pause item says: what a click on it will do.

use crate::domain::{Phase, TimerStatus};
use vstd::prelude::*;

verus! {

/// How many labels the start/pause item can carry.
pub const TOGGLE_LABEL_COUNT: u8 = 4;

/// Which label the item carries: 0 start focus, 1 start break, 2 pause,
/// 3 resume.
pub open spec fn label_index(status: TimerStatus, phase: Phase) -> u8 {
    match status {
        TimerStatus::Idle => if phase == Phase::Focus {
            0
        } else {
            1
        },
        TimerStatus::Running => 2,
        TimerStatus::Paused => 3,
    }
}

/// The label for each index.
pub open spec fn label_text(index: u8) -> Seq<char> {
    if index == 0 {
        "Start focus"@
    } else if index == 1 {
        "Start break"@
    } else if index == 2 {
        "Pause"@
    } else {
        "Resume"@
    }
}

/// What the tray's start/pause item will do if clicked now; see
/// [`label_index`].
pub fn toggle_label_index(status: TimerStatus, phase: Phase) -> (r: u8)
    ensures
        r == label_index(status, phase),
        r < TOGGLE_LABEL_COUNT,
{
    match (status, phase) {
        (TimerStatus::Idle, Phase::Focus) => 0,
        (TimerStatus::Idle, Phase::ShortBreak) | (TimerStatus::Idle, Phase::LongBreak) => 1,
        (TimerStatus::Running, _) => 2,
        (TimerStatus::Paused, _) => 3,
    }
}

/// The label shown for an index; see [`label_text`].
pub fn toggle_label_text(index: u8) -> (r: &'static str)
    requires
        index < TOGGLE_LABEL_COUNT,
    ensures
        r@ == label_text(index),
{
    if index == 0 {
        "Start focus"
    } else if index == 1 {
        "Start break"
    } else if index == 2 {
        "Pause"
    } else {
        "Resume"
    }
}

/// The label the item carries for this timer.
pub fn toggle_label(status: TimerStatus, phase: Phase) -> (r: &'static str)
    ensures
        r@ == label_text(label_index(status, phase)),
{
    toggle_label_text(toggle_label_index(status, phase))
}

} // verus!
