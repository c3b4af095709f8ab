//! What each user command does to the state: the checks it makes before
//! touching anything, the message it refuses with, and the change it applies.
//!
//! Every command either succeeds with the change its contract names, or
//! refuses with its message and leaves the state exactly as it was.

use crate::alerts::{task_alert, TaskAlert};
use crate::domain::{
    has_open_task, interruption_ids, notification_ids, opt_text, position_of, task_ids, AppData,
    AppView, InterruptionCategory, Phase, TimerStatus,
};
use crate::text::trimmed;
use vstd::prelude::*;

verus! {

/// The estimate a task is given from the one asked for: 1 to 16 sessions.
pub open spec fn estimate_bound(estimate: u32) -> u32 {
    if estimate < 1 {
        1
    } else if estimate > 16 {
        16
    } else {
        estimate
    }
}

fn bounded_estimate(estimate: u32) -> (r: u32)
    ensures
        r == estimate_bound(estimate),
{
    if estimate < 1 {
        1
    } else if estimate > 16 {
        16
    } else {
        estimate
    }
}

/// Starts, pauses or resumes the timer. A focus cannot start without a task.
pub fn toggle_timer(data: &mut AppData, now_ms: i64) -> (r: Result<(), String>)
    ensures
        old(data)@.timer.status == TimerStatus::Running ==> r is Ok && final(data)@ == old(data)@.pause(now_ms).0,
        old(data)@.timer.status != TimerStatus::Running && old(data)@.timer.phase == Phase::Focus
            && old(data)@.timer.active_task_id is None ==> (r matches Err(m)
            && m@ == "Choose a task before starting a focus session."@) && final(data)@ == old(data)@,
        old(data)@.timer.status != TimerStatus::Running && !(old(data)@.timer.phase == Phase::Focus
            && old(data)@.timer.active_task_id is None) ==> r is Ok && final(data)@ == old(data)@.start_or_resume(now_ms).0,
{
    if data.timer.status == TimerStatus::Running {
        data.pause(now_ms);
        return Ok(());
    }
    if data.timer.phase == Phase::Focus && data.timer.active_task_id.is_none() {
        return Err("Choose a task before starting a focus session.".to_owned());
    }
    data.start_or_resume(now_ms);
    Ok(())
}

/// Changes the timer mode; only an idle timer may.
pub fn set_phase(data: &mut AppData, phase: Phase, now_ms: i64) -> (r: Result<(), String>)
    ensures
        match r {
            Ok(()) => old(data)@.timer.status == TimerStatus::Idle && final(data)@ == old(data)@.set_phase(phase, now_ms),
            Err(e) => old(data)@.timer.status != TimerStatus::Idle && e@
                == "Reset the current interval before changing timer mode."@ && final(data)@ == old(data)@,
        },
{
    if data.timer.status != TimerStatus::Idle {
        return Err("Reset the current interval before changing timer mode.".to_owned());
    }
    data.set_phase(phase, now_ms);
    Ok(())
}

/// A focus under way keeps its task.
pub open spec fn focus_under_way(s: AppView) -> bool {
    s.timer.phase == Phase::Focus && s.timer.status != TimerStatus::Idle
}

/// Selects the active task, or clears the selection.
pub fn select_task(data: &mut AppData, task_id: Option<String>) -> (r: Result<(), String>)
    ensures
        focus_under_way(old(data)@) ==> r is Err && r->Err_0@
            == "Finish or reset the current focus before switching tasks."@ && final(data)@ == old(data)@,
        !focus_under_way(old(data)@) && !old(data)@.select_task(opt_text(task_id)).1 ==> r is Err
            && r->Err_0@ == "That task is no longer available."@ && final(data)@ == old(data)@,
        !focus_under_way(old(data)@) && old(data)@.select_task(opt_text(task_id)).1 ==> r is Ok
            && final(data)@ == old(data)@.select_task(opt_text(task_id)).0,
{
    if data.timer.phase == Phase::Focus && data.timer.status != TimerStatus::Idle {
        return Err("Finish or reset the current focus before switching tasks.".to_owned());
    }
    if !data.select_task(task_id) {
        return Err("That task is no longer available.".to_owned());
    }
    Ok(())
}

/// What adding a task does: the task is made with its estimate bounded to
/// 1..=16, and becomes the active one when an idle focus has none.
pub open spec fn added(s: AppView, title: Seq<char>, estimate: u32, now_ms: i64) -> AppView {
    let (s1, made) = s.create_task(title, estimate_bound(estimate), now_ms);
    if s1.timer.phase == Phase::Focus && s1.timer.status == TimerStatus::Idle
        && s1.timer.active_task_id is None {
        s1.select_task(Some(made->0.id)).0
    } else {
        s1
    }
}

/// Adds a task; a blank title is refused.
pub fn add_task(data: &mut AppData, title: &str, estimate: u32, now_ms: i64) -> (r: Result<
    (),
    String,
>)
    ensures
        match r {
            Ok(()) => trimmed(title@).len() > 0 && final(data)@ == added(
                old(data)@,
                title@,
                estimate,
                now_ms,
            ),
            Err(e) => trimmed(title@).len() == 0 && e@ == "Enter a task name."@ && final(data)@
                == old(data)@,
        },
{
    let Some(task) = data.create_task(title, bounded_estimate(estimate), now_ms) else {
        return Err("Enter a task name.".to_owned());
    };
    if data.timer.phase == Phase::Focus && data.timer.status == TimerStatus::Idle
        && data.timer.active_task_id.is_none() {
        data.select_task(Some(task.id));
    }
    Ok(())
}

/// Renames and re-estimates a task, keeping its done state.
pub fn update_task(data: &mut AppData, id: &str, title: &str, estimate: u32, now_ms: i64) -> (r:
    Result<(), String>)
    ensures
        match position_of(task_ids(old(data)@.tasks), id@) {
            None => r is Err && r->Err_0@ == "Task not found."@ && final(data)@ == old(data)@,
            Some(i) => if trimmed(title@).len() == 0 {
                r is Err && r->Err_0@ == "Enter a task name."@ && final(data)@ == old(data)@
            } else {
                r is Ok && final(data)@ == old(data)@.update_task(
                    id@,
                    title@,
                    estimate_bound(estimate),
                    old(data)@.tasks[i].done,
                    now_ms,
                ).0
            },
        },
{
    let Some(i) = data.find_task(id) else {
        return Err("Task not found.".to_owned());
    };
    let done = data.tasks[i].done;
    if !data.update_task(id, title, bounded_estimate(estimate), done, now_ms) {
        return Err("Enter a task name.".to_owned());
    }
    Ok(())
}

/// Ticks a task off or reopens it, and says which alerts that calls for and
/// the title to name in them.
pub fn toggle_task(data: &mut AppData, id: &str, now_ms: i64) -> (r: Result<
    (TaskAlert, String),
    String,
>)
    ensures
        match position_of(task_ids(old(data)@.tasks), id@) {
            None => r is Err && r->Err_0@ == "Task not found."@ && final(data)@ == old(data)@,
            Some(i) => {
                let task = old(data)@.tasks[i];
                let s = old(data)@.settings;
                &&& r is Ok
                &&& final(data)@ == old(data)@.set_task_done(id@, !task.done, now_ms).0
                &&& r->Ok_0.0 == TaskAlert {
                    sound: !task.done && s.sound,
                    notify: !task.done && s.notifications,
                }
                &&& r->Ok_0.1@ == task.title
            },
        },
{
    let Some(i) = data.find_task(id) else {
        return Err("Task not found.".to_owned());
    };
    let done = data.tasks[i].done;
    let title = data.tasks[i].title.clone();
    data.set_task_done(id, !done, now_ms);
    let alert = task_alert(done, !done, data.settings.sound, data.settings.notifications);
    Ok((alert, title))
}

/// Deletes a task; not while a focus on it is under way.
pub fn delete_task(data: &mut AppData, id: &str) -> (r: Result<(), String>)
    ensures
        old(data)@.timer.active_task_id == Some(id@) && old(data)@.timer.status
            != TimerStatus::Idle ==> r is Err && r->Err_0@
            == "Finish or reset that task's active focus before deleting it."@ && final(data)@
            == old(data)@,
        !(old(data)@.timer.active_task_id == Some(id@) && old(data)@.timer.status
            != TimerStatus::Idle) ==> match r {
            Ok(()) => old(data)@.delete_task(id@).1 && final(data)@ == old(data)@.delete_task(
                id@,
            ).0,
            Err(e) => !old(data)@.delete_task(id@).1 && e@ == "Task not found."@ && final(data)@
                == old(data)@,
        },
{
    let active = match &data.timer.active_task_id {
        Some(active) => {
            let key: String = id.to_owned();
            *active == key
        },
        None => false,
    };
    if active && data.timer.status != TimerStatus::Idle {
        return Err("Finish or reset that task's active focus before deleting it.".to_owned());
    }
    if !data.delete_task(id) {
        return Err("Task not found.".to_owned());
    }
    Ok(())
}

/// Notes an interruption; blank text is refused.
pub fn capture_interruption(
    data: &mut AppData,
    text: &str,
    category: InterruptionCategory,
    now_ms: i64,
) -> (r: Result<(), String>)
    ensures
        match r {
            Ok(()) => trimmed(text@).len() > 0 && final(data)@ == old(data)@.capture_interruption(
                text@,
                category,
                now_ms,
            ).0,
            Err(e) => trimmed(text@).len() == 0 && e@ == "Write a short note first."@ && final(data)@ == old(data)@,
        },
{
    if data.capture_interruption(text, category, now_ms).is_none() {
        return Err("Write a short note first.".to_owned());
    }
    Ok(())
}

/// Marks an interruption handled or not.
pub fn set_interruption_handled(data: &mut AppData, id: &str, handled: bool) -> (r: Result<
    (),
    String,
>)
    ensures
        match r {
            Ok(()) => old(data)@.set_interruption_handled(id@, handled).1 && final(data)@ == old(data)@.set_interruption_handled(id@, handled).0,
            Err(e) => !old(data)@.set_interruption_handled(id@, handled).1 && e@
                == "Interruption not found."@ && final(data)@ == old(data)@,
        },
{
    if !data.set_interruption_handled(id, handled) {
        return Err("Interruption not found.".to_owned());
    }
    Ok(())
}

/// Deletes an interruption.
pub fn delete_interruption(data: &mut AppData, id: &str) -> (r: Result<(), String>)
    ensures
        match r {
            Ok(()) => old(data)@.delete_interruption(id@).1 && final(data)@ == old(data)@.delete_interruption(id@).0,
            Err(e) => !old(data)@.delete_interruption(id@).1 && e@ == "Interruption not found."@
                && final(data)@ == old(data)@,
        },
{
    if !data.delete_interruption(id) {
        return Err("Interruption not found.".to_owned());
    }
    Ok(())
}

/// Turns an interruption into a task.
pub fn convert_interruption_to_task(data: &mut AppData, id: &str, now_ms: i64) -> (r: Result<
    (),
    String,
>)
    ensures
        !interruption_ids(old(data)@.interruptions).contains(id@) ==> r is Err && r->Err_0@
            == "Interruption not found."@ && final(data)@ == old(data)@,
        interruption_ids(old(data)@.interruptions).contains(id@) ==> {
            let (s, made) = old(data)@.convert_interruption_to_task(id@, now_ms);
            &&& final(data)@ == s
            &&& made is Some ==> r is Ok
            &&& made is None ==> r is Err && r->Err_0@ == "Could not create a task from this note."@
        },
{
    let ids = data.interruption_id_list();
    if !crate::ids::contains_text(&ids, id) {
        return Err("Interruption not found.".to_owned());
    }
    if data.convert_interruption_to_task(id, now_ms).is_none() {
        return Err("Could not create a task from this note.".to_owned());
    }
    Ok(())
}

/// Marks a notification triaged or pending.
pub fn triage_notification(data: &mut AppData, id: &str, triaged: bool) -> (r: Result<
    (),
    String,
>)
    ensures
        match r {
            Ok(()) => old(data)@.set_notification_triaged(id@, triaged).1 && final(data)@ == old(data)@.set_notification_triaged(id@, triaged).0,
            Err(e) => !old(data)@.set_notification_triaged(id@, triaged).1 && e@
                == "Notification not found."@ && final(data)@ == old(data)@,
        },
{
    if !data.set_notification_triaged(id, triaged) {
        return Err("Notification not found.".to_owned());
    }
    Ok(())
}

/// Turns a notification into a task; a second request returns the first
/// task rather than making another.
pub fn convert_notification(data: &mut AppData, id: &str, now_ms: i64) -> (r: Result<
    (),
    String,
>)
    ensures
        !notification_ids(old(data)@.notifications).contains(id@) ==> r is Err && r->Err_0@
            == "Notification not found."@ && final(data)@ == old(data)@,
        notification_ids(old(data)@.notifications).contains(id@) ==> {
            let (s, made) = old(data)@.convert_notification_to_task(id@, now_ms);
            &&& final(data)@ == s
            &&& made is Some ==> r is Ok
            &&& made is None ==> r is Err && r->Err_0@
                == "This notification has no summary to name a task."@
        },
{
    let ids = data.notification_id_list();
    if !crate::ids::contains_text(&ids, id) {
        return Err("Notification not found.".to_owned());
    }
    if data.convert_notification_to_task(id, now_ms).is_none() {
        return Err("This notification has no summary to name a task.".to_owned());
    }
    Ok(())
}

/// Deletes a captured notification.
pub fn delete_notification(data: &mut AppData, id: &str) -> (r: Result<(), String>)
    ensures
        match r {
            Ok(()) => old(data)@.delete_notification(id@).1 && final(data)@ == old(data)@.delete_notification(id@).0,
            Err(e) => !old(data)@.delete_notification(id@).1 && e@ == "Notification not found."@
                && final(data)@ == old(data)@,
        },
{
    if !data.delete_notification(id) {
        return Err("Notification not found.".to_owned());
    }
    Ok(())
}

} // verus!
