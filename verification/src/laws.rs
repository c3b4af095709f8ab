//! Properties of the domain that span several operations or hold of every
//! state, each proved over the views the operations are specified by.

use crate::domain::capture::{is_self_name, notifications_without, update_target};
use crate::domain::tasks::{interruptions_without, tasks_without};
use crate::domain::timer::{deadline, retained};
use crate::domain::{
    interruption_ids, notification_ids, position_of, sessions_since, task_ids, AppView,
    FilterView, InterruptionView, NotificationView, Phase, SessionOutcome, SessionView,
    TaskView, TimerStatus, TimerView, NOTIFICATION_RETENTION, SESSION_RETENTION,
    SNAPSHOT_SESSION_WINDOW_MS,
};
use crate::domain::sat_i64;
use crate::domain::capture::sanitized_app_list;
use crate::text::{lemma_trimmed_is_stable, trimmed, truncated};
use vstd::prelude::*;

verus! {

/// A countdown brought up to date once is already up to date.
proof fn lemma_normalized_is_stable(t: TimerView, now_ms: i64)
    ensures
        t.normalized(now_ms).normalized(now_ms) == t.normalized(now_ms),
        t.normalized(now_ms).remaining_at(now_ms) == t.remaining_at(now_ms),
{
    assert(t.normalized(now_ms).normalized(now_ms) =~= t.normalized(now_ms));
}

/// An interval started at `now_ms` has its whole length left at `now_ms`.
proof fn lemma_fresh_deadline_leaves_everything(t: TimerView, now_ms: i64)
    requires
        t.status == TimerStatus::Running,
        60 <= t.duration_seconds <= 86_400,
        t.ends_at == Some(deadline(now_ms, t.duration_seconds)),
        now_ms <= i64::MAX - 86_400_000,
    ensures
        t.remaining_at(now_ms) == t.duration_seconds,
{
    let d = t.duration_seconds;
    let left = d * 1000;
    assert(deadline(now_ms, d) == now_ms + left);
    assert((left + 999) / 1000 == d) by (nonlinear_arith)
        requires
            left == d * 1000,
    ;
}

/// An interval started at `now_ms` has some time left at `now_ms`, even when
/// its deadline had to be cut short at the end of time.
proof fn lemma_fresh_deadline_leaves_something(t: TimerView, now_ms: i64)
    requires
        t.status == TimerStatus::Running,
        60 <= t.duration_seconds <= 86_400,
        t.ends_at == Some(deadline(now_ms, t.duration_seconds)),
        now_ms < i64::MAX,
    ensures
        t.remaining_at(now_ms) > 0,
{
}

/// Ticking twice at the same moment completes nothing the second time: a
/// phase that has just been completed, and the one that follows it, are not
/// completed again. Away from the end of time, where the next deadline can
/// be cut short, nothing else changes either.
pub proof fn tick_is_idempotent(s: AppView, now_ms: i64)
    requires
        now_ms < i64::MAX,
    ensures
        s.tick(now_ms).0.tick(now_ms).1 is None,
        now_ms <= i64::MAX - 86_400_000 ==> s.tick(now_ms).0.tick(now_ms) == (
            s.tick(now_ms).0,
            None::<Phase>,
        ),
{
    let t = s.tick(now_ms).0;
    if s.timer.status != TimerStatus::Running {
    } else {
        lemma_normalized_is_stable(s.timer, now_ms);
        let s1 = s.with_timer(s.timer.normalized(now_ms));
        if s1.timer.remaining_seconds > 0 {
            assert(t == s1);
            assert(t.with_timer(t.timer.normalized(now_ms)) =~= t);
        } else {
            if t.timer.status == TimerStatus::Running {
                let d = t.timer.duration_seconds;
                assert(60 <= d <= 86_400);
                lemma_fresh_deadline_leaves_something(t.timer, now_ms);
                if now_ms <= i64::MAX - 86_400_000 {
                    lemma_fresh_deadline_leaves_everything(t.timer, now_ms);
                    assert(t.timer.normalized(now_ms) =~= t.timer);
                    assert(t.with_timer(t.timer.normalized(now_ms)) =~= t);
                }
            }
        }
    }
}

/// Skipping an interval that is not yet due never adds to a task's
/// completed focus count: the task list is left exactly as it was.
pub proof fn skipping_awards_no_focus_credit(s: AppView, now_ms: i64)
    requires
        !(s.timer.status == TimerStatus::Running && s.timer.remaining_at(now_ms) == 0),
    ensures
        s.skip(now_ms).0.tasks == s.tasks,
{
}

/// Pausing keeps the seconds the countdown showed, and resuming later
/// counts that same time down from a new deadline.
pub proof fn pause_then_resume_keeps_the_time_left(
    s: AppView,
    paused_at: i64,
    resumed_at: i64,
)
    requires
        s.timer.status == TimerStatus::Running,
        s.timer.remaining_at(paused_at) > 0,
    ensures
        ({
            let p = s.pause(paused_at).0;
            let r = p.start_or_resume(resumed_at).0;
            &&& p.timer.status == TimerStatus::Paused
            &&& p.timer.ends_at is None
            &&& p.timer.remaining_seconds == s.timer.remaining_at(paused_at)
            &&& r.timer.status == TimerStatus::Running
            &&& r.timer.remaining_seconds == p.timer.remaining_seconds
            &&& r.timer.ends_at == Some(deadline(resumed_at, p.timer.remaining_seconds))
            &&& r.timer.phase == s.timer.phase
            &&& r.timer.started_at == s.timer.started_at || s.timer.started_at is None
            &&& r.tasks == s.tasks
            &&& r.sessions == s.sessions
        }),
{
}

/// New settings never resize an interval that has begun: a running or paused
/// timer is left exactly as it was.
pub proof fn settings_leave_a_begun_interval_alone(s: AppView, settings: crate::domain::SettingsView)
    requires
        s.timer.status != TimerStatus::Idle,
    ensures
        s.update_settings(settings).timer == s.timer,
        s.update_settings(settings).settings == settings.sanitized(),
{
}

/// Quitting never leaves an interval counting down, and never starts the one
/// after an interval it completes.
pub proof fn quitting_leaves_nothing_running(s: AppView, now_ms: i64)
    ensures
        s.pause_to_quit(now_ms).timer.status != TimerStatus::Running,
{
    let (c, done) = s.complete_due(now_ms, false);
    if done is None && s.timer.status == TimerStatus::Running {
        lemma_normalized_is_stable(s.timer, now_ms);
    }
}

/// Time you were not there for is never credited: after a quit, relaunching
/// and ticking at any later moment records no session, credits no task and
/// leaves the timer exactly as the quit left it.
pub proof fn a_quit_interval_waits_for_its_owner(s: AppView, quit_at: i64, later: i64)
    ensures
        ({
            let q = s.pause_to_quit(quit_at);
            &&& q.recover_at_launch(later) == (q, false)
            &&& q.tick(later) == (q, None::<Phase>)
        }),
{
    quitting_leaves_nothing_running(s, quit_at);
}

/// An interval settled at launch is followed by an idle one: nothing starts
/// itself in an empty room.
pub proof fn launch_recovery_starts_nothing(s: AppView, now_ms: i64)
    ensures
        s.recover_at_launch(now_ms).1 ==> s.recover_at_launch(now_ms).0.timer.status
            == TimerStatus::Idle,
        !s.recover_at_launch(now_ms).1 ==> s.recover_at_launch(now_ms).0.tasks == s.tasks
            && s.recover_at_launch(now_ms).0.sessions == s.sessions,
{
}


proof fn lemma_retained_bounded(sessions: Seq<SessionView>)
    ensures
        retained(sessions).len() <= SESSION_RETENTION,
        sessions.len() > 0 ==> retained(sessions).last() == sessions.last(),
{
}

/// Session history never grows past [`SESSION_RETENTION`] records, whatever
/// the timer does, and the newest record is always the one kept.
pub proof fn session_history_stays_within_retention(s: AppView, now_ms: i64, phase: Phase)
    requires
        s.sessions.len() <= SESSION_RETENTION,
    ensures
        s.tick(now_ms).0.sessions.len() <= SESSION_RETENTION,
        s.skip(now_ms).0.sessions.len() <= SESSION_RETENTION,
        s.reset(now_ms).sessions.len() <= SESSION_RETENTION,
        s.set_phase(phase, now_ms).sessions.len() <= SESSION_RETENTION,
        s.pause(now_ms).0.sessions.len() <= SESSION_RETENTION,
        s.pause_to_quit(now_ms).sessions.len() <= SESSION_RETENTION,
        s.recover_at_launch(now_ms).0.sessions.len() <= SESSION_RETENTION,
{
    let r1 = s.session_record(SessionOutcome::Completed, now_ms);
    let r2 = s.session_record(SessionOutcome::Skipped, now_ms);
    let r3 = s.session_record(SessionOutcome::Abandoned, now_ms);
    lemma_retained_bounded(s.sessions.push(r1));
    lemma_retained_bounded(s.sessions.push(r2));
    lemma_retained_bounded(s.sessions.push(r3));
    let n = s.with_timer(s.timer.normalized(now_ms));
    lemma_retained_bounded(n.sessions.push(n.session_record(SessionOutcome::Completed, now_ms)));
    let t = s.tick(now_ms).0;
    lemma_retained_bounded(t.sessions.push(t.session_record(SessionOutcome::Completed, now_ms)));
    let c = s.complete_due(now_ms, false).0;
    let cn = c.with_timer(c.timer.normalized(now_ms));
    lemma_retained_bounded(cn.sessions.push(cn.session_record(SessionOutcome::Completed, now_ms)));
}

proof fn lemma_sessions_since(sessions: Seq<SessionView>, oldest: i64)
    ensures
        sessions_since(sessions, oldest).len() <= sessions.len(),
        forall|i: int|
            0 <= i < sessions_since(sessions, oldest).len() ==> #[trigger] sessions_since(
                sessions,
                oldest,
            )[i].started_at >= oldest,
        forall|i: int|
            0 <= i < sessions.len() && sessions[i].started_at >= oldest ==> sessions_since(
                sessions,
                oldest,
            ).contains(#[trigger] sessions[i]),
    decreases sessions.len(),
{
    if sessions.len() > 0 {
        let rest = sessions.drop_last();
        lemma_sessions_since(rest, oldest);
        let kept = sessions_since(sessions, oldest);
        assert forall|i: int|
            0 <= i < sessions.len() && sessions[i].started_at >= oldest implies kept.contains(
            #[trigger] sessions[i],
        ) by {
            if i < sessions.len() - 1 {
                assert(rest[i] == sessions[i]);
                let w = choose|w: int|
                    0 <= w < sessions_since(rest, oldest).len() && sessions_since(rest, oldest)[w]
                        == rest[i];
                assert(kept[w] == sessions[i]);
            } else {
                assert(kept[kept.len() - 1] == sessions[i]);
            }
        }
    }
}

/// A snapshot carries exactly the sessions that started in the last
/// [`SNAPSHOT_SESSION_WINDOW_MS`], and no more of them than are stored.
pub proof fn snapshots_ship_only_recent_sessions(s: AppView, now_ms: i64)
    ensures
        ({
            let oldest = sat_i64(now_ms - SNAPSHOT_SESSION_WINDOW_MS);
            let shipped = s.snapshot(now_ms).sessions;
            &&& shipped.len() <= s.sessions.len()
            &&& forall|i: int| 0 <= i < shipped.len() ==> #[trigger] shipped[i].started_at >= oldest
            &&& forall|i: int|
                0 <= i < s.sessions.len() && s.sessions[i].started_at >= oldest
                    ==> shipped.contains(#[trigger] s.sessions[i])
        }),
        s.snapshot(now_ms).tasks == s.tasks,
        s.snapshot(now_ms).notifications == s.notifications,
{
    lemma_sessions_since(s.sessions, sat_i64(now_ms - SNAPSHOT_SESSION_WINDOW_MS));
}

/// The inbox never holds more than [`NOTIFICATION_RETENTION`] rows, and an
/// update to a notification already filed never adds a row.
pub proof fn the_inbox_stays_within_retention(
    s: AppView,
    app_name: Seq<char>,
    summary: Seq<char>,
    body: Seq<char>,
    urgency: u8,
    replaces_id: u32,
    now_ms: i64,
)
    requires
        s.notifications.len() <= NOTIFICATION_RETENTION,
    ensures
        s.capture_notify(app_name, summary, body, urgency, replaces_id, now_ms).0.notifications.len()
            <= NOTIFICATION_RETENTION,
        update_target(
            s.notifications,
            truncated(trimmed(app_name), crate::domain::MAX_APP_NAME_CHARS as nat),
            truncated(summary, crate::domain::MAX_SUMMARY_CHARS as nat),
            replaces_id,
            now_ms,
        ) is Some ==> s.capture_notify(app_name, summary, body, urgency, replaces_id, now_ms).0.notifications.len()
            == s.notifications.len(),
{
}

/// Pomodoro never files its own notifications: the state is untouched.
pub proof fn own_notifications_are_never_filed(
    s: AppView,
    app_name: Seq<char>,
    summary: Seq<char>,
    body: Seq<char>,
    urgency: u8,
    replaces_id: u32,
    now_ms: i64,
)
    requires
        is_self_name(truncated(trimmed(app_name), crate::domain::MAX_APP_NAME_CHARS as nat)),
    ensures
        s.capture_notify(app_name, summary, body, urgency, replaces_id, now_ms) == (
            s,
            None::<NotificationView>,
        ),
{
}

/// The filter's precedence: a muted app is dropped even when it is also a
/// priority app, and a priority app is kept whatever the focus-only and
/// urgency rules say, as long as capture is on.
pub proof fn muting_wins_and_priority_bypasses_the_rest(
    f: FilterView,
    app_name: Seq<char>,
    urgency: u8,
    during_focus: bool,
)
    ensures
        !f.enabled ==> !f.accepts(app_name, urgency, during_focus),
        crate::domain::capture::listed(f.muted_apps, app_name) ==> !f.accepts(
            app_name,
            urgency,
            during_focus,
        ),
        f.enabled && !crate::domain::capture::listed(f.muted_apps, app_name)
            && crate::domain::capture::listed(f.priority_apps, app_name) ==> f.accepts(
            app_name,
            urgency,
            during_focus,
        ),
{
}

proof fn lemma_tasks_without(tasks: Seq<TaskView>, id: Seq<char>)
    ensures
        !task_ids(tasks_without(tasks, id)).contains(id),
        tasks_without(tasks, id).len() <= tasks.len(),
        task_ids(tasks).contains(id) ==> tasks_without(tasks, id).len() < tasks.len(),
        !task_ids(tasks).contains(id) ==> tasks_without(tasks, id) == tasks,
    decreases tasks.len(),
{
    if tasks.len() > 0 {
        let rest = tasks.drop_last();
        lemma_tasks_without(rest, id);
        if !task_ids(tasks).contains(id) {
            assert(task_ids(tasks)[tasks.len() - 1] == tasks.last().id);
            if task_ids(rest).contains(id) {
                let w = choose|w: int| 0 <= w < task_ids(rest).len() && task_ids(rest)[w] == id;
                assert(task_ids(tasks)[w] == id);
            }
            assert(rest.push(tasks.last()) =~= tasks);
        }
        let kept = tasks_without(tasks, id);
        if task_ids(kept).contains(id) {
            let w = choose|w: int| 0 <= w < task_ids(kept).len() && task_ids(kept)[w] == id;
            if w < tasks_without(rest, id).len() {
                assert(task_ids(tasks_without(rest, id))[w] == id);
            }
        }
        if task_ids(tasks).contains(id) {
            let w = choose|w: int| 0 <= w < task_ids(tasks).len() && task_ids(tasks)[w] == id;
            if w < tasks.len() - 1 {
                assert(task_ids(rest)[w] == id);
            }
        }
    }
}

/// Deleting a task leaves nothing pointing at it: no task with its id, no
/// active task, no interruption or notification linked to it.
pub proof fn deleting_a_task_leaves_no_reference_to_it(s: AppView, id: Seq<char>)
    ensures
        ({
            let (d, removed) = s.delete_task(id);
            &&& removed == task_ids(s.tasks).contains(id)
            &&& !task_ids(d.tasks).contains(id)
            &&& d.timer.active_task_id != Some(id)
            &&& forall|i: int|
                0 <= i < d.interruptions.len() ==> (#[trigger] d.interruptions[i]).task_id != Some(
                    id,
                ) && d.interruptions[i].converted_task_id != Some(id)
            &&& forall|i: int|
                0 <= i < d.notifications.len() ==> (#[trigger] d.notifications[i]).task_id
                    != Some(id)
        }) || !task_ids(s.tasks).contains(id),
        !task_ids(s.tasks).contains(id) ==> s.delete_task(id) == (s, false),
{
    lemma_tasks_without(s.tasks, id);
}

proof fn lemma_ids_after_update_note(notes: Seq<InterruptionView>, p: int, note: InterruptionView)
    requires
        0 <= p < notes.len(),
        note.id == notes[p].id,
    ensures
        interruption_ids(notes.update(p, note)) == interruption_ids(notes),
{
    assert(interruption_ids(notes.update(p, note)) =~= interruption_ids(notes));
}

proof fn lemma_ids_after_update_row(rows: Seq<NotificationView>, p: int, row: NotificationView)
    requires
        0 <= p < rows.len(),
        row.id == rows[p].id,
    ensures
        notification_ids(rows.update(p, row)) == notification_ids(rows),
{
    assert(notification_ids(rows.update(p, row)) =~= notification_ids(rows));
}

/// Turning the same interruption into a task a second time makes no second
/// task: it names the task the first conversion made.
pub proof fn converting_an_interruption_twice_makes_one_task(
    s: AppView,
    id: Seq<char>,
    first_at: i64,
    second_at: i64,
)
    requires
        s.convert_interruption_to_task(id, first_at).1 is Some,
    ensures
        ({
            let (s1, made) = s.convert_interruption_to_task(id, first_at);
            let (s2, again) = s1.convert_interruption_to_task(id, second_at);
            again == made && s2.tasks == s1.tasks
        }),
{
    let p = position_of(interruption_ids(s.interruptions), id)->0;
    let note = s.interruptions[p];
    let (s1, made) = s.convert_interruption_to_task(id, first_at);
    if note.converted_task_id is Some && task_ids(s.tasks).contains(note.converted_task_id->0) {
        lemma_ids_after_update_note(
            s.interruptions,
            p,
            InterruptionView { handled: true, ..note },
        );
    } else {
        let (c, task) = s.create_task(note.text, 1, first_at);
        let t = task->0;
        lemma_ids_after_update_note(
            c.interruptions,
            p,
            InterruptionView { converted_task_id: Some(t.id), handled: true, ..c.interruptions[p] },
        );
        assert(task_ids(s1.tasks)[s1.tasks.len() - 1] == t.id);
        lemma_ids_after_update_note(
            s1.interruptions,
            p,
            InterruptionView { handled: true, ..s1.interruptions[p] },
        );
    }
}

/// Turning the same notification into a task a second time makes no second
/// task: it names the task the first conversion made.
pub proof fn converting_a_notification_twice_makes_one_task(
    s: AppView,
    id: Seq<char>,
    first_at: i64,
    second_at: i64,
)
    requires
        s.convert_notification_to_task(id, first_at).1 is Some,
    ensures
        ({
            let (s1, made) = s.convert_notification_to_task(id, first_at);
            let (s2, again) = s1.convert_notification_to_task(id, second_at);
            again == made && s2.tasks == s1.tasks
        }),
{
    let p = position_of(notification_ids(s.notifications), id)->0;
    let row = s.notifications[p];
    let (s1, made) = s.convert_notification_to_task(id, first_at);
    if row.task_id is Some && task_ids(s.tasks).contains(row.task_id->0) {
        lemma_ids_after_update_row(s.notifications, p, NotificationView { triaged: true, ..row });
    } else {
        let (c, task) = s.create_task(row.summary, 1, first_at);
        let t = task->0;
        lemma_ids_after_update_row(
            c.notifications,
            p,
            NotificationView { task_id: Some(t.id), triaged: true, ..c.notifications[p] },
        );
        assert(task_ids(s1.tasks)[s1.tasks.len() - 1] == t.id);
        lemma_ids_after_update_row(
            s1.notifications,
            p,
            NotificationView { triaged: true, ..s1.notifications[p] },
        );
    }
}

proof fn lemma_notifications_without(rows: Seq<NotificationView>, id: Seq<char>)
    ensures
        !notification_ids(notifications_without(rows, id)).contains(id),
    decreases rows.len(),
{
    if rows.len() > 0 {
        let rest = rows.drop_last();
        lemma_notifications_without(rest, id);
        let kept = notifications_without(rows, id);
        if notification_ids(kept).contains(id) {
            let w = choose|w: int| 0 <= w < notification_ids(kept).len() && notification_ids(kept)[w] == id;
            if w < notifications_without(rest, id).len() {
                assert(notification_ids(notifications_without(rest, id))[w] == id);
            }
        }
    }
}

/// Deleting a captured notification, or every one of them, removes the
/// copy and nothing else: a task made from it stays, and so does the
/// history.
pub proof fn deleting_a_notification_keeps_the_task_made_from_it(s: AppView, id: Seq<char>)
    ensures
        !notification_ids(s.delete_notification(id).0.notifications).contains(id),
        s.delete_notification(id).0.tasks == s.tasks,
        s.delete_notification(id).0.sessions == s.sessions,
        s.clear_notifications().notifications.len() == 0,
        s.clear_notifications().tasks == s.tasks,
        s.clear_notifications().sessions == s.sessions,
{
    lemma_notifications_without(s.notifications, id);
    if notifications_without(s.notifications, id).len() == s.notifications.len() {
        lemma_same_length_without(s.notifications, id);
    }
}

proof fn lemma_same_length_without(rows: Seq<NotificationView>, id: Seq<char>)
    requires
        notifications_without(rows, id).len() == rows.len(),
    ensures
        notifications_without(rows, id) == rows,
    decreases rows.len(),
{
    if rows.len() > 0 {
        let rest = rows.drop_last();
        lemma_without_shorter(rest, id);
        if rows.last().id == id {
            assert(false);
        }
        lemma_same_length_without(rest, id);
        assert(rest.push(rows.last()) =~= rows);
    }
}

proof fn lemma_without_shorter(rows: Seq<NotificationView>, id: Seq<char>)
    ensures
        notifications_without(rows, id).len() <= rows.len(),
    decreases rows.len(),
{
    if rows.len() > 0 {
        lemma_without_shorter(rows.drop_last(), id);
    }
}

/// What a sanitized application list holds: trimmed, non-empty entries,
/// no two the same but for case.
spec fn clean_app_list(list: Seq<Seq<char>>) -> bool {
    &&& forall|i: int| 0 <= i < list.len() ==> trimmed(#[trigger] list[i]) == list[i]
    &&& forall|i: int| 0 <= i < list.len() ==> (#[trigger] list[i]).len() > 0
    &&& forall|i: int, j: int|
        0 <= i < j < list.len() ==> crate::text::lowercase(#[trigger] list[i])
            != crate::text::lowercase(#[trigger] list[j])
}

proof fn lemma_sanitized_list_is_clean(list: Seq<Seq<char>>)
    ensures
        clean_app_list(sanitized_app_list(list)),
    decreases list.len(),
{
    if list.len() > 0 {
        lemma_sanitized_list_is_clean(list.drop_last());
        lemma_trimmed_is_stable(list.last());
    }
}

proof fn lemma_clean_list_is_kept(list: Seq<Seq<char>>)
    requires
        clean_app_list(list),
    ensures
        sanitized_app_list(list) == list,
    decreases list.len(),
{
    if list.len() > 0 {
        let rest = list.drop_last();
        assert(clean_app_list(rest)) by {
            assert forall|i: int, j: int| 0 <= i < j < rest.len() implies crate::text::lowercase(
                #[trigger] rest[i],
            ) != crate::text::lowercase(#[trigger] rest[j]) by {
                assert(rest[i] == list[i] && rest[j] == list[j]);
            }
            assert forall|i: int| 0 <= i < rest.len() implies trimmed(#[trigger] rest[i])
                == rest[i] && rest[i].len() > 0 by {
                assert(rest[i] == list[i]);
            }
        }
        lemma_clean_list_is_kept(rest);
        let last = list.last();
        assert(trimmed(list[list.len() - 1]) == list[list.len() - 1]);
        assert(list[list.len() - 1].len() > 0);
        assert forall|j: int| 0 <= j < rest.len() implies crate::text::lowercase(#[trigger] rest[j])
            != crate::text::lowercase(last) by {
            assert(rest[j] == list[j]);
            assert(crate::text::lowercase(list[j]) != crate::text::lowercase(
                list[list.len() - 1],
            ));
        }
        assert(rest.push(last) =~= list);
    }
}

/// Sanitizing settings a second time changes nothing: every length and the
/// round count are already within their limits, and the filter's urgency
/// floor and application lists are already clean.
pub proof fn sanitizing_settings_twice_changes_nothing(s: crate::domain::SettingsView)
    ensures
        s.sanitized().sanitized() == s.sanitized(),
{
    lemma_sanitized_list_is_clean(s.notification_filter.muted_apps);
    lemma_sanitized_list_is_clean(s.notification_filter.priority_apps);
    lemma_clean_list_is_kept(sanitized_app_list(s.notification_filter.muted_apps));
    lemma_clean_list_is_kept(sanitized_app_list(s.notification_filter.priority_apps));
    assert(s.sanitized().sanitized().notification_filter =~= s.sanitized().notification_filter);
}

// ---------------------------------------------------------------------------
// What ending, skipping and editing record.

/// The seconds an interval of `length` had run with `left` still to go.
pub open spec fn elapsed(length: u32, left: u32) -> int {
    if length > left {
        length - left
    } else {
        0
    }
}

/// Work ended by hand is credited only the time it ran: resetting a begun
/// interval, changing the mode mid-interval, or skipping one before it is
/// due records it with the interval's length less the seconds still left
/// at that moment, in its own phase and for its own task; an interval that
/// ran out is credited its whole length.
pub proof fn work_ended_by_hand_is_credited_its_elapsed_time(
    s: AppView,
    now_ms: i64,
    phase: Phase,
)
    ensures
        s.timer.has_begun() ==> {
            let r = s.reset(now_ms).sessions.last();
            &&& r.outcome == SessionOutcome::Abandoned
            &&& r.duration_seconds == elapsed(s.timer.duration_seconds, s.timer.remaining_at(now_ms))
            &&& r.phase == s.timer.phase
            &&& r.task_id == s.timer.active_task_id
        },
        s.timer.has_begun() && !(s.timer.phase == phase && s.timer.status == TimerStatus::Idle)
            ==> {
            let r = s.set_phase(phase, now_ms).sessions.last();
            &&& r.outcome == SessionOutcome::Abandoned
            &&& r.duration_seconds == elapsed(s.timer.duration_seconds, s.timer.remaining_at(now_ms))
            &&& r.phase == s.timer.phase
        },
        s.timer.has_begun() && !(s.timer.status == TimerStatus::Running
            && s.timer.remaining_at(now_ms) == 0) ==> {
            let r = s.skip(now_ms).0.sessions.last();
            &&& r.outcome == SessionOutcome::Skipped
            &&& r.duration_seconds == elapsed(s.timer.duration_seconds, s.timer.remaining_at(now_ms))
            &&& r.phase == s.timer.phase
        },
        s.timer.status == TimerStatus::Running && s.timer.remaining_at(now_ms) == 0 ==> {
            let r = s.tick(now_ms).0.sessions.last();
            &&& r.outcome == SessionOutcome::Completed
            &&& r.duration_seconds == s.timer.duration_seconds
            &&& r.phase == s.timer.phase
        },
{
    let a = s.record_session(SessionOutcome::Abandoned, now_ms);
    let k = s.record_session(SessionOutcome::Skipped, now_ms);
    lemma_retained_bounded(s.sessions.push(s.session_record(SessionOutcome::Abandoned, now_ms)));
    lemma_retained_bounded(s.sessions.push(s.session_record(SessionOutcome::Skipped, now_ms)));
    if s.timer.status == TimerStatus::Running && s.timer.remaining_at(now_ms) == 0 {
        let s1 = s.with_timer(s.timer.normalized(now_ms));
        lemma_normalized_is_stable(s.timer, now_ms);
        lemma_retained_bounded(
            s1.sessions.push(s1.session_record(SessionOutcome::Completed, now_ms)),
        );
    }
}

/// Skipping a long break ends the cycle: whether it was skipped early or
/// had already run out, the count of focus rounds towards the next long
/// break starts again from zero, and a focus comes next.
pub proof fn skipping_a_long_break_starts_a_new_cycle(s: AppView, now_ms: i64)
    requires
        s.timer.phase == Phase::LongBreak,
    ensures
        s.skip(now_ms).0.timer.completed_in_cycle == 0,
        s.skip(now_ms).0.timer.phase == Phase::Focus,
        s.skip(now_ms).1 == Phase::Focus,
{
    if s.timer.status == TimerStatus::Running && s.timer.remaining_at(now_ms) == 0 {
        lemma_normalized_is_stable(s.timer, now_ms);
    }
}

/// An edit that is accepted sets the task's estimate to the one asked for,
/// and never below one session, along with its trimmed title and its done
/// state; it keeps the sessions the task has had, and touches no other
/// task. An edit is accepted exactly when the title is not blank and the
/// task exists.
pub proof fn an_edit_sets_the_estimate_asked_for(
    s: AppView,
    id: Seq<char>,
    title: Seq<char>,
    estimate: u32,
    done: bool,
    now_ms: i64,
)
    ensures
        ({
            let (e, accepted) = s.update_task(id, title, estimate, done, now_ms);
            &&& accepted == (trimmed(title).len() > 0 && task_ids(s.tasks).contains(id))
            &&& e.tasks.len() == s.tasks.len()
            &&& accepted ==> forall|i: int|
                #[trigger] position_of(task_ids(s.tasks), id) == Some(i) ==> {
                    &&& e.tasks[i].estimate == (if estimate < 1 {
                        1
                    } else {
                        estimate
                    })
                    &&& e.tasks[i].title == trimmed(title)
                    &&& e.tasks[i].done == done
                    &&& e.tasks[i].completed_pomodoros == s.tasks[i].completed_pomodoros
                    &&& e.tasks[i].id == id
                    &&& forall|j: int| 0 <= j < s.tasks.len() && j != i ==> e.tasks[j] == s.tasks[j]
                }
        }),
{
    let ids = task_ids(s.tasks);
    if ids.contains(id) {
        let w = choose|w: int| 0 <= w < ids.len() && ids[w] == id;
        crate::domain::lemma_position_exists(ids, id, w);
    }
    match position_of(ids, id) {
        Some(i) => {
            assert(crate::domain::is_first_position(ids, id, i));
            assert(ids[i] == s.tasks[i].id);
        },
        None => {},
    }
}

/// Each phase lasts as long as its own setting says, within one minute and
/// a day: the long break reads the long-break minutes, and no other
/// setting changes it; likewise the short break and the focus. Entering a
/// phase gives the timer that length.
pub proof fn each_phase_lasts_its_own_setting(
    a: crate::domain::SettingsView,
    b: crate::domain::SettingsView,
    s: AppView,
    phase: Phase,
    now_ms: i64,
)
    ensures
        a.duration_seconds(Phase::Focus) == 60 * bounded_minutes(a.focus_minutes),
        a.duration_seconds(Phase::ShortBreak) == 60 * bounded_minutes(a.short_break_minutes),
        a.duration_seconds(Phase::LongBreak) == 60 * bounded_minutes(a.long_break_minutes),
        a.long_break_minutes == b.long_break_minutes ==> a.duration_seconds(Phase::LongBreak)
            == b.duration_seconds(Phase::LongBreak),
        a.short_break_minutes == b.short_break_minutes ==> a.duration_seconds(
            Phase::ShortBreak,
        ) == b.duration_seconds(Phase::ShortBreak),
        a.focus_minutes == b.focus_minutes ==> a.duration_seconds(Phase::Focus)
            == b.duration_seconds(Phase::Focus),
        !(s.timer.phase == phase && s.timer.status == TimerStatus::Idle) ==> s.set_phase(
            phase,
            now_ms,
        ).timer.duration_seconds == 60 * bounded_minutes(
            match phase {
                Phase::Focus => s.settings.focus_minutes,
                Phase::ShortBreak => s.settings.short_break_minutes,
                Phase::LongBreak => s.settings.long_break_minutes,
            },
        ),
{
}

/// `minutes` held within one minute and a day.
pub open spec fn bounded_minutes(minutes: u32) -> int {
    if minutes < 1 {
        1
    } else if minutes > 1440 {
        1440
    } else {
        minutes as int
    }
}

/// A session's phase is written to the CSV under the name the data file
/// uses for it, and the three names are different, so an export never
/// files one phase as another.
pub proof fn each_phase_has_its_own_csv_name(p: Phase, q: Phase)
    ensures
        p != q ==> crate::transfer::phase_name(p) != crate::transfer::phase_name(q),
        crate::transfer::phase_name(Phase::Focus) == "focus"@,
        crate::transfer::phase_name(Phase::ShortBreak) == "shortBreak"@,
        crate::transfer::phase_name(Phase::LongBreak) == "longBreak"@,
{
    reveal_strlit("focus");
    reveal_strlit("shortBreak");
    reveal_strlit("longBreak");
    assert("focus"@[0] != "shortBreak"@[0]);
    assert("focus"@[0] != "longBreak"@[0]);
    assert("shortBreak"@[0] != "longBreak"@[0]);
}

} // verus!
