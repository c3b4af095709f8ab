//! Tasks and manual interruptions, with attribution and conversion links.

use super::timer::{Phase, TimerStatus, TimerView};
use super::{
    copy_opt_text, interruption_ids, interruption_views, lemma_position_absent,
    lemma_position_found, notification_views, opt_text, position_of, task_ids, task_views,
    AppData, AppView, Duplicate,
};
use super::capture::{DesktopNotification, NotificationView};
use crate::ids::{first_free_id, id_base, texts, unique_id};
use crate::text::{trim, trimmed};
use vstd::prelude::*;

verus! {

#[derive(Clone, Copy, Debug, PartialEq, Eq, Structural)]
pub enum InterruptionCategory {
    Internal,
    External,
}

impl Default for InterruptionCategory {
    fn default() -> (r: Self)
        ensures
            r == InterruptionCategory::Internal,
    {
        InterruptionCategory::Internal
    }
}

#[derive(Clone, Debug, PartialEq, Eq)]
pub struct FocusTask {
    pub id: String,
    pub title: String,
    pub estimate: u32,
    pub completed_pomodoros: u32,
    pub done: bool,
    pub created_at: i64,
    pub completed_at: Option<i64>,
}

#[verifier::ext_equal]
pub struct TaskView {
    pub id: Seq<char>,
    pub title: Seq<char>,
    pub estimate: u32,
    pub completed_pomodoros: u32,
    pub done: bool,
    pub created_at: i64,
    pub completed_at: Option<i64>,
}

impl View for FocusTask {
    type V = TaskView;

    open spec fn view(&self) -> TaskView {
        TaskView {
            id: self.id@,
            title: self.title@,
            estimate: self.estimate,
            completed_pomodoros: self.completed_pomodoros,
            done: self.done,
            created_at: self.created_at,
            completed_at: self.completed_at,
        }
    }
}

#[derive(Clone, Debug, PartialEq, Eq)]
pub struct Interruption {
    pub id: String,
    pub text: String,
    pub category: InterruptionCategory,
    pub captured_at: i64,
    pub handled: bool,
    /// The task that was active when this was captured.
    pub task_id: Option<String>,
    /// The task this interruption was turned into, if any.
    pub converted_task_id: Option<String>,
}

#[verifier::ext_equal]
pub struct InterruptionView {
    pub id: Seq<char>,
    pub text: Seq<char>,
    pub category: InterruptionCategory,
    pub captured_at: i64,
    pub handled: bool,
    pub task_id: Option<Seq<char>>,
    pub converted_task_id: Option<Seq<char>>,
}

impl View for Interruption {
    type V = InterruptionView;

    open spec fn view(&self) -> InterruptionView {
        InterruptionView {
            id: self.id@,
            text: self.text@,
            category: self.category,
            captured_at: self.captured_at,
            handled: self.handled,
            task_id: opt_text(self.task_id),
            converted_task_id: opt_text(self.converted_task_id),
        }
    }
}

impl TaskView {
    /// A task is at least one session long.
    pub open spec fn at_least_one(estimate: u32) -> u32 {
        if estimate < 1 {
            1
        } else {
            estimate
        }
    }
}

impl InterruptionView {
    /// The note with every link to task `id` cleared.
    pub open spec fn released(self, id: Seq<char>) -> InterruptionView {
        InterruptionView {
            task_id: if self.task_id == Some(id) {
                None
            } else {
                self.task_id
            },
            converted_task_id: if self.converted_task_id == Some(id) {
                None
            } else {
                self.converted_task_id
            },
            ..self
        }
    }
}

impl NotificationView {
    /// The notification with its link to task `id` cleared.
    pub open spec fn released(self, id: Seq<char>) -> NotificationView {
        NotificationView {
            task_id: if self.task_id == Some(id) {
                None
            } else {
                self.task_id
            },
            ..self
        }
    }
}

pub open spec fn released_interruptions(v: Seq<InterruptionView>, id: Seq<char>) -> Seq<
    InterruptionView,
> {
    v.map_values(|n: InterruptionView| n.released(id))
}

pub open spec fn released_notifications(v: Seq<NotificationView>, id: Seq<char>) -> Seq<
    NotificationView,
> {
    v.map_values(|n: NotificationView| n.released(id))
}

/// `tasks` without those whose id is `id`.
pub open spec fn tasks_without(tasks: Seq<TaskView>, id: Seq<char>) -> Seq<TaskView>
    decreases tasks.len(),
{
    if tasks.len() == 0 {
        tasks
    } else {
        let rest = tasks_without(tasks.drop_last(), id);
        if tasks.last().id == id {
            rest
        } else {
            rest.push(tasks.last())
        }
    }
}

/// `notes` without those whose id is `id`.
pub open spec fn interruptions_without(notes: Seq<InterruptionView>, id: Seq<char>) -> Seq<
    InterruptionView,
>
    decreases notes.len(),
{
    if notes.len() == 0 {
        notes
    } else {
        let rest = interruptions_without(notes.drop_last(), id);
        if notes.last().id == id {
            rest
        } else {
            rest.push(notes.last())
        }
    }
}

impl AppView {
    /// Selects an open task as the active one, or clears the selection.
    pub open spec fn select_task(self, task_id: Option<Seq<char>>) -> (AppView, bool) {
        match task_id {
            Some(id) => if super::has_open_task(self.tasks, id) {
                (self.with_timer(TimerView { active_task_id: Some(id), ..self.timer }), true)
            } else {
                (self, false)
            },
            None => (self.with_timer(TimerView { active_task_id: None, ..self.timer }), true),
        }
    }

    /// The task `create_task` makes from `title`.
    pub open spec fn new_task(self, title: Seq<char>, estimate: u32, now_ms: i64) -> TaskView {
        TaskView {
            id: first_free_id(id_base("task"@, now_ms), task_ids(self.tasks), true),
            title: trimmed(title),
            estimate: TaskView::at_least_one(estimate),
            completed_pomodoros: 0,
            done: false,
            created_at: now_ms,
            completed_at: None,
        }
    }

    /// Adds a task named by `title` trimmed; nothing for a blank title.
    pub open spec fn create_task(self, title: Seq<char>, estimate: u32, now_ms: i64) -> (
        AppView,
        Option<TaskView>,
    ) {
        if trimmed(title).len() == 0 {
            (self, None)
        } else {
            let task = self.new_task(title, estimate, now_ms);
            (AppView { tasks: self.tasks.push(task), ..self }, Some(task))
        }
    }

    /// A task marked done stops being the active one, unless a focus on it
    /// is under way.
    pub open spec fn release_finished(self, id: Seq<char>, done: bool) -> AppView {
        if done && self.timer.active_task_id == Some(id) && (self.timer.phase != Phase::Focus
            || self.timer.status == TimerStatus::Idle) {
            self.with_timer(TimerView { active_task_id: None, ..self.timer })
        } else {
            self
        }
    }

    /// Edits the first task with this id: title, estimate and done state.
    pub open spec fn update_task(
        self,
        id: Seq<char>,
        title: Seq<char>,
        estimate: u32,
        done: bool,
        now_ms: i64,
    ) -> (AppView, bool) {
        let title = trimmed(title);
        if title.len() == 0 {
            (self, false)
        } else {
            match position_of(task_ids(self.tasks), id) {
                None => (self, false),
                Some(i) => {
                    let old = self.tasks[i];
                    let completed_at = if old.done != done {
                        if done {
                            Some(now_ms)
                        } else {
                            None
                        }
                    } else if !done {
                        None
                    } else {
                        old.completed_at
                    };
                    let task = TaskView {
                        title,
                        estimate: TaskView::at_least_one(estimate),
                        done,
                        completed_at,
                        ..old
                    };
                    (
                        AppView { tasks: self.tasks.update(i, task), ..self }.release_finished(
                            id,
                            done,
                        ),
                        true,
                    )
                },
            }
        }
    }

    /// Marks the first task with this id done or not done.
    pub open spec fn set_task_done(self, id: Seq<char>, done: bool, now_ms: i64) -> (
        AppView,
        bool,
    ) {
        match position_of(task_ids(self.tasks), id) {
            None => (self, false),
            Some(i) => {
                let task = TaskView {
                    done,
                    completed_at: if done {
                        Some(now_ms)
                    } else {
                        None
                    },
                    ..self.tasks[i]
                };
                (
                    AppView { tasks: self.tasks.update(i, task), ..self }.release_finished(
                        id,
                        done,
                    ),
                    true,
                )
            },
        }
    }

    /// Removes every task with this id and every link to it.
    pub open spec fn delete_task(self, id: Seq<char>) -> (AppView, bool) {
        let kept = tasks_without(self.tasks, id);
        if kept.len() == self.tasks.len() {
            (self, false)
        } else {
            (
                AppView {
                    tasks: kept,
                    timer: if self.timer.active_task_id == Some(id) {
                        TimerView { active_task_id: None, ..self.timer }
                    } else {
                        self.timer
                    },
                    interruptions: released_interruptions(self.interruptions, id),
                    notifications: released_notifications(self.notifications, id),
                    ..self
                },
                true,
            )
        }
    }

    /// Notes an interruption, attributed to the active task.
    pub open spec fn capture_interruption(
        self,
        text: Seq<char>,
        category: InterruptionCategory,
        now_ms: i64,
    ) -> (AppView, Option<InterruptionView>) {
        if trimmed(text).len() == 0 {
            (self, None)
        } else {
            let note = InterruptionView {
                id: first_free_id(
                    id_base("interruption"@, now_ms),
                    interruption_ids(self.interruptions),
                    true,
                ),
                text: trimmed(text),
                category,
                captured_at: now_ms,
                handled: false,
                task_id: self.timer.active_task_id,
                converted_task_id: None,
            };
            (AppView { interruptions: self.interruptions.push(note), ..self }, Some(note))
        }
    }

    pub open spec fn set_interruption_handled(self, id: Seq<char>, handled: bool) -> (
        AppView,
        bool,
    ) {
        match position_of(interruption_ids(self.interruptions), id) {
            None => (self, false),
            Some(i) => (
                AppView {
                    interruptions: self.interruptions.update(
                        i,
                        InterruptionView { handled, ..self.interruptions[i] },
                    ),
                    ..self
                },
                true,
            ),
        }
    }

    /// Turns an interruption into a task at most once: a conversion whose
    /// task still exists is only marked handled again.
    pub open spec fn convert_interruption_to_task(self, id: Seq<char>, now_ms: i64) -> (
        AppView,
        Option<Seq<char>>,
    ) {
        match position_of(interruption_ids(self.interruptions), id) {
            None => (self, None),
            Some(p) => {
                let note = self.interruptions[p];
                if note.converted_task_id is Some && task_ids(self.tasks).contains(
                    note.converted_task_id->0,
                ) {
                    (self.set_interruption_handled(id, true).0, note.converted_task_id)
                } else {
                    let (s, made) = self.create_task(note.text, 1, now_ms);
                    match made {
                        None => (s, None),
                        Some(task) => (
                            AppView {
                                interruptions: s.interruptions.update(
                                    p,
                                    InterruptionView {
                                        converted_task_id: Some(task.id),
                                        handled: true,
                                        ..s.interruptions[p]
                                    },
                                ),
                                ..s
                            },
                            Some(task.id),
                        ),
                    }
                }
            },
        }
    }

    pub open spec fn delete_interruption(self, id: Seq<char>) -> (AppView, bool) {
        let kept = interruptions_without(self.interruptions, id);
        if kept.len() == self.interruptions.len() {
            (self, false)
        } else {
            (AppView { interruptions: kept, ..self }, true)
        }
    }
}

impl Duplicate for FocusTask {
    fn duplicate(&self) -> (r: Self) {
        FocusTask {
            id: self.id.clone(),
            title: self.title.clone(),
            estimate: self.estimate,
            completed_pomodoros: self.completed_pomodoros,
            done: self.done,
            created_at: self.created_at,
            completed_at: self.completed_at,
        }
    }
}

impl Duplicate for Interruption {
    fn duplicate(&self) -> (r: Self) {
        Interruption {
            id: self.id.clone(),
            text: self.text.clone(),
            category: self.category,
            captured_at: self.captured_at,
            handled: self.handled,
            task_id: copy_opt_text(&self.task_id),
            converted_task_id: copy_opt_text(&self.converted_task_id),
        }
    }
}

/// Whether `o` holds exactly the text `id`.
fn holds(o: &Option<String>, id: &String) -> (r: bool)
    ensures
        r == (opt_text(*o) == Some(id@)),
{
    match o {
        Some(s) => *s == *id,
        None => false,
    }
}

impl AppData {
    fn find_interruption(&self, id: &str) -> (r: Option<usize>)
        ensures
            r matches Some(i) ==> i < self.interruptions@.len() && position_of(
                interruption_ids(self@.interruptions),
                id@,
            ) == Some(i as int),
            r is None ==> position_of(interruption_ids(self@.interruptions), id@) is None,
    {
        let target: String = id.to_owned();
        let ghost ids = interruption_ids(self@.interruptions);
        let mut i: usize = 0;
        while i < self.interruptions.len()
            invariant
                i <= self.interruptions@.len(),
                target@ == id@,
                ids == interruption_ids(self@.interruptions),
                forall|j: int| 0 <= j < i ==> ids[j] != id@,
            decreases self.interruptions@.len() - i,
        {
            if self.interruptions[i].id == target {
                proof {
                    lemma_position_found(ids, id@, i as int);
                }
                return Some(i);
            }
            i = i + 1;
        }
        proof {
            lemma_position_absent(ids, id@);
        }
        None
    }

    /// Selects an open task as the active one (`Some`), or clears the
    /// selection (`None`); `false` when the task is gone or done.
    pub fn select_task(&mut self, task_id: Option<String>) -> (r: bool)
        ensures
            (final(self)@, r) == old(self)@.select_task(opt_text(task_id)),
    {
        match task_id {
            Some(task_id) => {
                if !self.has_open_task(task_id.as_str()) {
                    return false;
                }
                self.timer.active_task_id = Some(task_id);
            },
            None => self.timer.active_task_id = None,
        }
        assert(self@ =~= old(self)@.select_task(opt_text(task_id)).0);
        true
    }

    /// Adds a task; `None` for a blank title.
    pub fn create_task(&mut self, title: &str, estimate: u32, now_ms: i64) -> (r: Option<FocusTask>)
        ensures
            final(self)@ == old(self)@.create_task(title@, estimate, now_ms).0,
            match r {
                Some(t) => old(self)@.create_task(title@, estimate, now_ms).1 == Some(t@),
                None => old(self)@.create_task(title@, estimate, now_ms).1 is None,
            },
            r matches Some(t) ==> !task_ids(old(self)@.tasks).contains(t@.id),
    {
        let trimmed_title = trim(title);
        if trimmed_title.unicode_len() == 0 {
            return None;
        }
        let ids = self.task_id_list();
        let id = unique_id("task", now_ms, &ids);
        let task = FocusTask {
            id,
            title: trimmed_title.to_owned(),
            estimate: if estimate < 1 {
                1
            } else {
                estimate
            },
            completed_pomodoros: 0,
            done: false,
            created_at: now_ms,
            completed_at: None,
        };
        let copy = task.duplicate();
        let ghost before = self.tasks@;
        self.tasks.push(task);
        assert(task_views(self.tasks@) =~= task_views(before).push(copy@));
        assert(self@ =~= old(self)@.create_task(title@, estimate, now_ms).0);
        Some(copy)
    }

    fn release_finished(&mut self, id: &String, done: bool)
        ensures
            final(self)@ == old(self)@.release_finished(id@, done),
    {
        if done && holds(&self.timer.active_task_id, id) && (self.timer.phase != Phase::Focus
            || self.timer.status == TimerStatus::Idle) {
            self.timer.active_task_id = None;
        }
        assert(self@ =~= old(self)@.release_finished(id@, done));
    }

    /// Edits a task's title, estimate and done state; `false` for a blank
    /// title or an unknown id.
    pub fn update_task(&mut self, id: &str, title: &str, estimate: u32, done: bool, now_ms: i64) -> (r:
        bool)
        ensures
            (final(self)@, r) == old(self)@.update_task(id@, title@, estimate, done, now_ms),
    {
        let trimmed_title = trim(title);
        if trimmed_title.unicode_len() == 0 {
            return false;
        }
        let Some(i) = self.find_task(id) else {
            return false;
        };
        let old_task = &self.tasks[i];
        let completed_at = if old_task.done != done {
            if done {
                Some(now_ms)
            } else {
                None
            }
        } else if !done {
            None
        } else {
            old_task.completed_at
        };
        let task = FocusTask {
            id: old_task.id.clone(),
            title: trimmed_title.to_owned(),
            estimate: if estimate < 1 {
                1
            } else {
                estimate
            },
            completed_pomodoros: old_task.completed_pomodoros,
            done,
            created_at: old_task.created_at,
            completed_at,
        };
        let ghost updated = task@;
        self.tasks.set(i, task);
        let ghost mid = AppView {
            tasks: old(self)@.tasks.update(i as int, updated),
            ..old(self)@
        };
        assert(self@ =~= mid);
        let key: String = id.to_owned();
        self.release_finished(&key, done);
        true
    }

    /// Marks a task done or not done; `false` for an unknown id.
    pub fn set_task_done(&mut self, id: &str, done: bool, now_ms: i64) -> (r: bool)
        ensures
            (final(self)@, r) == old(self)@.set_task_done(id@, done, now_ms),
    {
        let Some(i) = self.find_task(id) else {
            return false;
        };
        let old_task = &self.tasks[i];
        let task = FocusTask {
            id: old_task.id.clone(),
            title: old_task.title.clone(),
            estimate: old_task.estimate,
            completed_pomodoros: old_task.completed_pomodoros,
            done,
            created_at: old_task.created_at,
            completed_at: if done {
                Some(now_ms)
            } else {
                None
            },
        };
        let ghost updated = task@;
        self.tasks.set(i, task);
        let ghost mid = AppView {
            tasks: old(self)@.tasks.update(i as int, updated),
            ..old(self)@
        };
        assert(self@ =~= mid);
        let key: String = id.to_owned();
        self.release_finished(&key, done);
        true
    }

    /// Deletes every task with this id and clears every link to it; `false`
    /// if there was none.
    pub fn delete_task(&mut self, id: &str) -> (r: bool)
        ensures
            (final(self)@, r) == old(self)@.delete_task(id@),
    {
        let key: String = id.to_owned();
        let mut kept: Vec<FocusTask> = Vec::new();
        let mut i: usize = 0;
        let ghost all = old(self)@.tasks;
        while i < self.tasks.len()
            invariant
                i <= self.tasks@.len(),
                key@ == id@,
                *self == *old(self),
                all == task_views(self.tasks@),
                task_views(kept@) == tasks_without(all.take(i as int), id@),
                kept@.len() <= i,
            decreases self.tasks@.len() - i,
        {
            proof {
                assert(all.take(i as int + 1).drop_last() =~= all.take(i as int));
                assert(all.take(i as int + 1).last() == self.tasks@[i as int]@);
            }
            if !(self.tasks[i].id == key) {
                let ghost before = kept@;
                kept.push(self.tasks[i].duplicate());
                assert(task_views(kept@) =~= task_views(before).push(self.tasks@[i as int]@));
            }
            i = i + 1;
        }
        assert(all.take(i as int) =~= all);
        if kept.len() == self.tasks.len() {
            return false;
        }
        self.tasks = kept;
        if holds(&self.timer.active_task_id, &key) {
            self.timer.active_task_id = None;
        }
        let mut j: usize = 0;
        let ghost notes = old(self)@.interruptions;
        let ghost mid = *self;
        while j < self.interruptions.len()
            invariant
                j <= self.interruptions@.len(),
                self.tasks == mid.tasks,
                self.timer == mid.timer,
                self.settings == mid.settings,
                self.sessions == mid.sessions,
                self.notifications == mid.notifications,
                self.banner_restore == mid.banner_restore,
                self.capture_status == mid.capture_status,
                self.recovered_store == mid.recovered_store,
                mid.notifications == old(self).notifications,
                key@ == id@,
                notes.len() == self.interruptions@.len(),
                forall|q: int|
                    0 <= q < j ==> #[trigger] self.interruptions@[q]@ == notes[q].released(id@),
                forall|q: int|
                    j <= q < notes.len() ==> #[trigger] self.interruptions@[q]@ == notes[q],
            decreases self.interruptions@.len() - j,
        {
            assert(self.interruptions@[j as int]@ == notes[j as int]);
            let ghost before = self.interruptions@;
            let note = &self.interruptions[j];
            if holds(&note.task_id, &key) || holds(&note.converted_task_id, &key) {
                let updated = Interruption {
                    id: note.id.clone(),
                    text: note.text.clone(),
                    category: note.category,
                    captured_at: note.captured_at,
                    handled: note.handled,
                    task_id: if holds(&note.task_id, &key) {
                        None
                    } else {
                        copy_opt_text(&note.task_id)
                    },
                    converted_task_id: if holds(&note.converted_task_id, &key) {
                        None
                    } else {
                        copy_opt_text(&note.converted_task_id)
                    },
                };
                self.interruptions.set(j, updated);
            }
            assert(self.interruptions@[j as int]@ =~= notes[j as int].released(id@));
            j = j + 1;
        }
        assert(interruption_views(self.interruptions@) =~= released_interruptions(notes, id@));
        let mut k: usize = 0;
        let ghost rows = old(self)@.notifications;
        let ghost mid2 = *self;
        while k < self.notifications.len()
            invariant
                k <= self.notifications@.len(),
                self.tasks == mid2.tasks,
                self.timer == mid2.timer,
                self.settings == mid2.settings,
                self.sessions == mid2.sessions,
                self.interruptions == mid2.interruptions,
                self.banner_restore == mid2.banner_restore,
                self.capture_status == mid2.capture_status,
                self.recovered_store == mid2.recovered_store,
                key@ == id@,
                rows.len() == self.notifications@.len(),
                forall|q: int|
                    0 <= q < k ==> #[trigger] self.notifications@[q]@ == rows[q].released(id@),
                forall|q: int| k <= q < rows.len() ==> #[trigger] self.notifications@[q]@ == rows[q],
            decreases self.notifications@.len() - k,
        {
            assert(self.notifications@[k as int]@ == rows[k as int]);
            let row = &self.notifications[k];
            if holds(&row.task_id, &key) {
                let updated = DesktopNotification {
                    id: row.id.clone(),
                    app_name: row.app_name.clone(),
                    summary: row.summary.clone(),
                    body: row.body.clone(),
                    urgency: row.urgency,
                    received_at: row.received_at,
                    during_focus: row.during_focus,
                    triaged: row.triaged,
                    replaces_id: row.replaces_id,
                    task_id: None,
                };
                self.notifications.set(k, updated);
            }
            assert(self.notifications@[k as int]@ =~= rows[k as int].released(id@));
            k = k + 1;
        }
        assert(notification_views(self.notifications@) =~= released_notifications(rows, id@));
        assert(self@ =~= old(self)@.delete_task(id@).0);
        true
    }

    /// Notes an interruption; `None` for blank text.
    pub fn capture_interruption(
        &mut self,
        text: &str,
        category: InterruptionCategory,
        now_ms: i64,
    ) -> (r: Option<Interruption>)
        ensures
            final(self)@ == old(self)@.capture_interruption(text@, category, now_ms).0,
            match r {
                Some(n) => old(self)@.capture_interruption(text@, category, now_ms).1 == Some(n@),
                None => old(self)@.capture_interruption(text@, category, now_ms).1 is None,
            },
            r matches Some(n) ==> !interruption_ids(old(self)@.interruptions).contains(n@.id),
    {
        let trimmed_text = trim(text);
        if trimmed_text.unicode_len() == 0 {
            return None;
        }
        let ids = self.interruption_id_list();
        let id = unique_id("interruption", now_ms, &ids);
        let note = Interruption {
            id,
            text: trimmed_text.to_owned(),
            category,
            captured_at: now_ms,
            handled: false,
            task_id: copy_opt_text(&self.timer.active_task_id),
            converted_task_id: None,
        };
        let copy = note.duplicate();
        let ghost before = self.interruptions@;
        self.interruptions.push(note);
        assert(interruption_views(self.interruptions@) =~= interruption_views(before).push(copy@));
        assert(self@ =~= old(self)@.capture_interruption(text@, category, now_ms).0);
        Some(copy)
    }

    pub fn handle_interruption(&mut self, id: &str) -> (r: bool)
        ensures
            (final(self)@, r) == old(self)@.set_interruption_handled(id@, true),
    {
        self.set_interruption_handled(id, true)
    }

    /// Turns an interruption into a task, at most once, and returns the
    /// task's id whether it was made now or by an earlier call.
    pub fn convert_interruption_to_task(&mut self, id: &str, now_ms: i64) -> (r: Option<String>)
        ensures
            final(self)@ == old(self)@.convert_interruption_to_task(id@, now_ms).0,
            opt_text(r) == old(self)@.convert_interruption_to_task(id@, now_ms).1,
    {
        let Some(p) = self.find_interruption(id) else {
            return None;
        };
        let text = self.interruptions[p].text.clone();
        let existing = copy_opt_text(&self.interruptions[p].converted_task_id);
        if let Some(task_id) = existing {
            let ids = self.task_id_list();
            if crate::ids::contains_text(&ids, task_id.as_str()) {
                self.handle_interruption(id);
                return Some(task_id);
            }
        }
        let made = self.create_task(text.as_str(), 1, now_ms);
        let Some(task) = made else {
            return None;
        };
        let ghost s = self@;
        let note = &self.interruptions[p];
        let updated = Interruption {
            id: note.id.clone(),
            text: note.text.clone(),
            category: note.category,
            captured_at: note.captured_at,
            handled: true,
            task_id: copy_opt_text(&note.task_id),
            converted_task_id: Some(task.id.clone()),
        };
        self.interruptions.set(p, updated);
        assert(interruption_views(self.interruptions@) =~= s.interruptions.update(
            p as int,
            InterruptionView { converted_task_id: Some(task@.id), handled: true, ..s.interruptions[p as int] },
        ));
        assert(self@ =~= old(self)@.convert_interruption_to_task(id@, now_ms).0);
        Some(task.id)
    }

    pub fn set_interruption_handled(&mut self, id: &str, handled: bool) -> (r: bool)
        ensures
            (final(self)@, r) == old(self)@.set_interruption_handled(id@, handled),
    {
        let Some(i) = self.find_interruption(id) else {
            return false;
        };
        let mut note = self.interruptions[i].duplicate();
        note.handled = handled;
        let ghost updated = note@;
        self.interruptions.set(i, note);
        assert(interruption_views(self.interruptions@) =~= old(self)@.interruptions.update(
            i as int,
            updated,
        ));
        assert(self@ =~= old(self)@.set_interruption_handled(id@, handled).0);
        true
    }

    /// Deletes every interruption with this id; `false` if there was none.
    pub fn delete_interruption(&mut self, id: &str) -> (r: bool)
        ensures
            (final(self)@, r) == old(self)@.delete_interruption(id@),
    {
        let key: String = id.to_owned();
        let mut kept: Vec<Interruption> = Vec::new();
        let mut i: usize = 0;
        let ghost all = old(self)@.interruptions;
        while i < self.interruptions.len()
            invariant
                i <= self.interruptions@.len(),
                key@ == id@,
                *self == *old(self),
                all == interruption_views(self.interruptions@),
                interruption_views(kept@) == interruptions_without(all.take(i as int), id@),
                kept@.len() <= i,
            decreases self.interruptions@.len() - i,
        {
            proof {
                assert(all.take(i as int + 1).drop_last() =~= all.take(i as int));
                assert(all.take(i as int + 1).last() == self.interruptions@[i as int]@);
            }
            if !(self.interruptions[i].id == key) {
                let ghost before = kept@;
                kept.push(self.interruptions[i].duplicate());
                assert(interruption_views(kept@) =~= interruption_views(before).push(
                    self.interruptions@[i as int]@,
                ));
            }
            i = i + 1;
        }
        assert(all.take(i as int) =~= all);
        if kept.len() == self.interruptions.len() {
            return false;
        }
        self.interruptions = kept;
        assert(self@ =~= old(self)@.delete_interruption(id@).0);
        true
    }
}

} // verus!
