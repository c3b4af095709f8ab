//! Deadline-based countdown, phase transitions and session accounting.

use super::{
    copy_opt_text, has_open_task, opt_text, position_of, sat_add, sat_i64, sat_inc, sat_sub,
    session_ids, session_views, task_ids, task_views, AppData, AppView,
};
use crate::ids::{first_free_id, id_base, unique_id};
use super::settings::{Settings, SettingsView};
use vstd::prelude::*;

verus! {

/// Oldest-first cap on session history.
pub const SESSION_RETENTION: usize = 5_000;

#[derive(Clone, Copy, Debug, PartialEq, Eq, Structural)]
pub enum Phase {
    Focus,
    ShortBreak,
    LongBreak,
}

#[derive(Clone, Copy, Debug, PartialEq, Eq, Structural)]
pub enum TimerStatus {
    Idle,
    Running,
    Paused,
}

#[derive(Clone, Copy, Debug, PartialEq, Eq, Structural)]
pub enum SessionOutcome {
    Completed,
    Skipped,
    Abandoned,
}

impl Default for Phase {
    fn default() -> (r: Self)
        ensures
            r == Phase::Focus,
    {
        Phase::Focus
    }
}

impl Default for TimerStatus {
    fn default() -> (r: Self)
        ensures
            r == TimerStatus::Idle,
    {
        TimerStatus::Idle
    }
}

impl Default for SessionOutcome {
    fn default() -> (r: Self)
        ensures
            r == SessionOutcome::Completed,
    {
        SessionOutcome::Completed
    }
}

impl Phase {
    pub open spec fn spec_is_break(self) -> bool {
        self == Phase::ShortBreak || self == Phase::LongBreak
    }

    #[verifier::when_used_as_spec(spec_is_break)]
    pub fn is_break(self) -> (r: bool)
        ensures
            r == self.spec_is_break(),
    {
        match self {
            Phase::Focus => false,
            Phase::ShortBreak | Phase::LongBreak => true,
        }
    }
}

#[derive(Clone, Debug, PartialEq, Eq)]
pub struct TimerState {
    pub phase: Phase,
    pub status: TimerStatus,
    pub duration_seconds: u32,
    pub remaining_seconds: u32,
    pub started_at: Option<i64>,
    pub ends_at: Option<i64>,
    pub active_task_id: Option<String>,
    pub completed_in_cycle: u32,
}

#[verifier::ext_equal]
pub struct TimerView {
    pub phase: Phase,
    pub status: TimerStatus,
    pub duration_seconds: u32,
    pub remaining_seconds: u32,
    pub started_at: Option<i64>,
    pub ends_at: Option<i64>,
    pub active_task_id: Option<Seq<char>>,
    pub completed_in_cycle: u32,
}

impl View for TimerState {
    type V = TimerView;

    open spec fn view(&self) -> TimerView {
        TimerView {
            phase: self.phase,
            status: self.status,
            duration_seconds: self.duration_seconds,
            remaining_seconds: self.remaining_seconds,
            started_at: self.started_at,
            ends_at: self.ends_at,
            active_task_id: opt_text(self.active_task_id),
            completed_in_cycle: self.completed_in_cycle,
        }
    }
}

#[derive(Clone, Debug, PartialEq, Eq)]
pub struct SessionRecord {
    pub id: String,
    pub phase: Phase,
    pub task_id: Option<String>,
    pub task_title: Option<String>,
    pub duration_seconds: u32,
    pub started_at: i64,
    pub ended_at: i64,
    pub outcome: SessionOutcome,
}

#[verifier::ext_equal]
pub struct SessionView {
    pub id: Seq<char>,
    pub phase: Phase,
    pub task_id: Option<Seq<char>>,
    pub task_title: Option<Seq<char>>,
    pub duration_seconds: u32,
    pub started_at: i64,
    pub ended_at: i64,
    pub outcome: SessionOutcome,
}

impl View for SessionRecord {
    type V = SessionView;

    open spec fn view(&self) -> SessionView {
        SessionView {
            id: self.id@,
            phase: self.phase,
            task_id: opt_text(self.task_id),
            task_title: opt_text(self.task_title),
            duration_seconds: self.duration_seconds,
            started_at: self.started_at,
            ended_at: self.ended_at,
            outcome: self.outcome,
        }
    }
}

impl Default for SessionRecord {
    fn default() -> (r: Self)
        ensures
            r@ == (SessionView {
                id: Seq::empty(),
                phase: Phase::Focus,
                task_id: None,
                task_title: None,
                duration_seconds: 0,
                started_at: 0,
                ended_at: 0,
                outcome: SessionOutcome::Completed,
            }),
    {
        SessionRecord {
            id: String::new(),
            phase: Phase::Focus,
            task_id: None,
            task_title: None,
            duration_seconds: 0,
            started_at: 0,
            ended_at: 0,
            outcome: SessionOutcome::Completed,
        }
    }
}

impl TimerView {
    /// An idle timer at the start of `phase`, with its full length left.
    pub open spec fn for_phase(phase: Phase, settings: SettingsView) -> TimerView {
        let d = settings.duration_seconds(phase);
        TimerView {
            phase,
            status: TimerStatus::Idle,
            duration_seconds: d,
            remaining_seconds: d,
            started_at: None,
            ends_at: None,
            active_task_id: None,
            completed_in_cycle: 0,
        }
    }
}

impl TimerState {
    pub fn for_phase(phase: Phase, settings: &Settings) -> (r: Self)
        ensures
            r@ == TimerView::for_phase(phase, settings@),
    {
        let duration_seconds = settings.duration_seconds(phase);
        TimerState {
            phase,
            status: TimerStatus::Idle,
            duration_seconds,
            remaining_seconds: duration_seconds,
            started_at: None,
            ends_at: None,
            active_task_id: None,
            completed_in_cycle: 0,
        }
    }
}

impl Default for TimerState {
    fn default() -> (r: Self)
        ensures
            r@ == TimerView::for_phase(Phase::Focus, SettingsView::initial()),
    {
        let settings = Settings::default();
        TimerState::for_phase(Phase::Focus, &settings)
    }
}

/// The moment `seconds` from `now_ms`, saturating.
pub open spec fn deadline(now_ms: i64, seconds: u32) -> i64 {
    sat_i64(now_ms + seconds * 1000)
}

fn deadline_from(now_ms: i64, seconds: u32) -> (r: i64)
    ensures
        r == deadline(now_ms, seconds),
{
    sat_add(now_ms, (seconds as i64) * 1000)
}

impl TimerView {
    /// The whole seconds left at `now_ms`, rounded up, never more than the
    /// interval's length. Only a running timer with a deadline counts down.
    pub open spec fn remaining_at(self, now_ms: i64) -> u32 {
        let stored = if self.remaining_seconds < self.duration_seconds {
            self.remaining_seconds
        } else {
            self.duration_seconds
        };
        if self.status != TimerStatus::Running {
            stored
        } else {
            match self.ends_at {
                None => stored,
                Some(ends_at) => {
                    let left = sat_i64(ends_at - now_ms);
                    if left <= 0 {
                        0
                    } else {
                        let seconds = sat_i64(left + 999) / 1000;
                        if seconds < self.duration_seconds {
                            seconds as u32
                        } else {
                            self.duration_seconds
                        }
                    }
                },
            }
        }
    }

    /// The timer with its stored remaining time brought up to `now_ms`; a
    /// timer that is not running keeps no deadline.
    pub open spec fn normalized(self, now_ms: i64) -> TimerView {
        TimerView {
            remaining_seconds: self.remaining_at(now_ms),
            ends_at: if self.status != TimerStatus::Running {
                None
            } else {
                self.ends_at
            },
            ..self
        }
    }

    /// An interval that has begun: counting, paused, or stamped with a start.
    pub open spec fn has_begun(self) -> bool {
        self.status != TimerStatus::Idle || self.started_at is Some
    }
}

/// The sessions kept once a record is added: the newest
/// [`SESSION_RETENTION`].
pub open spec fn retained(sessions: Seq<SessionView>) -> Seq<SessionView> {
    if sessions.len() > SESSION_RETENTION {
        sessions.subrange(sessions.len() - SESSION_RETENTION, sessions.len() as int)
    } else {
        sessions
    }
}

impl AppView {
    pub open spec fn with_timer(self, timer: TimerView) -> AppView {
        AppView { timer, ..self }
    }

    /// The title of the task with this id, if there is one.
    pub open spec fn title_of(self, id: Option<Seq<char>>) -> Option<Seq<char>> {
        match id {
            Some(id) => match position_of(task_ids(self.tasks), id) {
                Some(i) => Some(self.tasks[i].title),
                None => None,
            },
            None => None,
        }
    }

    /// The record of the current interval, ended with `outcome` at `now_ms`.
    /// A completion ends at its deadline (never later than now); anything
    /// ended by hand ends now. Only a completion is credited its full length.
    pub open spec fn session_record(self, outcome: SessionOutcome, now_ms: i64) -> SessionView {
        let t = self.timer;
        let ended_at = if outcome == SessionOutcome::Completed {
            match t.ends_at {
                Some(e) => if e < now_ms {
                    e
                } else {
                    now_ms
                },
                None => now_ms,
            }
        } else {
            now_ms
        };
        let started_at = match t.started_at {
            Some(s) => if s < ended_at {
                s
            } else {
                ended_at
            },
            None => ended_at,
        };
        let left = t.remaining_at(now_ms);
        let duration_seconds = if outcome == SessionOutcome::Completed {
            t.duration_seconds
        } else if t.duration_seconds > left {
            (t.duration_seconds - left) as u32
        } else {
            0
        };
        SessionView {
            id: first_free_id(id_base("session"@, now_ms), session_ids(self.sessions), true),
            phase: t.phase,
            task_id: t.active_task_id,
            task_title: self.title_of(t.active_task_id),
            duration_seconds,
            started_at,
            ended_at,
            outcome,
        }
    }

    pub open spec fn record_session(self, outcome: SessionOutcome, now_ms: i64) -> AppView {
        AppView {
            sessions: retained(self.sessions.push(self.session_record(outcome, now_ms))),
            ..self
        }
    }

    /// One more completed focus for the active task, if it still exists.
    pub open spec fn credit_active_task(self) -> AppView {
        match self.timer.active_task_id {
            Some(id) => match position_of(task_ids(self.tasks), id) {
                Some(i) => AppView {
                    tasks: self.tasks.update(
                        i,
                        super::tasks::TaskView {
                            completed_pomodoros: sat_inc(self.tasks[i].completed_pomodoros),
                            ..self.tasks[i]
                        },
                    ),
                    ..self
                },
                None => self,
            },
            None => self,
        }
    }

    /// The active task exists and is not done.
    pub open spec fn active_is_open(self) -> bool {
        match self.timer.active_task_id {
            Some(id) => has_open_task(self.tasks, id),
            None => false,
        }
    }

    /// A break starts itself when breaks are set to; a focus only when
    /// focus is set to and its task is still open.
    pub open spec fn should_auto_start(self, phase: Phase) -> bool {
        if phase.spec_is_break() {
            self.settings.auto_start_breaks
        } else {
            self.settings.auto_start_focus && self.active_is_open()
        }
    }

    /// The timer at the start of `phase`, running from `now_ms` if `start`.
    /// A focus keeps the active task only if it is still open.
    pub open spec fn enter_phase(self, phase: Phase, now_ms: i64, start: bool) -> AppView {
        let active = if phase == Phase::Focus && !self.active_is_open() {
            None
        } else {
            self.timer.active_task_id
        };
        let d = self.settings.duration_seconds(phase);
        self.with_timer(
            TimerView {
                phase,
                status: if start {
                    TimerStatus::Running
                } else {
                    TimerStatus::Idle
                },
                duration_seconds: d,
                remaining_seconds: d,
                started_at: if start {
                    Some(now_ms)
                } else {
                    None
                },
                ends_at: if start {
                    Some(deadline(now_ms, d))
                } else {
                    None
                },
                active_task_id: active,
                completed_in_cycle: self.timer.completed_in_cycle,
            },
        )
    }

    /// Starts an idle timer or resumes a paused one, with a fresh deadline.
    pub open spec fn start_or_resume(self, now_ms: i64) -> (AppView, bool) {
        let t = self.timer;
        if t.status == TimerStatus::Running {
            (self.with_timer(t.normalized(now_ms)), false)
        } else {
            let remaining = if t.remaining_seconds == 0 {
                t.duration_seconds
            } else {
                t.remaining_seconds
            };
            let started_at = if t.status == TimerStatus::Idle || t.started_at is None {
                Some(now_ms)
            } else {
                t.started_at
            };
            (
                self.with_timer(
                    TimerView {
                        status: TimerStatus::Running,
                        remaining_seconds: remaining,
                        started_at,
                        ends_at: Some(deadline(now_ms, remaining)),
                        ..t
                    },
                ),
                true,
            )
        }
    }

    /// Completes a running interval whose time is up: records it, credits a
    /// focus, moves the cycle on and enters the next phase, which starts
    /// itself only if `allow_auto_start` and the settings say so.
    pub open spec fn complete_due(self, now_ms: i64, allow_auto_start: bool) -> (
        AppView,
        Option<Phase>,
    ) {
        if self.timer.status != TimerStatus::Running {
            (self, None)
        } else {
            let s1 = self.with_timer(self.timer.normalized(now_ms));
            if s1.timer.remaining_seconds > 0 {
                (s1, None)
            } else {
                let completed = s1.timer.phase;
                let s2 = s1.record_session(SessionOutcome::Completed, now_ms);
                let (s3, next) = match completed {
                    Phase::Focus => {
                        let count = sat_inc(s2.timer.completed_in_cycle);
                        let s = s2.with_timer(
                            TimerView { completed_in_cycle: count, ..s2.timer },
                        ).credit_active_task();
                        (
                            s,
                            if count >= s2.settings.rounds_before_long_break {
                                Phase::LongBreak
                            } else {
                                Phase::ShortBreak
                            },
                        )
                    },
                    Phase::ShortBreak => (s2, Phase::Focus),
                    Phase::LongBreak => (
                        s2.with_timer(TimerView { completed_in_cycle: 0, ..s2.timer }),
                        Phase::Focus,
                    ),
                };
                let auto = allow_auto_start && s3.should_auto_start(next);
                (s3.enter_phase(next, now_ms, auto), Some(completed))
            }
        }
    }

    pub open spec fn tick(self, now_ms: i64) -> (AppView, Option<Phase>) {
        self.complete_due(now_ms, true)
    }

    pub open spec fn recover_at_launch(self, now_ms: i64) -> (AppView, bool) {
        let (s, completed) = self.complete_due(now_ms, false);
        (s, completed is Some)
    }

    /// Pauses a running timer; one already due is completed instead.
    pub open spec fn pause(self, now_ms: i64) -> (AppView, bool) {
        if self.timer.status != TimerStatus::Running {
            (self, false)
        } else if self.timer.remaining_at(now_ms) == 0 {
            (self.tick(now_ms).0, false)
        } else {
            let t = self.timer.normalized(now_ms);
            (
                self.with_timer(TimerView { status: TimerStatus::Paused, ends_at: None, ..t }),
                true,
            )
        }
    }

    /// Pauses for a quit: a due interval is completed with the next phase
    /// left idle; anything else is paused.
    pub open spec fn pause_to_quit(self, now_ms: i64) -> AppView {
        let (s, completed) = self.complete_due(now_ms, false);
        if completed is None {
            s.pause(now_ms).0
        } else {
            s
        }
    }

    /// Puts the current phase back to its full length; an interval that had
    /// begun is recorded as abandoned.
    pub open spec fn reset(self, now_ms: i64) -> AppView {
        let s = if self.timer.has_begun() {
            self.record_session(SessionOutcome::Abandoned, now_ms)
        } else {
            self
        };
        s.enter_phase(s.timer.phase, now_ms, false)
    }

    /// Skips the current phase without focus credit; a due interval is
    /// completed instead. Returns the phase now current.
    pub open spec fn skip(self, now_ms: i64) -> (AppView, Phase) {
        if self.timer.status == TimerStatus::Running && self.timer.remaining_at(now_ms) == 0 {
            let s = self.tick(now_ms).0;
            (s, s.timer.phase)
        } else {
            let skipped = self.timer.phase;
            let s1 = if self.timer.has_begun() {
                self.record_session(SessionOutcome::Skipped, now_ms)
            } else {
                self
            };
            let s2 = if skipped == Phase::LongBreak {
                s1.with_timer(TimerView { completed_in_cycle: 0, ..s1.timer })
            } else {
                s1
            };
            let next = if skipped == Phase::Focus {
                Phase::ShortBreak
            } else {
                Phase::Focus
            };
            (s2.enter_phase(next, now_ms, s2.should_auto_start(next)), next)
        }
    }

    /// Changes the phase; an interval that had begun is recorded as abandoned.
    pub open spec fn set_phase(self, phase: Phase, now_ms: i64) -> AppView {
        if self.timer.phase == phase && self.timer.status == TimerStatus::Idle {
            self
        } else {
            let s = if self.timer.has_begun() {
                self.record_session(SessionOutcome::Abandoned, now_ms)
            } else {
                self
            };
            s.enter_phase(phase, now_ms, false)
        }
    }

    /// A focus interval is actually counting down at `now_ms`.
    pub open spec fn is_focus_running(self, now_ms: i64) -> bool {
        &&& self.timer.phase == Phase::Focus
        &&& self.timer.status == TimerStatus::Running
        &&& self.timer.remaining_at(now_ms) > 0
    }
}

impl TimerState {
    /// The display value for the countdown at `now_ms`; see
    /// [`TimerView::remaining_at`].
    pub fn current_remaining_seconds(&self, now_ms: i64) -> (r: u32)
        ensures
            r == self@.remaining_at(now_ms),
    {
        let stored = if self.remaining_seconds < self.duration_seconds {
            self.remaining_seconds
        } else {
            self.duration_seconds
        };
        if self.status != TimerStatus::Running {
            return stored;
        }
        match self.ends_at {
            None => stored,
            Some(ends_at) => {
                let left = sat_sub(ends_at, now_ms);
                if left <= 0 {
                    return 0;
                }
                let seconds = sat_add(left, 999) / 1000;
                if seconds < self.duration_seconds as i64 {
                    seconds as u32
                } else {
                    self.duration_seconds
                }
            },
        }
    }

    pub fn normalize_remaining(&mut self, now_ms: i64)
        ensures
            final(self)@ == old(self)@.normalized(now_ms),
    {
        self.remaining_seconds = self.current_remaining_seconds(now_ms);
        if self.status != TimerStatus::Running {
            self.ends_at = None;
        }
        assert(self@ =~= old(self)@.normalized(now_ms));
    }
}

impl AppData {
    /// Starts an idle timer or resumes a paused one; `false` if it was
    /// already running.
    pub fn start_or_resume(&mut self, now_ms: i64) -> (r: bool)
        ensures
            (final(self)@, r) == old(self)@.start_or_resume(now_ms),
    {
        if self.timer.status == TimerStatus::Running {
            self.timer.normalize_remaining(now_ms);
            assert(self@ =~= old(self)@.start_or_resume(now_ms).0);
            return false;
        }
        if self.timer.remaining_seconds == 0 {
            self.timer.remaining_seconds = self.timer.duration_seconds;
        }
        if self.timer.status == TimerStatus::Idle {
            self.timer.started_at = Some(now_ms);
        } else if self.timer.started_at.is_none() {
            self.timer.started_at = Some(now_ms);
        }
        self.timer.status = TimerStatus::Running;
        self.timer.ends_at = Some(deadline_from(now_ms, self.timer.remaining_seconds));
        assert(self@ =~= old(self)@.start_or_resume(now_ms).0);
        true
    }

    /// Pauses a running timer; `false` if it was not running, or if it was
    /// already due, in which case it is completed instead.
    pub fn pause(&mut self, now_ms: i64) -> (r: bool)
        ensures
            (final(self)@, r) == old(self)@.pause(now_ms),
    {
        if self.timer.status != TimerStatus::Running {
            return false;
        }
        if self.timer.current_remaining_seconds(now_ms) == 0 {
            self.tick(now_ms);
            return false;
        }
        self.timer.normalize_remaining(now_ms);
        self.timer.status = TimerStatus::Paused;
        self.timer.ends_at = None;
        assert(self@ =~= old(self)@.pause(now_ms).0);
        true
    }

    /// Pauses for a quit: a due interval is completed without starting the
    /// next one.
    pub fn pause_to_quit(&mut self, now_ms: i64)
        ensures
            final(self)@ == old(self)@.pause_to_quit(now_ms),
    {
        if self.complete_due(now_ms, false).is_none() {
            self.pause(now_ms);
        }
    }

    /// Resets the current phase; a begun interval is recorded as abandoned.
    pub fn reset(&mut self, now_ms: i64)
        ensures
            final(self)@ == old(self)@.reset(now_ms),
    {
        if self.timer.status != TimerStatus::Idle || self.timer.started_at.is_some() {
            self.record_session(SessionOutcome::Abandoned, now_ms);
        }
        let phase = self.timer.phase;
        self.enter_phase(phase, now_ms, false);
    }

    /// Skips the current phase and returns the phase now current.
    pub fn skip(&mut self, now_ms: i64) -> (r: Phase)
        ensures
            (final(self)@, r) == old(self)@.skip(now_ms),
    {
        if self.timer.status == TimerStatus::Running && self.timer.current_remaining_seconds(
            now_ms,
        ) == 0 {
            self.tick(now_ms);
            return self.timer.phase;
        }
        let skipped_phase = self.timer.phase;
        if self.timer.status != TimerStatus::Idle || self.timer.started_at.is_some() {
            self.record_session(SessionOutcome::Skipped, now_ms);
        }
        if skipped_phase == Phase::LongBreak {
            self.timer.completed_in_cycle = 0;
        }
        let next_phase = match skipped_phase {
            Phase::Focus => Phase::ShortBreak,
            Phase::ShortBreak | Phase::LongBreak => Phase::Focus,
        };
        let auto_start = self.should_auto_start(next_phase);
        self.enter_phase(next_phase, now_ms, auto_start);
        next_phase
    }

    /// Changes the phase explicitly; begun work is recorded as abandoned.
    pub fn set_phase(&mut self, phase: Phase, now_ms: i64)
        ensures
            final(self)@ == old(self)@.set_phase(phase, now_ms),
    {
        if self.timer.phase == phase && self.timer.status == TimerStatus::Idle {
            return;
        }
        if self.timer.status != TimerStatus::Idle || self.timer.started_at.is_some() {
            self.record_session(SessionOutcome::Abandoned, now_ms);
        }
        self.enter_phase(phase, now_ms, false);
    }

    /// Advances an expired running phase at most once, returning the phase
    /// that completed.
    pub fn tick(&mut self, now_ms: i64) -> (r: Option<Phase>)
        ensures
            (final(self)@, r) == old(self)@.tick(now_ms),
    {
        self.complete_due(now_ms, true)
    }

    /// Settles at launch a phase whose deadline passed while the app was not
    /// running; the next phase waits, idle. Returns whether anything changed.
    pub fn recover_at_launch(&mut self, now_ms: i64) -> (r: bool)
        ensures
            (final(self)@, r) == old(self)@.recover_at_launch(now_ms),
    {
        self.complete_due(now_ms, false).is_some()
    }

    fn complete_due(&mut self, now_ms: i64, allow_auto_start: bool) -> (r: Option<Phase>)
        ensures
            (final(self)@, r) == old(self)@.complete_due(now_ms, allow_auto_start),
    {
        if self.timer.status != TimerStatus::Running {
            return None;
        }
        self.timer.normalize_remaining(now_ms);
        assert(self@ =~= old(self)@.with_timer(old(self)@.timer.normalized(now_ms)));
        if self.timer.remaining_seconds > 0 {
            return None;
        }
        let ghost s1 = self@;
        let completed_phase = self.timer.phase;
        self.record_session(SessionOutcome::Completed, now_ms);
        let ghost s2 = self@;
        let next_phase = match completed_phase {
            Phase::Focus => {
                self.timer.completed_in_cycle = if self.timer.completed_in_cycle == u32::MAX {
                    u32::MAX
                } else {
                    self.timer.completed_in_cycle + 1
                };
                assert(self@ =~= s2.with_timer(
                    TimerView { completed_in_cycle: sat_inc(s2.timer.completed_in_cycle), ..s2.timer },
                ));
                self.credit_active_task();
                if self.timer.completed_in_cycle >= self.settings.rounds_before_long_break {
                    Phase::LongBreak
                } else {
                    Phase::ShortBreak
                }
            },
            Phase::ShortBreak => Phase::Focus,
            Phase::LongBreak => {
                self.timer.completed_in_cycle = 0;
                assert(self@ =~= s2.with_timer(TimerView { completed_in_cycle: 0, ..s2.timer }));
                Phase::Focus
            },
        };
        let auto_start = allow_auto_start && self.should_auto_start(next_phase);
        self.enter_phase(next_phase, now_ms, auto_start);
        Some(completed_phase)
    }

    /// True while a focus interval is actually counting down.
    pub fn is_focus_running(&self, now_ms: i64) -> (r: bool)
        ensures
            r == self@.is_focus_running(now_ms),
    {
        self.timer.phase == Phase::Focus && self.timer.status == TimerStatus::Running
            && self.timer.current_remaining_seconds(now_ms) > 0
    }

    fn record_session(&mut self, outcome: SessionOutcome, now_ms: i64)
        ensures
            final(self)@ == old(self)@.record_session(outcome, now_ms),
    {
        let phase = self.timer.phase;
        let ended_at = if outcome == SessionOutcome::Completed {
            match self.timer.ends_at {
                Some(e) => if e < now_ms {
                    e
                } else {
                    now_ms
                },
                None => now_ms,
            }
        } else {
            now_ms
        };
        let started_at = match self.timer.started_at {
            Some(s) => if s < ended_at {
                s
            } else {
                ended_at
            },
            None => ended_at,
        };
        let remaining_seconds = self.timer.current_remaining_seconds(now_ms);
        let duration_seconds = if outcome == SessionOutcome::Completed {
            self.timer.duration_seconds
        } else if self.timer.duration_seconds > remaining_seconds {
            self.timer.duration_seconds - remaining_seconds
        } else {
            0
        };
        let task_id = copy_opt_text(&self.timer.active_task_id);
        let task_title = match &self.timer.active_task_id {
            Some(id) => match self.find_task(id.as_str()) {
                Some(i) => Some(self.tasks[i].title.clone()),
                None => None,
            },
            None => None,
        };
        let ids = self.session_id_list();
        let id = unique_id("session", now_ms, &ids);
        let record = SessionRecord {
            id,
            phase,
            task_id,
            task_title,
            duration_seconds,
            started_at,
            ended_at,
            outcome,
        };
        proof {
            let expect = old(self)@.session_record(outcome, now_ms);
            assert(record@.id == expect.id);
            assert(record@.task_id == expect.task_id);
            assert(record@.task_title == expect.task_title);
            assert(record@.duration_seconds == expect.duration_seconds);
            assert(record@.started_at == expect.started_at);
            assert(record@.ended_at == expect.ended_at);
            assert(record@ =~= expect);
        }
        let ghost pushed = old(self)@.sessions.push(record@);
        self.sessions.push(record);
        assert(session_views(self.sessions@) =~= pushed);
        if self.sessions.len() > SESSION_RETENTION {
            let excess = self.sessions.len() - SESSION_RETENTION;
            let kept = self.sessions.split_off(excess);
            self.sessions = kept;
            assert(session_views(self.sessions@) =~= retained(pushed));
        }
        assert(self@ =~= old(self)@.record_session(outcome, now_ms));
    }

    fn credit_active_task(&mut self)
        ensures
            final(self)@ == old(self)@.credit_active_task(),
    {
        let found = match &self.timer.active_task_id {
            Some(id) => self.find_task(id.as_str()),
            None => None,
        };
        if let Some(i) = found {
            let old_task = &self.tasks[i];
            let task = super::tasks::FocusTask {
                id: old_task.id.clone(),
                title: old_task.title.clone(),
                estimate: old_task.estimate,
                completed_pomodoros: if old_task.completed_pomodoros == u32::MAX {
                    u32::MAX
                } else {
                    old_task.completed_pomodoros + 1
                },
                done: old_task.done,
                created_at: old_task.created_at,
                completed_at: old_task.completed_at,
            };
            let ghost updated = task@;
            self.tasks.set(i, task);
            proof {
                let id = old(self)@.timer.active_task_id->0;
                assert(position_of(task_ids(old(self)@.tasks), id) == Some(i as int));
                assert(updated == (super::tasks::TaskView {
                    completed_pomodoros: sat_inc(old(self)@.tasks[i as int].completed_pomodoros),
                    ..old(self)@.tasks[i as int]
                }));
                assert(task_views(self.tasks@) =~= old(self)@.tasks.update(i as int, updated));
            }
        }
        assert(self@ =~= old(self)@.credit_active_task());
    }

    fn active_is_open(&self) -> (r: bool)
        ensures
            r == self@.active_is_open(),
    {
        match &self.timer.active_task_id {
            Some(id) => self.has_open_task(id.as_str()),
            None => false,
        }
    }

    fn should_auto_start(&self, phase: Phase) -> (r: bool)
        ensures
            r == self@.should_auto_start(phase),
    {
        if phase.is_break() {
            self.settings.auto_start_breaks
        } else {
            self.settings.auto_start_focus && self.active_is_open()
        }
    }

    fn enter_phase(&mut self, phase: Phase, now_ms: i64, start: bool)
        ensures
            final(self)@ == old(self)@.enter_phase(phase, now_ms, start),
    {
        if phase == Phase::Focus && !self.active_is_open() {
            self.timer.active_task_id = None;
        }
        let duration_seconds = self.settings.duration_seconds(phase);
        self.timer.phase = phase;
        self.timer.duration_seconds = duration_seconds;
        self.timer.remaining_seconds = duration_seconds;
        self.timer.started_at = None;
        self.timer.ends_at = None;
        self.timer.status = TimerStatus::Idle;
        if start {
            self.timer.status = TimerStatus::Running;
            self.timer.started_at = Some(now_ms);
            self.timer.ends_at = Some(deadline_from(now_ms, duration_seconds));
        }
        assert(self@ =~= old(self)@.enter_phase(phase, now_ms, start));
    }
}

} // verus!
