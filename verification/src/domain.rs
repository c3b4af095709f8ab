//! Persisted application state and the public domain facade.
//!
//! Every operation on [`AppData`] is specified as a function on its view,
//! [`AppView`]: the view of the state after a call is that function of the
//! view before it.

pub mod capture;
pub mod settings;
pub mod tasks;
pub mod timer;

pub use capture::{
    CaptureState, CaptureStatus, CaptureStatusView, DesktopNotification, FilterView,
    NotificationFilter, NotificationView, MAX_APP_NAME_CHARS, MAX_BODY_CHARS, MAX_SUMMARY_CHARS,
    MAX_URGENCY, NOTIFICATION_RETENTION, REPLACE_WINDOW_MS, is_self_notification,
};
pub use settings::{Settings, SettingsView, ThemePreference, TimerFace};
pub use tasks::{FocusTask, Interruption, InterruptionCategory, InterruptionView, TaskView};
pub use timer::{
    Phase, SessionOutcome, SessionRecord, SessionView, TimerState, TimerStatus, TimerView,
    SESSION_RETENTION,
};

use crate::ids::texts;
use vstd::prelude::*;

verus! {

/// How far back the sessions in a snapshot reach: eight days.
pub const SNAPSHOT_SESSION_WINDOW_MS: i64 = 8 * 24 * 60 * 60 * 1_000;

#[derive(Clone, Debug, PartialEq, Eq)]
pub struct AppData {
    pub settings: Settings,
    pub timer: TimerState,
    pub tasks: Vec<FocusTask>,
    pub interruptions: Vec<Interruption>,
    pub sessions: Vec<SessionRecord>,
    /// Newest first, capped at [`NOTIFICATION_RETENTION`].
    pub notifications: Vec<DesktopNotification>,
    /// While Pomodoro has the desktop's banners turned off: the value to put back.
    pub banner_restore: Option<bool>,
    /// Runtime only: whether notification capture is running.
    pub capture_status: CaptureStatus,
    /// Runtime only: the name an unreadable store was kept under.
    pub recovered_store: Option<String>,
}

/// The state as values: text as character sequences, lists as sequences.
#[verifier::ext_equal]
pub struct AppView {
    pub settings: SettingsView,
    pub timer: TimerView,
    pub tasks: Seq<TaskView>,
    pub interruptions: Seq<InterruptionView>,
    pub sessions: Seq<SessionView>,
    pub notifications: Seq<NotificationView>,
    pub banner_restore: Option<bool>,
    pub capture_status: CaptureStatusView,
    pub recovered_store: Option<Seq<char>>,
}

/// The characters of an optional text.
pub open spec fn opt_text(o: Option<String>) -> Option<Seq<char>> {
    match o {
        Some(s) => Some(s@),
        None => None,
    }
}

pub open spec fn task_views(v: Seq<FocusTask>) -> Seq<TaskView> {
    v.map_values(|t: FocusTask| t@)
}

pub open spec fn interruption_views(v: Seq<Interruption>) -> Seq<InterruptionView> {
    v.map_values(|t: Interruption| t@)
}

pub open spec fn session_views(v: Seq<SessionRecord>) -> Seq<SessionView> {
    v.map_values(|t: SessionRecord| t@)
}

pub open spec fn notification_views(v: Seq<DesktopNotification>) -> Seq<NotificationView> {
    v.map_values(|t: DesktopNotification| t@)
}

impl View for AppData {
    type V = AppView;

    open spec fn view(&self) -> AppView {
        AppView {
            settings: self.settings@,
            timer: self.timer@,
            tasks: task_views(self.tasks@),
            interruptions: interruption_views(self.interruptions@),
            sessions: session_views(self.sessions@),
            notifications: notification_views(self.notifications@),
            banner_restore: self.banner_restore,
            capture_status: self.capture_status@,
            recovered_store: opt_text(self.recovered_store),
        }
    }
}

impl AppView {
    /// A first launch: default settings, an idle focus, nothing recorded.
    pub open spec fn initial() -> AppView {
        AppView {
            settings: SettingsView::initial(),
            timer: TimerView::for_phase(Phase::Focus, SettingsView::initial()),
            tasks: Seq::empty(),
            interruptions: Seq::empty(),
            sessions: Seq::empty(),
            notifications: Seq::empty(),
            banner_restore: None,
            capture_status: CaptureStatusView::plain(CaptureState::Off),
            recovered_store: None,
        }
    }
}

impl Default for AppData {
    fn default() -> (r: Self)
        ensures
            r@ == AppView::initial(),
    {
        let settings = Settings::default();
        let timer = TimerState::for_phase(Phase::Focus, &settings);
        let r = AppData {
            settings,
            timer,
            tasks: Vec::new(),
            interruptions: Vec::new(),
            sessions: Vec::new(),
            notifications: Vec::new(),
            banner_restore: None,
            capture_status: CaptureStatus::off(),
            recovered_store: None,
        };
        assert(r@ =~= AppView::initial());
        r
    }
}

/// `x` saturated into the range of `i64`.
pub open spec fn sat_i64(x: int) -> i64 {
    if x > i64::MAX {
        i64::MAX
    } else if x < i64::MIN {
        i64::MIN
    } else {
        x as i64
    }
}

/// `x + 1`, saturating at `u32::MAX`.
pub open spec fn sat_inc(x: u32) -> u32 {
    if x == u32::MAX {
        x
    } else {
        (x + 1) as u32
    }
}

/// `a - b`, saturating.
pub fn sat_sub(a: i64, b: i64) -> (r: i64)
    ensures
        r == sat_i64(a - b),
{
    if b >= 0 {
        if a < i64::MIN + b {
            i64::MIN
        } else {
            a - b
        }
    } else {
        if a > i64::MAX + b {
            i64::MAX
        } else {
            a - b
        }
    }
}

/// `a + b`, saturating.
pub fn sat_add(a: i64, b: i64) -> (r: i64)
    ensures
        r == sat_i64(a + b),
{
    if b >= 0 {
        if a > i64::MAX - b {
            i64::MAX
        } else {
            a + b
        }
    } else {
        if a < i64::MIN - b {
            i64::MIN
        } else {
            a + b
        }
    }
}

/// `i` is the first place where `id` occurs in `ids`.
pub open spec fn is_first_position(ids: Seq<Seq<char>>, id: Seq<char>, i: int) -> bool {
    &&& 0 <= i < ids.len()
    &&& ids[i] == id
    &&& forall|j: int| 0 <= j < i ==> ids[j] != id
}

/// Where `id` first occurs in `ids`, if it does.
pub open spec fn position_of(ids: Seq<Seq<char>>, id: Seq<char>) -> Option<int> {
    if exists|i: int| is_first_position(ids, id, i) {
        Some(choose|i: int| is_first_position(ids, id, i))
    } else {
        None
    }
}

pub proof fn lemma_position_found(ids: Seq<Seq<char>>, id: Seq<char>, i: int)
    requires
        is_first_position(ids, id, i),
    ensures
        position_of(ids, id) == Some(i),
{
    let c = choose|c: int| is_first_position(ids, id, c);
    assert(is_first_position(ids, id, c));
    if c < i {
        assert(ids[c] == id);
    }
    if i < c {
        assert(ids[i] == id);
    }
}

pub proof fn lemma_position_absent(ids: Seq<Seq<char>>, id: Seq<char>)
    requires
        forall|i: int| 0 <= i < ids.len() ==> ids[i] != id,
    ensures
        position_of(ids, id) == None::<int>,
{
}

pub proof fn lemma_position_exists(ids: Seq<Seq<char>>, id: Seq<char>, i: int)
    requires
        0 <= i < ids.len(),
        ids[i] == id,
    ensures
        position_of(ids, id) is Some,
    decreases i,
{
    if exists|j: int| 0 <= j < i && ids[j] == id {
        let j = choose|j: int| 0 <= j < i && ids[j] == id;
        lemma_position_exists(ids, id, j);
    } else {
        assert(is_first_position(ids, id, i));
    }
}

pub open spec fn task_ids(v: Seq<TaskView>) -> Seq<Seq<char>> {
    v.map_values(|t: TaskView| t.id)
}

pub open spec fn interruption_ids(v: Seq<InterruptionView>) -> Seq<Seq<char>> {
    v.map_values(|t: InterruptionView| t.id)
}

pub open spec fn session_ids(v: Seq<SessionView>) -> Seq<Seq<char>> {
    v.map_values(|t: SessionView| t.id)
}

pub open spec fn notification_ids(v: Seq<NotificationView>) -> Seq<Seq<char>> {
    v.map_values(|t: NotificationView| t.id)
}

/// Some task that is not done has the id `id`.
pub open spec fn has_open_task(tasks: Seq<TaskView>, id: Seq<char>) -> bool {
    exists|i: int| 0 <= i < tasks.len() && tasks[i].id == id && !tasks[i].done
}

/// Values that can be copied with nothing about them changed.
pub trait Duplicate: Sized + View {
    fn duplicate(&self) -> (r: Self)
        ensures
            r@ == self@,
    ;
}

impl Duplicate for String {
    fn duplicate(&self) -> (r: String) {
        self.clone()
    }
}

/// A copy of every element of `v`.
pub fn copy_all<T: Duplicate>(v: &Vec<T>) -> (r: Vec<T>)
    ensures
        r@.len() == v@.len(),
        forall|i: int| 0 <= i < v@.len() ==> #[trigger] r@[i]@ == v@[i]@,
{
    let mut out: Vec<T> = Vec::new();
    let mut i: usize = 0;
    while i < v.len()
        invariant
            i <= v@.len(),
            out@.len() == i,
            forall|j: int| 0 <= j < i ==> #[trigger] out@[j]@ == v@[j]@,
        decreases v@.len() - i,
    {
        out.push(v[i].duplicate());
        i = i + 1;
    }
    out
}

/// A copy of an optional text.
pub fn copy_opt_text(o: &Option<String>) -> (r: Option<String>)
    ensures
        r == *o,
{
    match o {
        Some(s) => Some(s.clone()),
        None => None,
    }
}

impl AppData {
    /// Where the task with this id first stands.
    pub fn find_task(&self, id: &str) -> (r: Option<usize>)
        ensures
            r matches Some(i) ==> i < self.tasks@.len() && position_of(task_ids(self@.tasks), id@)
                == Some(i as int),
            r is None ==> position_of(task_ids(self@.tasks), id@) is None,
    {
        let target: String = id.to_owned();
        let ghost ids = task_ids(self@.tasks);
        let mut i: usize = 0;
        while i < self.tasks.len()
            invariant
                i <= self.tasks@.len(),
                target@ == id@,
                ids == task_ids(self@.tasks),
                forall|j: int| 0 <= j < i ==> ids[j] != id@,
            decreases self.tasks@.len() - i,
        {
            if self.tasks[i].id == target {
                proof {
                    lemma_position_found(ids, id@, i as int);
                }
                return Some(i);
            }
            i = i + 1;
        }
        proof {
            lemma_position_absent(ids, id@);
        }
        None
    }

    /// Whether a task with this id exists and is not done.
    pub fn has_open_task(&self, id: &str) -> (r: bool)
        ensures
            r == has_open_task(self@.tasks, id@),
    {
        let target: String = id.to_owned();
        let mut i: usize = 0;
        while i < self.tasks.len()
            invariant
                i <= self.tasks@.len(),
                target@ == id@,
                forall|j: int|
                    0 <= j < i ==> !(#[trigger] self.tasks@[j].id@ == id@ && !self.tasks@[j].done),
            decreases self.tasks@.len() - i,
        {
            if self.tasks[i].id == target && !self.tasks[i].done {
                assert(self@.tasks[i as int] == self.tasks@[i as int]@);
                return true;
            }
            i = i + 1;
        }
        false
    }

    pub fn task_id_list(&self) -> (r: Vec<String>)
        ensures
            texts(r@) == task_ids(self@.tasks),
    {
        let mut out: Vec<String> = Vec::new();
        let mut i: usize = 0;
        while i < self.tasks.len()
            invariant
                i <= self.tasks@.len(),
                out@.len() == i,
                forall|j: int| 0 <= j < i ==> #[trigger] out@[j]@ == self.tasks@[j].id@,
            decreases self.tasks@.len() - i,
        {
            out.push(self.tasks[i].id.clone());
            i = i + 1;
        }
        assert(texts(out@) =~= task_ids(self@.tasks));
        out
    }

    pub fn interruption_id_list(&self) -> (r: Vec<String>)
        ensures
            texts(r@) == interruption_ids(self@.interruptions),
    {
        let mut out: Vec<String> = Vec::new();
        let mut i: usize = 0;
        while i < self.interruptions.len()
            invariant
                i <= self.interruptions@.len(),
                out@.len() == i,
                forall|j: int| 0 <= j < i ==> #[trigger] out@[j]@ == self.interruptions@[j].id@,
            decreases self.interruptions@.len() - i,
        {
            out.push(self.interruptions[i].id.clone());
            i = i + 1;
        }
        assert(texts(out@) =~= interruption_ids(self@.interruptions));
        out
    }

    pub fn session_id_list(&self) -> (r: Vec<String>)
        ensures
            texts(r@) == session_ids(self@.sessions),
    {
        let mut out: Vec<String> = Vec::new();
        let mut i: usize = 0;
        while i < self.sessions.len()
            invariant
                i <= self.sessions@.len(),
                out@.len() == i,
                forall|j: int| 0 <= j < i ==> #[trigger] out@[j]@ == self.sessions@[j].id@,
            decreases self.sessions@.len() - i,
        {
            out.push(self.sessions[i].id.clone());
            i = i + 1;
        }
        assert(texts(out@) =~= session_ids(self@.sessions));
        out
    }

    pub fn notification_id_list(&self) -> (r: Vec<String>)
        ensures
            texts(r@) == notification_ids(self@.notifications),
    {
        let mut out: Vec<String> = Vec::new();
        let mut i: usize = 0;
        while i < self.notifications.len()
            invariant
                i <= self.notifications@.len(),
                out@.len() == i,
                forall|j: int| 0 <= j < i ==> #[trigger] out@[j]@ == self.notifications@[j].id@,
            decreases self.notifications@.len() - i,
        {
            out.push(self.notifications[i].id.clone());
            i = i + 1;
        }
        assert(texts(out@) =~= notification_ids(self@.notifications));
        out
    }
}

/// The sessions that started at or after `oldest`, in order.
pub open spec fn sessions_since(sessions: Seq<SessionView>, oldest: i64) -> Seq<SessionView>
    decreases sessions.len(),
{
    if sessions.len() == 0 {
        sessions
    } else {
        let rest = sessions_since(sessions.drop_last(), oldest);
        if sessions.last().started_at >= oldest {
            rest.push(sessions.last())
        } else {
            rest
        }
    }
}

impl AppView {
    /// What the window is sent: the countdown brought up to `now_ms`, and
    /// only the sessions of the last [`SNAPSHOT_SESSION_WINDOW_MS`].
    pub open spec fn snapshot(self, now_ms: i64) -> AppView {
        AppView {
            timer: self.timer.normalized(now_ms),
            sessions: sessions_since(self.sessions, sat_i64(now_ms - SNAPSHOT_SESSION_WINDOW_MS)),
            ..self
        }
    }
}

impl Duplicate for SessionRecord {
    fn duplicate(&self) -> (r: Self) {
        SessionRecord {
            id: self.id.clone(),
            phase: self.phase,
            task_id: copy_opt_text(&self.task_id),
            task_title: copy_opt_text(&self.task_title),
            duration_seconds: self.duration_seconds,
            started_at: self.started_at,
            ended_at: self.ended_at,
            outcome: self.outcome,
        }
    }
}

impl Duplicate for TimerState {
    fn duplicate(&self) -> (r: Self) {
        TimerState {
            phase: self.phase,
            status: self.status,
            duration_seconds: self.duration_seconds,
            remaining_seconds: self.remaining_seconds,
            started_at: self.started_at,
            ends_at: self.ends_at,
            active_task_id: copy_opt_text(&self.active_task_id),
            completed_in_cycle: self.completed_in_cycle,
        }
    }
}

impl Duplicate for NotificationFilter {
    fn duplicate(&self) -> (r: Self) {
        let r = NotificationFilter {
            enabled: self.enabled,
            min_urgency: self.min_urgency,
            muted_apps: copy_all(&self.muted_apps),
            priority_apps: copy_all(&self.priority_apps),
            focus_only: self.focus_only,
        };
        assert(r@ =~= self@);
        r
    }
}

impl Duplicate for Settings {
    fn duplicate(&self) -> (r: Self) {
        Settings {
            focus_minutes: self.focus_minutes,
            short_break_minutes: self.short_break_minutes,
            long_break_minutes: self.long_break_minutes,
            rounds_before_long_break: self.rounds_before_long_break,
            auto_start_breaks: self.auto_start_breaks,
            auto_start_focus: self.auto_start_focus,
            notifications: self.notifications,
            sound: self.sound,
            theme: self.theme,
            timer_face: self.timer_face,
            notification_filter: self.notification_filter.duplicate(),
            silence_banners_during_focus: self.silence_banners_during_focus,
        }
    }
}

impl Duplicate for CaptureStatus {
    fn duplicate(&self) -> (r: Self) {
        CaptureStatus { state: self.state, detail: self.detail.clone() }
    }
}

impl Duplicate for AppData {
    fn duplicate(&self) -> (r: Self) {
        let r = AppData {
            settings: self.settings.duplicate(),
            timer: self.timer.duplicate(),
            tasks: copy_all(&self.tasks),
            interruptions: copy_all(&self.interruptions),
            sessions: copy_all(&self.sessions),
            notifications: copy_all(&self.notifications),
            banner_restore: self.banner_restore,
            capture_status: self.capture_status.duplicate(),
            recovered_store: copy_opt_text(&self.recovered_store),
        };
        assert(task_views(r.tasks@) =~= task_views(self.tasks@));
        assert(interruption_views(r.interruptions@) =~= interruption_views(self.interruptions@));
        assert(session_views(r.sessions@) =~= session_views(self.sessions@));
        assert(notification_views(r.notifications@) =~= notification_views(self.notifications@));
        assert(r@ =~= self@);
        r
    }
}

impl AppData {
    /// A display snapshot; see [`AppView::snapshot`].
    pub fn snapshot(&self, now_ms: i64) -> (r: Self)
        ensures
            r@ == self@.snapshot(now_ms),
    {
        let oldest = sat_sub(now_ms, SNAPSHOT_SESSION_WINDOW_MS);
        let mut timer = self.timer.duplicate();
        timer.normalize_remaining(now_ms);
        let mut sessions: Vec<SessionRecord> = Vec::new();
        let ghost all = self@.sessions;
        let mut i: usize = 0;
        while i < self.sessions.len()
            invariant
                i <= self.sessions@.len(),
                all == session_views(self.sessions@),
                session_views(sessions@) == sessions_since(all.take(i as int), oldest),
            decreases self.sessions@.len() - i,
        {
            proof {
                assert(all.take(i as int + 1).drop_last() =~= all.take(i as int));
                assert(all.take(i as int + 1).last() == self.sessions@[i as int]@);
            }
            if self.sessions[i].started_at >= oldest {
                let ghost before = sessions@;
                sessions.push(self.sessions[i].duplicate());
                assert(session_views(sessions@) =~= session_views(before).push(
                    self.sessions@[i as int]@,
                ));
            }
            i = i + 1;
        }
        assert(all.take(i as int) =~= all);
        let r = AppData {
            settings: self.settings.duplicate(),
            timer,
            tasks: copy_all(&self.tasks),
            interruptions: copy_all(&self.interruptions),
            sessions,
            notifications: copy_all(&self.notifications),
            banner_restore: self.banner_restore,
            capture_status: self.capture_status.duplicate(),
            recovered_store: copy_opt_text(&self.recovered_store),
        };
        assert(task_views(r.tasks@) =~= task_views(self.tasks@));
        assert(interruption_views(r.interruptions@) =~= interruption_views(self.interruptions@));
        assert(notification_views(r.notifications@) =~= notification_views(self.notifications@));
        assert(r@ =~= self@.snapshot(now_ms));
        r
    }
}

} // verus!
