//! Notification filtering, bounded retention, replacement and triage.

use super::{
    copy_opt_text, lemma_position_absent, lemma_position_found, notification_ids,
    notification_views, opt_text, position_of, sat_i64, sat_sub, task_ids, AppData, AppView,
    Duplicate,
};
use crate::ids::{first_free_id, id_base, unique_notification_id};
use crate::text::{lowercase, to_lowercase, trim, trimmed, truncate_chars, truncated};
use vstd::prelude::*;

verus! {

/// The highest urgency the freedesktop notification specification defines.
pub const MAX_URGENCY: u8 = 2;

/// Newest-first retention cap on captured notifications.
pub const NOTIFICATION_RETENTION: usize = 200;

/// Upper bounds, in characters, on stored notification text.
pub const MAX_APP_NAME_CHARS: usize = 128;

pub const MAX_SUMMARY_CHARS: usize = 512;

pub const MAX_BODY_CHARS: usize = 4_096;

/// How recently a row must have been received for a later update to land on it.
pub const REPLACE_WINDOW_MS: i64 = 60 * 60 * 1_000;

/// A desktop notification observed on the session bus.
#[derive(Clone, Debug, PartialEq, Eq)]
pub struct DesktopNotification {
    pub id: String,
    pub app_name: String,
    pub summary: String,
    pub body: String,
    /// 0 low, 1 normal, 2 critical.
    pub urgency: u8,
    pub received_at: i64,
    pub during_focus: bool,
    pub triaged: bool,
    /// The `replaces_id` the sender passed; non-zero means an update.
    pub replaces_id: u32,
    /// The task this notification was turned into, if any.
    pub task_id: Option<String>,
}

#[verifier::ext_equal]
pub struct NotificationView {
    pub id: Seq<char>,
    pub app_name: Seq<char>,
    pub summary: Seq<char>,
    pub body: Seq<char>,
    pub urgency: u8,
    pub received_at: i64,
    pub during_focus: bool,
    pub triaged: bool,
    pub replaces_id: u32,
    pub task_id: Option<Seq<char>>,
}

impl View for DesktopNotification {
    type V = NotificationView;

    open spec fn view(&self) -> NotificationView {
        NotificationView {
            id: self.id@,
            app_name: self.app_name@,
            summary: self.summary@,
            body: self.body@,
            urgency: self.urgency,
            received_at: self.received_at,
            during_focus: self.during_focus,
            triaged: self.triaged,
            replaces_id: self.replaces_id,
            task_id: opt_text(self.task_id),
        }
    }
}

impl Default for DesktopNotification {
    fn default() -> (r: Self)
        ensures
            r@ == (NotificationView {
                id: Seq::empty(),
                app_name: Seq::empty(),
                summary: Seq::empty(),
                body: Seq::empty(),
                urgency: 0,
                received_at: 0,
                during_focus: false,
                triaged: false,
                replaces_id: 0,
                task_id: None,
            }),
    {
        DesktopNotification {
            id: String::new(),
            app_name: String::new(),
            summary: String::new(),
            body: String::new(),
            urgency: 0,
            received_at: 0,
            during_focus: false,
            triaged: false,
            replaces_id: 0,
            task_id: None,
        }
    }
}

/// Whether the notification monitor is actually running.
#[derive(Clone, Copy, Debug, PartialEq, Eq, Structural)]
pub enum CaptureState {
    /// The user has not turned capture on.
    Off,
    /// Capture is on and the monitor is coming up.
    Starting,
    /// The monitor is attached to the session bus.
    Active,
    /// Capture is on but the monitor could not run.
    Failed,
}

impl Default for CaptureState {
    fn default() -> (r: Self)
        ensures
            r == CaptureState::Off,
    {
        CaptureState::Off
    }
}

/// Runtime health of notification capture.
#[derive(Clone, Debug, PartialEq, Eq)]
pub struct CaptureStatus {
    pub state: CaptureState,
    /// A bus error message; never notification text.
    pub detail: String,
}

#[verifier::ext_equal]
pub struct CaptureStatusView {
    pub state: CaptureState,
    pub detail: Seq<char>,
}

impl View for CaptureStatus {
    type V = CaptureStatusView;

    open spec fn view(&self) -> CaptureStatusView {
        CaptureStatusView { state: self.state, detail: self.detail@ }
    }
}

impl CaptureStatusView {
    pub open spec fn plain(state: CaptureState) -> CaptureStatusView {
        CaptureStatusView { state, detail: Seq::empty() }
    }
}

impl Default for CaptureStatus {
    fn default() -> (r: Self)
        ensures
            r@ == CaptureStatusView::plain(CaptureState::Off),
    {
        CaptureStatus::off()
    }
}

impl CaptureStatus {
    pub fn off() -> (r: Self)
        ensures
            r@ == CaptureStatusView::plain(CaptureState::Off),
    {
        CaptureStatus { state: CaptureState::Off, detail: String::new() }
    }

    pub fn starting() -> (r: Self)
        ensures
            r@ == CaptureStatusView::plain(CaptureState::Starting),
    {
        CaptureStatus { state: CaptureState::Starting, detail: String::new() }
    }

    pub fn active() -> (r: Self)
        ensures
            r@ == CaptureStatusView::plain(CaptureState::Active),
    {
        CaptureStatus { state: CaptureState::Active, detail: String::new() }
    }

    pub fn failed(detail: &str) -> (r: Self)
        ensures
            r@ == (CaptureStatusView { state: CaptureState::Failed, detail: detail@ }),
    {
        CaptureStatus { state: CaptureState::Failed, detail: detail.to_owned() }
    }
}

/// Which notifications are worth keeping. Capture is off until the user
/// opts in.
#[derive(Clone, Debug, PartialEq, Eq)]
pub struct NotificationFilter {
    pub enabled: bool,
    pub min_urgency: u8,
    pub muted_apps: Vec<String>,
    pub priority_apps: Vec<String>,
    pub focus_only: bool,
}

#[verifier::ext_equal]
pub struct FilterView {
    pub enabled: bool,
    pub min_urgency: u8,
    pub muted_apps: Seq<Seq<char>>,
    pub priority_apps: Seq<Seq<char>>,
    pub focus_only: bool,
}

/// The views of a list of strings.
pub open spec fn text_list(v: Seq<String>) -> Seq<Seq<char>> {
    v.map_values(|s: String| s@)
}

impl View for NotificationFilter {
    type V = FilterView;

    open spec fn view(&self) -> FilterView {
        FilterView {
            enabled: self.enabled,
            min_urgency: self.min_urgency,
            muted_apps: text_list(self.muted_apps@),
            priority_apps: text_list(self.priority_apps@),
            focus_only: self.focus_only,
        }
    }
}

/// Whether `name` names the same application as an entry of `list`: the
/// comparison ignores case and surrounding white space.
pub open spec fn listed(list: Seq<Seq<char>>, name: Seq<char>) -> bool {
    exists|i: int|
        0 <= i < list.len() && lowercase(trimmed(#[trigger] list[i])) == lowercase(trimmed(name))
}

/// `list` trimmed, without empty entries and without later entries that
/// repeat an earlier one in another case.
pub open spec fn sanitized_app_list(list: Seq<Seq<char>>) -> Seq<Seq<char>>
    decreases list.len(),
{
    if list.len() == 0 {
        Seq::empty()
    } else {
        let kept = sanitized_app_list(list.drop_last());
        let entry = trimmed(list.last());
        if entry.len() == 0 || exists|j: int|
            0 <= j < kept.len() && lowercase(#[trigger] kept[j]) == lowercase(entry) {
            kept
        } else {
            kept.push(entry)
        }
    }
}

impl FilterView {
    pub open spec fn initial() -> FilterView {
        FilterView {
            enabled: false,
            min_urgency: 0,
            muted_apps: Seq::empty(),
            priority_apps: Seq::empty(),
            focus_only: false,
        }
    }

    pub open spec fn sanitized(self) -> FilterView {
        FilterView {
            min_urgency: if self.min_urgency > MAX_URGENCY {
                MAX_URGENCY
            } else {
                self.min_urgency
            },
            muted_apps: sanitized_app_list(self.muted_apps),
            priority_apps: sanitized_app_list(self.priority_apps),
            ..self
        }
    }

    /// The capture rule, in its order of precedence: disabled drops all;
    /// a muted app is dropped even if it is also a priority app; a priority
    /// app is kept regardless of the last two rules; focus-only drops what
    /// arrives outside focus; urgency below the floor is dropped; the rest is
    /// kept.
    pub open spec fn accepts(self, app_name: Seq<char>, urgency: u8, during_focus: bool) -> bool {
        if !self.enabled {
            false
        } else if listed(self.muted_apps, app_name) {
            false
        } else if listed(self.priority_apps, app_name) {
            true
        } else if self.focus_only && !during_focus {
            false
        } else {
            urgency >= self.min_urgency
        }
    }
}

impl Default for NotificationFilter {
    fn default() -> (r: Self)
        ensures
            r@ == FilterView::initial(),
    {
        let r = NotificationFilter {
            enabled: false,
            min_urgency: 0,
            muted_apps: Vec::new(),
            priority_apps: Vec::new(),
            focus_only: false,
        };
        assert(r@ =~= FilterView::initial());
        r
    }
}

/// Whether `list` names `app_name`, ignoring case and surrounding white space.
fn app_list_contains(list: &Vec<String>, app_name: &str) -> (r: bool)
    ensures
        r == listed(text_list(list@), app_name@),
{
    let needle = to_lowercase(trim(app_name));
    let mut i: usize = 0;
    while i < list.len()
        invariant
            i <= list@.len(),
            needle@ == lowercase(trimmed(app_name@)),
            forall|j: int|
                0 <= j < i ==> lowercase(trimmed(#[trigger] list@[j]@)) != lowercase(
                    trimmed(app_name@),
                ),
        decreases list@.len() - i,
    {
        let entry = to_lowercase(trim(list[i].as_str()));
        if entry == needle {
            proof {
                assert(text_list(list@)[i as int] == list@[i as int]@);
            }
            return true;
        }
        i = i + 1;
    }
    proof {
        assert forall|j: int|
            0 <= j < text_list(list@).len() implies lowercase(
            trimmed(#[trigger] text_list(list@)[j]),
        ) != lowercase(trimmed(app_name@)) by {
            assert(text_list(list@)[j] == list@[j]@);
        }
    }
    false
}

/// Whether some entry of `list`, lower-cased, is `lowered`.
fn has_lowercase(list: &Vec<String>, lowered: &String) -> (r: bool)
    ensures
        r == exists|q: int| 0 <= q < list@.len() && lowercase(#[trigger] list@[q]@) == lowered@,
{
    let mut j: usize = 0;
    while j < list.len()
        invariant
            j <= list@.len(),
            forall|q: int| 0 <= q < j ==> lowercase(#[trigger] list@[q]@) != lowered@,
        decreases list@.len() - j,
    {
        let other = to_lowercase(list[j].as_str());
        if other == *lowered {
            return true;
        }
        j = j + 1;
    }
    false
}

/// `list` trimmed, without empty entries and case-insensitive repeats.
fn sanitized_app_list_of(list: &Vec<String>) -> (r: Vec<String>)
    ensures
        text_list(r@) == sanitized_app_list(text_list(list@)),
{
    let ghost full = text_list(list@);
    let mut kept: Vec<String> = Vec::new();
    let mut i: usize = 0;
    assert(full.take(0) =~= Seq::<Seq<char>>::empty());
    assert(text_list(kept@) =~= Seq::<Seq<char>>::empty());
    while i < list.len()
        invariant
            i <= list@.len(),
            full == text_list(list@),
            text_list(kept@) == sanitized_app_list(full.take(i as int)),
        decreases list@.len() - i,
    {
        let ghost prefix = full.take(i as int + 1);
        assert(prefix.drop_last() =~= full.take(i as int));
        assert(prefix.last() == list@[i as int]@);
        let entry = trim(list[i].as_str());
        let mut skip = entry.unicode_len() == 0;
        if !skip {
            let lowered = to_lowercase(entry);
            skip = has_lowercase(&kept, &lowered);
            proof {
                let ks = text_list(kept@);
                if skip {
                    let q = choose|q: int|
                        0 <= q < kept@.len() && lowercase(#[trigger] kept@[q]@) == lowered@;
                    assert(ks[q] == kept@[q]@);
                } else {
                    assert forall|q: int| 0 <= q < ks.len() implies lowercase(#[trigger] ks[q])
                        != lowercase(entry@) by {
                        assert(ks[q] == kept@[q]@);
                    }
                }
            }
        }
        if !skip {
            let ghost before = kept@;
            kept.push(entry.to_owned());
            assert(text_list(kept@) =~= text_list(before).push(entry@));
        }
        i = i + 1;
    }
    assert(full.take(list@.len() as int) =~= full);
    kept
}

impl NotificationFilter {
    pub fn sanitized(self) -> (r: Self)
        ensures
            r@ == self@.sanitized(),
    {
        let min_urgency = if self.min_urgency > MAX_URGENCY {
            MAX_URGENCY
        } else {
            self.min_urgency
        };
        let muted_apps = sanitized_app_list_of(&self.muted_apps);
        let priority_apps = sanitized_app_list_of(&self.priority_apps);
        let r = NotificationFilter {
            enabled: self.enabled,
            min_urgency,
            muted_apps,
            priority_apps,
            focus_only: self.focus_only,
        };
        assert(r@ =~= self@.sanitized());
        r
    }

    /// Decides whether a notification is captured; see [`FilterView::accepts`].
    pub fn accepts(&self, app_name: &str, urgency: u8, during_focus: bool) -> (r: bool)
        ensures
            r == self@.accepts(app_name@, urgency, during_focus),
    {
        if !self.enabled {
            return false;
        }
        if app_list_contains(&self.muted_apps, app_name) {
            return false;
        }
        if app_list_contains(&self.priority_apps, app_name) {
            return true;
        }
        if self.focus_only && !during_focus {
            return false;
        }
        if urgency < self.min_urgency {
            return false;
        }
        true
    }
}

/// The names Pomodoro's own notifications arrive under, once trimmed and
/// lower-cased.
pub open spec fn is_self_name(app_name: Seq<char>) -> bool {
    let name = lowercase(trimmed(app_name));
    name == "pomodoro"@ || name == "app.pomodoro.timer"@
}

/// True when a notification is one Pomodoro itself sent.
pub fn is_self_notification(app_name: &str) -> (r: bool)
    ensures
        r == is_self_name(app_name@),
{
    let name = to_lowercase(trim(app_name));
    let own: String = "pomodoro".to_owned();
    let bundle: String = "app.pomodoro.timer".to_owned();
    name == own || name == bundle
}

/// The first row of `rows` that satisfies `p`, if any does.
pub open spec fn first_index(rows: Seq<NotificationView>, p: spec_fn(NotificationView) -> bool) -> Option<
    int,
> {
    if exists|i: int| 0 <= i < rows.len() && p(rows[i]) && forall|j: int| 0 <= j < i ==> !p(rows[j]) {
        Some(
            choose|i: int|
                0 <= i < rows.len() && p(rows[i]) && forall|j: int| 0 <= j < i ==> !p(rows[j]),
        )
    } else {
        None
    }
}

proof fn lemma_first_index_found(rows: Seq<NotificationView>, p: spec_fn(NotificationView) -> bool, i: int)
    requires
        0 <= i < rows.len(),
        p(rows[i]),
        forall|j: int| 0 <= j < i ==> !p(rows[j]),
    ensures
        first_index(rows, p) == Some(i),
{
    let c = choose|c: int|
        0 <= c < rows.len() && p(rows[c]) && forall|j: int| 0 <= j < c ==> !p(rows[j]);
    assert(0 <= c < rows.len() && p(rows[c]) && forall|j: int| 0 <= j < c ==> !p(rows[j]));
    if c < i {
        assert(!p(rows[c]));
    }
    if i < c {
        assert(!p(rows[i]));
    }
}

/// A row from the same sender, received within [`REPLACE_WINDOW_MS`].
pub open spec fn replaceable(row: NotificationView, app_name: Seq<char>, now_ms: i64) -> bool {
    &&& lowercase(row.app_name) == lowercase(app_name)
    &&& sat_i64(now_ms - row.received_at) <= REPLACE_WINDOW_MS
}

/// A replaceable row already carrying this `replaces_id`.
pub open spec fn same_id(app_name: Seq<char>, replaces_id: u32, now_ms: i64) -> spec_fn(
    NotificationView,
) -> bool {
    |row: NotificationView| replaceable(row, app_name, now_ms) && row.replaces_id == replaces_id
}

/// A replaceable row posted as new with this summary.
pub open spec fn same_summary(app_name: Seq<char>, summary: Seq<char>, now_ms: i64) -> spec_fn(
    NotificationView,
) -> bool {
    |row: NotificationView|
        replaceable(row, app_name, now_ms) && row.replaces_id == 0 && row.summary == summary
}

/// The row an update lands on: the newest replaceable row with this
/// `replaces_id`, failing that the newest replaceable row posted as new with
/// the same summary. A `replaces_id` of 0 is never an update.
pub open spec fn update_target(
    rows: Seq<NotificationView>,
    app_name: Seq<char>,
    summary: Seq<char>,
    replaces_id: u32,
    now_ms: i64,
) -> Option<int> {
    if replaces_id == 0 {
        None
    } else {
        match first_index(rows, same_id(app_name, replaces_id, now_ms)) {
            Some(i) => Some(i),
            None => first_index(rows, same_summary(app_name, summary, now_ms)),
        }
    }
}

/// The newest [`NOTIFICATION_RETENTION`] rows.
pub open spec fn newest_kept(rows: Seq<NotificationView>) -> Seq<NotificationView> {
    if rows.len() > NOTIFICATION_RETENTION {
        rows.take(NOTIFICATION_RETENTION as int)
    } else {
        rows
    }
}

/// `rows` without those whose id is `id`.
pub open spec fn notifications_without(rows: Seq<NotificationView>, id: Seq<char>) -> Seq<
    NotificationView,
>
    decreases rows.len(),
{
    if rows.len() == 0 {
        rows
    } else {
        let rest = notifications_without(rows.drop_last(), id);
        if rows.last().id == id {
            rest
        } else {
            rest.push(rows.last())
        }
    }
}

impl AppView {
    /// Files an observed notification, honouring the sender's `replaces_id`.
    ///
    /// The app name is trimmed and every text cut to its character limit;
    /// Pomodoro's own notifications and whatever the filter rejects are
    /// dropped. An update lands on its target row, moved to the front, and
    /// only new words reopen it; anything else becomes a new row in front,
    /// with the list kept to its newest [`NOTIFICATION_RETENTION`].
    pub open spec fn capture_notify(
        self,
        app_name: Seq<char>,
        summary: Seq<char>,
        body: Seq<char>,
        urgency: u8,
        replaces_id: u32,
        now_ms: i64,
    ) -> (AppView, Option<NotificationView>) {
        let app = truncated(trimmed(app_name), MAX_APP_NAME_CHARS as nat);
        let urgency = if urgency > MAX_URGENCY {
            MAX_URGENCY
        } else {
            urgency
        };
        let during_focus = self.is_focus_running(now_ms);
        if is_self_name(app) || !self.settings.notification_filter.accepts(
            app,
            urgency,
            during_focus,
        ) {
            (self, None)
        } else {
            let summary = truncated(summary, MAX_SUMMARY_CHARS as nat);
            let body = truncated(body, MAX_BODY_CHARS as nat);
            match update_target(self.notifications, app, summary, replaces_id, now_ms) {
                Some(p) => {
                    let old = self.notifications[p];
                    let changed = old.summary != summary || old.body != body;
                    let row = NotificationView {
                        summary,
                        body,
                        urgency,
                        received_at: now_ms,
                        during_focus,
                        triaged: if changed {
                            false
                        } else {
                            old.triaged
                        },
                        replaces_id,
                        task_id: if changed {
                            None
                        } else {
                            old.task_id
                        },
                        ..old
                    };
                    (
                        AppView {
                            notifications: seq![row] + self.notifications.remove(p),
                            ..self
                        },
                        Some(row),
                    )
                },
                None => {
                    let row = NotificationView {
                        id: first_free_id(
                            id_base("notif"@, now_ms),
                            notification_ids(self.notifications),
                            false,
                        ),
                        app_name: app,
                        summary,
                        body,
                        urgency,
                        received_at: now_ms,
                        during_focus,
                        triaged: false,
                        replaces_id,
                        task_id: None,
                    };
                    (
                        AppView {
                            notifications: newest_kept(seq![row] + self.notifications),
                            ..self
                        },
                        Some(row),
                    )
                },
            }
        }
    }

    pub open spec fn set_notification_triaged(self, id: Seq<char>, triaged: bool) -> (
        AppView,
        bool,
    ) {
        match position_of(notification_ids(self.notifications), id) {
            None => (self, false),
            Some(i) => (
                AppView {
                    notifications: self.notifications.update(
                        i,
                        NotificationView { triaged, ..self.notifications[i] },
                    ),
                    ..self
                },
                true,
            ),
        }
    }

    /// Turns a notification into a task named by its summary, at most once:
    /// a conversion whose task still exists is only marked triaged again.
    pub open spec fn convert_notification_to_task(self, id: Seq<char>, now_ms: i64) -> (
        AppView,
        Option<Seq<char>>,
    ) {
        match position_of(notification_ids(self.notifications), id) {
            None => (self, None),
            Some(p) => {
                let row = self.notifications[p];
                if row.task_id is Some && task_ids(self.tasks).contains(row.task_id->0) {
                    (self.set_notification_triaged(id, true).0, row.task_id)
                } else {
                    let (s, made) = self.create_task(row.summary, 1, now_ms);
                    match made {
                        None => (s, None),
                        Some(task) => (
                            AppView {
                                notifications: s.notifications.update(
                                    p,
                                    NotificationView {
                                        task_id: Some(task.id),
                                        triaged: true,
                                        ..s.notifications[p]
                                    },
                                ),
                                ..s
                            },
                            Some(task.id),
                        ),
                    }
                }
            },
        }
    }

    pub open spec fn delete_notification(self, id: Seq<char>) -> (AppView, bool) {
        let kept = notifications_without(self.notifications, id);
        if kept.len() == self.notifications.len() {
            (self, false)
        } else {
            (AppView { notifications: kept, ..self }, true)
        }
    }

    pub open spec fn clear_notifications(self) -> AppView {
        AppView { notifications: Seq::empty(), ..self }
    }
}

impl Duplicate for DesktopNotification {
    fn duplicate(&self) -> (r: Self) {
        DesktopNotification {
            id: self.id.clone(),
            app_name: self.app_name.clone(),
            summary: self.summary.clone(),
            body: self.body.clone(),
            urgency: self.urgency,
            received_at: self.received_at,
            during_focus: self.during_focus,
            triaged: self.triaged,
            replaces_id: self.replaces_id,
            task_id: copy_opt_text(&self.task_id),
        }
    }
}

impl AppData {
    fn find_notification(&self, id: &str) -> (r: Option<usize>)
        ensures
            r matches Some(i) ==> i < self.notifications@.len() && position_of(
                notification_ids(self@.notifications),
                id@,
            ) == Some(i as int),
            r is None ==> position_of(notification_ids(self@.notifications), id@) is None,
    {
        let target: String = id.to_owned();
        let ghost ids = notification_ids(self@.notifications);
        let mut i: usize = 0;
        while i < self.notifications.len()
            invariant
                i <= self.notifications@.len(),
                target@ == id@,
                ids == notification_ids(self@.notifications),
                forall|j: int| 0 <= j < i ==> ids[j] != id@,
            decreases self.notifications@.len() - i,
        {
            if self.notifications[i].id == target {
                proof {
                    lemma_position_found(ids, id@, i as int);
                }
                return Some(i);
            }
            i = i + 1;
        }
        proof {
            lemma_position_absent(ids, id@);
        }
        None
    }

    /// Whether `row` is from the sender whose lower-cased name is `sender`
    /// and was received within the window.
    fn is_replaceable(row: &DesktopNotification, app: &String, sender: &String, now_ms: i64) -> (r:
        bool)
        requires
            sender@ == lowercase(app@),
        ensures
            r == replaceable(row@, app@, now_ms),
    {
        let name = to_lowercase(row.app_name.as_str());
        name == *sender && sat_sub(now_ms, row.received_at) <= REPLACE_WINDOW_MS
    }

    /// The row an update lands on; see [`update_target`].
    fn find_update_target(
        &self,
        app: &String,
        summary: &String,
        replaces_id: u32,
        now_ms: i64,
    ) -> (r: Option<usize>)
        requires
            replaces_id != 0,
        ensures
            r matches Some(i) ==> i < self.notifications@.len() && update_target(
                self@.notifications,
                app@,
                summary@,
                replaces_id,
                now_ms,
            ) == Some(i as int),
            r is None ==> update_target(
                self@.notifications,
                app@,
                summary@,
                replaces_id,
                now_ms,
            ) is None,
    {
        let sender = to_lowercase(app.as_str());
        let ghost rows = self@.notifications;
        let ghost by_id = same_id(app@, replaces_id, now_ms);
        let ghost by_summary = same_summary(app@, summary@, now_ms);
        let mut i: usize = 0;
        while i < self.notifications.len()
            invariant
                i <= self.notifications@.len(),
                sender@ == lowercase(app@),
                rows == self@.notifications,
                by_id == same_id(app@, replaces_id, now_ms),
                replaces_id != 0,
                forall|j: int| 0 <= j < i ==> !by_id(rows[j]),
            decreases self.notifications@.len() - i,
        {
            let row = &self.notifications[i];
            assert(rows[i as int] == row@);
            if Self::is_replaceable(row, app, &sender, now_ms) && row.replaces_id == replaces_id {
                proof {
                    lemma_first_index_found(rows, by_id, i as int);
                }
                return Some(i);
            }
            i = i + 1;
        }
        let mut k: usize = 0;
        while k < self.notifications.len()
            invariant
                k <= self.notifications@.len(),
                sender@ == lowercase(app@),
                rows == self@.notifications,
                by_id == same_id(app@, replaces_id, now_ms),
                by_summary == same_summary(app@, summary@, now_ms),
                forall|j: int| 0 <= j < rows.len() ==> !by_id(rows[j]),
                forall|j: int| 0 <= j < k ==> !by_summary(rows[j]),
            decreases self.notifications@.len() - k,
        {
            let row = &self.notifications[k];
            assert(rows[k as int] == row@);
            if Self::is_replaceable(row, app, &sender, now_ms) && row.replaces_id == 0
                && row.summary == *summary {
                proof {
                    lemma_first_index_found(rows, by_summary, k as int);
                }
                return Some(k);
            }
            k = k + 1;
        }
        None
    }

    /// Files an observed notification unless it is Pomodoro's own or the
    /// filter rejects it; see [`AppView::capture_notify`].
    pub fn capture_notify(
        &mut self,
        app_name: &str,
        summary: &str,
        body: &str,
        urgency: u8,
        replaces_id: u32,
        now_ms: i64,
    ) -> (r: Option<DesktopNotification>)
        ensures
            final(self)@ == old(self)@.capture_notify(
                app_name@,
                summary@,
                body@,
                urgency,
                replaces_id,
                now_ms,
            ).0,
            match r {
                Some(n) => old(self)@.capture_notify(
                    app_name@,
                    summary@,
                    body@,
                    urgency,
                    replaces_id,
                    now_ms,
                ).1 == Some(n@),
                None => old(self)@.capture_notify(
                    app_name@,
                    summary@,
                    body@,
                    urgency,
                    replaces_id,
                    now_ms,
                ).1 is None,
            },
    {
        let app = truncate_chars(trim(app_name), MAX_APP_NAME_CHARS);
        if is_self_notification(app.as_str()) {
            return None;
        }
        let urgency = if urgency > MAX_URGENCY {
            MAX_URGENCY
        } else {
            urgency
        };
        let during_focus = self.is_focus_running(now_ms);
        if !self.settings.notification_filter.accepts(app.as_str(), urgency, during_focus) {
            return None;
        }
        let summary = truncate_chars(summary, MAX_SUMMARY_CHARS);
        let body = truncate_chars(body, MAX_BODY_CHARS);
        if replaces_id != 0 {
            if let Some(p) = self.find_update_target(&app, &summary, replaces_id, now_ms) {
                let ghost before = self@.notifications;
                let existing = self.notifications.remove(p);
                let changed = !(existing.summary == summary) || !(existing.body == body);
                let row = DesktopNotification {
                    id: existing.id,
                    app_name: existing.app_name,
                    summary,
                    body,
                    urgency,
                    received_at: now_ms,
                    during_focus,
                    triaged: if changed {
                        false
                    } else {
                        existing.triaged
                    },
                    replaces_id,
                    task_id: if changed {
                        None
                    } else {
                        existing.task_id
                    },
                };
                let copy = row.duplicate();
                let ghost rest = self.notifications@;
                self.notifications.insert(0, row);
                proof {
                    assert(notification_views(rest) =~= before.remove(p as int));
                    assert(notification_views(self.notifications@) =~= seq![copy@]
                        + before.remove(p as int));
                    assert(self@ =~= old(self)@.capture_notify(
                        app_name@,
                        summary@,
                        body@,
                        urgency,
                        replaces_id,
                        now_ms,
                    ).0);
                }
                return Some(copy);
            }
        }
        let ids = self.notification_id_list();
        let id = unique_notification_id(now_ms, &ids);
        let row = DesktopNotification {
            id,
            app_name: app,
            summary,
            body,
            urgency,
            received_at: now_ms,
            during_focus,
            triaged: false,
            replaces_id,
            task_id: None,
        };
        let copy = row.duplicate();
        let ghost before = self@.notifications;
        self.notifications.insert(0, row);
        assert(notification_views(self.notifications@) =~= seq![copy@] + before);
        self.notifications.truncate(NOTIFICATION_RETENTION);
        assert(notification_views(self.notifications@) =~= newest_kept(seq![copy@] + before));
        assert(self@ =~= old(self)@.capture_notify(
            app_name@,
            summary@,
            body@,
            urgency,
            replaces_id,
            now_ms,
        ).0);
        Some(copy)
    }

    /// Files a notification that replaces nothing.
    pub fn capture_notification(
        &mut self,
        app_name: &str,
        summary: &str,
        body: &str,
        urgency: u8,
        now_ms: i64,
    ) -> (r: Option<DesktopNotification>)
        ensures
            final(self)@ == old(self)@.capture_notify(app_name@, summary@, body@, urgency, 0, now_ms).0,
            match r {
                Some(n) => old(self)@.capture_notify(app_name@, summary@, body@, urgency, 0, now_ms).1
                    == Some(n@),
                None => old(self)@.capture_notify(app_name@, summary@, body@, urgency, 0, now_ms).1 is None,
            },
    {
        self.capture_notify(app_name, summary, body, urgency, 0, now_ms)
    }

    /// Turns a notification into a task, at most once, and returns the
    /// task's id whether it was made now or by an earlier call.
    pub fn convert_notification_to_task(&mut self, id: &str, now_ms: i64) -> (r: Option<String>)
        ensures
            final(self)@ == old(self)@.convert_notification_to_task(id@, now_ms).0,
            opt_text(r) == old(self)@.convert_notification_to_task(id@, now_ms).1,
    {
        let Some(p) = self.find_notification(id) else {
            return None;
        };
        let summary = self.notifications[p].summary.clone();
        let existing = copy_opt_text(&self.notifications[p].task_id);
        if let Some(task_id) = existing {
            let ids = self.task_id_list();
            if crate::ids::contains_text(&ids, task_id.as_str()) {
                self.set_notification_triaged(id, true);
                return Some(task_id);
            }
        }
        let made = self.create_task(summary.as_str(), 1, now_ms);
        let Some(task) = made else {
            return None;
        };
        let ghost s = self@;
        let mut row = self.notifications[p].duplicate();
        row.task_id = Some(task.id.clone());
        row.triaged = true;
        let ghost updated = row@;
        self.notifications.set(p, row);
        assert(notification_views(self.notifications@) =~= s.notifications.update(p as int, updated));
        assert(self@ =~= old(self)@.convert_notification_to_task(id@, now_ms).0);
        Some(task.id)
    }

    /// Marks a notification triaged or pending; `false` for an unknown id.
    pub fn set_notification_triaged(&mut self, id: &str, triaged: bool) -> (r: bool)
        ensures
            (final(self)@, r) == old(self)@.set_notification_triaged(id@, triaged),
    {
        let Some(i) = self.find_notification(id) else {
            return false;
        };
        let mut row = self.notifications[i].duplicate();
        row.triaged = triaged;
        let ghost updated = row@;
        self.notifications.set(i, row);
        assert(notification_views(self.notifications@) =~= old(self)@.notifications.update(
            i as int,
            updated,
        ));
        assert(self@ =~= old(self)@.set_notification_triaged(id@, triaged).0);
        true
    }

    /// Deletes every captured copy with this id; `false` if there was none.
    pub fn delete_notification(&mut self, id: &str) -> (r: bool)
        ensures
            (final(self)@, r) == old(self)@.delete_notification(id@),
    {
        let key: String = id.to_owned();
        let mut kept: Vec<DesktopNotification> = Vec::new();
        let mut i: usize = 0;
        let ghost all = old(self)@.notifications;
        while i < self.notifications.len()
            invariant
                i <= self.notifications@.len(),
                key@ == id@,
                *self == *old(self),
                all == notification_views(self.notifications@),
                notification_views(kept@) == notifications_without(all.take(i as int), id@),
                kept@.len() <= i,
            decreases self.notifications@.len() - i,
        {
            proof {
                assert(all.take(i as int + 1).drop_last() =~= all.take(i as int));
                assert(all.take(i as int + 1).last() == self.notifications@[i as int]@);
            }
            if !(self.notifications[i].id == key) {
                let ghost before = kept@;
                kept.push(self.notifications[i].duplicate());
                assert(notification_views(kept@) =~= notification_views(before).push(
                    self.notifications@[i as int]@,
                ));
            }
            i = i + 1;
        }
        assert(all.take(i as int) =~= all);
        if kept.len() == self.notifications.len() {
            return false;
        }
        self.notifications = kept;
        assert(self@ =~= old(self)@.delete_notification(id@).0);
        true
    }

    /// Deletes every captured notification.
    pub fn clear_notifications(&mut self)
        ensures
            final(self)@ == old(self)@.clear_notifications(),
    {
        self.notifications.clear();
        assert(self@ =~= old(self)@.clear_notifications());
    }
}

} // verus!
