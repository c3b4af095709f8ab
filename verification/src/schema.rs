//! The disk format's version, and the validation an import must pass.
//!
//! Version 0 is the first, unversioned JSON object; version 1 adds an
//! explicit `schemaVersion` and keeps the field layout. Imports are
//! stricter than loading the local store: an unrelated JSON object must
//! never silently become an empty replacement for a person's work.

use crate::domain::{
    interruption_ids, notification_ids, session_ids, task_ids, AppData, AppView,
    CaptureState, CaptureStatus, CaptureStatusView, DesktopNotification, Duplicate, FilterView,
    Interruption, InterruptionView, NotificationFilter, NotificationView, SettingsView,
    TimerStatus, TimerView, NOTIFICATION_RETENTION, SESSION_RETENTION,
};
use crate::domain::capture::text_list;
use crate::ids::{all_different, contains_text, texts};
use crate::text::{decimal, int_text, trim, trimmed};
use vstd::prelude::*;

verus! {

/// The newest disk format this build reads and writes.
pub const CURRENT_VERSION: u64 = 1;

/// The largest file an import accepts: 32 MiB.
pub const MAX_IMPORT_BYTES: u64 = 33_554_432;

/// Why stored data could not be read.
#[derive(Debug)]
pub enum DecodeError {
    /// Written by a newer build, with this schema version.
    FutureVersion(u64),
    /// Not Pomodoro data; the message says why.
    Invalid(String),
}

pub enum DecodeErrorView {
    FutureVersion(u64),
    Invalid(Seq<char>),
}

impl View for DecodeError {
    type V = DecodeErrorView;

    open spec fn view(&self) -> DecodeErrorView {
        match self {
            DecodeError::FutureVersion(v) => DecodeErrorView::FutureVersion(*v),
            DecodeError::Invalid(m) => DecodeErrorView::Invalid(m@),
        }
    }
}

pub open spec fn future_version_message(version: u64) -> Seq<char> {
    "This data uses schema "@ + decimal(version as nat) + "; this build supports up to "@
        + decimal(CURRENT_VERSION as nat) + ". Open it with a newer Pomodoro build."@
}

pub open spec fn decode_error_message(e: DecodeErrorView) -> Seq<char> {
    match e {
        DecodeErrorView::FutureVersion(v) => future_version_message(v),
        DecodeErrorView::Invalid(m) => m,
    }
}

impl DecodeError {
    /// What to tell the person.
    pub fn message(&self) -> (r: String)
        ensures
            r@ == decode_error_message(self@),
    {
        match self {
            DecodeError::FutureVersion(version) => {
                let mut m = "This data uses schema ".to_owned();
                m.append(int_text(*version as i128).as_str());
                m.append("; this build supports up to ");
                m.append(int_text(CURRENT_VERSION as i128).as_str());
                m.append(". Open it with a newer Pomodoro build.");
                assert(m@ =~= future_version_message(*version));
                m
            },
            DecodeError::Invalid(message) => message.clone(),
        }
    }
}

// ---------------------------------------------------------------------------
// JSON, through serde_json.

/// The kinds of JSON value.
#[derive(Clone, Copy, Debug, PartialEq, Eq, Structural)]
pub enum JsonKind {
    Null,
    Bool,
    Number,
    Text,
    Array,
    Object,
}

/// What the checks read of a JSON document: the kind of its top-level
/// value, its version member (absent; present, and a whole number that
/// fits in `u64` or not), and the kind of each member asked about, in the
/// order asked.
pub struct JsonShape {
    pub kind: JsonKind,
    pub version: Option<Option<u64>>,
    pub members: Vec<Option<JsonKind>>,
}

pub struct JsonShapeView {
    pub kind: JsonKind,
    pub version: Option<Option<u64>>,
    pub members: Seq<Option<JsonKind>>,
}

impl View for JsonShape {
    type V = JsonShapeView;

    open spec fn view(&self) -> JsonShapeView {
        JsonShapeView { kind: self.kind, version: self.version, members: self.members@ }
    }
}

/// Whether `bytes` are one JSON document, as `serde_json::from_slice`
/// parses them.
pub uninterp spec fn is_json_document(bytes: Seq<u8>) -> bool;

/// The shape of the document `bytes` parse to, reading the version from
/// the member `version_key` and the kinds of the members `member_keys`.
pub uninterp spec fn json_shape(
    bytes: Seq<u8>,
    version_key: Seq<char>,
    member_keys: Seq<Seq<char>>,
) -> JsonShapeView;

/// Parses `bytes` with `serde_json::from_slice` into a `serde_json::Value`
/// and reads its shape: the value's variant, `Value::get` of the version
/// member and `Value::as_u64` of it, and `Value::get` of each member with
/// that member's variant.
///
/// Trusted: `None` exactly for bytes that are not one JSON document, which
/// [`is_json_document`] names; otherwise the shape, which depends on the
/// bytes and the keys alone and which [`json_shape`] names, with one entry
/// per member key.
#[verifier::external_body]
fn parse_json_shape(bytes: &[u8], version_key: &str, member_keys: &Vec<String>) -> (r: Option<
    JsonShape,
>)
    ensures
        r is Some == is_json_document(bytes@),
        r matches Some(s) ==> s@ == json_shape(bytes@, version_key@, texts(member_keys@))
            && s.members@.len() == member_keys@.len(),
{
    let value: serde_json::Value = serde_json::from_slice(bytes).ok()?;
    let kind = |v: &serde_json::Value| match v {
        serde_json::Value::Null => JsonKind::Null,
        serde_json::Value::Bool(_) => JsonKind::Bool,
        serde_json::Value::Number(_) => JsonKind::Number,
        serde_json::Value::String(_) => JsonKind::Text,
        serde_json::Value::Array(_) => JsonKind::Array,
        serde_json::Value::Object(_) => JsonKind::Object,
    };
    let version = value.get(version_key).map(serde_json::Value::as_u64);
    let members = member_keys.iter().map(|key| value.get(key.as_str()).map(kind)).collect();
    Some(JsonShape { kind: kind(&value), version, members })
}

// ---------------------------------------------------------------------------
// The document.

/// What the `schemaVersion` member holds.
#[derive(Clone, Copy, Debug, PartialEq, Eq, Structural)]
pub enum VersionField {
    Absent,
    NotWhole,
    Whole(u64),
}

/// The member that holds a document's schema version.
pub open spec fn version_key() -> Seq<char> {
    "schemaVersion"@
}

/// The version field as the shape read it.
pub open spec fn version_field(version: Option<Option<u64>>) -> VersionField {
    match version {
        None => VersionField::Absent,
        Some(None) => VersionField::NotWhole,
        Some(Some(v)) => VersionField::Whole(v),
    }
}

pub open spec fn not_json_message() -> Seq<char> {
    "The file is not valid Pomodoro JSON."@
}

pub open spec fn not_object_message() -> Seq<char> {
    "The data must be a JSON object."@
}

pub open spec fn not_whole_message() -> Seq<char> {
    "The data schema version must be a whole number."@
}

/// Whether a document of this kind and version can be read, and if so
/// whether it is an older version that is migrated on the way in. A missing
/// version is version 0.
pub open spec fn version_verdict(kind: JsonKind, version: VersionField) -> Result<
    bool,
    DecodeErrorView,
> {
    if kind != JsonKind::Object {
        Err(DecodeErrorView::Invalid(not_object_message()))
    } else {
        match version {
            VersionField::Absent => Ok(0 < CURRENT_VERSION),
            VersionField::NotWhole => Err(DecodeErrorView::Invalid(not_whole_message())),
            VersionField::Whole(v) => if v > CURRENT_VERSION {
                Err(DecodeErrorView::FutureVersion(v))
            } else {
                Ok(v < CURRENT_VERSION)
            },
        }
    }
}

pub open spec fn verdict_view(r: Result<bool, DecodeError>) -> Result<bool, DecodeErrorView> {
    match r {
        Ok(b) => Ok(b),
        Err(e) => Err(e@),
    }
}

/// Checks a document's kind and version; see [`version_verdict`].
pub fn document_version(kind: JsonKind, version: VersionField) -> (r: Result<bool, DecodeError>)
    ensures
        verdict_view(r) == version_verdict(kind, version),
{
    if kind != JsonKind::Object {
        return Err(DecodeError::Invalid("The data must be a JSON object.".to_owned()));
    }
    match version {
        VersionField::Absent => Ok(0 < CURRENT_VERSION),
        VersionField::NotWhole => Err(
            DecodeError::Invalid("The data schema version must be a whole number.".to_owned()),
        ),
        VersionField::Whole(v) => if v > CURRENT_VERSION {
            Err(DecodeError::FutureVersion(v))
        } else {
            Ok(v < CURRENT_VERSION)
        },
    }
}

/// The verdict on stored bytes: not JSON, or what [`version_verdict`] says
/// of the top-level kind and version the document has.
pub open spec fn document_verdict(bytes: Seq<u8>) -> Result<bool, DecodeErrorView> {
    if !is_json_document(bytes) {
        Err(DecodeErrorView::Invalid(not_json_message()))
    } else {
        let shape = json_shape(bytes, version_key(), Seq::empty());
        version_verdict(shape.kind, version_field(shape.version))
    }
}

fn field_of(version: Option<Option<u64>>) -> (r: VersionField)
    ensures
        r == version_field(version),
{
    match version {
        None => VersionField::Absent,
        Some(None) => VersionField::NotWhole,
        Some(Some(v)) => VersionField::Whole(v),
    }
}

/// Checks stored bytes: whether they can be read, and if so whether they
/// are an older version; see [`document_verdict`]. Turning them into data
/// is the application's, through serde.
pub fn document(bytes: &[u8]) -> (r: Result<bool, DecodeError>)
    ensures
        verdict_view(r) == document_verdict(bytes@),
{
    let keys: Vec<String> = Vec::new();
    let shape = match parse_json_shape(bytes, "schemaVersion", &keys) {
        Some(shape) => shape,
        None => return Err(DecodeError::Invalid("The file is not valid Pomodoro JSON.".to_owned())),
    };
    proof {
        reveal_strlit("schemaVersion");
        assert(texts(keys@) =~= Seq::<Seq<char>>::empty());
    }
    document_version(shape.kind, field_of(shape.version))
}

// ---------------------------------------------------------------------------
// Imports: the shape of the file.

pub open spec fn too_large_message() -> Seq<char> {
    "Choose a data file smaller than 32 MiB."@
}

/// The members an import must have, in the order they are checked.
pub open spec fn required_members() -> Seq<Seq<char>> {
    seq!["tasks"@, "sessions"@, "interruptions"@, "settings"@, "timer"@]
}

/// The lists and objects an import must have, checked in this order.
pub open spec fn missing_member(
    tasks: Option<JsonKind>,
    sessions: Option<JsonKind>,
    interruptions: Option<JsonKind>,
    settings: Option<JsonKind>,
    timer: Option<JsonKind>,
) -> Option<Seq<char>> {
    if tasks != Some(JsonKind::Array) {
        Some("The file is missing the tasks list."@)
    } else if sessions != Some(JsonKind::Array) {
        Some("The file is missing the sessions list."@)
    } else if interruptions != Some(JsonKind::Array) {
        Some("The file is missing the interruptions list."@)
    } else if settings != Some(JsonKind::Object) {
        Some("The file is missing its settings."@)
    } else if timer != Some(JsonKind::Object) {
        Some("The file is missing its timer."@)
    } else {
        None
    }
}

/// Says which required member an import lacks; see [`missing_member`].
pub fn missing_member_message(
    tasks: Option<JsonKind>,
    sessions: Option<JsonKind>,
    interruptions: Option<JsonKind>,
    settings: Option<JsonKind>,
    timer: Option<JsonKind>,
) -> (r: Option<String>)
    ensures
        match r {
            Some(m) => missing_member(tasks, sessions, interruptions, settings, timer) == Some(m@),
            None => missing_member(tasks, sessions, interruptions, settings, timer) is None,
        },
{
    if tasks != Some(JsonKind::Array) {
        Some("The file is missing the tasks list.".to_owned())
    } else if sessions != Some(JsonKind::Array) {
        Some("The file is missing the sessions list.".to_owned())
    } else if interruptions != Some(JsonKind::Array) {
        Some("The file is missing the interruptions list.".to_owned())
    } else if settings != Some(JsonKind::Object) {
        Some("The file is missing its settings.".to_owned())
    } else if timer != Some(JsonKind::Object) {
        Some("The file is missing its timer.".to_owned())
    } else {
        None
    }
}

/// Why an import refuses `bytes` before they become data, or `None` when
/// they may go on: too large; not JSON; a kind or version
/// [`version_verdict`] refuses, with its message; a required member
/// missing or of the wrong kind. An unrelated JSON object is refused, and
/// a well-formed document always goes on.
pub open spec fn import_refusal(bytes: Seq<u8>) -> Option<Seq<char>> {
    if bytes.len() > MAX_IMPORT_BYTES {
        Some(too_large_message())
    } else if !is_json_document(bytes) {
        Some(not_json_message())
    } else {
        let shape = json_shape(bytes, version_key(), required_members());
        match version_verdict(shape.kind, version_field(shape.version)) {
            Err(e) => Some(decode_error_message(e)),
            Ok(_) => missing_member(
                shape.members[0],
                shape.members[1],
                shape.members[2],
                shape.members[3],
                shape.members[4],
            ),
        }
    }
}

fn required_member_keys() -> (r: Vec<String>)
    ensures
        texts(r@) == required_members(),
{
    let mut keys: Vec<String> = Vec::new();
    keys.push("tasks".to_owned());
    keys.push("sessions".to_owned());
    keys.push("interruptions".to_owned());
    keys.push("settings".to_owned());
    keys.push("timer".to_owned());
    proof {
        reveal_strlit("tasks");
        reveal_strlit("sessions");
        reveal_strlit("interruptions");
        reveal_strlit("settings");
        reveal_strlit("timer");
    }
    assert(texts(keys@) =~= required_members());
    keys
}

/// The first half of an import, before the document becomes data: the size
/// limit, the version, and the members an import must have; see
/// [`import_refusal`]. Turning the document into data is the
/// application's, through serde, and [`finish_import`] checks the result.
pub fn import_document(bytes: &[u8]) -> (r: Result<(), String>)
    ensures
        match r {
            Ok(()) => import_refusal(bytes@) is None,
            Err(m) => import_refusal(bytes@) == Some(m@),
        },
{
    if bytes.len() as u64 > MAX_IMPORT_BYTES {
        return Err("Choose a data file smaller than 32 MiB.".to_owned());
    }
    let keys = required_member_keys();
    let shape = match parse_json_shape(bytes, "schemaVersion", &keys) {
        Some(shape) => shape,
        None => return Err("The file is not valid Pomodoro JSON.".to_owned()),
    };
    proof {
        reveal_strlit("schemaVersion");
        assert(texts(keys@).len() == keys@.len());
        assert(required_members().len() == 5);
    }
    if let Err(error) = document_version(shape.kind, field_of(shape.version)) {
        return Err(error.message());
    }
    let problem = missing_member_message(
        shape.members[0],
        shape.members[1],
        shape.members[2],
        shape.members[3],
        shape.members[4],
    );
    match problem {
        Some(message) => Err(message),
        None => Ok(()),
    }
}

// ---------------------------------------------------------------------------
// Imports: the data.

/// Ids fit to import: none blank, none twice.
pub open spec fn usable_ids(ids: Seq<Seq<char>>) -> bool {
    &&& forall|i: int| 0 <= i < ids.len() ==> trimmed(#[trigger] ids[i]).len() > 0
    &&& all_different(ids)
}

pub open spec fn too_many_message(count: nat, label: Seq<char>, limit: nat) -> Seq<char> {
    "The file contains "@ + decimal(count) + " "@ + label + "; Pomodoro can keep at most "@
        + decimal(limit) + "."@
}

pub open spec fn bad_ids_message(label: Seq<char>) -> Seq<char> {
    "The "@ + label + " contain an empty or duplicate ID."@
}

/// The timer an import may carry: a length of a second to a day, and no
/// more time left than that.
pub open spec fn valid_timer(t: TimerView) -> bool {
    t.duration_seconds != 0 && t.duration_seconds <= 24 * 60 * 60 && t.remaining_seconds
        <= t.duration_seconds
}

/// Why imported data is refused, checked in this order, if it is.
pub open spec fn import_problem(d: AppView) -> Option<Seq<char>> {
    if d.sessions.len() > SESSION_RETENTION {
        Some(too_many_message(d.sessions.len(), "sessions"@, SESSION_RETENTION as nat))
    } else if d.notifications.len() > NOTIFICATION_RETENTION {
        Some(too_many_message(d.notifications.len(), "notifications"@, NOTIFICATION_RETENTION as nat))
    } else if !usable_ids(task_ids(d.tasks)) {
        Some(bad_ids_message("tasks"@))
    } else if !usable_ids(session_ids(d.sessions)) {
        Some(bad_ids_message("sessions"@))
    } else if !usable_ids(interruption_ids(d.interruptions)) {
        Some(bad_ids_message("interruptions"@))
    } else if !usable_ids(notification_ids(d.notifications)) {
        Some(bad_ids_message("notifications"@))
    } else if exists|i: int| 0 <= i < d.tasks.len() && trimmed(#[trigger] d.tasks[i].title).len() == 0 {
        Some("Every imported task needs a name."@)
    } else if exists|i: int|
        0 <= i < d.sessions.len() && (#[trigger] d.sessions[i]).ended_at < d.sessions[i].started_at {
        Some("An imported session ends before it starts."@)
    } else if d.settings.sanitized() != d.settings {
        Some("Some imported settings are outside their supported limits."@)
    } else if !valid_timer(d.timer) {
        Some("The imported timer has an invalid duration."@)
    } else {
        None
    }
}

/// A link to a task, kept only if the task is among `ids`.
pub open spec fn kept_link(link: Option<Seq<char>>, ids: Seq<Seq<char>>) -> Option<Seq<char>> {
    match link {
        Some(id) => if ids.contains(id) {
            Some(id)
        } else {
            None
        },
        None => None,
    }
}

/// Imported data as it is kept: links to tasks the file does not have are
/// dropped; the timer is not left running; nothing of this machine's desktop
/// is claimed: no restore marker, capture off, banners left alone.
pub open spec fn imported(d: AppView) -> AppView {
    let ids = task_ids(d.tasks);
    AppView {
        timer: TimerView {
            active_task_id: kept_link(d.timer.active_task_id, ids),
            status: if d.timer.status == TimerStatus::Running {
                TimerStatus::Paused
            } else {
                d.timer.status
            },
            ends_at: None,
            ..d.timer
        },
        interruptions: d.interruptions.map_values(
            |n: InterruptionView|
                InterruptionView { converted_task_id: kept_link(n.converted_task_id, ids), ..n },
        ),
        notifications: d.notifications.map_values(
            |n: NotificationView| NotificationView { task_id: kept_link(n.task_id, ids), ..n },
        ),
        settings: SettingsView {
            notification_filter: FilterView { enabled: false, ..d.settings.notification_filter },
            silence_banners_during_focus: false,
            ..d.settings
        },
        banner_restore: None,
        capture_status: CaptureStatusView::plain(CaptureState::Off),
        recovered_store: None,
        ..d
    }
}

fn too_many(count: usize, label: &str, limit: usize) -> (r: String)
    ensures
        r@ == too_many_message(count as nat, label@, limit as nat),
{
    let mut m = "The file contains ".to_owned();
    m.append(int_text(count as i128).as_str());
    m.append(" ");
    m.append(label);
    m.append("; Pomodoro can keep at most ");
    m.append(int_text(limit as i128).as_str());
    m.append(".");
    assert(m@ =~= too_many_message(count as nat, label@, limit as nat));
    m
}

fn bad_ids(label: &str) -> (r: String)
    ensures
        r@ == bad_ids_message(label@),
{
    let mut m = "The ".to_owned();
    m.append(label);
    m.append(" contain an empty or duplicate ID.");
    assert(m@ =~= bad_ids_message(label@));
    m
}

/// Whether `ids` are fit to import; see [`usable_ids`].
fn ids_usable(ids: &Vec<String>) -> (r: bool)
    ensures
        r == usable_ids(texts(ids@)),
{
    let mut seen: Vec<String> = Vec::new();
    let mut i: usize = 0;
    while i < ids.len()
        invariant
            i <= ids@.len(),
            texts(seen@) == texts(ids@).subrange(0, i as int),
            usable_ids(texts(ids@).subrange(0, i as int)),
        decreases ids@.len() - i,
    {
        let id = ids[i].as_str();
        if trim(id).unicode_len() == 0 {
            assert(texts(ids@)[i as int] == id@);
            return false;
        }
        if contains_text(&seen, id) {
            proof {
                let w = choose|w: int| 0 <= w < texts(seen@).len() && texts(seen@)[w] == id@;
                assert(texts(ids@)[w] == texts(ids@)[i as int]);
            }
            return false;
        }
        let ghost before = seen@;
        seen.push(ids[i].clone());
        proof {
            let p = texts(ids@).subrange(0, i as int + 1);
            assert(texts(seen@) =~= texts(before).push(id@));
            assert(p =~= texts(ids@).subrange(0, i as int).push(id@));
            assert forall|a: int, b: int| 0 <= a < b < p.len() implies p[a] != p[b] by {
                if b == i as int {
                    assert(texts(before)[a] == p[a]);
                }
            }
        }
        i = i + 1;
    }
    assert(texts(ids@).subrange(0, ids@.len() as int) =~= texts(ids@));
    true
}

/// Refuses ids that are not fit to import, naming the list they came from.
pub fn unique_ids(ids: &Vec<String>, label: &str) -> (r: Result<(), String>)
    ensures
        match r {
            Ok(()) => usable_ids(texts(ids@)),
            Err(message) => !usable_ids(texts(ids@)) && message@ == bad_ids_message(label@),
        },
{
    if ids_usable(ids) {
        Ok(())
    } else {
        Err(bad_ids(label))
    }
}

fn same_list(a: &Vec<String>, b: &Vec<String>) -> (r: bool)
    ensures
        r == (text_list(a@) == text_list(b@)),
{
    if a.len() != b.len() {
        assert(text_list(a@).len() != text_list(b@).len());
        return false;
    }
    let mut i: usize = 0;
    while i < a.len()
        invariant
            a@.len() == b@.len(),
            i <= a@.len(),
            forall|j: int| 0 <= j < i ==> a@[j]@ == b@[j]@,
        decreases a@.len() - i,
    {
        if a[i] != b[i] {
            assert(text_list(a@)[i as int] != text_list(b@)[i as int]);
            return false;
        }
        i = i + 1;
    }
    assert(text_list(a@) =~= text_list(b@));
    true
}

fn same_filter(a: &NotificationFilter, b: &NotificationFilter) -> (r: bool)
    ensures
        r == (a@ == b@),
{
    let r = a.enabled == b.enabled && a.min_urgency == b.min_urgency && a.focus_only
        == b.focus_only && same_list(&a.muted_apps, &b.muted_apps) && same_list(
        &a.priority_apps,
        &b.priority_apps,
    );
    proof {
        if r {
            assert(a@ =~= b@);
        }
    }
    r
}

fn same_settings(a: &crate::domain::Settings, b: &crate::domain::Settings) -> (r: bool)
    ensures
        r == (a@ == b@),
{
    let r = a.focus_minutes == b.focus_minutes && a.short_break_minutes == b.short_break_minutes
        && a.long_break_minutes == b.long_break_minutes && a.rounds_before_long_break
        == b.rounds_before_long_break && a.auto_start_breaks == b.auto_start_breaks
        && a.auto_start_focus == b.auto_start_focus && a.notifications == b.notifications
        && a.sound == b.sound && a.theme == b.theme && a.timer_face == b.timer_face
        && a.silence_banners_during_focus == b.silence_banners_during_focus && same_filter(
        &a.notification_filter,
        &b.notification_filter,
    );
    proof {
        if r {
            assert(a@ =~= b@);
        }
    }
    r
}

fn keep_link(link: &Option<String>, ids: &Vec<String>) -> (r: Option<String>)
    ensures
        crate::domain::opt_text(r) == kept_link(crate::domain::opt_text(*link), texts(ids@)),
{
    match link {
        Some(id) => if contains_text(ids, id.as_str()) {
            Some(id.clone())
        } else {
            None
        },
        None => None,
    }
}

/// The second half of an import: refuses data that breaks a rule, in the
/// order [`import_problem`] gives, and otherwise keeps it as [`imported`]
/// says. An import never runs a timer or changes a desktop setting on
/// another machine.
pub fn finish_import(data: AppData) -> (r: Result<AppData, String>)
    ensures
        match r {
            Ok(kept) => import_problem(data@) is None && kept@ == imported(data@),
            Err(message) => import_problem(data@) == Some(message@),
        },
{
    let ghost d = data@;
    if data.sessions.len() > SESSION_RETENTION {
        return Err(too_many(data.sessions.len(), "sessions", SESSION_RETENTION));
    }
    if data.notifications.len() > NOTIFICATION_RETENTION {
        return Err(too_many(data.notifications.len(), "notifications", NOTIFICATION_RETENTION));
    }
    let task_list = data.task_id_list();
    if let Err(message) = unique_ids(&task_list, "tasks") {
        return Err(message);
    }
    if let Err(message) = unique_ids(&data.session_id_list(), "sessions") {
        return Err(message);
    }
    if let Err(message) = unique_ids(&data.interruption_id_list(), "interruptions") {
        return Err(message);
    }
    if let Err(message) = unique_ids(&data.notification_id_list(), "notifications") {
        return Err(message);
    }
    let mut i: usize = 0;
    while i < data.tasks.len()
        invariant
            i <= data.tasks@.len(),
            d == data@,
            d.sessions.len() <= SESSION_RETENTION,
            d.notifications.len() <= NOTIFICATION_RETENTION,
            usable_ids(task_ids(d.tasks)),
            usable_ids(session_ids(d.sessions)),
            usable_ids(interruption_ids(d.interruptions)),
            usable_ids(notification_ids(d.notifications)),
            forall|j: int| 0 <= j < i ==> trimmed(#[trigger] d.tasks[j].title).len() > 0,
        decreases data.tasks@.len() - i,
    {
        if trim(data.tasks[i].title.as_str()).unicode_len() == 0 {
            assert(trimmed(d.tasks[i as int].title).len() == 0);
            return Err("Every imported task needs a name.".to_owned());
        }
        i = i + 1;
    }
    let mut k: usize = 0;
    while k < data.sessions.len()
        invariant
            k <= data.sessions@.len(),
            d == data@,
            forall|j: int| 0 <= j < d.tasks.len() ==> trimmed(#[trigger] d.tasks[j].title).len() > 0,
            d.sessions.len() <= SESSION_RETENTION,
            d.notifications.len() <= NOTIFICATION_RETENTION,
            usable_ids(task_ids(d.tasks)),
            usable_ids(session_ids(d.sessions)),
            usable_ids(interruption_ids(d.interruptions)),
            usable_ids(notification_ids(d.notifications)),
            forall|j: int| 0 <= j < k ==> !((#[trigger] d.sessions[j]).ended_at < d.sessions[j].started_at),
        decreases data.sessions@.len() - k,
    {
        if data.sessions[k].ended_at < data.sessions[k].started_at {
            assert(d.sessions[k as int].ended_at < d.sessions[k as int].started_at);
            return Err("An imported session ends before it starts.".to_owned());
        }
        k = k + 1;
    }
    let limited = data.settings.duplicate().sanitized();
    if !same_settings(&limited, &data.settings) {
        return Err("Some imported settings are outside their supported limits.".to_owned());
    }
    if data.timer.duration_seconds == 0 || data.timer.duration_seconds > 24 * 60 * 60
        || data.timer.remaining_seconds > data.timer.duration_seconds {
        return Err("The imported timer has an invalid duration.".to_owned());
    }
    let mut data = data;
    let active = keep_link(&data.timer.active_task_id, &task_list);
    data.timer.active_task_id = active;
    if data.timer.status == TimerStatus::Running {
        data.timer.status = TimerStatus::Paused;
    }
    data.timer.ends_at = None;
    let ghost old_notes = data.interruptions@;
    let ghost old_rows = data.notifications@;
    let mut notes: Vec<Interruption> = Vec::new();
    let mut n: usize = 0;
    while n < data.interruptions.len()
        invariant
            n <= data.interruptions@.len(),
            data.interruptions@ == old_notes,
            texts(task_list@) == task_ids(d.tasks),
            notes@.len() == n,
            forall|j: int|
                0 <= j < n ==> #[trigger] notes@[j]@ == (InterruptionView {
                    converted_task_id: kept_link(old_notes[j]@.converted_task_id, task_ids(d.tasks)),
                    ..old_notes[j]@
                }),
        decreases data.interruptions@.len() - n,
    {
        let mut note = data.interruptions[n].duplicate();
        note.converted_task_id = keep_link(&data.interruptions[n].converted_task_id, &task_list);
        notes.push(note);
        n = n + 1;
    }
    let mut rows: Vec<DesktopNotification> = Vec::new();
    let mut m: usize = 0;
    while m < data.notifications.len()
        invariant
            m <= data.notifications@.len(),
            data.notifications@ == old_rows,
            texts(task_list@) == task_ids(d.tasks),
            rows@.len() == m,
            forall|j: int|
                0 <= j < m ==> #[trigger] rows@[j]@ == (NotificationView {
                    task_id: kept_link(old_rows[j]@.task_id, task_ids(d.tasks)),
                    ..old_rows[j]@
                }),
        decreases data.notifications@.len() - m,
    {
        let mut row = data.notifications[m].duplicate();
        row.task_id = keep_link(&data.notifications[m].task_id, &task_list);
        rows.push(row);
        m = m + 1;
    }
    data.interruptions = notes;
    data.notifications = rows;
    data.banner_restore = None;
    data.settings.notification_filter.enabled = false;
    data.settings.silence_banners_during_focus = false;
    data.capture_status = CaptureStatus::off();
    data.recovered_store = None;
    proof {
        assert(crate::domain::interruption_views(data.interruptions@) =~= imported(d).interruptions);
        assert(crate::domain::notification_views(data.notifications@) =~= imported(d).notifications);
        assert(data@ =~= imported(d));
    }
    Ok(data)
}


/// Imported data never arrives running or claiming this machine's desktop:
/// the timer is not counting down, capture and banner silencing are off,
/// there is no restore marker; and every link it keeps names a task it has.
pub proof fn an_import_claims_nothing_of_this_desktop(d: AppView)
    ensures
        ({
            let kept = imported(d);
            let ids = task_ids(kept.tasks);
            &&& kept.timer.status != TimerStatus::Running
            &&& kept.timer.ends_at is None
            &&& !kept.settings.notification_filter.enabled
            &&& !kept.settings.silence_banners_during_focus
            &&& kept.banner_restore is None
            &&& kept.capture_status == CaptureStatusView::plain(CaptureState::Off)
            &&& (kept.timer.active_task_id matches Some(id) ==> ids.contains(id))
            &&& forall|i: int|
                0 <= i < kept.interruptions.len() ==> ((#[trigger] kept.interruptions[i]).converted_task_id matches Some(
                    id,
                ) ==> ids.contains(id))
            &&& forall|i: int|
                0 <= i < kept.notifications.len() ==> ((#[trigger] kept.notifications[i]).task_id matches Some(
                    id,
                ) ==> ids.contains(id))
            &&& kept.tasks == d.tasks
            &&& kept.sessions == d.sessions
        }),
{
}

} // verus!
