//! What moves data in and out: the CSV export of session history, the size
//! limit an export must meet, where an export may go, and the checks before
//! an import replaces the current data.
//!
//! The file dialogs, the reading and the writing are the application's.

use crate::domain::{AppData, AppView, Phase, SessionOutcome, SessionRecord, SessionView, TimerStatus};
use crate::paths::{path_starts_with, starts_with_path};
use crate::schema::MAX_IMPORT_BYTES;
use crate::storage::{protected_message, Store};
use crate::text::{chars_of, decimal, int_text, is_white, is_white_char, lemma_trim_start_at, signed_decimal, trim_start};
use vstd::prelude::*;

verus! {

// ---------------------------------------------------------------------------
// CSV cells.

/// A character that makes a spreadsheet read a cell as a formula.
pub open spec fn formula_lead(c: char) -> bool {
    c == '=' || c == '+' || c == '-' || c == '@'
}

/// Text a spreadsheet could take for a formula: its first character after
/// white space leads one, or it begins with a tab or a line break.
pub open spec fn needs_guard(t: Seq<char>) -> bool {
    let s = trim_start(t);
    ||| s.len() > 0 && formula_lead(s[0])
    ||| t.len() > 0 && (t[0] == '\t' || t[0] == '\r' || t[0] == '\n')
}

/// `t` with every `"` doubled.
pub open spec fn doubled_quotes(t: Seq<char>) -> Seq<char>
    decreases t.len(),
{
    if t.len() == 0 {
        t
    } else {
        let rest = doubled_quotes(t.drop_last());
        if t.last() == '"' {
            rest + "\"\""@
        } else {
            rest.push(t.last())
        }
    }
}

/// A CSV cell holding `t`: quoted, quotes doubled, and an apostrophe in
/// front of anything a spreadsheet would otherwise run as a formula.
pub open spec fn csv_cell_of(t: Seq<char>) -> Seq<char> {
    "\""@ + (if needs_guard(t) {
        "'"@
    } else {
        Seq::empty()
    }) + doubled_quotes(t) + "\""@
}

fn guard_needed(text: &str) -> (r: bool)
    ensures
        r == needs_guard(text@),
{
    let v = chars_of(text);
    let n = v.len();
    let mut a: usize = 0;
    while a < n && is_white_char(v[a])
        invariant
            a <= n,
            n == v@.len(),
            v@ == text@,
            forall|i: int| 0 <= i < a ==> is_white(#[trigger] text@[i]),
        decreases n - a,
    {
        a = a + 1;
    }
    proof {
        lemma_trim_start_at(text@, a as int);
    }
    let formula = a < n && (v[a] == '=' || v[a] == '+' || v[a] == '-' || v[a] == '@');
    let control = n > 0 && (v[0] == '\t' || v[0] == '\r' || v[0] == '\n');
    formula || control
}

/// A CSV cell holding `text`; see [`csv_cell_of`].
pub fn csv_cell(text: &str) -> (r: String)
    ensures
        r@ == csv_cell_of(text@),
{
    let mut out = "\"".to_owned();
    if guard_needed(text) {
        out.append("'");
    }
    let ghost head = out@;
    let v = chars_of(text);
    let n = v.len();
    let mut i: usize = 0;
    proof {
        assert(text@.subrange(0, 0) =~= Seq::<char>::empty());
        assert(out@ =~= head + doubled_quotes(text@.subrange(0, 0)));
    }
    while i < n
        invariant
            i <= n,
            n == v@.len(),
            v@ == text@,
            out@ == head + doubled_quotes(text@.subrange(0, i as int)),
        decreases n - i,
    {
        let ghost before = out@;
        proof {
            let s = text@.subrange(0, i as int + 1);
            assert(s.drop_last() =~= text@.subrange(0, i as int));
            assert(s.last() == text@[i as int]);
        }
        if v[i] == '"' {
            out.append("\"\"");
            proof {
                assert(out@ =~= head + doubled_quotes(text@.subrange(0, i as int + 1)));
            }
        } else {
            out.append(text.substring_char(i, i + 1));
            proof {
                assert(text@.subrange(i as int, i as int + 1) =~= seq![text@[i as int]]);
                assert(out@ =~= head + doubled_quotes(text@.subrange(0, i as int + 1)));
            }
        }
        i = i + 1;
    }
    out.append("\"");
    proof {
        assert(text@.subrange(0, n as int) =~= text@);
        assert(out@ =~= csv_cell_of(text@));
    }
    out
}

// ---------------------------------------------------------------------------
// Timestamps, through chrono.

/// Whether `chrono` can represent the moment `ms` milliseconds after the
/// Unix epoch.
pub uninterp spec fn chrono_millis_in_range(ms: i64) -> bool;

/// The RFC 3339 text chrono writes for the moment `ms` milliseconds after
/// the Unix epoch, in UTC.
pub uninterp spec fn rfc3339_of_millis(ms: i64) -> Seq<char>;

/// `chrono::DateTime::from_timestamp_millis`, then `to_rfc3339` on the
/// moment it gives.
///
/// Trusted: `None` exactly for the milliseconds chrono cannot represent
/// ("None on out-of-range number of milliseconds", as its documentation
/// says), which [`chrono_millis_in_range`] names; otherwise the text, which
/// depends on nothing but `ms` and which [`rfc3339_of_millis`] names.
#[verifier::external_body]
fn utc_rfc3339(ms: i64) -> (r: Option<String>)
    ensures
        r is Some == chrono_millis_in_range(ms),
        r matches Some(text) ==> text@ == rfc3339_of_millis(ms),
{
    match chrono::DateTime::from_timestamp_millis(ms) {
        Some(moment) => Some(moment.to_rfc3339()),
        None => None,
    }
}

/// A timestamp as an export writes it: RFC 3339 in UTC where chrono can
/// represent it, the plain number of milliseconds otherwise.
pub open spec fn stamp_text(ms: i64) -> Seq<char> {
    if chrono_millis_in_range(ms) {
        rfc3339_of_millis(ms)
    } else {
        signed_decimal(ms as int)
    }
}

/// The text of the timestamp `ms`; see [`stamp_text`].
pub fn timestamp_text(ms: i64) -> (r: String)
    ensures
        r@ == stamp_text(ms),
{
    match utc_rfc3339(ms) {
        Some(text) => text,
        None => int_text(ms as i128),
    }
}

// ---------------------------------------------------------------------------
// The session history as CSV.

pub open spec fn csv_header() -> Seq<char> {
    "id,phase,task_id,task_title,duration_seconds,started_at_utc,ended_at_utc,outcome\r\n"@
}

/// A phase as the data file names it.
pub open spec fn phase_name(p: Phase) -> Seq<char> {
    match p {
        Phase::Focus => "focus"@,
        Phase::ShortBreak => "shortBreak"@,
        Phase::LongBreak => "longBreak"@,
    }
}

/// An outcome as the data file names it.
pub open spec fn outcome_name(o: SessionOutcome) -> Seq<char> {
    match o {
        SessionOutcome::Completed => "completed"@,
        SessionOutcome::Skipped => "skipped"@,
        SessionOutcome::Abandoned => "abandoned"@,
    }
}

pub open spec fn or_empty(o: Option<Seq<char>>) -> Seq<char> {
    match o {
        Some(t) => t,
        None => Seq::empty(),
    }
}

/// One session's line, its two timestamps already written.
pub open spec fn csv_line(s: SessionView, started: Seq<char>, ended: Seq<char>) -> Seq<char> {
    csv_cell_of(s.id) + ","@ + csv_cell_of(phase_name(s.phase)) + ","@ + csv_cell_of(
        or_empty(s.task_id),
    ) + ","@ + csv_cell_of(or_empty(s.task_title)) + ","@ + csv_cell_of(
        decimal(s.duration_seconds as nat),
    ) + ","@ + csv_cell_of(started) + ","@ + csv_cell_of(ended) + ","@ + csv_cell_of(
        outcome_name(s.outcome),
    ) + "\r\n"@
}

/// The lines of `sessions`.
pub open spec fn csv_lines(sessions: Seq<SessionView>) -> Seq<char>
    decreases sessions.len(),
{
    if sessions.len() == 0 {
        Seq::empty()
    } else {
        csv_lines(sessions.drop_last()) + csv_line(
            sessions.last(),
            stamp_text(sessions.last().started_at),
            stamp_text(sessions.last().ended_at),
        )
    }
}

fn phase_text(p: Phase) -> (r: &'static str)
    ensures
        r@ == phase_name(p),
{
    match p {
        Phase::Focus => "focus",
        Phase::ShortBreak => "shortBreak",
        Phase::LongBreak => "longBreak",
    }
}

fn outcome_text(o: SessionOutcome) -> (r: &'static str)
    ensures
        r@ == outcome_name(o),
{
    match o {
        SessionOutcome::Completed => "completed",
        SessionOutcome::Skipped => "skipped",
        SessionOutcome::Abandoned => "abandoned",
    }
}

fn opt_str(o: &Option<String>) -> (r: &str)
    ensures
        r@ == or_empty(crate::domain::opt_text(*o)),
{
    match o {
        Some(t) => {
            let r = t.as_str();
            assert(crate::domain::opt_text(*o) == Some(t@));
            r
        },
        None => {
            let r = "";
            proof {
                reveal_strlit("");
            }
            assert(r@ =~= Seq::<char>::empty());
            r
        },
    }
}

fn push_cell(line: &mut String, text: &str, last: bool)
    ensures
        final(line)@ == old(line)@ + csv_cell_of(text@) + (if last {
            "\r\n"@
        } else {
            ","@
        }),
{
    line.append(csv_cell(text).as_str());
    if last {
        line.append("\r\n");
    } else {
        line.append(",");
    }
}

/// One session's CSV line, its timestamps written as given.
pub fn session_line(s: &SessionRecord, started: &str, ended: &str) -> (r: String)
    ensures
        r@ == csv_line(s@, started@, ended@),
{
    let mut line = String::new();
    push_cell(&mut line, s.id.as_str(), false);
    push_cell(&mut line, phase_text(s.phase), false);
    push_cell(&mut line, opt_str(&s.task_id), false);
    push_cell(&mut line, opt_str(&s.task_title), false);
    push_cell(&mut line, int_text(s.duration_seconds as i128).as_str(), false);
    push_cell(&mut line, started, false);
    push_cell(&mut line, ended, false);
    push_cell(&mut line, outcome_text(s.outcome), true);
    assert(line@ =~= csv_line(s@, started@, ended@));
    line
}

/// The session history as CSV: a header, then one line per session in the
/// order they are stored.
pub fn sessions_csv(data: &AppData) -> (r: String)
    ensures
        r@ == csv_header() + csv_lines(data@.sessions),
{
    let mut csv = "id,phase,task_id,task_title,duration_seconds,started_at_utc,ended_at_utc,outcome\r\n".to_owned();
    let ghost sessions = data@.sessions;
    let mut i: usize = 0;
    proof {
        assert(sessions.subrange(0, 0) =~= Seq::<SessionView>::empty());
    }
    while i < data.sessions.len()
        invariant
            i <= data.sessions@.len(),
            sessions == data@.sessions,
            csv@ == csv_header() + csv_lines(sessions.subrange(0, i as int)),
        decreases data.sessions@.len() - i,
    {
        let s = &data.sessions[i];
        let started = timestamp_text(s.started_at);
        let ended = timestamp_text(s.ended_at);
        let line = session_line(s, started.as_str(), ended.as_str());
        csv.append(line.as_str());
        proof {
            let sub = sessions.subrange(0, i as int + 1);
            assert(sub.drop_last() =~= sessions.subrange(0, i as int));
            assert(sub.last() == s@);
            assert(csv@ =~= csv_header() + csv_lines(sub));
        }
        i = i + 1;
    }
    proof {
        assert(sessions.subrange(0, i as int) =~= sessions);
    }
    csv
}

// ---------------------------------------------------------------------------
// Exports and replacement.

pub open spec fn export_too_large_message() -> Seq<char> {
    "The full backup exceeds the 32 MiB import limit. Open the data folder to copy it manually."@
}

/// Refuses a full export that an import would refuse for its size.
pub fn export_size_check(len: usize) -> (r: Result<(), String>)
    ensures
        len <= MAX_IMPORT_BYTES ==> r is Ok,
        len > MAX_IMPORT_BYTES ==> (r matches Err(m) && m@ == export_too_large_message()),
{
    if len as u64 > MAX_IMPORT_BYTES {
        Err(
            "The full backup exceeds the 32 MiB import limit. Open the data folder to copy it manually.".to_owned(),
        )
    } else {
        Ok(())
    }
}

pub open spec fn inside_data_message() -> Seq<char> {
    "Choose a folder outside Pomodoro's managed data folder."@
}

/// Refuses an export into the data folder, or anywhere under it, where it
/// would sit among the files Pomodoro manages. Both folders are as the file
/// system resolved them; a data folder that could not be resolved refuses
/// nothing.
pub fn export_destination_check(folder: &str, data_folder: Option<&str>) -> (r: Result<
    (),
    String,
>)
    ensures
        match data_folder {
            Some(d) => if path_starts_with(folder@, d@) {
                r matches Err(m) && m@ == inside_data_message()
            } else {
                r is Ok
            },
            None => r is Ok,
        },
{
    if let Some(d) = data_folder {
        if starts_with_path(folder, d) {
            return Err("Choose a folder outside Pomodoro's managed data folder.".to_owned());
        }
    }
    Ok(())
}

/// What a full export writes: the data as a quit would leave it, with no
/// interval running, and without the restore marker, which belongs to this
/// machine's desktop.
pub fn export_copy(data: &AppData, now_ms: i64) -> (r: AppData)
    ensures
        r@ == (AppView { banner_restore: None, ..data@.pause_to_quit(now_ms) }),
{
    let mut copy = crate::domain::Duplicate::duplicate(data);
    copy.pause_to_quit(now_ms);
    copy.banner_restore = None;
    assert(copy@ =~= (AppView { banner_restore: None, ..data@.pause_to_quit(now_ms) }));
    copy
}

pub open spec fn busy_timer_message() -> Seq<char> {
    "Reset the current interval before replacing your data."@
}

/// The data an import replaces the current data with, or why it may not:
/// the store must be writable and the timer idle. The desktop's restore
/// marker belongs to this machine and is kept.
pub fn prepare_replacement(store: &Store, current: &AppData, imported: &AppData) -> (r: Result<
    AppData,
    String,
>)
    ensures
        !store@.writable ==> (r matches Err(m) && m@ == protected_message()),
        store@.writable && current@.timer.status != TimerStatus::Idle ==> (r matches Err(m) && m@
            == busy_timer_message()),
        store@.writable && current@.timer.status == TimerStatus::Idle ==> (r matches Ok(next)
            && next@ == (AppView { banner_restore: current@.banner_restore, ..imported@ })),
{
    if let Err(message) = store.ensure_writable() {
        return Err(message);
    }
    if current.timer.status != TimerStatus::Idle {
        return Err("Reset the current interval before replacing your data.".to_owned());
    }
    let mut next = crate::domain::Duplicate::duplicate(imported);
    next.banner_restore = current.banner_restore;
    assert(next@ =~= (AppView { banner_restore: current@.banner_restore, ..imported@ }));
    Ok(next)
}

} // verus!
