//! The decisions of the reconciliation thread: how long it may sleep, when a
//! deferred write is due, and what to do with the desktop's banners.
//!
//! The thread itself, its locks and the calls it makes to the desktop are
//! the application's; everything it decides is here.

use crate::domain::{sat_add, sat_i64, sat_sub, AppData, AppView};
use vstd::prelude::*;

verus! {

/// Captured notifications are written at most this long after the first of
/// them arrived, rather than one write per notification.
pub const NOTIFICATION_FLUSH_MS: i64 = 2_000;

/// How long to leave a store that would not save before trying it again.
pub const SAVE_RETRY_MS: i64 = 30_000;

/// While a phase is counting down the thread wakes at least this often.
pub const RUNNING_WAKE_MS: u64 = 1_000;

/// With nothing counting down and nothing to write: a long ceiling.
pub const IDLE_WAKE_MS: u64 = 30_000;

/// `x` as a count of milliseconds to wait: a negative span is no wait.
pub open spec fn wait_span(x: i64) -> u64 {
    if x < 0 {
        0
    } else {
        x as u64
    }
}

pub open spec fn at_most(x: u64, cap: u64) -> u64 {
    if x < cap {
        x
    } else {
        cap
    }
}

/// When a write marked dirty at `dirty_since` is due.
pub open spec fn flush_deadline(dirty_since: i64) -> i64 {
    sat_i64(dirty_since + NOTIFICATION_FLUSH_MS)
}

/// How long the reconciliation thread may sleep, in milliseconds.
///
/// Running: until the deadline, capped at [`RUNNING_WAKE_MS`]. Idle with a
/// write pending (`dirty_since` not 0): until it is due, capped at
/// [`IDLE_WAKE_MS`]. Otherwise [`IDLE_WAKE_MS`].
pub open spec fn sleep_ms(running_deadline: Option<i64>, dirty_since: i64, now_ms: i64) -> u64 {
    match running_deadline {
        Some(ends_at) => at_most(wait_span(sat_i64(ends_at - now_ms)), RUNNING_WAKE_MS),
        None => if dirty_since != 0 {
            at_most(wait_span(sat_i64(flush_deadline(dirty_since) - now_ms)), IDLE_WAKE_MS)
        } else {
            IDLE_WAKE_MS
        },
    }
}

fn capped_wait(span: i64, cap: u64) -> (r: u64)
    ensures
        r == at_most(wait_span(span), cap),
{
    let until: u64 = if span < 0 {
        0
    } else {
        span as u64
    };
    if until < cap {
        until
    } else {
        cap
    }
}

/// How long the reconciliation thread can sleep before something needs it;
/// see [`sleep_ms`].
pub fn wait_for(running_deadline: Option<i64>, dirty_since: i64, now_ms: i64) -> (r: u64)
    ensures
        r == sleep_ms(running_deadline, dirty_since, now_ms),
{
    match running_deadline {
        Some(ends_at) => capped_wait(sat_sub(ends_at, now_ms), RUNNING_WAKE_MS),
        None => {
            if dirty_since != 0 {
                let due = sat_add(dirty_since, NOTIFICATION_FLUSH_MS);
                capped_wait(sat_sub(due, now_ms), IDLE_WAKE_MS)
            } else {
                IDLE_WAKE_MS
            }
        },
    }
}

/// The dirty mark to leave after a save failed at `now_ms`: the one that
/// makes the next write come due [`SAVE_RETRY_MS`] from now. Never 0, which
/// would read as "nothing to save".
pub fn retry_mark(now_ms: i64) -> (r: i64)
    ensures
        r == (if sat_i64(now_ms + (SAVE_RETRY_MS - NOTIFICATION_FLUSH_MS)) < 1 {
            1
        } else {
            sat_i64(now_ms + (SAVE_RETRY_MS - NOTIFICATION_FLUSH_MS))
        }),
        r != 0,
{
    let mark = sat_add(now_ms, SAVE_RETRY_MS - NOTIFICATION_FLUSH_MS);
    if mark < 1 {
        1
    } else {
        mark
    }
}

/// The dirty mark once captured notifications arrive at `now_ms`: an
/// existing mark stands, since the oldest waiting change decides when the
/// write is due; otherwise now, and never 0.
pub fn dirty_mark(current: i64, now_ms: i64) -> (r: i64)
    ensures
        r == (if current != 0 {
            current
        } else if now_ms < 1 {
            1
        } else {
            now_ms
        }),
        r != 0,
{
    if current != 0 {
        current
    } else if now_ms < 1 {
        1
    } else {
        now_ms
    }
}

/// Whether the write marked at `dirty_since` is to happen at `now_ms`:
/// something is waiting, and it is forced or has waited
/// [`NOTIFICATION_FLUSH_MS`].
pub fn flush_due(dirty_since: i64, now_ms: i64, force: bool) -> (r: bool)
    ensures
        r == (dirty_since != 0 && (force || sat_i64(now_ms - dirty_since)
            >= NOTIFICATION_FLUSH_MS)),
{
    dirty_since != 0 && (force || sat_sub(now_ms, dirty_since) >= NOTIFICATION_FLUSH_MS)
}

/// Whether the desktop's banners may be turned off right now: never once
/// shutdown has begun.
pub fn may_silence(want_quiet: bool, shutting_down: bool) -> (r: bool)
    ensures
        r == (want_quiet && !shutting_down),
{
    want_quiet && !shutting_down
}

/// What to do with the desktop's banner setting.
#[derive(Clone, Copy, Debug, PartialEq, Eq, Structural)]
pub enum BannerAction {
    /// Leave it.
    Keep,
    /// Read it, and if banners are on, turn them off and remember to put
    /// them back.
    Silence,
    /// Put back the value remembered before silencing, and forget it.
    Restore(bool),
}

/// The banner action for a state that wants quiet or not, given the restore
/// marker: silence only what is not already ours, restore only what we
/// silenced.
pub fn banner_action(want_quiet: bool, banner_restore: Option<bool>) -> (r: BannerAction)
    ensures
        r == (match (want_quiet, banner_restore) {
            (true, None) => BannerAction::Silence,
            (false, Some(previous)) => BannerAction::Restore(previous),
            _ => BannerAction::Keep,
        }),
{
    match (want_quiet, banner_restore) {
        (true, None) => BannerAction::Silence,
        (false, Some(previous)) => BannerAction::Restore(previous),
        _ => BannerAction::Keep,
    }
}

impl AppView {
    /// Banners are wanted off: the setting is on, a focus is counting down,
    /// and shutdown has not begun.
    pub open spec fn wants_quiet(self, now_ms: i64, shutting_down: bool) -> bool {
        self.settings.silence_banners_during_focus && self.is_focus_running(now_ms)
            && !shutting_down
    }
}

impl AppData {
    /// Whether the banners should be off at `now_ms`; see
    /// [`AppView::wants_quiet`].
    pub fn wants_quiet(&self, now_ms: i64, shutting_down: bool) -> (r: bool)
        ensures
            r == self@.wants_quiet(now_ms, shutting_down),
    {
        let focus = self.settings.silence_banners_during_focus && self.is_focus_running(now_ms);
        may_silence(focus, shutting_down)
    }
}

/// A write that failed is tried again [`SAVE_RETRY_MS`] later, not at once,
/// however soon the reconciliation thread wakes; and the thread's sleep and
/// the flush agree on when a pending write is due.
pub proof fn a_failed_save_is_retried_later_and_due_means_due(
    now_ms: i64,
    dirty_since: i64,
    later: i64,
)
    requires
        i64::MIN + SAVE_RETRY_MS <= now_ms <= i64::MAX - SAVE_RETRY_MS,
        dirty_since != 0,
        dirty_since <= i64::MAX - NOTIFICATION_FLUSH_MS,
    ensures
        ({
            let mark = if sat_i64(now_ms + (SAVE_RETRY_MS - NOTIFICATION_FLUSH_MS)) < 1 {
                1
            } else {
                sat_i64(now_ms + (SAVE_RETRY_MS - NOTIFICATION_FLUSH_MS))
            };
            now_ms + (SAVE_RETRY_MS - NOTIFICATION_FLUSH_MS) >= 1 ==> sleep_ms(None, mark, now_ms)
                == SAVE_RETRY_MS
        }),
        (sleep_ms(None, dirty_since, later) == 0) == (sat_i64(later - dirty_since)
            >= NOTIFICATION_FLUSH_MS),
{
}

} // verus!
