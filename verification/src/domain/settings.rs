//! Preferences, their validation bounds, and applying them to an idle timer.

use super::capture::{FilterView, NotificationFilter};
use super::timer::{Phase, TimerStatus};
use super::{AppData, AppView};
use vstd::prelude::*;

verus! {

pub const MIN_MINUTES: u32 = 1;

pub const MAX_MINUTES: u32 = 24 * 60;

pub const MIN_ROUNDS: u32 = 1;

pub const MAX_ROUNDS: u32 = 24;

#[derive(Clone, Copy, Debug, PartialEq, Eq, Structural)]
pub enum ThemePreference {
    System,
    Light,
    Dark,
}

/// How the remaining time is drawn.
#[derive(Clone, Copy, Debug, PartialEq, Eq, Structural)]
pub enum TimerFace {
    Digits,
    Ring,
    Pips,
    Bar,
    Words,
    Analog,
    Vessel,
    Arc,
    Blocks,
    Orbit,
}

impl Default for ThemePreference {
    fn default() -> (r: Self)
        ensures
            r == ThemePreference::System,
    {
        ThemePreference::System
    }
}

impl Default for TimerFace {
    fn default() -> (r: Self)
        ensures
            r == TimerFace::Digits,
    {
        TimerFace::Digits
    }
}

#[derive(Clone, Debug, PartialEq, Eq)]
pub struct Settings {
    pub focus_minutes: u32,
    pub short_break_minutes: u32,
    pub long_break_minutes: u32,
    pub rounds_before_long_break: u32,
    pub auto_start_breaks: bool,
    pub auto_start_focus: bool,
    pub notifications: bool,
    pub sound: bool,
    pub theme: ThemePreference,
    pub timer_face: TimerFace,
    pub notification_filter: NotificationFilter,
    /// Turn the desktop's notification banners off for each focus interval.
    pub silence_banners_during_focus: bool,
}

#[verifier::ext_equal]
pub struct SettingsView {
    pub focus_minutes: u32,
    pub short_break_minutes: u32,
    pub long_break_minutes: u32,
    pub rounds_before_long_break: u32,
    pub auto_start_breaks: bool,
    pub auto_start_focus: bool,
    pub notifications: bool,
    pub sound: bool,
    pub theme: ThemePreference,
    pub timer_face: TimerFace,
    pub notification_filter: FilterView,
    pub silence_banners_during_focus: bool,
}

impl View for Settings {
    type V = SettingsView;

    open spec fn view(&self) -> SettingsView {
        SettingsView {
            focus_minutes: self.focus_minutes,
            short_break_minutes: self.short_break_minutes,
            long_break_minutes: self.long_break_minutes,
            rounds_before_long_break: self.rounds_before_long_break,
            auto_start_breaks: self.auto_start_breaks,
            auto_start_focus: self.auto_start_focus,
            notifications: self.notifications,
            sound: self.sound,
            theme: self.theme,
            timer_face: self.timer_face,
            notification_filter: self.notification_filter@,
            silence_banners_during_focus: self.silence_banners_during_focus,
        }
    }
}

/// `x` brought into `lo..=hi`.
pub open spec fn clamped(x: u32, lo: u32, hi: u32) -> u32 {
    if x < lo {
        lo
    } else if x > hi {
        hi
    } else {
        x
    }
}

fn clamp_u32(x: u32, lo: u32, hi: u32) -> (r: u32)
    ensures
        r == clamped(x, lo, hi),
{
    if x < lo {
        lo
    } else if x > hi {
        hi
    } else {
        x
    }
}

impl SettingsView {
    /// The product defaults: 25/5/15 minutes, a long break after four rounds.
    pub open spec fn initial() -> SettingsView {
        SettingsView {
            focus_minutes: 25,
            short_break_minutes: 5,
            long_break_minutes: 15,
            rounds_before_long_break: 4,
            auto_start_breaks: true,
            auto_start_focus: false,
            notifications: true,
            sound: true,
            theme: ThemePreference::System,
            timer_face: TimerFace::Digits,
            notification_filter: FilterView::initial(),
            silence_banners_during_focus: false,
        }
    }

    /// Every bound enforced: lengths in 1..=1440 minutes, rounds in 1..=24.
    pub open spec fn sanitized(self) -> SettingsView {
        SettingsView {
            focus_minutes: clamped(self.focus_minutes, MIN_MINUTES, MAX_MINUTES),
            short_break_minutes: clamped(self.short_break_minutes, MIN_MINUTES, MAX_MINUTES),
            long_break_minutes: clamped(self.long_break_minutes, MIN_MINUTES, MAX_MINUTES),
            rounds_before_long_break: clamped(self.rounds_before_long_break, MIN_ROUNDS, MAX_ROUNDS),
            notification_filter: self.notification_filter.sanitized(),
            ..self
        }
    }

    /// The length of `phase` in seconds.
    pub open spec fn duration_seconds(self, phase: Phase) -> u32 {
        let minutes = match phase {
            Phase::Focus => self.focus_minutes,
            Phase::ShortBreak => self.short_break_minutes,
            Phase::LongBreak => self.long_break_minutes,
        };
        (clamped(minutes, MIN_MINUTES, MAX_MINUTES) * 60) as u32
    }
}

impl Default for Settings {
    fn default() -> (r: Self)
        ensures
            r@ == SettingsView::initial(),
    {
        Settings {
            focus_minutes: 25,
            short_break_minutes: 5,
            long_break_minutes: 15,
            rounds_before_long_break: 4,
            auto_start_breaks: true,
            auto_start_focus: false,
            notifications: true,
            sound: true,
            theme: ThemePreference::System,
            timer_face: TimerFace::Digits,
            notification_filter: NotificationFilter::default(),
            silence_banners_during_focus: false,
        }
    }
}

impl Settings {
    /// The settings with every value brought inside its supported range.
    pub fn sanitized(self) -> (r: Self)
        ensures
            r@ == self@.sanitized(),
    {
        let Settings {
            focus_minutes,
            short_break_minutes,
            long_break_minutes,
            rounds_before_long_break,
            auto_start_breaks,
            auto_start_focus,
            notifications,
            sound,
            theme,
            timer_face,
            notification_filter,
            silence_banners_during_focus,
        } = self;
        Settings {
            focus_minutes: clamp_u32(focus_minutes, MIN_MINUTES, MAX_MINUTES),
            short_break_minutes: clamp_u32(short_break_minutes, MIN_MINUTES, MAX_MINUTES),
            long_break_minutes: clamp_u32(long_break_minutes, MIN_MINUTES, MAX_MINUTES),
            rounds_before_long_break: clamp_u32(rounds_before_long_break, MIN_ROUNDS, MAX_ROUNDS),
            auto_start_breaks,
            auto_start_focus,
            notifications,
            sound,
            theme,
            timer_face,
            notification_filter: notification_filter.sanitized(),
            silence_banners_during_focus,
        }
    }

    /// The configured length of `phase`, in seconds.
    pub fn duration_seconds(&self, phase: Phase) -> (r: u32)
        ensures
            r == self@.duration_seconds(phase),
            60 <= r <= 86_400,
    {
        let minutes = match phase {
            Phase::Focus => self.focus_minutes,
            Phase::ShortBreak => self.short_break_minutes,
            Phase::LongBreak => self.long_break_minutes,
        };
        clamp_u32(minutes, MIN_MINUTES, MAX_MINUTES) * 60
    }
}

impl AppView {
    /// New settings take effect at once only on an idle timer; a running or
    /// paused interval keeps the length it began with.
    pub open spec fn update_settings(self, settings: SettingsView) -> AppView {
        let settings = settings.sanitized();
        if self.timer.status == TimerStatus::Idle {
            let d = settings.duration_seconds(self.timer.phase);
            AppView {
                settings,
                timer: super::timer::TimerView {
                    duration_seconds: d,
                    remaining_seconds: d,
                    started_at: None,
                    ends_at: None,
                    ..self.timer
                },
                ..self
            }
        } else {
            AppView { settings, ..self }
        }
    }
}

impl AppData {
    /// Applies new settings; see [`AppView::update_settings`].
    pub fn update_settings(&mut self, settings: Settings)
        ensures
            final(self)@ == old(self)@.update_settings(settings@),
    {
        self.settings = settings.sanitized();
        if self.timer.status == TimerStatus::Idle {
            let duration_seconds = self.settings.duration_seconds(self.timer.phase);
            self.timer.duration_seconds = duration_seconds;
            self.timer.remaining_seconds = duration_seconds;
            self.timer.started_at = None;
            self.timer.ends_at = None;
        }
        assert(self@ =~= old(self)@.update_settings(settings@));
    }
}

} // verus!
