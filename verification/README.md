# Pomodoro

A local-first focus timer for the Ubuntu desktop: focus intervals and breaks,
a task list, an interruption inbox, optional capture of other applications'
desktop notifications, and the desktop's own sounds and banners when an
interval ends.

The state and its rules are a library verified with Verus (`src/`); the
desktop application around it (`app/`) holds the window, the tray, the disk,
the session bus, the sound players and the threads.

## Layout

- `src/domain*` — the state (`AppData`) and every operation on it: the timer
  (start, pause, tick, skip, reset, quit, launch recovery), tasks,
  interruptions, settings, and captured notifications with their filter,
  updates in place and retention. Each operation is specified over a view
  (`AppView`) and proved against it.
- `src/commands.rs` — what each user command checks, refuses with, and
  changes.
- `src/laws.rs` — properties spanning operations: ticking is idempotent,
  skipping never credits a task, a quit is never completed later, retention
  limits hold, muting wins over priority, conversions never duplicate tasks,
  deletions leave nothing pointing at what was deleted.
- `src/notifications.rs` — the identity of a notification for spotting its
  relayed second copy, the deduplication window, urgency hints.
- `src/runtime.rs` — how long the background thread sleeps, when a pending
  write is due, what a failed save leaves behind, what to do with the
  desktop's banner setting.
- `src/schema.rs`, `src/storage.rs`, `src/transfer.rs` — reading and
  importing stored data, the store's write plan and recovery points, CSV and
  full exports.
- `src/sound.rs`, `src/sound/theme.rs` — which player is asked for which
  sound in which order, the sound theme's inheritance chain and file search,
  and the one-at-a-time sound slot.
- `src/quiet.rs`, `src/system.rs`, `src/tray.rs`, `src/alerts.rs`,
  `src/paths.rs`, `src/text.rs`, `src/ids.rs` — the rest of the desktop's
  decisions, and the text, path and id helpers they rest on.
- `app/` — the Tauri application.
- `tests/` — tests of the library.

## Trusted items

Verus takes these on trust; each states only what its source or
documentation shows.

- `text::to_lowercase` — `str::to_lowercase`.
- `schema::parse_json_shape` — `serde_json::from_slice` into a
  `serde_json::Value`, then the value's variant, `Value::get` and
  `Value::as_u64`, naming the shape they read (`json_shape`).
- `transfer::utc_rfc3339` — `chrono::DateTime::from_timestamp_millis` and
  `to_rfc3339`.
