//! Pomodoro: the verified core of a local-first focus timer.

pub mod alerts;
pub mod commands;
pub mod domain;
pub mod ids;
pub mod laws;
pub mod notifications;
pub mod paths;
pub mod quiet;
pub mod runtime;
pub mod schema;
pub mod sound;
pub mod storage;
pub mod system;
pub mod text;
pub mod transfer;
pub mod tray;
