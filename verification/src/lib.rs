//! Terminal countdown widget: a Pomodoro work/break state machine together
//! with a set of named countdowns to fixed target timestamps.
//!
//! The library holds everything that decides or computes: the Pomodoro
//! engine, parsing of `YYYY-MM-DD HH:MM:SS` timestamps, per-tick countdown
//! scheduling and message formatting, command parsing, the diff-aware
//! repaint bookkeeping, and the configuration store. The surrounding
//! process (terminal I/O, the async loops, file reading, notifications)
//! drives these functions with plain values.

pub mod command;
pub mod config_store;
pub mod datetime;
pub mod format;
pub mod schedule;
pub mod pomodoro;
pub mod render;
pub mod textfmt;
pub mod tick;
