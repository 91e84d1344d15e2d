//! Habit Stack: the verified core of a local, privacy-first habit tracker.
//!
//! - `date`: calendar days as day numbers, with the calendar arithmetic of `chrono`.
//! - `id`: 128-bit habit and entry identifiers and their textual form, from `uuid`.
//! - `model`: habits, daily entries and their statuses.
//! - `storage`: how habits and entries are written to and read back from database rows.
//! - `view_model`: the application state and the week-by-week calendar graph.
pub mod date;
pub mod id;
pub mod model;
pub mod storage;
pub mod view_model;
