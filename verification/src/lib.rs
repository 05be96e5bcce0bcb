//! A verified core for a scheduled audio-playback service.
//!
//! Users define named schedules binding an audio file to a daily clock time
//! and a recurrence rule.  This crate holds the logic of that service: the
//! recurrence-time calculator, the audio-file validation rules, the playback
//! and scheduler state machines, the settings and history models, and the
//! codec for the persisted recurrence column.  Device I/O, the database and
//! the UI live outside the library and consume these functions through plain
//! values.

pub mod engine;
pub mod errors;
pub mod history;
pub mod models;
pub mod playback;
pub mod repeat_codec;
pub mod settings;
pub mod text;
pub mod time;
pub mod time_calculator;
pub mod validator;
