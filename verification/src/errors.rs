//! Error types of the library.
//!
//! Environment details that reach the library from outside (I/O failures,
//! codec complaints, database trouble) are carried as plain message strings.

use vstd::prelude::*;

verus! {

/// Why an audio file fails validation.
#[derive(Clone, Debug)]
pub enum AudioValidationError {
    /// The path did not resolve to an existing file.
    NotFound(String),
    /// The file is larger than the validator's limit.
    FileTooLarge { path: String, file_bytes: u64, max_bytes: u64 },
    /// The lowercased extension is not in the supported set.
    UnsupportedFormat { extension: String },
    /// The file could not be probed by the decoder.
    Decode(String),
    /// Another I/O failure, with its message.
    Io(String),
}

/// Why playback fails.
#[derive(Clone, Debug)]
pub enum AudioError {
    /// No audio output device is available.
    NoOutputDevice,
    /// The output stream could not be initialised.
    Stream(String),
    /// The playback sink could not be created.
    Sink(String),
    /// The audio stream could not be decoded.
    Decoder(String),
    /// Reading the audio file failed.
    Io(String),
    /// The audio worker is not running or its queue is closed.
    EngineUnavailable,
    /// The file failed validation before playback.
    Validation(AudioValidationError),
}

/// Why a scheduler operation fails.
#[derive(Clone, Debug)]
pub enum SchedulerError {
    /// `start` was called while the engine was already running.
    AlreadyRunning,
    /// `stop` was called while the engine was not running.
    NotRunning,
    /// The persistence collaborator failed, with its message.
    Database(String),
    /// The audio service failed.
    Audio(AudioError),
    /// The schedule's configuration cannot produce a fire time.
    InvalidScheduleTime { schedule_id: String, reason: String },
    /// A schedule task could not be joined.
    TaskJoin(String),
    /// An internal failure, with its message.
    Internal(String),
}

/// Why a persisted row cannot be turned into a model value.
#[derive(Clone, Debug)]
pub enum ModelConversionError {
    /// The history row's status column holds an unknown word.
    UnknownPlaybackStatus(String),
    /// The schedule row's recurrence column does not decode.
    InvalidRepeatType(String),
    /// The schedule row's volume column is outside 0..=100.
    InvalidVolume(i64),
}

} // verus!
