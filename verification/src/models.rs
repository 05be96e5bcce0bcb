//! The persisted data model: schedules, recurrence rules, settings and
//! playback history, together with the pure conversions between the raw
//! database rows and the model values.

use vstd::prelude::*;
use crate::errors::ModelConversionError;
use crate::text::str_eq;

verus! {

/// A day of the week.
#[derive(Clone, Copy, Debug, PartialEq, Eq, Structural)]
pub enum Weekday {
    Mon,
    Tue,
    Wed,
    Thu,
    Fri,
    Sat,
    Sun,
}

impl Weekday {
    /// Day-of-week index counted from Monday = 0, matching the civil-day
    /// weekday index of the time model.
    pub open spec fn index_from_monday(self) -> int {
        match self {
            Weekday::Mon => 0,
            Weekday::Tue => 1,
            Weekday::Wed => 2,
            Weekday::Thu => 3,
            Weekday::Fri => 4,
            Weekday::Sat => 5,
            Weekday::Sun => 6,
        }
    }

    /// Day-of-week index counted from Sunday = 0, the encoding the
    /// `repeat_days` database column uses.
    pub open spec fn index_from_sunday(self) -> int {
        match self {
            Weekday::Sun => 0,
            Weekday::Mon => 1,
            Weekday::Tue => 2,
            Weekday::Wed => 3,
            Weekday::Thu => 4,
            Weekday::Fri => 5,
            Weekday::Sat => 6,
        }
    }

    /// Computes the index counted from Monday = 0.
    pub fn num_days_from_monday(&self) -> (n: u8)
        ensures
            n == self.index_from_monday(),
    {
        match self {
            Weekday::Mon => 0,
            Weekday::Tue => 1,
            Weekday::Wed => 2,
            Weekday::Thu => 3,
            Weekday::Fri => 4,
            Weekday::Sat => 5,
            Weekday::Sun => 6,
        }
    }

    /// Computes the index counted from Sunday = 0.
    pub fn num_days_from_sunday(&self) -> (n: u8)
        ensures
            n == self.index_from_sunday(),
    {
        match self {
            Weekday::Sun => 0,
            Weekday::Mon => 1,
            Weekday::Tue => 2,
            Weekday::Wed => 3,
            Weekday::Thu => 4,
            Weekday::Fri => 5,
            Weekday::Sat => 6,
        }
    }
}

/// The mathematical value of a recurrence rule: as [`RepeatType`], with the
/// weekly day list abstracted to a sequence.
#[verifier::ext_equal]
pub enum RepeatRule {
    Once,
    Daily,
    Weekly { days: Seq<Weekday> },
    Weekdays,
    Weekends,
    Custom { interval_minutes: u32 },
}

/// When a schedule recurs.
#[derive(Debug, PartialEq)]
pub enum RepeatType {
    /// Fires once and self-disables.
    Once,
    /// Fires every day at the scheduled time.
    Daily,
    /// Fires on the listed weekdays; an empty list never fires.
    Weekly { days: Vec<Weekday> },
    /// Fires Monday through Friday.
    Weekdays,
    /// Fires Saturday and Sunday.
    Weekends,
    /// Fires every `interval_minutes` minutes, anchored at the scheduled
    /// time; zero is invalid.
    Custom { interval_minutes: u32 },
}

impl View for RepeatType {
    type V = RepeatRule;

    open spec fn view(&self) -> RepeatRule {
        match self {
            RepeatType::Once => RepeatRule::Once,
            RepeatType::Daily => RepeatRule::Daily,
            RepeatType::Weekly { days } => RepeatRule::Weekly { days: days@ },
            RepeatType::Weekdays => RepeatRule::Weekdays,
            RepeatType::Weekends => RepeatRule::Weekends,
            RepeatType::Custom { interval_minutes } => RepeatRule::Custom {
                interval_minutes: *interval_minutes,
            },
        }
    }
}

impl Clone for RepeatType {
    /// A clone denotes the same recurrence rule.
    fn clone(&self) -> (r: Self)
        ensures
            r@ == self@,
    {
        match self {
            RepeatType::Once => RepeatType::Once,
            RepeatType::Daily => RepeatType::Daily,
            RepeatType::Weekly { days } => {
                let copied = days.clone();
                proof {
                    assert(copied@ =~= days@);
                }
                RepeatType::Weekly { days: copied }
            },
            RepeatType::Weekdays => RepeatType::Weekdays,
            RepeatType::Weekends => RepeatType::Weekends,
            RepeatType::Custom { interval_minutes } => RepeatType::Custom {
                interval_minutes: *interval_minutes,
            },
        }
    }
}

impl RepeatType {
    /// The weekly day set as day numbers counted from Sunday, for the
    /// `repeat_days` column; nothing for the other recurrence kinds.
    pub fn repeat_days(&self) -> (r: Option<Vec<u8>>)
        ensures
            match self {
                RepeatType::Weekly { days } => {
                    &&& r matches Some(v)
                    &&& v@ == days@.map_values(|d: Weekday| d.index_from_sunday() as u8)
                },
                _ => r is None,
            },
    {
        match self {
            RepeatType::Weekly { days } => {
                let mut v: Vec<u8> = Vec::new();
                let mut i: usize = 0;
                while i < days.len()
                    invariant
                        0 <= i <= days@.len(),
                        v@ == days@.subrange(0, i as int).map_values(
                            |d: Weekday| d.index_from_sunday() as u8,
                        ),
                    decreases days@.len() - i,
                {
                    let n = days[i].num_days_from_sunday();
                    v.push(n);
                    proof {
                        assert(days@.subrange(0, i + 1 as int)
                            =~= days@.subrange(0, i as int).push(days@[i as int]));
                        assert(days@.subrange(0, i + 1 as int).map_values(
                            |d: Weekday| d.index_from_sunday() as u8,
                        ) =~= days@.subrange(0, i as int).map_values(
                            |d: Weekday| d.index_from_sunday() as u8,
                        ).push(days@[i as int].index_from_sunday() as u8));
                    }
                    i += 1;
                }
                proof {
                    assert(days@.subrange(0, days@.len() as int) =~= days@);
                }
                Some(v)
            },
            _ => None,
        }
    }
}

/// A persisted schedule definition.
#[derive(Debug)]
pub struct Schedule {
    pub id: String,
    pub name: String,
    pub audio_file_path: String,
    pub scheduled_time: String,
    pub enabled: bool,
    pub repeat_type: RepeatType,
    pub volume: u8,
    pub created_at: String,
    pub updated_at: String,
    pub last_run_at: Option<String>,
}

/// The mathematical value of a schedule: its fields, with the recurrence
/// rule abstracted to [`RepeatRule`].
#[verifier::ext_equal]
pub struct ScheduleView {
    pub id: String,
    pub name: String,
    pub audio_file_path: String,
    pub scheduled_time: String,
    pub enabled: bool,
    pub repeat_type: RepeatRule,
    pub volume: u8,
    pub created_at: String,
    pub updated_at: String,
    pub last_run_at: Option<String>,
}

impl View for Schedule {
    type V = ScheduleView;

    open spec fn view(&self) -> ScheduleView {
        ScheduleView {
            id: self.id,
            name: self.name,
            audio_file_path: self.audio_file_path,
            scheduled_time: self.scheduled_time,
            enabled: self.enabled,
            repeat_type: self.repeat_type@,
            volume: self.volume,
            created_at: self.created_at,
            updated_at: self.updated_at,
            last_run_at: self.last_run_at,
        }
    }
}

impl Clone for Schedule {
    /// A clone denotes the same schedule.
    fn clone(&self) -> (r: Self)
        ensures
            r@ == self@,
    {
        let r = Schedule {
            id: self.id.clone(),
            name: self.name.clone(),
            audio_file_path: self.audio_file_path.clone(),
            scheduled_time: self.scheduled_time.clone(),
            enabled: self.enabled,
            repeat_type: self.repeat_type.clone(),
            volume: self.volume,
            created_at: self.created_at.clone(),
            updated_at: self.updated_at.clone(),
            last_run_at: self.last_run_at.clone(),
        };
        proof {
            assert(r@ =~= self@);
        }
        r
    }
}

/// A schedule as the database hands it out: raw column encodings.
#[derive(Clone, Debug)]
pub struct ScheduleRow {
    pub id: String,
    pub name: String,
    pub audio_file_path: String,
    pub scheduled_time: String,
    pub enabled: i64,
    pub repeat_type: String,
    pub repeat_days: Option<String>,
    pub volume: i64,
    pub created_at: String,
    pub updated_at: String,
    pub last_run_at: Option<String>,
}

/// What a caller supplies to create a schedule.
#[derive(Clone, Debug)]
pub struct CreateScheduleInput {
    pub name: String,
    pub audio_file_path: String,
    pub scheduled_time: String,
    pub enabled: bool,
    pub repeat_type: RepeatType,
    pub volume: u8,
    pub last_run_at: Option<String>,
}

/// A partial schedule update; absent fields keep their current value.
#[derive(Clone, Debug)]
pub struct UpdateScheduleInput {
    pub name: Option<String>,
    pub audio_file_path: Option<String>,
    pub scheduled_time: Option<String>,
    pub enabled: Option<bool>,
    pub repeat_type: Option<RepeatType>,
    pub volume: Option<u8>,
    pub last_run_at: Option<String>,
}

impl Default for UpdateScheduleInput {
    /// An update that changes nothing.
    fn default() -> (d: Self)
        ensures
            d.name is None,
            d.audio_file_path is None,
            d.scheduled_time is None,
            d.enabled is None,
            d.repeat_type is None,
            d.volume is None,
            d.last_run_at is None,
    {
        UpdateScheduleInput {
            name: None,
            audio_file_path: None,
            scheduled_time: None,
            enabled: None,
            repeat_type: None,
            volume: None,
            last_run_at: None,
        }
    }
}

/// Builds the schedule that creating `input` persists: the caller's fields,
/// a fresh identifier, both bookkeeping timestamps set to the creation
/// instant, and no recorded run yet.
pub fn schedule_from_input(input: CreateScheduleInput, id: String, now: String) -> (s: Schedule)
    ensures
        s.id == id,
        s.name == input.name,
        s.audio_file_path == input.audio_file_path,
        s.scheduled_time == input.scheduled_time,
        s.enabled == input.enabled,
        s.repeat_type == input.repeat_type,
        s.volume == input.volume,
        s.created_at == now,
        s.updated_at == now,
        s.last_run_at is None,
{
    Schedule {
        id,
        name: input.name,
        audio_file_path: input.audio_file_path,
        scheduled_time: input.scheduled_time,
        enabled: input.enabled,
        repeat_type: input.repeat_type,
        volume: input.volume,
        created_at: now.clone(),
        updated_at: now,
        last_run_at: None,
    }
}

/// Merges a partial update into a schedule: each supplied field replaces the
/// current one, the update timestamp is refreshed, and identity, creation
/// time and last-run time stay as they were.
pub fn apply_update(current: &Schedule, input: UpdateScheduleInput, updated_at: String) -> (s:
    Schedule)
    ensures
        s.id == current.id,
        s.name == (match input.name {
            Some(n) => n,
            None => current.name,
        }),
        s.audio_file_path == (match input.audio_file_path {
            Some(p) => p,
            None => current.audio_file_path,
        }),
        s.scheduled_time == (match input.scheduled_time {
            Some(t) => t,
            None => current.scheduled_time,
        }),
        s.enabled == (match input.enabled {
            Some(e) => e,
            None => current.enabled,
        }),
        s.repeat_type@ == (match input.repeat_type {
            Some(r) => r@,
            None => current.repeat_type@,
        }),
        s.volume == (match input.volume {
            Some(v) => v,
            None => current.volume,
        }),
        s.created_at == current.created_at,
        s.updated_at == updated_at,
        s.last_run_at == current.last_run_at,
{
    Schedule {
        id: current.id.clone(),
        name: match input.name {
            Some(n) => n,
            None => current.name.clone(),
        },
        audio_file_path: match input.audio_file_path {
            Some(p) => p,
            None => current.audio_file_path.clone(),
        },
        scheduled_time: match input.scheduled_time {
            Some(t) => t,
            None => current.scheduled_time.clone(),
        },
        enabled: match input.enabled {
            Some(e) => e,
            None => current.enabled,
        },
        repeat_type: match input.repeat_type {
            Some(r) => r,
            None => current.repeat_type.clone(),
        },
        volume: match input.volume {
            Some(v) => v,
            None => current.volume,
        },
        created_at: current.created_at.clone(),
        updated_at,
        last_run_at: current.last_run_at.clone(),
    }
}

impl Schedule {
    /// Decodes a schedule row.  The recurrence column must hold the
    /// canonical encoding of a rule and the volume column a value within
    /// 0..=100; the enabled column is nonzero for an enabled schedule.
    pub fn from_row(row: ScheduleRow) -> (r: Result<Schedule, ModelConversionError>)
        ensures
            match r {
                Ok(s) => {
                    &&& row.repeat_type@ == crate::repeat_codec::encode_rule(s.repeat_type@)
                    &&& 0 <= row.volume <= 100
                    &&& s.volume == row.volume
                    &&& s.enabled == (row.enabled != 0)
                    &&& s.id == row.id
                    &&& s.name == row.name
                    &&& s.audio_file_path == row.audio_file_path
                    &&& s.scheduled_time == row.scheduled_time
                    &&& s.created_at == row.created_at
                    &&& s.updated_at == row.updated_at
                    &&& s.last_run_at == row.last_run_at
                },
                Err(e) => match e {
                    ModelConversionError::InvalidRepeatType(m) => {
                        &&& forall|rule: RepeatRule|
                            row.repeat_type@ != crate::repeat_codec::encode_rule(rule)
                        &&& m == row.repeat_type
                    },
                    ModelConversionError::InvalidVolume(v) => {
                        &&& exists|rule: RepeatRule|
                            row.repeat_type@ == crate::repeat_codec::encode_rule(rule)
                        &&& v == row.volume
                        &&& !(0 <= row.volume <= 100)
                    },
                    _ => false,
                },
            },
    {
        let rt = match crate::repeat_codec::decode_repeat_type(row.repeat_type.as_str()) {
            Some(rt) => rt,
            None => {
                return Err(ModelConversionError::InvalidRepeatType(row.repeat_type));
            },
        };
        if row.volume < 0 || row.volume > 100 {
            proof {
                assert(row.repeat_type@ == crate::repeat_codec::encode_rule(rt@));
            }
            return Err(ModelConversionError::InvalidVolume(row.volume));
        }
        Ok(
            Schedule {
                id: row.id,
                name: row.name,
                audio_file_path: row.audio_file_path,
                scheduled_time: row.scheduled_time,
                enabled: row.enabled != 0,
                repeat_type: rt,
                volume: row.volume as u8,
                created_at: row.created_at,
                updated_at: row.updated_at,
                last_run_at: row.last_run_at,
            },
        )
    }
}

/// One key-value pair of the settings store.
#[derive(Clone, Debug)]
pub struct Setting {
    pub key: String,
    pub value: String,
    pub updated_at: String,
}

/// A settings row as the database hands it out.
#[derive(Clone, Debug)]
pub struct SettingRow {
    pub key: String,
    pub value: String,
    pub updated_at: String,
}

impl Setting {
    /// A settings row carries the pair unchanged.
    pub fn from_row(row: SettingRow) -> (s: Setting)
        ensures
            s.key == row.key,
            s.value == row.value,
            s.updated_at == row.updated_at,
    {
        Setting { key: row.key, value: row.value, updated_at: row.updated_at }
    }
}

/// The outcome of one fire.
#[derive(Clone, Copy, Debug, PartialEq, Eq, Structural)]
pub enum PlaybackStatus {
    Success,
    Failed,
    Skipped,
}

/// The word the history table stores for each playback status.
pub open spec fn status_word(status: PlaybackStatus) -> Seq<char> {
    match status {
        PlaybackStatus::Success => "success"@,
        PlaybackStatus::Failed => "failed"@,
        PlaybackStatus::Skipped => "skipped"@,
    }
}

/// The status a stored word denotes, if any.
pub open spec fn status_of_word(s: Seq<char>) -> Option<PlaybackStatus> {
    if s == "success"@ {
        Some(PlaybackStatus::Success)
    } else if s == "failed"@ {
        Some(PlaybackStatus::Failed)
    } else if s == "skipped"@ {
        Some(PlaybackStatus::Skipped)
    } else {
        None
    }
}

/// Encodes a playback status as its stored word.
pub fn playback_status_str(status: PlaybackStatus) -> (r: &'static str)
    ensures
        r@ == status_word(status),
{
    match status {
        PlaybackStatus::Success => "success",
        PlaybackStatus::Failed => "failed",
        PlaybackStatus::Skipped => "skipped",
    }
}

/// One appended playback-history record.
#[derive(Debug)]
pub struct PlaybackHistory {
    pub id: String,
    pub schedule_id: String,
    pub played_at: String,
    pub status: PlaybackStatus,
    pub error_message: Option<String>,
}

impl Clone for PlaybackHistory {
    /// A clone denotes the same record.
    fn clone(&self) -> (r: Self)
        ensures
            r == *self,
    {
        PlaybackHistory {
            id: self.id.clone(),
            schedule_id: self.schedule_id.clone(),
            played_at: self.played_at.clone(),
            status: self.status,
            error_message: self.error_message.clone(),
        }
    }
}

/// A history row as the database hands it out.
#[derive(Clone, Debug)]
pub struct PlaybackHistoryRow {
    pub id: String,
    pub schedule_id: String,
    pub played_at: String,
    pub status: String,
    pub error_message: Option<String>,
}

impl PlaybackHistory {
    /// Decodes a history row; fails exactly when the status column holds
    /// none of the three known words.
    pub fn from_row(row: PlaybackHistoryRow) -> (r: Result<
        PlaybackHistory,
        ModelConversionError,
    >)
        ensures
            match r {
                Ok(h) => {
                    &&& status_of_word(row.status@) == Some(h.status)
                    &&& h.id == row.id
                    &&& h.schedule_id == row.schedule_id
                    &&& h.played_at == row.played_at
                    &&& h.error_message == row.error_message
                },
                Err(e) => {
                    &&& status_of_word(row.status@) is None
                    &&& e == ModelConversionError::UnknownPlaybackStatus(row.status)
                },
            },
    {
        proof {
            reveal_strlit("success");
            reveal_strlit("failed");
            reveal_strlit("skipped");
        }
        let status = if str_eq(row.status.as_str(), "success") {
            PlaybackStatus::Success
        } else if str_eq(row.status.as_str(), "failed") {
            PlaybackStatus::Failed
        } else if str_eq(row.status.as_str(), "skipped") {
            PlaybackStatus::Skipped
        } else {
            return Err(ModelConversionError::UnknownPlaybackStatus(row.status));
        };
        Ok(
            PlaybackHistory {
                id: row.id,
                schedule_id: row.schedule_id,
                played_at: row.played_at,
                status,
                error_message: row.error_message,
            },
        )
    }
}

} // verus!
