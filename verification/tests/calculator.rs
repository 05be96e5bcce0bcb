use chrono::{Datelike, NaiveDate, Timelike};
use resonatify::models::{RepeatType, Schedule, Weekday};
use resonatify::time::parse_time;
use resonatify::time_calculator::next_execution_time;
use resonatify::errors::SchedulerError;

fn schedule_with_repeat(repeat: RepeatType, time: &str) -> Schedule {
    Schedule {
        id: "test".to_string(),
        name: "Test".to_string(),
        audio_file_path: "/tmp/test.mp3".to_string(),
        scheduled_time: time.to_string(),
        enabled: true,
        repeat_type: repeat,
        volume: 80,
        created_at: String::new(),
        updated_at: String::new(),
        last_run_at: None,
    }
}

/// Seconds on the local civil timeline of a chrono local instant.
fn civil_seconds(dt: chrono::DateTime<chrono::Local>) -> i64 {
    dt.naive_local().and_utc().timestamp()
}

#[test]
fn next_execution_daily_same_minute_returns_reference() {
    let reference = chrono::Local::now();
    let schedule_time = reference.format("%H:%M").to_string();
    let schedule = schedule_with_repeat(RepeatType::Daily, &schedule_time);
    let reference_secs = civil_seconds(reference);

    let next = next_execution_time(&schedule, reference_secs, None)
        .unwrap()
        .unwrap();

    let diff = next - reference_secs;
    assert!(diff >= 0);
    assert!(diff <= 60);
}

#[test]
fn next_execution_weekday_skips_to_monday() {
    // Saturday
    let reference = chrono::DateTime::<chrono::FixedOffset>::parse_from_rfc3339(
        "2025-11-15T10:00:00+00:00",
    )
    .unwrap()
    .with_timezone(&chrono::Local);
    let schedule = schedule_with_repeat(RepeatType::Weekdays, "09:30");

    let next = next_execution_time(&schedule, civil_seconds(reference), None)
        .unwrap()
        .unwrap();

    let next_civil = chrono::DateTime::from_timestamp(next, 0).unwrap();
    assert_eq!(next_civil.weekday(), chrono::Weekday::Mon);
}

#[test]
fn next_execution_custom_interval_moves_forward() {
    let reference = chrono::DateTime::<chrono::FixedOffset>::parse_from_rfc3339(
        "2025-11-13T10:45:00+00:00",
    )
    .unwrap()
    .with_timezone(&chrono::Local);
    let schedule = schedule_with_repeat(
        RepeatType::Custom {
            interval_minutes: 45,
        },
        "08:00",
    );
    let reference_secs = civil_seconds(reference);

    let next = next_execution_time(&schedule, reference_secs, None)
        .unwrap()
        .unwrap();

    assert!(next > reference_secs);
}

#[test]
fn disabled_schedule_never_fires() {
    let mut schedule = schedule_with_repeat(RepeatType::Daily, "09:00");
    schedule.enabled = false;
    let next = next_execution_time(&schedule, 1_700_000_000, None).unwrap();
    assert_eq!(next, None);
}

#[test]
fn weekly_with_no_days_never_fires() {
    let schedule = schedule_with_repeat(RepeatType::Weekly { days: Vec::new() }, "09:00");
    let next = next_execution_time(&schedule, 1_700_000_000, None).unwrap();
    assert_eq!(next, None);
}

#[test]
fn custom_zero_interval_is_rejected() {
    let schedule = schedule_with_repeat(
        RepeatType::Custom {
            interval_minutes: 0,
        },
        "09:00",
    );
    let err = next_execution_time(&schedule, 1_700_000_000, None).unwrap_err();
    match err {
        SchedulerError::InvalidScheduleTime { schedule_id, .. } => {
            assert_eq!(schedule_id, "test");
        }
        other => panic!("unexpected error: {other:?}"),
    }
}

#[test]
fn unparseable_time_is_rejected() {
    let schedule = schedule_with_repeat(RepeatType::Daily, "25:99");
    let err = next_execution_time(&schedule, 1_700_000_000, None).unwrap_err();
    match err {
        SchedulerError::InvalidScheduleTime { schedule_id, .. } => {
            assert_eq!(schedule_id, "test");
        }
        other => panic!("unexpected error: {other:?}"),
    }
}

#[test]
fn daily_grace_fires_immediately() {
    // Reference thirty seconds past the scheduled minute, no prior run.
    let reference = NaiveDate::from_ymd_opt(2025, 11, 13)
        .unwrap()
        .and_hms_opt(8, 0, 30)
        .unwrap()
        .and_utc()
        .timestamp();
    let schedule = schedule_with_repeat(RepeatType::Daily, "08:00");

    let next = next_execution_time(&schedule, reference, None)
        .unwrap()
        .unwrap();

    assert_eq!(next, reference);
    assert!((next - reference).abs() <= 60);
}

#[test]
fn daily_grace_respects_recent_run() {
    // The schedule already ran twenty seconds ago: the missed slot is not
    // made up; the next fire is tomorrow's slot.
    let reference = NaiveDate::from_ymd_opt(2025, 11, 13)
        .unwrap()
        .and_hms_opt(8, 0, 30)
        .unwrap()
        .and_utc()
        .timestamp();
    let schedule = schedule_with_repeat(RepeatType::Daily, "08:00");

    let next = next_execution_time(&schedule, reference, Some(reference - 20))
        .unwrap()
        .unwrap();

    let tomorrow_slot = NaiveDate::from_ymd_opt(2025, 11, 14)
        .unwrap()
        .and_hms_opt(8, 0, 0)
        .unwrap()
        .and_utc()
        .timestamp();
    assert_eq!(next, tomorrow_slot);
}

#[test]
fn weekends_fire_on_saturday() {
    // Thursday reference; the next weekend slot is Saturday's.
    let reference = NaiveDate::from_ymd_opt(2025, 11, 13)
        .unwrap()
        .and_hms_opt(10, 0, 0)
        .unwrap()
        .and_utc()
        .timestamp();
    let schedule = schedule_with_repeat(RepeatType::Weekends, "09:30");

    let next = next_execution_time(&schedule, reference, None)
        .unwrap()
        .unwrap();

    let saturday_slot = NaiveDate::from_ymd_opt(2025, 11, 15)
        .unwrap()
        .and_hms_opt(9, 30, 0)
        .unwrap()
        .and_utc()
        .timestamp();
    assert_eq!(next, saturday_slot);
}

#[test]
fn weekly_picks_the_listed_day() {
    // Thursday reference; the rule lists only Sunday.
    let reference = NaiveDate::from_ymd_opt(2025, 11, 13)
        .unwrap()
        .and_hms_opt(10, 0, 0)
        .unwrap()
        .and_utc()
        .timestamp();
    let schedule = schedule_with_repeat(
        RepeatType::Weekly {
            days: vec![Weekday::Sun],
        },
        "07:15",
    );

    let next = next_execution_time(&schedule, reference, None)
        .unwrap()
        .unwrap();

    let sunday_slot = NaiveDate::from_ymd_opt(2025, 11, 16)
        .unwrap()
        .and_hms_opt(7, 15, 0)
        .unwrap()
        .and_utc()
        .timestamp();
    assert_eq!(next, sunday_slot);
}

#[test]
fn custom_interval_lands_on_the_grid() {
    // Anchor 08:00, interval 45 minutes, reference 10:45: the anchor
    // advances by the smallest number of whole intervals that lands
    // strictly after the reference.
    let reference = NaiveDate::from_ymd_opt(2025, 11, 13)
        .unwrap()
        .and_hms_opt(10, 45, 0)
        .unwrap()
        .and_utc()
        .timestamp();
    let schedule = schedule_with_repeat(
        RepeatType::Custom {
            interval_minutes: 45,
        },
        "08:00",
    );

    // No grace: the schedule ran recently.
    let next = next_execution_time(&schedule, reference, Some(reference - 10))
        .unwrap()
        .unwrap();
    assert!(next > reference);
    let anchor = NaiveDate::from_ymd_opt(2025, 11, 13)
        .unwrap()
        .and_hms_opt(8, 0, 0)
        .unwrap()
        .and_utc()
        .timestamp();
    assert_eq!((next - anchor) % (45 * 60), 0);
    let expected = NaiveDate::from_ymd_opt(2025, 11, 13)
        .unwrap()
        .and_hms_opt(11, 0, 0)
        .unwrap()
        .and_utc()
        .timestamp();
    assert_eq!(next, expected);
}

#[test]
fn clock_time_bounds_parse() {
    assert_eq!(parse_time("00:00"), Some((0, 0)));
    assert_eq!(parse_time("23:59"), Some((23, 59)));
    assert_eq!(parse_time("24:00"), None);
    assert_eq!(parse_time("12:60"), None);
    assert_eq!(parse_time("7:30"), None);
    assert_eq!(parse_time("12-30"), None);
    assert_eq!(parse_time(""), None);
    assert_eq!(parse_time("ab:cd"), None);
}
