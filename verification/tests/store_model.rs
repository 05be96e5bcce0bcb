use resonatify::errors::ModelConversionError;
use resonatify::history::HistoryLog;
use resonatify::models::{
    apply_update, schedule_from_input, CreateScheduleInput, PlaybackHistory,
    PlaybackHistoryRow, PlaybackStatus, RepeatType, Schedule, ScheduleRow, Setting, SettingRow,
    UpdateScheduleInput,
};
use resonatify::repeat_codec::encode_repeat_type;
use resonatify::settings::{
    parse_u8, settings_upserts, SettingsSnapshot, UpdateSettingsPayload,
};

fn history_entry(id: &str, schedule_id: &str, played_at: &str) -> PlaybackHistory {
    PlaybackHistory {
        id: id.to_string(),
        schedule_id: schedule_id.to_string(),
        played_at: played_at.to_string(),
        status: PlaybackStatus::Success,
        error_message: None,
    }
}

#[test]
fn history_listing_is_newest_first() {
    let mut log = HistoryLog::new();
    log.record(history_entry("1", "s", "2025-11-13T08:00:00"), 100);
    log.record(history_entry("2", "s", "2025-11-13T09:00:00"), 200);
    log.record(history_entry("3", "s", "2025-11-13T10:00:00"), 300);

    let recent = log.list_recent(10);
    assert_eq!(recent.len(), 3);
    assert_eq!(recent[0].1.id, "3");
    assert_eq!(recent[2].1.id, "1");
    // Timestamps never increase along the listing.
    assert!(recent[0].0 >= recent[1].0);
    assert!(recent[1].0 >= recent[2].0);

    let top = log.list_recent(2);
    assert_eq!(top.len(), 2);
    assert_eq!(top[0].1.id, "3");
}

#[test]
fn history_deletion_cascades_from_the_schedule() {
    let mut log = HistoryLog::new();
    log.record(history_entry("1", "a", "2025-11-13T08:00:00"), 100);
    log.record(history_entry("2", "b", "2025-11-13T09:00:00"), 200);
    log.record(history_entry("3", "a", "2025-11-13T10:00:00"), 300);

    log.delete_for_schedule("a");
    assert_eq!(log.len(), 1);
    let recent = log.list_recent(10);
    assert_eq!(recent[0].1.id, "2");
}

#[test]
fn schedule_row_round_trip() {
    let rt = RepeatType::Weekly {
        days: vec![resonatify::models::Weekday::Wed],
    };
    let row = ScheduleRow {
        id: "id-1".to_string(),
        name: "Morning Meditation".to_string(),
        audio_file_path: "/Users/example/meditation.mp3".to_string(),
        scheduled_time: "07:00".to_string(),
        enabled: 1,
        repeat_type: encode_repeat_type(&rt),
        repeat_days: None,
        volume: 80,
        created_at: "2025-11-13T07:00:00".to_string(),
        updated_at: "2025-11-13T07:00:00".to_string(),
        last_run_at: None,
    };
    let s = Schedule::from_row(row).unwrap();
    assert_eq!(s.name, "Morning Meditation");
    assert_eq!(s.scheduled_time, "07:00");
    assert!(s.enabled);
    assert_eq!(s.volume, 80);
    assert_eq!(s.repeat_type, rt);
}

#[test]
fn schedule_row_rejects_bad_columns() {
    let row = ScheduleRow {
        id: "id-1".to_string(),
        name: "X".to_string(),
        audio_file_path: "/tmp/x.mp3".to_string(),
        scheduled_time: "07:00".to_string(),
        enabled: 0,
        repeat_type: "not json".to_string(),
        repeat_days: None,
        volume: 80,
        created_at: String::new(),
        updated_at: String::new(),
        last_run_at: None,
    };
    match Schedule::from_row(row) {
        Err(ModelConversionError::InvalidRepeatType(text)) => {
            assert_eq!(text, "not json");
        }
        other => panic!("unexpected result: {other:?}"),
    }

    let row = ScheduleRow {
        id: "id-1".to_string(),
        name: "X".to_string(),
        audio_file_path: "/tmp/x.mp3".to_string(),
        scheduled_time: "07:00".to_string(),
        enabled: 1,
        repeat_type: encode_repeat_type(&RepeatType::Daily),
        repeat_days: None,
        volume: 200,
        created_at: String::new(),
        updated_at: String::new(),
        last_run_at: None,
    };
    match Schedule::from_row(row) {
        Err(ModelConversionError::InvalidVolume(v)) => {
            assert_eq!(v, 200);
        }
        other => panic!("unexpected result: {other:?}"),
    }
}

#[test]
fn playback_history_row_decodes_each_status() {
    let row = |status: &str| PlaybackHistoryRow {
        id: "h".to_string(),
        schedule_id: "s".to_string(),
        played_at: "2025-11-13T08:00:00".to_string(),
        status: status.to_string(),
        error_message: None,
    };
    assert_eq!(
        PlaybackHistory::from_row(row("success")).unwrap().status,
        PlaybackStatus::Success
    );
    assert_eq!(
        PlaybackHistory::from_row(row("failed")).unwrap().status,
        PlaybackStatus::Failed
    );
    assert_eq!(
        PlaybackHistory::from_row(row("skipped")).unwrap().status,
        PlaybackStatus::Skipped
    );
    match PlaybackHistory::from_row(row("bogus")) {
        Err(ModelConversionError::UnknownPlaybackStatus(word)) => {
            assert_eq!(word, "bogus");
        }
        other => panic!("unexpected result: {other:?}"),
    }
}

#[test]
fn creating_a_schedule_stamps_both_timestamps() {
    let input = CreateScheduleInput {
        name: "Focus".to_string(),
        audio_file_path: "/tmp/focus.mp3".to_string(),
        scheduled_time: "09:00".to_string(),
        enabled: true,
        repeat_type: RepeatType::Once,
        volume: 100,
        last_run_at: None,
    };
    let s = schedule_from_input(input, "id-9".to_string(), "2025-11-13T08:00:00".to_string());
    assert_eq!(s.id, "id-9");
    assert_eq!(s.name, "Focus");
    assert_eq!(s.created_at, "2025-11-13T08:00:00");
    assert_eq!(s.updated_at, "2025-11-13T08:00:00");
    assert_eq!(s.last_run_at, None);
}

#[test]
fn updating_merges_only_supplied_fields() {
    let base = schedule_from_input(
        CreateScheduleInput {
            name: "Focus".to_string(),
            audio_file_path: "/tmp/focus.mp3".to_string(),
            scheduled_time: "09:00".to_string(),
            enabled: true,
            repeat_type: RepeatType::Daily,
            volume: 100,
            last_run_at: None,
        },
        "id-9".to_string(),
        "t0".to_string(),
    );
    let update = UpdateScheduleInput {
        name: None,
        audio_file_path: None,
        scheduled_time: Some("10:30".to_string()),
        enabled: Some(false),
        repeat_type: None,
        volume: None,
        last_run_at: None,
    };
    let merged = apply_update(&base, update, "t1".to_string());
    assert_eq!(merged.name, "Focus");
    assert_eq!(merged.scheduled_time, "10:30");
    assert!(!merged.enabled);
    assert_eq!(merged.volume, 100);
    assert_eq!(merged.created_at, "t0");
    assert_eq!(merged.updated_at, "t1");
}

#[test]
fn settings_fold_from_records() {
    let pair = |key: &str, value: &str| Setting {
        key: key.to_string(),
        value: value.to_string(),
        updated_at: String::new(),
    };
    let snap = SettingsSnapshot::from_records(vec![
        pair("theme", "dark"),
        pair("launch_at_login", "true"),
        pair("default_volume", "150"),
        pair("announcement_enabled", "true"),
        pair("mystery_key", "whatever"),
    ]);
    assert_eq!(snap.theme, "dark");
    assert!(snap.launch_at_login);
    assert!(snap.minimize_to_tray);
    assert_eq!(snap.default_volume, 100);
    assert!(snap.announcement_enabled);
    assert_eq!(snap.announcement_sound, "spell");

    let defaults = SettingsSnapshot::from_records(Vec::new());
    assert_eq!(defaults.theme, "system");
    assert_eq!(defaults.default_volume, 80);
    assert!(!defaults.announcement_enabled);
}

#[test]
fn settings_from_row_and_parse() {
    let setting = Setting::from_row(SettingRow {
        key: "theme".to_string(),
        value: "dark".to_string(),
        updated_at: "now".to_string(),
    });
    assert_eq!(setting.key, "theme");
    assert_eq!(setting.value, "dark");

    assert_eq!(parse_u8("80"), Some(80));
    assert_eq!(parse_u8("+80"), Some(80));
    assert_eq!(parse_u8("0080"), Some(80));
    assert_eq!(parse_u8("255"), Some(255));
    assert_eq!(parse_u8("256"), None);
    assert_eq!(parse_u8(""), None);
    assert_eq!(parse_u8("-1"), None);
    assert_eq!(parse_u8("8a"), None);
}

#[test]
fn settings_update_writes_each_supplied_pair() {
    let payload = UpdateSettingsPayload {
        theme: Some("dark".to_string()),
        launch_at_login: Some(true),
        minimize_to_tray: None,
        show_notifications: Some(false),
        notification_sound: None,
        default_volume: Some(150),
    };
    let pairs = settings_upserts(payload);
    assert_eq!(pairs.len(), 4);
    assert_eq!(pairs[0].0, "theme");
    assert_eq!(pairs[0].1, "dark");
    assert_eq!(pairs[1].0, "launch_at_login");
    assert_eq!(pairs[1].1, "true");
    assert_eq!(pairs[2].0, "show_notifications");
    assert_eq!(pairs[2].1, "false");
    assert_eq!(pairs[3].0, "default_volume");
    assert_eq!(pairs[3].1, "100");

    let volume_only = settings_upserts(UpdateSettingsPayload {
        theme: None,
        launch_at_login: None,
        minimize_to_tray: None,
        show_notifications: None,
        notification_sound: None,
        default_volume: Some(150),
    });
    assert_eq!(volume_only.len(), 1);
    assert_eq!(volume_only[0].0, "default_volume");
    assert_eq!(volume_only[0].1, "100");
}
