use resonatify::engine::{
    announcement_wait_ms, disable_update_input, task_continuation, task_plan,
    task_record_outcome, task_wait_ended, SchedulerEngine, ScheduleRuntimeState, ScheduleStatus,
    TaskContinuation, TaskDecision,
};
use resonatify::errors::SchedulerError;
use resonatify::history::HistoryLog;
use resonatify::models::{apply_update, PlaybackStatus, RepeatType, Schedule};

fn schedule(id: &str, name: &str, path: &str, time: &str, repeat: RepeatType, volume: u8)
    -> Schedule {
    Schedule {
        id: id.to_string(),
        name: name.to_string(),
        audio_file_path: path.to_string(),
        scheduled_time: time.to_string(),
        enabled: true,
        repeat_type: repeat,
        volume,
        created_at: String::new(),
        updated_at: String::new(),
        last_run_at: None,
    }
}

/// 2025-11-13T08:00:30 on the civil timeline.
fn reference_instant() -> i64 {
    chrono::NaiveDate::from_ymd_opt(2025, 11, 13)
        .unwrap()
        .and_hms_opt(8, 0, 30)
        .unwrap()
        .and_utc()
        .timestamp()
}

#[test]
fn scheduler_executes_once_schedule() {
    // A once schedule due now, driven through one task iteration against a
    // mock play: it fires once, appends a success record, and its
    // persisted row is flipped off.
    let now = reference_instant();
    let sched = schedule("s-1", "Test", "/tmp/test.mp3", "08:00", RepeatType::Once, 70);

    let mut engine = SchedulerEngine::new();
    engine.start(vec![sched.clone()]).unwrap();
    assert!(engine.status().is_running);

    let mut state = ScheduleRuntimeState::new();
    let mut history = HistoryLog::new();
    let mut play_count = 0usize;

    // Step: plan the iteration.  The slot was missed within the grace
    // period, so the task fires immediately.
    let decision = task_plan(&sched, &mut state, false, now);
    let until = match decision {
        TaskDecision::Wait { until } => until,
        other => panic!("unexpected decision: {other:?}"),
    };
    assert_eq!(until, now);
    assert_eq!(state.status, ScheduleStatus::Waiting);

    // Step: the sleep ends without cancellation; the task plays.
    assert!(task_wait_ended(&mut state, false));
    assert_eq!(state.status, ScheduleStatus::Running);
    play_count += 1;
    let last_volume = sched.volume;

    // Step: the play succeeded; record the outcome.
    let (status, message) = task_record_outcome(&mut state, true, None, now);
    assert_eq!(status, PlaybackStatus::Success);
    assert_eq!(message, None);
    history.record(
        resonatify::models::PlaybackHistory {
            id: "h-1".to_string(),
            schedule_id: sched.id.clone(),
            played_at: "2025-11-13T08:00:30".to_string(),
            status,
            error_message: message,
        },
        now,
    );

    // Step: a once schedule retires and its row is disabled.
    assert_eq!(task_continuation(&sched), TaskContinuation::DisableOnce);
    let updated = apply_update(&sched, disable_update_input(), "2025-11-13T08:00:31".to_string());
    assert!(!updated.enabled);

    assert!(play_count >= 1);
    assert_eq!(last_volume, 70);
    let recent = history.list_recent(1);
    assert!(!recent.is_empty());
    assert_eq!(recent[0].1.schedule_id, sched.id);
    assert_eq!(recent[0].1.status, PlaybackStatus::Success);
}

#[test]
fn start_twice_reports_already_running() {
    let mut engine = SchedulerEngine::new();
    engine.start(Vec::new()).unwrap();
    match engine.start(Vec::new()) {
        Err(SchedulerError::AlreadyRunning) => {}
        other => panic!("unexpected result: {other:?}"),
    }
}

#[test]
fn stop_when_stopped_reports_not_running() {
    let mut engine = SchedulerEngine::new();
    match engine.stop() {
        Err(SchedulerError::NotRunning) => {}
        other => panic!("unexpected result: {other:?}"),
    }
    engine.start(Vec::new()).unwrap();
    engine.stop().unwrap();
    match engine.stop() {
        Err(SchedulerError::NotRunning) => {}
        other => panic!("unexpected result: {other:?}"),
    }
}

#[test]
fn pause_and_resume_alias_stop_and_start() {
    let mut engine = SchedulerEngine::new();
    match engine.pause_all() {
        Err(SchedulerError::NotRunning) => {}
        other => panic!("unexpected result: {other:?}"),
    }
    engine
        .resume_all(vec![schedule("a", "A", "/tmp/a.mp3", "09:00", RepeatType::Daily, 10)])
        .unwrap();
    match engine.resume_all(Vec::new()) {
        Err(SchedulerError::AlreadyRunning) => {}
        other => panic!("unexpected result: {other:?}"),
    }
    engine.pause_all().unwrap();
    assert!(!engine.status().is_running);
}

#[test]
fn status_reports_each_slot() {
    let mut engine = SchedulerEngine::new();
    engine
        .start(vec![
            schedule("a", "A", "/tmp/a.mp3", "09:00", RepeatType::Daily, 10),
            schedule("b", "B", "/tmp/b.mp3", "10:00", RepeatType::Weekends, 20),
        ])
        .unwrap();
    let status = engine.status();
    assert!(status.is_running);
    assert_eq!(status.total_schedules, 2);
    assert_eq!(status.schedules.len(), 2);
    assert_eq!(status.schedules[0].id, "a");
    assert_eq!(status.schedules[1].id, "b");
    assert_eq!(status.schedules[0].status, ScheduleStatus::Idle);
    assert_eq!(status.schedules[1].next_run, None);
}

#[test]
fn reload_swaps_the_schedule_set() {
    let mut engine = SchedulerEngine::new();
    engine
        .start(vec![schedule("a", "A", "/tmp/a.mp3", "09:00", RepeatType::Daily, 10)])
        .unwrap();
    engine
        .reload(vec![
            schedule("b", "B", "/tmp/b.mp3", "10:00", RepeatType::Daily, 20),
            schedule("c", "C", "/tmp/c.mp3", "11:00", RepeatType::Daily, 30),
        ])
        .unwrap();
    let status = engine.status();
    assert!(status.is_running);
    assert_eq!(status.total_schedules, 2);
    assert_eq!(status.schedules[0].id, "b");

    engine.stop().unwrap();
    engine.reload(Vec::new()).unwrap();
    assert!(!engine.status().is_running);
    assert_eq!(engine.status().total_schedules, 0);
}

#[test]
fn upcoming_executions_sorts_and_truncates() {
    let now = reference_instant();
    let mut engine = SchedulerEngine::new();
    engine
        .start(vec![
            schedule("a", "A", "/tmp/a.mp3", "09:00", RepeatType::Daily, 10),
            schedule("b", "B", "/tmp/b.mp3", "10:00", RepeatType::Daily, 20),
            schedule("c", "C", "/tmp/c.mp3", "11:00", RepeatType::Daily, 30),
        ])
        .unwrap();

    // Drive each slot's plan so that the next runs are published.
    for i in 0..engine.slots.len() {
        let sched = engine.slots[i].schedule.clone();
        let mut state = engine.slots[i].state.clone();
        task_plan(&sched, &mut state, false, now);
        engine.slots[i].state = state;
    }

    let upcoming = engine.upcoming_executions(10);
    assert_eq!(upcoming.len(), 3);
    assert!(upcoming[0].scheduled_for <= upcoming[1].scheduled_for);
    assert!(upcoming[1].scheduled_for <= upcoming[2].scheduled_for);
    assert_eq!(upcoming[0].schedule_id, "a");

    let top = engine.upcoming_executions(2);
    assert_eq!(top.len(), 2);
    assert_eq!(top[0].schedule_id, "a");
    assert_eq!(top[1].schedule_id, "b");

    let all = engine.get_upcoming_executions(100).unwrap();
    assert_eq!(all.len(), 3);
}

#[test]
fn failed_play_marks_the_task_errored() {
    let mut state = ScheduleRuntimeState::new();
    let (status, message) = task_record_outcome(
        &mut state,
        false,
        Some("no output device".to_string()),
        reference_instant(),
    );
    assert_eq!(status, PlaybackStatus::Failed);
    assert_eq!(message.as_deref(), Some("no output device"));
    assert_eq!(state.status, ScheduleStatus::Error);
    assert_eq!(state.last_error.as_deref(), Some("no output device"));
    assert_eq!(state.last_run, None);
}

#[test]
fn cancelled_task_stops() {
    let now = reference_instant();
    let sched = schedule("s", "S", "/tmp/s.mp3", "08:00", RepeatType::Daily, 50);
    let mut state = ScheduleRuntimeState::new();
    match task_plan(&sched, &mut state, true, now) {
        TaskDecision::Stop => {}
        other => panic!("unexpected decision: {other:?}"),
    }
    assert_eq!(state.status, ScheduleStatus::Stopped);

    let mut state = ScheduleRuntimeState::new();
    assert!(!task_wait_ended(&mut state, true));
    assert_eq!(state.status, ScheduleStatus::Stopped);
}

#[test]
fn invalid_schedule_fails_the_task() {
    let now = reference_instant();
    let sched = schedule(
        "s",
        "S",
        "/tmp/s.mp3",
        "08:00",
        RepeatType::Custom {
            interval_minutes: 0,
        },
        50,
    );
    let mut state = ScheduleRuntimeState::new();
    match task_plan(&sched, &mut state, false, now) {
        TaskDecision::Fail { error } => match error {
            SchedulerError::InvalidScheduleTime {
                schedule_id,
                reason,
            } => {
                assert_eq!(schedule_id, "s");
                // The task keeps the error's reason as its last error.
                assert_eq!(state.last_error.as_deref(), Some(reason.as_str()));
            }
            other => panic!("unexpected error: {other:?}"),
        },
        other => panic!("unexpected decision: {other:?}"),
    }
    assert_eq!(state.status, ScheduleStatus::Error);
}

#[test]
fn announcement_wait_covers_the_clip() {
    assert_eq!(announcement_wait_ms(Some(1200)), 1700);
    assert_eq!(announcement_wait_ms(None), 3000);
}

#[test]
fn test_scheduler_flow_daily_repeat() {
    // A daily schedule due now fires once and stays enabled, and the task
    // loops to compute the next fire instead of retiring.
    let now = reference_instant();
    let sched = schedule(
        "daily-1",
        "Daily Test",
        "test.mp3",
        "08:00",
        RepeatType::Daily,
        50,
    );

    let mut state = ScheduleRuntimeState::new();
    let mut history = HistoryLog::new();
    let mut play_count = 0usize;

    match task_plan(&sched, &mut state, false, now) {
        TaskDecision::Wait { until } => assert_eq!(until, now),
        other => panic!("unexpected decision: {other:?}"),
    }
    assert!(task_wait_ended(&mut state, false));
    play_count += 1;
    let (status, message) = task_record_outcome(&mut state, true, None, now);
    history.record(
        resonatify::models::PlaybackHistory {
            id: "h-d".to_string(),
            schedule_id: sched.id.clone(),
            played_at: "2025-11-13T08:00:30".to_string(),
            status,
            error_message: message,
        },
        now,
    );

    // A daily schedule loops; its definition stays enabled.
    assert_eq!(task_continuation(&sched), TaskContinuation::Continue);
    assert!(sched.enabled);
    assert_eq!(play_count, 1);
    assert_eq!(state.status, ScheduleStatus::Idle);
    assert_eq!(state.last_run, Some(now));

    // The next iteration computes a later fire: the grace window is spent
    // on the recorded run.
    match task_plan(&sched, &mut state, false, now) {
        TaskDecision::Wait { until } => assert!(until > now),
        other => panic!("unexpected decision: {other:?}"),
    }
    assert_eq!(history.len(), 1);
}
