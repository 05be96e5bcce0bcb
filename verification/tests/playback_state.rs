use resonatify::playback::{
    fade_step_duration_ms, fade_volume_at_step, service_play, service_stop, volume_from_percent,
    volume_percent_acceptable, PlaybackContext, PlaybackState,
};
use resonatify::validator::AudioFileMetadata;

fn context_for(path: &str, volume_percent: u8) -> PlaybackContext {
    PlaybackContext {
        file_path: path.to_string(),
        metadata: AudioFileMetadata {
            path: path.to_string(),
            file_name: "service.wav".to_string(),
            extension: "wav".to_string(),
            duration_ms: Some(100),
            sample_rate: 44_100,
            channels: 1,
            size_bytes: 8_864,
        },
        started_at: "2025-11-13T08:00:00".to_string(),
        volume_milli: volume_from_percent(volume_percent),
    }
}

#[test]
fn play_and_stop_updates_state() {
    let mut state = PlaybackState::idle();
    assert!(!state.is_playing);
    assert!(state.current.is_none());

    service_play(&mut state, context_for("/tmp/service.wav", 80));
    assert!(state.is_playing);
    assert!(state.current.is_some());
    assert_eq!(state.current.as_ref().unwrap().volume_milli, 800);

    service_stop(&mut state);
    assert!(!state.is_playing);
    assert!(state.current.is_none());
}

#[test]
fn second_play_replaces_the_first() {
    // Two completed plays: the published state reflects the second file.
    let mut state = PlaybackState::idle();
    service_play(&mut state, context_for("/tmp/first.wav", 50));
    service_play(&mut state, context_for("/tmp/second.wav", 70));

    assert!(state.is_playing);
    let current = state.current.unwrap();
    assert_eq!(current.file_path, "/tmp/second.wav");
    assert_eq!(current.volume_milli, 700);
}

#[test]
fn volume_translation_bounds() {
    assert_eq!(volume_from_percent(0), 0);
    assert_eq!(volume_from_percent(100), 1000);
    assert_eq!(volume_from_percent(37), 370);
    assert_eq!(volume_from_percent(255), 1000);

    assert!(volume_percent_acceptable(0));
    assert!(volume_percent_acceptable(100));
    assert!(!volume_percent_acceptable(101));
}

#[test]
fn fade_is_linear_between_the_endpoints() {
    assert_eq!(fade_volume_at_step(0, 1000, 0), 0);
    assert_eq!(fade_volume_at_step(0, 1000, 12), 1000);
    assert_eq!(fade_volume_at_step(0, 1000, 6), 500);
    assert_eq!(fade_volume_at_step(1000, 0, 0), 1000);
    assert_eq!(fade_volume_at_step(1000, 0, 12), 0);

    let mut previous = fade_volume_at_step(200, 800, 0);
    for step in 1..=12u32 {
        let v = fade_volume_at_step(200, 800, step);
        assert!(v >= previous);
        previous = v;
    }
}

#[test]
fn fade_step_duration_splits_evenly() {
    assert_eq!(fade_step_duration_ms(400), 33);
    assert_eq!(fade_step_duration_ms(300), 25);
    assert_eq!(fade_step_duration_ms(0), 0);
}

#[test]
fn status_returns_idle_when_not_playing() {
    let state = PlaybackState::idle();
    assert!(!state.is_playing);
    assert!(state.current.is_none());
}
