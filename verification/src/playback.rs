//! The playback state machine of the audio service.
//!
//! The audio worker owns the device; this module owns the decisions: the
//! published state, its transitions on play and stop, the volume
//! translation, and the fade plan.  Volumes are carried in thousandths, so
//! a full-scale volume is 1000.

use vstd::prelude::*;
use crate::validator::AudioFileMetadata;

verus! {

/// Full-scale volume, in thousandths.
pub const VOLUME_SCALE: u16 = 1000;

/// Number of linear fade steps.
pub const FADE_STEPS: u32 = 12;

/// What is currently playing.
#[derive(Debug)]
pub struct PlaybackContext {
    /// The canonical path of the playing file.
    pub file_path: String,
    /// Its validated metadata.
    pub metadata: AudioFileMetadata,
    /// When playback started, as an ISO-8601 timestamp.
    pub started_at: String,
    /// The effective volume, in thousandths of full scale.
    pub volume_milli: u16,
}

impl Clone for PlaybackContext {
    /// A clone denotes the same playback.
    fn clone(&self) -> (r: Self)
        ensures
            r == *self,
    {
        PlaybackContext {
            file_path: self.file_path.clone(),
            metadata: self.metadata.clone(),
            started_at: self.started_at.clone(),
            volume_milli: self.volume_milli,
        }
    }
}

/// The published state of the audio service.
#[derive(Debug)]
pub struct PlaybackState {
    pub is_playing: bool,
    pub current: Option<PlaybackContext>,
}

impl Clone for PlaybackState {
    /// A clone denotes the same state.
    fn clone(&self) -> (r: Self)
        ensures
            r == *self,
    {
        PlaybackState { is_playing: self.is_playing, current: self.current.clone() }
    }
}

/// The state that playing a context publishes: the new playback replaces
/// whatever was playing before.
pub open spec fn playing_state(ctx: PlaybackContext) -> PlaybackState {
    PlaybackState { is_playing: true, current: Some(ctx) }
}

/// The state with nothing playing.
pub open spec fn idle_state() -> PlaybackState {
    PlaybackState { is_playing: false, current: None }
}

impl PlaybackState {
    /// The state with nothing playing.
    pub fn idle() -> (s: Self)
        ensures
            s == idle_state(),
    {
        PlaybackState { is_playing: false, current: None }
    }
}

/// Publishes a started playback: the state then reports exactly the new
/// context, whatever played before.
pub fn service_play(state: &mut PlaybackState, ctx: PlaybackContext)
    ensures
        *final(state) == playing_state(ctx),
{
    *state = PlaybackState { is_playing: true, current: Some(ctx) };
}

/// Publishes a stop: the state then reports nothing playing.
pub fn service_stop(state: &mut PlaybackState)
    ensures
        *final(state) == idle_state(),
{
    *state = PlaybackState { is_playing: false, current: None };
}

/// Play requests serialise: after each completed play the state reflects
/// exactly that play, so when two plays complete in order, the state
/// reflects the second one — it is playing, and the current context, path
/// included, is the second context.
pub proof fn lemma_play_serialises(c1: PlaybackContext, c2: PlaybackContext)
    ensures
        ({
            let s1 = playing_state(c1);
            let s2 = playing_state(c2);
            &&& s1.is_playing && s1.current == Some(c1)
            &&& s2.is_playing && s2.current == Some(c2)
            &&& s2.current matches Some(c) && c.file_path == c2.file_path
        }),
{
}

/// Translates a percentage into thousandths of full scale, clamped: zero
/// gives silence, one hundred gives full scale.
pub fn volume_from_percent(volume_percent: u8) -> (m: u16)
    ensures
        volume_percent <= 100 ==> m == volume_percent * 10,
        volume_percent > 100 ==> m == VOLUME_SCALE,
        m <= VOLUME_SCALE,
{
    if volume_percent >= 100 {
        VOLUME_SCALE
    } else {
        (volume_percent as u16) * 10
    }
}

/// The caller-layer check: a volume percentage above one hundred is
/// rejected before it reaches the service.
pub fn volume_percent_acceptable(volume_percent: u8) -> (ok: bool)
    ensures
        ok == (volume_percent <= 100),
{
    volume_percent <= 100
}

/// The volume at one fade step: the linear interpolation between the two
/// endpoints, so step zero gives the start and the last step the end.
pub fn fade_volume_at_step(start_milli: u16, end_milli: u16, step: u32) -> (v: u16)
    requires
        start_milli <= VOLUME_SCALE,
        end_milli <= VOLUME_SCALE,
        step <= FADE_STEPS,
    ensures
        v as int == (start_milli * (FADE_STEPS - step) + end_milli * step) / (FADE_STEPS as int),
        v <= VOLUME_SCALE,
        step == 0 ==> v == start_milli,
        step == FADE_STEPS ==> v == end_milli,
{
    proof {
        assert((start_milli as int) * (12 - step as int) + (end_milli as int) * (step as int)
            <= 12000) by (nonlinear_arith)
            requires
                start_milli <= 1000,
                end_milli <= 1000,
                step <= 12,
        ;
        assert((start_milli as int) * (12 - step as int) >= 0) by (nonlinear_arith)
            requires
                step <= 12,
        ;
    }
    let num: u32 = (start_milli as u32) * (FADE_STEPS - step) + (end_milli as u32) * step;
    let v = num / FADE_STEPS;
    proof {
        assert(num <= 12000);
        if step == 0 {
            assert((start_milli * 12) / 12 == start_milli as int) by (nonlinear_arith);
        }
        if step == FADE_STEPS {
            assert((start_milli as int) * (12 - step as int) == 0) by (nonlinear_arith)
                requires
                    step == 12,
            ;
            assert((end_milli * 12) / 12 == end_milli as int) by (nonlinear_arith);
        }
        assert(num / 12 <= 1000);
    }
    v as u16
}

/// The duration of one fade step: the whole duration split evenly over
/// the steps.  A zero duration gives zero-length steps, so the fade
/// reaches its endpoint at once.
pub fn fade_step_duration_ms(total_ms: u64) -> (d: u64)
    ensures
        d == total_ms / (FADE_STEPS as u64),
{
    total_ms / (FADE_STEPS as u64)
}

} // verus!
