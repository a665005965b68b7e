//! Playback-facing state and policy: the play/pause state and the rule
//! that clamps a relative seek to the bounds of the track.

use vstd::prelude::*;

verus! {

/// Whether the playback sink is currently advancing through the track.
#[derive(Debug, Clone, Copy, PartialEq, Eq, Structural)]
pub enum PlaybackState {
    Playing,
    Paused,
}

/// The state reached by one press of play/pause.
pub fn toggled(state: PlaybackState) -> (r: PlaybackState)
    ensures
        state is Playing ==> r is Paused,
        state is Paused ==> r is Playing,
{
    match state {
        PlaybackState::Playing => PlaybackState::Paused,
        PlaybackState::Paused => PlaybackState::Playing,
    }
}

/// Largest position or duration, in seconds, that the seek policy accepts.
/// Far beyond any real track; it keeps the signed arithmetic below exact.
pub const MAX_SECS: u64 = 0x4000_0000_0000_0000;

/// Where a relative seek from `current_secs` by `offset_secs` lands.
///
/// The target is clamped at the start of the track; a target at or past
/// the end of the track is ignored (`None`) rather than reported as an
/// error, so the caller leaves the playback position alone.
pub fn seek_target(current_secs: u64, offset_secs: i64, duration_secs: u64) -> (r: Option<
    u64,
>)
    requires
        current_secs < MAX_SECS,
        -(MAX_SECS as int) < offset_secs < MAX_SECS as int,
    ensures
        ({
            let target = if current_secs + offset_secs < 0 {
                0
            } else {
                current_secs + offset_secs
            };
            if target < duration_secs {
                r == Some(target as u64)
            } else {
                r is None
            }
        }),
{
    let moved: i64 = current_secs as i64 + offset_secs;
    let target: u64 = if moved < 0 {
        0
    } else {
        moved as u64
    };
    if target < duration_secs {
        Some(target)
    } else {
        None
    }
}

} // verus!
