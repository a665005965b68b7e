//! Behavioral tests for playback state and the seek policy.

use aud::player::{seek_target, toggled, PlaybackState};

#[test]
fn toggling_flips_the_playback_state() {
    assert_eq!(toggled(PlaybackState::Playing), PlaybackState::Paused);
    assert_eq!(toggled(PlaybackState::Paused), PlaybackState::Playing);
}

#[test]
fn seek_within_the_track_moves() {
    assert_eq!(seek_target(10, 5, 100), Some(15));
    assert_eq!(seek_target(10, -5, 100), Some(5));
    assert_eq!(seek_target(0, 0, 100), Some(0));
}

#[test]
fn seek_before_the_start_clamps_to_zero() {
    assert_eq!(seek_target(3, -10, 100), Some(0));
    assert_eq!(seek_target(0, -1, 100), Some(0));
}

#[test]
fn seek_past_the_end_is_ignored() {
    assert_eq!(seek_target(95, 10, 100), None);
    assert_eq!(seek_target(100, 0, 100), None);
    // A zero-length (unknown-duration) track never accepts a seek.
    assert_eq!(seek_target(0, 0, 0), None);
}
