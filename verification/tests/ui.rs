//! Behavioral tests for the time label and the waveform display scaling.

use aud::ui::{format_duration, waveform_display};
use aud::SCALE;

#[test]
fn duration_label_pads_to_two_digits() {
    assert_eq!(format_duration(0), "00:00");
    assert_eq!(format_duration(9), "00:09");
    assert_eq!(format_duration(59), "00:59");
    assert_eq!(format_duration(60), "01:00");
    assert_eq!(format_duration(61), "01:01");
    assert_eq!(format_duration(600), "10:00");
    assert_eq!(format_duration(3599), "59:59");
}

#[test]
fn duration_label_grows_for_long_tracks() {
    assert_eq!(format_duration(6000), "100:00");
    assert_eq!(format_duration(59_999), "999:59");
}

#[test]
fn wide_envelope_is_truncated_to_the_display() {
    let envelope: Vec<u64> = vec![0, SCALE / 2, SCALE, SCALE / 4, SCALE];
    let shown = waveform_display(&envelope, 3);
    assert_eq!(shown, vec![0, 50, 100]);
}

#[test]
fn narrow_envelope_is_stretched_by_index() {
    let envelope: Vec<u64> = vec![SCALE, SCALE / 2];
    let shown = waveform_display(&envelope, 4);
    // Columns map to indices 0, 0, 1, 1.
    assert_eq!(shown, vec![100, 100, 50, 50]);
}

#[test]
fn empty_envelope_shows_flat_zero() {
    let envelope: Vec<u64> = Vec::new();
    let shown = waveform_display(&envelope, 5);
    assert_eq!(shown, vec![0, 0, 0, 0, 0]);
}
