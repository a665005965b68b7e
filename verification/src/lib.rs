//! Core of a terminal audio player: the sample-tee / spectrum-analysis /
//! waveform-extraction pipeline.
//!
//! Audio amplitudes are carried as fixed-point integers, with [`SCALE`] as
//! the representation of 1.0.  The glue that decodes files, runs the
//! frequency transform and draws the terminal lives outside this library
//! and exchanges plain integer values with it.

use vstd::prelude::*;

pub mod controls;
pub mod player;
pub mod spectrum;
pub mod tee;
pub mod ui;
pub mod waveform;

verus! {

/// Fixed-point unit: the integer that stands for an amplitude of 1.0.
pub const SCALE: u64 = 1024;

/// Number of consecutive samples consumed by one spectrum analysis pass.
pub const WINDOW_SIZE: usize = 2048;

/// Number of usable magnitude bins per pass: the lower half of the
/// transform output (the upper half is redundant for real input).
pub const NUM_BINS: usize = 1024;

} // verus!
