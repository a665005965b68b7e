//! Behavioral tests for the spectrum analyzer, driven through the same
//! transform the player uses (rustfft) where a real spectrum is needed.

use aud::spectrum::SpectrumAnalyzer;
use aud::tee::SampleWindow;
use aud::{NUM_BINS, SCALE, WINDOW_SIZE};

use rustfft::num_complex::Complex;
use rustfft::FftPlanner;

/// Lower-half transform magnitudes of one window, in SCALE units.
fn fft_magnitudes(window: &[i64]) -> Vec<u64> {
    let mut buffer: Vec<Complex<f32>> = window
        .iter()
        .map(|&s| Complex::new(s as f32 / SCALE as f32, 0.0))
        .collect();
    let mut planner = FftPlanner::new();
    let fft = planner.plan_fft_forward(window.len());
    fft.process(&mut buffer);
    buffer[..window.len() / 2]
        .iter()
        .map(|c| {
            let norm = (c.re * c.re + c.im * c.im).sqrt();
            (norm * SCALE as f32) as u64
        })
        .collect()
}

/// The non-linear bar-to-bin map the player computes at startup.
fn default_freq_map(num_bars: usize) -> Vec<usize> {
    (0..num_bars)
        .map(|i| {
            let frac = (i as f64 / num_bars as f64).powf(1.3);
            let bin = (frac * (NUM_BINS - 1) as f64) as usize;
            bin.min(NUM_BINS - 1)
        })
        .collect()
}

fn run_update(analyzer: &mut SpectrumAnalyzer, window: &mut SampleWindow) {
    let spectrum = match window.peek_window() {
        Some(w) => fft_magnitudes(&w),
        None => vec![0u64; NUM_BINS],
    };
    analyzer.update(window, &spectrum);
}

#[test]
fn underrun_leaves_bars_unchanged() {
    let mut analyzer = SpectrumAnalyzer::new(16, 716, 1536, default_freq_map(16));
    let mut window = SampleWindow::new();
    // Give the bars a non-trivial state first: one full window of a ramp.
    for t in 0..WINDOW_SIZE {
        window.push((t as i64 % 100) * 10);
    }
    run_update(&mut analyzer, &mut window);
    let before = analyzer.bars().clone();
    assert_eq!(window.len(), 0);

    // Fewer samples than one transform window: update must be a no-op.
    for t in 0..WINDOW_SIZE - 1 {
        window.push(t as i64);
    }
    let spectrum = vec![123456u64; NUM_BINS];
    analyzer.update(&mut window, &spectrum);
    assert_eq!(analyzer.bars(), &before);
    assert_eq!(window.len(), WINDOW_SIZE - 1);
}

#[test]
fn update_consumes_oldest_window() {
    let mut analyzer = SpectrumAnalyzer::new(8, 0, 0, default_freq_map(8));
    let mut window = SampleWindow::new();
    for t in 0..WINDOW_SIZE + 10 {
        window.push(t as i64);
    }
    let spectrum = vec![0u64; NUM_BINS];
    analyzer.update(&mut window, &spectrum);
    assert_eq!(window.len(), 10);
    // The ten samples left are the newest ones, still in order.
    let tail = window.peek_window();
    assert!(tail.is_none()); // fewer than a full window remains
}

#[test]
fn smoothing_interpolates_between_old_and_new() {
    // One bar, mapped to bin 0, smoothing 0.5, no bass boost.
    let num_bars = 1;
    let mut analyzer = SpectrumAnalyzer::new(num_bars, 512, 0, vec![0]);
    let mut window = SampleWindow::new();
    for _ in 0..WINDOW_SIZE {
        window.push(0);
    }
    let mut spectrum = vec![0u64; NUM_BINS];
    spectrum[0] = 1000;
    analyzer.update(&mut window, &spectrum);
    // amp = mag * (SCALE * n + boost * (n - i)) = 1000 * 1024 = 1024000;
    // new bar = (0 * 512 + 1024000 * 512) / 1024 = 512000.
    assert_eq!(analyzer.bars()[0], 512_000);
    // The new value lies between the previous value (0) and the amplitude.
    assert!(0 <= analyzer.bars()[0] && analyzer.bars()[0] <= 1_024_000);
}

#[test]
fn bass_boost_strictly_decreases_along_bars() {
    // Every bar reads the same bin, so the raw magnitude is fixed; with a
    // positive boost the displayed amplitude must strictly fall with the
    // bar index.
    let num_bars = 16;
    let mut analyzer = SpectrumAnalyzer::new(num_bars, 0, 1536, vec![0; num_bars]);
    let mut window = SampleWindow::new();
    for _ in 0..WINDOW_SIZE {
        window.push(0);
    }
    let mut spectrum = vec![0u64; NUM_BINS];
    spectrum[0] = 500;
    analyzer.update(&mut window, &spectrum);
    let bars = analyzer.bars();
    for i in 1..num_bars {
        assert!(
            bars[i] < bars[i - 1],
            "bar {} = {} not below bar {} = {}",
            i,
            bars[i],
            i - 1,
            bars[i - 1]
        );
    }
}

#[test]
fn silence_in_silence_out() {
    // A 4096-sample buffer of zeros holds two full transform windows:
    // two update cycles run, and every bar stays exactly zero whatever
    // the smoothing and bass-boost configuration.
    let mut analyzer = SpectrumAnalyzer::new(100, 716, 1536, default_freq_map(100));
    let mut window = SampleWindow::new();
    for _ in 0..2 * WINDOW_SIZE {
        window.push(0);
    }
    run_update(&mut analyzer, &mut window);
    assert_eq!(window.len(), WINDOW_SIZE);
    run_update(&mut analyzer, &mut window);
    assert_eq!(window.len(), 0);
    assert!(analyzer.bars().iter().all(|&b| b == 0));
}

#[test]
fn sine_peak_shows_in_the_mapped_bar() {
    // A pure sine whose frequency sits exactly on a transform bin that
    // one of the bars is mapped to.
    let num_bars = 100;
    let map = default_freq_map(num_bars);
    let hit = 17usize;
    let target_bin = map[hit];
    let mut analyzer = SpectrumAnalyzer::new(num_bars, 716, 1536, map.clone());
    let mut window = SampleWindow::new();
    for _ in 0..8 {
        for t in 0..WINDOW_SIZE {
            let phase = 2.0 * std::f64::consts::PI * target_bin as f64 * t as f64
                / WINDOW_SIZE as f64;
            window.push((phase.sin() * SCALE as f64) as i64);
        }
        run_update(&mut analyzer, &mut window);
    }
    let bars = analyzer.bars();
    assert!(bars[hit] > 0);
    for j in 0..num_bars {
        if (map[j] as i64 - target_bin as i64).unsigned_abs() >= 100 {
            assert!(
                bars[hit] > bars[j],
                "bar {} (bin {}) = {} not above bar {} (bin {}) = {}",
                hit,
                map[hit],
                bars[hit],
                j,
                map[j],
                bars[j]
            );
        }
    }
}
