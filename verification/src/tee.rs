//! The shared sample window and the tee step.
//!
//! During playback every sample pulled by the audio sink is also appended
//! to a bounded window of recent samples, which the spectrum analyzer
//! later drains one transform window at a time.  The window keeps samples
//! in the exact order they were produced (FIFO), and the tee step hands
//! each sample back unchanged so the playback path is never altered.
//!
//! Samples are fixed-point amplitudes: `SCALE` stands for 1.0.

use vstd::prelude::*;

use crate::WINDOW_SIZE;

verus! {

/// A FIFO window of recent samples, written by the playback tee and
/// drained by the spectrum analyzer.  Each operation runs under the
/// caller's exclusive access (the two sides share it behind a lock).
pub struct SampleWindow {
    samples: Vec<i64>,
}

impl View for SampleWindow {
    type V = Seq<i64>;

    closed spec fn view(&self) -> Seq<i64> {
        self.samples@
    }
}

impl SampleWindow {
    /// The window starts empty; it fills as playback pulls samples.
    pub fn new() -> (r: SampleWindow)
        ensures
            r@ =~= Seq::<i64>::empty(),
    {
        SampleWindow { samples: Vec::new() }
    }

    /// How many samples are currently buffered.
    pub fn len(&self) -> (r: usize)
        ensures
            r == self@.len(),
    {
        self.samples.len()
    }

    /// Append one sample at the back, keeping arrival order.
    pub fn push(&mut self, sample: i64)
        ensures
            final(self)@ =~= old(self)@.push(sample),
    {
        self.samples.push(sample);
    }

    /// The tee step: record a copy of the sample and hand the very same
    /// value back to the playback path, unchanged.
    pub fn tee(&mut self, sample: i64) -> (r: i64)
        ensures
            r == sample,
            final(self)@ =~= old(self)@.push(sample),
    {
        self.samples.push(sample);
        sample
    }

    /// A copy of the oldest full transform window, or `None` while fewer
    /// than `WINDOW_SIZE` samples are buffered.  The window itself is not
    /// changed; `drop_front` consumes it once the caller is done.
    pub fn peek_window(&self) -> (r: Option<Vec<i64>>)
        ensures
            self@.len() >= WINDOW_SIZE ==> (r matches Some(w) && w@ =~= self@.take(
                WINDOW_SIZE as int,
            )),
            self@.len() < WINDOW_SIZE ==> r is None,
    {
        if self.samples.len() < WINDOW_SIZE {
            return None;
        }
        let mut out: Vec<i64> = Vec::new();
        let mut i: usize = 0;
        while i < WINDOW_SIZE
            invariant
                i <= WINDOW_SIZE,
                WINDOW_SIZE <= self@.len(),
                out@ =~= self@.take(i as int),
            decreases WINDOW_SIZE - i,
        {
            out.push(self.samples[i]);
            i = i + 1;
            assert(out@ =~= self@.take(i as int));
        }
        Some(out)
    }

    /// Remove the `n` oldest samples (all of them, if fewer are buffered).
    /// The samples that remain keep their order.
    pub fn drop_front(&mut self, n: usize)
        ensures
            n <= old(self)@.len() ==> final(self)@ =~= old(self)@.skip(n as int),
            n > old(self)@.len() ==> final(self)@ =~= Seq::<i64>::empty(),
    {
        if n >= self.samples.len() {
            self.samples.clear();
        } else {
            let mut rest = self.samples.split_off(n);
            core::mem::swap(&mut self.samples, &mut rest);
        }
    }
}

} // verus!
