//! The bookkeeping of an energy-surge beat detector: a window of the newest
//! samples, a count of those that arrived since the last analysis, and a
//! rolling history of window powers. The power itself is computed by the
//! caller, on whatever sample type it uses.

use crate::window::{filled, insert_newest, newest_first, push_front, pushed_front, taken};
use vstd::prelude::*;

verus! {

/// Analyses per second: the window holds this fraction of a second.
pub const WINDOWS_PER_SECOND: usize = 50;

/// Window powers kept in the history.
pub const HISTORY_LEN: usize = 50;

/// Samples in the window of a detector at `sample_rate`.
pub open spec fn window_len(sample_rate: nat) -> nat {
    sample_rate / (WINDOWS_PER_SECOND as nat)
}

/// A beat detector's state between analyses.
pub struct SimpleBeatDetector<T> {
    sample_rate: usize,
    needed_samples: usize,
    fresh_samples: usize,
    threshold: T,
    samples: Vec<T>,
    power_history: Vec<T>,
}

impl<T: Copy> SimpleBeatDetector<T> {
    /// The sample window, the newest chunk first.
    pub closed spec fn window(&self) -> Seq<T> {
        self.samples@
    }

    /// The window powers of the last analyses, the latest first.
    pub closed spec fn powers(&self) -> Seq<T> {
        self.power_history@
    }

    /// Samples taken in since the last analysis.
    pub closed spec fn fresh(&self) -> nat {
        self.fresh_samples as nat
    }

    /// Samples needed for an analysis: the window length.
    pub closed spec fn needed(&self) -> nat {
        self.needed_samples as nat
    }

    /// The sample rate the detector was made for.
    pub closed spec fn rate(&self) -> nat {
        self.sample_rate as nat
    }

    /// The ratio of a window's power to the reference above which it is a
    /// beat.
    pub closed spec fn threshold_value(&self) -> T {
        self.threshold
    }

    /// The window is as long as an analysis needs, the history has its fixed
    /// length, and fewer samples are fresh than an analysis needs.
    pub open spec fn wf(&self) -> bool {
        &&& self.needed() == window_len(self.rate())
        &&& self.needed() > 0
        &&& self.window().len() == self.needed()
        &&& self.powers().len() == HISTORY_LEN
        &&& self.fresh() < self.needed()
    }

    /// A detector at `sample_rate` whose window and history hold `zero`.
    pub fn new(sample_rate: usize, zero: T, threshold: T) -> (r: SimpleBeatDetector<T>)
        requires
            sample_rate >= WINDOWS_PER_SECOND,
        ensures
            r.wf(),
            r.rate() == sample_rate,
            r.window() == Seq::new(window_len(sample_rate as nat), |_i: int| zero),
            r.powers() == Seq::new(HISTORY_LEN as nat, |_i: int| zero),
            r.fresh() == 0,
            r.threshold_value() == threshold,
    {
        let needed_samples = sample_rate / WINDOWS_PER_SECOND;
        SimpleBeatDetector {
            sample_rate,
            needed_samples,
            fresh_samples: 0,
            threshold,
            samples: filled(zero, needed_samples),
            power_history: filled(zero, HISTORY_LEN),
        }
    }

    /// Takes the newest samples of `samples` that fit the window into it, and
    /// tells whether enough have arrived since the last analysis for another
    /// one; if so, the count starts again.
    pub fn feed(&mut self, samples: &[T]) -> (due: bool)
        requires
            old(self).wf(),
        ensures
            final(self).wf(),
            final(self).window() == newest_first(old(self).window(), samples@),
            final(self).window().len() == old(self).window().len(),
            final(self).powers() == old(self).powers(),
            final(self).rate() == old(self).rate(),
            final(self).threshold_value() == old(self).threshold_value(),
            due == (old(self).fresh() + taken(samples@.len(), old(self).needed()) >= old(self).needed()),
            final(self).fresh() == if due {
                0
            } else {
                old(self).fresh() + taken(samples@.len(), old(self).needed())
            },
    {
        let new = if samples.len() < self.needed_samples {
            samples.len()
        } else {
            self.needed_samples
        };
        self.fresh_samples = self.fresh_samples + new;
        insert_newest(&mut self.samples, samples);
        if self.fresh_samples >= self.needed_samples {
            self.fresh_samples = 0;
            true
        } else {
            false
        }
    }

    /// Puts the power of the latest analysed window at the front of the
    /// history; the oldest leaves.
    pub fn record_power(&mut self, power: T)
        requires
            old(self).wf(),
        ensures
            final(self).wf(),
            final(self).powers() == pushed_front(old(self).powers(), power),
            final(self).window() == old(self).window(),
            final(self).fresh() == old(self).fresh(),
            final(self).rate() == old(self).rate(),
            final(self).threshold_value() == old(self).threshold_value(),
    {
        push_front(&mut self.power_history, power);
    }

    /// The sample window, the newest chunk first.
    pub fn samples(&self) -> (r: &Vec<T>)
        ensures
            r@ == self.window(),
    {
        &self.samples
    }

    /// The window powers of the last analyses, the latest first.
    pub fn power_history(&self) -> (r: &Vec<T>)
        ensures
            r@ == self.powers(),
    {
        &self.power_history
    }

    /// Samples needed for an analysis.
    pub fn needed_samples(&self) -> (r: usize)
        ensures
            r == self.needed(),
    {
        self.needed_samples
    }

    /// The sample rate the detector was made for.
    pub fn sample_rate(&self) -> (r: usize)
        ensures
            r == self.rate(),
    {
        self.sample_rate
    }

    /// The ratio of a window's power to the reference above which it is a
    /// beat.
    pub fn threshold(&self) -> (r: T)
        ensures
            r == self.threshold_value(),
    {
        self.threshold
    }
}

} // verus!
