//! The scheduling of one spectral analyzer: its rolling window of samples,
//! the count of samples that arrived since its last run, and the rate limit
//! that keeps it from running more often than the minimum interval.

use crate::clock::nanos_between;
use crate::window::{filled, insert_newest, newest_first, snapshot};
use std::time::Instant;
use vstd::arithmetic::power2::{lemma2_to64, lemma_pow2_unfold, pow2};
use vstd::prelude::*;

verus! {

/// The minimum interval between two runs of an analyzer, in milliseconds.
pub const SAMPLING_DURATION: u64 = 16;

/// The minimum interval between two runs of an analyzer, in nanoseconds.
pub const MIN_INTERVAL_NANOS: u128 = 16_000_000;

/// The number of fresh samples that justify a run: as many as arrive in the
/// minimum interval at `sample_rate`.
pub open spec fn needed_for(sample_rate: nat) -> nat {
    SAMPLING_DURATION as nat * sample_rate / 1000
}

/// The fresh-sample count after a chunk of `len` samples arrived; it stays at
/// the largest `usize` rather than wrap.
pub open spec fn fresh_after(fresh: nat, len: nat) -> nat {
    if fresh + len <= usize::MAX {
        fresh + len
    } else {
        usize::MAX as nat
    }
}

/// Whether an analyzer runs: the minimum interval has passed since its last
/// run, and enough fresh samples have arrived.
pub open spec fn is_due(fresh: nat, needed: nat, elapsed_nanos: nat) -> bool {
    elapsed_nanos >= MIN_INTERVAL_NANOS && fresh >= needed
}

/// The state of one analyzer between runs. The sample type is generic: the
/// transform that a run performs is up to the caller.
pub struct Processor<T> {
    samples: Vec<T>,
    sample_rate: usize,
    fresh_samples: usize,
    needed_samples: usize,
    draw_time: Option<Instant>,
}

impl<T: Copy> Processor<T> {
    /// The sample window, the newest chunk first.
    pub closed spec fn window(&self) -> Seq<T> {
        self.samples@
    }

    /// Samples that arrived since the last run.
    pub closed spec fn fresh(&self) -> nat {
        self.fresh_samples as nat
    }

    /// Fresh samples needed for a run.
    pub closed spec fn needed(&self) -> nat {
        self.needed_samples as nat
    }

    /// The sample rate the analyzer was made for.
    pub closed spec fn rate(&self) -> nat {
        self.sample_rate as nat
    }

    /// Whether the clock of the analyzer was started by a first call of
    /// `process`.
    pub closed spec fn started(&self) -> bool {
        self.draw_time.is_some()
    }

    /// The window is never empty.
    pub open spec fn wf(&self) -> bool {
        self.window().len() > 0
    }

    /// An analyzer with a window of `2^k` copies of `fill`, no fresh samples,
    /// and a clock that starts at the first call of `process`.
    pub fn new(k: usize, sample_rate: usize, fill: T) -> (r: Processor<T>)
        requires
            pow2(k as nat) <= usize::MAX,
            sample_rate <= usize::MAX / 16,
        ensures
            r.wf(),
            r.window() == Seq::new(pow2(k as nat), |_i: int| fill),
            r.fresh() == 0,
            r.needed() == needed_for(sample_rate as nat),
            r.rate() == sample_rate,
            !r.started(),
    {
        let mut count: usize = 1;
        let mut i: usize = 0;
        proof {
            lemma2_to64();
        }
        while i < k
            invariant
                i <= k,
                count as nat == pow2(i as nat),
                pow2(k as nat) <= usize::MAX,
            decreases k - i,
        {
            proof {
                lemma_pow2_unfold((i + 1) as nat);
                if i + 1 < k {
                    vstd::arithmetic::power2::lemma_pow2_strictly_increases((i + 1) as nat, k as nat);
                }
            }
            count = count * 2;
            i = i + 1;
        }
        proof {
            vstd::arithmetic::power2::lemma_pow2_pos(k as nat);
        }
        assert(16 * sample_rate <= usize::MAX) by (nonlinear_arith)
            requires
                sample_rate <= usize::MAX / 16,
        ;
        let needed_samples = SAMPLING_DURATION as usize * sample_rate / 1000;
        Processor {
            samples: filled(fill, count),
            sample_rate,
            fresh_samples: 0,
            needed_samples,
            draw_time: None,
        }
    }

    /// The window length.
    pub fn sample_count(&self) -> (r: usize)
        ensures
            r == self.window().len(),
    {
        self.samples.len()
    }

    /// The sample rate the analyzer was made for.
    pub fn sample_rate(&self) -> (r: usize)
        ensures
            r == self.rate(),
    {
        self.sample_rate
    }

    /// The sample window, the newest chunk first.
    pub fn samples(&self) -> (r: &Vec<T>)
        ensures
            r@ == self.window(),
    {
        &self.samples
    }

    /// Takes in a chunk when `elapsed_nanos` passed since the last run, and
    /// returns a copy of the window where the analyzer is due to run.
    pub fn process_elapsed(&mut self, samples: Vec<T>, elapsed_nanos: u128) -> (r: Option<Vec<T>>)
        requires
            old(self).wf(),
        ensures
            final(self).wf(),
            final(self).window() == newest_first(old(self).window(), samples@),
            final(self).window().len() == old(self).window().len(),
            final(self).needed() == old(self).needed(),
            final(self).rate() == old(self).rate(),
            final(self).started() == old(self).started(),
            r.is_some() == is_due(
                fresh_after(old(self).fresh(), samples@.len()),
                old(self).needed(),
                elapsed_nanos as nat,
            ),
            r.is_some() ==> r.unwrap()@ == final(self).window() && final(self).fresh() == 0,
            r.is_none() ==> final(self).fresh() == fresh_after(old(self).fresh(), samples@.len()),
    {
        self.fresh_samples = self.fresh_samples.saturating_add(samples.len());
        insert_newest(&mut self.samples, samples.as_slice());
        if elapsed_nanos < MIN_INTERVAL_NANOS {
            return None;
        }
        if self.fresh_samples >= self.needed_samples {
            self.fresh_samples = 0;
            Some(snapshot(&self.samples))
        } else {
            None
        }
    }

    /// Takes in a chunk and returns a copy of the window where the analyzer is
    /// due to run: where at least the minimum interval passed since its last
    /// run, as the clock tells, and enough fresh samples arrived. The first
    /// call starts the clock and never runs.
    pub fn process(&mut self, samples: Vec<T>) -> (r: Option<Vec<T>>)
        requires
            old(self).wf(),
        ensures
            final(self).wf(),
            final(self).window() == newest_first(old(self).window(), samples@),
            final(self).window().len() == old(self).window().len(),
            final(self).needed() == old(self).needed(),
            final(self).rate() == old(self).rate(),
            final(self).started(),
            !old(self).started() ==> r.is_none(),
            r.is_some() ==> fresh_after(old(self).fresh(), samples@.len()) >= old(self).needed(),
            r.is_some() ==> r.unwrap()@ == final(self).window() && final(self).fresh() == 0,
            r.is_none() ==> final(self).fresh() == fresh_after(old(self).fresh(), samples@.len()),
    {
        let now = Instant::now();
        let elapsed: u128 = match &self.draw_time {
            Some(dt) => nanos_between(dt, &now),
            None => {
                self.draw_time = Some(now);
                0
            },
        };
        let r = self.process_elapsed(samples, elapsed);
        if r.is_some() {
            self.draw_time = Some(now);
        }
        r
    }
}

} // verus!
