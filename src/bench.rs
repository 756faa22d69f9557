//! A small timer that records how long passed between calls.

use crate::clock::nanos_between;
use crate::window::{push_front, pushed_front};
use std::time::Instant;
use vstd::prelude::*;

verus! {

/// Nanoseconds in a millisecond.
pub const NANOS_PER_MILLI: u128 = 1_000_000;

/// Nanoseconds in a second.
pub const NANOS_PER_SEC: u128 = 1_000_000_000;

/// The sum of a sequence of durations in nanoseconds.
pub open spec fn total(s: Seq<u128>) -> nat
    decreases s.len(),
{
    if s.len() == 0 {
        0
    } else {
        total(s.drop_last()) + s.last() as nat
    }
}

/// The measurements after `elapsed` was recorded: it replaces the latest one,
/// or becomes the first.
pub open spec fn recorded(m: Seq<u128>, elapsed: u128) -> Seq<u128> {
    if m.len() > 0 {
        pushed_front(m, elapsed)
    } else {
        seq![elapsed]
    }
}

/// The millisecond part, within its second, of the mean of the measurements;
/// zero where there are none.
pub open spec fn avg_millis(m: Seq<u128>) -> nat {
    if m.len() == 0 {
        0
    } else {
        ((total(m) / m.len()) % (NANOS_PER_SEC as nat)) / (NANOS_PER_MILLI as nat)
    }
}

/// Measures the time between successive calls of `measure`.
pub struct Benchmark {
    last_call: Instant,
    measurements: Vec<u128>,
}

impl Benchmark {
    /// The recorded durations in nanoseconds, the latest first.
    pub closed spec fn measurements(&self) -> Seq<u128> {
        self.measurements@
    }

    /// The benchmark keeps the latest measurement only.
    pub open spec fn wf(&self) -> bool {
        self.measurements().len() <= 1
    }

    /// A benchmark with no measurements, whose clock starts now.
    pub fn new() -> (r: Benchmark)
        ensures
            r.wf(),
            r.measurements() == Seq::<u128>::empty(),
    {
        Benchmark { last_call: Instant::now(), measurements: Vec::with_capacity(100) }
    }

    /// Records the time since the previous call (or since `new`) and restarts
    /// the clock.
    pub fn measure(&mut self)
        requires
            old(self).wf(),
        ensures
            final(self).wf(),
            exists|e: u128| final(self).measurements() == recorded(old(self).measurements(), e),
    {
        let now = Instant::now();
        let elapsed = nanos_between(&self.last_call, &now);
        self.last_call = now;
        self.record(elapsed);
    }

    /// Records a duration of `elapsed` nanoseconds.
    pub fn record(&mut self, elapsed: u128)
        requires
            old(self).wf(),
        ensures
            final(self).wf(),
            final(self).measurements() == recorded(old(self).measurements(), elapsed),
    {
        if self.measurements.len() > 0 {
            push_front(&mut self.measurements, elapsed);
        } else {
            self.measurements.push(elapsed);
        }
    }

    /// The millisecond part of the mean measured duration, as described by
    /// `avg_millis`.
    pub fn avg(&self) -> (r: u32)
        requires
            self.wf(),
        ensures
            r as nat == avg_millis(self.measurements()),
    {
        let n = self.measurements.len();
        if n == 0 {
            0
        } else {
            let mut sum: u128 = 0;
            let mut i: usize = 0;
            while i < n
                invariant
                    i <= n,
                    n == self.measurements@.len(),
                    n <= 1,
                    sum as nat == total(self.measurements@.subrange(0, i as int)),
                decreases n - i,
            {
                proof {
                    let s = self.measurements@.subrange(0, i as int + 1);
                    assert(s.drop_last() =~= self.measurements@.subrange(0, i as int));
                }
                sum = sum + self.measurements[i];
                i = i + 1;
            }
            assert(self.measurements@.subrange(0, n as int) =~= self.measurements@);
            let mean = sum / (n as u128);
            ((mean % NANOS_PER_SEC) / NANOS_PER_MILLI) as u32
        }
    }
}

} // verus!
