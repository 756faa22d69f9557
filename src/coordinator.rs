//! Merging the results of several analyzers into one frame. Analyzer `i`
//! runs on windows of `2^(first + i)` samples; each owns one contiguous band
//! of the frame, the largest window the lowest octaves. An analyzer without a
//! fresh result contributes its last one, or zeros before it has any.

use crate::window::filled;
use vstd::prelude::*;

verus! {

/// Frequency steps per octave.
pub const STEPS_PER_OCTAVE: usize = 12;

/// Length of the frame for analyzers of exponents `first .. end`.
pub open spec fn frame_len(first: nat, end: nat) -> nat {
    ((end + 1 - first) * STEPS_PER_OCTAVE) as nat
}

/// Start of the band of the analyzer of exponent `k`: the analyzer of the
/// largest window starts at zero and covers two octaves.
pub open spec fn band_lo(k: nat, end: nat) -> nat {
    if k + 1 == end {
        0
    } else {
        ((end - k) * STEPS_PER_OCTAVE) as nat
    }
}

/// End (exclusive) of the band of the analyzer of exponent `k`.
pub open spec fn band_hi(k: nat, end: nat) -> nat {
    ((end + 1 - k) * STEPS_PER_OCTAVE) as nat
}

/// The exponent of the analyzer whose band holds position `j`.
pub open spec fn owner(j: nat, end: nat) -> nat {
    if j / (STEPS_PER_OCTAVE as nat) < 1 {
        (end - 1) as nat
    } else {
        (end - j / (STEPS_PER_OCTAVE as nat)) as nat
    }
}

/// What a slot of results and cache stands for.
pub open spec fn opt_view<T>(o: Option<Vec<T>>) -> Option<Seq<T>> {
    match o {
        Some(v) => Some(v@),
        None => None,
    }
}

/// What a sequence of results or a cache stands for.
pub open spec fn opts_view<T>(s: Seq<Option<Vec<T>>>) -> Seq<Option<Seq<T>>> {
    s.map_values(|o: Option<Vec<T>>| opt_view(o))
}

/// What an analyzer contributes in a cycle: its fresh result, else its
/// cached one, else `n` zeros.
pub open spec fn contribution<T>(cached: Option<Seq<T>>, result: Option<Seq<T>>, zero: T, n: nat) -> Seq<T> {
    match result {
        Some(r) => r,
        None => match cached {
            Some(c) => c,
            None => Seq::new(n, |_j: int| zero),
        },
    }
}

/// The contributions of all analyzers in a cycle.
pub open spec fn contributions<T>(
    cache: Seq<Option<Seq<T>>>,
    results: Seq<Option<Seq<T>>>,
    zero: T,
    n: nat,
) -> Seq<Seq<T>> {
    Seq::new(results.len(), |i: int| contribution(cache[i], results[i], zero, n))
}

/// The frame made of the contributions: each position is taken from the
/// analyzer whose band holds it.
pub open spec fn merged<T>(contribs: Seq<Seq<T>>, first: nat, end: nat) -> Seq<T> {
    Seq::new(frame_len(first, end), |j: int| contribs[owner(j as nat, end) - first][j])
}

/// The frame of a cycle, from the cache before it and the results of it.
pub open spec fn frame_of<T>(
    cache: Seq<Option<Seq<T>>>,
    results: Seq<Option<Seq<T>>>,
    zero: T,
    first: nat,
    end: nat,
) -> Seq<T> {
    merged(contributions(cache, results, zero, frame_len(first, end)), first, end)
}

/// The cache after a cycle: each fresh result replaces the cached one.
pub open spec fn updated<T>(cache: Seq<Option<Seq<T>>>, results: Seq<Option<Seq<T>>>) -> Seq<Option<Seq<T>>> {
    Seq::new(cache.len(), |i: int| if results[i].is_some() { results[i] } else { cache[i] })
}

/// Every vector present has length `n`.
pub open spec fn lengths_are<T>(s: Seq<Option<Seq<T>>>, n: nat) -> bool {
    forall|i: int| 0 <= i < s.len() && (#[trigger] s[i]).is_some() ==> s[i].unwrap().len() == n
}

/// Limits on the exponents under which the frame length fits a `usize`.
pub open spec fn valid_range(first: nat, end: nat) -> bool {
    first < end && (end + 1 - first) * STEPS_PER_OCTAVE <= usize::MAX
}

/// Position `j` lies in the band of exponent `k` exactly when `k` owns it.
proof fn lemma_in_band(first: nat, end: nat, k: nat, j: nat)
    requires
        valid_range(first, end),
        first <= k < end,
        j < frame_len(first, end),
    ensures
        (band_lo(k, end) <= j < band_hi(k, end)) == (owner(j, end) == k),
{
    let q = j / 12;
    assert(q * 12 <= j < q * 12 + 12) by (nonlinear_arith)
        requires
            q == j / 12,
    ;
    assert(q <= end - first) by (nonlinear_arith)
        requires
            q * 12 <= j,
            j < (end + 1 - first) * 12,
    ;
    if band_lo(k, end) <= j < band_hi(k, end) {
        if k + 1 == end {
            assert(q < 2) by (nonlinear_arith)
                requires
                    q * 12 <= j,
                    j < 24,
            ;
        } else {
            assert(q == end - k) by (nonlinear_arith)
                requires
                    q * 12 <= j < q * 12 + 12,
                    (end - k) * 12 <= j < (end + 1 - k) * 12,
            ;
        }
    } else if owner(j, end) == k {
        if q < 1 {
            assert(band_lo(k, end) == 0);
            assert(band_hi(k, end) == 24);
        } else {
            assert(k == end - q);
            if k + 1 == end {
                assert(j < 24) by (nonlinear_arith)
                    requires
                        q == 1,
                        j < q * 12 + 12,
                ;
            } else {
                assert((end - k) * 12 <= j < (end + 1 - k) * 12) by (nonlinear_arith)
                    requires
                        q * 12 <= j < q * 12 + 12,
                        q == end - k,
                ;
            }
        }
    }
}

/// The owner of every position of the frame is one of the analyzers.
proof fn lemma_owner_range(first: nat, end: nat, j: nat)
    requires
        valid_range(first, end),
        j < frame_len(first, end),
    ensures
        first <= owner(j, end) < end,
{
    let q = j / 12;
    assert(q * 12 <= j) by (nonlinear_arith)
        requires
            q == j / 12,
    ;
    assert(q <= end - first) by (nonlinear_arith)
        requires
            q * 12 <= j,
            j < (end + 1 - first) * 12,
    ;
}

/// The bands tile the frame: every position of it lies in the band of
/// exactly one analyzer, the one that `owner` names.
pub proof fn lemma_bands_tile(first: nat, end: nat, j: nat)
    requires
        valid_range(first, end),
        j < frame_len(first, end),
    ensures
        first <= owner(j, end) < end,
        band_lo(owner(j, end), end) <= j < band_hi(owner(j, end), end),
        forall|k: nat|
            first <= k < end && #[trigger] band_lo(k, end) <= j < band_hi(k, end) ==> k == owner(j, end),
{
    lemma_owner_range(first, end, j);
    lemma_in_band(first, end, owner(j, end), j);
    assert forall|k: nat| first <= k < end && #[trigger] band_lo(k, end) <= j < band_hi(k, end) implies k == owner(
        j,
        end,
    ) by {
        lemma_in_band(first, end, k, j);
    }
}

/// Within the band of each analyzer, the merged frame is that analyzer's
/// contribution: its fresh result, else its cached one, else zeros.
pub proof fn lemma_band_is_contribution<T>(
    cache: Seq<Option<Seq<T>>>,
    results: Seq<Option<Seq<T>>>,
    zero: T,
    first: nat,
    end: nat,
    i: nat,
)
    requires
        valid_range(first, end),
        cache.len() == end - first,
        results.len() == end - first,
        lengths_are(cache, frame_len(first, end)),
        lengths_are(results, frame_len(first, end)),
        i < end - first,
    ensures
        band_hi(first + i, end) <= frame_len(first, end),
        frame_of(cache, results, zero, first, end).subrange(
            band_lo(first + i, end) as int,
            band_hi(first + i, end) as int,
        ) == contribution(cache[i as int], results[i as int], zero, frame_len(first, end)).subrange(
            band_lo(first + i, end) as int,
            band_hi(first + i, end) as int,
        ),
{
    let k = first + i;
    let lo = band_lo(k, end);
    let hi = band_hi(k, end);
    let n = frame_len(first, end);
    assert(hi <= n) by (nonlinear_arith)
        requires
            hi == (end + 1 - k) * 12,
            n == (end + 1 - first) * 12,
            first <= k,
    ;
    let f = frame_of(cache, results, zero, first, end);
    let c = contribution(cache[i as int], results[i as int], zero, n);
    assert forall|t: int| 0 <= t < hi - lo implies #[trigger] f.subrange(lo as int, hi as int)[t]
        == c.subrange(lo as int, hi as int)[t] by {
        lemma_in_band(first, end, k, (lo + t) as nat);
    }
    assert(f.subrange(lo as int, hi as int) =~= c.subrange(lo as int, hi as int));
}

/// With two analyzers, the frame is the first two octaves of the result of
/// the larger window followed by the third octave of the result of the
/// smaller one.
pub proof fn lemma_two_analyzers_concatenate<T>(
    cache: Seq<Option<Seq<T>>>,
    high: Seq<T>,
    low: Seq<T>,
    zero: T,
    first: nat,
)
    requires
        cache.len() == 2,
        lengths_are(cache, frame_len(first, first + 2)),
        high.len() == frame_len(first, first + 2),
        low.len() == frame_len(first, first + 2),
    ensures
        frame_len(first, first + 2) == 36,
        frame_of(cache, seq![Some(high), Some(low)], zero, first, first + 2) == low.subrange(0, 24)
            + high.subrange(24, 36),
{
    let end = first + 2;
    let results = seq![Some(high), Some(low)];
    let f = frame_of(cache, results, zero, first, end);
    lemma_band_is_contribution(cache, results, zero, first, end, 0);
    lemma_band_is_contribution(cache, results, zero, first, end, 1);
    assert(band_lo(first + 1, end) == 0 && band_hi(first + 1, end) == 24);
    assert(band_lo(first, end) == 24 && band_hi(first, end) == 36);
    assert(f =~= f.subrange(0, 24) + f.subrange(24, 36));
}

/// An analyzer without a fresh result contributes to the frame of a cycle
/// what it contributed to the frame of the cycle before.
pub proof fn lemma_stale_fallback<T>(
    cache: Seq<Option<Seq<T>>>,
    previous: Seq<Option<Seq<T>>>,
    current: Seq<Option<Seq<T>>>,
    zero: T,
    first: nat,
    end: nat,
    i: nat,
)
    requires
        valid_range(first, end),
        cache.len() == end - first,
        previous.len() == end - first,
        current.len() == end - first,
        lengths_are(cache, frame_len(first, end)),
        lengths_are(previous, frame_len(first, end)),
        lengths_are(current, frame_len(first, end)),
        i < end - first,
        current[i as int].is_none(),
    ensures
        frame_of(updated(cache, previous), current, zero, first, end).subrange(
            band_lo(first + i, end) as int,
            band_hi(first + i, end) as int,
        ) == frame_of(cache, previous, zero, first, end).subrange(
            band_lo(first + i, end) as int,
            band_hi(first + i, end) as int,
        ),
{
    let u = updated(cache, previous);
    assert forall|t: int| 0 <= t < u.len() && (#[trigger] u[t]).is_some() implies u[t].unwrap().len()
        == frame_len(first, end) by {
        if previous[t].is_some() {
            assert(u[t] == previous[t]);
        } else {
            assert(u[t] == cache[t]);
        }
    }
    lemma_band_is_contribution(u, current, zero, first, end, i);
    lemma_band_is_contribution(cache, previous, zero, first, end, i);
}

/// An analyzer that has no result in the first cycle contributes zeros.
pub proof fn lemma_first_cycle_zero<T>(
    results: Seq<Option<Seq<T>>>,
    zero: T,
    first: nat,
    end: nat,
    i: nat,
)
    requires
        valid_range(first, end),
        results.len() == end - first,
        lengths_are(results, frame_len(first, end)),
        i < end - first,
        results[i as int].is_none(),
    ensures
        frame_of(
            Seq::new((end - first) as nat, |_i: int| None::<Seq<T>>),
            results,
            zero,
            first,
            end,
        ).subrange(band_lo(first + i, end) as int, band_hi(first + i, end) as int) == Seq::new(
            (band_hi(first + i, end) - band_lo(first + i, end)) as nat,
            |_j: int| zero,
        ),
{
    let cache = Seq::new((end - first) as nat, |_i: int| None::<Seq<T>>);
    lemma_band_is_contribution(cache, results, zero, first, end, i);
    let lo = band_lo(first + i, end);
    let hi = band_hi(first + i, end);
    assert(Seq::new(frame_len(first, end), |_j: int| zero).subrange(lo as int, hi as int) =~= Seq::new(
        (hi - lo) as nat,
        |_j: int| zero,
    ));
}

/// The band of the analyzer of exponent `k` among exponents `.. end`.
pub fn band_bounds(k: usize, end: usize) -> (r: (usize, usize))
    requires
        k < end,
        (end + 1 - k) * STEPS_PER_OCTAVE <= usize::MAX,
    ensures
        r.0 == band_lo(k as nat, end as nat),
        r.1 == band_hi(k as nat, end as nat),
        r.0 < r.1,
{
    let to = (end - k + 1) * STEPS_PER_OCTAVE;
    let from = if k == end - 1 {
        0
    } else {
        (end - k) * STEPS_PER_OCTAVE
    };
    (from, to)
}

/// The merge stage of the pipeline: the analyzers' bands and the cache of
/// their last results.
pub struct Coordinator<T> {
    first: usize,
    end: usize,
    zero: T,
    cache: Vec<Option<Vec<T>>>,
}

impl<T: Copy> Coordinator<T> {
    /// The exponent of the first analyzer.
    pub closed spec fn first(&self) -> nat {
        self.first as nat
    }

    /// One past the exponent of the last analyzer.
    pub closed spec fn end(&self) -> nat {
        self.end as nat
    }

    /// The value a frame holds where an analyzer has no result yet.
    pub closed spec fn zero(&self) -> T {
        self.zero
    }

    /// The last result of each analyzer, if any.
    pub closed spec fn cache(&self) -> Seq<Option<Seq<T>>> {
        opts_view(self.cache@)
    }

    /// The number of analyzers.
    pub open spec fn count(&self) -> nat {
        (self.end() - self.first()) as nat
    }

    /// The length of every frame.
    pub open spec fn len(&self) -> nat {
        frame_len(self.first(), self.end())
    }

    /// A cache entry per analyzer, each of the frame's length.
    pub open spec fn wf(&self) -> bool {
        &&& valid_range(self.first(), self.end())
        &&& self.cache().len() == self.count()
        &&& lengths_are(self.cache(), self.len())
    }

    /// A coordinator of analyzers of exponents `first .. end` with an empty
    /// cache.
    pub fn new(first: usize, end: usize, zero: T) -> (r: Coordinator<T>)
        requires
            valid_range(first as nat, end as nat),
        ensures
            r.wf(),
            r.first() == first,
            r.end() == end,
            r.zero() == zero,
            r.cache() == Seq::new((end - first) as nat, |_i: int| None::<Seq<T>>),
    {
        let mut cache: Vec<Option<Vec<T>>> = Vec::new();
        let mut i: usize = first;
        while i < end
            invariant
                first <= i <= end,
                cache@.len() == i - first,
                forall|t: int| 0 <= t < cache@.len() ==> cache@[t].is_none(),
            decreases end - i,
        {
            cache.push(None);
            i = i + 1;
        }
        let r = Coordinator { first, end, zero, cache };
        assert(r.cache() =~= Seq::new((end - first) as nat, |_i: int| None::<Seq<T>>));
        r
    }

    /// The length of every frame.
    pub fn frame_len(&self) -> (r: usize)
        requires
            self.wf(),
        ensures
            r == self.len(),
    {
        (self.end - self.first + 1) * STEPS_PER_OCTAVE
    }

    /// The number of analyzers.
    pub fn analyzer_count(&self) -> (r: usize)
        requires
            self.wf(),
        ensures
            r == self.count(),
    {
        self.end - self.first
    }

    /// Merges the results of one cycle, one slot per analyzer, into a frame,
    /// and keeps each fresh result for the cycles where that analyzer has
    /// none.
    pub fn merge(&mut self, results: Vec<Option<Vec<T>>>) -> (r: Vec<T>)
        requires
            old(self).wf(),
            results@.len() == old(self).count(),
            forall|i: int|
                0 <= i < results@.len() && (#[trigger] results@[i]).is_some() ==> results@[i].unwrap()@.len()
                    == old(self).len(),
        ensures
            final(self).wf(),
            final(self).first() == old(self).first(),
            final(self).end() == old(self).end(),
            final(self).zero() == old(self).zero(),
            final(self).cache() == updated(old(self).cache(), opts_view(results@)),
            r@ == frame_of(
                old(self).cache(),
                opts_view(results@),
                old(self).zero(),
                old(self).first(),
                old(self).end(),
            ),
    {
        let ghost old_cache = self.cache();
        let ghost res = opts_view(results@);
        let ghost first = self.first as nat;
        let ghost end = self.end as nat;
        let ghost n = frame_len(first, end);
        let ghost zero = self.zero;
        let ghost contribs = contributions(old_cache, res, self.zero, n);
        let len = (self.end - self.first + 1) * STEPS_PER_OCTAVE;
        let mut out = filled(self.zero, len);
        let mut results = results;
        proof {
            assert forall|j: nat| j < n implies first <= #[trigger] owner(j, end) < end by {
                lemma_owner_range(first, end, j);
            }
        }
        while results.len() > 0
            invariant
                valid_range(first, end),
                first == self.first,
                end == self.end,
                zero == self.zero,
                n == frame_len(first, end),
                len == n,
                out@.len() == n,
                results@.len() <= end - first,
                self.cache@.len() == end - first,
                old_cache.len() == end - first,
                res.len() == end - first,
                contribs == contributions(old_cache, res, self.zero, n),
                forall|t: int| 0 <= t < results@.len() ==> opt_view(#[trigger] results@[t]) == res[t],
                forall|t: int|
                    0 <= t < res.len() && (#[trigger] res[t]).is_some() ==> res[t].unwrap().len() == n,
                forall|t: int|
                    0 <= t < old_cache.len() && (#[trigger] old_cache[t]).is_some() ==> old_cache[t].unwrap().len()
                        == n,
                forall|t: int| 0 <= t < results@.len() ==> #[trigger] self.cache()[t] == old_cache[t],
                forall|t: int|
                    results@.len() <= t < end - first ==> #[trigger] self.cache()[t] == updated(
                        old_cache,
                        res,
                    )[t],
                forall|j: nat| j < n ==> first <= #[trigger] owner(j, end) < end,
                forall|j: int|
                    0 <= j < n ==> #[trigger] out@[j] == if owner(j as nat, end) - first >= results@.len() {
                        contribs[owner(j as nat, end) - first][j]
                    } else {
                        self.zero
                    },
            decreases results@.len(),
        {
            let slot = results.pop().unwrap();
            let i = results.len();
            let ghost k = (first + i) as nat;
            let (lo, hi) = band_bounds(self.first + i, self.end);
            proof {
                assert forall|j: nat| j < n implies (lo <= j < hi) == (owner(j, end) == k) by {
                    lemma_in_band(first, end, k, j);
                }
                assert(hi <= n);
            }
            let ghost out_before = out@;
            let ghost ci = contribs[i as int];
            let ghost cache_before = self.cache@;
            let ghost view_before = self.cache();
            match slot {
                Some(v) => {
                    assert(res[i as int] == Some(v@));
                    copy_band(&mut out, &v, lo, hi);
                    self.cache.set(i, Some(v));
                    assert(self.cache@ == cache_before.update(i as int, Some(v)));
                },
                None => {
                    assert(res[i as int].is_none());
                    assert(self.cache()[i as int] == opt_view(self.cache@[i as int]));
                    match &self.cache[i] {
                        Some(c) => {
                            assert(old_cache[i as int] == Some(c@));
                            copy_band(&mut out, c, lo, hi);
                        },
                        None => {
                            assert(old_cache[i as int].is_none());
                            assert forall|j: int| lo <= j < hi implies out@[j] == ci[j] by {
                                assert(owner(j as nat, end) == k);
                            }
                        },
                    }
                },
            }
            assert(forall|j: int| lo <= j < hi ==> out@[j] == ci[j]);
            proof {
                assert forall|t: int| 0 <= t < end - first && t != i implies #[trigger] self.cache()[t]
                    == view_before[t] by {
                    assert(self.cache@[t] == cache_before[t]);
                }
                assert(self.cache()[i as int] == updated(old_cache, res)[i as int]);
            }
            assert(forall|j: int| 0 <= j < n && !(lo <= j < hi) ==> out@[j] == out_before[j]);
            proof {
                assert forall|j: int| 0 <= j < n implies #[trigger] out@[j] == if owner(j as nat, end) - first
                    >= results@.len() {
                    contribs[owner(j as nat, end) - first][j]
                } else {
                    self.zero
                } by {
                    if owner(j as nat, end) == k {
                        assert(lo <= j < hi);
                    } else {
                        assert(!(lo <= j < hi));
                        assert(out@[j] == out_before[j]);
                    }
                }
            }
        }
        assert(out@ =~= frame_of(old_cache, res, self.zero, first, end));
        assert(self.cache() =~= updated(old_cache, res));
        out
    }
}

/// Overwrites positions `lo .. hi` of `out` with those of `src`.
fn copy_band<T: Copy>(out: &mut Vec<T>, src: &Vec<T>, lo: usize, hi: usize)
    requires
        lo <= hi <= old(out)@.len(),
        hi <= src@.len(),
    ensures
        final(out)@.len() == old(out)@.len(),
        forall|j: int| lo <= j < hi ==> #[trigger] final(out)@[j] == src@[j],
        forall|j: int| 0 <= j < old(out)@.len() && !(lo <= j < hi) ==> #[trigger] final(out)@[j] == old(out)@[j],
{
    let ghost before = out@;
    let mut j = lo;
    while j < hi
        invariant
            lo <= j <= hi,
            hi <= src@.len(),
            out@.len() == before.len(),
            hi <= before.len(),
            forall|t: int| lo <= t < j ==> #[trigger] out@[t] == src@[t],
            forall|t: int| 0 <= t < before.len() && !(lo <= t < j) ==> #[trigger] out@[t] == before[t],
        decreases hi - j,
    {
        out.set(j, src[j]);
        j = j + 1;
    }
}

} // verus!
