//! The frequency bins of a windowed transform: which of the candidate bin
//! indices lie in the meaningful half of a window, and picking the transform
//! output at those indices.

use vstd::prelude::*;

verus! {

/// Whether bin `v` lies in the lower half of a transform of `sample_count`
/// points, the half that holds the frequencies below the Nyquist limit.
pub open spec fn below_nyquist(v: usize, sample_count: usize) -> bool {
    v < sample_count / 2
}

/// The candidate bin indices that lie below the Nyquist limit, in their
/// order.
pub fn nyquist_bins(candidates: &Vec<usize>, sample_count: usize) -> (r: Vec<usize>)
    ensures
        r@ == candidates@.filter(|v: usize| below_nyquist(v, sample_count)),
        forall|i: int| 0 <= i < r@.len() ==> #[trigger] r@[i] < sample_count / 2,
{
    let ghost pred = |v: usize| below_nyquist(v, sample_count);
    let half = sample_count / 2;
    let mut r: Vec<usize> = Vec::new();
    let mut i: usize = 0;
    while i < candidates.len()
        invariant
            i <= candidates@.len(),
            half == sample_count / 2,
            pred == (|v: usize| below_nyquist(v, sample_count)),
            r@ == candidates@.subrange(0, i as int).filter(pred),
            forall|t: int| 0 <= t < r@.len() ==> #[trigger] r@[t] < half,
        decreases candidates@.len() - i,
    {
        let v = candidates[i];
        proof {
            let s = candidates@.subrange(0, i as int + 1);
            assert(s.drop_last() =~= candidates@.subrange(0, i as int));
            assert(s.last() == v);
            reveal(Seq::filter);
        }
        if v < half {
            r.push(v);
        }
        i = i + 1;
    }
    assert(candidates@.subrange(0, i as int) =~= candidates@);
    r
}

/// The values of `spectrum` at the given bin indices, in their order.
pub fn pick_bins<T: Copy>(spectrum: &[T], bins: &[usize]) -> (r: Vec<T>)
    requires
        forall|i: int| 0 <= i < bins@.len() ==> #[trigger] bins@[i] < spectrum@.len(),
    ensures
        r@ == bins@.map_values(|b: usize| spectrum@[b as int]),
{
    let mut r: Vec<T> = Vec::with_capacity(bins.len());
    let mut i: usize = 0;
    while i < bins.len()
        invariant
            i <= bins@.len(),
            forall|t: int| 0 <= t < bins@.len() ==> #[trigger] bins@[t] < spectrum@.len(),
            r@ == bins@.subrange(0, i as int).map_values(|b: usize| spectrum@[b as int]),
        decreases bins@.len() - i,
    {
        r.push(spectrum[bins[i]]);
        i = i + 1;
        assert(r@ =~= bins@.subrange(0, i as int).map_values(|b: usize| spectrum@[b as int]));
    }
    assert(bins@.subrange(0, i as int) =~= bins@);
    r
}

} // verus!
