//! Laying a frame out along a strip of lights: the frame is repeated until
//! the strip is covered.

use vstd::arithmetic::div_mod::{lemma_mod_multiples_basic, lemma_mod_multiples_vanish, lemma_small_mod};
use vstd::prelude::*;

verus! {

/// Copies of `frame`, one after another, until at least `count` values are
/// there: the result is the shortest whole number of copies that covers
/// `count`.
pub fn repeat_to_length<T: Copy>(frame: &[T], count: usize) -> (r: Vec<T>)
    requires
        frame@.len() > 0,
        count + frame@.len() <= usize::MAX,
    ensures
        count <= r@.len() < count + frame@.len(),
        r@.len() % frame@.len() == 0,
        forall|i: int| 0 <= i < r@.len() ==> #[trigger] r@[i] == frame@[i % frame@.len() as int],
{
    let n = frame.len();
    let mut r: Vec<T> = Vec::new();
    let ghost mut reps: int = 0;
    while r.len() < count
        invariant
            n == frame@.len(),
            n > 0,
            count + n <= usize::MAX,
            r@.len() < count + n,
            reps >= 0,
            r@.len() == reps * n,
            forall|i: int| 0 <= i < r@.len() ==> #[trigger] r@[i] == frame@[i % n as int],
        decreases count + n - r@.len(),
    {
        let mut j: usize = 0;
        while j < n
            invariant
                n == frame@.len(),
                reps * n < count,
                count + n <= usize::MAX,
                reps >= 0,
                j <= n,
                r@.len() == reps * n + j,
                forall|i: int| 0 <= i < r@.len() ==> #[trigger] r@[i] == frame@[i % n as int],
            decreases n - j,
        {
            proof {
                lemma_mod_multiples_vanish(reps, j as int, n as int);
                lemma_small_mod(j as nat, n as nat);
                assert((n * reps + j) % (n as int) == j);
                assert(n * reps == reps * n) by (nonlinear_arith);
            }
            r.push(frame[j]);
            j = j + 1;
        }
        proof {
            reps = reps + 1;
            assert(reps * n == (reps - 1) * n + n) by (nonlinear_arith);
        }
    }
    proof {
        lemma_mod_multiples_basic(reps, n as int);
    }
    r
}

} // verus!
