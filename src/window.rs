//! Fixed-length sample windows that take in new samples at one end and let
//! the oldest fall out at the other.

use vstd::prelude::*;

verus! {

/// The number of samples of a chunk that a window of `len` takes in.
pub open spec fn taken(chunk_len: nat, len: nat) -> nat {
    if chunk_len < len {
        chunk_len
    } else {
        len
    }
}

/// A window after the newest samples of `chunk` were placed at its front:
/// the last `taken` samples of the chunk, in their order, then the window as
/// it was, less as many samples at its back.
pub open spec fn newest_first<T>(window: Seq<T>, chunk: Seq<T>) -> Seq<T> {
    let k = taken(chunk.len(), window.len());
    chunk.subrange(chunk.len() - k, chunk.len() as int) + window.subrange(0, window.len() - k)
}

/// A window after each of `chunks` was placed at its front in turn.
pub open spec fn after_chunks<T>(window: Seq<T>, chunks: Seq<Seq<T>>) -> Seq<T>
    decreases chunks.len(),
{
    if chunks.len() == 0 {
        window
    } else {
        newest_first(after_chunks(window, chunks.drop_last()), chunks.last())
    }
}

/// Whatever chunks arrive, and however long each is, a window keeps its
/// length.
pub proof fn lemma_window_keeps_length<T>(window: Seq<T>, chunks: Seq<Seq<T>>)
    ensures
        after_chunks(window, chunks).len() == window.len(),
    decreases chunks.len(),
{
    if chunks.len() > 0 {
        lemma_window_keeps_length(window, chunks.drop_last());
    }
}

/// A window after `chunk` was appended at its back and as many samples left
/// its front.
pub open spec fn newest_last<T>(window: Seq<T>, chunk: Seq<T>) -> Seq<T> {
    window.subrange(chunk.len() as int, window.len() as int) + chunk
}

/// A window after `x` was placed at its front and its last value dropped.
pub open spec fn pushed_front<T>(window: Seq<T>, x: T) -> Seq<T> {
    seq![x] + window.subrange(0, window.len() - 1)
}

/// Rotates the window right by the number of samples taken from `chunk` and
/// writes the newest samples of `chunk` over its front. Samples of a chunk
/// longer than the window that do not fit are its oldest, and are dropped.
pub fn insert_newest<T: Copy>(window: &mut Vec<T>, chunk: &[T])
    ensures
        final(window)@ == newest_first(old(window)@, chunk@),
        final(window)@.len() == old(window)@.len(),
{
    let ghost before = window@;
    let n = window.len();
    let c = chunk.len();
    let k: usize = if c < n {
        c
    } else {
        n
    };
    let mut i: usize = n;
    while i > k
        invariant
            k <= i <= n,
            k <= c,
            n == before.len(),
            window@.len() == n,
            forall|j: int| i <= j < n ==> window@[j] == before[j - k],
            forall|j: int| 0 <= j < i ==> window@[j] == before[j],
        decreases i,
    {
        i = i - 1;
        let v = window[i - k];
        window.set(i, v);
    }
    let mut j: usize = 0;
    while j < k
        invariant
            j <= k,
            k <= c,
            k <= n,
            c == chunk@.len(),
            n == before.len(),
            window@.len() == n,
            forall|t: int| k <= t < n ==> window@[t] == before[t - k],
            forall|t: int| 0 <= t < j ==> window@[t] == chunk@[c - k + t],
        decreases k - j,
    {
        let v = chunk[c - k + j];
        window.set(j, v);
        j = j + 1;
    }
    assert(window@ =~= newest_first(before, chunk@));
}

/// Rotates the window left by the length of `chunk` and writes `chunk` over
/// its back.
pub fn insert_back<T: Copy>(window: &mut Vec<T>, chunk: &[T])
    requires
        chunk@.len() <= old(window)@.len(),
    ensures
        final(window)@ == newest_last(old(window)@, chunk@),
        final(window)@.len() == old(window)@.len(),
{
    let ghost before = window@;
    let n = window.len();
    let c = chunk.len();
    let mut i: usize = 0;
    while i < n - c
        invariant
            i <= n - c,
            c <= n,
            n == before.len(),
            window@.len() == n,
            forall|j: int| 0 <= j < i ==> window@[j] == before[j + c],
            forall|j: int| i <= j < n ==> window@[j] == before[j],
        decreases n - c - i,
    {
        let v = window[i + c];
        window.set(i, v);
        i = i + 1;
    }
    let mut j: usize = 0;
    while j < c
        invariant
            j <= c,
            c <= n,
            c == chunk@.len(),
            n == before.len(),
            window@.len() == n,
            forall|t: int| 0 <= t < n - c ==> window@[t] == before[t + c],
            forall|t: int| 0 <= t < j ==> window@[n - c + t] == chunk@[t],
        decreases c - j,
    {
        let v = chunk[j];
        window.set(n - c + j, v);
        j = j + 1;
    }
    assert(window@ =~= newest_last(before, chunk@));
}

/// Rotates the window right by one and writes `x` over its front.
pub fn push_front<T: Copy>(window: &mut Vec<T>, x: T)
    requires
        old(window)@.len() > 0,
    ensures
        final(window)@ == pushed_front(old(window)@, x),
        final(window)@.len() == old(window)@.len(),
{
    let ghost before = window@;
    let n = window.len();
    let mut i: usize = n - 1;
    while i > 0
        invariant
            i < n,
            n == before.len(),
            window@.len() == n,
            forall|j: int| i < j < n ==> window@[j] == before[j - 1],
            forall|j: int| 0 <= j <= i ==> window@[j] == before[j],
        decreases i,
    {
        let v = window[i - 1];
        window.set(i, v);
        i = i - 1;
    }
    window.set(0, x);
    assert(window@ =~= pushed_front(before, x));
}

/// A copy of the window's samples.
pub fn snapshot<T: Copy>(window: &Vec<T>) -> (r: Vec<T>)
    ensures
        r@ == window@,
{
    let mut r: Vec<T> = Vec::with_capacity(window.len());
    let mut i: usize = 0;
    while i < window.len()
        invariant
            i <= window@.len(),
            r@ == window@.subrange(0, i as int),
        decreases window@.len() - i,
    {
        r.push(window[i]);
        i = i + 1;
        assert(r@ =~= window@.subrange(0, i as int));
    }
    assert(window@.subrange(0, i as int) =~= window@);
    r
}

/// A window of `len` copies of `fill`.
pub fn filled<T: Copy>(fill: T, len: usize) -> (r: Vec<T>)
    ensures
        r@ == Seq::new(len as nat, |_i: int| fill),
{
    let mut r: Vec<T> = Vec::with_capacity(len);
    let mut i: usize = 0;
    while i < len
        invariant
            i <= len,
            r@ == Seq::new(i as nat, |_i: int| fill),
        decreases len - i,
    {
        r.push(fill);
        i = i + 1;
        assert(r@ =~= Seq::new(i as nat, |_i: int| fill));
    }
    r
}

} // verus!
