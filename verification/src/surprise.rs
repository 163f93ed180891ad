//! Sizing and pairing of surprise sequences.

use vstd::prelude::*;

verus! {

/// Number of consecutive transitions (and so of output slots) in a surprise
/// sequence of `n` samples: `n - 1`, or `0` for empty and single-sample input.
pub fn surprise_sequence_len(n: usize) -> (r: usize)
    ensures
        r == (if n == 0 { 0 } else { n - 1 }),
{
    n.saturating_sub(1)
}

/// Score every consecutive transition of `values` into the caller-owned
/// buffer `out`: after the call `out` holds exactly
/// [`surprise_sequence_len`]`(values.len())` results, slot `i` being
/// `score(values[i], values[i + 1])` (previous sample first).
///
/// Earlier contents of `out` are discarded; its capacity is kept, so a
/// buffer that is already large enough is not reallocated.
pub fn fill_transitions<T: Copy, R, F: Fn(T, T) -> R>(values: &[T], out: &mut Vec<R>, score: F)
    requires
        forall|a: T, b: T| #[trigger] score.requires((a, b)),
    ensures
        final(out)@.len() == (if values@.len() == 0 { 0 } else { values@.len() - 1 }),
        forall|i: int|
            0 <= i < final(out)@.len() ==> score.ensures(
                (values@[i], values@[i + 1]),
                #[trigger] final(out)@[i],
            ),
{
    let n = surprise_sequence_len(values.len());
    out.clear();
    for i in 0..n
        invariant
            n == (if values@.len() == 0 { 0 } else { values@.len() - 1 }),
            forall|a: T, b: T| #[trigger] score.requires((a, b)),
            out@.len() == i,
            forall|j: int|
                0 <= j < i ==> score.ensures((values@[j], values@[j + 1]), #[trigger] out@[j]),
    {
        let r = score(values[i], values[i + 1]);
        out.push(r);
    }
}

} // verus!
