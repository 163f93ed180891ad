//! Histogram counting for histogram-discretized Shannon entropy.
//!
//! Each sample is assigned a raw bin index by a caller-supplied classifier
//! (from the observed min-max range); indices at or past the last bin go to
//! the last bin. The histogram buffer is caller-owned and reused across windows: it is
//! cleared, sized to `bins`, zeroed and then filled with occupancy counts.
//! The entropy itself, `-sum p_i ln p_i`, is computed by the caller from
//! the counts.

use vstd::prelude::*;

verus! {

/// The bin a raw index falls in: the index itself, or the last bin when it
/// is past the end.
pub open spec fn clamp_bin(raw: usize, bins: nat) -> nat {
    if (raw as nat) < bins {
        raw as nat
    } else {
        (bins - 1) as nat
    }
}

/// Number of raw indices in `raw` that fall in bin `b`.
pub open spec fn bin_count(raw: Seq<usize>, bins: nat, b: nat) -> nat
    decreases raw.len(),
{
    if raw.len() == 0 {
        0
    } else {
        bin_count(raw.drop_last(), bins, b) + (if clamp_bin(raw.last(), bins) == b {
            1nat
        } else {
            0nat
        })
    }
}

/// The histogram of `raw` over `bins` bins.
pub open spec fn histogram_of(raw: Seq<usize>, bins: nat) -> Seq<nat> {
    Seq::new(bins, |b: int| bin_count(raw, bins, b as nat))
}

/// Number of non-empty bins.
pub open spec fn occupied_bins(h: Seq<nat>) -> nat
    decreases h.len(),
{
    if h.len() == 0 {
        0
    } else {
        occupied_bins(h.drop_last()) + (if h.last() > 0 {
            1nat
        } else {
            0nat
        })
    }
}

/// Sum of the counts.
pub open spec fn total(h: Seq<nat>) -> nat
    decreases h.len(),
{
    if h.len() == 0 {
        0
    } else {
        total(h.drop_last()) + h.last()
    }
}

proof fn lemma_bin_count_bound(raw: Seq<usize>, bins: nat, b: nat)
    ensures
        bin_count(raw, bins, b) <= raw.len(),
    decreases raw.len(),
{
    if raw.len() > 0 {
        lemma_bin_count_bound(raw.drop_last(), bins, b);
    }
}

/// Whether an entropy input is degenerate, that is, has fewer than two
/// samples, no bins, or a non-finite sample (`all_finite` is false); the
/// histogram buffer is cleared in that case (its capacity is kept) and left
/// as it is otherwise. A degenerate input has entropy zero and no occupied
/// bin.
pub fn clear_if_degenerate(
    n: usize,
    bins: usize,
    all_finite: bool,
    histogram: &mut Vec<usize>,
) -> (degenerate: bool)
    ensures
        degenerate == (n < 2 || bins == 0 || !all_finite),
        degenerate ==> final(histogram)@.len() == 0,
        !degenerate ==> final(histogram)@ == old(histogram)@,
{
    if n < 2 || bins == 0 || !all_finite {
        histogram.clear();
        true
    } else {
        false
    }
}

/// Fill `histogram` with the occupancy counts of `data` over `bins` bins,
/// each sample going to the raw bin index `bin_of` gives it (clamped to the
/// last bin), and return the number of non-empty bins.
///
/// The buffer is cleared and then grown to exactly `bins` entries, so its
/// previous contents never leak into the result; its capacity is kept, and
/// nothing is allocated when it already holds `bins` entries' worth.
pub fn fill_histogram<T: Copy, F: Fn(T) -> usize>(
    data: &[T],
    bins: usize,
    histogram: &mut Vec<usize>,
    bin_of: F,
) -> (occupied: usize)
    requires
        bins > 0,
        forall|x: T| #[trigger] bin_of.requires((x,)),
    ensures
        exists|raw: Seq<usize>|
            {
                &&& raw.len() == data@.len()
                &&& forall|i: int|
                    0 <= i < data@.len() ==> bin_of.ensures((data@[i],), #[trigger] raw[i])
                &&& final(histogram)@.len() == bins
                &&& forall|b: int|
                    0 <= b < bins ==> #[trigger] final(histogram)@[b] == histogram_of(
                        raw,
                        bins as nat,
                    )[b]
                &&& occupied == occupied_bins(histogram_of(raw, bins as nat))
            },
{
    histogram.clear();
    while histogram.len() < bins
        invariant
            histogram@.len() <= bins,
            forall|b: int| 0 <= b < histogram@.len() ==> #[trigger] histogram@[b] == 0usize,
        decreases bins - histogram@.len(),
    {
        histogram.push(0usize);
    }
    let ghost mut raw: Seq<usize> = Seq::empty();
    let n = data.len();
    for i in 0..n
        invariant
            bins > 0,
            n == data@.len(),
            forall|x: T| #[trigger] bin_of.requires((x,)),
            raw.len() == i,
            forall|k: int| 0 <= k < i ==> bin_of.ensures((data@[k],), #[trigger] raw[k]),
            histogram@.len() == bins,
            forall|b: int|
                0 <= b < bins ==> #[trigger] histogram@[b] == bin_count(raw, bins as nat, b as nat),
    {
        let r = bin_of(data[i]);
        let b = if r < bins {
            r
        } else {
            bins - 1
        };
        proof {
            let pre = raw;
            raw = raw.push(r);
            assert(raw.drop_last() =~= pre);
            lemma_bin_count_bound(pre, bins as nat, b as nat);
        }
        let c = histogram[b];
        histogram.set(b, c + 1);
    }
    let ghost h = histogram_of(raw, bins as nat);
    let mut occupied: usize = 0;
    for j in 0..bins
        invariant
            histogram@.len() == bins,
            h == histogram_of(raw, bins as nat),
            forall|b: int| 0 <= b < bins ==> #[trigger] histogram@[b] == h[b],
            occupied <= j,
            occupied == occupied_bins(h.subrange(0, j as int)),
    {
        proof {
            assert(h.subrange(0, j + 1).drop_last() =~= h.subrange(0, j as int));
        }
        if histogram[j] > 0 {
            occupied = occupied + 1;
        }
    }
    assert(h.subrange(0, bins as int) =~= h);
    occupied
}

/// Counts of one more sample: the histogram gains exactly one count, in the
/// bin the sample falls in.
proof fn lemma_histogram_push(raw: Seq<usize>, bins: nat, x: usize)
    requires
        bins > 0,
    ensures
        histogram_of(raw.push(x), bins) == histogram_of(raw, bins).update(
            clamp_bin(x, bins) as int,
            histogram_of(raw, bins)[clamp_bin(x, bins) as int] + 1,
        ),
{
    assert(raw.push(x).drop_last() =~= raw);
    assert(histogram_of(raw.push(x), bins) =~= histogram_of(raw, bins).update(
        clamp_bin(x, bins) as int,
        histogram_of(raw, bins)[clamp_bin(x, bins) as int] + 1,
    ));
}

proof fn lemma_total_increment(h: Seq<nat>, j: int)
    requires
        0 <= j < h.len(),
    ensures
        total(h.update(j, h[j] + 1)) == total(h) + 1,
    decreases h.len(),
{
    let u = h.update(j, h[j] + 1);
    if j == h.len() - 1 {
        assert(u.drop_last() =~= h.drop_last());
    } else {
        lemma_total_increment(h.drop_last(), j);
        assert(u.drop_last() =~= h.drop_last().update(j, h[j] + 1));
    }
}

proof fn lemma_total_zero(bins: nat)
    ensures
        total(Seq::new(bins, |b: int| 0nat)) == 0,
    decreases bins,
{
    if bins > 0 {
        lemma_total_zero((bins - 1) as nat);
        assert(Seq::new(bins, |b: int| 0nat).drop_last() =~= Seq::new(
            (bins - 1) as nat,
            |b: int| 0nat,
        ));
    }
}

/// Conservation law: the counts of the histogram add up to the number of
/// samples; every sample lands in exactly one bin.
pub proof fn lemma_histogram_total(raw: Seq<usize>, bins: nat)
    requires
        bins > 0,
    ensures
        total(histogram_of(raw, bins)) == raw.len(),
    decreases raw.len(),
{
    if raw.len() == 0 {
        lemma_total_zero(bins);
        assert(histogram_of(raw, bins) =~= Seq::new(bins, |b: int| 0nat));
    } else {
        let ys = raw.drop_last();
        let x = raw.last();
        lemma_histogram_total(ys, bins);
        assert(raw =~= ys.push(x));
        lemma_histogram_push(ys, bins, x);
        lemma_total_increment(histogram_of(ys, bins), clamp_bin(x, bins) as int);
    }
}

proof fn lemma_occupied_le(h: Seq<nat>)
    ensures
        occupied_bins(h) <= total(h),
        occupied_bins(h) <= h.len(),
    decreases h.len(),
{
    if h.len() > 0 {
        lemma_occupied_le(h.drop_last());
    }
}

/// The number of non-empty bins is at most the number of bins and at most
/// the number of samples.
pub proof fn lemma_occupied_bound(raw: Seq<usize>, bins: nat)
    requires
        bins > 0,
    ensures
        occupied_bins(histogram_of(raw, bins)) <= bins,
        occupied_bins(histogram_of(raw, bins)) <= raw.len(),
{
    lemma_occupied_le(histogram_of(raw, bins));
    lemma_histogram_total(raw, bins);
}


/// Binning law: every bin but the last counts exactly the samples whose raw
/// index is that bin, and the last bin counts exactly the samples whose raw
/// index is at or past it.
pub proof fn lemma_histogram_counts(raw: Seq<usize>, bins: nat)
    requires
        bins > 0,
    ensures
        forall|b: nat|
            b + 1 < bins ==> #[trigger] histogram_of(raw, bins)[b as int] == raw.filter(
                |x: usize| x as nat == b,
            ).len(),
        histogram_of(raw, bins)[bins - 1] == raw.filter(|x: usize| x as nat >= bins - 1).len(),
    decreases raw.len(),
{
    if raw.len() == 0 {
        reveal(Seq::filter);
        assert forall|b: nat| b + 1 < bins implies #[trigger] histogram_of(raw, bins)[b as int]
            == raw.filter(|x: usize| x as nat == b).len() by {
            reveal(Seq::filter);
        }
    } else {
        let ys = raw.drop_last();
        let x = raw.last();
        lemma_histogram_counts(ys, bins);
        assert(raw =~= ys.push(x));
        assert forall|b: nat| b + 1 < bins implies #[trigger] histogram_of(raw, bins)[b as int]
            == raw.filter(|x: usize| x as nat == b).len() by {
            ys.lemma_filter_push(x, |x: usize| x as nat == b);
            assert(histogram_of(ys, bins)[b as int] == ys.filter(|x: usize| x as nat == b).len());
        }
        ys.lemma_filter_push(x, |x: usize| x as nat >= bins - 1);
    }
}

/// The number of occupied bins is the number of bins with a positive count.
pub proof fn lemma_occupied_counts_positive(h: Seq<nat>)
    ensures
        occupied_bins(h) == h.filter(|c: nat| c > 0).len(),
    decreases h.len(),
{
    if h.len() == 0 {
        reveal(Seq::filter);
    } else {
        lemma_occupied_counts_positive(h.drop_last());
        assert(h =~= h.drop_last().push(h.last()));
        h.drop_last().lemma_filter_push(h.last(), |c: nat| c > 0);
    }
}

} // verus!
