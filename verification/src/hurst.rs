//! Window plan of the rescaled-range (R/S) Hurst estimate.
//!
//! The estimate regresses `ln(R/S)` on `ln(tau)` over logarithmically spaced
//! window sizes `tau`. Sizes start at 8 and grow by a factor 1.4, rounded
//! up, while they do not exceed half the series, with at most 30 of them.
//! For each size the series is cut into consecutive non-overlapping chunks
//! of that size, starting at index 0 (a shorter tail is left out).
//!
//! The R/S statistics and the regression itself are real-valued and are
//! computed by the caller over this plan.

use vstd::prelude::*;

verus! {

/// The `k`-th window size: 8, then `ceil(1.4 * previous)`, that is
/// `ceil(7 * previous / 5)`.
pub open spec fn tau_at(k: nat) -> nat
    decreases k,
{
    if k == 0 {
        8
    } else {
        (7 * tau_at((k - 1) as nat) + 4) / 5
    }
}

/// Window sizes are at least 8 and strictly increasing.
pub proof fn lemma_tau_increasing(k: nat)
    ensures
        tau_at(k) >= 8,
        tau_at(k + 1) > tau_at(k),
    decreases k,
{
    if k > 0 {
        lemma_tau_increasing((k - 1) as nat);
    }
}

/// Growth law: the first window size is 8 and each next size is 1.4 times
/// the previous one rounded up: the least integer `t` with `5 t >= 7 p`.
pub proof fn lemma_tau_growth(k: nat)
    ensures
        tau_at(0) == 8,
        5 * tau_at(k + 1) >= 7 * tau_at(k),
        5 * tau_at(k + 1) < 7 * tau_at(k) + 5,
{
}

/// The window sizes used for a series of `n` samples: `tau_at(0)`,
/// `tau_at(1)`, ... as long as they are at most `n / 2`, and no more than 30.
///
/// `ceil(tau * 1.4)` taken in binary64 arithmetic equals the exact
/// `ceil(7 * tau / 5)` for every size that can occur here, so the sizes are
/// computed in integers.
pub fn tau_schedule(n: usize) -> (r: Vec<usize>)
    ensures
        r@.len() <= 30,
        forall|k: int| 0 <= k < r@.len() ==> r@[k] == tau_at(k as nat) && r@[k] <= n / 2,
        r@.len() == 30 || tau_at(r@.len()) > n / 2,
{
    let mut taus: Vec<usize> = Vec::new();
    let mut cur: usize = 8;
    while cur <= n / 2 && taus.len() < 30
        invariant
            taus@.len() <= 30,
            cur == tau_at(taus@.len()),
            forall|k: int| 0 <= k < taus@.len() ==> taus@[k] == tau_at(k as nat) && taus@[k] <= n / 2,
        decreases 30 - taus@.len(),
    {
        taus.push(cur);
        let next: u128 = ((cur as u128) * 7 + 4) / 5;
        assert(next <= 2 * cur);
        cur = next as usize;
    }
    taus
}

/// Start indices of the consecutive chunks of size `tau` in a series of `n`
/// samples: `0, tau, 2 * tau, ...` while the chunk fits, `n / tau` of them.
pub fn chunk_starts(n: usize, tau: usize) -> (r: Vec<usize>)
    requires
        0 < tau <= n,
    ensures
        r@.len() == n / tau,
        forall|k: int| 0 <= k < r@.len() ==> #[trigger] r@[k] == k * tau && r@[k] + tau <= n,
{
    let mut starts: Vec<usize> = Vec::new();
    let mut i: usize = 0;
    assert(starts@.len() * tau == 0) by (nonlinear_arith)
        requires
            starts@.len() == 0,
    ;
    while i <= n - tau
        invariant
            0 < tau <= n,
            i == starts@.len() * tau,
            i <= n,
            forall|k: int| 0 <= k < starts@.len() ==> #[trigger] starts@[k] == k * tau && starts@[k] + tau <= n,
        decreases n - i,
    {
        starts.push(i);
        proof {
            let len = starts@.len() as int;
            assert(len * tau == (len - 1) * tau + tau) by (nonlinear_arith);
        }
        i = i + tau;
    }
    proof {
        let len = starts@.len() as int;
        let t = tau as int;
        let m = n as int;
        assert(len * t <= m && m < len * t + t);
        assert(len == m / t) by (nonlinear_arith)
            requires
                len * t <= m,
                m < len * t + t,
                t > 0,
                len >= 0,
        ;
    }
    starts
}

} // verus!
