//! Window bookkeeping of the simple moving average.
//!
//! The average keeps at most `capacity` samples, oldest first; a new sample
//! pushes out the oldest one once the window is full. The running sum and
//! mean are real-valued and kept by the caller, which subtracts the sample
//! pushed out and adds the new one.

use vstd::prelude::*;

verus! {

/// Append `x` to a window that keeps at most `capacity` samples, oldest
/// first, and return the sample it pushed out, if any: the oldest one,
/// exactly when the window holds `capacity` samples.
///
/// A window that already holds more than `capacity` samples (its fields are
/// public) just grows. An empty window of capacity zero has no oldest sample
/// to push out and is not accepted.
pub fn slide_window<T>(window: &mut Vec<T>, capacity: usize, x: T) -> (evicted: Option<T>)
    requires
        capacity > 0 || old(window)@.len() > 0,
    ensures
        old(window)@.len() == capacity ==> {
            &&& evicted == Some(old(window)@[0])
            &&& final(window)@ == old(window)@.drop_first().push(x)
        },
        old(window)@.len() != capacity ==> {
            &&& evicted is None
            &&& final(window)@ == old(window)@.push(x)
        },
        old(window)@.len() <= capacity ==> final(window)@.len() <= capacity,
{
    let evicted = if window.len() == capacity {
        Some(window.remove(0))
    } else {
        None
    };
    window.push(x);
    evicted
}

} // verus!
