//! Rolling RMS volatility window: a fixed-size ring of binary32 samples.
//!
//! The estimator stores absolute log-returns (as binary32 bit patterns) in a
//! circular buffer. Non-finite samples are ignored. The RMS itself,
//! `sqrt(mean(r^2))` clamped to `[0, 1]`, is computed by the caller over
//! the occupied slots ([`VolEstimator::sample_at`]), in storage order.

use vstd::prelude::*;
use crate::ieee754::{
    all_single_finite, is_finite_single, lemma_single_finite_exactly, single_is_finite,
};
use crate::snapshot::{SNAPSHOT_SCHEMA_VERSION, SnapshotError, VolEstimatorSnapshot};

verus! {

/// The samples of a ring, oldest first: when the ring has wrapped, the slots
/// from the write head to the end and then those before it; otherwise the
/// slots before the write head.
pub open spec fn ring_window(slots: Seq<u32>, head: nat, wrapped: bool) -> Seq<u32> {
    if wrapped {
        slots.subrange(head as int, slots.len() as int) + slots.subrange(0, head as int)
    } else {
        slots.subrange(0, head as int)
    }
}

/// One step of a rolling window of capacity `cap`: a finite sample is
/// appended, dropping the oldest one when the window is full; a non-finite
/// sample is ignored.
pub open spec fn window_step(w: Seq<u32>, cap: nat, x: u32) -> Seq<u32> {
    if !single_is_finite(x) {
        w
    } else if w.len() >= cap {
        w.drop_first().push(x)
    } else {
        w.push(x)
    }
}

/// The window after pushing every sample of `xs`, in order, into an empty
/// window of capacity `cap`.
pub open spec fn window_after(cap: nat, xs: Seq<u32>) -> Seq<u32>
    decreases xs.len(),
{
    if xs.len() == 0 {
        Seq::empty()
    } else {
        window_step(window_after(cap, xs.drop_last()), cap, xs.last())
    }
}

/// The last `k` elements of `s` (all of `s` when it is shorter).
pub open spec fn keep_last(s: Seq<u32>, k: nat) -> Seq<u32> {
    if s.len() <= k {
        s
    } else {
        s.subrange(s.len() - k, s.len() as int)
    }
}

/// Most slots a ring can have: a `Vec<u32>` holds at most `isize::MAX`
/// bytes.
pub open spec fn max_ring_slots() -> nat {
    (isize::MAX as nat) / 4
}

/// The ring (slots, write head, wrap flag) a snapshot describes, or why it
/// describes none.
///
/// After validation: a snapshot holding all `capacity` slots is the physical
/// ring, whose write head must lie inside it; a shorter one is the occupied
/// slots, oldest first, followed by empty (zero) slots up to `capacity`,
/// with the write head after the newest sample and no wrap, provided a ring
/// of that capacity can exist.
///
/// A physical ring whose write head is not inside it is refused as
/// `InconsistentState`: the next push would write to a slot the ring does
/// not have, and every estimator keeps its write head inside its ring.
pub open spec fn restoration(s: VolEstimatorSnapshot) -> Result<(Seq<u32>, nat, bool), SnapshotError> {
    match s.validation() {
        Err(e) => Err(e),
        Ok(()) => if s.samples@.len() == s.capacity {
            if s.pos >= s.capacity {
                Err(SnapshotError::InconsistentState)
            } else {
                Ok((s.samples@, s.pos as nat, s.full))
            }
        } else if s.capacity > max_ring_slots() {
            Err(SnapshotError::InvalidLength)
        } else {
            Ok(
                (
                    s.samples@ + Seq::new((s.capacity - s.samples@.len()) as nat, |k: int| 0u32),
                    s.samples@.len(),
                    false,
                ),
            )
        },
    }
}

/// Rolling RMS volatility estimator over a fixed window of binary32 samples.
#[derive(Debug)]
pub struct VolEstimator {
    buf: Vec<u32>,
    pos: usize,
    full: bool,
}

impl View for VolEstimator {
    /// The physical slots, the write head and the wrap flag.
    type V = (Seq<u32>, nat, bool);

    closed spec fn view(&self) -> (Seq<u32>, nat, bool) {
        (self.buf@, self.pos as nat, self.full)
    }
}

impl Clone for VolEstimator {
    /// A copy with the same slots, write head and wrap flag.
    fn clone(&self) -> (r: Self)
        ensures
            r@ == self@,
    {
        proof {
            use_type_invariant(self);
        }
        VolEstimator { buf: self.copy_slots(), pos: self.pos, full: self.full }
    }
}

impl VolEstimator {
    /// Number of slots of the ring.
    pub open spec fn capacity(&self) -> nat {
        self@.0.len()
    }

    /// Well-formedness: a non-empty ring, a write head inside it, and only
    /// finite samples stored. Every estimator satisfies it (it is the type
    /// invariant).
    pub open spec fn wf(&self) -> bool {
        &&& self@.0.len() > 0
        &&& self@.1 < self@.0.len()
        &&& all_single_finite(self@.0)
    }

    #[verifier::type_invariant]
    spec fn inv(self) -> bool {
        self.wf()
    }

    /// The samples currently in the window, oldest first.
    pub open spec fn window(&self) -> Seq<u32> {
        ring_window(self@.0, self@.1, self@.2)
    }

    /// Number of occupied slots.
    pub open spec fn occupied(&self) -> nat {
        if self@.2 {
            self@.0.len()
        } else {
            self@.1
        }
    }

    /// Create an estimator whose window holds `capacity` samples.
    pub fn new(capacity: usize) -> (r: Self)
        requires
            capacity > 0,
        ensures
            r.wf(),
            r.capacity() == capacity,
            r@.0 == Seq::new(capacity as nat, |i: int| 0u32),
            r@.1 == 0,
            !r@.2,
            r.window() == Seq::<u32>::empty(),
    {
        let mut buf: Vec<u32> = Vec::new();
        assert(single_is_finite(0u32)) by (bit_vector);
        while buf.len() < capacity
            invariant
                buf.len() <= capacity,
                forall|i: int| 0 <= i < buf.len() ==> buf@[i] == 0u32,
                single_is_finite(0u32),
            decreases capacity - buf.len(),
        {
            buf.push(0u32);
        }
        let r = VolEstimator { buf, pos: 0, full: false };
        assert(r@.0 =~= Seq::new(capacity as nat, |i: int| 0u32));
        assert(r.window() =~= Seq::<u32>::empty());
        r
    }

    /// Push one absolute log-return (binary32 bit pattern) into the ring.
    ///
    /// A non-finite sample is ignored, so a NaN or infinite tick cannot
    /// poison the RMS.
    pub fn push(&mut self, abs_log_return: u32)
        ensures
            old(self).wf(),
            final(self).wf(),
            final(self).capacity() == old(self).capacity(),
            final(self).window() == window_step(
                old(self).window(),
                old(self).capacity(),
                abs_log_return,
            ),
            single_is_finite(abs_log_return) ==> {
                &&& final(self)@.0 == old(self)@.0.update(old(self)@.1 as int, abs_log_return)
                &&& final(self)@.1 == (if old(self)@.1 + 1 == old(self).capacity() {
                    0
                } else {
                    old(self)@.1 + 1
                })
                &&& final(self)@.2 == (old(self)@.2 || old(self)@.1 + 1 == old(self).capacity())
            },
            !single_is_finite(abs_log_return) ==> final(self)@ == old(self)@,
    {
        proof {
            use_type_invariant(&*self);
        }
        if !is_finite_single(abs_log_return) {
            return;
        }
        proof {
            lemma_push_window(self@.0, self@.1, self@.2, abs_log_return);
        }
        let p = self.pos;
        assert(all_single_finite(self.buf@.update(p as int, abs_log_return)));
        set_slot(&mut self.buf, p, abs_log_return);
        if p == self.buf.len() - 1 {
            self.pos = 0;
            self.full = true;
        } else {
            self.pos = p + 1;
        }
    }

    /// Number of samples currently in the window.
    pub fn len(&self) -> (r: usize)
        ensures
            self.wf(),
            r == self.occupied(),
            r == self.window().len(),
    {
        proof {
            use_type_invariant(self);
        }
        if self.full {
            self.buf.len()
        } else {
            self.pos
        }
    }

    /// Whether the window holds no sample.
    pub fn is_empty(&self) -> (r: bool)
        ensures
            r == (self.window().len() == 0),
    {
        self.len() == 0
    }

    /// The sample in slot `i`, for `i` below [`Self::len`]: the occupied
    /// slots in storage order are the ones the RMS is taken over, in that
    /// order (see [`lemma_occupied_slots_rotate_window`]).
    pub fn sample_at(&self, i: usize) -> (r: u32)
        requires
            i < self.occupied(),
        ensures
            r == self@.0[i as int],
    {
        proof {
            use_type_invariant(self);
        }
        self.buf[i]
    }

    fn copy_slots(&self) -> (r: Vec<u32>)
        ensures
            r@ == self@.0,
    {
        let n = self.buf.len();
        let mut out: Vec<u32> = Vec::new();
        for i in 0..n
            invariant
                n == self.buf@.len(),
                out@ == self.buf@.subrange(0, i as int),
        {
            out.push(self.buf[i]);
            assert(out@ =~= self.buf@.subrange(0, i + 1));
        }
        assert(out@ =~= self.buf@);
        out
    }

    /// Capture the physical ring, the write head and the wrap flag, so that
    /// a restored estimator sums its samples in the same order.
    pub fn snapshot(&self) -> (r: VolEstimatorSnapshot)
        ensures
            self.wf(),
            r.schema_version == SNAPSHOT_SCHEMA_VERSION,
            r.capacity == self.capacity(),
            r.pos == self@.1,
            r.full == self@.2,
            r.samples@ == self@.0,
            r.validation() == Ok::<(), SnapshotError>(()),
            restoration(r) == Ok::<(Seq<u32>, nat, bool), SnapshotError>(self@),
    {
        proof {
            use_type_invariant(self);
        }
        VolEstimatorSnapshot {
            schema_version: SNAPSHOT_SCHEMA_VERSION,
            capacity: self.buf.len(),
            pos: self.pos,
            full: self.full,
            samples: self.copy_slots(),
        }
    }

    /// Build an estimator from a snapshot, after validating it.
    ///
    /// A snapshot holding all `capacity` slots is taken as the physical ring
    /// with its write head and wrap flag; a shorter one as the occupied
    /// slots, oldest first, rebuilt into a compact ring (see
    /// [`restoration`]). Otherwise the error is returned and no estimator is
    /// built.
    pub fn from_snapshot(snapshot: &VolEstimatorSnapshot) -> (r: Result<Self, SnapshotError>)
        ensures
            match r {
                Ok(e) => {
                    &&& e.wf()
                    &&& restoration(*snapshot) == Ok::<(Seq<u32>, nat, bool), SnapshotError>(e@)
                },
                Err(err) => restoration(*snapshot) == Err::<(Seq<u32>, nat, bool), SnapshotError>(
                    err,
                ),
            },
    {
        snapshot.validate()?;
        let n = snapshot.samples.len();
        let cap = snapshot.capacity;
        if n == cap && snapshot.pos >= cap {
            return Err(SnapshotError::InconsistentState);
        }
        if n < cap && cap > (isize::MAX as usize) / 4 {
            return Err(SnapshotError::InvalidLength);
        }
        let mut buf: Vec<u32> = Vec::new();
        for i in 0..n
            invariant
                n == snapshot.samples@.len(),
                buf@ == snapshot.samples@.subrange(0, i as int),
        {
            buf.push(snapshot.samples[i]);
            assert(buf@ =~= snapshot.samples@.subrange(0, i + 1));
        }
        assert(buf@ =~= snapshot.samples@);
        if n == cap {
            Ok(VolEstimator { buf, pos: snapshot.pos, full: snapshot.full })
        } else {
            assert(single_is_finite(0u32)) by (bit_vector);
            while buf.len() < cap
                invariant
                    n < cap,
                    n <= buf@.len() <= cap,
                    single_is_finite(0u32),
                    buf@.subrange(0, n as int) == snapshot.samples@,
                    forall|k: int| n <= k < buf@.len() ==> buf@[k] == 0u32,
                decreases cap - buf@.len(),
            {
                buf.push(0u32);
                assert(buf@.subrange(0, n as int) =~= buf@.subrange(0, buf@.len() - 1).subrange(
                    0,
                    n as int,
                ));
            }
            assert(buf@ =~= snapshot.samples@ + Seq::new((cap - n) as nat, |k: int| 0u32));
            Ok(VolEstimator { buf, pos: n, full: false })
        }
    }

    /// Replace `self` with the estimator a snapshot describes.
    ///
    /// On failure `self` is left unchanged.
    pub fn restore(&mut self, snapshot: &VolEstimatorSnapshot) -> (r: Result<(), SnapshotError>)
        ensures
            match r {
                Ok(()) => {
                    &&& final(self).wf()
                    &&& restoration(*snapshot) == Ok::<(Seq<u32>, nat, bool), SnapshotError>(
                        final(self)@,
                    )
                },
                Err(err) => {
                    &&& restoration(*snapshot) == Err::<(Seq<u32>, nat, bool), SnapshotError>(err)
                    &&& *final(self) == *old(self)
                },
            },
    {
        let e = Self::from_snapshot(snapshot)?;
        *self = e;
        Ok(())
    }
}

/// Overwrite slot `i` of `slots` with `x`.
fn set_slot(slots: &mut Vec<u32>, i: usize, x: u32)
    requires
        i < old(slots)@.len(),
    ensures
        final(slots)@ == old(slots)@.update(i as int, x),
    no_unwind
{
    slots[i] = x;
}

/// Pushing into a well-formed ring moves its window by one [`window_step`].
proof fn lemma_push_window(slots: Seq<u32>, head: nat, wrapped: bool, x: u32)
    requires
        slots.len() > 0,
        head < slots.len(),
        single_is_finite(x),
    ensures
        ({
            let c = slots.len();
            let s2 = slots.update(head as int, x);
            let h2: nat = if head + 1 == c { 0 } else { (head + 1) as nat };
            let w2 = wrapped || head + 1 == c;
            ring_window(s2, h2, w2) == window_step(ring_window(slots, head, wrapped), c, x)
        }),
{
    let c = slots.len() as int;
    let h = head as int;
    let s2 = slots.update(h, x);
    let w = ring_window(slots, head, wrapped);
    if wrapped {
        assert(w.len() == c);
        if h + 1 == c {
            assert(ring_window(s2, 0, true) =~= w.drop_first().push(x));
        } else {
            assert(ring_window(s2, (h + 1) as nat, true) =~= w.drop_first().push(x));
        }
    } else {
        if h + 1 == c {
            assert(ring_window(s2, 0, true) =~= w.push(x));
        } else {
            assert(ring_window(s2, (h + 1) as nat, false) =~= w.push(x));
        }
    }
}


/// The occupied slots of a well-formed ring, in storage order, are its
/// window rotated so that the write head comes first: the same samples,
/// so the RMS over them is the RMS of the window.
pub proof fn lemma_occupied_slots_rotate_window(e: VolEstimator)
    requires
        e.wf(),
    ensures
        e@.0.subrange(0, e.occupied() as int) == (if e@.2 {
            e.window().subrange(e.capacity() - e@.1, e.capacity() as int) + e.window().subrange(
                0,
                e.capacity() - e@.1,
            )
        } else {
            e.window()
        }),
        e@.0.subrange(0, e.occupied() as int).to_multiset() == e.window().to_multiset(),
{
    let s = e@.0;
    let h = e@.1 as int;
    let c = s.len() as int;
    if e@.2 {
        let w = e.window();
        assert(w.subrange(c - h, c) =~= s.subrange(0, h));
        assert(w.subrange(0, c - h) =~= s.subrange(h, c));
        assert(s.subrange(0, c) =~= s.subrange(0, h) + s.subrange(h, c));
        let a = s.subrange(0, h);
        let b = s.subrange(h, c);
        assert(w =~= b + a);
        vstd::seq_lib::lemma_multiset_commutative(a, b);
        vstd::seq_lib::lemma_multiset_commutative(b, a);
        assert(a.to_multiset().add(b.to_multiset()) =~= b.to_multiset().add(a.to_multiset()));
    } else {
        assert(s.subrange(0, h) =~= e.window());
    }
}

/// The finite samples of `xs`, in order.
pub open spec fn finite_samples(xs: Seq<u32>) -> Seq<u32> {
    xs.filter(|x: u32| single_is_finite(x))
}

/// Rolling-window law: after any sequence of pushes into an empty window of
/// capacity `cap`, the window holds exactly the most recent `cap` finite
/// samples (all of them while there are fewer), oldest first.
pub proof fn lemma_rolling_window(cap: nat, xs: Seq<u32>)
    requires
        cap > 0,
    ensures
        window_after(cap, xs) == keep_last(finite_samples(xs), cap),
    decreases xs.len(),
{
    if xs.len() == 0 {
        assert(finite_samples(xs) =~= Seq::<u32>::empty()) by {
            reveal(Seq::filter);
        }
    } else {
        let ys = xs.drop_last();
        let x = xs.last();
        lemma_rolling_window(cap, ys);
        assert(xs =~= ys.push(x));
        ys.lemma_filter_push(x, |x: u32| single_is_finite(x));
        let f = finite_samples(ys);
        let w = window_after(cap, ys);
        if single_is_finite(x) {
            if f.len() >= cap {
                assert(w.drop_first().push(x) =~= keep_last(f.push(x), cap));
            } else {
                assert(w.push(x) =~= keep_last(f.push(x), cap));
            }
        }
    }
}

/// Rolling-window law, element by element: after pushing `xs` into an empty
/// window of capacity `cap`, it holds `min(cap, f)` samples, where `f` is
/// the number of finite ones pushed, and its `i`-th sample is the
/// `(f - len + i)`-th finite sample pushed.
pub proof fn lemma_rolling_window_elements(cap: nat, xs: Seq<u32>)
    requires
        cap > 0,
    ensures
        ({
            let f = xs.filter(|x: u32| (x & 0x7f80_0000u32) != 0x7f80_0000u32);
            let w = window_after(cap, xs);
            &&& w.len() == (if f.len() <= cap { f.len() } else { cap })
            &&& forall|i: int| 0 <= i < w.len() ==> #[trigger] w[i] == f[f.len() - w.len() + i]
        }),
{
    lemma_rolling_window(cap, xs);
    let p1 = |x: u32| single_is_finite(x);
    let p2 = |x: u32| (x & 0x7f80_0000u32) != 0x7f80_0000u32;
    assert forall|x: u32| #[trigger] p1(x) == p2(x) by {
        lemma_single_finite_exactly(x);
    }
    assert(p1 =~= p2);
}

/// Window law: the window of an estimator holds as many samples as there
/// are occupied slots; without wrap they are the first slots in order, and
/// after wrap they are all slots read from the write head around the ring.
pub proof fn lemma_window_slots(e: VolEstimator)
    requires
        e.wf(),
    ensures
        e.window().len() == e.occupied(),
        e.occupied() <= e.capacity(),
        forall|i: int|
            0 <= i < e.window().len() ==> #[trigger] e.window()[i] == e@.0[(if e@.2 {
                (e@.1 + i) % (e.capacity() as int)
            } else {
                i
            })],
{
    let c = e.capacity() as int;
    let h = e@.1 as int;
    assert forall|i: int| 0 <= i < e.window().len() implies #[trigger] e.window()[i] == e@.0[(
    if e@.2 {
        (e@.1 + i) % (e.capacity() as int)
    } else {
        i
    })] by {
        if e@.2 {
            if h + i < c {
                assert((h + i) % c == h + i) by (nonlinear_arith)
                    requires
                        0 <= h + i < c,
                ;
            } else {
                assert((h + i) % c == h + i - c) by (nonlinear_arith)
                    requires
                        c <= h + i < 2 * c,
                ;
            }
        }
    }
}

/// Snapshot round-trip law: the snapshot of an estimator describes exactly
/// that estimator's slots, write head and wrap flag, so restoring it gives
/// back an estimator whose later outputs are identical.
pub proof fn lemma_snapshot_round_trip(e: VolEstimator, s: VolEstimatorSnapshot)
    requires
        e.wf(),
        s.schema_version == SNAPSHOT_SCHEMA_VERSION,
        s.capacity == e.capacity(),
        s.pos == e@.1,
        s.full == e@.2,
        s.samples@ == e@.0,
    ensures
        s.validation() == Ok::<(), SnapshotError>(()),
        restoration(s) == Ok::<(Seq<u32>, nat, bool), SnapshotError>(e@),
{
}

/// Restoring a short snapshot (the occupied slots, oldest first) gives a
/// ring of `capacity` slots holding the samples and then empty (zero)
/// slots, with the write head after the newest sample and no wrap, whose
/// window is exactly those samples.
pub proof fn lemma_short_snapshot_window(s: VolEstimatorSnapshot)
    requires
        s.samples@.len() < s.capacity,
        restoration(s) is Ok,
    ensures
        restoration(s)->Ok_0.0.len() == s.capacity,
        forall|i: int|
            0 <= i < s.samples@.len() ==> #[trigger] restoration(s)->Ok_0.0[i] == s.samples@[i],
        forall|i: int|
            s.samples@.len() <= i < s.capacity ==> #[trigger] restoration(s)->Ok_0.0[i] == 0u32,
        restoration(s)->Ok_0.1 == s.samples@.len(),
        !restoration(s)->Ok_0.2,
        ring_window(restoration(s)->Ok_0.0, restoration(s)->Ok_0.1, restoration(s)->Ok_0.2)
            == s.samples@,
{
    let r = restoration(s)->Ok_0;
    assert(ring_window(r.0, r.1, r.2) =~= s.samples@);
}

} // verus!
