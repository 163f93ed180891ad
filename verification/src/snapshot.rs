//! Versioned snapshots of the stateful streaming estimators, and their
//! validation.
//!
//! Restoring validates the schema version, window sizes, sample counts and
//! finiteness, and never touches the destination on failure. Samples are
//! stored as IEEE-754 bit patterns.

use vstd::prelude::*;
use crate::ieee754::{
    lemma_double_finite_exactly, lemma_single_finite_exactly, single_is_finite,
    all_double_finite, all_finite_double, all_finite_single, all_single_finite, double_is_finite,
    double_is_zero, is_finite_double, is_zero_double,
};

verus! {

/// Schema version written by every snapshot of this crate.
pub const SNAPSHOT_SCHEMA_VERSION: u32 = 1;

/// Failure when reconstructing an estimator from a snapshot.
#[derive(Debug, Clone, Copy, PartialEq, Eq, Structural)]
#[non_exhaustive]
pub enum SnapshotError {
    /// `schema_version` does not match [`SNAPSHOT_SCHEMA_VERSION`].
    IncompatibleVersion { found: u32, expected: u32 },
    /// Window capacity is zero or otherwise unusable.
    InvalidCapacity,
    /// Occupied sample count is inconsistent with capacity.
    InvalidLength,
    /// A stored scalar or sample is NaN or infinite.
    NonFinite,
    /// Count / sum / position / initialization flags contradict the rest of
    /// the snapshot.
    InconsistentState,
}

/// The decimal digits of `n`, most significant first.
pub open spec fn decimal_digits(n: nat) -> Seq<char>
    decreases n,
{
    if n < 10 {
        seq![((48 + n) as u32) as char]
    } else {
        decimal_digits(n / 10).push(((48 + n % 10) as u32) as char)
    }
}

/// The number a sequence of decimal digit characters spells.
pub open spec fn digits_value(d: Seq<char>) -> nat
    decreases d.len(),
{
    if d.len() == 0 {
        0
    } else {
        digits_value(d.drop_last()) * 10 + ((d.last() as u32) - 48) as nat
    }
}

/// Decimal law: the spelling of `n` is made of the characters `'0'` to
/// `'9'`, spells `n` back, and has no leading zero unless `n` is zero.
pub proof fn lemma_decimal_digits(n: nat)
    ensures
        decimal_digits(n).len() >= 1,
        forall|i: int|
            0 <= i < decimal_digits(n).len() ==> 48 <= (#[trigger] decimal_digits(n)[i]) as u32
                <= 57,
        digits_value(decimal_digits(n)) == n,
        n > 0 ==> decimal_digits(n)[0] != '0',
    decreases n,
{
    let d = decimal_digits(n);
    let c = ((48 + n % 10) as u32) as char;
    assert(c as u32 == 48 + n % 10);
    if n >= 10 {
        lemma_decimal_digits(n / 10);
        assert(d.drop_last() =~= decimal_digits(n / 10));
        assert(d[0] == decimal_digits(n / 10)[0]);
        assert(d.last() == c);
        assert(digits_value(d) == digits_value(decimal_digits(n / 10)) * 10 + n % 10);
    } else {
        assert(d.drop_last() =~= Seq::<char>::empty());
        assert(digits_value(Seq::<char>::empty()) == 0);
        assert(d.last() == c);
        assert(digits_value(d) == 0 * 10 + n % 10);
    }
}

/// The human-readable description of each snapshot error.
pub open spec fn error_message(e: SnapshotError) -> Seq<char> {
    match e {
        SnapshotError::IncompatibleVersion { found, expected } =>
            "incompatible snapshot schema version "@ + decimal_digits(found as nat)
                + " (expected "@ + decimal_digits(expected as nat) + ")"@,
        SnapshotError::InvalidCapacity => "snapshot capacity must be greater than zero"@,
        SnapshotError::InvalidLength => "snapshot sample count is inconsistent with capacity"@,
        SnapshotError::NonFinite => "snapshot contains a non-finite value"@,
        SnapshotError::InconsistentState => "snapshot fields are internally inconsistent"@,
    }
}

/// The one-character text of a decimal digit.
fn digit_text(d: u32) -> (r: &'static str)
    requires
        d < 10,
    ensures
        r@ == seq![((48 + d) as u32) as char],
{
    proof {
        reveal_strlit("0");
        reveal_strlit("1");
        reveal_strlit("2");
        reveal_strlit("3");
        reveal_strlit("4");
        reveal_strlit("5");
        reveal_strlit("6");
        reveal_strlit("7");
        reveal_strlit("8");
        reveal_strlit("9");
    }
    if d == 0 {
        "0"
    } else if d == 1 {
        "1"
    } else if d == 2 {
        "2"
    } else if d == 3 {
        "3"
    } else if d == 4 {
        "4"
    } else if d == 5 {
        "5"
    } else if d == 6 {
        "6"
    } else if d == 7 {
        "7"
    } else if d == 8 {
        "8"
    } else {
        "9"
    }
}

/// Append the decimal spelling of `n` (no sign, no padding) to `s`.
fn append_decimal(s: &mut String, n: u32)
    ensures
        final(s)@ == old(s)@ + decimal_digits(n as nat),
    decreases n,
{
    if n >= 10 {
        append_decimal(s, n / 10);
    }
    let d = digit_text(n % 10);
    s.append(d);
    assert(decimal_digits(n as nat) =~= (if n >= 10 {
        decimal_digits((n / 10) as nat)
    } else {
        Seq::<char>::empty()
    }) + seq![((48 + n % 10) as u32) as char]);
}

impl SnapshotError {
    /// Human-readable description of the error.
    pub fn message(&self) -> (s: String)
        ensures
            s@ == error_message(*self),
    {
        match self {
            SnapshotError::IncompatibleVersion { found, expected } => {
                let mut s = String::from_str("incompatible snapshot schema version ");
                append_decimal(&mut s, *found);
                s.append(" (expected ");
                append_decimal(&mut s, *expected);
                s.append(")");
                s
            },
            SnapshotError::InvalidCapacity => String::from_str(
                "snapshot capacity must be greater than zero",
            ),
            SnapshotError::InvalidLength => String::from_str(
                "snapshot sample count is inconsistent with capacity",
            ),
            SnapshotError::NonFinite => String::from_str("snapshot contains a non-finite value"),
            SnapshotError::InconsistentState => String::from_str(
                "snapshot fields are internally inconsistent",
            ),
        }
    }
}

/// The outcome of checking a snapshot's schema version.
pub open spec fn version_check(found: u32) -> Result<(), SnapshotError> {
    if found != SNAPSHOT_SCHEMA_VERSION {
        Err(SnapshotError::IncompatibleVersion { found, expected: SNAPSHOT_SCHEMA_VERSION })
    } else {
        Ok(())
    }
}

/// Version law: a version is accepted exactly when it is the current one,
/// and a refusal reports the version found and the one expected.
pub proof fn lemma_version_check(found: u32)
    ensures
        (version_check(found) == Ok::<(), SnapshotError>(())) <==> found == 1,
        found != 1 ==> version_check(found) == Err::<(), SnapshotError>(
            SnapshotError::IncompatibleVersion { found, expected: 1 },
        ),
{
}

/// Accept only the current schema version.
pub fn check_version(found: u32) -> (r: Result<(), SnapshotError>)
    ensures
        r == version_check(found),
{
    if found != SNAPSHOT_SCHEMA_VERSION {
        Err(SnapshotError::IncompatibleVersion { found, expected: SNAPSHOT_SCHEMA_VERSION })
    } else {
        Ok(())
    }
}

fn require_finite_double(bits: u64) -> (r: Result<(), SnapshotError>)
    ensures
        r == (if double_is_finite(bits) { Ok(()) } else { Err(SnapshotError::NonFinite) }),
{
    if is_finite_double(bits) {
        Ok(())
    } else {
        Err(SnapshotError::NonFinite)
    }
}

/// Ring-buffer state of a [`crate::VolEstimator`].
///
/// `samples` holds binary32 bit patterns. A snapshot taken of an estimator
/// holds the physical ring: one sample per slot in storage order, with the
/// write head and the wrap flag. A shorter `samples` list (at most
/// `capacity`) is the occupied slots, oldest first; restoring it rebuilds a
/// compact ring with the write head after the newest sample.
#[derive(Debug, Clone, PartialEq, Eq)]
pub struct VolEstimatorSnapshot {
    /// Must equal [`SNAPSHOT_SCHEMA_VERSION`].
    pub schema_version: u32,
    /// Ring capacity (`> 0`).
    pub capacity: usize,
    /// Write head: the slot the next sample goes to (read when `samples`
    /// holds all `capacity` slots).
    pub pos: usize,
    /// Whether the ring has wrapped, so that every slot is occupied (read
    /// when `samples` holds all `capacity` slots).
    pub full: bool,
    /// Samples (binary32 bit patterns), at most `capacity` of them.
    pub samples: Vec<u32>,
}

impl VolEstimatorSnapshot {
    /// The outcome of validation, checks taken in order: version, capacity,
    /// too many samples, finiteness.
    pub open spec fn validation(&self) -> Result<(), SnapshotError> {
        if version_check(self.schema_version) is Err {
            version_check(self.schema_version)
        } else if self.capacity == 0 {
            Err(SnapshotError::InvalidCapacity)
        } else if self.samples@.len() > self.capacity {
            Err(SnapshotError::InvalidLength)
        } else if !all_single_finite(self.samples@) {
            Err(SnapshotError::NonFinite)
        } else {
            Ok(())
        }
    }

    /// Check version, capacity, sample count and finiteness without
    /// building an estimator.
    pub fn validate(&self) -> (r: Result<(), SnapshotError>)
        ensures
            r == self.validation(),
    {
        check_version(self.schema_version)?;
        if self.capacity == 0 {
            return Err(SnapshotError::InvalidCapacity);
        }
        if self.samples.len() > self.capacity {
            return Err(SnapshotError::InvalidLength);
        }
        if !all_finite_single(self.samples.as_slice()) {
            return Err(SnapshotError::NonFinite);
        }
        Ok(())
    }
}

/// State of an exponential moving average; `value` and `alpha` are binary64
/// bit patterns.
#[derive(Debug, Clone, PartialEq, Eq)]
pub struct EMASnapshot {
    /// Must equal [`SNAPSHOT_SCHEMA_VERSION`].
    pub schema_version: u32,
    /// Current average; ignored on restore when `initialized` is `false`.
    pub value: u64,
    /// Smoothing factor.
    pub alpha: u64,
    /// Whether at least one sample has been observed.
    pub initialized: bool,
}

impl EMASnapshot {
    /// The outcome of validation: version, then a finite smoothing factor,
    /// then a finite value when the average is initialized.
    pub open spec fn validation(&self) -> Result<(), SnapshotError> {
        if version_check(self.schema_version) is Err {
            version_check(self.schema_version)
        } else if !double_is_finite(self.alpha) {
            Err(SnapshotError::NonFinite)
        } else if self.initialized && !double_is_finite(self.value) {
            Err(SnapshotError::NonFinite)
        } else {
            Ok(())
        }
    }

    /// Check version and finiteness without building an estimator.
    pub fn validate(&self) -> (r: Result<(), SnapshotError>)
        ensures
            r == self.validation(),
    {
        check_version(self.schema_version)?;
        require_finite_double(self.alpha)?;
        if self.initialized {
            require_finite_double(self.value)?;
        }
        Ok(())
    }
}

/// State of a simple moving average: the window (oldest first) and the
/// running sum, as binary64 bit patterns.
///
/// `sum` is restored as it is, so later outputs match the original
/// estimator even where it has drifted from the window's exact sum.
#[derive(Debug, Clone, PartialEq, Eq)]
pub struct SMASnapshot {
    /// Must equal [`SNAPSHOT_SCHEMA_VERSION`].
    pub schema_version: u32,
    /// Maximum number of samples retained; an average created with capacity
    /// zero snapshots and restores as such.
    pub capacity: usize,
    /// Samples currently in the window, oldest first.
    pub window: Vec<u64>,
    /// Running sum of `window`.
    pub sum: u64,
}

impl SMASnapshot {
    /// The outcome of validation: version, window no longer than capacity,
    /// finite samples, finite sum, and a zero sum for an empty window.
    pub open spec fn validation(&self) -> Result<(), SnapshotError> {
        if version_check(self.schema_version) is Err {
            version_check(self.schema_version)
        } else if self.window@.len() > self.capacity {
            Err(SnapshotError::InvalidLength)
        } else if !all_double_finite(self.window@) {
            Err(SnapshotError::NonFinite)
        } else if !double_is_finite(self.sum) {
            Err(SnapshotError::NonFinite)
        } else if self.window@.len() == 0 && !double_is_zero(self.sum) {
            Err(SnapshotError::InconsistentState)
        } else {
            Ok(())
        }
    }

    /// Check version, length, finiteness and the empty-window sum without
    /// building an estimator.
    pub fn validate(&self) -> (r: Result<(), SnapshotError>)
        ensures
            r == self.validation(),
    {
        check_version(self.schema_version)?;
        if self.window.len() > self.capacity {
            return Err(SnapshotError::InvalidLength);
        }
        if !all_finite_double(self.window.as_slice()) {
            return Err(SnapshotError::NonFinite);
        }
        require_finite_double(self.sum)?;
        if self.window.len() == 0 && !is_zero_double(self.sum) {
            return Err(SnapshotError::InconsistentState);
        }
        Ok(())
    }
}


/// Exponent bits of a binary64 pattern all set: an infinity or a NaN.
pub open spec fn double_exponent_full(bits: u64) -> bool {
    (bits & 0x7ff0_0000_0000_0000u64) == 0x7ff0_0000_0000_0000u64
}

/// Exponent bits of a binary32 pattern all set: an infinity or a NaN.
pub open spec fn single_exponent_full(bits: u32) -> bool {
    (bits & 0x7f80_0000u32) == 0x7f80_0000u32
}

/// EMA snapshot law: a snapshot of the current version is accepted exactly
/// when its smoothing factor is neither infinite nor NaN and, if the average
/// is initialized, its value is neither infinite nor NaN; the sign of either
/// never matters, and an uninitialized value is not looked at.
pub proof fn lemma_ema_snapshot_accepts(s: EMASnapshot)
    ensures
        s.schema_version == 1 ==> ((s.validation() == Ok::<(), SnapshotError>(())) <==> (
        !double_exponent_full(s.alpha) && (!s.initialized || !double_exponent_full(s.value)))),
        s.schema_version == 1 && (s.validation() != Ok::<(), SnapshotError>(())) ==> s.validation()
            == Err::<(), SnapshotError>(SnapshotError::NonFinite),
        s.schema_version != 1 ==> s.validation() == Err::<(), SnapshotError>(
            SnapshotError::IncompatibleVersion { found: s.schema_version, expected: 1 },
        ),
{
    lemma_double_finite_exactly(s.alpha);
    lemma_double_finite_exactly(s.value);
}

/// SMA snapshot law: for the current version, `InvalidLength` comes exactly
/// from a window longer than the capacity (a full window is fine);
/// `InconsistentState` exactly from an empty window whose sum is not a zero;
/// and a window no longer than the capacity, of samples that are neither
/// infinite nor NaN, with such a sum, is accepted whenever it is non-empty or
/// its sum is `+0.0` / `-0.0`.
pub proof fn lemma_sma_snapshot_accepts(s: SMASnapshot)
    ensures
        s.schema_version != 1 ==> s.validation() == Err::<(), SnapshotError>(
            SnapshotError::IncompatibleVersion { found: s.schema_version, expected: 1 },
        ),
        s.schema_version == 1 ==> ((s.validation() == Err::<(), SnapshotError>(
            SnapshotError::InvalidLength,
        )) <==> s.window@.len() > s.capacity),
        s.schema_version == 1 ==> ((s.validation() == Ok::<(), SnapshotError>(())) <==> (
        s.window@.len() <= s.capacity && (forall|i: int|
            0 <= i < s.window@.len() ==> !double_exponent_full(#[trigger] s.window@[i]))
            && !double_exponent_full(s.sum) && (s.window@.len() > 0 || s.sum == 0u64 || s.sum
            == 0x8000_0000_0000_0000u64))),
        (s.validation() == Err::<(), SnapshotError>(SnapshotError::InconsistentState)) ==> (
        s.window@.len() == 0 && s.sum != 0u64 && s.sum != 0x8000_0000_0000_0000u64),
{
    lemma_double_finite_exactly(s.sum);
    assert forall|i: int| 0 <= i < s.window@.len() implies (double_is_finite(s.window@[i])
        <==> !double_exponent_full(#[trigger] s.window@[i])) by {
        lemma_double_finite_exactly(s.window@[i]);
    }
}

/// Volatility snapshot law: for the current version, a snapshot is accepted
/// exactly when its capacity is positive, it holds at most `capacity`
/// samples (a full ring included) and none of them is infinite or NaN;
/// the write head and the wrap flag play no part in validation.
pub proof fn lemma_vol_snapshot_accepts(s: VolEstimatorSnapshot)
    ensures
        s.schema_version != 1 ==> s.validation() == Err::<(), SnapshotError>(
            SnapshotError::IncompatibleVersion { found: s.schema_version, expected: 1 },
        ),
        s.schema_version == 1 ==> ((s.validation() == Ok::<(), SnapshotError>(())) <==> (
        s.capacity > 0 && s.samples@.len() <= s.capacity && forall|i: int|
            0 <= i < s.samples@.len() ==> !single_exponent_full(#[trigger] s.samples@[i]))),
        s.schema_version == 1 && s.capacity > 0 ==> ((s.validation() == Err::<(), SnapshotError>(
            SnapshotError::InvalidLength,
        )) <==> s.samples@.len() > s.capacity),
{
    assert forall|i: int| 0 <= i < s.samples@.len() implies (single_is_finite(s.samples@[i])
        <==> !single_exponent_full(#[trigger] s.samples@[i])) by {
        lemma_single_finite_exactly(s.samples@[i]);
    }
}

} // verus!
