use kinetic_signals::{SNAPSHOT_SCHEMA_VERSION, SnapshotError, VolEstimator, VolEstimatorSnapshot};

fn push(v: &mut VolEstimator, x: f32) {
    v.push(x.to_bits());
}

fn slots(v: &VolEstimator) -> Vec<u32> {
    (0..v.len()).map(|i| v.sample_at(i)).collect()
}

/// RMS over the occupied slots in storage order, squared in binary64 and
/// clamped to [0, 1], as the estimator's users compute it.
fn rms(v: &VolEstimator) -> f32 {
    let slots = slots(v);
    if slots.is_empty() {
        return 0.0;
    }
    let sum_sq: f64 = slots
        .iter()
        .map(|&b| {
            let x = f64::from(f32::from_bits(b));
            x * x
        })
        .sum();
    (sum_sq / slots.len() as f64).sqrt().clamp(0.0, 1.0) as f32
}

#[test]
fn test_rms_three_values() {
    let mut v = VolEstimator::new(3);
    push(&mut v, 0.1);
    push(&mut v, 0.2);
    push(&mut v, 0.3);
    assert!((rms(&v) - 0.2160).abs() < 0.01);
}

#[test]
fn test_empty() {
    let v = VolEstimator::new(10);
    assert_eq!(rms(&v), 0.0);
    assert!(v.is_empty());
}

#[test]
fn test_ring_overflow() {
    let mut v = VolEstimator::new(3);
    for i in 0..10 {
        push(&mut v, i as f32 * 0.1);
    }
    assert_eq!(v.len(), 3);
}

#[test]
fn ring_keeps_most_recent_samples_rotated_by_write_head() {
    let mut v = VolEstimator::new(3);
    for i in 1..=5u32 {
        v.push(i);
    }
    // Slots after wrapping: [4, 5, 3], write head at 2.
    assert_eq!(slots(&v), vec![4, 5, 3]);
    let snap = v.snapshot();
    assert_eq!(snap.pos, 2);
    assert!(snap.full);
    assert_eq!(snap.samples, vec![4, 5, 3]);
}

#[test]
fn snapshot_restore_matches_continuous_after_wrap() {
    let series: Vec<f32> = (1..12).map(|i| i as f32 * 0.01).collect();
    let (a, b) = series.split_at(7);

    let mut continuous = VolEstimator::new(4);
    for &x in a.iter().chain(b) {
        push(&mut continuous, x);
    }

    let mut restored = VolEstimator::new(4);
    for &x in a {
        push(&mut restored, x);
    }
    let snap = restored.snapshot();
    restored.restore(&snap).unwrap();
    for &x in b {
        push(&mut restored, x);
    }

    assert_eq!(rms(&continuous), rms(&restored));
    assert_eq!(continuous.len(), restored.len());
}

#[test]
fn snapshot_preserves_rms_summation_order_after_wrap() {
    let cap = 10_000;
    let mut v = VolEstimator::new(cap);
    for _ in 0..cap {
        push(&mut v, 0.01);
    }
    for _ in 0..cap / 2 {
        push(&mut v, 1.0);
    }
    let restored = VolEstimator::from_snapshot(&v.snapshot()).unwrap();
    assert_eq!(rms(&v), rms(&restored));
    assert_eq!(slots(&v), slots(&restored));
}

#[test]
fn restore_rejects_non_finite_without_mutating() {
    let mut est = VolEstimator::new(3);
    push(&mut est, 0.1);
    push(&mut est, 0.2);
    let before_rms = rms(&est);
    let before_len = est.len();
    let bad = VolEstimatorSnapshot {
        schema_version: SNAPSHOT_SCHEMA_VERSION,
        capacity: 3,
        pos: 2,
        full: false,
        samples: vec![0.1f32.to_bits(), f32::NAN.to_bits(), 0.0f32.to_bits()],
    };
    assert_eq!(est.restore(&bad), Err(SnapshotError::NonFinite));
    assert_eq!(est.len(), before_len);
    assert_eq!(rms(&est), before_rms);
}

#[test]
fn test_rms_skips_nonfinite() {
    let mut v = VolEstimator::new(3);
    push(&mut v, 0.1);
    push(&mut v, f32::NAN);
    push(&mut v, f32::INFINITY);
    push(&mut v, 0.2);
    assert_eq!(v.len(), 2);
    let r = rms(&v);
    assert!(r.is_finite());
    let expected = ((0.1f64.powi(2) + 0.2f64.powi(2)) / 2.0).sqrt() as f32;
    assert!((r - expected).abs() < 1e-6);
}

#[test]
fn test_rms_extreme_finite_clamped() {
    let mut v = VolEstimator::new(2);
    push(&mut v, 1e20);
    push(&mut v, 1e20);
    let r = rms(&v);
    assert!(r.is_finite());
    assert_eq!(r, 1.0);
}

#[test]
fn test_rms_constant_zero() {
    let mut v = VolEstimator::new(4);
    for _ in 0..4 {
        push(&mut v, 0.0);
    }
    assert_eq!(rms(&v), 0.0);
}

#[test]
fn snapshot_restore_skips_non_finite_inputs_like_live_estimators() {
    let mut vol_with_nan = VolEstimator::new(3);
    push(&mut vol_with_nan, 0.1);
    push(&mut vol_with_nan, f32::NAN);
    push(&mut vol_with_nan, 0.2);
    let mut vol_clean = VolEstimator::new(3);
    push(&mut vol_clean, 0.1);
    push(&mut vol_clean, 0.2);
    let mut vol_restored = VolEstimator::from_snapshot(&vol_with_nan.snapshot()).unwrap();
    push(&mut vol_with_nan, 0.3);
    push(&mut vol_clean, 0.3);
    push(&mut vol_restored, 0.3);
    assert_eq!(rms(&vol_restored), rms(&vol_clean));
    assert_eq!(rms(&vol_with_nan), rms(&vol_clean));
}

#[test]
fn new_estimator_snapshot_is_zeroed_ring() {
    let v = VolEstimator::new(3);
    let s = v.snapshot();
    assert_eq!(s.schema_version, SNAPSHOT_SCHEMA_VERSION);
    assert_eq!(s.capacity, 3);
    assert_eq!(s.pos, 0);
    assert!(!s.full);
    assert_eq!(s.samples, vec![0, 0, 0]);
    assert_eq!(s.validate(), Ok(()));
}
