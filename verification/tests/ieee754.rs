use kinetic_signals::ieee754::{
    all_finite_double, all_finite_single, is_finite_double, is_finite_single, is_zero_double,
};

#[test]
fn single_finiteness_matches_std() {
    for x in [0.0f32, -0.0, 1.0, -1.5, f32::MAX, f32::MIN, f32::MIN_POSITIVE, 1e-45] {
        assert!(is_finite_single(x.to_bits()));
    }
    for x in [f32::NAN, f32::INFINITY, f32::NEG_INFINITY, -f32::NAN] {
        assert!(!is_finite_single(x.to_bits()));
    }
}

#[test]
fn double_finiteness_and_zero_match_std() {
    for x in [0.0f64, -0.0, 1.0, -1e300, f64::MAX, f64::MIN_POSITIVE] {
        assert!(is_finite_double(x.to_bits()));
    }
    for x in [f64::NAN, f64::INFINITY, f64::NEG_INFINITY] {
        assert!(!is_finite_double(x.to_bits()));
    }
    assert!(is_zero_double(0.0f64.to_bits()));
    assert!(is_zero_double((-0.0f64).to_bits()));
    assert!(!is_zero_double(1e-310f64.to_bits()));
}

#[test]
fn all_finite_scans_every_sample() {
    assert!(all_finite_single(&[]));
    assert!(all_finite_single(&[1.0f32.to_bits(), 2.0f32.to_bits()]));
    assert!(!all_finite_single(&[1.0f32.to_bits(), f32::NAN.to_bits()]));
    assert!(all_finite_double(&[1.0f64.to_bits()]));
    assert!(!all_finite_double(&[f64::INFINITY.to_bits(), 1.0f64.to_bits()]));
}
