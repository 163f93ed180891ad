use kinetic_signals::surprise::fill_transitions;
use kinetic_signals::surprise_sequence_len;

#[test]
fn test_surprise_sequence_len() {
    assert_eq!(surprise_sequence_len(0), 0);
    assert_eq!(surprise_sequence_len(1), 0);
    assert_eq!(surprise_sequence_len(2), 1);
    assert_eq!(surprise_sequence_len(8), 7);
}

#[test]
fn surprise_sequence_len_at_usize_max() {
    assert_eq!(surprise_sequence_len(usize::MAX), usize::MAX - 1);
}

#[test]
fn fill_transitions_scores_each_consecutive_pair() {
    let values = [100i64, 101, 99, 150];
    let mut out: Vec<(i64, i64)> = vec![(7, 7); 9];
    fill_transitions(&values, &mut out, |prev, cur| (prev, cur));
    assert_eq!(out, vec![(100, 101), (101, 99), (99, 150)]);
    assert_eq!(out.len(), surprise_sequence_len(values.len()));
}

#[test]
fn fill_transitions_short_input_empties_buffer_and_keeps_capacity() {
    let mut out: Vec<i64> = Vec::with_capacity(16);
    out.push(5);
    let cap = out.capacity();
    fill_transitions(&[1i64], &mut out, |a, b| b - a);
    assert!(out.is_empty());
    fill_transitions(&[] as &[i64], &mut out, |a, b| b - a);
    assert!(out.is_empty());
    fill_transitions(&[3i64, 10, 4], &mut out, |a, b| b - a);
    assert_eq!(out, vec![7, -6]);
    assert_eq!(out.capacity(), cap);
}

#[test]
fn fill_transitions_with_float_scores() {
    let values = [100.0_f64, 110.0, 99.0];
    let mut out: Vec<f64> = Vec::new();
    fill_transitions(&values, &mut out, |prev: f64, cur: f64| (cur / prev).ln());
    assert_eq!(out.len(), 2);
    assert!((out[0] - (1.1f64).ln()).abs() < 1e-12);
    assert!(out[1] < 0.0);
}
