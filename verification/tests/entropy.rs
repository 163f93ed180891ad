use kinetic_signals::entropy::fill_histogram;

fn ident(x: usize) -> usize {
    x
}

#[test]
fn fill_histogram_counts_and_clamps_last_bin() {
    let mut h = vec![99usize; 3];
    let occupied = fill_histogram(&[0usize, 1, 1, 3, 7], 4, &mut h, ident);
    assert_eq!(h, vec![1, 2, 0, 2]);
    assert_eq!(occupied, 3);
    assert_eq!(h.iter().sum::<usize>(), 5);
}

#[test]
fn fill_histogram_resizes_and_keeps_capacity() {
    let mut h = Vec::new();
    fill_histogram(&[0usize, 1, 2, 3], 4, &mut h, ident);
    assert_eq!(h, vec![1, 1, 1, 1]);
    let cap = h.capacity();
    assert!(cap >= 4);
    let occupied = fill_histogram(&[0usize, 1, 2, 3], 2, &mut h, ident);
    assert_eq!(h, vec![1, 3]);
    assert_eq!(occupied, 2);
    assert_eq!(h.capacity(), cap);
}

#[test]
fn fill_histogram_no_samples_is_all_zero() {
    let mut h = vec![5usize, 5];
    let occupied = fill_histogram(&[] as &[usize], 3, &mut h, ident);
    assert_eq!(h, vec![0, 0, 0]);
    assert_eq!(occupied, 0);
}

#[test]
fn fill_histogram_single_bin_takes_everything() {
    let mut h = Vec::new();
    let occupied = fill_histogram(&[0usize, 5, usize::MAX], 1, &mut h, ident);
    assert_eq!(h, vec![3]);
    assert_eq!(occupied, 1);
}

#[test]
fn fill_histogram_with_min_max_binning_of_reals() {
    let data = [1.0f64, 2.0, 3.0, 4.0];
    let bins = 4usize;
    let (min, range) = (1.0, 3.0);
    let mut h = Vec::new();
    let occupied = fill_histogram(&data, bins, &mut h, |x: f64| {
        (((x - min) / range) * (bins as f64 - 1e-9)).floor() as usize
    });
    assert_eq!(h, vec![1, 1, 1, 1]);
    assert_eq!(occupied, 4);
    let data = [1.0f64, 2.0, 3.0, 4.0, 5.0, 6.0, 7.0, 8.0];
    let occupied = fill_histogram(&data, 4, &mut h, |x: f64| {
        (((x - 1.0) / 7.0) * (4.0 - 1e-9)).floor() as usize
    });
    assert_eq!(h, vec![2, 2, 2, 2]);
    assert_eq!(occupied, 4);
}
