use kinetic_signals::hurst::{chunk_starts, tau_schedule};

#[test]
fn tau_schedule_matches_ceil_of_one_point_four_growth() {
    let expected = vec![8usize, 12, 17, 24, 34, 48, 68, 96, 135, 189, 265];
    assert_eq!(tau_schedule(530), expected);
    // Same sizes as the binary64 rounding of `ceil(tau * 1.4)`.
    let mut tau = 8usize;
    let mut floats = Vec::new();
    while tau <= 265 {
        floats.push(tau);
        tau = (tau as f64 * 1.4).ceil() as usize;
    }
    assert_eq!(floats, expected);
}

#[test]
fn tau_schedule_short_series_is_empty() {
    assert!(tau_schedule(0).is_empty());
    assert!(tau_schedule(15).is_empty());
    assert_eq!(tau_schedule(16), vec![8]);
    assert_eq!(tau_schedule(32), vec![8, 12]);
    assert_eq!(tau_schedule(64), vec![8, 12, 17, 24]);
}

#[test]
fn tau_schedule_caps_at_thirty_sizes() {
    let taus = tau_schedule(usize::MAX);
    assert_eq!(taus.len(), 30);
    for w in taus.windows(2) {
        assert!(w[0] < w[1]);
        assert_eq!(w[1], (w[0] as f64 * 1.4).ceil() as usize);
    }
}

#[test]
fn chunk_starts_cover_whole_chunks_only() {
    assert_eq!(chunk_starts(64, 12), vec![0, 12, 24, 36, 48]);
    assert_eq!(chunk_starts(64, 8), (0..8).map(|k| k * 8).collect::<Vec<_>>());
    assert_eq!(chunk_starts(5, 5), vec![0]);
    assert_eq!(chunk_starts(9, 5), vec![0]);
}
