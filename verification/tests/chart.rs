use renogymon::chart::{bits_of_key, downsample_minmax, float_le, float_ne, order_key};

fn to_keys(data: &[(f64, f64)]) -> Vec<(i64, i64)> {
    data.iter()
        .map(|&(x, y)| (order_key(x.to_bits()), order_key(y.to_bits())))
        .collect()
}

fn from_keys(data: &[(i64, i64)]) -> Vec<(f64, f64)> {
    data.iter()
        .map(|&(x, y)| (f64::from_bits(bits_of_key(x)), f64::from_bits(bits_of_key(y))))
        .collect()
}

fn downsample(data: &[(f64, f64)], max_points: usize) -> Vec<(f64, f64)> {
    from_keys(&downsample_minmax(&to_keys(data), max_points))
}

#[test]
fn downsample_keeps_small_series() {
    let data = vec![(0.0, 1.0), (1.0, 2.0), (2.0, 3.0)];
    assert_eq!(downsample(&data, 10), data);
}

#[test]
fn downsample_bounds_large_series() {
    let data: Vec<(f64, f64)> = (0..1000).map(|i| (i as f64, i as f64)).collect();
    assert!(downsample(&data, 50).len() <= 50);
}

#[test]
fn downsample_keeps_series_when_max_below_four() {
    let data: Vec<(f64, f64)> = (0..10).map(|i| (i as f64, 1.0)).collect();
    assert_eq!(downsample(&data, 3), data);
}

#[test]
fn downsample_keeps_lowest_and_highest_of_each_bucket() {
    // 8 points, at most 4: two buckets of 4 points.
    let data = vec![
        (0.0, 5.0),
        (1.0, -1.0),
        (2.0, 7.0),
        (3.0, 2.0),
        (4.0, 9.0),
        (5.0, 3.0),
        (6.0, 3.0),
        (7.0, 1.0),
    ];
    assert_eq!(
        downsample(&data, 4),
        vec![(1.0, -1.0), (2.0, 7.0), (4.0, 9.0), (7.0, 1.0)]
    );
}

#[test]
fn downsample_orders_bucket_points_by_x() {
    // The highest point comes before the lowest one in the bucket.
    let data = vec![(0.0, 9.0), (1.0, 5.0), (2.0, 5.0), (3.0, 0.0), (4.0, 4.0), (5.0, 4.0), (6.0, 4.0), (7.0, 4.0)];
    let out = downsample(&data, 4);
    assert_eq!(out[0], (0.0, 9.0));
    assert_eq!(out[1], (3.0, 0.0));
}

#[test]
fn downsample_ties_keep_first_lowest_and_last_highest() {
    // A flat bucket: the first point is the lowest, the last the highest.
    let data: Vec<(f64, f64)> = (0..8).map(|i| (i as f64, 2.0)).collect();
    assert_eq!(
        downsample(&data, 4),
        vec![(0.0, 2.0), (3.0, 2.0), (4.0, 2.0), (7.0, 2.0)]
    );
}

#[test]
fn downsample_uneven_last_bucket() {
    // 9 points, at most 4: buckets of 4, 4 and 1 points.
    let data: Vec<(f64, f64)> = (0..9).map(|i| (i as f64, i as f64)).collect();
    let out = downsample(&data, 4);
    assert_eq!(out, vec![(0.0, 0.0), (3.0, 3.0), (4.0, 4.0), (7.0, 7.0), (8.0, 8.0)]);
}

#[test]
fn order_key_follows_float_order() {
    let values = [f64::NEG_INFINITY, -2.5, -1.0, -0.0, 0.0, 1e-300, 1.0, 3.5, f64::INFINITY];
    for w in values.windows(2) {
        assert!(order_key(w[0].to_bits()) < order_key(w[1].to_bits()));
    }
    assert_eq!(order_key(0.0f64.to_bits()), 0);
    assert_eq!(order_key((-0.0f64).to_bits()), -1);
}

#[test]
fn order_key_roundtrip() {
    for v in [0.0, -0.0, 1.5, -7.25, f64::MAX, f64::MIN, f64::NAN] {
        let bits = f64::to_bits(v);
        assert_eq!(bits_of_key(order_key(bits)), bits);
    }
    for k in [i64::MIN, -1, 0, 1, i64::MAX] {
        assert_eq!(order_key(bits_of_key(k)), k);
    }
}

#[test]
fn x_comparisons_follow_float_comparisons() {
    let values = [
        f64::NEG_INFINITY, -3.0, -0.0, 0.0, 2.5, f64::INFINITY, f64::NAN, -f64::NAN,
    ];
    for &a in &values {
        for &b in &values {
            let (ka, kb) = (order_key(a.to_bits()), order_key(b.to_bits()));
            assert_eq!(float_le(ka, kb), a <= b, "{a} <= {b}");
            assert_eq!(float_ne(ka, kb), a != b, "{a} != {b}");
        }
    }
}

#[test]
fn downsample_treats_signed_zeros_as_one_x() {
    // The lowest and highest points of the first bucket sit at x = -0.0 and x = 0.0,
    // which compare equal: only the lowest is kept.
    let data = vec![(0.0, 9.0), (-0.0, 1.0), (1.0, 5.0), (2.0, 5.0), (3.0, 4.0), (4.0, 4.0), (5.0, 4.0), (6.0, 4.0)];
    let out = downsample(&data, 4);
    assert_eq!(out.len(), 3);
    assert_eq!(out[0].1, 1.0);
    assert_eq!(out[0].0.to_bits(), (-0.0f64).to_bits());
}
