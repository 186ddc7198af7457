use log2_ceil::non_zero_u63::NonZeroU63;
use log2_ceil::{log2_ceil_baseline, log2_ceil_v1, log2_ceil_v2, log2_ceil_v3};

#[test]
fn test_log2_ceil_v1_limits() {
    let min = u64::MIN;
    assert_eq!(log2_ceil_baseline(min), log2_ceil_v1(min));
    let max = u64::MAX;
    assert_eq!(log2_ceil_baseline(max), log2_ceil_v1(max));
}

#[test]
fn test_log2_ceil_v2_limits() {
    let min: u64 = 1;
    assert_eq!(log2_ceil_baseline(min), log2_ceil_v2(min));
    let max = u64::MAX;
    assert_eq!(log2_ceil_baseline(max), log2_ceil_v2(max));
}

#[test]
fn test_log2_ceil_v3_limits() {
    let min = NonZeroU63::new(NonZeroU63::MIN).unwrap();
    assert_eq!(log2_ceil_baseline(min.get()), log2_ceil_v3(min));
    let max = NonZeroU63::new(NonZeroU63::MAX).unwrap();
    assert_eq!(log2_ceil_baseline(max.get()), log2_ceil_v3(max));
}

#[test]
fn dispatch_matches_baseline_at_boundaries() {
    let cases: [u64; 7] = [
        0,
        1,
        (1u64 << 32) - 1,
        1u64 << 32,
        (1u64 << 32) + 1,
        u64::MAX - 1,
        u64::MAX,
    ];
    for &x in cases.iter() {
        assert_eq!(log2_ceil_v1(x), log2_ceil_baseline(x));
    }
}

#[test]
fn general_matches_baseline_at_boundaries() {
    let cases: [u64; 4] = [1, 2, u64::MAX - 1, u64::MAX];
    for &x in cases.iter() {
        assert_eq!(log2_ceil_v2(x), log2_ceil_baseline(x));
    }
}

#[test]
fn specialized_matches_baseline_at_boundaries() {
    let cases: [u64; 4] = [1, NonZeroU63::MIN, NonZeroU63::MAX - 1, NonZeroU63::MAX];
    for &x in cases.iter() {
        let v = NonZeroU63::new(x).unwrap();
        assert_eq!(log2_ceil_v3(v), log2_ceil_baseline(x));
    }
}

#[test]
fn constructor_round_trip_in_range() {
    let cases: [u64; 6] = [1, 2, 3, 4096, (1u64 << 62) + 5, NonZeroU63::MAX];
    for &x in cases.iter() {
        assert_eq!(NonZeroU63::new(x).unwrap().get(), x);
        assert_eq!(NonZeroU63::new_unchecked(x).get(), x);
    }
}

#[test]
fn constructor_rejects_out_of_range() {
    assert!(NonZeroU63::new(0).is_none());
    assert!(NonZeroU63::new(NonZeroU63::MAX + 1).is_none());
    assert!(NonZeroU63::new(u64::MAX).is_none());
}

#[test]
fn constrained_type_constants() {
    assert_eq!(NonZeroU63::BITS, 63);
    assert_eq!(NonZeroU63::MIN, 1);
    assert_eq!(NonZeroU63::MAX, (1u64 << 63) - 1);
}

#[test]
fn zero_maps_to_zero() {
    assert_eq!(log2_ceil_baseline(0), 0);
    assert_eq!(log2_ceil_v1(0), 0);
}

#[test]
fn powers_of_two_are_exact() {
    for k in 0..64u32 {
        assert_eq!(log2_ceil_v1(1u64 << k), k);
    }
    for k in 0..63u32 {
        assert_eq!(log2_ceil_v1((1u64 << k) + 1), k + 1);
    }
}

#[test]
fn dispatch_concrete_scenarios() {
    assert_eq!(log2_ceil_v1(1), 0);
    assert_eq!(log2_ceil_v1(4294967295), 32);
    assert_eq!(log2_ceil_v1(4294967296), 32);
    assert_eq!(log2_ceil_v1(4294967297), 33);
    assert_eq!(log2_ceil_v1(u64::MAX), 64);
}

#[test]
fn exact_values_per_variant() {
    assert_eq!(log2_ceil_baseline(5), 3);
    assert_eq!(log2_ceil_baseline(1000), 10);
    assert_eq!(log2_ceil_v2(1), 0);
    assert_eq!(log2_ceil_v2(9), 4);
    assert_eq!(log2_ceil_v3(NonZeroU63::new(1).unwrap()), 0);
    assert_eq!(log2_ceil_v3(NonZeroU63::new(6).unwrap()), 3);
    assert_eq!(log2_ceil_v3(NonZeroU63::new(NonZeroU63::MAX).unwrap()), 63);
}
