use sinpi_ulp::harness::MaxErrorScan;
use sinpi_ulp::harness::HALF_BITS;
use sinpi_ulp::harness::MIN_NORMAL_BITS;
use sinpi_ulp::ulp::ulp_distance;
use sinpi_ulp::ulp::NARROW_MANTISSA_DIGITS;
use sinpi_ulp::ulp::ULP_SHIFT;
use sinpi_ulp::ulp::WIDE_MANTISSA_DIGITS;

#[test]
fn ulp_distance_is_symmetric() {
    let pairs: Vec<(u64, u64)> = vec![
        (0, 0),
        (3, 10),
        (10, 3),
        (1 << 52, (1 << 52) + 7),
        (u64::MAX, 0),
        (u64::MAX, u64::MAX),
    ];
    for (a, b) in pairs {
        assert_eq!(ulp_distance(a, b), ulp_distance(b, a));
        assert_eq!(ulp_distance(a, a), 0);
        assert_eq!(ulp_distance(b, b), 0);
    }
}

#[test]
fn ulp_distance_exact_values() {
    assert_eq!(ulp_distance(3, 10), 7);
    assert_eq!(ulp_distance(10, 3), 7);
    assert_eq!(ulp_distance(0, u64::MAX), u64::MAX);
    assert_eq!(ulp_distance(u64::MAX, 0), u64::MAX);
    let half_one: u64 = 0.5f64.to_bits();
    let half_two: u64 = f64::from_bits(half_one + 2).to_bits();
    assert_eq!(ulp_distance(half_two, half_one), 2);
}

#[test]
fn constants_match_float_formats() {
    assert_eq!(MIN_NORMAL_BITS, f32::MIN_POSITIVE.to_bits());
    assert_eq!(HALF_BITS, 0.5f32.to_bits());
    assert_eq!(NARROW_MANTISSA_DIGITS, f32::MANTISSA_DIGITS);
    assert_eq!(WIDE_MANTISSA_DIGITS, f64::MANTISSA_DIGITS);
    assert_eq!(ULP_SHIFT, f64::MANTISSA_DIGITS - f32::MANTISSA_DIGITS);
    assert_eq!(ULP_SHIFT, 29);
}

#[test]
fn scan_visits_every_pattern_in_order() {
    let lo: u32 = 100;
    let hi: u32 = 110;
    let mut scan = MaxErrorScan::new(lo, hi);
    let mut seen: Vec<u32> = Vec::new();
    while !scan.is_complete() {
        seen.push(scan.current_bits());
        scan.step(0, 0);
    }
    let expected: Vec<u32> = (lo..=hi).collect();
    assert_eq!(seen, expected);
}

#[test]
fn scan_keeps_first_maximum_on_ties() {
    let mut scan = MaxErrorScan::new(10, 13);
    let results: Vec<(u64, u64)> = vec![(1, 2), (0, 5), (9, 4), (2, 0)];
    for (candidate, oracle) in results {
        scan.step(candidate, oracle);
    }
    let (bits, ulps) = scan.best();
    assert_eq!(ulps, 5);
    assert_eq!(bits, 11);
}

#[test]
fn scan_single_point_range() {
    let mut scan = MaxErrorScan::new(7, 7);
    assert!(!scan.is_complete());
    assert_eq!(scan.current_bits(), 7);
    scan.step(42, 42);
    assert!(scan.is_complete());
    let (bits, ulps) = scan.best();
    assert_eq!(bits, 7);
    assert_eq!(ulps, 0);
}

#[test]
fn scan_over_whole_domain_starts_at_lower_bound() {
    let mut scan = MaxErrorScan::new(MIN_NORMAL_BITS, HALF_BITS);
    assert!(!scan.is_complete());
    assert_eq!(scan.current_bits(), MIN_NORMAL_BITS);
    scan.step(1, 4);
    assert!(!scan.is_complete());
    assert_eq!(scan.current_bits(), MIN_NORMAL_BITS + 1);
}

#[test]
fn bit_pattern_round_trip() {
    assert_eq!(f32::from_bits(MIN_NORMAL_BITS).to_bits(), MIN_NORMAL_BITS);
    assert_eq!(f32::from_bits(HALF_BITS).to_bits(), HALF_BITS);
    let mut b: u32 = MIN_NORMAL_BITS;
    while b <= HALF_BITS {
        assert_eq!(f32::from_bits(b).to_bits(), b);
        b = b.saturating_add(0x0001_0001);
    }
}
