use cumulus_primitives_utility::benchmark::{benchmark_era, benchmark_era_period};

#[test]
fn benchmark_period_is_half_next_power_of_two() {
    assert_eq!(benchmark_era_period(250), 128);
    assert_eq!(benchmark_era_period(256), 128);
    assert_eq!(benchmark_era_period(257), 256);
    assert_eq!(benchmark_era_period(0), 0);
    assert_eq!(benchmark_era_period(1), 0);
    assert_eq!(benchmark_era_period(3), 2);
    assert_eq!(benchmark_era_period((1u32 << 31) + 1), 2);
    assert_eq!(benchmark_era_period(u32::MAX), 2);
}

#[test]
fn benchmark_era_is_mortal() {
    assert_eq!(benchmark_era(250, 1000), Some((128, 1000 % 128)));
    assert_eq!(benchmark_era(250, 0), Some((128, 0)));
    // a requested period below four is raised to four
    assert_eq!(benchmark_era(3, 7), Some((4, 3)));
    // a count whose next power of two overflows asks for period two, raised to four
    assert_eq!(benchmark_era(u32::MAX, 100_001), Some((4, 1)));
    // a period of 65536 quantizes the phase to multiples of sixteen
    assert_eq!(benchmark_era(100_000, 100_001), Some((65536, 34464)));
    assert_eq!(benchmark_era(1, 9), Some((4, 1)));
}
