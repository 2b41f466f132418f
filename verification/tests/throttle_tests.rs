use gpuseed::throttle::{
    effective_batch, mean_usage, throttle_for, Fraction, ThrottleSample, MAX_USAGE,
    MONITOR_INTERVAL_MS, SCALE, THROTTLED_PAUSE_MS,
};

fn fraction(millionths: u32) -> Fraction {
    Fraction::new(millionths).unwrap()
}

#[test]
fn throttle_above_cap_is_cap_over_usage() {
    let throttle = throttle_for(fraction(900_000));
    assert_eq!(throttle.millionths(), 888_888);
    let as_float = throttle.millionths() as f64 / SCALE as f64;
    assert!((as_float - 0.8889).abs() < 0.0001);
}

#[test]
fn throttle_below_cap_is_one() {
    assert_eq!(throttle_for(fraction(500_000)).millionths(), SCALE);
    assert_eq!(throttle_for(Fraction::zero()).millionths(), SCALE);
}

#[test]
fn throttle_at_cap_is_exactly_one() {
    assert_eq!(MAX_USAGE, 800_000);
    assert_eq!(throttle_for(fraction(MAX_USAGE)).millionths(), SCALE);
    assert_eq!(throttle_for(fraction(MAX_USAGE + 1)).millionths(), 999_998);
}

#[test]
fn throttle_at_full_load_is_the_cap() {
    assert_eq!(throttle_for(Fraction::one()).millionths(), MAX_USAGE);
}

#[test]
fn throttle_stays_in_range_and_falls_with_load() {
    let mut last = SCALE;
    let mut usage = 0u32;
    while usage <= SCALE {
        let throttle = throttle_for(fraction(usage)).millionths();
        assert!(throttle > 0 && throttle <= SCALE);
        assert!(throttle >= MAX_USAGE);
        assert!(throttle <= last);
        assert_eq!(throttle == SCALE, usage <= MAX_USAGE);
        last = throttle;
        usage += 12_500;
    }
}

#[test]
fn effective_batch_rounds_down() {
    assert_eq!(effective_batch(8192, fraction(300_000)), 2457);
    assert_eq!(effective_batch(8192, fraction(888_888)), 7281);
    assert_eq!(effective_batch(1000, fraction(999_999)), 999);
}

#[test]
fn effective_batch_is_never_zero() {
    assert_eq!(effective_batch(1, fraction(10)), 1);
    assert_eq!(effective_batch(0, Fraction::one()), 1);
    assert_eq!(effective_batch(8192, Fraction::zero()), 1);
}

#[test]
fn effective_batch_unthrottled_is_the_base() {
    assert_eq!(effective_batch(8192, Fraction::one()), 8192);
    assert_eq!(effective_batch(1_000_000, Fraction::one()), 1_000_000);
    assert_eq!(effective_batch(usize::MAX, Fraction::one()), usize::MAX);
}

#[test]
fn fraction_new_takes_up_to_one() {
    assert_eq!(Fraction::new(0).unwrap().millionths(), 0);
    assert_eq!(Fraction::new(SCALE).unwrap().millionths(), SCALE);
    assert!(Fraction::new(SCALE + 1).is_none());
    assert!(Fraction::new(u32::MAX).is_none());
}

#[test]
fn fraction_clamped_stops_at_one() {
    assert_eq!(Fraction::clamped(123).millionths(), 123);
    assert_eq!(Fraction::clamped(SCALE).millionths(), SCALE);
    assert_eq!(Fraction::clamped(SCALE + 1).millionths(), SCALE);
    assert_eq!(Fraction::clamped(u32::MAX).millionths(), SCALE);
}

#[test]
fn fraction_from_percent() {
    assert_eq!(Fraction::from_percent(0).unwrap().millionths(), 0);
    assert_eq!(Fraction::from_percent(37).unwrap().millionths(), 370_000);
    assert_eq!(Fraction::from_percent(100).unwrap().millionths(), SCALE);
    assert!(Fraction::from_percent(101).is_none());
}

#[test]
fn fraction_min_and_equality() {
    let low = fraction(250_000);
    let high = fraction(750_000);
    assert_eq!(low.min(high), low);
    assert_eq!(high.min(low), low);
    assert_eq!(low.min(low), low);
    assert_ne!(low, high);
    assert_eq!(Fraction::one(), fraction(SCALE));
}

#[test]
fn mean_usage_is_the_mean_rounded_down() {
    assert_eq!(mean_usage(&vec![]).millionths(), 0);
    assert_eq!(mean_usage(&vec![fraction(400_000)]).millionths(), 400_000);
    let cores = vec![fraction(100_000), fraction(200_000), fraction(200_000)];
    assert_eq!(mean_usage(&cores).millionths(), 166_666);
    let busy = vec![Fraction::one(); 64];
    assert_eq!(mean_usage(&busy).millionths(), SCALE);
}

#[test]
fn neutral_sample_has_no_load_and_no_throttle() {
    let sample = ThrottleSample::neutral();
    assert_eq!(sample.cpu_usage().millionths(), 0);
    assert_eq!(sample.gpu_usage().millionths(), 0);
    assert_eq!(sample.cpu_throttle().millionths(), SCALE);
    assert_eq!(sample.gpu_throttle().millionths(), SCALE);
    assert_eq!(sample.factor().millionths(), SCALE);
    assert!(!sample.is_throttled());
    assert_eq!(ThrottleSample::default(), sample);
}

#[test]
fn sample_from_usage_derives_both_throttles() {
    let sample = ThrottleSample::from_usage(fraction(900_000), Some(fraction(1_000_000)));
    assert_eq!(sample.cpu_usage().millionths(), 900_000);
    assert_eq!(sample.gpu_usage().millionths(), 1_000_000);
    assert_eq!(sample.cpu_throttle().millionths(), 888_888);
    assert_eq!(sample.gpu_throttle().millionths(), 800_000);
    assert_eq!(sample.factor().millionths(), 800_000);
    assert!(sample.is_throttled());
}

#[test]
fn sample_without_gpu_channel_counts_no_gpu_load() {
    let sample = ThrottleSample::from_usage(fraction(850_000), None);
    assert_eq!(sample.gpu_usage().millionths(), 0);
    assert_eq!(sample.gpu_throttle().millionths(), SCALE);
    assert_eq!(sample.cpu_throttle().millionths(), 941_176);
    assert_eq!(sample.factor().millionths(), 941_176);
    assert!(sample.is_throttled());
}

#[test]
fn sample_measured_from_cores() {
    let cores = vec![fraction(1_000_000), fraction(900_000), fraction(950_000), fraction(750_000)];
    let sample = ThrottleSample::measure(&cores, None);
    assert_eq!(sample.cpu_usage().millionths(), 900_000);
    assert_eq!(sample.cpu_throttle().millionths(), 888_888);
    assert!(sample.is_throttled());

    let idle = ThrottleSample::measure(&vec![], Some(fraction(300_000)));
    assert_eq!(idle.cpu_usage().millionths(), 0);
    assert_eq!(idle.gpu_usage().millionths(), 300_000);
    assert!(!idle.is_throttled());
}

#[test]
fn sample_at_the_cap_is_not_throttled() {
    let sample = ThrottleSample::from_usage(fraction(MAX_USAGE), Some(fraction(MAX_USAGE)));
    assert_eq!(sample.factor().millionths(), SCALE);
    assert!(!sample.is_throttled());
}

#[test]
fn cadence_constants() {
    assert_eq!(MONITOR_INTERVAL_MS, 500);
    assert_eq!(THROTTLED_PAUSE_MS, 1);
}
