use obs::voice::Voice;
use obs::DUTY_MAX;

#[test]
fn voice_square_wave_shape() {
    // 1000 samples/s at 100 Hz: period 10, width floor(10 * 0.5) = 5.
    let mut v = Voice::with_sample_rate(1000, 100, 5000);
    let got = v.out_buffer(20);
    let mut expected = Vec::new();
    for k in 0..20usize {
        expected.push(k % 10 < 5);
    }
    assert_eq!(got, expected);
}

#[test]
fn voice_is_periodic() {
    let mut v = Voice::with_sample_rate(44_100, 441, 2500);
    let got = v.out_buffer(500);
    for k in 100..500 {
        assert_eq!(got[k], got[k - 100]);
    }
    assert_eq!(got.iter().take(100).filter(|b| **b).count(), 25);
}

#[test]
fn voice_zero_frequency_is_silent() {
    let mut v = Voice::new(0, 5000);
    assert!(v.out_buffer(100).iter().all(|b| !*b));
}

#[test]
fn voice_duty_is_clamped() {
    let v = Voice::new(440, 3 * DUTY_MAX);
    assert_eq!(v.duty(), DUTY_MAX);
    assert_eq!(v.freq(), 440);
}

#[test]
fn voice_unset_keeps_tuning() {
    let mut v = Voice::with_sample_rate(1000, 100, 5000);
    v.unset();
    assert!(!v.is_on());
    assert_eq!(v.freq(), 100);
    assert_eq!(v.duty(), 5000);
    assert!(v.out_buffer(30).iter().all(|b| !*b));
    v.set(100, 5000);
    assert!(v.is_on());
    assert!(v.out());
}

#[test]
fn voice_set_zero_disables() {
    let mut v = Voice::with_sample_rate(1000, 100, 5000);
    v.set(0, 1234);
    assert!(!v.is_on());
    assert_eq!(v.freq(), 0);
    assert_eq!(v.duty(), 5000);
    assert!(!v.out());
}

#[test]
fn voice_frequency_above_rate_is_silent() {
    let mut v = Voice::with_sample_rate(1000, 5000, 5000);
    assert!(v.out_buffer(10).iter().all(|b| !*b));
}

#[test]
fn voice_first_width_ticks_are_high() {
    // 300 000 samples/s at 75 000 Hz: period 4, width floor(4 * 0.5) = 2.
    let mut v = Voice::new(75_000, 5000);
    let got: Vec<bool> = (0..8).map(|_| v.out()).collect();
    assert_eq!(got, vec![true, true, false, false, true, true, false, false]);
    v.set(75_000, 5000);
    assert_eq!(v.out_buffer(4), vec![true, true, false, false]);
}
