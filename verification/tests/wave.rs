// Sawtooth and sine oscillators on concrete phases. Phases are in
// micro-radians, frequencies in micro-Hz, amplitudes in micro-units.

use subrou_rs::fx::{PI_FX, SCALE, TWO_PI_FX};
use subrou_rs::wave::{saw_with_gain, sawtooth, sine, sine_with_gain};

#[test]
fn test_saw_wave_zero_phase() {
    let v = sawtooth(0, 10);
    // all sine terms vanish at phase zero
    assert!(v.abs() < 1);
}

#[test]
fn test_saw_wave_more_terms() {
    // With a single term this approximates a sine, increasing terms
    // should approach the ideal saw shape.
    let low = sawtooth(PI_FX / 2, 1);
    let high = sawtooth(PI_FX / 2, 50);
    let diff_low = (low - 500_000).abs();
    let diff_high = (high - 500_000).abs();
    assert!(diff_high < diff_low);
    assert!(diff_high < 100_000);
}

#[test]
fn test_saw_wave_pi_over_two() {
    let v = sawtooth(PI_FX / 2, 200);
    assert!((v - 500_000).abs() < 10_000);
}

#[test]
fn test_saw_wave_negative_pi_over_two() {
    let v = sawtooth(-(PI_FX / 2), 200);
    assert!((v + 500_000).abs() < 10_000);
}

#[test]
fn test_sine_with_gain_length() {
    let curve = vec![0, 500_000, 1_000_000];
    let out = sine_with_gain(1_000_000, 3, &curve);
    assert_eq!(out.len(), curve.len());
}

#[test]
fn test_sine_wave_values() {
    // A simple 1Hz sine at 4Hz sample rate should hit 1.0 at the second
    // sample; one micro-unit is the resolution of the representation.
    let val = sine(1_000_000, 4, 1);
    assert!((val - SCALE).abs() <= 1);
}

#[test]
fn test_saw_with_gain_length() {
    let curve = vec![SCALE; 5];
    let out = saw_with_gain(100_000_000, 44100, 3, &curve);
    assert_eq!(out.len(), curve.len());
}

#[test]
fn test_saw_with_gain_values() {
    // Constant unit gain should produce a waveform matching `sawtooth`
    let curve = vec![SCALE; 3];
    let out = saw_with_gain(10_000_000, 10, 3, &curve);
    let expected: Vec<i64> = (0..3)
        .map(|i| {
            let phase = (TWO_PI_FX * 10_000_000 * i) / (10 * SCALE) % TWO_PI_FX;
            sawtooth(phase, 3)
        })
        .collect();
    assert_eq!(out, expected);
}

#[test]
fn sine_with_gain_scales_each_sample() {
    // unit gain passes the sine through exactly; zero gain silences it
    let curve = vec![SCALE, SCALE, 0];
    let out = sine_with_gain(1_000_000, 4, &curve);
    assert_eq!(out[0], 0);
    assert_eq!(out[1], sine(1_000_000, 4, 1));
    assert_eq!(out[2], 0);
}

#[test]
fn sawtooth_is_odd() {
    // the sawtooth series is an odd function of phase, exactly
    for phase in [1, 100_000, 777_777, 1_570_796, 3_000_000, 5_555_555] {
        assert_eq!(sawtooth(phase, 25), -sawtooth(-phase, 25));
    }
}

#[test]
fn single_harmonic_is_a_scaled_sine() {
    // one harmonic degenerates to (2/pi) * sin(phase): at a quarter turn
    // that is 2/pi, about 0.63662
    let v = sawtooth(PI_FX / 2, 1);
    assert!((v - 636_619).abs() <= 2);
}

#[test]
fn sine_is_periodic_in_the_sample_index() {
    // 1 Hz at 8 Hz sample rate: indices one period apart give the same value
    let a = sine(1_000_000, 8, 1);
    let b = sine(1_000_000, 8, 9);
    assert_eq!(a, b);
    assert!(a > 600_000);
}
