// Envelope follower and gain application, exercised on concrete blocks.
// Signal values are in micro-units (1_000_000 stands for 1.0), time
// constants in micro-milliseconds, rates in Hz.

use subrou_rs::envelope::{EnvelopeFollower, GainError, apply_gain, coefficient_fx};
use subrou_rs::fx::SCALE;

#[test]
fn test_envelope_follower_constant() {
    let samples = vec![SCALE; 100];
    let mut follower = EnvelopeFollower::new();
    let curve = follower.follow_envelope(&samples, 10_000_000, 10_000_000, 100);
    assert_eq!(curve.len(), samples.len());
    assert!(*curve.last().unwrap() > 900_000);
}

#[test]
fn test_envelope_follower_step_attack() {
    // Step from silence to full scale. The envelope should rise gradually
    // according to the attack time.
    let mut samples = vec![0_i64; 50];
    samples.extend(vec![SCALE; 50]);
    let mut follower = EnvelopeFollower::new();
    let curve = follower.follow_envelope(&samples, 10_000_000, 10_000_000, 1000);
    // Check initial silence region stays near zero
    assert!(curve[25] < 100_000);
    // The envelope should rise but not reach one immediately
    assert!(curve[55] > 200_000 && curve[55] < 1_000_000);
}

#[test]
fn test_envelope_follower_release() {
    // Start loud and drop to silence, verifying release behaviour
    let mut samples = vec![SCALE; 50];
    samples.extend(vec![0_i64; 50]);
    let mut follower = EnvelopeFollower::new();
    let curve = follower.follow_envelope(&samples, 1_000_000, 20_000_000, 1000);
    // Attack region should be close to one
    assert!(curve[10] > 800_000);
    // After release period the value should have decreased
    assert!(curve[90] < 300_000);
}

#[test]
fn test_apply_gain_curve() {
    let mut samples = vec![SCALE; 4];
    let curve = vec![0_i64, 500_000, 500_000, 1_000_000];
    let r = apply_gain(&mut samples, &curve);
    assert!(r.is_ok());
    assert_eq!(samples, vec![0, 500_000, 500_000, 1_000_000]);
}

#[test]
fn apply_gain_rejects_mismatched_lengths() {
    let mut samples = vec![SCALE; 4];
    let curve = vec![500_000_i64; 3];
    let r = apply_gain(&mut samples, &curve);
    assert_eq!(r, Err(GainError::LengthMismatch));
    // the signal is left untouched, never truncated or padded
    assert_eq!(samples, vec![SCALE; 4]);
}

#[test]
fn zero_time_constant_is_instantaneous() {
    // A non-positive time constant gives coefficient 1, so the level jumps
    // straight to the rectified target.
    assert_eq!(coefficient_fx(0, 48_000), SCALE);
    assert_eq!(coefficient_fx(-5_000_000, 48_000), SCALE);
    let mut follower = EnvelopeFollower::new();
    let curve = follower.follow_envelope(&vec![-700_000], 0, 0, 48_000);
    assert_eq!(curve, vec![700_000]);
}

#[test]
fn follower_state_carries_across_blocks() {
    let mut follower = EnvelopeFollower::new();
    let first = follower.follow_envelope(&vec![SCALE; 10], 0, 0, 1000);
    assert_eq!(*first.last().unwrap(), SCALE);
    // the next block starts from the previous level, not from zero
    let second = follower.follow_envelope(&vec![0; 1], 0, 1_000_000_000, 1000);
    assert!(second[0] > 0);
}

#[test]
fn envelope_output_is_rectified_and_bounded() {
    // Negative input is rectified: the curve never goes below zero and
    // never above the largest input magnitude.
    let samples = vec![-SCALE, SCALE, -SCALE, 0, -250_000];
    let mut follower = EnvelopeFollower::new();
    let curve = follower.follow_envelope(&samples, 2_000_000, 7_000_000, 8000);
    assert_eq!(curve.len(), samples.len());
    for v in curve {
        assert!(0 <= v && v <= SCALE);
    }
}
