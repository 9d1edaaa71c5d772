// The full block pipeline and channel handling on concrete blocks.

use subrou_rs::fx::SCALE;
use subrou_rs::mix::{Route, reduce_to_mono, route_for};
use subrou_rs::pipeline::Pipeline;

#[test]
fn test_process_silence() {
    let mut pipeline = Pipeline::new();
    let mut channels = vec![vec![0_i64; 64], vec![0_i64; 64]];
    pipeline.process(&mut channels, 440_000_000, SCALE, 0);
    for ch in &channels {
        assert!(ch.iter().all(|&s| s == 0));
    }
}

#[test]
fn test_process_generates_audio() {
    let mut pipeline = Pipeline::new();
    let mut channels = vec![vec![SCALE; 64], vec![SCALE; 64]];
    pipeline.process(&mut channels, 440_000_000, SCALE, 0);
    assert!(channels[0].iter().any(|&s| s != SCALE));
    assert_eq!(channels[0], channels[1]);
}

#[test]
fn process_replaces_only_the_selected_channel() {
    let mut pipeline = Pipeline::new();
    let mut channels = vec![vec![SCALE; 32], vec![SCALE; 32]];
    // selector 2 is the 1-based index of the second channel
    pipeline.process(&mut channels, 440_000_000, SCALE, 2);
    assert_eq!(channels[0], vec![SCALE; 32]);
    assert!(channels[1].iter().any(|&s| s != SCALE));
}

#[test]
fn out_of_range_selector_changes_nothing() {
    let mut pipeline = Pipeline::new();
    let mut channels = vec![vec![123_456_i64; 16], vec![-SCALE; 16]];
    pipeline.process(&mut channels, 440_000_000, SCALE, 5);
    assert_eq!(channels[0], vec![123_456_i64; 16]);
    assert_eq!(channels[1], vec![-SCALE; 16]);
}

#[test]
fn reset_returns_to_silence() {
    let mut pipeline = Pipeline::new();
    let mut channels = vec![vec![SCALE; 64]];
    pipeline.process(&mut channels, 440_000_000, SCALE, 0);
    assert!(pipeline.follower.level > 0);
    pipeline.reset();
    assert_eq!(pipeline.follower.level, 0);
    assert_eq!(pipeline.phase_fx, 0);
}

#[test]
fn initialize_adopts_the_host_rate() {
    let mut pipeline = Pipeline::new();
    assert_eq!(pipeline.sample_rate_hz, 44100);
    pipeline.initialize(48_000);
    assert_eq!(pipeline.sample_rate_hz, 48_000);
}

#[test]
fn reduce_to_mono_averages_channels() {
    let channels = vec![vec![2_i64, 4, -3], vec![4_i64, 8, -4]];
    let mono = reduce_to_mono(&channels);
    // the mean truncates toward zero: (-3 + -4) / 2 == -3
    assert_eq!(mono, vec![3, 6, -3]);
}

#[test]
fn reduce_to_mono_of_no_channels_is_empty() {
    let channels: Vec<Vec<i64>> = Vec::new();
    let mono = reduce_to_mono(&channels);
    assert!(mono.is_empty());
}

#[test]
fn routing_policy_matches_the_selector() {
    assert_eq!(route_for(0, 2), Route::MixIntoAll);
    assert_eq!(route_for(1, 2), Route::Replace { index: 0 });
    assert_eq!(route_for(2, 2), Route::Replace { index: 1 });
    assert_eq!(route_for(3, 2), Route::Ignore);
    assert_eq!(route_for(-1, 2), Route::Ignore);
    assert_eq!(route_for(1, 0), Route::Ignore);
}
