//! Real-time signal pipeline: an envelope follower that tracks the amplitude
//! of an incoming signal, and a band-limited sawtooth oscillator whose output
//! is scaled by that envelope to produce an envelope-driven tone.
//!
//! All signal values are fixed-point: an `i64` counts micro-units, so
//! [`fx::SCALE`] stands for 1.0. The verified core covers mono reduction,
//! envelope following, harmonic synthesis, gain application and channel
//! routing; host integration converts to and from this representation at the
//! boundary.

pub mod envelope;
pub mod fx;
pub mod mix;
pub mod pipeline;
pub mod trig;
pub mod wave;
