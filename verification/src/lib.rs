//! Real-time audio feature analysis.
//!
//! A fixed-size sliding window over a sample stream maintains a running sum
//! and a running mean-absolute-deviation estimate in O(1) per sample, detects
//! significant transients against a self-adaptive threshold, and a processor
//! built on it emits time-stamped feature packets on a fixed sample cadence,
//! paced against wall-clock playback time.
//!
//! All statistics are kept as exact integer rationals: where a quantity is a
//! quotient, the library carries its numerator and denominator separately, so
//! every value is stated and proved exactly.

pub mod arith;
pub mod common;
pub mod keywords;
pub mod mp3;
pub mod numbers;
pub mod processor;
pub mod text;
pub mod wav;
pub mod window;
