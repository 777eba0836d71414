//! Playback core for curve-driven 2D character animation.
//!
//! The crate decodes flattened keyframe streams into typed interpolation
//! segments and evaluates them at arbitrary time offsets, drives a
//! queue-based animation sequencer with fade weighting and a guaranteed
//! idle fallback, and plans the per-frame ordering, masking and blending
//! of drawable mesh parts.
//!
//! All times and scalar values are fixed-point integers: multiples of
//! `1 / fixed::SCALE` of a unit (a second, or one unit of a model
//! parameter). Callers that work in floating point convert at the
//! boundary.

pub mod bank;
pub mod compositor;
pub mod config;
pub mod curve;
pub mod decode;
pub mod fixed;
pub mod message;
pub mod motion;
pub mod sequencer;
pub mod text;
