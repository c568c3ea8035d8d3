//! Core of a rhythm game: a beat-analysis pipeline (signal conditioning,
//! onset detection, debouncing), a target scheduler, the per-frame target
//! lifecycle and hit judge, and the session state machine that ties the
//! phases of one play-through together.
//!
//! All times are integer milliseconds from track start; audio samples are
//! fixed-point integer amplitudes. Rendering, audio decoding and playback
//! live outside this crate and talk to it through plain values.

pub mod config;
pub mod errors;
pub mod filter;
pub mod geom;
pub mod debounce;
pub mod onset;
pub mod pipeline;
pub mod schedule;
pub mod session;
pub mod target;
pub mod tracks;
