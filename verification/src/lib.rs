//! A step-sequenced drum machine engine.
//!
//! Each instrument voice (kick, snare, hi-hat) owns a sixteen-slot pattern
//! that is played back against a shared tempo. The host calls into the engine
//! on a coarse timer; every call fills a short lookahead window with step
//! resolutions whose times are exact multiples of the step span, whatever the
//! jitter of the timer.
//!
//! Time is counted in whole ticks ([`timing::TICKS_PER_SECOND`] to the second)
//! and tempo in thousandths of a beat per minute, so that every quantity the
//! engine computes with is an integer.

mod arith;
pub mod audio;
pub mod error;
pub mod laws;
pub mod sequencer;
pub mod sounds;
pub mod timing;
pub mod track;

pub use audio::Audio;
