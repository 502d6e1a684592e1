//! Real-time audio effects core: a sample transport between capture and
//! render, composable processing units (gain, delay line, looper, serial and
//! parallel composition) and the mapping from MIDI events to control values.
//!
//! Samples are opaque 32-bit words. Everything that only moves samples is
//! independent of how a word encodes an amplitude; the two places that compute
//! with amplitudes (mixing and scaling) go through [`sample::Arithmetic`].

pub mod audio;
pub mod audio_unit;
pub mod config;
pub mod control;
pub mod effect;
pub mod error;
pub mod ring_buffer;
pub mod sample;
pub mod util;

pub use config::Config;
pub use error::Error;
