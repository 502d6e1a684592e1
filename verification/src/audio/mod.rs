//! The audio stream that the units process, and the MIDI events that steer
//! them.

pub mod midi;

use vstd::prelude::*;

verus! {

/// The format of a stream: interleaved frames of `channels` samples,
/// `sample_rate` frames a second.
#[derive(Clone, Copy, Debug, PartialEq, Eq, Structural)]
pub struct StreamConfig {
    pub channels: u16,
    pub sample_rate: u32,
}

} // verus!
