//! What the configuration says of the audio devices.

use vstd::prelude::*;

verus! {

/// The latency budget of the transport, and the names of the devices where
/// they are not the default ones.
#[derive(Debug)]
pub struct Audio {
    pub latency_ms: u32,
    pub input: Option<String>,
    pub output: Option<String>,
}

impl Audio {
    pub const DEFAULT_LATENCY_MS: u32 = 50;

    /// The latency budget where none is configured.
    pub fn default_latency_ms() -> (latency_ms: u32)
        ensures
            latency_ms == Self::DEFAULT_LATENCY_MS,
    {
        Self::DEFAULT_LATENCY_MS
    }
}

impl Default for Audio {
    fn default() -> (audio: Self)
        ensures
            audio.latency_ms == Audio::DEFAULT_LATENCY_MS,
            audio.input is None,
            audio.output is None,
    {
        Audio { latency_ms: Self::default_latency_ms(), input: None, output: None }
    }
}

} // verus!
