//! The configuration of the processor.

pub mod audio;
pub mod effect;
pub mod midi;

pub use audio::Audio;
pub use effect::{DelayConfig, Effect, LooperConfig};
pub use midi::{Channel, ControlChange, Midi, MidiSlider, Note, NoteOn};

use vstd::prelude::*;

verus! {

/// The devices, the MIDI port and the effects, in the order in which they
/// run.
#[derive(Debug)]
pub struct Config {
    pub audio: Audio,
    pub midi: Midi,
    pub effects: Vec<Effect>,
}

impl Default for Config {
    /// The default devices, no MIDI port, and a single transparent effect.
    fn default() -> (config: Self)
        ensures
            config.audio.latency_ms == Audio::DEFAULT_LATENCY_MS,
            config.audio.input is None,
            config.audio.output is None,
            config.midi.port is None,
            config.effects@.len() == 1,
            config.effects@[0] is Transparent,
    {
        let mut effects: Vec<Effect> = Vec::new();
        effects.push(Effect::Transparent);
        Config { audio: Audio::default(), midi: Midi::default(), effects }
    }
}

} // verus!
