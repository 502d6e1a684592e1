//! The effect that changes nothing.

use crate::audio::midi::Message;
use crate::error::Error;
use crate::sample::Sample;
use vstd::prelude::*;

verus! {

/// The effect that gives what it takes.
pub struct Transparent {
    unit: crate::audio_unit::Transparent,
}

impl Transparent {
    pub fn new() -> (effect: Self) {
        Transparent { unit: crate::audio_unit::Transparent::new() }
    }

    /// Gives `input` as it is, whatever the messages. Never fails.
    pub fn process(
        &mut self,
        midi_messages: &[Message],
        input: &[Sample],
        output: &mut [Sample],
    ) -> (report: Result<(), Error>)
        requires
            input@.len() == old(output)@.len(),
        ensures
            report is Ok,
            final(output)@ == input@,
    {
        self.unit.process(input, output)
    }
}

impl Default for Transparent {
    fn default() -> (effect: Self) {
        Transparent::new()
    }
}

} // verus!
