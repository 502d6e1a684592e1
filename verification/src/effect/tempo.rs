//! A tempo, as the time that one beat takes.

use vstd::prelude::*;

verus! {

/// A tempo: the time at which it was set and the duration of a beat, both
/// in microseconds.
#[derive(Clone, Copy, Debug, Eq, PartialEq, Structural)]
pub struct Tempo {
    pub start_timestamp: u64,
    pub beat_duration: u64,
}

impl Tempo {
    pub fn new(start_timestamp: u64, beat_duration: u64) -> (tempo: Self)
        ensures
            tempo == (Tempo { start_timestamp, beat_duration }),
    {
        Tempo { start_timestamp, beat_duration }
    }

    /// The duration of a beat in whole milliseconds, cut to 32 bits.
    pub fn beat_duration_as_ms(&self) -> (ms: u32)
        ensures
            ms == (self.beat_duration / 1000) as u32,
            self.beat_duration / 1000 <= u32::MAX ==> ms == self.beat_duration / 1000,
    {
        #[verifier::truncate]
        ((self.beat_duration / 1000) as u32)
    }
}

} // verus!
