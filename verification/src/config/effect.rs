//! What the configuration says of each effect.

use crate::audio_unit::delay::DelayMs;
use crate::config::midi::{MidiSlider, NoteOn};
use crate::sample::Sample;
use vstd::prelude::*;

verus! {

/// One effect of the chain.
#[derive(Copy, Clone, Debug)]
pub enum Effect {
    Transparent,
    Delay(DelayConfig),
    Looper(LooperConfig),
}

/// A delay with `num` taps: tap *i* comes `delay_ms * i` after the dry
/// signal and is scaled by `level` *i* times.
#[derive(Copy, Clone, Debug)]
pub struct DelayConfig {
    /// The factor by which each tap is quieter than the one before it, as a
    /// sample word of the arithmetic in use.
    pub level: Sample,
    pub delay_ms: DelayMs,
    /// The delay that a slider at its lowest gives.
    pub min_delay_ms: DelayMs,
    /// The delay that a slider at its highest gives, and the most that the
    /// last tap may be behind the dry signal.
    pub max_delay_ms: DelayMs,
    pub num: u32,
    /// The slider that sets the delay, if there is one.
    pub delay_ms_slider: Option<MidiSlider>,
    /// The key on which the delay is tapped, if there is one.
    pub tap_tempo: Option<NoteOn>,
}

impl DelayConfig {
    pub const DEFAULT_DELAY: DelayMs = 250;

    pub const DEFAULT_DELAY_MIN: DelayMs = 0;

    pub const DEFAULT_DELAY_MAX: DelayMs = 2000;

    pub const DEFAULT_NUM: u32 = 6;

    pub fn default_delay() -> (delay_ms: DelayMs)
        ensures
            delay_ms == Self::DEFAULT_DELAY,
    {
        Self::DEFAULT_DELAY
    }

    pub fn default_delay_min() -> (delay_ms: DelayMs)
        ensures
            delay_ms == Self::DEFAULT_DELAY_MIN,
    {
        Self::DEFAULT_DELAY_MIN
    }

    pub fn default_delay_max() -> (delay_ms: DelayMs)
        ensures
            delay_ms == Self::DEFAULT_DELAY_MAX,
    {
        Self::DEFAULT_DELAY_MAX
    }

    pub fn default_num() -> (num: u32)
        ensures
            num == Self::DEFAULT_NUM,
    {
        Self::DEFAULT_NUM
    }
}

/// A looper and the keys that steer it.
#[derive(Copy, Clone, Debug)]
pub struct LooperConfig {
    /// The longest loop, in milliseconds.
    pub max_ms: u32,
    /// The key that starts and stops recording and playback.
    pub toggle: NoteOn,
    /// The key that arms overdubbing.
    pub overdub: NoteOn,
}

impl LooperConfig {
    pub const DEFAULT_LOOPER_MAX: u32 = 60_000;

    pub fn default_loop_max() -> (max_ms: u32)
        ensures
            max_ms == Self::DEFAULT_LOOPER_MAX,
    {
        Self::DEFAULT_LOOPER_MAX
    }
}

} // verus!
