//! Durations in samples, and silence.

use crate::audio::StreamConfig;
use crate::sample::{silence, Sample, SILENCE};
use vstd::prelude::*;

verus! {

/// The number of samples that `ms` milliseconds of a stream take: the whole
/// frames that fit in the duration, times the samples of a frame.
pub open spec fn samples_in(stream_config: StreamConfig, ms: u32) -> nat {
    ((ms as nat * stream_config.sample_rate as nat) / 1000) * stream_config.channels as nat
}

/// A longer duration never takes fewer samples.
pub proof fn samples_in_is_monotonic(stream_config: StreamConfig, shorter: u32, longer: u32)
    requires
        shorter <= longer,
    ensures
        samples_in(stream_config, shorter) <= samples_in(stream_config, longer),
{
    let rate = stream_config.sample_rate as nat;
    let channels = stream_config.channels as nat;
    assert(shorter as nat * rate <= longer as nat * rate) by (nonlinear_arith)
        requires
            shorter <= longer,
    ;
    let a = (shorter as nat * rate) / 1000;
    let b = (longer as nat * rate) / 1000;
    assert(a <= b) by (nonlinear_arith)
        requires
            a == (shorter as nat * rate) / 1000,
            b == (longer as nat * rate) / 1000,
            shorter as nat * rate <= longer as nat * rate,
    ;
    assert(a * channels <= b * channels) by (nonlinear_arith)
        requires
            a <= b,
    ;
}

/// Overwrites `data` with silence.
pub fn zero_slice(data: &mut [Sample])
    ensures
        final(data)@ == silence(old(data)@.len()),
{
    let n = data.len();
    let mut i: usize = 0;
    while i < n
        invariant
            i <= n,
            data@.len() == n,
            forall|j: int| 0 <= j < i ==> data@[j] == SILENCE,
        decreases n - i,
    {
        data[i] = SILENCE;
        i += 1;
    }
}

/// A frame of `size` samples of silence.
pub fn silent_frame(size: usize) -> (frame: Vec<Sample>)
    ensures
        frame@ == silence(size as nat),
{
    let mut frame: Vec<Sample> = Vec::new();
    while frame.len() < size
        invariant
            frame@.len() <= size,
            forall|i: int| 0 <= i < frame@.len() ==> frame@[i] == SILENCE,
        decreases size - frame.len(),
    {
        frame.push(SILENCE);
    }
    frame
}

/// Copies the frame `from` over `to`.
pub fn copy_frame(from: &[Sample], to: &mut [Sample])
    requires
        from@.len() == old(to)@.len(),
    ensures
        final(to)@ == from@,
{
    let n = from.len();
    let mut i: usize = 0;
    while i < n
        invariant
            i <= n,
            n == from@.len(),
            n == to@.len(),
            forall|j: int| 0 <= j < i ==> to@[j] == from@[j],
        decreases n - i,
    {
        to[i] = from[i];
        i += 1;
    }
}

/// `samples_in`, where the count can be addressed on this machine.
pub fn checked_ms_in_samples(stream_config: &StreamConfig, ms: u32) -> (samples: Option<usize>)
    ensures
        samples is Some <==> samples_in(*stream_config, ms) <= usize::MAX,
        samples is Some ==> samples->0 == samples_in(*stream_config, ms),
{
    let rate: u64 = stream_config.sample_rate as u64;
    let channels: u128 = stream_config.channels as u128;
    assert(ms as u64 * rate <= 0xffff_ffff * 0xffff_ffff) by (nonlinear_arith)
        requires
            ms <= 0xffff_ffff,
            rate <= 0xffff_ffff,
    ;
    let frames: u64 = (ms as u64 * rate) / 1000;
    assert(frames as u128 * channels <= 0xffff_ffff_ffff_ffff * 0xffff) by (nonlinear_arith)
        requires
            frames <= 0xffff_ffff_ffff_ffff,
            channels <= 0xffff,
    ;
    let samples: u128 = frames as u128 * channels;
    if samples <= usize::MAX as u128 {
        Some(samples as usize)
    } else {
        None
    }
}

/// The number of samples that `ms` milliseconds of a stream take.
pub fn ms_in_samples(stream_config: &StreamConfig, ms: u32) -> (samples: usize)
    requires
        samples_in(*stream_config, ms) <= usize::MAX,
    ensures
        samples == samples_in(*stream_config, ms),
{
    match checked_ms_in_samples(stream_config, ms) {
        Some(samples) => samples,
        None => 0,
    }
}

} // verus!
