//! Samples, frames of samples, and the arithmetic on them.

use vstd::prelude::*;

verus! {

/// One audio sample, as the 32-bit word that the transport moves.
pub type Sample = i32;

/// The word that every arithmetic reads as silence.
pub const SILENCE: Sample = 0;

/// How amplitudes are added and scaled. The core is written against this
/// trait so that it never depends on the encoding of a sample.
///
/// `mixed` and `scaled` say what the two operations are; `mix` and `scale`
/// compute them. What is proved of the core holds of an arithmetic as far as
/// its `mix` and `scale` compute its `mixed` and `scaled`: that is proved of
/// [`FixedPoint`], and taken on trust of an arithmetic from elsewhere, where
/// `mixed` and `scaled` are ordinary functions and stand for what `mix` and
/// `scale` return.
pub trait Arithmetic {
    /// The sample that sounds like `a` and `b` together.
    spec fn mixed(a: Sample, b: Sample) -> Sample;

    /// The sample `a` with its amplitude multiplied by `factor`.
    spec fn scaled(a: Sample, factor: Sample) -> Sample;

    fn mix(a: Sample, b: Sample) -> (r: Sample)
        ensures
            r == Self::mixed(a, b),
    ;

    fn scale(a: Sample, factor: Sample) -> (r: Sample)
        ensures
            r == Self::scaled(a, factor),
    ;
}

/// `n` samples of silence.
pub open spec fn silence(n: nat) -> Seq<Sample> {
    Seq::new(n, |i: int| SILENCE)
}

/// The element-wise mix of two frames; it has the length of `a`.
pub open spec fn mix_frames<A: Arithmetic>(a: Seq<Sample>, b: Seq<Sample>) -> Seq<Sample> {
    Seq::new(a.len(), |i: int| A::mixed(a[i], b[i]))
}

/// Every sample of `frame` scaled by `factor`.
pub open spec fn scale_frame<A: Arithmetic>(frame: Seq<Sample>, factor: Sample) -> Seq<Sample> {
    Seq::new(frame.len(), |i: int| A::scaled(frame[i], factor))
}

/// `level` multiplied by itself: `power(level, 1) == level`, and each further
/// step scales by `level` once more. `power(level, 0)` is `level` too.
pub open spec fn power<A: Arithmetic>(level: Sample, exponent: nat) -> Sample
    decreases exponent,
{
    if exponent <= 1 {
        level
    } else {
        A::scaled(power::<A>(level, (exponent - 1) as nat), level)
    }
}

/// Computes `power(level, exponent)` by repeated scaling.
pub fn raise<A: Arithmetic>(level: Sample, exponent: u32) -> (r: Sample)
    ensures
        r == power::<A>(level, exponent as nat),
{
    let mut r: Sample = level;
    let mut done: u32 = 1;
    while done < exponent
        invariant
            1 <= done,
            done <= exponent || (exponent == 0 && done == 1),
            r == power::<A>(level, done as nat),
        decreases exponent - done,
    {
        r = A::scale(r, level);
        done = done + 1;
    }
    r
}

/// Signed integer samples with 16.16 fixed-point factors: mixing saturates at
/// the ends of the range, scaling multiplies by `factor / 65536`, rounds
/// toward zero and saturates.
pub struct FixedPoint;

/// `value` held to the range of a sample.
pub open spec fn saturate(value: int) -> Sample {
    if value > i32::MAX {
        i32::MAX
    } else if value < i32::MIN {
        i32::MIN
    } else {
        value as i32
    }
}

/// `value / 65536`, rounded toward zero.
pub open spec fn fixed_quotient(value: int) -> int {
    if value >= 0 {
        value / 65536
    } else {
        -((-value) / 65536)
    }
}

fn saturated(value: i64) -> (r: Sample)
    ensures
        r == saturate(value as int),
{
    if value > 2147483647 {
        2147483647
    } else if value < -2147483648 {
        -2147483648
    } else {
        value as i32
    }
}

impl Arithmetic for FixedPoint {
    open spec fn mixed(a: Sample, b: Sample) -> Sample {
        saturate(a + b)
    }

    open spec fn scaled(a: Sample, factor: Sample) -> Sample {
        saturate(fixed_quotient(a * factor))
    }

    fn mix(a: Sample, b: Sample) -> (r: Sample) {
        saturated(a as i64 + b as i64)
    }

    fn scale(a: Sample, factor: Sample) -> (r: Sample) {
        assert(-4611686018427387904 <= a * factor <= 4611686018427387904) by (nonlinear_arith)
            requires
                -2147483648 <= a <= 2147483647,
                -2147483648 <= factor <= 2147483647,
        ;
        let product: i64 = (a as i64) * (factor as i64);
        if product >= 0 {
            let magnitude: u64 = product as u64;
            saturated((magnitude / 65536) as i64)
        } else {
            let magnitude: u64 = (-product) as u64;
            saturated(-((magnitude / 65536) as i64))
        }
    }
}

} // verus!
