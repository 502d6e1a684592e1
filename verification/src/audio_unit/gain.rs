//! Gain: every sample scaled by one coefficient.

use crate::error::Error;
use crate::sample::{scale_frame, Arithmetic, Sample};
use vstd::prelude::*;

verus! {

/// A gain: the coefficient by which it scales.
pub struct Gain {
    gain: Sample,
}

impl View for Gain {
    type V = Sample;

    /// The coefficient.
    closed spec fn view(&self) -> Sample {
        self.gain
    }
}

impl Gain {
    /// A gain of the coefficient `gain`, a sample word of the arithmetic in
    /// use.
    pub fn new(gain: Sample) -> (unit: Self)
        ensures
            unit@ == gain,
    {
        Gain { gain }
    }

    /// Gives every sample of `input`, scaled by the coefficient. Never fails.
    pub fn process<A: Arithmetic>(&mut self, input: &[Sample], output: &mut [Sample]) -> (report:
        Result<(), Error>)
        requires
            input@.len() == old(output)@.len(),
        ensures
            report is Ok,
            final(self)@ == old(self)@,
            final(output)@ == scale_frame::<A>(input@, old(self)@),
    {
        let n = input.len();
        let mut i: usize = 0;
        while i < n
            invariant
                i <= n,
                n == input@.len(),
                n == output@.len(),
                self.gain == old(self).gain,
                forall|j: int| 0 <= j < i ==> output@[j] == A::scaled(input@[j], self.gain),
            decreases n - i,
        {
            output[i] = A::scale(input[i], self.gain);
            i += 1;
        }
        Ok(())
    }
}

} // verus!
