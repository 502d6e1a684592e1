//! The unit that changes nothing.

use crate::error::Error;
use crate::sample::Sample;
use vstd::prelude::*;

verus! {

/// The unit that gives what it takes.
#[derive(Debug)]
pub struct Transparent {}

impl Transparent {
    pub fn new() -> (unit: Self) {
        Transparent {  }
    }

    /// Gives `input` as it is. Never fails.
    pub fn process(&mut self, input: &[Sample], output: &mut [Sample]) -> (report: Result<
        (),
        Error,
    >)
        requires
            input@.len() == old(output)@.len(),
        ensures
            report is Ok,
            final(output)@ == input@,
    {
        let n = input.len();
        let mut i: usize = 0;
        while i < n
            invariant
                i <= n,
                n == input@.len(),
                n == output@.len(),
                forall|j: int| 0 <= j < i ==> output@[j] == input@[j],
            decreases n - i,
        {
            output[i] = input[i];
            i += 1;
        }
        Ok(())
    }
}

impl Default for Transparent {
    fn default() -> (unit: Self) {
        Transparent::new()
    }
}

} // verus!
