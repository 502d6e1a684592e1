//! Serial composition: the output of one unit is the input of the next.

use crate::audio_unit::{serial, views, Circuit, Intake, Progress, Unit};
use crate::error::{ConfigurationError, Error};
use crate::sample::{Arithmetic, Sample};
use crate::util::copy_frame;
use vstd::prelude::*;
use vstd::slice::slice_to_vec;

verus! {

/// Units that run one after the other.
pub struct Pipeline {
    audio_units: Vec<Unit>,
}

impl View for Pipeline {
    type V = Seq<Circuit>;

    /// The units, in the order in which they run.
    closed spec fn view(&self) -> Seq<Circuit>
        decreases self,
    {
        views(self.audio_units@)
    }
}

/// What a pipeline has done after `count` units does not depend on the
/// commands of the units after them.
proof fn serial_ignores_later_intakes<A: Arithmetic>(
    units: Seq<Circuit>,
    one: Seq<Intake>,
    other: Seq<Intake>,
    input: Seq<Sample>,
    count: nat,
)
    requires
        count <= one.len(),
        count <= other.len(),
        forall|i: int| 0 <= i < count ==> one[i] == other[i],
    ensures
        serial::<A>(units, one, input, count) == serial::<A>(units, other, input, count),
    decreases count,
{
    if count > 0 && count <= units.len() {
        serial_ignores_later_intakes::<A>(units, one, other, input, (count - 1) as nat);
    }
}

/// A pipeline that a fault has stopped stays as it is.
proof fn serial_stays_after_fault<A: Arithmetic>(
    units: Seq<Circuit>,
    intakes: Seq<Intake>,
    input: Seq<Sample>,
    count: nat,
    later: nat,
)
    requires
        count <= later <= units.len(),
        serial::<A>(units, intakes, input, count).frame is Err,
    ensures
        serial::<A>(units, intakes, input, later) == serial::<A>(units, intakes, input, count),
    decreases later,
{
    if later > count {
        serial_stays_after_fault::<A>(units, intakes, input, count, (later - 1) as nat);
    }
}

impl Pipeline {
    /// The pipeline is not empty and each of its units is well formed.
    pub closed spec fn wf(&self) -> bool
        decreases self,
    {
        &&& self.audio_units@.len() > 0
        &&& forall|i: int|
            0 <= i < self.audio_units@.len() ==> (#[trigger] self.audio_units@[i]).wf()
    }

    /// Well-formed units are well-formed values.
    pub proof fn wf_holds_of_units(&self)
        requires
            self.wf(),
        ensures
            self@.len() > 0,
            forall|i: int| 0 <= i < self@.len() ==> (#[trigger] self@[i]).wf(),
        decreases self,
    {
        assert forall|i: int| 0 <= i < self@.len() implies (#[trigger] self@[i]).wf() by {
            self.audio_units@[i].wf_holds_of_circuit();
        }
    }

    /// A pipeline of `audio_units`, in that order; at least one is needed.
    pub fn new(audio_units: Vec<Unit>) -> (made: Result<Self, Error>)
        requires
            forall|i: int| 0 <= i < audio_units@.len() ==> (#[trigger] audio_units@[i]).wf(),
        ensures
            made is Ok <==> audio_units@.len() > 0,
            made matches Ok(pipeline) ==> pipeline.wf() && pipeline@ == views(audio_units@),
            made matches Err(error) ==> error == Error::Configuration(ConfigurationError::NoUnits),
    {
        if audio_units.len() == 0 {
            Err(Error::Configuration(ConfigurationError::NoUnits))
        } else {
            Ok(Pipeline { audio_units })
        }
    }

    /// Runs the units one after the other: the first on `input`, each of the
    /// others on what the one before it gave; `output` receives what the last
    /// one gives. The first fault ends the call and leaves `output` as it
    /// was.
    pub fn process<A: Arithmetic>(&mut self, input: &[Sample], output: &mut [Sample]) -> (report:
        Result<(), Error>)
        requires
            old(self).wf(),
            input@.len() == old(output)@.len(),
        ensures
            final(self).wf(),
            final(output)@.len() == old(output)@.len(),
            report is Err ==> final(output)@ == old(output)@,
            exists|intake: Intake|
                Circuit::Pipeline(old(self)@).accounts::<A>(
                    intake,
                    input@,
                    Circuit::Pipeline(final(self)@),
                    report,
                    final(output)@,
                ),
        decreases *old(self),
    {
        let n = input.len();
        let count = self.audio_units.len();
        let ghost units = old(self)@;
        let ghost mut intakes: Seq<Intake> = Seq::empty();
        let mut frame = slice_to_vec(input);
        let mut next = slice_to_vec(input);
        let mut at: usize = 0;
        while at < count
            invariant
                at <= count,
                count == self.audio_units@.len(),
                count == units.len(),
                units == old(self)@,
                n == input@.len(),
                n == frame@.len(),
                n == next@.len(),
                forall|j: int| 0 <= j < count ==> (#[trigger] self.audio_units@[j]).wf(),
                forall|j: int|
                    at <= j < count ==> self.audio_units@[j] == old(self).audio_units@[j],
                intakes.len() == at,
                serial::<A>(units, intakes, input@, at as nat) == (Progress {
                    units: views(self.audio_units@),
                    frame: Ok(frame@),
                }),
            decreases count - at,
        {
            let ghost before = views(self.audio_units@);
            let ghost sofar = intakes;
            let report = self.audio_units[at].process::<A>(frame.as_slice(), next.as_mut_slice());
            proof {
                let unit = units[at as int];
                let intake = choose|intake: Intake|
                    unit.accounts::<A>(
                        intake,
                        frame@,
                        self.audio_units@[at as int]@,
                        report,
                        next@,
                    );
                intakes = sofar.push(intake);
                serial_ignores_later_intakes::<A>(units, sofar, intakes, input@, at as nat);
                assert(views(self.audio_units@) =~= before.update(
                    at as int,
                    self.audio_units@[at as int]@,
                ));
            }
            match report {
                Err(error) => {
                    proof {
                        serial_stays_after_fault::<A>(
                            units,
                            intakes,
                            input@,
                            (at + 1) as nat,
                            count as nat,
                        );
                        assert(Circuit::Pipeline(units).accounts::<A>(
                            Intake { delay: Seq::empty(), looper: Seq::empty(), units: intakes },
                            input@,
                            Circuit::Pipeline(self@),
                            Err(error),
                            output@,
                        ));
                    }
                    return Err(error);
                },
                Ok(_) => {},
            }
            copy_frame(next.as_slice(), frame.as_mut_slice());
            at += 1;
        }
        copy_frame(frame.as_slice(), output);
        assert(Circuit::Pipeline(units).accounts::<A>(
            Intake { delay: Seq::empty(), looper: Seq::empty(), units: intakes },
            input@,
            Circuit::Pipeline(self@),
            Ok(()),
            output@,
        ));
        Ok(())
    }
}

} // verus!
