//! Parallel composition: every unit takes the same input, and what they
//! give is mixed.

use crate::audio_unit::{parallel, views, Circuit, Intake, Progress, Unit};
use crate::error::{ConfigurationError, Error};
use crate::sample::{mix_frames, Arithmetic, Sample};
use crate::util::{copy_frame, silent_frame};
use vstd::prelude::*;

verus! {

/// Units that run side by side.
pub struct Split {
    audio_units: Vec<Unit>,
}

impl View for Split {
    type V = Seq<Circuit>;

    /// The units, in the order in which they are mixed.
    closed spec fn view(&self) -> Seq<Circuit>
        decreases self,
    {
        views(self.audio_units@)
    }
}

/// What a split has done after `count` units does not depend on the commands
/// of the units after them.
proof fn parallel_ignores_later_intakes<A: Arithmetic>(
    units: Seq<Circuit>,
    one: Seq<Intake>,
    other: Seq<Intake>,
    input: Seq<Sample>,
    count: nat,
)
    requires
        count <= one.len(),
        count <= other.len(),
        forall|i: int| 0 <= i < count ==> one[i] == other[i],
    ensures
        parallel::<A>(units, one, input, count) == parallel::<A>(units, other, input, count),
    decreases count,
{
    if count > 0 && count <= units.len() {
        parallel_ignores_later_intakes::<A>(units, one, other, input, (count - 1) as nat);
    }
}

/// A split that a fault has stopped stays as it is.
proof fn parallel_stays_after_fault<A: Arithmetic>(
    units: Seq<Circuit>,
    intakes: Seq<Intake>,
    input: Seq<Sample>,
    count: nat,
    later: nat,
)
    requires
        count <= later <= units.len(),
        parallel::<A>(units, intakes, input, count).frame is Err,
    ensures
        parallel::<A>(units, intakes, input, later) == parallel::<A>(units, intakes, input, count),
    decreases later,
{
    if later > count {
        parallel_stays_after_fault::<A>(units, intakes, input, count, (later - 1) as nat);
    }
}

impl Split {
    /// The split is not empty and each of its units is well formed.
    pub closed spec fn wf(&self) -> bool
        decreases self,
    {
        &&& self.audio_units@.len() > 0
        &&& forall|i: int|
            0 <= i < self.audio_units@.len() ==> (#[trigger] self.audio_units@[i]).wf()
    }

    /// Well-formed units are well-formed values.
    pub proof fn wf_holds_of_units(&self)
        requires
            self.wf(),
        ensures
            self@.len() > 0,
            forall|i: int| 0 <= i < self@.len() ==> (#[trigger] self@[i]).wf(),
        decreases self,
    {
        assert forall|i: int| 0 <= i < self@.len() implies (#[trigger] self@[i]).wf() by {
            self.audio_units@[i].wf_holds_of_circuit();
        }
    }

    /// A split over `audio_units`; at least one is needed.
    pub fn new(audio_units: Vec<Unit>) -> (made: Result<Self, Error>)
        requires
            forall|i: int| 0 <= i < audio_units@.len() ==> (#[trigger] audio_units@[i]).wf(),
        ensures
            made is Ok <==> audio_units@.len() > 0,
            made matches Ok(split) ==> split.wf() && split@ == views(audio_units@),
            made matches Err(error) ==> error == Error::Configuration(ConfigurationError::NoUnits),
    {
        if audio_units.len() == 0 {
            Err(Error::Configuration(ConfigurationError::NoUnits))
        } else {
            Ok(Split { audio_units })
        }
    }

    /// Runs every unit on `input` and mixes what they give, in order, into
    /// a frame that starts as silence; `output` receives the mix. The first
    /// fault ends the call and leaves `output` as it was.
    pub fn process<A: Arithmetic>(&mut self, input: &[Sample], output: &mut [Sample]) -> (report:
        Result<(), Error>)
        requires
            old(self).wf(),
            input@.len() == old(output)@.len(),
        ensures
            final(self).wf(),
            final(output)@.len() == old(output)@.len(),
            report is Err ==> final(output)@ == old(output)@,
            exists|intake: Intake|
                Circuit::Split(old(self)@).accounts::<A>(
                    intake,
                    input@,
                    Circuit::Split(final(self)@),
                    report,
                    final(output)@,
                ),
        decreases *old(self),
    {
        let length = output.len();
        let count = self.audio_units.len();
        let ghost units = old(self)@;
        let ghost mut intakes: Seq<Intake> = Seq::empty();
        let mut mix = silent_frame(length);
        let mut audio_unit_output = silent_frame(length);
        let mut at: usize = 0;
        while at < count
            invariant
                at <= count,
                count == self.audio_units@.len(),
                count == units.len(),
                units == old(self)@,
                length == input@.len(),
                length == mix@.len(),
                length == audio_unit_output@.len(),
                forall|j: int| 0 <= j < count ==> (#[trigger] self.audio_units@[j]).wf(),
                forall|j: int|
                    at <= j < count ==> self.audio_units@[j] == old(self).audio_units@[j],
                intakes.len() == at,
                parallel::<A>(units, intakes, input@, at as nat) == (Progress {
                    units: views(self.audio_units@),
                    frame: Ok(mix@),
                }),
            decreases count - at,
        {
            let ghost before = views(self.audio_units@);
            let ghost sofar = intakes;
            let ghost mixed = mix@;
            let report = self.audio_units[at].process::<A>(
                input,
                audio_unit_output.as_mut_slice(),
            );
            proof {
                let unit = units[at as int];
                let intake = choose|intake: Intake|
                    unit.accounts::<A>(
                        intake,
                        input@,
                        self.audio_units@[at as int]@,
                        report,
                        audio_unit_output@,
                    );
                intakes = sofar.push(intake);
                parallel_ignores_later_intakes::<A>(units, sofar, intakes, input@, at as nat);
                assert(views(self.audio_units@) =~= before.update(
                    at as int,
                    self.audio_units@[at as int]@,
                ));
            }
            match report {
                Err(error) => {
                    proof {
                        parallel_stays_after_fault::<A>(
                            units,
                            intakes,
                            input@,
                            (at + 1) as nat,
                            count as nat,
                        );
                        assert(Circuit::Split(units).accounts::<A>(
                            Intake { delay: Seq::empty(), looper: Seq::empty(), units: intakes },
                            input@,
                            Circuit::Split(self@),
                            Err(error),
                            output@,
                        ));
                    }
                    return Err(error);
                },
                Ok(_) => {},
            }
            let mut i: usize = 0;
            while i < length
                invariant
                    i <= length,
                    length == mix@.len(),
                    length == mixed.len(),
                    length == audio_unit_output@.len(),
                    forall|j: int|
                        0 <= j < i ==> mix@[j] == A::mixed(mixed[j], audio_unit_output@[j]),
                    forall|j: int| i <= j < length ==> mix@[j] == mixed[j],
                decreases length - i,
            {
                mix[i] = A::mix(mix[i], audio_unit_output[i]);
                i += 1;
            }
            assert(mix@ =~= mix_frames::<A>(mixed, audio_unit_output@));
            at += 1;
        }
        copy_frame(mix.as_slice(), output);
        assert(Circuit::Split(units).accounts::<A>(
            Intake { delay: Seq::empty(), looper: Seq::empty(), units: intakes },
            input@,
            Circuit::Split(self@),
            Ok(()),
            output@,
        ));
        Ok(())
    }
}

} // verus!
