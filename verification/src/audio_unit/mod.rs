//! The units that process frames of audio, and how they compose.
//!
//! A unit takes one frame and gives one of the same length. Units form a
//! tree: a pipeline runs its units one after the other, a split runs them
//! side by side and mixes what they give.

pub mod delay;
pub mod gain;
pub mod looper;
pub mod pipeline;
pub mod split;
pub mod transparent;

use crate::error::Error;
use crate::sample::{mix_frames, scale_frame, silence, Arithmetic, Sample};
use vstd::prelude::*;

pub use delay::Delay;
pub use gain::Gain;
pub use looper::Looper;
pub use pipeline::Pipeline;
pub use split::Split;
pub use transparent::Transparent;

verus! {

/// A processing unit.
pub enum Unit {
    Transparent(Transparent),
    Gain(Gain),
    Delay(Delay),
    Looper(Looper),
    Pipeline(Pipeline),
    Split(Split),
}

/// A unit as a value: the tree of units with what each of them holds.
pub enum Circuit {
    Transparent,
    Gain(Sample),
    Delay(delay::DelayLine),
    Looper(looper::Tape),
    Pipeline(Seq<Circuit>),
    Split(Seq<Circuit>),
}

/// The commands that the units of a tree took from their control channels
/// in one call: those of a delay line or of a looper, and for a pipeline or a
/// split those of each of its units, in order.
pub struct Intake {
    pub delay: Seq<delay::Message>,
    pub looper: Seq<looper::Message>,
    pub units: Seq<Intake>,
}

/// A unit after a call, and the frame that it gave or the fault that ended
/// the call.
pub struct Outcome {
    pub unit: Circuit,
    pub frame: Result<Seq<Sample>, Error>,
}

/// The units of a pipeline or a split after some of them have run, and the
/// frame that they have made so far or the fault that stopped them.
pub struct Progress {
    pub units: Seq<Circuit>,
    pub frame: Result<Seq<Sample>, Error>,
}

impl View for Unit {
    type V = Circuit;

    open spec fn view(&self) -> Circuit
        decreases self,
    {
        match self {
            Unit::Transparent(_) => Circuit::Transparent,
            Unit::Gain(gain) => Circuit::Gain(gain@),
            Unit::Delay(delay) => Circuit::Delay(delay@),
            Unit::Looper(looper) => Circuit::Looper(looper@),
            Unit::Pipeline(pipeline) => Circuit::Pipeline(pipeline@),
            Unit::Split(split) => Circuit::Split(split@),
        }
    }
}

/// Each unit as a value.
pub open spec fn views(units: Seq<Unit>) -> Seq<Circuit>
    decreases units,
{
    Seq::new(
        units.len(),
        |i: int|
            if 0 <= i < units.len() {
                units[i]@
            } else {
                Circuit::Transparent
            },
    )
}

impl Unit {
    /// Every unit of the tree is well formed.
    pub open spec fn wf(&self) -> bool
        decreases self,
    {
        match self {
            Unit::Transparent(_) => true,
            Unit::Gain(_) => true,
            Unit::Delay(delay) => delay.wf(),
            Unit::Looper(looper) => looper@.wf(),
            Unit::Pipeline(pipeline) => pipeline.wf(),
            Unit::Split(split) => split.wf(),
        }
    }

    /// A well-formed unit is a well-formed value.
    pub proof fn wf_holds_of_circuit(&self)
        requires
            self.wf(),
        ensures
            self@.wf(),
        decreases self,
    {
        match self {
            Unit::Delay(delay) => {
                delay.wf_holds_of_line();
            },
            Unit::Pipeline(pipeline) => {
                pipeline.wf_holds_of_units();
            },
            Unit::Split(split) => {
                split.wf_holds_of_units();
            },
            _ => {},
        }
    }

    /// Processes one frame: `output` receives what the unit gives for
    /// `input`. Delay lines and loopers first take the commands that have
    /// arrived for them. A fault ends the call and leaves `output` as it was.
    pub fn process<A: Arithmetic>(&mut self, input: &[Sample], output: &mut [Sample]) -> (report:
        Result<(), Error>)
        requires
            old(self).wf(),
            input@.len() == old(output)@.len(),
        ensures
            final(self).wf(),
            final(output)@.len() == old(output)@.len(),
            report is Err ==> final(output)@ == old(output)@,
            exists|intake: Intake|
                old(self)@.accounts::<A>(intake, input@, final(self)@, report, final(output)@),
        decreases *old(self),
    {
        match self {
            Unit::Transparent(transparent) => {
                let report = transparent.process(input, output);
                assert(old(self)@.accounts::<A>(
                    Intake::none(),
                    input@,
                    self@,
                    report,
                    output@,
                ));
                report
            },
            Unit::Gain(gain) => {
                let report = gain.process::<A>(input, output);
                assert(old(self)@.accounts::<A>(
                    Intake::none(),
                    input@,
                    self@,
                    report,
                    output@,
                ));
                report
            },
            Unit::Delay(delay) => {
                let ghost before = delay@;
                let report = delay.process(input, output);
                proof {
                    let messages = choose|messages: Seq<delay::Message>|
                        before.accounts(messages, input@, delay@, report, old(output)@, output@);
                    let intake = Intake {
                        delay: messages,
                        looper: Seq::empty(),
                        units: Seq::empty(),
                    };
                    assert(old(self)@.accounts::<A>(intake, input@, self@, report, output@));
                }
                report
            },
            Unit::Looper(looper) => {
                let ghost before = looper@;
                let report = looper.process::<A>(input, output);
                proof {
                    let messages = choose|messages: Seq<looper::Message>|
                        {
                            &&& looper@ == before.received_all(messages).frame::<A>(input@).0
                            &&& output@ == before.received_all(messages).frame::<A>(input@).1
                        };
                    let intake = Intake {
                        delay: Seq::empty(),
                        looper: messages,
                        units: Seq::empty(),
                    };
                    before.received_all_keeps_wf(messages);
                    before.received_all(messages).frame_keeps_wf::<A>(input@);
                    assert(old(self)@.accounts::<A>(intake, input@, self@, report, output@));
                }
                report
            },
            Unit::Pipeline(pipeline) => pipeline.process::<A>(input, output),
            Unit::Split(split) => split.process::<A>(input, output),
        }
    }
}

impl Intake {
    /// No command at all.
    pub open spec fn none() -> Intake {
        Intake { delay: Seq::empty(), looper: Seq::empty(), units: Seq::empty() }
    }

    /// The commands of the unit at `index`: none where `intakes` has no
    /// entry for it.
    pub open spec fn of(intakes: Seq<Intake>, index: int) -> Intake {
        if 0 <= index < intakes.len() {
            intakes[index]
        } else {
            Intake::none()
        }
    }
}

impl Circuit {
    /// Whether a call that took `input` and the commands of `intake` left
    /// the unit as `after`, with this report and this output: the unit is as
    /// `run` says; the report is `Ok` exactly when `run` gives a frame, and
    /// the output is then that frame; otherwise the report is the fault.
    pub open spec fn accounts<A: Arithmetic>(
        self,
        intake: Intake,
        input: Seq<Sample>,
        after: Circuit,
        report: Result<(), Error>,
        output: Seq<Sample>,
    ) -> bool {
        &&& after == self.run::<A>(intake, input).unit
        &&& match self.run::<A>(intake, input).frame {
            Ok(frame) => report is Ok && output == frame,
            Err(error) => report == Err::<(), Error>(error),
        }
    }

    /// Every delay line and looper of the tree is well formed, and no
    /// pipeline or split is empty.
    pub open spec fn wf(self) -> bool
        decreases self,
    {
        match self {
            Circuit::Transparent => true,
            Circuit::Gain(_) => true,
            Circuit::Delay(line) => line.wf(),
            Circuit::Looper(tape) => tape.wf(),
            Circuit::Pipeline(units) => units.len() > 0 && forall|i: int|
                0 <= i < units.len() ==> (#[trigger] units[i]).wf(),
            Circuit::Split(units) => units.len() > 0 && forall|i: int|
                0 <= i < units.len() ==> (#[trigger] units[i]).wf(),
        }
    }

    /// One call of `process`: the unit afterwards and the frame it gives for
    /// `input`, when its units take the commands of `intake`.
    pub open spec fn run<A: Arithmetic>(self, intake: Intake, input: Seq<Sample>) -> Outcome
        decreases self, 0nat,
    {
        match self {
            Circuit::Transparent => Outcome { unit: self, frame: Ok(input) },
            Circuit::Gain(gain) => Outcome { unit: self, frame: Ok(scale_frame::<A>(input, gain)) },
            Circuit::Delay(line) => Outcome {
                unit: Circuit::Delay(line.step(intake.delay, input).0),
                frame: line.step(intake.delay, input).1,
            },
            Circuit::Looper(tape) => Outcome {
                unit: Circuit::Looper(tape.received_all(intake.looper).frame::<A>(input).0),
                frame: Ok(tape.received_all(intake.looper).frame::<A>(input).1),
            },
            Circuit::Pipeline(units) => Outcome {
                unit: Circuit::Pipeline(serial::<A>(units, intake.units, input, units.len()).units),
                frame: serial::<A>(units, intake.units, input, units.len()).frame,
            },
            Circuit::Split(units) => Outcome {
                unit: Circuit::Split(parallel::<A>(units, intake.units, input, units.len()).units),
                frame: parallel::<A>(units, intake.units, input, units.len()).frame,
            },
        }
    }
}

impl Circuit {
    /// Whatever commands arrive, a call leaves every unit of the tree well
    /// formed, and the frame that it gives is as long as the one it took.
    pub proof fn run_keeps_wf<A: Arithmetic>(self, intake: Intake, input: Seq<Sample>)
        requires
            self.wf(),
        ensures
            self.run::<A>(intake, input).unit.wf(),
            self.run::<A>(intake, input).frame matches Ok(frame) ==> frame.len() == input.len(),
        decreases self, 0nat,
    {
        match self {
            Circuit::Transparent => {},
            Circuit::Gain(_) => {},
            Circuit::Delay(line) => {
                line.step_keeps_wf(intake.delay, input);
            },
            Circuit::Looper(tape) => {
                tape.received_all_keeps_wf(intake.looper);
                tape.received_all(intake.looper).frame_keeps_wf::<A>(input);
            },
            Circuit::Pipeline(units) => {
                serial_keeps_wf::<A>(units, intake.units, input, units.len());
            },
            Circuit::Split(units) => {
                parallel_keeps_wf::<A>(units, intake.units, input, units.len());
            },
        }
    }
}

/// However far a pipeline has run, its units are well formed and the frame
/// so far is as long as the input.
pub proof fn serial_keeps_wf<A: Arithmetic>(
    units: Seq<Circuit>,
    intakes: Seq<Intake>,
    input: Seq<Sample>,
    count: nat,
)
    requires
        forall|i: int| 0 <= i < units.len() ==> (#[trigger] units[i]).wf(),
    ensures
        serial::<A>(units, intakes, input, count).units.len() == units.len(),
        forall|i: int|
            0 <= i < units.len() ==> (#[trigger] serial::<A>(
                units,
                intakes,
                input,
                count,
            ).units[i]).wf(),
        serial::<A>(units, intakes, input, count).frame matches Ok(frame) ==> frame.len()
            == input.len(),
    decreases units, count,
{
    if count > 0 && count <= units.len() {
        serial_keeps_wf::<A>(units, intakes, input, (count - 1) as nat);
        let before = serial::<A>(units, intakes, input, (count - 1) as nat);
        if let Ok(frame) = before.frame {
            units[count - 1].run_keeps_wf::<A>(Intake::of(intakes, count - 1), frame);
        }
    }
}

/// However far a split has run, its units are well formed and the mix so
/// far is as long as the input.
pub proof fn parallel_keeps_wf<A: Arithmetic>(
    units: Seq<Circuit>,
    intakes: Seq<Intake>,
    input: Seq<Sample>,
    count: nat,
)
    requires
        forall|i: int| 0 <= i < units.len() ==> (#[trigger] units[i]).wf(),
    ensures
        parallel::<A>(units, intakes, input, count).units.len() == units.len(),
        forall|i: int|
            0 <= i < units.len() ==> (#[trigger] parallel::<A>(
                units,
                intakes,
                input,
                count,
            ).units[i]).wf(),
        parallel::<A>(units, intakes, input, count).frame matches Ok(frame) ==> frame.len()
            == input.len(),
    decreases units, count,
{
    if count > 0 && count <= units.len() {
        parallel_keeps_wf::<A>(units, intakes, input, (count - 1) as nat);
        units[count - 1].run_keeps_wf::<A>(Intake::of(intakes, count - 1), input);
    }
}

/// A pipeline after its first `count` units have run: the first takes
/// `input`, each of the others the frame that the one before it gave, and the
/// frame so far is that of the last. A fault stops the pipeline: the units
/// after the faulty one do not run.
pub open spec fn serial<A: Arithmetic>(
    units: Seq<Circuit>,
    intakes: Seq<Intake>,
    input: Seq<Sample>,
    count: nat,
) -> Progress
    decreases units, count,
{
    if count == 0 || count > units.len() {
        Progress { units, frame: Ok(input) }
    } else {
        let before = serial::<A>(units, intakes, input, (count - 1) as nat);
        match before.frame {
            Err(_) => before,
            Ok(frame) => {
                let outcome = units[count - 1].run::<A>(Intake::of(intakes, count - 1), frame);
                Progress {
                    units: before.units.update(count - 1, outcome.unit),
                    frame: outcome.frame,
                }
            },
        }
    }
}

/// A split after its first `count` units have run: each takes `input`, and
/// the frame so far is silence with the frame of each mixed in, in order. A
/// fault stops the split: the units after the faulty one do not run.
pub open spec fn parallel<A: Arithmetic>(
    units: Seq<Circuit>,
    intakes: Seq<Intake>,
    input: Seq<Sample>,
    count: nat,
) -> Progress
    decreases units, count,
{
    if count == 0 || count > units.len() {
        Progress { units, frame: Ok(silence(input.len())) }
    } else {
        let before = parallel::<A>(units, intakes, input, (count - 1) as nat);
        match before.frame {
            Err(_) => before,
            Ok(mix) => {
                let outcome = units[count - 1].run::<A>(Intake::of(intakes, count - 1), input);
                Progress {
                    units: before.units.update(count - 1, outcome.unit),
                    frame: match outcome.frame {
                        Ok(frame) => Ok(mix_frames::<A>(mix, frame)),
                        Err(error) => Err(error),
                    },
                }
            },
        }
    }
}

} // verus!
