//! The effects: units together with the MIDI controls that steer them.

pub mod delay;
pub mod looper;
pub mod pipeline;
pub mod tap_tempo;
pub mod tempo;
pub mod transparent;

use crate::audio::midi::Message;
use crate::audio::StreamConfig;
use crate::audio_unit::Intake;
use crate::error::{ConfigurationError, Error};
use crate::ring_buffer::Transport;
use crate::sample::{Arithmetic, Sample};
use crate::util::samples_in;
use vstd::prelude::*;

pub use delay::{Delay, DelayEffect};
pub use looper::{Looper, LooperEffect};
pub use pipeline::Pipeline;
pub use tap_tempo::TapTempo;
pub use tempo::Tempo;
pub use transparent::Transparent;

verus! {

/// An effect.
pub enum Effect {
    Transparent(Transparent),
    Delay(Delay),
    Looper(Looper),
}

/// An effect as a value.
pub enum Stage {
    Transparent,
    Delay(DelayEffect),
    Looper(LooperEffect),
}

/// What the control channels of an effect did in one call: whether the
/// commands of the effect could be sent, and the commands that its units took.
pub struct Schedule {
    pub delivered: bool,
    pub intake: Intake,
}

impl Stage {
    /// The effect that `config` describes, or why there is none: a delay
    /// whose last tap would be further behind than the greatest delay, or a
    /// buffer that is too large for this machine.
    pub open spec fn made<A: Arithmetic>(
        config: crate::config::Effect,
        stream_config: StreamConfig,
    ) -> Result<Stage, Error> {
        match config {
            crate::config::Effect::Transparent => Ok(Stage::Transparent),
            crate::config::Effect::Delay(delay) => if !DelayEffect::valid(delay) {
                Err(Error::Configuration(ConfigurationError::DelayBounds))
            } else if delay.num > 0 && !Transport::fits(
                samples_in(stream_config, DelayEffect::longest(delay)),
            ) {
                Err(Error::Configuration(ConfigurationError::BufferTooLarge))
            } else {
                Ok(Stage::Delay(DelayEffect::fresh::<A>(delay, stream_config)))
            },
            crate::config::Effect::Looper(looper) => if samples_in(stream_config, looper.max_ms)
                > usize::MAX {
                Err(Error::Configuration(ConfigurationError::BufferTooLarge))
            } else {
                Ok(Stage::Looper(LooperEffect::fresh(looper, stream_config)))
            },
        }
    }

    /// One call of `process`: the effect afterwards, and the frame it gives
    /// for `input` or the fault that ended the call.
    pub open spec fn run<A: Arithmetic>(
        self,
        messages: Seq<Message>,
        schedule: Schedule,
        input: Seq<Sample>,
    ) -> (Stage, Result<Seq<Sample>, Error>) {
        match self {
            Stage::Transparent => (self, Ok(input)),
            Stage::Delay(delay) => (
                Stage::Delay(
                    delay.run::<A>(messages, schedule.delivered, schedule.intake, input).0,
                ),
                delay.run::<A>(messages, schedule.delivered, schedule.intake, input).1,
            ),
            Stage::Looper(looper) => (
                Stage::Looper(
                    looper.run::<A>(messages, schedule.delivered, schedule.intake, input).0,
                ),
                looper.run::<A>(messages, schedule.delivered, schedule.intake, input).1,
            ),
        }
    }

    /// Whether a call that took `messages` and `input` left the effect as
    /// `after`, with this report and this output.
    pub open spec fn accounts<A: Arithmetic>(
        self,
        messages: Seq<Message>,
        schedule: Schedule,
        input: Seq<Sample>,
        after: Stage,
        report: Result<(), Error>,
        output: Seq<Sample>,
    ) -> bool {
        &&& after == self.run::<A>(messages, schedule, input).0
        &&& match self.run::<A>(messages, schedule, input).1 {
            Ok(frame) => report is Ok && output == frame,
            Err(error) => report == Err::<(), Error>(error),
        }
    }
}

impl View for Effect {
    type V = Stage;

    open spec fn view(&self) -> Stage {
        match self {
            Effect::Transparent(_) => Stage::Transparent,
            Effect::Delay(delay) => Stage::Delay(delay@),
            Effect::Looper(looper) => Stage::Looper(looper@),
        }
    }
}

impl Effect {
    /// The effect is well formed.
    pub open spec fn wf(&self) -> bool {
        match self {
            Effect::Transparent(_) => true,
            Effect::Delay(delay) => delay.wf(),
            Effect::Looper(looper) => looper.wf(),
        }
    }

    /// Hears the MIDI messages that arrived since the last frame, then
    /// processes one frame. A fault ends the call and leaves `output` as it
    /// was.
    pub fn process<A: Arithmetic>(
        &mut self,
        midi_messages: &[Message],
        input: &[Sample],
        output: &mut [Sample],
    ) -> (report: Result<(), Error>)
        requires
            old(self).wf(),
            input@.len() == old(output)@.len(),
        ensures
            final(self).wf(),
            final(output)@.len() == old(output)@.len(),
            report is Err ==> final(output)@ == old(output)@,
            exists|schedule: Schedule|
                old(self)@.accounts::<A>(
                    midi_messages@,
                    schedule,
                    input@,
                    final(self)@,
                    report,
                    final(output)@,
                ),
    {
        match self {
            Effect::Transparent(transparent) => {
                let report = transparent.process(midi_messages, input, output);
                assert(old(self)@.accounts::<A>(
                    midi_messages@,
                    Schedule { delivered: true, intake: Intake::none() },
                    input@,
                    self@,
                    report,
                    output@,
                ));
                report
            },
            Effect::Delay(delay) => {
                let ghost before = delay@;
                let report = delay.process::<A>(midi_messages, input, output);
                proof {
                    let (delivered, intake) = choose|delivered: bool, intake: Intake|
                        before.accounts::<A>(
                            midi_messages@,
                            delivered,
                            intake,
                            input@,
                            delay@,
                            report,
                            output@,
                        );
                    assert(old(self)@.accounts::<A>(
                        midi_messages@,
                        Schedule { delivered, intake },
                        input@,
                        self@,
                        report,
                        output@,
                    ));
                }
                report
            },
            Effect::Looper(looper) => {
                let ghost before = looper@;
                let report = looper.process::<A>(midi_messages, input, output);
                proof {
                    let (delivered, intake) = choose|delivered: bool, intake: Intake|
                        before.accounts::<A>(
                            midi_messages@,
                            delivered,
                            intake,
                            input@,
                            looper@,
                            report,
                            output@,
                        );
                    assert(old(self)@.accounts::<A>(
                        midi_messages@,
                        Schedule { delivered, intake },
                        input@,
                        self@,
                        report,
                        output@,
                    ));
                }
                report
            },
        }
    }
}

/// Makes the effect that `config` describes.
pub fn from<A: Arithmetic>(config: crate::config::Effect, stream_config: &StreamConfig) -> (made:
    Result<Effect, Error>)
    ensures
        made is Ok <==> Stage::made::<A>(config, *stream_config) is Ok,
        made matches Ok(effect) ==> effect.wf() && Ok::<Stage, Error>(effect@) == Stage::made::<A>(
            config,
            *stream_config,
        ),
        made matches Err(error) ==> Err::<Stage, Error>(error) == Stage::made::<A>(
            config,
            *stream_config,
        ),
{
    match config {
        crate::config::Effect::Transparent => Ok(Effect::Transparent(Transparent::new())),
        crate::config::Effect::Delay(delay_config) => match Delay::new::<A>(
            delay_config,
            stream_config,
        ) {
            Ok(delay) => Ok(Effect::Delay(delay)),
            Err(error) => Err(error),
        },
        crate::config::Effect::Looper(looper_config) => match Looper::new(
            looper_config,
            stream_config,
        ) {
            Ok(looper) => Ok(Effect::Looper(looper)),
            Err(error) => Err(error),
        },
    }
}

} // verus!
