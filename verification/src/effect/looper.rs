//! The looper effect: a looper mixed with the dry signal, steered by two
//! keys and the MIDI clock.

use crate::audio::midi::{Message, MidiMessage};
use crate::audio::StreamConfig;
use crate::audio_unit::looper::{Message as Command, State, Tape};
use crate::audio_unit::{views, Circuit, Intake, Split, Transparent, Unit};
use crate::config::LooperConfig;
use crate::control::send;
use crate::error::{ConfigurationError, Error};
use crate::sample::{silence, Arithmetic, Sample};
use crate::util::{checked_ms_in_samples, samples_in};
use std::sync::mpsc::Sender;
use vstd::prelude::*;

verus! {

/// The number of clock pulses in a measure: 24 to a quarter note, four
/// quarter notes.
pub const TICKS_PER_MEASURE: u32 = 24 * 4;

/// A looper effect as a value.
pub struct LooperEffect {
    pub config: LooperConfig,
    /// The clock pulses since the last measure began.
    pub ticks: u32,
    /// The looper and the dry signal.
    pub split: Circuit,
}

impl LooperEffect {
    /// The effect as it is made.
    pub open spec fn fresh(config: LooperConfig, stream_config: StreamConfig) -> LooperEffect {
        LooperEffect {
            config,
            ticks: 0,
            split: Circuit::Split(
                seq![
                    Circuit::Looper(
                        Tape {
                            buffer: silence(samples_in(stream_config, config.max_ms)),
                            state: State::Off,
                        },
                    ),
                    Circuit::Transparent,
                ],
            ),
        }
    }

    /// The clock after `message`: a pulse advances it, and the pulse that
    /// completes a measure sets it back to 0.
    pub open spec fn ticked(ticks: u32, message: Message) -> u32 {
        if message.message is TimingClock {
            if ticks + 1 >= TICKS_PER_MEASURE {
                0
            } else {
                (ticks + 1) as u32
            }
        } else {
            ticks
        }
    }

    /// The command that `message` gives the looper, if any: the pulse that
    /// completes a measure ticks the measure, a press of the toggle key
    /// toggles, a press of the overdub key (where it is another key) arms the
    /// overdub.
    pub open spec fn command(config: LooperConfig, ticks: u32, message: Message) -> Option<
        Command,
    > {
        if message.message is TimingClock {
            if Self::ticked(ticks, message) == 0 {
                Some(Command::TickMeasure)
            } else {
                None
            }
        } else if message.message.presses(config.toggle) {
            Some(Command::Toggle)
        } else if message.message.presses(config.overdub) {
            Some(Command::QueueOverdub)
        } else {
            None
        }
    }

    /// The clock after `messages`.
    pub open spec fn ticked_all(ticks: u32, messages: Seq<Message>) -> u32
        decreases messages.len(),
    {
        if messages.len() == 0 {
            ticks
        } else {
            Self::ticked(Self::ticked_all(ticks, messages.drop_last()), messages.last())
        }
    }

    /// The commands that `messages` give the looper, in order.
    pub open spec fn commands(config: LooperConfig, ticks: u32, messages: Seq<Message>) -> Seq<
        Command,
    >
        decreases messages.len(),
    {
        if messages.len() == 0 {
            Seq::empty()
        } else {
            let earlier = Self::commands(config, ticks, messages.drop_last());
            match Self::command(
                config,
                Self::ticked_all(ticks, messages.drop_last()),
                messages.last(),
            ) {
                Some(command) => earlier.push(command),
                None => earlier,
            }
        }
    }

    /// One call of `process`: the effect afterwards, and the frame it gives
    /// or the fault that ended the call. The messages are heard first; where
    /// they give commands and these cannot be sent to the looper (`delivered`
    /// is false), the call ends there. Then the split runs, its units taking
    /// the commands of `intake`.
    pub open spec fn run<A: Arithmetic>(
        self,
        messages: Seq<Message>,
        delivered: bool,
        intake: Intake,
        input: Seq<Sample>,
    ) -> (LooperEffect, Result<Seq<Sample>, Error>) {
        if Self::commands(self.config, self.ticks, messages).len() > 0 && !delivered {
            (
                LooperEffect {
                    config: self.config,
                    ticks: Self::ticked_all(self.ticks, messages),
                    split: self.split,
                },
                Err(Error::Channel),
            )
        } else {
            (
                LooperEffect {
                    config: self.config,
                    ticks: Self::ticked_all(self.ticks, messages),
                    split: self.split.run::<A>(intake, input).unit,
                },
                self.split.run::<A>(intake, input).frame,
            )
        }
    }

    /// Whether a call that took `messages` and `input` left the effect as
    /// `after`, with this report and this output.
    pub open spec fn accounts<A: Arithmetic>(
        self,
        messages: Seq<Message>,
        delivered: bool,
        intake: Intake,
        input: Seq<Sample>,
        after: LooperEffect,
        report: Result<(), Error>,
        output: Seq<Sample>,
    ) -> bool {
        &&& after == self.run::<A>(messages, delivered, intake, input).0
        &&& match self.run::<A>(messages, delivered, intake, input).1 {
            Ok(frame) => report is Ok && output == frame,
            Err(error) => report == Err::<(), Error>(error),
        }
    }
}

/// A looper effect: the split of the looper and the dry signal, the
/// sending end of the channel of the looper, and the clock.
pub struct Looper {
    config: LooperConfig,
    split: Split,
    messages: Sender<Command>,
    num_clock_ticks: u32,
}

impl View for Looper {
    type V = LooperEffect;

    closed spec fn view(&self) -> LooperEffect {
        LooperEffect {
            config: self.config,
            ticks: self.num_clock_ticks,
            split: Circuit::Split(self.split@),
        }
    }
}

impl Looper {
    /// The split is well formed, and the clock is within a measure.
    pub closed spec fn wf(&self) -> bool {
        &&& self.split.wf()
        &&& self.num_clock_ticks < TICKS_PER_MEASURE
    }

    /// The looper effect that `config` describes: off, with a silent buffer.
    pub fn new(config: LooperConfig, stream_config: &StreamConfig) -> (made: Result<Self, Error>)
        ensures
            made is Ok <==> samples_in(*stream_config, config.max_ms) <= usize::MAX,
            made matches Ok(looper) ==> looper.wf() && looper@ == LooperEffect::fresh(
                config,
                *stream_config,
            ),
            made matches Err(error) ==> error == Error::Configuration(
                ConfigurationError::BufferTooLarge,
            ),
    {
        if checked_ms_in_samples(stream_config, config.max_ms).is_none() {
            return Err(Error::Configuration(ConfigurationError::BufferTooLarge));
        }
        let (looper, messages) = crate::audio_unit::Looper::new(stream_config, config.max_ms);
        let transparent = Transparent::new();
        let ghost tape = looper@;
        let mut audio_units: Vec<Unit> = Vec::new();
        audio_units.push(Unit::Looper(looper));
        audio_units.push(Unit::Transparent(transparent));
        assert(views(audio_units@) =~= seq![Circuit::Looper(tape), Circuit::Transparent]);
        let split = match Split::new(audio_units) {
            Ok(split) => split,
            Err(error) => {
                return Err(error);
            },
        };
        Ok(Looper { config, split, messages, num_clock_ticks: 0 })
    }

    /// Hears `messages`, and sends the commands they give to the looper, in
    /// order, until one cannot be sent. Fails only where a command cannot be
    /// sent.
    pub fn handle_midi_messages(&mut self, messages: &[Message]) -> (report: Result<(), Error>)
        requires
            old(self).wf(),
        ensures
            final(self).wf(),
            final(self)@ == (LooperEffect {
                config: old(self)@.config,
                ticks: LooperEffect::ticked_all(old(self)@.ticks, messages@),
                split: old(self)@.split,
            }),
            LooperEffect::commands(old(self)@.config, old(self)@.ticks, messages@).len() == 0
                ==> report is Ok,
            report matches Err(error) ==> error == Error::Channel,
    {
        let commands = self.commands_from_midi_messages(messages);
        let ghost heard = *self;
        let mut i: usize = 0;
        while i < commands.len()
            invariant
                i <= commands@.len(),
                *self == heard,
                heard.wf(),
                heard@ == (LooperEffect {
                    config: old(self)@.config,
                    ticks: LooperEffect::ticked_all(old(self)@.ticks, messages@),
                    split: old(self)@.split,
                }),
                commands@ == LooperEffect::commands(
                    old(self)@.config,
                    old(self)@.ticks,
                    messages@,
                ),
            decreases commands.len() - i,
        {
            let report = match commands[i] {
                Command::TickMeasure => self.tick_measure(),
                Command::Toggle => self.toggle(),
                Command::QueueOverdub => self.enable_overdub_mode(),
            };
            match report {
                Err(error) => {
                    return Err(error);
                },
                Ok(_) => {},
            }
            i += 1;
        }
        Ok(())
    }

    /// The commands that `messages` give the looper, in order. The clock
    /// counts the pulses among the messages.
    pub fn commands_from_midi_messages(&mut self, messages: &[Message]) -> (commands: Vec<Command>)
        requires
            old(self).wf(),
        ensures
            final(self).wf(),
            final(self)@ == (LooperEffect {
                config: old(self)@.config,
                ticks: LooperEffect::ticked_all(old(self)@.ticks, messages@),
                split: old(self)@.split,
            }),
            commands@ == LooperEffect::commands(old(self)@.config, old(self)@.ticks, messages@),
    {
        let mut commands: Vec<Command> = Vec::new();
        let mut i: usize = 0;
        while i < messages.len()
            invariant
                i <= messages@.len(),
                self.wf(),
                self@ == (LooperEffect {
                    config: old(self)@.config,
                    ticks: LooperEffect::ticked_all(old(self)@.ticks, messages@.take(i as int)),
                    split: old(self)@.split,
                }),
                commands@ == LooperEffect::commands(
                    old(self)@.config,
                    old(self)@.ticks,
                    messages@.take(i as int),
                ),
            decreases messages.len() - i,
        {
            assert(messages@.take(i + 1).drop_last() =~= messages@.take(i as int));
            match self.command_for(&messages[i]) {
                Some(command) => {
                    commands.push(command);
                },
                None => {},
            }
            self.increment_clock_ticks(&messages[i]);
            i += 1;
        }
        assert(messages@.take(i as int) =~= messages@);
        commands
    }

    /// The command that `message` gives the looper, if any.
    pub fn command_for(&self, message: &Message) -> (command: Option<Command>)
        requires
            self.wf(),
        ensures
            command == LooperEffect::command(self@.config, self@.ticks, *message),
    {
        match message.message {
            MidiMessage::TimingClock => {
                if self.num_clock_ticks + 1 >= TICKS_PER_MEASURE {
                    Some(Command::TickMeasure)
                } else {
                    None
                }
            },
            _ => {
                if message.message.is_press_of(self.config.toggle) {
                    Some(Command::Toggle)
                } else if message.message.is_press_of(self.config.overdub) {
                    Some(Command::QueueOverdub)
                } else {
                    None
                }
            },
        }
    }

    /// Counts `message` if it is a pulse of the clock.
    pub fn increment_clock_ticks(&mut self, message: &Message)
        requires
            old(self).wf(),
        ensures
            final(self).wf(),
            final(self)@ == (LooperEffect {
                config: old(self)@.config,
                ticks: LooperEffect::ticked(old(self)@.ticks, *message),
                split: old(self)@.split,
            }),
    {
        match message.message {
            MidiMessage::TimingClock => {
                if self.num_clock_ticks + 1 >= TICKS_PER_MEASURE {
                    self.num_clock_ticks = 0;
                } else {
                    self.num_clock_ticks = self.num_clock_ticks + 1;
                }
            },
            _ => {},
        }
    }

    /// Tells the looper that a measure begins.
    pub fn tick_measure(&mut self) -> (report: Result<(), Error>)
        ensures
            *final(self) == *old(self),
            report matches Err(error) ==> error == Error::Channel,
    {
        if send(&self.messages, Command::TickMeasure) {
            Ok(())
        } else {
            Err(Error::Channel)
        }
    }

    /// Tells the looper to toggle.
    pub fn toggle(&mut self) -> (report: Result<(), Error>)
        ensures
            *final(self) == *old(self),
            report matches Err(error) ==> error == Error::Channel,
    {
        if send(&self.messages, Command::Toggle) {
            Ok(())
        } else {
            Err(Error::Channel)
        }
    }

    /// Tells the looper to arm the overdub.
    pub fn enable_overdub_mode(&mut self) -> (report: Result<(), Error>)
        ensures
            *final(self) == *old(self),
            report matches Err(error) ==> error == Error::Channel,
    {
        if send(&self.messages, Command::QueueOverdub) {
            Ok(())
        } else {
            Err(Error::Channel)
        }
    }

    /// Hears the MIDI messages that arrived since the last frame, then
    /// processes one frame. A fault ends the call and leaves `output` as it
    /// was.
    pub fn process<A: Arithmetic>(
        &mut self,
        midi_messages: &[Message],
        input: &[Sample],
        output: &mut [Sample],
    ) -> (report: Result<(), Error>)
        requires
            old(self).wf(),
            input@.len() == old(output)@.len(),
        ensures
            final(self).wf(),
            final(output)@.len() == old(output)@.len(),
            report is Err ==> final(output)@ == old(output)@,
            exists|delivered: bool, intake: Intake|
                old(self)@.accounts::<A>(
                    midi_messages@,
                    delivered,
                    intake,
                    input@,
                    final(self)@,
                    report,
                    final(output)@,
                ),
    {
        match self.handle_midi_messages(midi_messages) {
            Err(error) => {
                assert(old(self)@.accounts::<A>(
                    midi_messages@,
                    false,
                    Intake::none(),
                    input@,
                    self@,
                    Err(error),
                    output@,
                ));
                return Err(error);
            },
            Ok(_) => {},
        }
        let ghost heard = self@;
        let report = self.split.process::<A>(input, output);
        proof {
            let intake = choose|intake: Intake|
                heard.split.accounts::<A>(
                    intake,
                    input@,
                    Circuit::Split(self.split@),
                    report,
                    output@,
                );
            assert(old(self)@.accounts::<A>(
                midi_messages@,
                true,
                intake,
                input@,
                self@,
                report,
                output@,
            ));
        }
        report
    }
}

} // verus!
