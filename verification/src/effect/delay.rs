//! The delay effect: the dry signal and a number of taps, each a delay line
//! and a gain, mixed; a slider or a tapped tempo sets the delay while it runs.

use crate::audio::midi::{
    interpolate_control_value,
    interpolated,
    latest_control,
    latest_control_value,
    Message,
};
use crate::audio::StreamConfig;
use crate::audio_unit::delay::{DelayLine, DelayMs, Message as Command};
use crate::audio_unit::{
    parallel,
    serial,
    views,
    Circuit,
    Gain,
    Intake,
    Pipeline,
    Split,
    Transparent,
    Unit,
};
use crate::config::DelayConfig;
use crate::control::send;
use crate::effect::tap_tempo::{TapTempo, Taps};
use crate::error::{ConfigurationError, Error};
use crate::ring_buffer::Transport;
use crate::sample::{mix_frames, power, raise, scale_frame, silence, Arithmetic, Sample};
use crate::util::samples_in;
use std::sync::mpsc::Sender;
use vstd::prelude::*;

verus! {

/// The delay of tap `index` (the first is 1) for a delay of `base`: `index`
/// times as long, held to the range of a delay.
pub open spec fn tap_delay(base: DelayMs, index: nat) -> DelayMs {
    if base * index <= u32::MAX {
        (base * index) as u32
    } else {
        u32::MAX
    }
}

/// The commands that set a delay of `base`: to each of `num` taps, in
/// order, the delay of that tap.
pub open spec fn tap_commands(base: DelayMs, num: nat) -> Seq<Command> {
    Seq::new(num, |k: int| Command::SetDelay(tap_delay(base, (k + 1) as nat)))
}

/// A delay effect as a value.
pub struct DelayEffect {
    pub config: DelayConfig,
    /// The tap tempo, where a key for it is configured.
    pub taps: Option<Taps>,
    /// The dry signal and the taps.
    pub split: Circuit,
}

impl DelayEffect {
    /// The last tap is no further behind than the greatest delay.
    pub open spec fn valid(config: DelayConfig) -> bool {
        config.delay_ms * config.num <= config.max_delay_ms
    }

    /// The greatest length of each delay line: the delay of the last tap.
    pub open spec fn longest(config: DelayConfig) -> DelayMs {
        tap_delay(config.delay_ms, config.num as nat)
    }

    /// Tap `index` (the first is 1): a silent delay line of `index` times the
    /// delay, then a gain of the level raised to `index`.
    pub open spec fn tap<A: Arithmetic>(
        config: DelayConfig,
        stream_config: StreamConfig,
        index: nat,
    ) -> Circuit {
        Circuit::Pipeline(
            seq![
                Circuit::Delay(
                    DelayLine::silent(
                        stream_config,
                        tap_delay(config.delay_ms, index),
                        Self::longest(config),
                    ),
                ),
                Circuit::Gain(power::<A>(config.level, index)),
            ],
        )
    }

    /// The dry signal, then the taps from the first to the last.
    pub open spec fn circuit<A: Arithmetic>(
        config: DelayConfig,
        stream_config: StreamConfig,
    ) -> Circuit {
        Circuit::Split(
            seq![Circuit::Transparent] + Seq::new(
                config.num as nat,
                |k: int| Self::tap::<A>(config, stream_config, (k + 1) as nat),
            ),
        )
    }

    /// The effect as it is made.
    pub open spec fn fresh<A: Arithmetic>(
        config: DelayConfig,
        stream_config: StreamConfig,
    ) -> DelayEffect {
        DelayEffect {
            config,
            taps: match config.tap_tempo {
                Some(note_on) => Some(Taps { note_on, last: None }),
                None => None,
            },
            split: Self::circuit::<A>(config, stream_config),
        }
    }

    /// The delay that the slider asks for in `messages`: its latest value,
    /// mapped into the range of the delay.
    pub open spec fn slider_delay(self, messages: Seq<Message>) -> Option<DelayMs> {
        match self.config.delay_ms_slider {
            Some(slider) => match latest_control(slider, messages) {
                Some(value) => Some(
                    interpolated(self.config.min_delay_ms, self.config.max_delay_ms, value@) as u32,
                ),
                None => None,
            },
            None => None,
        }
    }

    /// The tap tempo after `messages`.
    pub open spec fn taps_after(self, messages: Seq<Message>) -> Option<Taps> {
        match self.taps {
            Some(taps) => Some(taps.heard_all(messages).0),
            None => None,
        }
    }

    /// The delay that the tap tempo asks for in `messages`: the last beat
    /// that was tapped, in milliseconds.
    pub open spec fn tapped_delay(self, messages: Seq<Message>) -> Option<DelayMs> {
        match self.taps {
            Some(taps) => match taps.heard_all(messages).1 {
                Some(tempo) => Some((tempo.beat_duration / 1000) as u32),
                None => None,
            },
            None => None,
        }
    }

    /// The delay that `messages` ask for: that of the slider, else that of
    /// the tap tempo.
    pub open spec fn wanted(self, messages: Seq<Message>) -> Option<DelayMs> {
        if self.slider_delay(messages) is Some {
            self.slider_delay(messages)
        } else {
            self.tapped_delay(messages)
        }
    }

    /// One call of `process`: the effect afterwards, and the frame it gives
    /// or the fault that ended the call. The messages are heard first; where
    /// they ask for a delay and it cannot be sent to the taps (`delivered` is
    /// false), the call ends there. Then the split runs, its units taking the
    /// commands of `intake`.
    pub open spec fn run<A: Arithmetic>(
        self,
        messages: Seq<Message>,
        delivered: bool,
        intake: Intake,
        input: Seq<Sample>,
    ) -> (DelayEffect, Result<Seq<Sample>, Error>) {
        if self.wanted(messages) is Some && !delivered {
            (
                DelayEffect {
                    config: self.config,
                    taps: self.taps_after(messages),
                    split: self.split,
                },
                Err(Error::Channel),
            )
        } else {
            (
                DelayEffect {
                    config: self.config,
                    taps: self.taps_after(messages),
                    split: self.split.run::<A>(intake, input).unit,
                },
                self.split.run::<A>(intake, input).frame,
            )
        }
    }

    /// Whether a call that took `messages` and `input` left the effect as
    /// `after`, with this report and this output.
    pub open spec fn accounts<A: Arithmetic>(
        self,
        messages: Seq<Message>,
        delivered: bool,
        intake: Intake,
        input: Seq<Sample>,
        after: DelayEffect,
        report: Result<(), Error>,
        output: Seq<Sample>,
    ) -> bool {
        &&& after == self.run::<A>(messages, delivered, intake, input).0
        &&& match self.run::<A>(messages, delivered, intake, input).1 {
            Ok(frame) => report is Ok && output == frame,
            Err(error) => report == Err::<(), Error>(error),
        }
    }
}

/// Whether `unit` is a tap: a delay line followed by a gain.
pub open spec fn is_tap(unit: Circuit) -> bool {
    &&& unit is Pipeline
    &&& unit->Pipeline_0.len() == 2
    &&& unit->Pipeline_0[0] is Delay
    &&& unit->Pipeline_0[1] is Gain
}

/// What a unit of the effect gives for `input` when no command arrives: the
/// dry signal gives the input; a tap gives the oldest samples of what its
/// line holds followed by the input, scaled by its gain.
pub open spec fn gives<A: Arithmetic>(unit: Circuit, input: Seq<Sample>) -> Seq<Sample> {
    if is_tap(unit) {
        scale_frame::<A>(
            (unit->Pipeline_0[0]->Delay_0.held + input).take(input.len() as int),
            unit->Pipeline_0[1]->Gain_0,
        )
    } else {
        input
    }
}

/// Silence with what each of the first `count` units gives mixed in, in
/// order.
pub open spec fn mixdown<A: Arithmetic>(units: Seq<Circuit>, input: Seq<Sample>, count: nat) -> Seq<
    Sample,
>
    decreases count,
{
    if count == 0 {
        silence(input.len())
    } else {
        mix_frames::<A>(
            mixdown::<A>(units, input, (count - 1) as nat),
            gives::<A>(units[count - 1], input),
        )
    }
}

/// Whether each unit is the dry signal or a tap.
pub open spec fn dry_or_taps(units: Seq<Circuit>) -> bool {
    forall|k: int| 0 <= k < units.len() ==> (#[trigger] units[k]) is Transparent || is_tap(units[k])
}

/// A tap gives a delayed and scaled copy: with no command, a tap gives the
/// oldest samples of what its line holds followed by the input, each scaled
/// by the gain, and the line moves on by one frame.
pub proof fn tap_gives_a_delayed_copy<A: Arithmetic>(unit: Circuit, input: Seq<Sample>)
    requires
        is_tap(unit),
    ensures
        unit.run::<A>(Intake::none(), input).frame == Ok::<Seq<Sample>, Error>(
            gives::<A>(unit, input),
        ),
        is_tap(unit.run::<A>(Intake::none(), input).unit),
        unit.run::<A>(Intake::none(), input).unit->Pipeline_0[0]->Delay_0
            == unit->Pipeline_0[0]->Delay_0.passed(input),
        unit.run::<A>(Intake::none(), input).unit->Pipeline_0[1] == unit->Pipeline_0[1],
{
    let units = unit->Pipeline_0;
    let line = units[0]->Delay_0;
    reveal_with_fuel(serial, 3);
    // the line takes no command and gives what it heard
    let first = serial::<A>(units, Intake::none().units, input, 1);
    assert(first.frame == Ok::<Seq<Sample>, Error>(line.heard(input)));
    // the gain scales it
    let both = serial::<A>(units, Intake::none().units, input, 2);
    assert(both.units.len() == 2);
}

/// The effect mixes the dry signal and the taps: with no command, a split
/// of the dry signal and of taps gives silence with what each of them gives
/// mixed in, in order.
pub proof fn split_mixes_dry_and_taps<A: Arithmetic>(
    units: Seq<Circuit>,
    input: Seq<Sample>,
    count: nat,
)
    requires
        count <= units.len(),
        dry_or_taps(units),
    ensures
        parallel::<A>(units, Intake::none().units, input, count).frame == Ok::<
            Seq<Sample>,
            Error,
        >(mixdown::<A>(units, input, count)),
        parallel::<A>(units, Intake::none().units, input, count).units.len() == units.len(),
    decreases count,
{
    if count > 0 {
        split_mixes_dry_and_taps::<A>(units, input, (count - 1) as nat);
        let unit = units[count - 1];
        if is_tap(unit) {
            tap_gives_a_delayed_copy::<A>(unit, input);
        }
    }
}

/// The first frame of a new effect: tap *i* gives the input behind the
/// silence of `delay_ms * i` milliseconds, scaled by the level raised to *i*,
/// and the output is silence with the dry signal and then each tap mixed in.
pub proof fn fresh_effect_mixes_delayed_copies<A: Arithmetic>(
    config: DelayConfig,
    stream_config: StreamConfig,
    input: Seq<Sample>,
)
    ensures
        DelayEffect::circuit::<A>(config, stream_config).run::<A>(Intake::none(), input).frame
            == Ok::<Seq<Sample>, Error>(
            mixdown::<A>(
                DelayEffect::circuit::<A>(config, stream_config)->Split_0,
                input,
                (config.num + 1) as nat,
            ),
        ),
        gives::<A>(DelayEffect::circuit::<A>(config, stream_config)->Split_0[0], input) == input,
        forall|index: int|
            1 <= index <= config.num ==> #[trigger] gives::<A>(
                DelayEffect::circuit::<A>(config, stream_config)->Split_0[index],
                input,
            ) == scale_frame::<A>(
                (silence(samples_in(stream_config, tap_delay(config.delay_ms, index as nat)))
                    + input).take(input.len() as int),
                power::<A>(config.level, index as nat),
            ),
{
    let units = DelayEffect::circuit::<A>(config, stream_config)->Split_0;
    assert forall|k: int| 0 <= k < units.len() implies (#[trigger] units[k]) is Transparent
        || is_tap(units[k]) by {
        if k > 0 {
        }
    }
    split_mixes_dry_and_taps::<A>(units, input, units.len());
    assert forall|index: int| 1 <= index <= config.num implies #[trigger] gives::<A>(
        units[index],
        input,
    ) == scale_frame::<A>(
        (silence(samples_in(stream_config, tap_delay(config.delay_ms, index as nat)))
            + input).take(input.len() as int),
        power::<A>(config.level, index as nat),
    ) by {
    }
}

/// A delay effect: the split of the dry signal and the taps, the sending
/// ends of the channels of the taps, and the tap tempo where there is one.
pub struct Delay {
    config: DelayConfig,
    tap_tempo: Option<TapTempo>,
    split: Split,
    message_senders: Vec<Sender<Command>>,
}

impl View for Delay {
    type V = DelayEffect;

    closed spec fn view(&self) -> DelayEffect {
        DelayEffect {
            config: self.config,
            taps: match self.tap_tempo {
                Some(tap_tempo) => Some(tap_tempo@),
                None => None,
            },
            split: Circuit::Split(self.split@),
        }
    }
}

impl Delay {
    /// The split is well formed, and there is a channel to each tap.
    pub closed spec fn wf(&self) -> bool {
        &&& self.split.wf()
        &&& self.message_senders@.len() == self.config.num
    }

    /// The delay effect that `config` describes, silent.
    pub fn new<A: Arithmetic>(config: DelayConfig, stream_config: &StreamConfig) -> (made: Result<
        Self,
        Error,
    >)
        ensures
            made is Ok <==> DelayEffect::valid(config) && (config.num > 0 ==> Transport::fits(
                samples_in(*stream_config, DelayEffect::longest(config)),
            )),
            made matches Ok(delay) ==> delay.wf() && delay@ == DelayEffect::fresh::<A>(
                config,
                *stream_config,
            ),
            made matches Err(error) ==> error == Error::Configuration(
                if DelayEffect::valid(config) {
                    ConfigurationError::BufferTooLarge
                } else {
                    ConfigurationError::DelayBounds
                },
            ),
    {
        match Self::validate_config(&config) {
            Err(error) => {
                return Err(error);
            },
            Ok(_) => {},
        }
        let tap_tempo = match config.tap_tempo {
            Some(note_on) => Some(TapTempo::new(note_on)),
            None => None,
        };
        let longest: DelayMs = config.delay_ms * config.num;
        let ghost taps = |k: int| DelayEffect::tap::<A>(config, *stream_config, (k + 1) as nat);
        let mut audio_units: Vec<Unit> = Vec::new();
        let mut message_senders: Vec<Sender<Command>> = Vec::new();
        audio_units.push(Unit::Transparent(Transparent::new()));
        let mut n: u32 = 0;
        while n < config.num
            invariant
                n <= config.num,
                DelayEffect::valid(config),
                longest == DelayEffect::longest(config),
                longest == config.delay_ms * config.num,
                taps == |k: int| DelayEffect::tap::<A>(config, *stream_config, (k + 1) as nat),
                audio_units@.len() == n + 1,
                message_senders@.len() == n,
                forall|i: int| 0 <= i < audio_units@.len() ==> (#[trigger] audio_units@[i]).wf(),
                views(audio_units@) == seq![Circuit::Transparent] + Seq::new(n as nat, taps),
                n > 0 ==> Transport::fits(samples_in(*stream_config, longest)),
            decreases config.num - n,
        {
            assert(config.delay_ms * (n + 1) <= config.delay_ms * config.num) by (nonlinear_arith)
                requires
                    n + 1 <= config.num,
            ;
            let delay: DelayMs = config.delay_ms * (n + 1);
            let (delay_unit, messages) = match crate::audio_unit::Delay::new(
                stream_config,
                delay,
                longest,
            ) {
                Ok(made) => made,
                Err(error) => {
                    return Err(error);
                },
            };
            let gain_unit = Gain::new(raise::<A>(config.level, n + 1));
            let ghost line = delay_unit@;
            let ghost gain = gain_unit@;
            let mut tap: Vec<Unit> = Vec::new();
            tap.push(Unit::Delay(delay_unit));
            tap.push(Unit::Gain(gain_unit));
            assert(views(tap@) =~= seq![Circuit::Delay(line), Circuit::Gain(gain)]);
            let pipeline = match Pipeline::new(tap) {
                Ok(pipeline) => pipeline,
                Err(error) => {
                    return Err(error);
                },
            };
            let ghost before = views(audio_units@);
            audio_units.push(Unit::Pipeline(pipeline));
            message_senders.push(messages);
            proof {
                assert(views(audio_units@) =~= before.push(taps(n as int)));
            }
            n += 1;
        }
        let split = match Split::new(audio_units) {
            Ok(split) => split,
            Err(error) => {
                return Err(error);
            },
        };
        Ok(Delay { config, tap_tempo, split, message_senders })
    }

    /// Refuses a configuration whose last tap would be further behind than
    /// the greatest delay.
    pub fn validate_config(config: &DelayConfig) -> (report: Result<(), Error>)
        ensures
            report is Ok <==> DelayEffect::valid(*config),
            report matches Err(error) ==> error == Error::Configuration(
                ConfigurationError::DelayBounds,
            ),
    {
        assert(config.delay_ms as u64 * config.num as u64 <= 0xffff_ffff * 0xffff_ffff)
            by (nonlinear_arith)
            requires
                config.delay_ms <= 0xffff_ffff,
                config.num <= 0xffff_ffff,
        ;
        if config.delay_ms as u64 * config.num as u64 <= config.max_delay_ms as u64 {
            Ok(())
        } else {
            Err(Error::Configuration(ConfigurationError::DelayBounds))
        }
    }

    /// Hears `messages`, and sends the delay they ask for, if any, to the
    /// taps. Fails only where a delay is asked for and cannot be sent.
    pub fn handle_midi_messages(&mut self, messages: &[Message]) -> (report: Result<(), Error>)
        requires
            old(self).wf(),
        ensures
            final(self).wf(),
            final(self)@ == (DelayEffect {
                config: old(self)@.config,
                taps: old(self)@.taps_after(messages@),
                split: old(self)@.split,
            }),
            old(self)@.wanted(messages@) is None ==> report is Ok,
            report matches Err(error) ==> error == Error::Channel,
    {
        match self.delay_from_midi_messages(messages) {
            Some(delay) => self.set_delay(delay),
            None => Ok(()),
        }
    }

    /// The delay that `messages` ask for: that of the slider, else that of
    /// the tap tempo, which hears the messages either way.
    pub fn delay_from_midi_messages(&mut self, messages: &[Message]) -> (delay: Option<DelayMs>)
        requires
            old(self).wf(),
        ensures
            final(self).wf(),
            final(self)@ == (DelayEffect {
                config: old(self)@.config,
                taps: old(self)@.taps_after(messages@),
                split: old(self)@.split,
            }),
            delay == old(self)@.wanted(messages@),
    {
        let delay_from_slider = self.delay_from_midi_messages_slider(messages);
        let delay_from_tap_tempo = self.delay_from_midi_messages_tap(messages);
        match delay_from_slider {
            Some(delay) => Some(delay),
            None => delay_from_tap_tempo,
        }
    }

    /// The delay that the slider asks for in `messages`.
    pub fn delay_from_midi_messages_slider(&self, messages: &[Message]) -> (delay: Option<DelayMs>)
        ensures
            delay == self@.slider_delay(messages@),
    {
        let midi_slider = match self.config.delay_ms_slider {
            Some(slider) => slider,
            None => {
                return None;
            },
        };
        let control_value = match latest_control_value(midi_slider, messages) {
            Some(value) => value,
            None => {
                return None;
            },
        };
        Some(
            interpolate_control_value(
                self.config.min_delay_ms,
                self.config.max_delay_ms,
                control_value,
            ),
        )
    }

    /// The delay that the tap tempo asks for in `messages`.
    pub fn delay_from_midi_messages_tap(&mut self, messages: &[Message]) -> (delay: Option<DelayMs>)
        requires
            old(self).wf(),
        ensures
            final(self).wf(),
            final(self)@ == (DelayEffect {
                config: old(self)@.config,
                taps: old(self)@.taps_after(messages@),
                split: old(self)@.split,
            }),
            delay == old(self)@.tapped_delay(messages@),
    {
        match &mut self.tap_tempo {
            Some(tap_tempo) => match tap_tempo.handle_messages(messages) {
                Some(tempo) => Some(tempo.beat_duration_as_ms()),
                None => None,
            },
            None => None,
        }
    }

    /// Sends each tap its delay for a delay of `delay_ms`, from the first
    /// tap on, until one cannot be reached. Where there is no tap, nothing is
    /// sent and the call succeeds; otherwise it fails only where a tap cannot
    /// be reached.
    pub fn set_delay(&self, delay_ms: DelayMs) -> (report: Result<(), Error>)
        requires
            self.wf(),
        ensures
            self@.config.num == 0 ==> report is Ok,
            report matches Err(error) ==> error == Error::Channel,
    {
        let commands = self.commands_for_delay(delay_ms);
        let mut i: usize = 0;
        while i < self.message_senders.len()
            invariant
                i <= self.message_senders@.len(),
                commands@.len() == self.message_senders@.len(),
                self.message_senders@.len() == self.config.num,
            decreases self.message_senders@.len() - i,
        {
            if !send(&self.message_senders[i], commands[i]) {
                return Err(Error::Channel);
            }
            i += 1;
        }
        Ok(())
    }

    /// The commands that set a delay of `delay_ms`: for each tap, in order,
    /// the delay of that tap.
    pub fn commands_for_delay(&self, delay_ms: DelayMs) -> (commands: Vec<Command>)
        requires
            self.wf(),
        ensures
            commands@ == tap_commands(delay_ms, self@.config.num as nat),
    {
        let mut commands: Vec<Command> = Vec::new();
        let mut index: u32 = 0;
        while index < self.config.num
            invariant
                index <= self.config.num,
                commands@ == tap_commands(delay_ms, index as nat),
            decreases self.config.num - index,
        {
            index += 1;
            commands.push(Command::SetDelay(Self::delay_for_index(delay_ms, index)));
        }
        commands
    }

    /// The delay of tap `index` (the first is 1) for a delay of
    /// `base_delay`.
    pub fn delay_for_index(base_delay: DelayMs, index: u32) -> (delay: DelayMs)
        ensures
            delay == tap_delay(base_delay, index as nat),
    {
        assert(base_delay as u64 * index as u64 <= 0xffff_ffff * 0xffff_ffff) by (nonlinear_arith)
            requires
                base_delay <= 0xffff_ffff,
                index <= 0xffff_ffff,
        ;
        let product: u64 = base_delay as u64 * index as u64;
        if product <= u32::MAX as u64 {
            product as u32
        } else {
            u32::MAX
        }
    }

    /// Hears the MIDI messages that arrived since the last frame, then
    /// processes one frame. A fault ends the call and leaves `output` as it
    /// was.
    pub fn process<A: Arithmetic>(
        &mut self,
        midi_messages: &[Message],
        input: &[Sample],
        output: &mut [Sample],
    ) -> (report: Result<(), Error>)
        requires
            old(self).wf(),
            input@.len() == old(output)@.len(),
        ensures
            final(self).wf(),
            final(output)@.len() == old(output)@.len(),
            report is Err ==> final(output)@ == old(output)@,
            exists|delivered: bool, intake: Intake|
                old(self)@.accounts::<A>(
                    midi_messages@,
                    delivered,
                    intake,
                    input@,
                    final(self)@,
                    report,
                    final(output)@,
                ),
    {
        match self.handle_midi_messages(midi_messages) {
            Err(error) => {
                assert(old(self)@.accounts::<A>(
                    midi_messages@,
                    false,
                    Intake::none(),
                    input@,
                    self@,
                    Err(error),
                    output@,
                ));
                return Err(error);
            },
            Ok(_) => {},
        }
        let ghost heard = self@;
        let report = self.split.process::<A>(input, output);
        proof {
            let intake = choose|intake: Intake|
                heard.split.accounts::<A>(
                    intake,
                    input@,
                    Circuit::Split(self.split@),
                    report,
                    output@,
                );
            assert(old(self)@.accounts::<A>(
                midi_messages@,
                true,
                intake,
                input@,
                self@,
                report,
                output@,
            ));
        }
        report
    }
}

} // verus!
