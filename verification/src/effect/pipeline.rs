//! The chain of effects that the processor runs on every frame.

use crate::audio::midi::Message;
use crate::audio::StreamConfig;
use crate::config::Config;
use crate::effect::{from, Effect, Schedule, Stage};
use crate::error::{ConfigurationError, Error};
use crate::sample::{Arithmetic, Sample};
use crate::util::copy_frame;
use vstd::prelude::*;
use vstd::slice::slice_to_vec;

verus! {

/// Each effect as a value.
pub open spec fn stages(effects: Seq<Effect>) -> Seq<Stage> {
    Seq::new(effects.len(), |i: int| effects[i]@)
}

/// The schedule of the effect at `index`: where `schedules` has no entry
/// for it, everything was sent and no unit took a command.
pub open spec fn schedule_of(schedules: Seq<Schedule>, index: int) -> Schedule {
    if 0 <= index < schedules.len() {
        schedules[index]
    } else {
        Schedule { delivered: true, intake: crate::audio_unit::Intake::none() }
    }
}

/// A chain after its first `count` effects have run: each hears
/// `messages`; the first takes `input`, each of the others the frame that the
/// one before it gave. A fault stops the chain: the effects after the faulty
/// one do not run.
pub open spec fn chain<A: Arithmetic>(
    effects: Seq<Stage>,
    messages: Seq<Message>,
    schedules: Seq<Schedule>,
    input: Seq<Sample>,
    count: nat,
) -> (Seq<Stage>, Result<Seq<Sample>, Error>)
    decreases count,
{
    if count == 0 || count > effects.len() {
        (effects, Ok(input))
    } else {
        let before = chain::<A>(effects, messages, schedules, input, (count - 1) as nat);
        match before.1 {
            Err(_) => before,
            Ok(frame) => {
                let after = effects[count - 1].run::<A>(
                    messages,
                    schedule_of(schedules, count - 1),
                    frame,
                );
                (before.0.update(count - 1, after.0), after.1)
            },
        }
    }
}

/// Whether a call on a chain of `effects` that took `messages` and `input`
/// left the effects as `after`, with this report and this output.
pub open spec fn chain_accounts<A: Arithmetic>(
    effects: Seq<Stage>,
    messages: Seq<Message>,
    schedules: Seq<Schedule>,
    input: Seq<Sample>,
    after: Seq<Stage>,
    report: Result<(), Error>,
    output: Seq<Sample>,
) -> bool {
    &&& after == chain::<A>(effects, messages, schedules, input, effects.len()).0
    &&& match chain::<A>(effects, messages, schedules, input, effects.len()).1 {
        Ok(frame) => report is Ok && output == frame,
        Err(error) => report == Err::<(), Error>(error),
    }
}

/// The effects that `configs` describe, or the first reason why one of them
/// cannot be made.
pub open spec fn made_all<A: Arithmetic>(
    configs: Seq<crate::config::Effect>,
    stream_config: StreamConfig,
) -> Result<Seq<Stage>, Error>
    decreases configs.len(),
{
    if configs.len() == 0 {
        Ok(Seq::empty())
    } else {
        match made_all::<A>(configs.drop_last(), stream_config) {
            Err(error) => Err(error),
            Ok(effects) => match Stage::made::<A>(configs.last(), stream_config) {
                Err(error) => Err(error),
                Ok(effect) => Ok(effects.push(effect)),
            },
        }
    }
}

/// What a chain has done after `count` effects does not depend on the
/// schedules of the effects after them.
proof fn chain_ignores_later_schedules<A: Arithmetic>(
    effects: Seq<Stage>,
    messages: Seq<Message>,
    one: Seq<Schedule>,
    other: Seq<Schedule>,
    input: Seq<Sample>,
    count: nat,
)
    requires
        count <= one.len(),
        count <= other.len(),
        forall|i: int| 0 <= i < count ==> one[i] == other[i],
    ensures
        chain::<A>(effects, messages, one, input, count) == chain::<A>(
            effects,
            messages,
            other,
            input,
            count,
        ),
    decreases count,
{
    if count > 0 && count <= effects.len() {
        chain_ignores_later_schedules::<A>(
            effects,
            messages,
            one,
            other,
            input,
            (count - 1) as nat,
        );
    }
}

/// A chain that a fault has stopped stays as it is.
proof fn chain_stays_after_fault<A: Arithmetic>(
    effects: Seq<Stage>,
    messages: Seq<Message>,
    schedules: Seq<Schedule>,
    input: Seq<Sample>,
    count: nat,
    later: nat,
)
    requires
        count <= later <= effects.len(),
        chain::<A>(effects, messages, schedules, input, count).1 is Err,
    ensures
        chain::<A>(effects, messages, schedules, input, later) == chain::<A>(
            effects,
            messages,
            schedules,
            input,
            count,
        ),
    decreases later,
{
    if later > count {
        chain_stays_after_fault::<A>(
            effects,
            messages,
            schedules,
            input,
            count,
            (later - 1) as nat,
        );
    }
}

/// Effects that run one after the other.
pub struct Pipeline {
    effects: Vec<Effect>,
}

impl View for Pipeline {
    type V = Seq<Stage>;

    /// The effects, in the order in which they run.
    closed spec fn view(&self) -> Seq<Stage> {
        stages(self.effects@)
    }
}

impl Pipeline {
    /// The chain is not empty and each of its effects is well formed.
    pub closed spec fn wf(&self) -> bool {
        &&& self.effects@.len() > 0
        &&& forall|i: int| 0 <= i < self.effects@.len() ==> (#[trigger] self.effects@[i]).wf()
    }

    /// The chain of the effects that `config` describes, in that order.
    /// Fails where there is none, or where one of them cannot be made.
    pub fn from<A: Arithmetic>(config: &Config, stream_config: &StreamConfig) -> (made: Result<
        Self,
        Error,
    >)
        ensures
            made is Ok <==> config.effects@.len() > 0 && made_all::<A>(
                config.effects@,
                *stream_config,
            ) is Ok,
            made matches Ok(pipeline) ==> pipeline.wf() && Ok::<Seq<Stage>, Error>(pipeline@)
                == made_all::<A>(config.effects@, *stream_config),
            made matches Err(error) ==> if made_all::<A>(config.effects@, *stream_config) is Ok {
                error == Error::Configuration(ConfigurationError::NoUnits)
            } else {
                Err::<Seq<Stage>, Error>(error) == made_all::<A>(config.effects@, *stream_config)
            },
    {
        let mut effects: Vec<Effect> = Vec::new();
        let mut i: usize = 0;
        assert(stages(effects@) =~= Seq::<Stage>::empty());
        while i < config.effects.len()
            invariant
                i <= config.effects@.len(),
                effects@.len() == i,
                forall|j: int| 0 <= j < effects@.len() ==> (#[trigger] effects@[j]).wf(),
                made_all::<A>(config.effects@.take(i as int), *stream_config) == Ok::<
                    Seq<Stage>,
                    Error,
                >(stages(effects@)),
            decreases config.effects.len() - i,
        {
            let ghost before = stages(effects@);
            assert(config.effects@.take(i + 1).drop_last() =~= config.effects@.take(i as int));
            match from::<A>(config.effects[i], stream_config) {
                Ok(effect) => {
                    effects.push(effect);
                    assert(stages(effects@) =~= before.push(effect@));
                },
                Err(error) => {
                    proof {
                        made_all_stays_failed::<A>(
                            config.effects@,
                            *stream_config,
                            (i + 1) as nat,
                        );
                    }
                    return Err(error);
                },
            }
            i += 1;
        }
        assert(config.effects@.take(i as int) =~= config.effects@);
        Self::new(effects)
    }

    /// A chain of `effects`, in that order; at least one is needed.
    pub fn new(effects: Vec<Effect>) -> (made: Result<Self, Error>)
        requires
            forall|i: int| 0 <= i < effects@.len() ==> (#[trigger] effects@[i]).wf(),
        ensures
            made is Ok <==> effects@.len() > 0,
            made matches Ok(pipeline) ==> pipeline.wf() && pipeline@ == stages(effects@),
            made matches Err(error) ==> error == Error::Configuration(ConfigurationError::NoUnits),
    {
        if effects.len() == 0 {
            Err(Error::Configuration(ConfigurationError::NoUnits))
        } else {
            Ok(Pipeline { effects })
        }
    }

    /// Runs the effects one after the other on one frame; each hears the
    /// MIDI messages that arrived since the last frame. The first fault ends
    /// the call and leaves `output` as it was.
    pub fn process<A: Arithmetic>(
        &mut self,
        midi_messages: &[Message],
        input: &[Sample],
        output: &mut [Sample],
    ) -> (report: Result<(), Error>)
        requires
            old(self).wf(),
            input@.len() == old(output)@.len(),
        ensures
            final(self).wf(),
            final(output)@.len() == old(output)@.len(),
            report is Err ==> final(output)@ == old(output)@,
            exists|schedules: Seq<Schedule>|
                chain_accounts::<A>(
                    old(self)@,
                    midi_messages@,
                    schedules,
                    input@,
                    final(self)@,
                    report,
                    final(output)@,
                ),
    {
        let n = input.len();
        let count = self.effects.len();
        let ghost effects = old(self)@;
        let ghost mut schedules: Seq<Schedule> = Seq::empty();
        let mut frame = slice_to_vec(input);
        let mut next = slice_to_vec(input);
        let mut at: usize = 0;
        while at < count
            invariant
                at <= count,
                count == self.effects@.len(),
                count == effects.len(),
                effects == old(self)@,
                n == input@.len(),
                n == frame@.len(),
                n == next@.len(),
                forall|j: int| 0 <= j < count ==> (#[trigger] self.effects@[j]).wf(),
                forall|j: int| at <= j < count ==> self.effects@[j] == old(self).effects@[j],
                schedules.len() == at,
                chain::<A>(effects, midi_messages@, schedules, input@, at as nat) == (
                    stages(self.effects@),
                    Ok::<Seq<Sample>, Error>(frame@),
                ),
            decreases count - at,
        {
            let ghost before = stages(self.effects@);
            let ghost sofar = schedules;
            let report = self.effects[at].process::<A>(
                midi_messages,
                frame.as_slice(),
                next.as_mut_slice(),
            );
            proof {
                let effect = effects[at as int];
                let schedule = choose|schedule: Schedule|
                    effect.accounts::<A>(
                        midi_messages@,
                        schedule,
                        frame@,
                        self.effects@[at as int]@,
                        report,
                        next@,
                    );
                schedules = sofar.push(schedule);
                chain_ignores_later_schedules::<A>(
                    effects,
                    midi_messages@,
                    sofar,
                    schedules,
                    input@,
                    at as nat,
                );
                assert(stages(self.effects@) =~= before.update(
                    at as int,
                    self.effects@[at as int]@,
                ));
            }
            match report {
                Err(error) => {
                    proof {
                        chain_stays_after_fault::<A>(
                            effects,
                            midi_messages@,
                            schedules,
                            input@,
                            (at + 1) as nat,
                            count as nat,
                        );
                        assert(chain_accounts::<A>(
                            effects,
                            midi_messages@,
                            schedules,
                            input@,
                            self@,
                            Err(error),
                            output@,
                        ));
                    }
                    return Err(error);
                },
                Ok(_) => {},
            }
            copy_frame(next.as_slice(), frame.as_mut_slice());
            at += 1;
        }
        copy_frame(frame.as_slice(), output);
        assert(chain_accounts::<A>(
            effects,
            midi_messages@,
            schedules,
            input@,
            self@,
            Ok(()),
            output@,
        ));
        Ok(())
    }
}

/// Once one of the first `count` effects cannot be made, none of the longer
/// lists can.
proof fn made_all_stays_failed<A: Arithmetic>(
    configs: Seq<crate::config::Effect>,
    stream_config: StreamConfig,
    count: nat,
)
    requires
        count <= configs.len(),
        made_all::<A>(configs.take(count as int), stream_config) is Err,
    ensures
        made_all::<A>(configs, stream_config) == made_all::<A>(
            configs.take(count as int),
            stream_config,
        ),
    decreases configs.len() - count,
{
    if count < configs.len() {
        assert(configs.take(count as int + 1).drop_last() =~= configs.take(count as int));
        made_all_stays_failed::<A>(configs, stream_config, count + 1);
    } else {
        assert(configs.take(count as int) =~= configs);
    }
}

} // verus!
