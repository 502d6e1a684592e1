//! The looper: records a phrase into a fixed buffer, plays it back in a
//! loop, and layers new input over it.

use crate::audio::StreamConfig;
use crate::control::{channel, drain};
use crate::error::Error;
use crate::sample::{mix_frames, silence, Arithmetic, Sample, SILENCE};
use crate::util::{ms_in_samples, samples_in, silent_frame};
use std::sync::mpsc::{Receiver, Sender};
use vstd::arithmetic::div_mod::{
    lemma_mod_add_multiples_vanish,
    lemma_mod_bound,
    lemma_small_mod,
};
use vstd::prelude::*;

verus! {

/// What can be asked of a looper.
#[derive(Clone, Copy, Debug, PartialEq, Eq, Structural)]
pub enum Message {
    /// Arms the next step of the record / play cycle, or stops playback.
    Toggle,
    /// Arms overdubbing for the next pass over the loop.
    QueueOverdub,
    /// A measure begins: armed transitions take effect.
    TickMeasure,
}

/// What a looper is doing. `position` is the cursor into the buffer, `total`
/// the length of the loop; a state that begins with `Queue` or ends in
/// `Awaiting...` is armed and waits, for the next measure or for the end of
/// the loop.
#[derive(Clone, Copy, Debug, PartialEq, Eq, Structural)]
pub enum State {
    Off,
    QueueRecording,
    Recording { position: usize },
    QueuePlaying { position: usize },
    Playing { position: usize, total: usize },
    PlayingAwaitingOverdub { position: usize, total: usize },
    Overdubbing { position: usize, total: usize },
}

impl State {
    /// The state after a `Toggle`.
    pub open spec fn toggled(self) -> State {
        match self {
            State::Off => State::QueueRecording,
            State::Recording { position } => State::QueuePlaying { position },
            _ => State::Off,
        }
    }

    /// The state after a `QueueOverdub`.
    pub open spec fn overdub_queued(self) -> State {
        match self {
            State::Playing { position, total } => State::PlayingAwaitingOverdub { position, total },
            _ => self,
        }
    }

    /// The state after a `TickMeasure`.
    pub open spec fn measure_ticked(self) -> State {
        match self {
            State::QueueRecording => State::Recording { position: 0 },
            State::QueuePlaying { position } => State::Playing { position: 0, total: position },
            _ => self,
        }
    }

    /// The state after `message`.
    pub open spec fn received(self, message: Message) -> State {
        match message {
            Message::Toggle => self.toggled(),
            Message::QueueOverdub => self.overdub_queued(),
            Message::TickMeasure => self.measure_ticked(),
        }
    }

    /// Whether input is being written to the buffer for the first time.
    pub open spec fn is_taking(self) -> bool {
        self is Recording || self is QueuePlaying
    }

    /// Whether the loop is being read back.
    pub open spec fn is_looping(self) -> bool {
        self is Playing || self is PlayingAwaitingOverdub || self is Overdubbing
    }

    /// The cursor into the buffer; 0 where the state has none.
    pub open spec fn cursor(self) -> nat {
        match self {
            State::Recording { position } => position as nat,
            State::QueuePlaying { position } => position as nat,
            State::Playing { position, .. } => position as nat,
            State::PlayingAwaitingOverdub { position, .. } => position as nat,
            State::Overdubbing { position, .. } => position as nat,
            _ => 0,
        }
    }

    /// The length of the loop; 0 where none has been closed yet.
    pub open spec fn span(self) -> nat {
        match self {
            State::Playing { total, .. } => total as nat,
            State::PlayingAwaitingOverdub { total, .. } => total as nat,
            State::Overdubbing { total, .. } => total as nat,
            _ => 0,
        }
    }

    /// The same state with its cursor at `position`.
    pub open spec fn moved_to(self, position: usize) -> State {
        match self {
            State::Recording { .. } => State::Recording { position },
            State::QueuePlaying { .. } => State::QueuePlaying { position },
            State::Playing { total, .. } => State::Playing { position, total },
            State::PlayingAwaitingOverdub { total, .. } => State::PlayingAwaitingOverdub {
                position,
                total,
            },
            State::Overdubbing { total, .. } => State::Overdubbing { position, total },
            _ => self,
        }
    }

    /// The state once the cursor has reached the end of a buffer of
    /// `capacity` samples (while taking input) or the end of the loop (while
    /// looping): a full buffer closes the loop, an armed overdub starts, a
    /// running overdub ends, and the cursor is back at 0.
    pub open spec fn turned(self, capacity: usize) -> State {
        match self {
            State::Recording { .. } => State::Playing { position: 0, total: capacity },
            State::QueuePlaying { .. } => State::Playing { position: 0, total: capacity },
            State::Playing { total, .. } => State::Playing { position: 0, total },
            State::PlayingAwaitingOverdub { total, .. } => State::Overdubbing {
                position: 0,
                total,
            },
            State::Overdubbing { total, .. } => State::Playing { position: 0, total },
            _ => self,
        }
    }

    /// Whether an overdub is armed.
    pub fn is_awaiting_overdub(&self) -> (awaiting: bool)
        ensures
            awaiting == (self is PlayingAwaitingOverdub),
    {
        match self {
            State::PlayingAwaitingOverdub { .. } => true,
            _ => false,
        }
    }

    /// Starts the armed overdub with the cursor at `position`.
    pub fn start_overdubbing(&mut self, position: usize)
        requires
            *old(self) is PlayingAwaitingOverdub,
        ensures
            *final(self) == (State::Overdubbing { position, total: old(self).span() as usize }),
    {
        match *self {
            State::PlayingAwaitingOverdub { total, .. } => {
                *self = State::Overdubbing { position, total };
            },
            _ => {},
        }
    }

    /// Moves the cursor of a playing loop to `position`.
    pub fn update_position(&mut self, position: usize)
        requires
            *old(self) is Playing || *old(self) is PlayingAwaitingOverdub,
        ensures
            *final(self) == old(self).moved_to(position),
    {
        match *self {
            State::Playing { total, .. } => {
                *self = State::Playing { position, total };
            },
            State::PlayingAwaitingOverdub { total, .. } => {
                *self = State::PlayingAwaitingOverdub { position, total };
            },
            _ => {},
        }
    }

    /// Arms the overdub, if the loop is playing.
    pub fn queue_overdub(&mut self)
        ensures
            *final(self) == old(self).overdub_queued(),
    {
        match *self {
            State::Playing { position, total } => {
                *self = State::PlayingAwaitingOverdub { position, total };
            },
            _ => {},
        }
    }

    /// Arms the recording when off, arms the playback when recording, and
    /// turns the looper off otherwise.
    pub fn queue_toggle(&mut self)
        ensures
            *final(self) == old(self).toggled(),
    {
        let next = match *self {
            State::Off => State::QueueRecording,
            State::Recording { position } => State::QueuePlaying { position },
            _ => State::Off,
        };
        *self = next;
    }

    /// Begins what is armed: the recording, or the playback of what was
    /// recorded.
    pub fn tick_measure(&mut self)
        ensures
            *final(self) == old(self).measure_ticked(),
    {
        match *self {
            State::QueueRecording => {
                *self = State::Recording { position: 0 };
            },
            State::QueuePlaying { position } => {
                *self = State::Playing { position: 0, total: position };
            },
            _ => {},
        }
    }
}

/// `buffer` with the samples of `patch` written over it from index `at` on.
pub open spec fn overwritten(buffer: Seq<Sample>, at: int, patch: Seq<Sample>) -> Seq<Sample> {
    Seq::new(
        buffer.len(),
        |i: int|
            if at <= i < at + patch.len() {
                patch[i - at]
            } else {
                buffer[i]
            },
    )
}

/// A looper as a value: what its buffer holds and the state it is in.
pub struct Tape {
    pub buffer: Seq<Sample>,
    pub state: State,
}

impl Tape {
    /// The cursor stays inside the loop, and the loop inside the buffer. A
    /// cursor at the very end is never at rest: it has turned to 0.
    pub open spec fn wf(self) -> bool {
        let capacity = self.buffer.len();
        let position = self.state.cursor();
        let total = self.state.span();
        &&& capacity <= usize::MAX
        &&& self.state.is_taking() ==> position < capacity || (position == 0 && capacity == 0)
        &&& self.state.is_looping() ==> (position < total && total <= capacity) || (position == 0
            && total == 0)
    }

    /// The looper after `message`.
    pub open spec fn received(self, message: Message) -> Tape {
        Tape { buffer: self.buffer, state: self.state.received(message) }
    }

    /// The looper after each of `messages`, in order.
    pub open spec fn received_all(self, messages: Seq<Message>) -> Tape
        decreases messages.len(),
    {
        if messages.len() == 0 {
            self
        } else {
            self.received_all(messages.drop_last()).received(messages.last())
        }
    }

    /// Whether frames pass without touching the buffer: nothing is being
    /// recorded and there is no loop to play.
    pub open spec fn idle(self) -> bool {
        !self.state.is_taking() && !(self.state.is_looping() && self.state.span() > 0)
    }

    /// The number of samples from the cursor to the point where the state
    /// turns: the end of the buffer while taking input, the end of the loop
    /// while looping.
    pub open spec fn reach(self) -> nat {
        if self.state.is_taking() {
            (self.buffer.len() - self.state.cursor()) as nat
        } else {
            (self.state.span() - self.state.cursor()) as nat
        }
    }

    /// The looper and its output after `input`, for an input that does not
    /// go past the turning point. While taking, the input is written at the
    /// cursor and the output is silent. While looping, the output is what the
    /// buffer holds at the cursor; while overdubbing, the input is then mixed
    /// into those samples of the buffer. The cursor advances by the length of
    /// the input.
    pub open spec fn within<A: Arithmetic>(self, input: Seq<Sample>) -> (Tape, Seq<Sample>) {
        let position = self.state.cursor() as int;
        let next = (position + input.len()) as usize;
        let heard = self.buffer.subrange(position, position + input.len());
        if self.idle() {
            (self, silence(input.len()))
        } else if self.state.is_taking() {
            (
                Tape {
                    buffer: overwritten(self.buffer, position, input),
                    state: self.state.moved_to(next),
                },
                silence(input.len()),
            )
        } else if self.state is Overdubbing {
            (
                Tape {
                    buffer: overwritten(self.buffer, position, mix_frames::<A>(heard, input)),
                    state: self.state.moved_to(next),
                },
                heard,
            )
        } else {
            (Tape { buffer: self.buffer, state: self.state.moved_to(next) }, heard)
        }
    }

    /// The looper with its state turned, the buffer as it is.
    pub open spec fn turned(self) -> Tape {
        Tape { buffer: self.buffer, state: self.state.turned(self.buffer.len() as usize) }
    }

    /// The looper and its output after a frame of `input`. The frame is
    /// processed up to the turning point, the state turns, and the rest of
    /// the frame is processed from there; so a frame may pass the end of the
    /// loop any number of times. The output has the length of the input.
    pub open spec fn frame<A: Arithmetic>(self, input: Seq<Sample>) -> (Tape, Seq<Sample>)
        decreases input.len(), (if self.state.is_taking() { 1int } else { 0int }),
    {
        if !self.wf() || self.idle() || input.len() < self.reach() {
            self.within::<A>(input)
        } else {
            let reach = self.reach() as int;
            let (filled, first) = self.within::<A>(input.take(reach));
            let (after, rest) = filled.turned().frame::<A>(input.skip(reach));
            (after, first + rest)
        }
    }

    /// Commands keep the looper well formed.
    pub proof fn received_keeps_wf(self, message: Message)
        requires
            self.wf(),
        ensures
            self.received(message).wf(),
    {
    }

    /// Commands keep the looper well formed, and do not touch the buffer.
    pub proof fn received_all_keeps_wf(self, messages: Seq<Message>)
        requires
            self.wf(),
        ensures
            self.received_all(messages).wf(),
            self.received_all(messages).buffer == self.buffer,
        decreases messages.len(),
    {
        if messages.len() > 0 {
            self.received_all_keeps_wf(messages.drop_last());
            self.received_all(messages.drop_last()).received_keeps_wf(messages.last());
        }
    }

    /// A frame keeps the looper well formed and the size of its buffer, and
    /// gives as many samples as it takes.
    pub proof fn frame_keeps_wf<A: Arithmetic>(self, input: Seq<Sample>)
        requires
            self.wf(),
        ensures
            self.frame::<A>(input).0.wf(),
            self.frame::<A>(input).0.buffer.len() == self.buffer.len(),
            self.frame::<A>(input).1.len() == input.len(),
        decreases input.len(), (if self.state.is_taking() { 1int } else { 0int }),
    {
        if !(self.idle() || input.len() < self.reach()) {
            let reach = self.reach() as int;
            let (filled, first) = self.within::<A>(input.take(reach));
            filled.turned().frame_keeps_wf::<A>(input.skip(reach));
        }
    }
}

impl Tape {
    /// Playback repeats: a loop that is playing gives, sample after sample,
    /// what the loop holds from the cursor on, and starts over at its end,
    /// however the frames cut the stream. The buffer stays as it is, and the
    /// cursor ends where the frame left it.
    pub proof fn playing_repeats<A: Arithmetic>(self, input: Seq<Sample>)
        requires
            self.wf(),
            self.state is Playing,
            self.state.span() > 0,
        ensures
            self.frame::<A>(input).0.buffer == self.buffer,
            self.frame::<A>(input).0.state == (State::Playing {
                position: ((self.state.cursor() + input.len()) % self.state.span()) as usize,
                total: self.state.span() as usize,
            }),
            self.frame::<A>(input).1.len() == input.len(),
            forall|i: int|
                0 <= i < input.len() ==> #[trigger] self.frame::<A>(input).1[i]
                    == self.buffer[(self.state.cursor() + i) % (self.state.span() as int)],
        decreases input.len(),
    {
        let position = self.state.cursor() as int;
        let total = self.state.span() as int;
        let n = input.len() as int;
        let reach = self.reach() as int;
        if n < reach {
            lemma_small_mod((position + n) as nat, total as nat);
            assert forall|i: int| 0 <= i < n implies #[trigger] self.frame::<A>(input).1[i]
                == self.buffer[(position + i) % total] by {
                lemma_small_mod((position + i) as nat, total as nat);
            }
        } else {
            let (filled, first) = self.within::<A>(input.take(reach));
            let rest = input.skip(reach);
            filled.turned().playing_repeats::<A>(rest);
            let (after, later) = filled.turned().frame::<A>(rest);
            lemma_mod_add_multiples_vanish(n - reach, total);
            assert forall|i: int| 0 <= i < n implies #[trigger] self.frame::<A>(input).1[i]
                == self.buffer[(position + i) % total] by {
                if i < reach {
                    lemma_small_mod((position + i) as nat, total as nat);
                } else {
                    lemma_mod_add_multiples_vanish(i - reach, total);
                }
            }
        }
    }

    /// A recorded phrase is played back: when a phrase shorter than the
    /// buffer has been recorded from the start, a toggle and the next measure
    /// close the loop, and every frame from then on gives the phrase, sample
    /// after sample and over and over.
    pub proof fn recorded_phrase_repeats<A: Arithmetic>(
        self,
        phrase: Seq<Sample>,
        later: Seq<Sample>,
    )
        requires
            self.wf(),
            self.state == (State::Recording { position: 0 }),
            0 < phrase.len() < self.buffer.len(),
        ensures
            self.frame::<A>(phrase).1 == silence(phrase.len()),
            self.frame::<A>(phrase).0.received(Message::Toggle).received(
                Message::TickMeasure,
            ).state == (State::Playing { position: 0, total: phrase.len() as usize }),
            forall|i: int|
                0 <= i < later.len() ==> #[trigger] self.frame::<A>(phrase).0.received(
                    Message::Toggle,
                ).received(Message::TickMeasure).frame::<A>(later).1[i] == phrase[i % (
                phrase.len() as int)],
    {
        let recorded = self.frame::<A>(phrase).0;
        let playing = recorded.received(Message::Toggle).received(Message::TickMeasure);
        playing.playing_repeats::<A>(later);
        assert forall|i: int| 0 <= i < later.len() implies #[trigger] playing.frame::<A>(
            later,
        ).1[i] == phrase[i % (phrase.len() as int)] by {
            lemma_mod_bound(i, phrase.len() as int);
        }
    }

    /// Overdubbing layers: when a frame carries an armed loop past its end
    /// and no further than once around, the part of the frame after the end is
    /// mixed into what the loop held from its start on, sample by sample, and
    /// the output is what the loop held before. Nothing else in the buffer
    /// changes.
    pub proof fn overdub_layers<A: Arithmetic>(self, input: Seq<Sample>)
        requires
            self.wf(),
            self.state is PlayingAwaitingOverdub,
            self.state.span() > 0,
            self.reach() <= input.len() < self.reach() + self.state.span(),
        ensures
            self.frame::<A>(input).0.state == (State::Overdubbing {
                position: (input.len() - self.reach()) as usize,
                total: self.state.span() as usize,
            }),
            self.frame::<A>(input).0.buffer.len() == self.buffer.len(),
            forall|j: int|
                0 <= j < input.len() - self.reach() ==> #[trigger] self.frame::<A>(
                    input,
                ).0.buffer[j] == A::mixed(self.buffer[j], input[self.reach() + j]),
            forall|j: int|
                input.len() - self.reach() <= j < self.buffer.len() ==> #[trigger] self.frame::<A>(
                    input,
                ).0.buffer[j] == self.buffer[j],
            self.frame::<A>(input).1 == self.buffer.subrange(
                self.state.cursor() as int,
                self.state.span() as int,
            ) + self.buffer.subrange(0, input.len() - self.reach()),
    {
        // up to the end of the loop the frame is played; the rest is overdubbed from the start
        let reach = self.reach() as int;
        let armed = self.within::<A>(input.take(reach)).0.turned();
        let rest = input.skip(reach);
        assert(armed.frame::<A>(rest) == armed.within::<A>(rest));
    }
}

/// A looper: its buffer, its state, and the receiving end of the channel on
/// which it is steered.
pub struct Looper {
    messages: Receiver<Message>,
    buffer: Vec<Sample>,
    state: State,
}

impl View for Looper {
    type V = Tape;

    closed spec fn view(&self) -> Tape {
        Tape { buffer: self.buffer@, state: self.state }
    }
}

impl Looper {
    /// A looper that is off, with a silent buffer for `max_buffer_ms`
    /// milliseconds of the stream, and the sending end of its control channel.
    pub fn new(stream_config: &StreamConfig, max_buffer_ms: u32) -> (made: (Self, Sender<Message>))
        requires
            samples_in(*stream_config, max_buffer_ms) <= usize::MAX,
        ensures
            made.0@.wf(),
            made.0@.state == State::Off,
            made.0@.buffer == silence(samples_in(*stream_config, max_buffer_ms)),
    {
        let (sender, receiver) = channel();
        let buffer = silent_frame(ms_in_samples(stream_config, max_buffer_ms));
        (Looper { messages: receiver, buffer, state: State::Off }, sender)
    }

    /// Applies one command.
    pub fn process_message(&mut self, message: Message)
        ensures
            final(self)@ == old(self)@.received(message),
    {
        match message {
            Message::Toggle => {
                self.state.queue_toggle();
            },
            Message::QueueOverdub => {
                self.state.queue_overdub();
            },
            Message::TickMeasure => {
                self.state.tick_measure();
            },
        }
    }

    /// Takes the commands that have arrived on the control channel and
    /// applies them, in order.
    pub fn process_messages(&mut self)
        ensures
            exists|messages: Seq<Message>| final(self)@ == old(self)@.received_all(messages),
    {
        let messages = drain(&self.messages);
        self.apply_messages(messages.as_slice());
    }

    /// Applies `messages`, in order.
    pub fn apply_messages(&mut self, messages: &[Message])
        ensures
            final(self)@ == old(self)@.received_all(messages@),
    {
        let mut i: usize = 0;
        while i < messages.len()
            invariant
                i <= messages@.len(),
                self@ == old(self)@.received_all(messages@.take(i as int)),
            decreases messages.len() - i,
        {
            assert(messages@.take(i + 1).drop_last() =~= messages@.take(i as int));
            self.process_message(messages[i]);
            i += 1;
        }
        assert(messages@.take(i as int) =~= messages@);
    }

    /// Writes silence to `count` samples of `output`, from index `from` on.
    fn rest(output: &mut [Sample], from: usize, count: usize)
        requires
            from + count <= old(output)@.len(),
        ensures
            final(output)@ == overwritten(old(output)@, from as int, silence(count as nat)),
    {
        let n = output.len();
        let mut i: usize = 0;
        while i < count
            invariant
                i <= count,
                from + count <= n,
                n == output@.len(),
                output@ == overwritten(old(output)@, from as int, silence(i as nat)),
            decreases count - i,
        {
            output[from + i] = SILENCE;
            i += 1;
        }
    }

    /// Processes `count` samples, no more than are left before the turning
    /// point: those of `input` from index `from` on, into the same places of
    /// `output`.
    fn process_samples_within<A: Arithmetic>(
        &mut self,
        input: &[Sample],
        output: &mut [Sample],
        from: usize,
        count: usize,
    )
        requires
            old(self)@.wf(),
            input@.len() == old(output)@.len(),
            from + count <= input@.len(),
            old(self)@.idle() || count <= old(self)@.reach(),
        ensures
            final(self)@ == old(self)@.within::<A>(
                input@.subrange(from as int, from + count),
            ).0,
            final(output)@ == overwritten(
                old(output)@,
                from as int,
                old(self)@.within::<A>(input@.subrange(from as int, from + count)).1,
            ),
    {
        let ghost chunk = input@.subrange(from as int, from + count);
        match self.state {
            State::Off | State::QueueRecording => {
                Self::rest(output, from, count);
            },
            State::Recording { position } | State::QueuePlaying { position } => {
                let n = input.len();
                let size = self.buffer.len();
                let mut i: usize = 0;
                while i < count
                    invariant
                        i <= count,
                        from + count <= n,
                        n == input@.len(),
                        position + count <= size,
                        size == self.buffer@.len(),
                        self.state == old(self).state,
                        self.buffer@ == overwritten(
                            old(self).buffer@,
                            position as int,
                            chunk.take(i as int),
                        ),
                        chunk == input@.subrange(from as int, from + count),
                    decreases count - i,
                {
                    self.buffer[position + i] = input[from + i];
                    i += 1;
                }
                assert(chunk.take(count as int) =~= chunk);
                self.state = match self.state {
                    State::Recording { .. } => State::Recording { position: position + count },
                    _ => State::QueuePlaying { position: position + count },
                };
                Self::rest(output, from, count);
            },
            State::Playing { position, total }
            | State::PlayingAwaitingOverdub { position, total } => {
                if total == 0 {
                    Self::rest(output, from, count);
                } else {
                    self.process_samples_playing(output, from, count, position);
                    self.state.update_position(position + count);
                }
            },
            State::Overdubbing { position, total } => {
                if total == 0 {
                    Self::rest(output, from, count);
                } else {
                    self.process_samples_playing(output, from, count, position);
                    let ghost heard = old(self).buffer@.subrange(position as int, position + count);
                    let n = input.len();
                    let size = self.buffer.len();
                    let mut i: usize = 0;
                    while i < count
                        invariant
                            i <= count,
                            from + count <= n,
                            n == input@.len(),
                            position + count <= size,
                            size == self.buffer@.len(),
                            self.state == old(self).state,
                            self.buffer@.len() == old(self).buffer@.len(),
                            self.buffer@ == overwritten(
                                old(self).buffer@,
                                position as int,
                                mix_frames::<A>(heard, chunk).take(i as int),
                            ),
                            chunk == input@.subrange(from as int, from + count),
                            heard == old(self).buffer@.subrange(position as int, position + count),
                        decreases count - i,
                    {
                        let layered = A::mix(self.buffer[position + i], input[from + i]);
                        self.buffer[position + i] = layered;
                        i += 1;
                    }
                    assert(mix_frames::<A>(heard, chunk).take(count as int) =~= mix_frames::<A>(
                        heard,
                        chunk,
                    ));
                    self.state = State::Overdubbing { position: position + count, total };
                }
            },
        }
    }

    /// Copies `count` samples of the buffer, from `position` on, to
    /// `output`, from index `from` on.
    fn process_samples_playing(
        &self,
        output: &mut [Sample],
        from: usize,
        count: usize,
        position: usize,
    )
        requires
            from + count <= old(output)@.len(),
            position + count <= self.buffer@.len(),
        ensures
            final(output)@ == overwritten(
                old(output)@,
                from as int,
                self.buffer@.subrange(position as int, position + count),
            ),
    {
        let ghost heard = self.buffer@.subrange(position as int, position + count);
        let n = output.len();
        let size = self.buffer.len();
        let mut i: usize = 0;
        while i < count
            invariant
                i <= count,
                from + count <= n,
                n == output@.len(),
                position + count <= size,
                size == self.buffer@.len(),
                heard == self.buffer@.subrange(position as int, position + count),
                output@ == overwritten(old(output)@, from as int, heard.take(i as int)),
            decreases count - i,
        {
            output[from + i] = self.buffer[position + i];
            i += 1;
        }
    }

    /// Processes one frame: `output` receives what the looper plays while it
    /// takes `input`.
    pub fn process_samples<A: Arithmetic>(&mut self, input: &[Sample], output: &mut [Sample])
        requires
            old(self)@.wf(),
            input@.len() == old(output)@.len(),
        ensures
            final(self)@.wf(),
            final(self)@ == old(self)@.frame::<A>(input@).0,
            final(output)@ == old(self)@.frame::<A>(input@).1,
    {
        let n = input.len();
        let mut from: usize = 0;
        let mut turning = true;
        proof {
            assert(input@.skip(0) =~= input@);
            old(self)@.frame_keeps_wf::<A>(input@);
        }
        while turning
            invariant
                from <= n,
                n == input@.len(),
                n == output@.len(),
                self@.wf(),
                old(self)@.frame::<A>(input@).1.len() == n,
                turning ==> old(self)@.frame::<A>(input@).0 == self@.frame::<A>(
                    input@.skip(from as int),
                ).0,
                turning ==> old(self)@.frame::<A>(input@).1 == output@.take(from as int)
                    + self@.frame::<A>(input@.skip(from as int)).1,
                !turning ==> self@ == old(self)@.frame::<A>(input@).0,
                !turning ==> output@ == old(self)@.frame::<A>(input@).1,
            decreases
                    (if turning { 1int } else { 0int }),
                    n - from,
                    (if self.state.is_taking() { 1int } else { 0int }),
        {
            let left = n - from;
            let reach = self.reach();
            let ghost before = self@;
            let ghost rest = input@.skip(from as int);
            proof {
                before.frame_keeps_wf::<A>(rest);
            }
            if self.is_idle() || left < reach {
                self.process_samples_within::<A>(input, output, from, left);
                turning = false;
            } else {
                self.process_samples_within::<A>(input, output, from, reach);
                self.turn();
                proof {
                    let chunk = input@.subrange(from as int, from + reach);
                    assert(chunk =~= rest.take(reach as int));
                    assert(rest.skip(reach as int) =~= input@.skip(from + reach));
                    self@.frame_keeps_wf::<A>(input@.skip(from + reach));
                }
                from = from + reach;
            }
        }
    }

    /// Whether frames pass without touching the buffer.
    fn is_idle(&self) -> (idle: bool)
        ensures
            idle == self@.idle(),
    {
        match self.state {
            State::Off | State::QueueRecording => true,
            State::Recording { .. } | State::QueuePlaying { .. } => false,
            State::Playing { total, .. } => total == 0,
            State::PlayingAwaitingOverdub { total, .. } => total == 0,
            State::Overdubbing { total, .. } => total == 0,
        }
    }

    /// The number of samples from the cursor to the turning point.
    fn reach(&self) -> (reach: usize)
        requires
            self@.wf(),
        ensures
            reach == self@.reach(),
    {
        match self.state {
            State::Off | State::QueueRecording => 0,
            State::Recording { position } => self.buffer.len() - position,
            State::QueuePlaying { position } => self.buffer.len() - position,
            State::Playing { position, total } => total - position,
            State::PlayingAwaitingOverdub { position, total } => total - position,
            State::Overdubbing { position, total } => total - position,
        }
    }

    /// Turns the state at the end of the buffer or of the loop.
    fn turn(&mut self)
        ensures
            final(self)@ == old(self)@.turned(),
    {
        match self.state {
            State::Recording { .. } | State::QueuePlaying { .. } => {
                // the buffer is full: what it holds is the loop
                self.state = State::Playing { position: 0, total: self.buffer.len() };
            },
            State::Playing { .. } => {
                self.state.update_position(0);
            },
            State::PlayingAwaitingOverdub { .. } => {
                self.state.start_overdubbing(0);
            },
            State::Overdubbing { total, .. } => {
                self.state = State::Playing { position: 0, total };
            },
            State::Off | State::QueueRecording => {},
        }
    }

    /// Applies the commands that have arrived, then processes one frame.
    /// Never fails.
    pub fn process<A: Arithmetic>(&mut self, input: &[Sample], output: &mut [Sample]) -> (result:
        Result<(), Error>)
        requires
            old(self)@.wf(),
            input@.len() == old(output)@.len(),
        ensures
            result is Ok,
            final(self)@.wf(),
            exists|messages: Seq<Message>|
                {
                    &&& final(self)@ == old(self)@.received_all(messages).frame::<A>(input@).0
                    &&& final(output)@ == old(self)@.received_all(messages).frame::<A>(input@).1
                },
    {
        self.process_messages();
        proof {
            let messages = choose|messages: Seq<Message>|
                self@ == old(self)@.received_all(messages);
            old(self)@.received_all_keeps_wf(messages);
        }
        self.process_samples::<A>(input, output);
        Ok(())
    }
}

} // verus!
