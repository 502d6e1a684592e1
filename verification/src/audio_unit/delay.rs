//! The delay line: a unit that gives back what it took a fixed time ago, and
//! whose delay can be changed while it runs.

use crate::audio::StreamConfig;
use crate::control::{channel, drain};
use crate::error::{ConfigurationError, Error};
use crate::ring_buffer::{
    read_into,
    read_samples,
    write_empty_samples,
    write_samples,
    Transport,
};
use crate::sample::{silence, Sample};
use crate::util::{
    checked_ms_in_samples,
    copy_frame,
    ms_in_samples,
    samples_in,
    samples_in_is_monotonic,
};
use std::sync::mpsc::{Receiver, Sender};
use vstd::prelude::*;
use vstd::slice::slice_subrange;

verus! {

/// A delay, in milliseconds.
pub type DelayMs = u32;

/// What can be asked of a delay line.
#[derive(Clone, Copy, Debug, PartialEq, Eq, Structural)]
pub enum Message {
    /// Makes the line this many milliseconds long.
    SetDelay(DelayMs),
}

/// A delay line as a value: the samples on their way through it, oldest
/// first, its length and the longest it may become.
pub struct DelayLine {
    pub held: Seq<Sample>,
    pub delay_ms: DelayMs,
    pub max_delay_ms: DelayMs,
    pub stream_config: StreamConfig,
}

impl DelayLine {
    /// The length of the line, in samples.
    pub open spec fn length(self) -> nat {
        samples_in(self.stream_config, self.delay_ms)
    }

    /// The number of samples that the buffer behind the line can hold: its
    /// greatest length.
    pub open spec fn capacity(self) -> nat {
        samples_in(self.stream_config, self.max_delay_ms)
    }

    /// The line holds exactly as many samples as it is long, and is no
    /// longer than it may become.
    pub open spec fn wf(self) -> bool {
        &&& self.held.len() == self.length()
        &&& self.delay_ms <= self.max_delay_ms
        &&& Transport::fits(self.capacity())
    }

    /// A silent line.
    pub open spec fn silent(
        stream_config: StreamConfig,
        delay_ms: DelayMs,
        max_delay_ms: DelayMs,
    ) -> DelayLine {
        DelayLine {
            held: silence(samples_in(stream_config, delay_ms)),
            delay_ms,
            max_delay_ms,
            stream_config,
        }
    }

    /// The line made `delay_ms` long. A longer line gets the missing samples
    /// as silence behind those it holds; a shorter one loses its oldest.
    pub open spec fn resized(self, delay_ms: DelayMs) -> DelayLine {
        let wanted = samples_in(self.stream_config, delay_ms);
        DelayLine {
            held: if wanted >= self.length() {
                self.held + silence((wanted - self.length()) as nat)
            } else {
                self.held.skip(self.length() - wanted)
            },
            delay_ms,
            max_delay_ms: self.max_delay_ms,
            stream_config: self.stream_config,
        }
    }

    /// The line after a request for a length of `delay_ms`, and what the
    /// request reports: a length beyond the greatest is refused and changes
    /// nothing.
    pub open spec fn set_delay(self, delay_ms: DelayMs) -> (DelayLine, Result<(), Error>) {
        if delay_ms > self.max_delay_ms {
            (self, Err(Error::Configuration(ConfigurationError::DelayBounds)))
        } else {
            (self.resized(delay_ms), Ok(()))
        }
    }

    /// The line after the commands that arrived before one frame: only the
    /// last of them counts.
    pub open spec fn commanded(self, messages: Seq<Message>) -> (DelayLine, Result<(), Error>) {
        if messages.len() == 0 {
            (self, Ok(()))
        } else {
            match messages.last() {
                Message::SetDelay(delay_ms) => self.set_delay(delay_ms),
            }
        }
    }

    /// The line after a frame of `input` has passed through it: it holds
    /// the newest samples of what it held followed by the input, as many as it
    /// is long.
    pub open spec fn passed(self, input: Seq<Sample>) -> DelayLine {
        DelayLine {
            held: (self.held + input).skip(input.len() as int),
            delay_ms: self.delay_ms,
            max_delay_ms: self.max_delay_ms,
            stream_config: self.stream_config,
        }
    }

    /// The frame that comes out when a frame of `input` passes through the
    /// line: the oldest samples of what the line holds followed by the input,
    /// as many as went in.
    pub open spec fn heard(self, input: Seq<Sample>) -> Seq<Sample> {
        (self.held + input).take(input.len() as int)
    }

    /// One call of `process`: the commands, then the frame. A refused
    /// command ends the call before the frame is touched.
    pub open spec fn step(self, messages: Seq<Message>, input: Seq<Sample>) -> (
        DelayLine,
        Result<Seq<Sample>, Error>,
    ) {
        let (line, report) = self.commanded(messages);
        match report {
            Err(error) => (line, Err(error)),
            Ok(_) => (line.passed(input), Ok(line.heard(input))),
        }
    }

    /// Whether a call that took `messages` and `input` left the line as
    /// `after`, with this report, and with `output` where `stale` was: the
    /// line is as `step` says; the report is `Ok` exactly when `step` gives a
    /// frame, and the output is then that frame; otherwise the report is the
    /// fault and the output is as it was.
    pub open spec fn accounts(
        self,
        messages: Seq<Message>,
        input: Seq<Sample>,
        after: DelayLine,
        report: Result<(), Error>,
        stale: Seq<Sample>,
        output: Seq<Sample>,
    ) -> bool {
        &&& after == self.step(messages, input).0
        &&& match self.step(messages, input).1 {
            Ok(frame) => report is Ok && output == frame,
            Err(error) => report == Err::<(), Error>(error) && output == stale,
        }
    }

    /// Whatever the commands and the frame, the line stays well formed: it
    /// holds exactly as many samples as it is long, and is no longer than it
    /// may become. What comes out is as long as what went in.
    pub proof fn step_keeps_wf(self, messages: Seq<Message>, input: Seq<Sample>)
        requires
            self.wf(),
        ensures
            self.step(messages, input).0.wf(),
            self.step(messages, input).1 matches Ok(frame) ==> frame.len() == input.len(),
    {
        if messages.len() > 0 {
            match messages.last() {
                Message::SetDelay(delay_ms) => {
                    if delay_ms <= self.max_delay_ms {
                        self.resize_keeps_order(delay_ms);
                    }
                },
            }
        }
        self.commanded(messages).0.passed_keeps_length(input);
    }

    /// Resizing: a line made longer keeps every sample it held, in order and
    /// ahead of the silence that is added, so what was due comes out when it
    /// was due and the added delay is heard last. A line made shorter loses
    /// exactly its oldest samples and keeps the others in order. Either way
    /// the line then holds as many samples as it is long.
    pub proof fn resize_keeps_order(self, delay_ms: DelayMs)
        requires
            self.wf(),
            delay_ms <= self.max_delay_ms,
        ensures
            self.resized(delay_ms).wf(),
            self.resized(delay_ms).length() >= self.length() ==> {
                &&& self.resized(delay_ms).held.take(self.length() as int) == self.held
                &&& self.resized(delay_ms).held.skip(self.length() as int) == silence(
                    (self.resized(delay_ms).length() - self.length()) as nat,
                )
            },
            self.resized(delay_ms).length() < self.length() ==> self.resized(delay_ms).held
                == self.held.skip(self.length() - self.resized(delay_ms).length()),
    {
    }

    /// Delay is a shift of the stream, however the frames cut it: two
    /// frames passed one after the other give, taken together, what one frame
    /// of both would give, and leave the line as that frame would.
    pub proof fn passing_shifts_the_stream(self, first: Seq<Sample>, second: Seq<Sample>)
        requires
            self.wf(),
        ensures
            self.heard(first) + self.passed(first).heard(second) == self.heard(first + second),
            self.passed(first).passed(second) == self.passed(first + second),
    {
        let all = self.held + first + second;
        assert(self.passed(first).passed(second).held =~= all.skip(
            (first.len() + second.len()) as int,
        ));
        assert(self.passed(first + second).held =~= all.skip((first.len() + second.len()) as int));
    }

    /// A frame keeps the line as long as it was, and what comes out is as
    /// long as what went in. What went in comes out after as many samples as
    /// the line is long.
    pub proof fn passed_keeps_length(self, input: Seq<Sample>)
        requires
            self.wf(),
        ensures
            self.passed(input).wf(),
            self.heard(input).len() == input.len(),
            forall|i: int|
                0 <= i < input.len() - self.length() ==> #[trigger] self.heard(input)[self.length()
                    + i] == input[i],
            forall|i: int|
                0 <= i < self.length() && i < input.len() ==> #[trigger] self.heard(input)[i]
                    == self.held[i],
    {
    }
}

/// A delay line: a ring that holds as many samples as the line is long,
/// and the receiving end of the channel on which its length is set.
pub struct Delay {
    delay_ms: DelayMs,
    max_delay_ms: DelayMs,
    stream_config: StreamConfig,
    messages: Receiver<Message>,
    ring: Transport,
}

impl View for Delay {
    type V = DelayLine;

    closed spec fn view(&self) -> DelayLine {
        DelayLine {
            held: self.ring@.held,
            delay_ms: self.delay_ms,
            max_delay_ms: self.max_delay_ms,
            stream_config: self.stream_config,
        }
    }
}

impl Delay {
    /// The ring can hold the line at its greatest length, and the line is
    /// well formed.
    pub closed spec fn wf(&self) -> bool {
        &&& self.ring.wf()
        &&& self.ring@.capacity == self@.capacity()
        &&& self@.wf()
    }

    /// A well-formed delay is a well-formed line.
    pub proof fn wf_holds_of_line(&self)
        requires
            self.wf(),
        ensures
            self@.wf(),
    {
    }

    /// A silent line of `delay_ms` milliseconds that may become as long as
    /// `max_delay_ms`, and the sending end of its control channel.
    pub fn new(stream_config: &StreamConfig, delay_ms: DelayMs, max_delay_ms: DelayMs) -> (made:
        Result<(Self, Sender<Message>), Error>)
        ensures
            made is Ok <==> delay_ms <= max_delay_ms && Transport::fits(
                samples_in(*stream_config, max_delay_ms),
            ),
            made matches Ok(pair) ==> pair.0.wf() && pair.0@ == DelayLine::silent(
                *stream_config,
                delay_ms,
                max_delay_ms,
            ),
            made matches Err(error) ==> error == Error::Configuration(
                if delay_ms > max_delay_ms {
                    ConfigurationError::DelayBounds
                } else {
                    ConfigurationError::BufferTooLarge
                },
            ),
    {
        if delay_ms > max_delay_ms {
            return Err(Error::Configuration(ConfigurationError::DelayBounds));
        }
        let longest = match checked_ms_in_samples(stream_config, max_delay_ms) {
            Some(samples) => samples,
            None => {
                return Err(Error::Configuration(ConfigurationError::BufferTooLarge));
            },
        };
        let mut ring = match Transport::new(longest) {
            Ok(ring) => ring,
            Err(error) => {
                return Err(error);
            },
        };
        proof {
            samples_in_is_monotonic(*stream_config, delay_ms, max_delay_ms);
        }
        let _ = write_empty_samples(&mut ring, ms_in_samples(stream_config, delay_ms));
        assert(ring@.held =~= silence(samples_in(*stream_config, delay_ms)));
        let (sender, receiver) = channel();
        Ok(
            (
                Delay {
                    delay_ms,
                    max_delay_ms,
                    stream_config: *stream_config,
                    messages: receiver,
                    ring,
                },
                sender,
            ),
        )
    }

    /// Takes the commands that have arrived on the control channel and
    /// applies the last of them, if any did.
    pub fn process_messages(&mut self) -> (report: Result<(), Error>)
        requires
            old(self).wf(),
        ensures
            final(self).wf(),
            exists|messages: Seq<Message>|
                (final(self)@, report) == old(self)@.commanded(messages),
    {
        let messages = drain(&self.messages);
        self.apply_messages(messages.as_slice())
    }

    /// Applies the commands that arrived before one frame: the last of
    /// them, if there is any.
    pub fn apply_messages(&mut self, messages: &[Message]) -> (report: Result<(), Error>)
        requires
            old(self).wf(),
        ensures
            final(self).wf(),
            (final(self)@, report) == old(self)@.commanded(messages@),
    {
        if messages.len() == 0 {
            Ok(())
        } else {
            self.process_message(messages[messages.len() - 1])
        }
    }

    /// Applies one command.
    pub fn process_message(&mut self, message: Message) -> (report: Result<(), Error>)
        requires
            old(self).wf(),
        ensures
            final(self).wf(),
            (final(self)@, report) == old(self)@.commanded(seq![message]),
    {
        match message {
            Message::SetDelay(delay) => self.set_delay_ms(delay),
        }
    }

    /// Makes the line `delay_ms` long, unless that is longer than it may
    /// become.
    pub fn set_delay_ms(&mut self, delay_ms: DelayMs) -> (report: Result<(), Error>)
        requires
            old(self).wf(),
        ensures
            final(self).wf(),
            (final(self)@, report) == old(self)@.set_delay(delay_ms),
    {
        if delay_ms > self.max_delay_ms {
            return Err(Error::Configuration(ConfigurationError::DelayBounds));
        }
        proof {
            samples_in_is_monotonic(self.stream_config, self.delay_ms, self.max_delay_ms);
            samples_in_is_monotonic(self.stream_config, delay_ms, self.max_delay_ms);
        }
        let old_num_samples = ms_in_samples(&self.stream_config, self.delay_ms);
        let new_num_samples = ms_in_samples(&self.stream_config, delay_ms);
        if new_num_samples >= old_num_samples {
            let _ = write_empty_samples(&mut self.ring, new_num_samples - old_num_samples);
        } else {
            let _ = read_samples(&mut self.ring, old_num_samples - new_num_samples);
        }
        self.delay_ms = delay_ms;
        assert(self@.held =~= old(self)@.resized(delay_ms).held);
        Ok(())
    }

    /// Passes one frame through the line. A frame that is no longer than
    /// the line is read from the ring and then written to it, and nothing is
    /// allocated. A longer frame goes through the ring in pieces that fit it.
    /// Never fails.
    pub fn process_samples(&mut self, input: &[Sample], output: &mut [Sample]) -> (report: Result<
        (),
        Error,
    >)
        requires
            old(self).wf(),
            input@.len() == old(output)@.len(),
        ensures
            report is Ok,
            final(self).wf(),
            final(self)@ == old(self)@.passed(input@),
            final(output)@ == old(self)@.heard(input@),
    {
        proof {
            samples_in_is_monotonic(self.stream_config, self.delay_ms, self.max_delay_ms);
        }
        let n = input.len();
        let held = ms_in_samples(&self.stream_config, self.delay_ms);
        let capacity = ms_in_samples(&self.stream_config, self.max_delay_ms);
        let ghost all = old(self)@.held + input@;
        if capacity == 0 {
            // a line that cannot hold anything delays nothing
            copy_frame(input, output);
            assert(self@.held =~= all.skip(n as int));
            return Ok(());
        }
        if n <= held {
            // what is due comes out, and the frame takes its place
            let _ = read_into(&mut self.ring, output);
            let _ = write_samples(&mut self.ring, input);
            assert(self@.held =~= all.skip(n as int));
            assert(output@ =~= all.take(n as int));
            return Ok(());
        }
        let mut done: usize = 0;
        while done < n
            invariant
                done <= n,
                n == input@.len(),
                n == output@.len(),
                0 < capacity,
                held <= capacity,
                held == old(self)@.held.len(),
                all == old(self)@.held + input@,
                all.len() == held + n,
                self.ring.wf(),
                self.ring@.capacity == capacity,
                self.ring@.held == all.subrange(done as int, done + held),
                self.delay_ms == old(self).delay_ms,
                self.max_delay_ms == old(self).max_delay_ms,
                self.stream_config == old(self).stream_config,
                forall|i: int| 0 <= i < done ==> output@[i] == all[i],
            decreases n - done,
        {
            let left = n - done;
            let piece = if left < capacity {
                left
            } else {
                capacity
            };
            let ahead = if piece < held {
                piece
            } else {
                held
            };
            // what is due comes out first, which makes room for the piece
            let (first, _) = read_samples(&mut self.ring, ahead);
            let _ = write_samples(&mut self.ring, slice_subrange(input, done, done + piece));
            let (second, _) = read_samples(&mut self.ring, piece - ahead);
            let mut i: usize = 0;
            while i < piece
                invariant
                    i <= piece,
                    ahead <= piece,
                    done + piece <= n,
                    n == output@.len(),
                    first@.len() == ahead,
                    second@.len() == piece - ahead,
                    n <= all.len(),
                    first@ == all.subrange(done as int, done + ahead),
                    second@ == all.subrange(done + ahead, done + piece),
                    forall|j: int| 0 <= j < done + i ==> output@[j] == all[j],
                decreases piece - i,
            {
                if i < ahead {
                    output[done + i] = first[i];
                } else {
                    output[done + i] = second[i - ahead];
                }
                i += 1;
            }
            done = done + piece;
        }
        Ok(())
    }

    /// Applies the last command that has arrived, then passes one frame
    /// through the line.
    pub fn process(&mut self, input: &[Sample], output: &mut [Sample]) -> (report: Result<
        (),
        Error,
    >)
        requires
            old(self).wf(),
            input@.len() == old(output)@.len(),
        ensures
            final(self).wf(),
            exists|messages: Seq<Message>|
                old(self)@.accounts(
                    messages,
                    input@,
                    final(self)@,
                    report,
                    old(output)@,
                    final(output)@,
                ),
    {
        let commanded = self.process_messages();
        let ghost messages = choose|messages: Seq<Message>|
            (self@, commanded) == old(self)@.commanded(messages);
        let report = match commanded {
            Err(error) => Err(error),
            Ok(_) => self.process_samples(input, output),
        };
        assert(old(self)@.accounts(messages, input@, self@, report, old(output)@, output@));
        report
    }
}

} // verus!
