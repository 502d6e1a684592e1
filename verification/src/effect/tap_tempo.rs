//! Tap tempo: the time between two presses of a key, taken as a beat.

use crate::audio::midi::Message;
use crate::config::NoteOn;
use crate::effect::tempo::Tempo;
use vstd::prelude::*;

verus! {

/// The longest time between two taps that still makes a tempo, in
/// microseconds.
pub const MAX_DELAY_BETWEEN_TAPS: u64 = 2_000_000;

#[derive(Clone, Copy, Debug)]
enum State {
    Start,
    TappedOnce(u64),
}

/// A tap tempo as a value: the key that is tapped and the time of the last
/// tap, if there was one.
pub struct Taps {
    pub note_on: NoteOn,
    pub last: Option<u64>,
}

impl Taps {
    /// The tap tempo after a tap at `timestamp`, and the tempo that the tap
    /// gives: the time since the last tap, if there was one, it is not in the
    /// future and no more than the longest delay before this tap. Every tap
    /// becomes the last one.
    pub open spec fn tapped(self, timestamp: u64) -> (Taps, Option<Tempo>) {
        (
            Taps { note_on: self.note_on, last: Some(timestamp) },
            match self.last {
                Some(last) => if last <= timestamp && timestamp - last <= MAX_DELAY_BETWEEN_TAPS {
                    Some(
                        Tempo {
                            start_timestamp: timestamp,
                            beat_duration: (timestamp - last) as u64,
                        },
                    )
                } else {
                    None
                },
                None => None,
            },
        )
    }

    /// The tap tempo after `message`: a press of the key is a tap at the
    /// time of the message, anything else is nothing.
    pub open spec fn heard(self, message: Message) -> (Taps, Option<Tempo>) {
        if message.message.presses(self.note_on) {
            self.tapped(message.timestamp)
        } else {
            (self, None)
        }
    }

    /// The tap tempo after `messages`, in order, and the last tempo that one
    /// of them gave.
    pub open spec fn heard_all(self, messages: Seq<Message>) -> (Taps, Option<Tempo>)
        decreases messages.len(),
    {
        if messages.len() == 0 {
            (self, None)
        } else {
            let (before, earlier) = self.heard_all(messages.drop_last());
            let (after, tempo) = before.heard(messages.last());
            (
                after,
                if tempo is Some {
                    tempo
                } else {
                    earlier
                },
            )
        }
    }
}

/// A tap tempo: the key that is tapped, and whether and when it was last
/// tapped.
#[derive(Debug)]
pub struct TapTempo {
    note_on: NoteOn,
    state: State,
}

impl View for TapTempo {
    type V = Taps;

    closed spec fn view(&self) -> Taps {
        Taps {
            note_on: self.note_on,
            last: match self.state {
                State::Start => None,
                State::TappedOnce(last) => Some(last),
            },
        }
    }
}

impl TapTempo {
    /// A tap tempo on the key `note_on`, not tapped yet.
    pub fn new(note_on: NoteOn) -> (made: Self)
        ensures
            made@ == (Taps { note_on, last: None }),
    {
        TapTempo { note_on, state: State::Start }
    }

    /// Takes a batch of messages and gives the last tempo that was tapped in
    /// it, if any.
    pub fn handle_messages(&mut self, messages: &[Message]) -> (tempo: Option<Tempo>)
        ensures
            (final(self)@, tempo) == old(self)@.heard_all(messages@),
    {
        let mut latest: Option<Tempo> = None;
        let mut i: usize = 0;
        while i < messages.len()
            invariant
                i <= messages@.len(),
                (self@, latest) == old(self)@.heard_all(messages@.take(i as int)),
            decreases messages.len() - i,
        {
            assert(messages@.take(i + 1).drop_last() =~= messages@.take(i as int));
            match self.handle_message(&messages[i]) {
                Some(tempo) => {
                    latest = Some(tempo);
                },
                None => {},
            }
            i += 1;
        }
        assert(messages@.take(i as int) =~= messages@);
        latest
    }

    /// Takes one message.
    pub fn handle_message(&mut self, message: &Message) -> (tempo: Option<Tempo>)
        ensures
            (final(self)@, tempo) == old(self)@.heard(*message),
    {
        if message.message.is_press_of(self.note_on) {
            self.handle_tap(message.timestamp)
        } else {
            None
        }
    }

    /// Takes a tap at `timestamp`.
    pub fn handle_tap(&mut self, timestamp: u64) -> (tempo: Option<Tempo>)
        ensures
            (final(self)@, tempo) == old(self)@.tapped(timestamp),
    {
        match self.state {
            State::Start => {
                self.state = State::TappedOnce(timestamp);
                None
            },
            State::TappedOnce(last_tap) => {
                self.state = State::TappedOnce(timestamp);
                if last_tap <= timestamp && timestamp - last_tap <= MAX_DELAY_BETWEEN_TAPS {
                    Some(Tempo::new(timestamp, timestamp - last_tap))
                } else {
                    None
                }
            },
        }
    }
}

} // verus!
