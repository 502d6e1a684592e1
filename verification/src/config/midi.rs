//! What the configuration says of MIDI: the port to listen on, and the
//! bindings of sliders and notes to what they control.

use vstd::prelude::*;

verus! {

/// The MIDI port to listen on, if any.
#[derive(Debug)]
pub struct Midi {
    pub port: Option<String>,
}

impl Default for Midi {
    fn default() -> (midi: Self)
        ensures
            midi.port is None,
    {
        Midi { port: None }
    }
}

/// A MIDI channel, by its index: 0 for the first, 15 for the last.
#[derive(Clone, Copy, Debug)]
pub struct Channel {
    index: u8,
}

impl View for Channel {
    type V = u8;

    closed spec fn view(&self) -> u8 {
        self.index
    }
}

impl Channel {
    #[verifier::type_invariant]
    spec fn in_range(self) -> bool {
        self.index < 16
    }

    /// The channel with this index, if there is one.
    pub fn new(index: u8) -> (channel: Option<Self>)
        ensures
            channel is Some <==> index < 16,
            channel matches Some(c) ==> c@ == index,
    {
        if index < 16 {
            Some(Channel { index })
        } else {
            None
        }
    }

    pub fn index(&self) -> (index: u8)
        ensures
            index == self@,
            index < 16,
    {
        proof {
            use_type_invariant(self);
        }
        self.index
    }
}

/// A controller, by its number: 0 to 127.
#[derive(Clone, Copy, Debug)]
pub struct ControlChange {
    number: u8,
}

impl View for ControlChange {
    type V = u8;

    closed spec fn view(&self) -> u8 {
        self.number
    }
}

impl ControlChange {
    #[verifier::type_invariant]
    spec fn in_range(self) -> bool {
        self.number <= 127
    }

    /// The controller with this number, if there is one.
    pub fn new(number: u8) -> (control: Option<Self>)
        ensures
            control is Some <==> number <= 127,
            control matches Some(c) ==> c@ == number,
    {
        if number <= 127 {
            Some(ControlChange { number })
        } else {
            None
        }
    }

    pub fn number(&self) -> (number: u8)
        ensures
            number == self@,
            number <= 127,
    {
        proof {
            use_type_invariant(self);
        }
        self.number
    }
}

/// A note, by its number: 0 to 127.
#[derive(Clone, Copy, Debug)]
pub struct Note {
    number: u8,
}

impl View for Note {
    type V = u8;

    closed spec fn view(&self) -> u8 {
        self.number
    }
}

impl Note {
    #[verifier::type_invariant]
    spec fn in_range(self) -> bool {
        self.number <= 127
    }

    /// The note with this number, if there is one.
    pub fn new(number: u8) -> (note: Option<Self>)
        ensures
            note is Some <==> number <= 127,
            note matches Some(n) ==> n@ == number,
    {
        if number <= 127 {
            Some(Note { number })
        } else {
            None
        }
    }

    pub fn number(&self) -> (number: u8)
        ensures
            number == self@,
            number <= 127,
    {
        proof {
            use_type_invariant(self);
        }
        self.number
    }
}

/// A slider: the controller of one channel.
#[derive(Clone, Copy, Debug)]
pub struct MidiSlider {
    pub channel: Channel,
    pub control_change: ControlChange,
}

/// A key: the note of one channel.
#[derive(Clone, Copy, Debug)]
pub struct NoteOn {
    pub channel: Channel,
    pub note: Note,
}

impl NoteOn {
    pub fn new(channel: Channel, note: Note) -> (key: Self)
        ensures
            key.channel == channel,
            key.note == note,
    {
        NoteOn { channel, note }
    }
}

} // verus!
