//! MIDI events as the core sees them, and the values read from them.

use crate::config::{Channel, ControlChange, MidiSlider, Note, NoteOn};
use vstd::prelude::*;
use vstd::std_specs::convert::FromSpec;

verus! {

/// A 7-bit value: 0 to 127.
#[derive(Clone, Copy, Debug)]
pub struct U7 {
    value: u8,
}

/// The value of a controller.
pub type ControlValue = U7;

/// How hard a key was pressed or released.
pub type Velocity = U7;

impl View for U7 {
    type V = u8;

    closed spec fn view(&self) -> u8 {
        self.value
    }
}

/// The byte was above 127.
#[derive(Clone, Copy, Debug, PartialEq, Eq, Structural)]
pub struct OutOfRange {}

impl U7 {
    #[verifier::type_invariant]
    spec fn in_range(self) -> bool {
        self.value <= 127
    }

    /// The 7-bit value of this byte, if it has one.
    pub fn new(value: u8) -> (made: Option<Self>)
        ensures
            made is Some <==> value <= 127,
            made matches Some(v) ==> v@ == value,
    {
        if value <= 127 {
            Some(U7 { value })
        } else {
            None
        }
    }

    pub fn value(&self) -> (value: u8)
        ensures
            value == self@,
            value <= 127,
    {
        proof {
            use_type_invariant(self);
        }
        self.value
    }
}

impl vstd::std_specs::convert::TryFromSpecImpl<u8> for U7 {
    open spec fn obeys_try_from_spec() -> bool {
        true
    }

    closed spec fn try_from_spec(value: u8) -> Result<Self, OutOfRange> {
        if value <= 127 {
            Ok(U7 { value })
        } else {
            Err(OutOfRange {  })
        }
    }
}

impl TryFrom<u8> for U7 {
    type Error = OutOfRange;

    fn try_from(value: u8) -> (made: Result<Self, OutOfRange>)
        ensures
            made is Ok <==> value <= 127,
            made matches Ok(v) ==> v@ == value,
    {
        match U7::new(value) {
            Some(v) => Ok(v),
            None => Err(OutOfRange {  }),
        }
    }
}

/// A MIDI message, as far as the core reads it.
#[derive(Clone, Copy, Debug)]
pub enum MidiMessage {
    NoteOff(Channel, Note, Velocity),
    NoteOn(Channel, Note, Velocity),
    ControlChange(Channel, ControlChange, ControlValue),
    /// One pulse of the MIDI clock: 24 to a quarter note.
    TimingClock,
    /// Any other message.
    Other,
}

/// A MIDI message and the time at which it arrived, in microseconds since
/// an arbitrary start.
#[derive(Clone, Copy, Debug)]
pub struct Message {
    pub timestamp: u64,
    pub message: MidiMessage,
}

impl Message {
    pub fn new(timestamp: u64, message: MidiMessage) -> (made: Self)
        ensures
            made.timestamp == timestamp,
            made.message == message,
    {
        Message { timestamp, message }
    }
}

impl MidiMessage {
    /// The value that the message gives to `slider`, if it is a change of
    /// that controller on that channel.
    pub open spec fn control_of(self, slider: MidiSlider) -> Option<ControlValue> {
        match self {
            MidiMessage::ControlChange(channel, control, value) => if channel@ == slider.channel@
                && control@ == slider.control_change@ {
                Some(value)
            } else {
                None
            },
            _ => None,
        }
    }

    /// Whether the message is the pressing of `key`.
    pub open spec fn presses(self, key: NoteOn) -> bool {
        match self {
            MidiMessage::NoteOn(channel, note, _) => channel@ == key.channel@ && note@
                == key.note@,
            _ => false,
        }
    }

    /// `control_of`, computed.
    pub fn control_value(&self, slider: MidiSlider) -> (value: Option<ControlValue>)
        ensures
            value == self.control_of(slider),
    {
        match self {
            MidiMessage::ControlChange(channel, control, value) => {
                if channel.index() == slider.channel.index() && control.number()
                    == slider.control_change.number() {
                    Some(*value)
                } else {
                    None
                }
            },
            _ => None,
        }
    }

    /// `presses`, computed.
    pub fn is_press_of(&self, key: NoteOn) -> (pressed: bool)
        ensures
            pressed == self.presses(key),
    {
        match self {
            MidiMessage::NoteOn(channel, note, _) => channel.index() == key.channel.index()
                && note.number() == key.note.number(),
            _ => false,
        }
    }
}

/// The value that the latest of `messages` which moves `slider` gives it.
pub open spec fn latest_control(slider: MidiSlider, messages: Seq<Message>) -> Option<ControlValue>
    decreases messages.len(),
{
    if messages.len() == 0 {
        None
    } else if messages.last().message.control_of(slider) is Some {
        messages.last().message.control_of(slider)
    } else {
        latest_control(slider, messages.drop_last())
    }
}

/// The value that the latest of `messages` which moves `slider` gives it;
/// `None` if none of them moves it.
pub fn latest_control_value(slider: MidiSlider, messages: &[Message]) -> (value: Option<
    ControlValue,
>)
    ensures
        value == latest_control(slider, messages@),
{
    let mut left: usize = messages.len();
    assert(messages@.take(left as int) =~= messages@);
    while left > 0
        invariant
            left <= messages@.len(),
            latest_control(slider, messages@) == latest_control(
                slider,
                messages@.take(left as int),
            ),
        decreases left,
    {
        let ghost seen = messages@.take(left as int);
        assert(seen.drop_last() =~= messages@.take(left - 1));
        match messages[left - 1].message.control_value(slider) {
            Some(value) => {
                return Some(value);
            },
            None => {},
        }
        left -= 1;
    }
    None
}

/// The place of a control value in the range from `min` to `max`: `min` for
/// 0, `max` for 127, and in between in proportion, rounded toward `min`.
pub open spec fn interpolated(min: u32, max: u32, value: u8) -> int {
    if min <= max {
        min + (value * (max - min)) / 127
    } else {
        min - (value * (min - max)) / 127
    }
}

/// An interpolated value lies between the two ends of its range, and the
/// ends of the control range give the ends of the range.
pub proof fn interpolated_stays_in_range(min: u32, max: u32, value: u8)
    requires
        value <= 127,
    ensures
        min <= max ==> min <= interpolated(min, max, value) <= max,
        min > max ==> max <= interpolated(min, max, value) <= min,
        interpolated(min, max, 0) == min,
        interpolated(min, max, 127) == max,
{
    let span: int = if min <= max {
        max - min
    } else {
        min - max
    };
    assert(0 <= (value * span) / 127 <= span) by (nonlinear_arith)
        requires
            0 <= value <= 127,
            0 <= span,
    ;
}

/// Maps a control value (0 to 127) into the range from `min` to `max`.
pub fn interpolate_control_value(min: u32, max: u32, value: ControlValue) -> (mapped: u32)
    ensures
        mapped == interpolated(min, max, value@),
{
    let raw: u64 = value.value() as u64;
    proof {
        interpolated_stays_in_range(min, max, value@);
    }
    if min <= max {
        let span: u64 = (max - min) as u64;
        assert(raw * span <= 127 * 0xffff_ffff) by (nonlinear_arith)
            requires
                raw <= 127,
                span <= 0xffff_ffff,
        ;
        let step: u64 = (raw * span) / 127;
        (min as u64 + step) as u32
    } else {
        let span: u64 = (min - max) as u64;
        assert(raw * span <= 127 * 0xffff_ffff) by (nonlinear_arith)
            requires
                raw <= 127,
                span <= 0xffff_ffff,
        ;
        let step: u64 = (raw * span) / 127;
        (min as u64 - step) as u32
    }
}

/// The control value as a number of another type.
pub fn from_control_value<T: From<u8>>(value: ControlValue) -> (number: T)
    ensures
        T::obeys_from_spec() ==> number == T::from_spec(value@),
{
    let byte: u8 = value.value();
    T::from(byte)
}

} // verus!
