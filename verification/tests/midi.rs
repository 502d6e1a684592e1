use pedals::audio::midi::{
    from_control_value, interpolate_control_value, latest_control_value, Message, MidiMessage,
    OutOfRange, U7,
};
use pedals::config::{Channel, ControlChange, MidiSlider, Note};
use std::convert::{TryFrom, TryInto};

#[test]
fn midi_test_from_control_value() {
    assert_eq!(from_control_value::<u32>(0_u8.try_into().unwrap()), 0);
    assert_eq!(from_control_value::<u32>(1_u8.try_into().unwrap()), 1);
    assert_eq!(from_control_value::<u32>(127_u8.try_into().unwrap()), 127);
}

#[test]
fn mod_test_from_control_value() {
    assert_eq!(from_control_value::<u32>(0_u8.try_into().unwrap()), 0);
    assert_eq!(from_control_value::<u32>(1_u8.try_into().unwrap()), 1);
    assert_eq!(from_control_value::<u32>(127_u8.try_into().unwrap()), 127);
}

#[test]
fn midi_test_interpolate_control_value() {
    assert_eq!(
        interpolate_control_value(0_u32, 100_u32, 0_u8.try_into().unwrap()),
        0
    );
    assert_eq!(
        interpolate_control_value(0_u32, 100_u32, 127_u8.try_into().unwrap()),
        100
    );
    assert_eq!(
        interpolate_control_value(0_u32, 100_u32, 64_u8.try_into().unwrap()),
        50
    );

    assert_eq!(
        interpolate_control_value(50_u32, 100_u32, 0_u8.try_into().unwrap()),
        50
    );
    assert_eq!(
        interpolate_control_value(50_u32, 100_u32, 127_u8.try_into().unwrap()),
        100
    );
    assert_eq!(
        interpolate_control_value(50_u32, 100_u32, 64_u8.try_into().unwrap()),
        75
    );
}

#[test]
fn mod_test_interpolate_control_value() {
    assert_eq!(
        interpolate_control_value(0_u32, 100_u32, 0_u8.try_into().unwrap()),
        0
    );
    assert_eq!(
        interpolate_control_value(0_u32, 100_u32, 127_u8.try_into().unwrap()),
        100
    );
    assert_eq!(
        interpolate_control_value(0_u32, 100_u32, 64_u8.try_into().unwrap()),
        50
    );

    assert_eq!(
        interpolate_control_value(50_u32, 100_u32, 0_u8.try_into().unwrap()),
        50
    );
    assert_eq!(
        interpolate_control_value(50_u32, 100_u32, 127_u8.try_into().unwrap()),
        100
    );
    assert_eq!(
        interpolate_control_value(50_u32, 100_u32, 64_u8.try_into().unwrap()),
        75
    );
}

#[test]
fn interpolate_truncates_and_handles_a_falling_range() {
    // 64 * 100 / 127 = 50.39...
    assert_eq!(interpolate_control_value(0, 100, U7::new(64).unwrap()), 50);
    assert_eq!(interpolate_control_value(0, 100, U7::new(1).unwrap()), 0);
    assert_eq!(interpolate_control_value(0, 100, U7::new(126).unwrap()), 99);
    // no overflow at the widest range
    assert_eq!(interpolate_control_value(0, u32::MAX, U7::new(127).unwrap()), u32::MAX);
    assert_eq!(
        interpolate_control_value(0, u32::MAX, U7::new(1).unwrap()),
        u32::MAX / 127
    );
    // a range that falls: from 100 at 0 down to 0 at 127
    assert_eq!(interpolate_control_value(100, 0, U7::new(0).unwrap()), 100);
    assert_eq!(interpolate_control_value(100, 0, U7::new(127).unwrap()), 0);
    assert_eq!(interpolate_control_value(100, 0, U7::new(64).unwrap()), 50);
}

#[test]
fn seven_bit_values_end_at_127() {
    assert_eq!(U7::new(127).unwrap().value(), 127);
    assert!(U7::new(128).is_none());
    assert_eq!(U7::try_from(128u8).unwrap_err(), OutOfRange {});
    assert_eq!(from_control_value::<u64>(U7::new(77).unwrap()), 77);
}

#[test]
fn latest_control_value_is_the_last_match() {
    let channel = Channel::new(2).unwrap();
    let control = ControlChange::new(7).unwrap();
    let slider = MidiSlider { channel, control_change: control };
    let change = |timestamp: u64, ch: u8, cc: u8, value: u8| {
        Message::new(
            timestamp,
            MidiMessage::ControlChange(
                Channel::new(ch).unwrap(),
                ControlChange::new(cc).unwrap(),
                U7::new(value).unwrap(),
            ),
        )
    };
    assert!(latest_control_value(slider, &[]).is_none());
    let batch = [
        change(1, 2, 7, 10),
        change(2, 2, 7, 20),
        change(3, 3, 7, 30),
        change(4, 2, 8, 40),
        Message::new(5, MidiMessage::NoteOn(channel, Note::new(7).unwrap(), U7::new(50).unwrap())),
        Message::new(6, MidiMessage::TimingClock),
    ];
    assert_eq!(latest_control_value(slider, &batch).unwrap().value(), 20);
    assert_eq!(latest_control_value(slider, &batch[..1]).unwrap().value(), 10);
    assert!(latest_control_value(slider, &batch[2..]).is_none());
}

#[test]
fn channels_notes_and_controllers_have_ranges() {
    assert_eq!(Channel::new(15).unwrap().index(), 15);
    assert!(Channel::new(16).is_none());
    assert_eq!(Note::new(127).unwrap().number(), 127);
    assert!(Note::new(128).is_none());
    assert_eq!(ControlChange::new(0).unwrap().number(), 0);
    assert!(ControlChange::new(200).is_none());
}
