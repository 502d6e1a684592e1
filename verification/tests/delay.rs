use pedals::audio::StreamConfig;
use pedals::audio_unit::delay::{Delay, Message};
use pedals::error::{ConfigurationError, Error};

// one sample a millisecond
fn mono() -> StreamConfig {
    StreamConfig { channels: 1, sample_rate: 1000 }
}

fn pass(delay: &mut Delay, input: &[i32]) -> Vec<i32> {
    let mut output = vec![-1; input.len()];
    delay.process(input, &mut output).unwrap();
    output
}

#[test]
fn delay_shifts_the_stream_by_its_length() {
    let (mut delay, _sender) = Delay::new(&mono(), 3, 10).unwrap();
    assert_eq!(pass(&mut delay, &[1, 2]), vec![0, 0]);
    assert_eq!(pass(&mut delay, &[3, 4]), vec![0, 1]);
    assert_eq!(pass(&mut delay, &[5, 6, 7, 8]), vec![2, 3, 4, 5]);
    assert_eq!(pass(&mut delay, &[]), Vec::<i32>::new());
    assert_eq!(pass(&mut delay, &[9]), vec![6]);
}

#[test]
fn delay_of_no_length_is_transparent() {
    let (mut delay, _sender) = Delay::new(&mono(), 0, 4).unwrap();
    assert_eq!(pass(&mut delay, &[1, 2, 3]), vec![1, 2, 3]);
}

#[test]
fn delay_growing_keeps_what_it_holds_and_adds_silence_behind() {
    // growing from 100 ms to 150 ms while the line holds 1..=100
    let (mut delay, sender) = Delay::new(&mono(), 100, 200).unwrap();
    let first: Vec<i32> = (1..=100).collect();
    assert_eq!(pass(&mut delay, &first), vec![0; 100]);
    sender.send(Message::SetDelay(150)).unwrap();
    let second: Vec<i32> = (101..=200).collect();
    // what was held comes out first, in order
    assert_eq!(pass(&mut delay, &second), first);
    // then the 50 samples of added silence, then the input that followed
    let third: Vec<i32> = (201..=300).collect();
    let expected: Vec<i32> = vec![0; 50].into_iter().chain(101..=150).collect();
    assert_eq!(pass(&mut delay, &third), expected);
}

#[test]
fn delay_shrinking_discards_the_oldest() {
    let (mut delay, sender) = Delay::new(&mono(), 5, 10).unwrap();
    assert_eq!(pass(&mut delay, &[1, 2, 3, 4, 5]), vec![0; 5]);
    sender.send(Message::SetDelay(2)).unwrap();
    // 1, 2, 3 are discarded
    assert_eq!(pass(&mut delay, &[6, 7, 8]), vec![4, 5, 6]);
    assert_eq!(pass(&mut delay, &[9, 10]), vec![7, 8]);
}

#[test]
fn delay_applies_only_the_last_command() {
    let (mut delay, sender) = Delay::new(&mono(), 4, 10).unwrap();
    assert_eq!(pass(&mut delay, &[1, 2, 3, 4]), vec![0; 4]);
    // down to 1 and back to 4 in one batch: nothing is lost
    sender.send(Message::SetDelay(1)).unwrap();
    sender.send(Message::SetDelay(4)).unwrap();
    assert_eq!(pass(&mut delay, &[5, 6, 7, 8]), vec![1, 2, 3, 4]);
    // the last one may also be refused, whatever came before it
    sender.send(Message::SetDelay(2)).unwrap();
    sender.send(Message::SetDelay(11)).unwrap();
    let mut output = [-1; 2];
    assert_eq!(
        delay.process(&[9, 10], &mut output),
        Err(Error::Configuration(ConfigurationError::DelayBounds))
    );
    assert_eq!(output, [-1, -1]);
    assert_eq!(pass(&mut delay, &[9, 10]), vec![5, 6]);
}

#[test]
fn delay_set_delay_ms_directly() {
    let (mut delay, _sender) = Delay::new(&mono(), 2, 4).unwrap();
    assert_eq!(pass(&mut delay, &[1, 2]), vec![0, 0]);
    assert_eq!(delay.set_delay_ms(4), Ok(()));
    assert_eq!(delay.set_delay_ms(5), Err(Error::Configuration(ConfigurationError::DelayBounds)));
    assert_eq!(pass(&mut delay, &[3, 4, 5, 6]), vec![1, 2, 0, 0]);
    assert_eq!(delay.process_message(Message::SetDelay(0)), Ok(()));
    assert_eq!(pass(&mut delay, &[7]), vec![7]);
}

#[test]
fn delay_takes_frames_longer_than_itself() {
    // the ring holds 4 samples; the frames have 10 and 9
    let (mut delay, _sender) = Delay::new(&mono(), 4, 4).unwrap();
    assert_eq!(
        pass(&mut delay, &[1, 2, 3, 4, 5, 6, 7, 8, 9, 10]),
        vec![0, 0, 0, 0, 1, 2, 3, 4, 5, 6]
    );
    assert_eq!(
        pass(&mut delay, &[11, 12, 13, 14, 15, 16, 17, 18, 19]),
        vec![7, 8, 9, 10, 11, 12, 13, 14, 15]
    );
    // a line shorter than it may be, and a frame longer than the ring
    let (mut delay, _sender) = Delay::new(&mono(), 1, 3).unwrap();
    assert_eq!(pass(&mut delay, &[1, 2, 3, 4, 5, 6, 7]), vec![0, 1, 2, 3, 4, 5, 6]);
    assert_eq!(pass(&mut delay, &[8]), vec![7]);
}

#[test]
fn delay_process_samples_never_fails() {
    let (mut delay, _sender) = Delay::new(&mono(), 2, 5).unwrap();
    let mut output = [-1; 3];
    assert_eq!(delay.process_samples(&[1, 2, 3], &mut output), Ok(()));
    assert_eq!(output, [0, 0, 1]);
    assert_eq!(delay.apply_messages(&[Message::SetDelay(5), Message::SetDelay(3)]), Ok(()));
    assert_eq!(delay.process_samples(&[4, 5, 6], &mut output), Ok(()));
    assert_eq!(output, [2, 3, 0]);
    assert_eq!(delay.apply_messages(&[]), Ok(()));
    assert_eq!(
        delay.apply_messages(&[Message::SetDelay(1), Message::SetDelay(6)]),
        Err(Error::Configuration(ConfigurationError::DelayBounds))
    );
    assert_eq!(delay.process_samples(&[7, 8, 9], &mut output), Ok(()));
    assert_eq!(output, [4, 5, 6]);
}

#[test]
fn delay_bounds_are_checked_when_it_is_made() {
    assert!(matches!(
        Delay::new(&mono(), 11, 10),
        Err(Error::Configuration(ConfigurationError::DelayBounds))
    ));
    assert!(Delay::new(&mono(), 10, 10).is_ok());
    let huge = StreamConfig { channels: u16::MAX, sample_rate: u32::MAX };
    assert!(matches!(
        Delay::new(&huge, 0, u32::MAX),
        Err(Error::Configuration(ConfigurationError::BufferTooLarge))
    ));
}

#[test]
fn delay_counts_whole_frames_of_all_channels() {
    // 44.1 kHz stereo, 10 ms: 441 frames, 882 samples
    let stereo = StreamConfig { channels: 2, sample_rate: 44_100 };
    let (mut delay, _sender) = Delay::new(&stereo, 10, 10).unwrap();
    let input: Vec<i32> = (1..=882).collect();
    assert_eq!(pass(&mut delay, &input), vec![0; 882]);
    assert_eq!(pass(&mut delay, &[0; 882]), input);
}

#[test]
fn delay_goes_on_when_its_sender_is_gone() {
    let (mut delay, sender) = Delay::new(&mono(), 1, 2).unwrap();
    sender.send(Message::SetDelay(2)).unwrap();
    drop(sender);
    assert_eq!(pass(&mut delay, &[1, 2]), vec![0, 0]);
    assert_eq!(pass(&mut delay, &[3, 4]), vec![1, 2]);
}
