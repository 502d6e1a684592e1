use pedals::audio::StreamConfig;
use pedals::audio_unit::delay::Message as DelayMessage;
use pedals::audio_unit::looper::Message as LooperMessage;
use pedals::audio_unit::{Delay, Gain, Looper, Pipeline, Split, Transparent, Unit};
use pedals::error::{ConfigurationError, Error};
use pedals::sample::{raise, Arithmetic, FixedPoint, Sample};
use pedals::util::{checked_ms_in_samples, copy_frame, ms_in_samples, silent_frame, zero_slice};

struct Float;

fn word(x: f32) -> Sample {
    x.to_bits() as Sample
}

fn amplitude(w: Sample) -> f32 {
    f32::from_bits(w as u32)
}

impl Arithmetic for Float {
    fn mixed(a: Sample, b: Sample) -> Sample {
        Self::mix(a, b)
    }

    fn scaled(a: Sample, factor: Sample) -> Sample {
        Self::scale(a, factor)
    }

    fn mix(a: Sample, b: Sample) -> Sample {
        word(amplitude(a) + amplitude(b))
    }

    fn scale(a: Sample, factor: Sample) -> Sample {
        word(amplitude(a) * amplitude(factor))
    }
}

const ONE: Sample = 65536;

fn mono() -> StreamConfig {
    StreamConfig { channels: 1, sample_rate: 1000 }
}

fn run(unit: &mut Unit, input: &[Sample]) -> Vec<Sample> {
    let mut output = vec![-1; input.len()];
    unit.process::<FixedPoint>(input, &mut output).unwrap();
    output
}

#[test]
fn fixed_point_mix_saturates() {
    assert_eq!(FixedPoint::mix(1, 2), 3);
    assert_eq!(FixedPoint::mix(-7, 2), -5);
    assert_eq!(FixedPoint::mix(i32::MAX, 1), i32::MAX);
    assert_eq!(FixedPoint::mix(i32::MIN, -1), i32::MIN);
    assert_eq!(FixedPoint::mix(i32::MAX, i32::MIN), -1);
}

#[test]
fn fixed_point_scale_rounds_toward_zero() {
    assert_eq!(FixedPoint::scale(100, ONE), 100);
    assert_eq!(FixedPoint::scale(100, ONE / 2), 50);
    assert_eq!(FixedPoint::scale(101, ONE / 2), 50);
    assert_eq!(FixedPoint::scale(-101, ONE / 2), -50);
    assert_eq!(FixedPoint::scale(101, -ONE / 2), -50);
    assert_eq!(FixedPoint::scale(-101, -ONE / 2), 50);
    assert_eq!(FixedPoint::scale(1, 1), 0);
    assert_eq!(FixedPoint::scale(0, i32::MIN), 0);
    assert_eq!(FixedPoint::scale(i32::MAX, 2 * ONE), i32::MAX);
    assert_eq!(FixedPoint::scale(i32::MIN, 2 * ONE), i32::MIN);
    assert_eq!(FixedPoint::scale(i32::MIN, i32::MIN), i32::MAX);
}

#[test]
fn raise_multiplies_level_by_itself() {
    assert_eq!(raise::<FixedPoint>(ONE / 2, 0), ONE / 2);
    assert_eq!(raise::<FixedPoint>(ONE / 2, 1), ONE / 2);
    assert_eq!(raise::<FixedPoint>(ONE / 2, 2), ONE / 4);
    assert_eq!(raise::<FixedPoint>(ONE / 2, 3), ONE / 8);
    assert_eq!(amplitude(raise::<Float>(word(0.5), 3)), 0.125);
}

#[test]
fn durations_in_samples() {
    assert_eq!(ms_in_samples(&mono(), 250), 250);
    let stereo = StreamConfig { channels: 2, sample_rate: 44_100 };
    assert_eq!(ms_in_samples(&stereo, 50), 4410);
    assert_eq!(ms_in_samples(&stereo, 1), 88);
    assert_eq!(ms_in_samples(&stereo, 0), 0);
    // whole frames only: 11.025 frames are 11
    let slow = StreamConfig { channels: 3, sample_rate: 11_025 };
    assert_eq!(ms_in_samples(&slow, 1), 33);
    assert_eq!(checked_ms_in_samples(&slow, 1), Some(33));
    let huge = StreamConfig { channels: u16::MAX, sample_rate: u32::MAX };
    assert_eq!(checked_ms_in_samples(&huge, u32::MAX), None);
}

#[test]
fn zero_slice_silences() {
    let mut data = [1, -2, 3];
    zero_slice(&mut data);
    assert_eq!(data, [0, 0, 0]);
    let mut none: [Sample; 0] = [];
    zero_slice(&mut none);
}

#[test]
fn frames_are_copied_and_made_silent() {
    assert_eq!(silent_frame(3), vec![0, 0, 0]);
    assert_eq!(silent_frame(0), Vec::<Sample>::new());
    let mut to = [9, 9, 9];
    copy_frame(&[1, 2, 3], &mut to);
    assert_eq!(to, [1, 2, 3]);
}

#[test]
fn gain_scales_every_sample() {
    let mut gain = Gain::new(ONE / 4);
    let mut output = [0; 3];
    assert_eq!(gain.process::<FixedPoint>(&[4, -8, 100], &mut output), Ok(()));
    assert_eq!(output, [1, -2, 25]);
    let mut gain = Gain::new(word(0.5));
    let input = [word(1.0), word(-3.0)];
    let mut output = [0; 2];
    assert_eq!(gain.process::<Float>(&input, &mut output), Ok(()));
    assert_eq!(output.map(amplitude), [0.5, -1.5]);
}

#[test]
fn transparent_copies() {
    let mut transparent = Transparent::new();
    let mut output = [0; 3];
    assert_eq!(transparent.process(&[1, 2, 3], &mut output), Ok(()));
    assert_eq!(output, [1, 2, 3]);
    let mut unit = Unit::Transparent(Transparent::default());
    assert_eq!(run(&mut unit, &[4, 5]), vec![4, 5]);
}

#[test]
fn pipeline_and_split_need_a_unit() {
    assert!(matches!(
        Pipeline::new(vec![]),
        Err(Error::Configuration(ConfigurationError::NoUnits))
    ));
    assert!(matches!(Split::new(vec![]), Err(Error::Configuration(ConfigurationError::NoUnits))));
    assert!(Pipeline::new(vec![Unit::Transparent(Transparent::new())]).is_ok());
    assert!(Split::new(vec![Unit::Transparent(Transparent::new())]).is_ok());
}

#[test]
fn pipeline_feeds_each_unit_with_the_one_before() {
    let (delay, _sender) = Delay::new(&mono(), 1, 2).unwrap();
    let mut pipeline = Pipeline::new(vec![
        Unit::Gain(Gain::new(ONE / 2)),
        Unit::Delay(delay),
        Unit::Gain(Gain::new(3 * ONE)),
    ])
    .unwrap();
    let mut output = [0; 3];
    assert_eq!(pipeline.process::<FixedPoint>(&[10, 20, 30], &mut output), Ok(()));
    assert_eq!(output, [0, 15, 30]);
    assert_eq!(pipeline.process::<FixedPoint>(&[40, 50, 60], &mut output), Ok(()));
    assert_eq!(output, [45, 60, 75]);
}

#[test]
fn split_mixes_its_units() {
    let (delay, _sender) = Delay::new(&mono(), 2, 4).unwrap();
    let mut split = Split::new(vec![
        Unit::Transparent(Transparent::new()),
        Unit::Gain(Gain::new(2 * ONE)),
        Unit::Delay(delay),
    ])
    .unwrap();
    let mut output = [7; 4];
    assert_eq!(split.process::<FixedPoint>(&[1, 2, 3, 4], &mut output), Ok(()));
    assert_eq!(output, [3, 6, 10, 14]);
}

#[test]
fn units_nest() {
    // dry + (half of the signal, one sample late)
    let (delay, sender) = Delay::new(&mono(), 1, 4).unwrap();
    let tap =
        Pipeline::new(vec![Unit::Delay(delay), Unit::Gain(Gain::new(ONE / 2))]).unwrap();
    let split =
        Split::new(vec![Unit::Transparent(Transparent::new()), Unit::Pipeline(tap)]).unwrap();
    let mut unit = Unit::Pipeline(
        Pipeline::new(vec![Unit::Split(split), Unit::Gain(Gain::new(2 * ONE))]).unwrap(),
    );
    assert_eq!(run(&mut unit, &[10, 20, 30]), vec![20, 50, 80]);
    sender.send(DelayMessage::SetDelay(3)).unwrap();
    // the line held 30; two samples of silence follow it
    assert_eq!(run(&mut unit, &[40, 50, 60, 70]), vec![110, 100, 120, 180]);
}

#[test]
fn a_fault_ends_the_call_and_leaves_the_output() {
    let (delay, sender) = Delay::new(&mono(), 1, 1).unwrap();
    let mut pipeline =
        Pipeline::new(vec![Unit::Gain(Gain::new(2 * ONE)), Unit::Delay(delay)]).unwrap();
    let mut output = [-1; 2];
    assert_eq!(pipeline.process::<FixedPoint>(&[1, 2], &mut output), Ok(()));
    assert_eq!(output, [0, 2]);
    // a delay beyond the greatest is refused
    sender.send(DelayMessage::SetDelay(2)).unwrap();
    let mut output = [-1; 2];
    assert_eq!(
        pipeline.process::<FixedPoint>(&[3, 4], &mut output),
        Err(Error::Configuration(ConfigurationError::DelayBounds))
    );
    assert_eq!(output, [-1, -1]);
    // the line is as it was
    assert_eq!(pipeline.process::<FixedPoint>(&[5, 6], &mut output), Ok(()));
    assert_eq!(output, [4, 10]);
}

#[test]
fn a_fault_in_a_split_leaves_the_output() {
    let (delay, sender) = Delay::new(&mono(), 0, 1).unwrap();
    let mut split = Split::new(vec![
        Unit::Transparent(Transparent::new()),
        Unit::Delay(delay),
        Unit::Gain(Gain::new(ONE)),
    ])
    .unwrap();
    sender.send(DelayMessage::SetDelay(9)).unwrap();
    let mut output = [-1; 2];
    assert_eq!(
        split.process::<FixedPoint>(&[3, 4], &mut output),
        Err(Error::Configuration(ConfigurationError::DelayBounds))
    );
    assert_eq!(output, [-1, -1]);
    assert_eq!(split.process::<FixedPoint>(&[3, 4], &mut output), Ok(()));
    assert_eq!(output, [9, 12]);
}

#[test]
fn looper_unit_in_a_split_with_the_dry_signal() {
    let (looper, sender) = Looper::new(&mono(), 3);
    let mut unit = Unit::Split(
        Split::new(vec![Unit::Looper(looper), Unit::Transparent(Transparent::new())]).unwrap(),
    );
    sender.send(LooperMessage::Toggle).unwrap();
    sender.send(LooperMessage::TickMeasure).unwrap();
    assert_eq!(run(&mut unit, &[1, 2, 3]), vec![1, 2, 3]);
    assert_eq!(run(&mut unit, &[10, 10, 10, 10]), vec![11, 12, 13, 11]);
    sender.send(LooperMessage::Toggle).unwrap();
    assert_eq!(run(&mut unit, &[10, 10]), vec![10, 10]);
}

#[test]
fn floats_mix_in_order() {
    let mut split = Split::new(vec![
        Unit::Transparent(Transparent::new()),
        Unit::Gain(Gain::new(word(0.25))),
    ])
    .unwrap();
    let mut output = [0; 2];
    assert_eq!(split.process::<Float>(&[word(1.0), word(-2.0)], &mut output), Ok(()));
    assert_eq!(output.map(amplitude), [1.25, -2.5]);
}
