use pedals::audio::midi::{Message, MidiMessage, U7};
use pedals::audio::StreamConfig;
use pedals::audio_unit::delay::Message as DelayCommand;
use pedals::audio_unit::looper::Message as LooperCommand;
use pedals::config::{
    Audio, Channel, Config, ControlChange, DelayConfig, Effect as EffectConfig, LooperConfig,
    Midi, MidiSlider, Note, NoteOn,
};
use pedals::effect::{from, Delay, Effect, Looper, Pipeline, Transparent};
use pedals::error::{ConfigurationError, Error};
use pedals::sample::{Arithmetic, FixedPoint, Sample};

struct Float;

fn word(x: f32) -> Sample {
    x.to_bits() as Sample
}

fn amplitude(w: Sample) -> f32 {
    f32::from_bits(w as u32)
}

impl Arithmetic for Float {
    fn mixed(a: Sample, b: Sample) -> Sample {
        Self::mix(a, b)
    }

    fn scaled(a: Sample, factor: Sample) -> Sample {
        Self::scale(a, factor)
    }

    fn mix(a: Sample, b: Sample) -> Sample {
        word(amplitude(a) + amplitude(b))
    }

    fn scale(a: Sample, factor: Sample) -> Sample {
        word(amplitude(a) * amplitude(factor))
    }
}

const ONE: Sample = 65536;

// one sample a millisecond
fn mono() -> StreamConfig {
    StreamConfig { channels: 1, sample_rate: 1000 }
}

fn key(channel: u8, note: u8) -> NoteOn {
    NoteOn::new(Channel::new(channel).unwrap(), Note::new(note).unwrap())
}

fn press(timestamp: u64, channel: u8, note: u8) -> Message {
    Message::new(
        timestamp,
        MidiMessage::NoteOn(
            Channel::new(channel).unwrap(),
            Note::new(note).unwrap(),
            U7::new(100).unwrap(),
        ),
    )
}

fn slide(timestamp: u64, value: u8) -> Message {
    Message::new(
        timestamp,
        MidiMessage::ControlChange(
            Channel::new(0).unwrap(),
            ControlChange::new(1).unwrap(),
            U7::new(value).unwrap(),
        ),
    )
}

fn clock(timestamp: u64) -> Message {
    Message::new(timestamp, MidiMessage::TimingClock)
}

fn delay_config(level: Sample, delay_ms: u32, num: u32, max_delay_ms: u32) -> DelayConfig {
    DelayConfig {
        level,
        delay_ms,
        min_delay_ms: 0,
        max_delay_ms,
        num,
        delay_ms_slider: Some(MidiSlider {
            channel: Channel::new(0).unwrap(),
            control_change: ControlChange::new(1).unwrap(),
        }),
        tap_tempo: Some(key(0, 60)),
    }
}

fn looper_config(max_ms: u32) -> LooperConfig {
    LooperConfig { max_ms, toggle: key(0, 36), overdub: key(0, 38) }
}

#[test]
fn delay_effect_mixes_dry_and_taps() {
    // three taps, 2 ms apart, each half as loud as the one before
    let mut delay = Delay::new::<FixedPoint>(delay_config(ONE / 2, 2, 3, 100), &mono()).unwrap();
    let mut output = [0; 6];
    assert_eq!(delay.process::<FixedPoint>(&[], &[800, 0, 0, 0, 0, 0], &mut output), Ok(()));
    // tap i is the input i * 2 ms late, scaled by 1/2 to the i
    assert_eq!(output, [800, 0, 400, 0, 200, 0]);
    assert_eq!(delay.process::<FixedPoint>(&[], &[0, 0, 0, 0, 0, 0], &mut output), Ok(()));
    assert_eq!(output, [100, 0, 0, 0, 0, 0]);
}

#[test]
fn delay_effect_sums_overlapping_taps() {
    let mut delay = Delay::new::<FixedPoint>(delay_config(ONE / 2, 1, 2, 100), &mono()).unwrap();
    let mut output = [0; 2];
    assert_eq!(delay.process::<FixedPoint>(&[], &[8, 16], &mut output), Ok(()));
    assert_eq!(output, [8, 16 + 4]);
    assert_eq!(delay.process::<FixedPoint>(&[], &[32, 64], &mut output), Ok(()));
    // dry + tap 1 (one late, halved) + tap 2 (two late, quartered)
    assert_eq!(output, [32 + 8 + 2, 64 + 16 + 4]);
}

#[test]
fn delay_effect_with_floats() {
    let mut delay = Delay::new::<Float>(delay_config(word(0.5), 1, 2, 100), &mono()).unwrap();
    let mut output = [0; 2];
    assert_eq!(delay.process::<Float>(&[], &[word(1.0), word(2.0)], &mut output), Ok(()));
    assert_eq!(output.map(amplitude), [1.0, 2.5]);
    assert_eq!(delay.process::<Float>(&[], &[word(4.0), word(0.0)], &mut output), Ok(()));
    assert_eq!(output.map(amplitude), [5.25, 2.5]);
    // a frame longer than the longest tap
    let mut long = [0; 5];
    let input = [word(8.0), word(0.0), word(0.0), word(0.0), word(0.0)];
    assert_eq!(delay.process::<Float>(&[], &input, &mut long), Ok(()));
    // 8 + 0 / 2 + 4 / 4, then 8 / 2, then 8 / 4
    assert_eq!(long.map(amplitude), [9.0, 4.0, 2.0, 0.0, 0.0]);
}

#[test]
fn delay_effect_without_taps_is_the_dry_signal() {
    let mut delay = Delay::new::<FixedPoint>(delay_config(ONE, 250, 0, 0), &mono()).unwrap();
    let mut output = [0; 3];
    assert_eq!(delay.process::<FixedPoint>(&[], &[1, 2, 3], &mut output), Ok(()));
    assert_eq!(output, [1, 2, 3]);
}

#[test]
fn delay_effect_validates_its_bounds() {
    assert_eq!(Delay::validate_config(&delay_config(ONE, 250, 6, 1500)), Ok(()));
    assert_eq!(
        Delay::validate_config(&delay_config(ONE, 250, 6, 1499)),
        Err(Error::Configuration(ConfigurationError::DelayBounds))
    );
    assert_eq!(
        Delay::validate_config(&delay_config(ONE, u32::MAX, u32::MAX, u32::MAX)),
        Err(Error::Configuration(ConfigurationError::DelayBounds))
    );
    assert!(matches!(
        Delay::new::<FixedPoint>(delay_config(ONE, 250, 6, 1000), &mono()),
        Err(Error::Configuration(ConfigurationError::DelayBounds))
    ));
    let huge = StreamConfig { channels: u16::MAX, sample_rate: u32::MAX };
    assert!(matches!(
        Delay::new::<FixedPoint>(delay_config(ONE, u32::MAX, 1, u32::MAX), &huge),
        Err(Error::Configuration(ConfigurationError::BufferTooLarge))
    ));
}

#[test]
fn delay_effect_tap_delays() {
    assert_eq!(Delay::delay_for_index(250, 1), 250);
    assert_eq!(Delay::delay_for_index(250, 6), 1500);
    assert_eq!(Delay::delay_for_index(0, 6), 0);
    assert_eq!(Delay::delay_for_index(u32::MAX, 2), u32::MAX);
}

#[test]
fn delay_effect_follows_the_slider() {
    // one tap of 4 ms in a line that may be 4 ms long; the slider spans 0 to 127 ms
    let mut config = delay_config(ONE, 4, 1, 127);
    config.tap_tempo = None;
    let mut delay = Delay::new::<FixedPoint>(config, &mono()).unwrap();
    let mut output = [0; 4];
    assert_eq!(delay.process::<FixedPoint>(&[], &[1, 2, 3, 4], &mut output), Ok(()));
    assert_eq!(output, [1, 2, 3, 4]);
    // the slider at 2 asks for 2 ms: the two oldest samples are dropped
    assert_eq!(
        delay.process::<FixedPoint>(&[slide(0, 9), slide(1, 2)], &[10, 20, 30, 40], &mut output),
        Ok(())
    );
    assert_eq!(output, [10 + 3, 20 + 4, 30 + 10, 40 + 20]);
    // 5 ms is more than the line may be: the tap refuses, and says so
    let mut untouched = [-1; 4];
    assert_eq!(
        delay.process::<FixedPoint>(&[slide(2, 5)], &[0, 0, 0, 0], &mut untouched),
        Err(Error::Configuration(ConfigurationError::DelayBounds))
    );
    assert_eq!(untouched, [-1; 4]);
    assert_eq!(delay.process::<FixedPoint>(&[], &[0, 0, 0, 0], &mut output), Ok(()));
    assert_eq!(output, [30, 40, 0, 0]);
}

#[test]
fn delay_effect_follows_the_tapped_tempo() {
    let mut config = delay_config(ONE, 4, 1, 4);
    config.delay_ms_slider = None;
    let mut delay = Delay::new::<FixedPoint>(config, &mono()).unwrap();
    assert_eq!(delay.delay_from_midi_messages(&[press(0, 0, 60)]), None);
    assert_eq!(delay.delay_from_midi_messages(&[press(1_000, 0, 61)]), None);
    // 3 ms after the first tap
    assert_eq!(delay.delay_from_midi_messages(&[press(3_000, 0, 60)]), Some(3));
    let mut output = [0; 4];
    assert_eq!(delay.process::<FixedPoint>(&[], &[1, 2, 3, 4], &mut output), Ok(()));
    assert_eq!(output, [1, 2, 3, 4]);
    assert_eq!(
        delay.process::<FixedPoint>(&[press(5_000, 0, 60)], &[10, 20, 30, 40], &mut output),
        Ok(())
    );
    // 2 ms since the last tap
    assert_eq!(output, [10 + 3, 20 + 4, 30 + 10, 40 + 20]);
}

#[test]
fn delay_effect_prefers_the_slider() {
    let mut delay = Delay::new::<FixedPoint>(delay_config(ONE, 1, 1, 127), &mono()).unwrap();
    let batch = [press(0, 0, 60), slide(500, 64), press(7_000, 0, 60)];
    assert_eq!(delay.delay_from_midi_messages_slider(&batch), Some(64));
    assert_eq!(delay.delay_from_midi_messages(&batch), Some(64));
    // the taps were heard all the same
    assert_eq!(delay.delay_from_midi_messages(&[press(10_000, 0, 60)]), Some(3));
}

#[test]
fn looper_effect_is_steered_by_keys_and_clock() {
    let mut looper = Looper::new(looper_config(4), &mono()).unwrap();
    let mut output = [0; 2];
    // the looper is mixed with the dry signal
    assert_eq!(looper.process::<FixedPoint>(&[], &[1, 2], &mut output), Ok(()));
    assert_eq!(output, [1, 2]);
    // toggle, then the 96th pulse of the clock begins the measure
    let mut batch = vec![press(0, 0, 36)];
    batch.extend((0..95).map(|i| clock(i)));
    assert_eq!(looper.process::<FixedPoint>(&batch, &[1, 2], &mut output), Ok(()));
    assert_eq!(output, [1, 2]);
    assert_eq!(looper.process::<FixedPoint>(&[clock(95)], &[10, 20], &mut output), Ok(()));
    assert_eq!(output, [10, 20]);
    assert_eq!(looper.process::<FixedPoint>(&[], &[30, 40], &mut output), Ok(()));
    assert_eq!(output, [30, 40]);
    // the buffer is full: the loop plays under the dry signal
    assert_eq!(looper.process::<FixedPoint>(&[], &[1, 1], &mut output), Ok(()));
    assert_eq!(output, [11, 21]);
    // the overdub key arms; at the wrap the input is layered
    assert_eq!(looper.process::<FixedPoint>(&[press(1, 0, 38)], &[1, 1], &mut output), Ok(()));
    assert_eq!(output, [31, 41]);
    assert_eq!(looper.process::<FixedPoint>(&[], &[5, 6], &mut output), Ok(()));
    assert_eq!(output, [15, 26]);
    assert_eq!(looper.process::<FixedPoint>(&[], &[0, 0], &mut output), Ok(()));
    assert_eq!(output, [30, 40]);
    assert_eq!(looper.process::<FixedPoint>(&[], &[0, 0], &mut output), Ok(()));
    assert_eq!(output, [15, 26]);
    // toggle stops it
    assert_eq!(looper.process::<FixedPoint>(&[press(2, 0, 36)], &[7, 8], &mut output), Ok(()));
    assert_eq!(output, [7, 8]);
}

#[test]
fn looper_effect_counts_measures_across_batches() {
    let mut looper = Looper::new(looper_config(2), &mono()).unwrap();
    let mut output = [0; 1];
    let pulses: Vec<Message> = (0..100).map(|i| clock(i)).collect();
    // the measure begins at the 96th pulse, before the toggle: nothing is armed yet
    let mut batch = pulses.clone();
    batch.push(press(100, 0, 36));
    assert_eq!(looper.process::<FixedPoint>(&batch, &[5], &mut output), Ok(()));
    assert_eq!(output, [5]);
    // 4 + 91 pulses: not yet
    assert_eq!(looper.process::<FixedPoint>(&pulses[..91], &[5], &mut output), Ok(()));
    assert_eq!(looper.process::<FixedPoint>(&[], &[6], &mut output), Ok(()));
    // the 192nd pulse starts the recording
    assert_eq!(looper.process::<FixedPoint>(&pulses[..1], &[7], &mut output), Ok(()));
    assert_eq!(looper.process::<FixedPoint>(&[], &[8], &mut output), Ok(()));
    assert_eq!(looper.process::<FixedPoint>(&[], &[0], &mut output), Ok(()));
    assert_eq!(output, [7]);
    assert_eq!(looper.process::<FixedPoint>(&[], &[0], &mut output), Ok(()));
    assert_eq!(output, [8]);
}

#[test]
fn looper_effect_other_keys_do_nothing() {
    let mut looper = Looper::new(looper_config(2), &mono()).unwrap();
    let mut output = [0; 2];
    let mut batch = vec![press(0, 1, 36), press(0, 0, 37)];
    batch.extend((0..96).map(|i| clock(i)));
    assert_eq!(looper.process::<FixedPoint>(&batch, &[1, 2], &mut output), Ok(()));
    assert_eq!(looper.process::<FixedPoint>(&[], &[3, 4], &mut output), Ok(()));
    assert_eq!(output, [3, 4]);
}

#[test]
fn looper_effect_too_long_is_refused() {
    let huge = StreamConfig { channels: u16::MAX, sample_rate: u32::MAX };
    assert!(matches!(
        Looper::new(looper_config(u32::MAX), &huge),
        Err(Error::Configuration(ConfigurationError::BufferTooLarge))
    ));
}

#[test]
fn effect_pipeline_runs_effects_in_order() {
    let delay = Delay::new::<FixedPoint>(delay_config(ONE / 2, 1, 1, 100), &mono()).unwrap();
    let other = Delay::new::<FixedPoint>(delay_config(ONE, 2, 1, 100), &mono()).unwrap();
    let mut pipeline = Pipeline::new(vec![
        Effect::Transparent(Transparent::new()),
        Effect::Delay(delay),
        Effect::Delay(other),
    ])
    .unwrap();
    // first effect: 8 4 0 0; second adds itself two late
    let mut heard = Vec::new();
    for sample in [8, 0, 0, 0] {
        let mut output = [0; 1];
        assert_eq!(pipeline.process::<FixedPoint>(&[], &[sample], &mut output), Ok(()));
        heard.push(output[0]);
    }
    assert_eq!(heard, vec![8, 4, 8, 4]);
}

#[test]
fn effect_pipeline_needs_an_effect() {
    assert!(matches!(
        Pipeline::new(vec![]),
        Err(Error::Configuration(ConfigurationError::NoUnits))
    ));
    let mut config = Config::default();
    config.effects.clear();
    assert!(matches!(
        Pipeline::from::<FixedPoint>(&config, &mono()),
        Err(Error::Configuration(ConfigurationError::NoUnits))
    ));
}

#[test]
fn effect_pipeline_from_config() {
    let mut config = Config::default();
    let mut pipeline = Pipeline::from::<FixedPoint>(&config, &mono()).unwrap();
    let mut output = [0; 2];
    assert_eq!(pipeline.process::<FixedPoint>(&[], &[4, 5], &mut output), Ok(()));
    assert_eq!(output, [4, 5]);
    config.effects = vec![
        EffectConfig::Delay(delay_config(ONE / 2, 2, 1, 100)),
        EffectConfig::Looper(looper_config(10)),
        EffectConfig::Transparent,
    ];
    let mut pipeline = Pipeline::from::<FixedPoint>(&config, &mono()).unwrap();
    assert_eq!(pipeline.process::<FixedPoint>(&[], &[4, 6], &mut output), Ok(()));
    assert_eq!(output, [4, 6]);
    assert_eq!(pipeline.process::<FixedPoint>(&[], &[0, 0], &mut output), Ok(()));
    assert_eq!(output, [2, 3]);
    // the first effect that cannot be made is the error
    config.effects = vec![
        EffectConfig::Transparent,
        EffectConfig::Delay(delay_config(ONE, 3, 2, 5)),
        EffectConfig::Looper(looper_config(10)),
    ];
    assert!(matches!(
        Pipeline::from::<FixedPoint>(&config, &mono()),
        Err(Error::Configuration(ConfigurationError::DelayBounds))
    ));
}

#[test]
fn effect_from_config() {
    let mut output = [0; 2];
    let mut effect = from::<FixedPoint>(EffectConfig::Transparent, &mono()).unwrap();
    assert_eq!(effect.process::<FixedPoint>(&[], &[1, 2], &mut output), Ok(()));
    assert_eq!(output, [1, 2]);
    let mut effect =
        from::<FixedPoint>(EffectConfig::Looper(looper_config(1)), &mono()).unwrap();
    assert_eq!(effect.process::<FixedPoint>(&[press(0, 0, 36)], &[1, 2], &mut output), Ok(()));
    assert_eq!(output, [1, 2]);
    assert!(from::<FixedPoint>(EffectConfig::Delay(delay_config(ONE, 2, 2, 3)), &mono()).is_err());
}

#[test]
fn transparent_effect_ignores_messages() {
    let mut effect = Transparent::default();
    let mut output = [0; 2];
    assert_eq!(effect.process(&[clock(0), press(1, 0, 36)], &[3, 4], &mut output), Ok(()));
    assert_eq!(output, [3, 4]);
}

#[test]
fn config_defaults() {
    let config = Config::default();
    assert_eq!(config.audio.latency_ms, 50);
    assert_eq!(Audio::default_latency_ms(), 50);
    assert!(config.audio.input.is_none() && config.audio.output.is_none());
    assert!(config.midi.port.is_none());
    assert!(Midi::default().port.is_none());
    assert!(Audio::default().input.is_none());
    assert!(matches!(config.effects[..], [EffectConfig::Transparent]));
    assert_eq!(DelayConfig::default_delay(), 250);
    assert_eq!(DelayConfig::default_delay_min(), 0);
    assert_eq!(DelayConfig::default_delay_max(), 2000);
    assert_eq!(DelayConfig::default_num(), 6);
    assert_eq!(LooperConfig::default_loop_max(), 60_000);
}

#[test]
fn delay_effect_commands_for_each_tap() {
    let delay = Delay::new::<FixedPoint>(delay_config(ONE, 10, 3, 100), &mono()).unwrap();
    assert_eq!(
        delay.commands_for_delay(20),
        vec![
            DelayCommand::SetDelay(20),
            DelayCommand::SetDelay(40),
            DelayCommand::SetDelay(60)
        ]
    );
    assert_eq!(
        delay.commands_for_delay(u32::MAX),
        vec![DelayCommand::SetDelay(u32::MAX); 3]
    );
    assert_eq!(delay.set_delay(20), Ok(()));
    let none = Delay::new::<FixedPoint>(delay_config(ONE, 10, 0, 100), &mono()).unwrap();
    assert_eq!(none.commands_for_delay(20), vec![]);
    // with no tap there is nothing to send, and nothing that can fail
    assert_eq!(none.set_delay(20), Ok(()));
}

#[test]
fn looper_effect_commands_from_messages() {
    let mut looper = Looper::new(looper_config(4), &mono()).unwrap();
    assert_eq!(looper.command_for(&press(0, 0, 36)), Some(LooperCommand::Toggle));
    assert_eq!(looper.command_for(&press(0, 0, 38)), Some(LooperCommand::QueueOverdub));
    assert_eq!(looper.command_for(&press(0, 0, 40)), None);
    assert_eq!(looper.command_for(&clock(0)), None);
    let mut batch: Vec<Message> = (0..200).map(|i| clock(i)).collect();
    batch.insert(150, press(150, 0, 38));
    batch.insert(10, press(10, 0, 36));
    assert_eq!(
        looper.commands_from_midi_messages(&batch),
        vec![
            LooperCommand::Toggle,
            LooperCommand::TickMeasure,
            LooperCommand::QueueOverdub,
            LooperCommand::TickMeasure
        ]
    );
    // 200 pulses are two measures and 8
    let rest: Vec<Message> = (0..87).map(|i| clock(i)).collect();
    assert_eq!(looper.commands_from_midi_messages(&rest), vec![]);
    assert_eq!(looper.command_for(&clock(0)), Some(LooperCommand::TickMeasure));
    assert_eq!(looper.toggle(), Ok(()));
    assert_eq!(looper.tick_measure(), Ok(()));
    assert_eq!(looper.enable_overdub_mode(), Ok(()));
}

#[test]
fn looper_effect_with_one_key_for_both() {
    // the toggle key wins
    let config = LooperConfig { max_ms: 2, toggle: key(0, 36), overdub: key(0, 36) };
    let looper = Looper::new(config, &mono()).unwrap();
    assert_eq!(looper.command_for(&press(0, 0, 36)), Some(LooperCommand::Toggle));
}
