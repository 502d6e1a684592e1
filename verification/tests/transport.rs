use pedals::error::{overrun, underrun, ConfigurationError, Error, TransportFault};
use pedals::audio::StreamConfig;
use pedals::ring_buffer::{
    read_into, read_samples, write_empty_samples, write_samples, Transport,
};

#[test]
fn transport_gives_back_in_order() {
    let mut ring = Transport::new(8).unwrap();
    assert_eq!(write_samples(&mut ring, &[1, 2, 3]), Ok(()));
    assert_eq!(write_samples(&mut ring, &[4, 5]), Ok(()));
    let (samples, report) = read_samples(&mut ring, 4);
    assert_eq!(samples, vec![1, 2, 3, 4]);
    assert_eq!(report, Ok(()));
    let (samples, report) = read_samples(&mut ring, 1);
    assert_eq!(samples, vec![5]);
    assert_eq!(report, Ok(()));
}

#[test]
fn transport_burst_drops_exactly_the_excess() {
    let mut ring = Transport::new(4).unwrap();
    assert_eq!(write_samples(&mut ring, &[1, 2, 3]), Ok(()));
    assert_eq!(
        write_samples(&mut ring, &[4, 5, 6, 7, 8]),
        Err(TransportFault::Overrun { skipped: 4 })
    );
    // the samples that fitted are there, in order
    let (samples, report) = read_samples(&mut ring, 4);
    assert_eq!(samples, vec![1, 2, 3, 4]);
    assert_eq!(report, Ok(()));
    // and the ring is usable again
    assert_eq!(write_samples(&mut ring, &[9, 10, 11, 12]), Ok(()));
    assert_eq!(write_samples(&mut ring, &[13]), Err(TransportFault::Overrun { skipped: 1 }));
}

#[test]
fn transport_underrun_pads_with_silence() {
    let mut ring = Transport::new(4).unwrap();
    assert_eq!(write_samples(&mut ring, &[7, 8]), Ok(()));
    let (samples, report) = read_samples(&mut ring, 5);
    assert_eq!(samples, vec![7, 8, 0, 0, 0]);
    assert_eq!(report, Err(TransportFault::Underrun { missed: 3 }));
    let (samples, report) = read_samples(&mut ring, 2);
    assert_eq!(samples, vec![0, 0]);
    assert_eq!(report, Err(TransportFault::Underrun { missed: 2 }));
    let (samples, report) = read_samples(&mut ring, 0);
    assert_eq!(samples, Vec::<i32>::new());
    assert_eq!(report, Ok(()));
}

#[test]
fn transport_with_latency_starts_half_full_of_silence() {
    let mut ring = Transport::with_latency(3).unwrap();
    // a read before any write finds the budget
    let (samples, report) = read_samples(&mut ring, 3);
    assert_eq!(samples, vec![0, 0, 0]);
    assert_eq!(report, Ok(()));
    // capacity is twice the budget
    assert_eq!(write_samples(&mut ring, &[1, 2, 3, 4, 5, 6]), Ok(()));
    assert_eq!(write_samples(&mut ring, &[7]), Err(TransportFault::Overrun { skipped: 1 }));
}

#[test]
fn transport_matched_rates_never_fault() {
    let mut ring = Transport::with_latency(4).unwrap();
    let mut next = 1;
    let mut heard = Vec::new();
    for round in 0..50 {
        let frame: Vec<i32> = (0..4).map(|i| next + i).collect();
        next += 4;
        // the two ends take turns in either order
        if round % 2 == 0 {
            assert_eq!(write_samples(&mut ring, &frame), Ok(()));
            let (samples, report) = read_samples(&mut ring, 4);
            assert_eq!(report, Ok(()));
            heard.extend(samples);
        } else {
            let (samples, report) = read_samples(&mut ring, 4);
            assert_eq!(report, Ok(()));
            heard.extend(samples);
            assert_eq!(write_samples(&mut ring, &frame), Ok(()));
        }
    }
    // what comes out is the budget of silence, then the input in order
    let expected: Vec<i32> = vec![0; 4].into_iter().chain(1..=196).collect();
    assert_eq!(heard, expected);
}

#[test]
fn transport_write_empty_samples_counts_like_a_write() {
    let mut ring = Transport::new(3).unwrap();
    assert_eq!(write_empty_samples(&mut ring, 2), Ok(()));
    assert_eq!(write_empty_samples(&mut ring, 2), Err(TransportFault::Overrun { skipped: 1 }));
    let (samples, report) = read_samples(&mut ring, 3);
    assert_eq!(samples, vec![0, 0, 0]);
    assert_eq!(report, Ok(()));
}

#[test]
fn transport_of_no_capacity_takes_nothing() {
    let mut ring = Transport::new(0).unwrap();
    assert_eq!(write_samples(&mut ring, &[1]), Err(TransportFault::Overrun { skipped: 1 }));
    assert_eq!(write_samples(&mut ring, &[]), Ok(()));
    let (samples, report) = read_samples(&mut ring, 1);
    assert_eq!(samples, vec![0]);
    assert_eq!(report, Err(TransportFault::Underrun { missed: 1 }));
}

#[test]
fn transport_too_large_is_refused() {
    assert!(matches!(
        Transport::new(usize::MAX),
        Err(Error::Configuration(ConfigurationError::BufferTooLarge))
    ));
    assert!(matches!(
        Transport::with_latency(usize::MAX / 2),
        Err(Error::Configuration(ConfigurationError::BufferTooLarge))
    ));
}

#[test]
fn transport_split_gives_the_two_ends() {
    let mut ring = Transport::with_latency(2).unwrap();
    assert_eq!(write_samples(&mut ring, &[5]), Ok(()));
    let (mut producer, mut consumer) = ring.split();
    assert_eq!(consumer.len(), 3);
    assert_eq!(consumer.capacity(), 4);
    assert_eq!(producer.push_slice(&[6, 7]), 1);
    let mut out = [9; 4];
    assert_eq!(consumer.pop_slice(&mut out), 4);
    assert_eq!(out, [0, 0, 5, 6]);
}

#[test]
fn fault_reports_name_the_count() {
    assert_eq!(overrun(10, 10), Ok(()));
    assert_eq!(overrun(10, 7), Err(TransportFault::Overrun { skipped: 3 }));
    assert_eq!(underrun(4, 4), Ok(()));
    assert_eq!(underrun(4, 0), Err(TransportFault::Underrun { missed: 4 }));
}

#[test]
fn transport_for_a_stream_holds_its_latency() {
    // 50 ms of stereo at 44.1 kHz: 2205 frames, 4410 samples
    let stereo = StreamConfig { channels: 2, sample_rate: 44_100 };
    let mut ring = Transport::for_stream(&stereo, 50).unwrap();
    let (samples, report) = read_samples(&mut ring, 4410);
    assert_eq!(samples, vec![0; 4410]);
    assert_eq!(report, Ok(()));
    assert_eq!(write_samples(&mut ring, &vec![1; 8820]), Ok(()));
    assert_eq!(write_samples(&mut ring, &[1]), Err(TransportFault::Overrun { skipped: 1 }));
    let huge = StreamConfig { channels: u16::MAX, sample_rate: u32::MAX };
    assert!(matches!(
        Transport::for_stream(&huge, u32::MAX),
        Err(Error::Configuration(ConfigurationError::BufferTooLarge))
    ));
}

#[test]
fn transport_reads_into_a_frame() {
    let mut ring = Transport::new(4).unwrap();
    assert_eq!(write_samples(&mut ring, &[1, 2, 3]), Ok(()));
    let mut frame = [9; 2];
    assert_eq!(read_into(&mut ring, &mut frame), Ok(()));
    assert_eq!(frame, [1, 2]);
    let mut frame = [9; 3];
    assert_eq!(read_into(&mut ring, &mut frame), Err(TransportFault::Underrun { missed: 2 }));
    assert_eq!(frame, [3, 0, 0]);
    let mut none: [i32; 0] = [];
    assert_eq!(read_into(&mut ring, &mut none), Ok(()));
}
