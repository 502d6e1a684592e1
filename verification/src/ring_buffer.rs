//! The transport: a ring buffer of fixed capacity that takes samples at one
//! end and gives them back, in order, at the other. Neither end ever waits:
//! a write drops what does not fit, a read pads what is missing with silence,
//! and both say so.
//!
//! The ring is that of `ringbuf`, and what is said of it here is taken on
//! trust from its source. A ring of `ringbuf` is reached through two ends
//! that share it. A [`Transport`] is made with the two ends of one ring and
//! holds both, so that every call that changes the ring changes the transport;
//! the ring is described through its reading end. Once the ends are given up
//! to a writer and a reader that run apart, what one of them finds depends on
//! the other, and nothing here speaks of it.

use crate::audio::StreamConfig;
use crate::error::{
    overrun,
    overrun_of,
    underrun,
    underrun_of,
    ConfigurationError,
    Error,
    TransportFault,
};
use crate::sample::{silence, Sample, SILENCE};
use crate::util::{checked_ms_in_samples, samples_in, silent_frame};
use ringbuf::{Consumer, Producer, RingBuffer};
use vstd::prelude::*;

verus! {

/// The writing end of a ring of `ringbuf`.
#[verifier::external_type_specification]
#[verifier::external_body]
#[verifier::reject_recursive_types(T)]
pub struct ExProducer<T>(Producer<T>);

/// The reading end of a ring of `ringbuf`.
#[verifier::external_type_specification]
#[verifier::external_body]
#[verifier::reject_recursive_types(T)]
pub struct ExConsumer<T>(Consumer<T>);

/// The samples that a ring holds, oldest first, as seen from its reading end.
pub uninterp spec fn ring_queue(consumer: Consumer<Sample>) -> Seq<Sample>;

/// The number of samples that a ring can hold, as given when it was made.
pub uninterp spec fn ring_capacity(consumer: Consumer<Sample>) -> nat;

/// A transport as a value: the samples it holds, oldest first, and how many
/// it can hold.
pub struct Queue {
    pub held: Seq<Sample>,
    pub capacity: nat,
}

impl Queue {
    /// The transport holds no more than it can.
    pub open spec fn wf(self) -> bool {
        self.held.len() <= self.capacity
    }

    /// The number of samples that still fit.
    pub open spec fn room(self) -> nat {
        (self.capacity - self.held.len()) as nat
    }

    /// The number of samples of a write of `requested` that are taken.
    pub open spec fn accepted(self, requested: nat) -> nat {
        if requested <= self.room() {
            requested
        } else {
            self.room()
        }
    }

    /// The number of samples of a read of `requested` that are there.
    pub open spec fn available(self, requested: nat) -> nat {
        if requested <= self.held.len() {
            requested
        } else {
            self.held.len()
        }
    }

    /// The transport after a write of `data`: the samples that fit are
    /// appended, in order; the rest is dropped.
    pub open spec fn written(self, data: Seq<Sample>) -> Queue {
        Queue {
            held: self.held + data.take(self.accepted(data.len()) as int),
            capacity: self.capacity,
        }
    }

    /// What a write of `data` reports.
    pub open spec fn write_report(self, data: Seq<Sample>) -> Result<(), TransportFault> {
        overrun_of(data.len() as int, self.accepted(data.len()) as int)
    }

    /// The `requested` samples that a read gives: the oldest that are held,
    /// then silence for those that are missing.
    pub open spec fn heard(self, requested: nat) -> Seq<Sample> {
        self.held.take(self.available(requested) as int) + silence(
            (requested - self.available(requested)) as nat,
        )
    }

    /// The transport after a read of `requested` samples.
    pub open spec fn read(self, requested: nat) -> Queue {
        Queue { held: self.held.skip(self.available(requested) as int), capacity: self.capacity }
    }

    /// What a read of `requested` samples reports.
    pub open spec fn read_report(self, requested: nat) -> Result<(), TransportFault> {
        underrun_of(requested as int, self.available(requested) as int)
    }

    /// A transport with a latency budget of `latency` samples: twice that
    /// capacity, half of it filled with silence.
    pub open spec fn with_latency(latency: nat) -> Queue {
        Queue { held: silence(latency), capacity: 2 * latency }
    }
}

/// One call on a transport: a write of these samples, or a read of that
/// many.
pub enum Transfer {
    Write(Seq<Sample>),
    Read(nat),
}

/// How far the writes of `script` are ahead of its reads, in samples.
pub open spec fn lead(script: Seq<Transfer>) -> int
    decreases script.len(),
{
    if script.len() == 0 {
        0
    } else {
        match script.last() {
            Transfer::Write(data) => lead(script.drop_last()) + data.len(),
            Transfer::Read(requested) => lead(script.drop_last()) - requested,
        }
    }
}

impl Queue {
    /// The transport after the calls of `script`, in order.
    pub open spec fn after(self, script: Seq<Transfer>) -> Queue
        decreases script.len(),
    {
        if script.len() == 0 {
            self
        } else {
            match script.last() {
                Transfer::Write(data) => self.after(script.drop_last()).written(data),
                Transfer::Read(requested) => self.after(script.drop_last()).read(requested),
            }
        }
    }

    /// Whether some call of `script` reports an overrun or an underrun.
    pub open spec fn faulted(self, script: Seq<Transfer>) -> bool
        decreases script.len(),
    {
        if script.len() == 0 {
            false
        } else {
            self.faulted(script.drop_last()) || match script.last() {
                Transfer::Write(data) => self.after(script.drop_last()).write_report(data) is Err,
                Transfer::Read(requested) => self.after(script.drop_last()).read_report(
                    requested,
                ) is Err,
            }
        }
    }
}

/// Matched rates: on a transport that holds its latency budget and can hold
/// twice as much, as long as the writes are never more than the budget ahead
/// of the reads nor behind them, no call reports an overrun or an underrun,
/// and the transport holds the budget plus the lead.
pub proof fn matched_rates_never_fault(queue: Queue, script: Seq<Transfer>)
    requires
        queue.capacity == 2 * queue.held.len(),
        forall|k: int|
            0 <= k <= script.len() ==> -queue.held.len() <= #[trigger] lead(script.take(k))
                <= queue.held.len(),
    ensures
        !queue.faulted(script),
        queue.after(script).held.len() == queue.held.len() + lead(script),
        queue.after(script).capacity == queue.capacity,
    decreases script.len(),
{
    if script.len() > 0 {
        let shorter = script.drop_last();
        assert forall|k: int| 0 <= k <= shorter.len() implies -queue.held.len() <= #[trigger] lead(
            shorter.take(k),
        ) <= queue.held.len() by {
            assert(shorter.take(k) =~= script.take(k));
        }
        matched_rates_never_fault(queue, shorter);
        assert(script.take(script.len() as int) =~= script);
        assert(-queue.held.len() <= lead(script) <= queue.held.len());
    }
}

/// First in, first out: what is written where there is room for it is read
/// back behind what the transport held, sample for sample, and nothing is
/// reported.
pub proof fn written_is_read_in_order(queue: Queue, data: Seq<Sample>)
    requires
        queue.wf(),
        data.len() <= queue.room(),
    ensures
        queue.write_report(data) is Ok,
        queue.written(data).wf(),
        queue.written(data).heard(queue.held.len() + data.len()) == queue.held + data,
        queue.written(data).read_report(queue.held.len() + data.len()) is Ok,
        queue.written(data).read(queue.held.len() + data.len()).held == Seq::<Sample>::empty(),
{
    assert(queue.written(data).held =~= queue.held + data);
}

/// A burst: a write of more samples than fit reports exactly the excess as
/// skipped, and takes the samples that fit.
pub proof fn burst_drops_the_excess(queue: Queue, data: Seq<Sample>)
    requires
        queue.wf(),
        data.len() > queue.room(),
        data.len() <= usize::MAX,
    ensures
        queue.write_report(data) == Err::<(), TransportFault>(
            TransportFault::Overrun { skipped: (data.len() - queue.room()) as usize },
        ),
        queue.written(data).held == queue.held + data.take(queue.room() as int),
        queue.written(data).held.len() == queue.capacity,
{
}

/// The two ends of one ring buffer, held together.
pub struct Transport {
    producer: Producer<Sample>,
    consumer: Consumer<Sample>,
}

impl View for Transport {
    type V = Queue;

    closed spec fn view(&self) -> Queue {
        Queue { held: ring_queue(self.consumer), capacity: ring_capacity(self.consumer) }
    }
}

/// `RingBuffer::new`, then `RingBuffer::split`: the two ends of a new ring
/// that is empty and can hold `capacity` samples. The ring allocates one slot
/// more than its capacity, which `requires` keeps addressable.
#[verifier::external_body]
fn ring_new(capacity: usize) -> (ring: Transport)
    requires
        (capacity + 1) * 4 <= isize::MAX,
    ensures
        ring_queue(ring.consumer) == Seq::<Sample>::empty(),
        ring_capacity(ring.consumer) == capacity,
{
    let (producer, consumer) = RingBuffer::new(capacity).split();
    Transport { producer, consumer }
}

/// `Producer::push_slice`: appends the first samples of `data`, as many as
/// fit, behind those that the ring holds, and returns their number. The
/// capacity stays.
#[verifier::external_body]
fn ring_push(ring: &mut Transport, data: &[Sample]) -> (wrote: usize)
    requires
        ring_queue(old(ring).consumer).len() <= ring_capacity(old(ring).consumer),
    ensures
        ring_capacity(final(ring).consumer) == ring_capacity(old(ring).consumer),
        wrote == if data@.len() <= ring_capacity(old(ring).consumer) - ring_queue(
            old(ring).consumer,
        ).len() {
            data@.len() as int
        } else {
            ring_capacity(old(ring).consumer) - ring_queue(old(ring).consumer).len()
        },
        ring_queue(final(ring).consumer) == ring_queue(old(ring).consumer) + data@.take(
            wrote as int,
        ),
{
    ring.producer.push_slice(data)
}

/// `Consumer::pop_slice`: moves the oldest samples of the ring to the front
/// of `data`, as many as are held and fit, and returns their number. The rest
/// of `data`, the rest of the ring and the capacity stay.
#[verifier::external_body]
fn ring_pop(ring: &mut Transport, data: &mut [Sample]) -> (read: usize)
    ensures
        ring_capacity(final(ring).consumer) == ring_capacity(old(ring).consumer),
        read == if old(data)@.len() <= ring_queue(old(ring).consumer).len() {
            old(data)@.len()
        } else {
            ring_queue(old(ring).consumer).len()
        },
        ring_queue(final(ring).consumer) == ring_queue(old(ring).consumer).skip(read as int),
        final(data)@ == ring_queue(old(ring).consumer).take(read as int) + old(data)@.skip(
            read as int,
        ),
{
    ring.consumer.pop_slice(data)
}

impl Transport {
    /// The ring holds no more than it can.
    pub closed spec fn wf(&self) -> bool {
        self@.wf()
    }

    /// Whether a ring of `capacity` samples can be addressed on this machine.
    pub open spec fn fits(capacity: nat) -> bool {
        (capacity + 1) * 4 <= isize::MAX
    }

    /// An empty transport that can hold `capacity` samples.
    pub fn new(capacity: usize) -> (made: Result<Transport, Error>)
        ensures
            made is Ok <==> Self::fits(capacity as nat),
            made matches Ok(ring) ==> ring.wf() && ring@ == (Queue {
                held: Seq::<Sample>::empty(),
                capacity: capacity as nat,
            }),
            made matches Err(error) ==> error == Error::Configuration(
                ConfigurationError::BufferTooLarge,
            ),
    {
        let most: usize = (isize::MAX as usize) / 4;
        if capacity < most {
            Ok(ring_new(capacity))
        } else {
            Err(Error::Configuration(ConfigurationError::BufferTooLarge))
        }
    }

    /// A transport with a latency budget of `latency_samples`: it can hold
    /// twice as many, and holds that many samples of silence, so that a read
    /// finds data before the first write has happened.
    pub fn with_latency(latency_samples: usize) -> (made: Result<Transport, Error>)
        ensures
            made is Ok <==> Self::fits((2 * latency_samples) as nat),
            made matches Ok(ring) ==> ring.wf() && ring@ == Queue::with_latency(
                latency_samples as nat,
            ),
            made matches Err(error) ==> error == Error::Configuration(
                ConfigurationError::BufferTooLarge,
            ),
    {
        let most: usize = (isize::MAX as usize) / 4;
        if latency_samples > (most - 1) / 2 {
            return Err(Error::Configuration(ConfigurationError::BufferTooLarge));
        }
        match Self::new(2 * latency_samples) {
            Ok(mut ring) => {
                let _ = write_empty_samples(&mut ring, latency_samples);
                assert(ring@.held =~= silence(latency_samples as nat));
                Ok(ring)
            },
            Err(error) => Err(error),
        }
    }

    /// The transport between the capture and the playback of a stream, with
    /// a latency budget of `latency_ms` milliseconds.
    pub fn for_stream(stream_config: &StreamConfig, latency_ms: u32) -> (made: Result<
        Transport,
        Error,
    >)
        ensures
            made is Ok <==> Self::fits(2 * samples_in(*stream_config, latency_ms)),
            made matches Ok(ring) ==> ring.wf() && ring@ == Queue::with_latency(
                samples_in(*stream_config, latency_ms),
            ),
            made matches Err(error) ==> error == Error::Configuration(
                ConfigurationError::BufferTooLarge,
            ),
    {
        match checked_ms_in_samples(stream_config, latency_ms) {
            Some(latency_samples) => Self::with_latency(latency_samples),
            None => Err(Error::Configuration(ConfigurationError::BufferTooLarge)),
        }
    }

    /// Gives up the two ends, the writing one first, for a writer and a
    /// reader that run apart.
    pub fn split(self) -> (ends: (Producer<Sample>, Consumer<Sample>))
        ensures
            ring_queue(ends.1) == self@.held,
            ring_capacity(ends.1) == self@.capacity,
    {
        (self.producer, self.consumer)
    }
}

/// Writes `size` samples of silence.
pub fn write_empty_samples(ring: &mut Transport, size: usize) -> (report: Result<
    (),
    TransportFault,
>)
    requires
        old(ring).wf(),
    ensures
        final(ring).wf(),
        final(ring)@ == old(ring)@.written(silence(size as nat)),
        report == old(ring)@.write_report(silence(size as nat)),
{
    let data = silent_frame(size);
    write_samples(ring, data.as_slice())
}

/// Writes `data`: the samples that fit are appended in order, the rest is
/// dropped and reported as an overrun.
pub fn write_samples(ring: &mut Transport, data: &[Sample]) -> (report: Result<(), TransportFault>)
    requires
        old(ring).wf(),
    ensures
        final(ring).wf(),
        final(ring)@ == old(ring)@.written(data@),
        report == old(ring)@.write_report(data@),
{
    let wrote = ring_push(ring, data);
    overrun(data.len(), wrote)
}

/// Reads a frame into `output`, without allocating: the oldest samples that
/// are held, in order, then silence for those that are missing, which are
/// reported as an underrun.
pub fn read_into(ring: &mut Transport, output: &mut [Sample]) -> (report: Result<
    (),
    TransportFault,
>)
    requires
        old(ring).wf(),
    ensures
        final(ring).wf(),
        final(ring)@ == old(ring)@.read(old(output)@.len()),
        final(output)@ == old(ring)@.heard(old(output)@.len()),
        report == old(ring)@.read_report(old(output)@.len()),
{
    let size = output.len();
    let found = ring_pop(ring, output);
    let ghost held = old(ring)@.held;
    let mut i: usize = found;
    while i < size
        invariant
            found <= i <= size,
            size == output@.len(),
            found <= held.len(),
            forall|j: int| 0 <= j < found ==> output@[j] == held[j],
            forall|j: int| found <= j < i ==> output@[j] == SILENCE,
        decreases size - i,
    {
        output[i] = SILENCE;
        i += 1;
    }
    assert(output@ =~= old(ring)@.heard(size as nat));
    underrun(size, found)
}

/// Reads `size` samples into a new frame: the oldest that are held, in
/// order, then silence for those that are missing, which are reported as an
/// underrun.
pub fn read_samples(ring: &mut Transport, size: usize) -> (read: (
    Vec<Sample>,
    Result<(), TransportFault>,
))
    requires
        old(ring).wf(),
    ensures
        final(ring).wf(),
        final(ring)@ == old(ring)@.read(size as nat),
        read.0@ == old(ring)@.heard(size as nat),
        read.1 == old(ring)@.read_report(size as nat),
{
    let mut samples = silent_frame(size);
    let report = read_into(ring, samples.as_mut_slice());
    (samples, report)
}

} // verus!
