//! Timestamps for motion FIFO vectors.

use vstd::prelude::*;

use crate::bytes::twos_complement;

verus! {

pub const FLAG_FLUSH: u8 = 0x01;

pub const FLAG_TIMESTAMP: u8 = 0x02;

pub const FLAG_WAKEUP: u8 = 0x04;

pub const FLAG_TABLET_MODE: u8 = 0x08;

pub const FLAG_ODR: u8 = 0x10;

pub const FLAG_BYPASS_FIFO: u8 = 0x80;

pub const FLAG_WAKEUP_EVENT: u32 = 0x04;

pub const FLAG_TIMESTAMP_APPROXIMATE_EVENT: u32 = 0x08;

/// One FIFO vector.
#[derive(Clone, Copy, Debug, Eq, PartialEq)]
pub struct Vector {
    pub flags: u8,
    pub sensor: u8,
    pub values: [i32; 3],
}

/// What a FIFO vector carries.
#[derive(Clone, Copy, Debug, Eq, PartialEq, Structural)]
pub enum VectorKind {
    Sample,
    Timestamp,
    Flush,
    Odr,
    TabletMode,
    Invalid,
}

/// The kind that the flags give: wake-up and bypass annotate a sample and
/// nothing else, and at most one metadata flag is set.
pub open spec fn kind_of(flags: u8) -> VectorKind {
    if flags == 0 || flags == FLAG_WAKEUP || flags == FLAG_BYPASS_FIFO || flags == 0x84 {
        VectorKind::Sample
    } else if flags == FLAG_TIMESTAMP {
        VectorKind::Timestamp
    } else if flags == FLAG_FLUSH {
        VectorKind::Flush
    } else if flags == FLAG_ODR {
        VectorKind::Odr
    } else if flags == FLAG_TABLET_MODE {
        VectorKind::TabletMode
    } else {
        VectorKind::Invalid
    }
}

pub fn classify(flags: u8) -> (r: VectorKind)
    ensures
        r == kind_of(flags),
{
    match flags {
        0x00 => VectorKind::Sample,
        0x04 => VectorKind::Sample,
        0x80 => VectorKind::Sample,
        0x84 => VectorKind::Sample,
        0x02 => VectorKind::Timestamp,
        0x01 => VectorKind::Flush,
        0x10 => VectorKind::Odr,
        0x08 => VectorKind::TabletMode,
        _ => VectorKind::Invalid,
    }
}

/// The low 16 bits of a sign-extended word.
fn low_word(value: i32) -> (r: u32)
    ensures
        r == value as int % 0x1_0000,
{
    ((value as i64 + 0x8000_0000) % 0x1_0000) as u32
}

/// The 32-bit EC time that a metadata vector stores in its last two words.
pub open spec fn vector_time(vector: Vector) -> int {
    vector.values@[1] as int % 0x1_0000 + 0x1_0000 * (vector.values@[2] as int % 0x1_0000)
}

impl Vector {
    pub fn timestamp_us(self) -> (r: u32)
        ensures
            r == vector_time(self),
    {
        low_word(self.values[1]) + low_word(self.values[2]) * 0x1_0000
    }
}

/// The signed shortest distance between two values of the wrapping 32-bit
/// microsecond counter.
pub open spec fn counter_distance(sample_us: u32, anchor_us: u32) -> int {
    twos_complement((sample_us - anchor_us) % 0x1_0000_0000, 0x1_0000_0000)
}

pub fn wrapping_delta_us(sample_us: u32, anchor_us: u32) -> (r: i64)
    ensures
        r == counter_distance(sample_us, anchor_us),
{
    let distance: i64 = (sample_us as i64 - anchor_us as i64 + 0x1_0000_0000) % 0x1_0000_0000;
    if distance < 0x8000_0000 {
        distance
    } else {
        distance - 0x1_0000_0000
    }
}

/// The host time of an EC time, given that `anchor_us` is when `arrival_ns`
/// was: never after the arrival and never below zero.
pub open spec fn anchored_time(arrival_ns: u64, anchor_us: u32, sample_us: u32) -> int {
    let delta = counter_distance(sample_us, anchor_us);
    if delta >= 0 {
        arrival_ns as int
    } else if arrival_ns + 1000 * delta >= 0 {
        arrival_ns + 1000 * delta
    } else {
        0
    }
}

pub fn anchored_timestamp_ns(arrival_ns: u64, anchor_us: u32, sample_us: u32) -> (r: u64)
    ensures
        r == anchored_time(arrival_ns, anchor_us, sample_us),
        r <= arrival_ns,
{
    let delta: i64 = wrapping_delta_us(sample_us, anchor_us);
    if delta >= 0 {
        arrival_ns
    } else {
        let back: u64 = ((0 - delta) * 1000) as u64;
        arrival_ns.saturating_sub(back)
    }
}

/// What is left after one batch, which must have made progress within the
/// request and the backlog.
pub fn fifo_remaining_after_progress(remaining: u32, requested: u32, progress: u32) -> (r: Result<
    u32,
    (),
>)
    ensures
        r == (if progress == 0 || progress > requested || progress > remaining {
            Err::<u32, ()>(())
        } else {
            Ok((remaining - progress) as u32)
        }),
{
    if progress == 0 || progress > requested || progress > remaining {
        return Err(());
    }
    Ok(remaining - progress)
}

/// A sample that waits for its timestamp.
#[derive(Clone, Copy, Debug, Eq, PartialEq)]
pub struct PendingSample {
    pub values: [i32; 3],
    pub flags: u32,
}

/// A timestamped sample or flush marker.
#[derive(Clone, Copy, Debug, Eq, PartialEq)]
pub struct OutputEvent {
    pub sensor: usize,
    pub timestamp_ns: u64,
    pub values: [i32; 3],
    pub flags: u32,
    pub lost: u32,
    pub flush: bool,
}

/// What one sensor carries from batch to batch.
#[derive(Clone, Copy, Debug, Eq, PartialEq, Structural)]
pub struct SensorState {
    pub odr_millihz: u32,
    pub last_timestamp_ns: Option<u64>,
    pub pending_lost: u32,
}

/// Assigns host times to FIFO vectors, sensor by sensor.
pub struct Processor {
    pub states: Vec<SensorState>,
    pub present: Vec<bool>,
    pub tight_timestamps: bool,
    pub next_timestamp_ns: Vec<Option<u64>>,
}

#[derive(Clone, Copy, Debug, Eq, PartialEq, Structural)]
pub enum ProcessError {
    LostCountMismatch,
    LostSensorCountMismatch,
}

/// What one batch gave.
pub struct ProcessResult {
    pub events: Vec<OutputEvent>,
    pub discarded: u32,
    pub unattributed_lost: u32,
}

/// The state of a processor.
#[verifier::ext_equal]
pub struct ProcessorView {
    pub states: Seq<SensorState>,
    pub present: Seq<bool>,
    pub tight: bool,
    pub next: Seq<Option<u64>>,
}

impl View for Processor {
    type V = ProcessorView;

    open spec fn view(&self) -> ProcessorView {
        ProcessorView {
            states: self.states@,
            present: self.present@,
            tight: self.tight_timestamps,
            next: self.next_timestamp_ns@,
        }
    }
}

/// A batch in progress.
#[verifier::ext_equal]
pub struct BatchView {
    pub processor: ProcessorView,
    pub pending: Seq<Seq<PendingSample>>,
    pub events: Seq<OutputEvent>,
    pub discarded: int,
}

pub open spec fn most(a: int, b: int) -> int {
    if a >= b {
        a
    } else {
        b
    }
}

/// The largest 64-bit value not above `value`.
pub open spec fn saturated(value: int) -> int {
    if value > u64::MAX {
        u64::MAX as int
    } else if value < 0 {
        0
    } else {
        value
    }
}

/// A time that never precedes the sensor's last one.
pub open spec fn not_before(last: Option<u64>, time: int) -> int {
    match last {
        Some(previous) => most(previous as int, time),
        None => time,
    }
}

/// The sample period in nanoseconds, zero where the rate is unknown.
pub open spec fn sample_period(odr_millihz: u32) -> int {
    if odr_millihz == 0 {
        0
    } else {
        1_000_000_000_000int / odr_millihz as int
    }
}

/// Where sample `index` of `count` lies that a marker at `marker` closes:
/// spread evenly since the last time, or one period apart where none is known.
pub open spec fn spread_time(
    previous: Option<u64>,
    odr_millihz: u32,
    marker: int,
    approximate: bool,
    index: int,
    count: int,
) -> int {
    if approximate {
        marker
    } else {
        match previous {
            Some(previous) => saturated(
                previous + saturated(saturated(marker - previous) * (index + 1)) / count,
            ),
            None => saturated(
                marker - saturated(sample_period(odr_millihz) * (count - (index + 1))),
            ),
        }
    }
}

/// The flags of an event whose time may be inexact.
pub open spec fn event_flags(flags: u32, approximate: bool) -> u32 {
    flags | (if approximate {
        FLAG_TIMESTAMP_APPROXIMATE_EVENT
    } else {
        0
    })
}

/// How pending samples are timed: the marker that closes them.
#[derive(Clone, Copy, Debug, Eq, PartialEq, Structural)]
pub struct Marker {
    pub time: u64,
    /// The marker is only the arrival of the batch.
    pub approximate: bool,
    /// A marker was lost, so no time of this batch is exact.
    pub forced: bool,
}

/// The last time of a sensor after `n` of its `count` pending samples.
pub open spec fn last_after(start: SensorState, marker: Marker, count: int, n: int) -> Option<u64>
    decreases n,
{
    if n <= 0 {
        start.last_timestamp_ns
    } else {
        Some(
            not_before(
                last_after(start, marker, count, n - 1),
                spread_time(
                    start.last_timestamp_ns,
                    start.odr_millihz,
                    marker.time as int,
                    marker.approximate,
                    n - 1,
                    count,
                ),
            ) as u64,
        )
    }
}

/// The events of a sensor's pending samples. The first one reports the loss.
pub open spec fn sample_events(
    start: SensorState,
    sensor: int,
    samples: Seq<PendingSample>,
    marker: Marker,
) -> Seq<OutputEvent> {
    Seq::new(
        samples.len(),
        |i: int|
            OutputEvent {
                sensor: sensor as usize,
                timestamp_ns: last_after(start, marker, samples.len() as int, i + 1)->Some_0,
                values: samples[i].values,
                flags: event_flags(samples[i].flags, marker.approximate || marker.forced),
                lost: if i == 0 {
                    start.pending_lost
                } else {
                    0
                },
                flush: false,
            },
    )
}

/// The sensor after its pending samples were reported. An exact marker moves
/// the last time even without samples.
pub open spec fn state_after(start: SensorState, marker: Marker, count: int) -> SensorState {
    if count > 0 {
        SensorState {
            odr_millihz: start.odr_millihz,
            last_timestamp_ns: last_after(start, marker, count, count),
            pending_lost: 0,
        }
    } else if marker.approximate {
        start
    } else {
        SensorState {
            last_timestamp_ns: Some(
                not_before(start.last_timestamp_ns, marker.time as int) as u64,
            ),
            ..start
        }
    }
}

impl ProcessorView {
    pub open spec fn wf(self) -> bool {
        self.present.len() >= self.states.len() && self.next.len() == self.states.len()
    }

    /// Whether the sensor exists and is reported.
    pub open spec fn reports(self, sensor: int) -> bool {
        0 <= sensor < self.states.len() && self.present[sensor]
    }

    /// The state once the losses of a batch are known: a sensor that lost
    /// vectors, or every sensor where markers were lost, starts its
    /// interpolation anew.
    pub open spec fn with_losses(self, lost: Seq<u16>, unattributed: int) -> ProcessorView {
        ProcessorView {
            states: Seq::new(
                self.states.len(),
                |i: int|
                    SensorState {
                        odr_millihz: self.states[i].odr_millihz,
                        last_timestamp_ns: if unattributed != 0 || lost[i] != 0 {
                            None
                        } else {
                            self.states[i].last_timestamp_ns
                        },
                        pending_lost: if self.states[i].pending_lost + lost[i] > u32::MAX {
                            u32::MAX
                        } else {
                            (self.states[i].pending_lost + lost[i]) as u32
                        },
                    },
            ),
            next: Seq::new(
                self.next.len(),
                |i: int|
                    if unattributed != 0 || lost[i] != 0 {
                        None
                    } else {
                        self.next[i]
                    },
            ),
            ..self
        }
    }
}

/// The sum of all loss counters.
pub open spec fn total(lost: Seq<u16>) -> int
    decreases lost.len(),
{
    if lost.len() == 0 {
        0
    } else {
        total(lost.drop_last()) + lost.last()
    }
}

impl BatchView {
    /// Reports the pending samples of one sensor.
    pub open spec fn emit(self, sensor: int, marker: Marker) -> BatchView {
        let start = self.processor.states[sensor];
        let samples = self.pending[sensor];
        BatchView {
            processor: ProcessorView {
                states: self.processor.states.update(
                    sensor,
                    state_after(start, marker, samples.len() as int),
                ),
                ..self.processor
            },
            pending: self.pending.update(sensor, Seq::empty()),
            events: self.events + sample_events(start, sensor, samples, marker),
            ..self
        }
    }

    /// Reports the pending samples of every sensor below `count`.
    pub open spec fn emit_below(self, count: int, marker: Marker) -> BatchView
        decreases count,
    {
        if count <= 0 {
            self
        } else {
            let before = self.emit_below(count - 1, marker);
            if self.processor.present[count - 1] {
                before.emit(count - 1, marker)
            } else {
                before
            }
        }
    }

    /// Reports one event of a sensor at a time of its own.
    pub open spec fn report(
        self,
        sensor: int,
        time: int,
        values: [i32; 3],
        flags: u32,
        flush: bool,
    ) -> BatchView {
        let start = self.processor.states[sensor];
        let at = not_before(start.last_timestamp_ns, time) as u64;
        BatchView {
            processor: ProcessorView {
                states: self.processor.states.update(
                    sensor,
                    SensorState {
                        odr_millihz: start.odr_millihz,
                        last_timestamp_ns: Some(at),
                        pending_lost: 0,
                    },
                ),
                ..self.processor
            },
            events: self.events.push(
                OutputEvent {
                    sensor: sensor as usize,
                    timestamp_ns: at,
                    values,
                    flags,
                    lost: start.pending_lost,
                    flush,
                },
            ),
            ..self
        }
    }

    pub open spec fn discard(self) -> BatchView {
        BatchView {
            discarded: if self.discarded < u32::MAX {
                self.discarded + 1
            } else {
                self.discarded
            },
            ..self
        }
    }

    /// The batch with the next exact time of a sensor set.
    pub open spec fn with_next(self, sensor: int, next: Option<u64>) -> BatchView {
        BatchView {
            processor: ProcessorView {
                next: self.processor.next.update(sensor, next),
                ..self.processor
            },
            ..self
        }
    }

    /// A timestamp marker. With tight timestamps it belongs to the next sample
    /// of its sensor; otherwise it closes the pending samples of all sensors.
    pub open spec fn timestamp(self, arrival: u64, sensor: int, time: int, forced: bool) -> BatchView {
        if self.processor.tight && self.processor.reports(sensor) {
            self.emit(sensor, Marker { time: arrival, approximate: true, forced }).with_next(
                sensor,
                Some(time as u64),
            )
        } else {
            self.emit_below(
                self.processor.states.len() as int,
                Marker { time: time as u64, approximate: false, forced },
            )
        }
    }

    /// A sample: reported at once where an exact time waits for it.
    pub open spec fn sample(self, sensor: int, vector: Vector, forced: bool) -> BatchView {
        let flags: u32 = if vector.flags as int / 4 % 2 == 1 {
            FLAG_WAKEUP_EVENT
        } else {
            0
        };
        if self.processor.tight && self.processor.next[sensor] is Some {
            self.with_next(sensor, None).report(
                sensor,
                self.processor.next[sensor]->Some_0 as int,
                vector.values,
                event_flags(flags, forced),
                false,
            )
        } else {
            BatchView {
                pending: self.pending.update(
                    sensor,
                    self.pending[sensor].push(PendingSample { values: vector.values, flags }),
                ),
                ..self
            }
        }
    }

    /// What one vector does.
    pub open spec fn vector(self, arrival: u64, anchor: u32, vector: Vector, forced: bool) -> BatchView {
        let sensor = vector.sensor as int;
        let time = anchored_time(arrival, anchor, vector_time(vector) as u32);
        let marker = Marker { time: time as u64, approximate: false, forced };
        match kind_of(vector.flags) {
            VectorKind::Timestamp => self.timestamp(arrival, sensor, time, forced),
            VectorKind::TabletMode => self,
            VectorKind::Invalid => self.discard(),
            kind => if !self.processor.reports(sensor) {
                self.discard()
            } else if kind is Sample {
                self.sample(sensor, vector, forced)
            } else if kind is Flush {
                self.emit(sensor, marker).report(
                    sensor,
                    time,
                    [0i32, 0i32, 0i32],
                    event_flags(0, forced),
                    true,
                )
            } else {
                self.emit(sensor, marker).restarted(sensor)
            },
        }
    }

    /// A change of rate: the sensor's interpolation starts anew.
    pub open spec fn restarted(self, sensor: int) -> BatchView {
        BatchView {
            processor: ProcessorView {
                states: self.processor.states.update(
                    sensor,
                    SensorState { last_timestamp_ns: None, ..self.processor.states[sensor] },
                ),
                next: self.processor.next.update(sensor, None),
                ..self.processor
            },
            ..self
        }
    }

    /// The batch after its first `n` vectors.
    pub open spec fn vectors(
        self,
        arrival: u64,
        anchor: u32,
        vectors: Seq<Vector>,
        n: int,
        forced: bool,
    ) -> BatchView
        decreases n,
    {
        if n <= 0 {
            self
        } else {
            self.vectors(arrival, anchor, vectors, n - 1, forced).vector(
                arrival,
                anchor,
                vectors[n - 1],
                forced,
            )
        }
    }
}

/// An empty batch.
pub open spec fn new_batch(processor: ProcessorView) -> BatchView {
    BatchView {
        processor,
        pending: Seq::new(processor.states.len(), |i: int| Seq::empty()),
        events: Seq::empty(),
        discarded: 0,
    }
}

/// A whole batch: the losses, the vectors in order, and at last the samples
/// that no marker closed, which get the arrival time.
pub open spec fn whole_batch(
    processor: ProcessorView,
    arrival: u64,
    anchor: u32,
    total_lost: u16,
    lost: Seq<u16>,
    vectors: Seq<Vector>,
) -> BatchView {
    let unattributed = total_lost - total(lost);
    let forced = unattributed != 0;
    new_batch(processor.with_losses(lost, unattributed)).vectors(
        arrival,
        anchor,
        vectors,
        vectors.len() as int,
        forced,
    ).emit_below(
        processor.states.len() as int,
        Marker { time: arrival, approximate: true, forced },
    )
}

/// Why a batch is refused: a loss counter per sensor is needed, and the total
/// counts at least what the sensors lost.
pub open spec fn batch_error(processor: ProcessorView, total_lost: u16, lost: Seq<u16>) -> Option<
    ProcessError,
> {
    if lost.len() != processor.states.len() {
        Some(ProcessError::LostSensorCountMismatch)
    } else if total(lost) > total_lost {
        Some(ProcessError::LostCountMismatch)
    } else {
        None
    }
}

/// The pending samples, sensor by sensor.
pub open spec fn pending_view(pending: Seq<Vec<PendingSample>>) -> Seq<Seq<PendingSample>> {
    Seq::new(pending.len(), |i: int| pending[i]@)
}

impl Processor {
    pub fn new(odrs: &[u32], present: &[bool], tight_timestamps: bool) -> (r: Self)
        ensures
            odrs@.len() <= present@.len() ==> r@.wf(),
            r@ == (ProcessorView {
                states: Seq::new(
                    odrs@.len(),
                    |i: int|
                        SensorState {
                            odr_millihz: odrs@[i],
                            last_timestamp_ns: None,
                            pending_lost: 0,
                        },
                ),
                present: present@,
                tight: tight_timestamps,
                next: Seq::new(odrs@.len(), |i: int| None),
            }),
    {
        let mut states: Vec<SensorState> = Vec::new();
        let mut next: Vec<Option<u64>> = Vec::new();
        let mut i: usize = 0;
        while i < odrs.len()
            invariant
                i <= odrs@.len(),
                states@.len() == i,
                next@.len() == i,
                forall|j: int|
                    0 <= j < i ==> #[trigger] states@[j] == (SensorState {
                        odr_millihz: odrs@[j],
                        last_timestamp_ns: None,
                        pending_lost: 0,
                    }),
                forall|j: int| 0 <= j < i ==> (#[trigger] next@[j]) is None,
            decreases odrs@.len() - i,
        {
            states.push(
                SensorState { odr_millihz: odrs[i], last_timestamp_ns: None, pending_lost: 0 },
            );
            next.push(None);
            i = i + 1;
        }
        let mut copied: Vec<bool> = Vec::new();
        let mut k: usize = 0;
        while k < present.len()
            invariant
                k <= present@.len(),
                copied@ == present@.take(k as int),
            decreases present@.len() - k,
        {
            copied.push(present[k]);
            k = k + 1;
            assert(copied@ =~= present@.take(k as int));
        }
        assert(copied@ =~= present@);
        Processor { states, present: copied, tight_timestamps, next_timestamp_ns: next }
    }

    /// Moves the sensor's last time to a time that does not precede it.
    pub fn normalize_timestamp(&mut self, sensor: usize, timestamp_ns: u64) -> (r: u64)
        requires
            old(self)@.wf(),
            sensor < old(self)@.states.len(),
        ensures
            r == not_before(
                old(self)@.states[sensor as int].last_timestamp_ns,
                timestamp_ns as int,
            ),
            final(self)@ == (ProcessorView {
                states: old(self)@.states.update(
                    sensor as int,
                    SensorState {
                        last_timestamp_ns: Some(r),
                        ..old(self)@.states[sensor as int]
                    },
                ),
                ..old(self)@
            }),
    {
        let mut state = self.states[sensor];
        let time: u64 = match state.last_timestamp_ns {
            Some(previous) => if previous > timestamp_ns {
                previous
            } else {
                timestamp_ns
            },
            None => timestamp_ns,
        };
        state.last_timestamp_ns = Some(time);
        self.states.set(sensor, state);
        time
    }

    /// Takes the loss that the sensor has not reported yet.
    pub fn take_lost(&mut self, sensor: usize) -> (r: u32)
        requires
            old(self)@.wf(),
            sensor < old(self)@.states.len(),
        ensures
            r == old(self)@.states[sensor as int].pending_lost,
            final(self)@ == (ProcessorView {
                states: old(self)@.states.update(
                    sensor as int,
                    SensorState { pending_lost: 0, ..old(self)@.states[sensor as int] },
                ),
                ..old(self)@
            }),
    {
        let mut state = self.states[sensor];
        let lost: u32 = state.pending_lost;
        state.pending_lost = 0;
        self.states.set(sensor, state);
        lost
    }
}

/// `a * b`, or the largest value where that does not fit.
fn saturating_mul(a: u64, b: u64) -> (r: u64)
    ensures
        r == saturated(a * b),
{
    proof {
        assert(a * b >= 0) by (nonlinear_arith)
            requires
                a >= 0,
                b >= 0,
        ;
    }
    match a.checked_mul(b) {
        Some(product) => product,
        None => u64::MAX,
    }
}

fn flagged(flags: u32, approximate: bool) -> (r: u32)
    ensures
        r == event_flags(flags, approximate),
{
    flags | (if approximate {
        FLAG_TIMESTAMP_APPROXIMATE_EVENT
    } else {
        0
    })
}

/// The time of one of several pending samples.
pub fn spread_timestamp(
    previous: Option<u64>,
    odr_millihz: u32,
    marker_ns: u64,
    approximate: bool,
    index: usize,
    count: usize,
) -> (r: u64)
    requires
        index < count,
    ensures
        r == spread_time(
            previous,
            odr_millihz,
            marker_ns as int,
            approximate,
            index as int,
            count as int,
        ),
{
    if approximate {
        return marker_ns;
    }
    match previous {
        Some(previous) => {
            let span: u64 = marker_ns.saturating_sub(previous);
            let numerator: u64 = saturating_mul(span, (index + 1) as u64);
            assert(saturated(span as int) == span);
            previous.saturating_add(numerator / (count as u64))
        },
        None => {
            let period: u64 = if odr_millihz == 0 {
                0
            } else {
                1_000_000_000_000u64 / (odr_millihz as u64)
            };
            marker_ns.saturating_sub(saturating_mul(period, (count - (index + 1)) as u64))
        },
    }
}

/// What the batch holds while it is processed.
struct Batch {
    pending: Vec<Vec<PendingSample>>,
    events: Vec<OutputEvent>,
    discarded: u32,
    forced: bool,
}

spec fn batch_view(processor: ProcessorView, batch: Batch) -> BatchView {
    BatchView {
        processor,
        pending: pending_view(batch.pending@),
        events: batch.events@,
        discarded: batch.discarded as int,
    }
}

spec fn batch_ok(b: BatchView) -> bool {
    b.processor.wf() && b.pending.len() == b.processor.states.len()
}

impl Processor {
    /// Reports the pending samples of a sensor, closed by a marker.
    fn emit_pending(&mut self, batch: &mut Batch, sensor: usize, marker_ns: u64, approximate: bool)
        requires
            batch_ok(batch_view(old(self)@, *old(batch))),
            sensor < old(self)@.states.len(),
        ensures
            batch_view(final(self)@, *final(batch)) == batch_view(old(self)@, *old(batch)).emit(
                sensor as int,
                Marker { time: marker_ns, approximate, forced: old(batch).forced },
            ),
            batch_ok(batch_view(final(self)@, *final(batch))),
            final(batch).forced == old(batch).forced,
    {
        let ghost start = batch_view(self@, *batch);
        let ghost marker = Marker { time: marker_ns, approximate, forced: batch.forced };
        let ghost state = self@.states[sensor as int];
        let ghost samples = batch.pending@[sensor as int]@;
        assert(samples == start.pending[sensor as int]);
        let count: usize = batch.pending[sensor].len();
        if count == 0 {
            if !approximate {
                let _ = self.normalize_timestamp(sensor, marker_ns);
            } else {
                assert(self@.states =~= start.processor.states.update(sensor as int, state));
            }
            assert(samples =~= Seq::empty());
            assert(start.pending =~= start.pending.update(sensor as int, Seq::empty()));
            assert(start.events =~= start.events + sample_events(
                state,
                sensor as int,
                samples,
                marker,
            ));
            return;
        }
        let previous = self.states[sensor].last_timestamp_ns;
        let odr_millihz: u32 = self.states[sensor].odr_millihz;
        let mut index: usize = 0;
        while index < count
            invariant
                index <= count,
                count == samples.len(),
                count > 0,
                sensor < start.processor.states.len(),
                batch_ok(start),
                state == start.processor.states[sensor as int],
                previous == state.last_timestamp_ns,
                odr_millihz == state.odr_millihz,
                marker == (Marker { time: marker_ns, approximate, forced: batch.forced }),
                batch.forced == old(batch).forced,
                batch.discarded == start.discarded,
                batch.pending@ == old(batch).pending@,
                pending_view(batch.pending@) == start.pending,
                batch.pending@[sensor as int]@ == samples,
                sensor < batch.pending@.len(),
                self@ == (ProcessorView {
                    states: start.processor.states.update(
                        sensor as int,
                        SensorState {
                            odr_millihz,
                            last_timestamp_ns: last_after(
                                state,
                                marker,
                                count as int,
                                index as int,
                            ),
                            pending_lost: if index == 0 {
                                state.pending_lost
                            } else {
                                0
                            },
                        },
                    ),
                    ..start.processor
                }),
                batch.events@ == start.events + sample_events(
                    state,
                    sensor as int,
                    samples,
                    marker,
                ).take(index as int),
            decreases count - index,
        {
            let sample = batch.pending[sensor][index];
            let time: u64 = spread_timestamp(
                previous,
                odr_millihz,
                marker_ns,
                approximate,
                index,
                count,
            );
            let time: u64 = self.normalize_timestamp(sensor, time);
            let lost: u32 = self.take_lost(sensor);
            batch.events.push(
                OutputEvent {
                    sensor,
                    timestamp_ns: time,
                    values: sample.values,
                    flags: flagged(sample.flags, approximate || batch.forced),
                    lost,
                    flush: false,
                },
            );
            index = index + 1;
            proof {
                let all = sample_events(state, sensor as int, samples, marker);
                assert(all.take(index as int) =~= all.take(index - 1).push(all[index - 1]));
                assert(last_after(state, marker, count as int, index as int) == Some(time));
            }
            assert(self@ =~= (ProcessorView {
                states: start.processor.states.update(
                    sensor as int,
                    SensorState {
                        odr_millihz,
                        last_timestamp_ns: last_after(state, marker, count as int, index as int),
                        pending_lost: 0,
                    },
                ),
                ..start.processor
            }));
        }
        batch.pending.set(sensor, Vec::new());
        proof {
            let all = sample_events(state, sensor as int, samples, marker);
            assert(all.take(count as int) =~= all);
            assert(pending_view(batch.pending@) =~= start.pending.update(
                sensor as int,
                Seq::empty(),
            ));
            assert(batch_view(self@, *batch) =~= start.emit(sensor as int, marker));
        }
    }

    /// Reports the pending samples of every present sensor.
    fn emit_all(&mut self, batch: &mut Batch, marker_ns: u64, approximate: bool)
        requires
            batch_ok(batch_view(old(self)@, *old(batch))),
        ensures
            batch_view(final(self)@, *final(batch)) == batch_view(old(self)@, *old(batch)).emit_below(
                old(self)@.states.len() as int,
                Marker { time: marker_ns, approximate, forced: old(batch).forced },
            ),
            batch_ok(batch_view(final(self)@, *final(batch))),
            final(batch).forced == old(batch).forced,
            final(self)@.states.len() == old(self)@.states.len(),
    {
        let ghost start = batch_view(self@, *batch);
        let ghost marker = Marker { time: marker_ns, approximate, forced: batch.forced };
        let mut index: usize = 0;
        while index < self.states.len()
            invariant
                index <= self@.states.len() == start.processor.states.len(),
                self@.present == start.processor.present,
                batch_ok(batch_view(self@, *batch)),
                batch.forced == marker.forced,
                marker.time == marker_ns,
                marker.approximate == approximate,
                batch_view(self@, *batch) == start.emit_below(index as int, marker),
            decreases self@.states.len() - index,
        {
            if self.present[index] {
                self.emit_pending(batch, index, marker_ns, approximate);
            }
            index = index + 1;
        }
    }

    /// Reports one event of a sensor at a time of its own.
    fn report(
        &mut self,
        batch: &mut Batch,
        sensor: usize,
        timestamp_ns: u64,
        values: [i32; 3],
        flags: u32,
        flush: bool,
    )
        requires
            batch_ok(batch_view(old(self)@, *old(batch))),
            sensor < old(self)@.states.len(),
        ensures
            batch_view(final(self)@, *final(batch)) == batch_view(old(self)@, *old(batch)).report(
                sensor as int,
                timestamp_ns as int,
                values,
                flags,
                flush,
            ),
            batch_ok(batch_view(final(self)@, *final(batch))),
            final(batch).forced == old(batch).forced,
    {
        let ghost start = batch_view(self@, *batch);
        let time: u64 = self.normalize_timestamp(sensor, timestamp_ns);
        let lost: u32 = self.take_lost(sensor);
        batch.events.push(OutputEvent { sensor, timestamp_ns: time, values, flags, lost, flush });
        assert(batch_view(self@, *batch) =~= start.report(
            sensor as int,
            timestamp_ns as int,
            values,
            flags,
            flush,
        ));
    }

    /// Takes one vector.
    fn vector(&mut self, batch: &mut Batch, arrival_ns: u64, anchor_us: u32, vector: Vector)
        requires
            batch_ok(batch_view(old(self)@, *old(batch))),
        ensures
            batch_view(final(self)@, *final(batch)) == batch_view(old(self)@, *old(batch)).vector(
                arrival_ns,
                anchor_us,
                vector,
                old(batch).forced,
            ),
            batch_ok(batch_view(final(self)@, *final(batch))),
            final(batch).forced == old(batch).forced,
            final(self)@.states.len() == old(self)@.states.len(),
    {
        let ghost start = batch_view(self@, *batch);
        let sensor: usize = vector.sensor as usize;
        let kind = classify(vector.flags);
        let marker_ns: u64 = anchored_timestamp_ns(arrival_ns, anchor_us, vector.timestamp_us());
        let reports: bool = sensor < self.states.len() && self.present[sensor];
        match kind {
            VectorKind::Timestamp => {
                if self.tight_timestamps && reports {
                    self.emit_pending(batch, sensor, arrival_ns, true);
                    self.next_timestamp_ns.set(sensor, Some(marker_ns));
                } else {
                    self.emit_all(batch, marker_ns, false);
                }
            },
            VectorKind::TabletMode => {},
            VectorKind::Invalid => {
                batch.discarded = batch.discarded.saturating_add(1);
            },
            _ => {
                if !reports {
                    batch.discarded = batch.discarded.saturating_add(1);
                } else if kind == VectorKind::Sample {
                    let flags: u32 = if vector.flags / 4 % 2 == 1 {
                        FLAG_WAKEUP_EVENT
                    } else {
                        0
                    };
                    let next = if self.tight_timestamps {
                        self.next_timestamp_ns[sensor]
                    } else {
                        None
                    };
                    match next {
                        Some(time) => {
                            self.next_timestamp_ns.set(sensor, None);
                            let flags: u32 = flagged(flags, batch.forced);
                            self.report(batch, sensor, time, vector.values, flags, false);
                        },
                        None => {
                            let mut queue: Vec<PendingSample> = Vec::new();
                            std::mem::swap(&mut batch.pending[sensor], &mut queue);
                            queue.push(PendingSample { values: vector.values, flags });
                            batch.pending.set(sensor, queue);
                            assert(pending_view(batch.pending@) =~= start.pending.update(
                                sensor as int,
                                start.pending[sensor as int].push(
                                    PendingSample { values: vector.values, flags },
                                ),
                            ));
                        },
                    }
                } else if kind == VectorKind::Flush {
                    self.emit_pending(batch, sensor, marker_ns, false);
                    let flags: u32 = flagged(0, batch.forced);
                    self.report(batch, sensor, marker_ns, [0, 0, 0], flags, true);
                } else {
                    self.emit_pending(batch, sensor, marker_ns, false);
                    let mut state = self.states[sensor];
                    state.last_timestamp_ns = None;
                    self.states.set(sensor, state);
                    self.next_timestamp_ns.set(sensor, None);
                }
            },
        }
    }
}

proof fn total_is_not_negative(lost: Seq<u16>)
    ensures
        0 <= total(lost) <= 0xffff * lost.len(),
    decreases lost.len(),
{
    if lost.len() > 0 {
        total_is_not_negative(lost.drop_last());
    }
}

/// The sum of all loss counters, or the largest value where it does not fit.
pub fn sum_lost(lost: &[u16]) -> (r: u32)
    ensures
        r == (if total(lost@) > u32::MAX {
            u32::MAX as int
        } else {
            total(lost@)
        }),
{
    let mut sum: u32 = 0;
    let mut i: usize = 0;
    while i < lost.len()
        invariant
            i <= lost@.len(),
            sum == (if total(lost@.take(i as int)) > u32::MAX {
                u32::MAX as int
            } else {
                total(lost@.take(i as int))
            }),
        decreases lost@.len() - i,
    {
        proof {
            assert(lost@.take(i + 1).drop_last() =~= lost@.take(i as int));
            total_is_not_negative(lost@.take(i as int));
        }
        sum = sum.saturating_add(lost[i] as u32);
        i = i + 1;
    }
    assert(lost@.take(i as int) =~= lost@);
    sum
}

impl Processor {
    /// Takes the losses of a batch into account.
    fn apply_losses(&mut self, lost: &[u16], unattributed: u32)
        requires
            old(self)@.wf(),
            lost@.len() == old(self)@.states.len(),
        ensures
            final(self)@ == old(self)@.with_losses(lost@, unattributed as int),
            final(self)@.wf(),
    {
        let ghost start = self@;
        let ghost end = start.with_losses(lost@, unattributed as int);
        let mut i: usize = 0;
        while i < lost.len()
            invariant
                i <= lost@.len() == start.states.len(),
                start.wf(),
                self@.wf(),
                self@.states.len() == start.states.len(),
                self@.present == start.present,
                self@.tight == start.tight,
                end == start.with_losses(lost@, unattributed as int),
                forall|j: int| 0 <= j < i ==> #[trigger] self@.states[j] == end.states[j],
                forall|j: int| 0 <= j < i ==> #[trigger] self@.next[j] == end.next[j],
                forall|j: int|
                    i <= j < start.states.len() ==> #[trigger] self@.states[j] == start.states[j],
                forall|j: int|
                    i <= j < start.states.len() ==> #[trigger] self@.next[j] == start.next[j],
            decreases lost@.len() - i,
        {
            let mut state = self.states[i];
            if unattributed != 0 || lost[i] != 0 {
                state.last_timestamp_ns = None;
                self.next_timestamp_ns.set(i, None);
            }
            state.pending_lost = state.pending_lost.saturating_add(lost[i] as u32);
            self.states.set(i, state);
            i = i + 1;
        }
        assert(self@ =~= end);
    }

    /// Gives every sample of a batch its host time. `arrival_ns` is when the
    /// FIFO notification arrived and `anchor_us` the EC time it carries.
    pub fn process(
        &mut self,
        arrival_ns: u64,
        anchor_us: u32,
        total_lost: u16,
        lost_per_sensor: &[u16],
        vectors: &[Vector],
    ) -> (r: Result<ProcessResult, ProcessError>)
        requires
            old(self)@.wf(),
        ensures
            final(self)@.wf(),
            match batch_error(old(self)@, total_lost, lost_per_sensor@) {
                Some(error) => r matches Err(e) && e == error && final(self)@ == old(self)@,
                None => {
                    let batch = whole_batch(
                        old(self)@,
                        arrival_ns,
                        anchor_us,
                        total_lost,
                        lost_per_sensor@,
                        vectors@,
                    );
                    &&& r matches Ok(result)
                    &&& result.events@ == batch.events
                    &&& result.discarded == batch.discarded
                    &&& result.unattributed_lost == total_lost - total(lost_per_sensor@)
                    &&& final(self)@ == batch.processor
                },
            },
    {
        if lost_per_sensor.len() != self.states.len() {
            return Err(ProcessError::LostSensorCountMismatch);
        }
        let lost_sum: u32 = sum_lost(lost_per_sensor);
        proof {
            total_is_not_negative(lost_per_sensor@);
        }
        if lost_sum > total_lost as u32 {
            return Err(ProcessError::LostCountMismatch);
        }
        let unattributed_lost: u32 = total_lost as u32 - lost_sum;
        self.apply_losses(lost_per_sensor, unattributed_lost);
        let mut pending: Vec<Vec<PendingSample>> = Vec::new();
        while pending.len() < self.states.len()
            invariant
                pending@.len() <= self@.states.len(),
                forall|j: int| 0 <= j < pending@.len() ==> (#[trigger] pending@[j])@.len() == 0,
            decreases self@.states.len() - pending@.len(),
        {
            pending.push(Vec::new());
        }
        let ghost processor = self@;
        let mut batch = Batch {
            pending,
            events: Vec::new(),
            discarded: 0,
            forced: unattributed_lost != 0,
        };
        proof {
            let empty = new_batch(processor);
            assert(pending_view(batch.pending@) =~~= empty.pending);
            assert(batch_view(self@, batch) =~= empty);
        }
        let mut i: usize = 0;
        while i < vectors.len()
            invariant
                i <= vectors@.len(),
                self@.states.len() == processor.states.len(),
                batch.forced == (unattributed_lost != 0),
                batch_ok(batch_view(self@, batch)),
                batch_view(self@, batch) == new_batch(processor).vectors(
                    arrival_ns,
                    anchor_us,
                    vectors@,
                    i as int,
                    unattributed_lost != 0,
                ),
            decreases vectors@.len() - i,
        {
            self.vector(&mut batch, arrival_ns, anchor_us, vectors[i]);
            i = i + 1;
        }
        self.emit_all(&mut batch, arrival_ns, true);
        Ok(
            ProcessResult {
                events: batch.events,
                discarded: batch.discarded,
                unattributed_lost,
            },
        )
    }
}

} // verus!
