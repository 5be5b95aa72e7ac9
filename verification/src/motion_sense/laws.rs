//! What holds of every processed batch.

use vstd::prelude::*;

use crate::motion_sense::processor::{
    anchored_time, batch_error, counter_distance, event_flags, kind_of, last_after, new_batch,
    sample_events, saturated, spread_time, total, vector_time, whole_batch, BatchView, Marker,
    OutputEvent, ProcessorView, SensorState, Vector, VectorKind,
};

verus! {

pub open spec fn shape_ok(b: BatchView) -> bool {
    &&& b.processor.wf()
    &&& b.pending.len() == b.processor.states.len()
    &&& b.processor.states.len() <= usize::MAX
}

pub(crate) proof fn anchored_time_is_bounded(arrival: u64, anchor: u32, sample: u32)
    ensures
        0 <= anchored_time(arrival, anchor, sample) <= arrival,
{
}

proof fn spread_time_is_bounded(
    previous: Option<u64>,
    odr: u32,
    marker: u64,
    approximate: bool,
    index: int,
    count: int,
    limit: int,
)
    requires
        0 <= index < count,
        marker <= limit <= u64::MAX,
        previous matches Some(p) ==> p <= limit,
    ensures
        0 <= spread_time(previous, odr, marker as int, approximate, index, count) <= limit,
{
    if !approximate {
        match previous {
            Some(p) => {
                let span = saturated(marker - p);
                let scaled = saturated(span * (index + 1));
                assert(0 <= scaled <= span * count) by (nonlinear_arith)
                    requires
                        0 <= span,
                        0 <= index < count,
                        scaled == saturated(span * (index + 1)),
                ;
                assert(0 <= scaled / count <= span) by (nonlinear_arith)
                    requires
                        0 <= scaled <= span * count,
                        0 < count,
                ;
            },
            None => {},
        }
    }
}

// Times.

/// No time of the batch lies after `limit`.
pub open spec fn no_time_after(b: BatchView, limit: int) -> bool {
    &&& forall|s: int|
        #![trigger b.processor.states[s]]
        0 <= s < b.processor.states.len() ==> (b.processor.states[s].last_timestamp_ns matches Some(
            t,
        ) ==> t <= limit)
    &&& forall|s: int|
        #![trigger b.processor.next[s]]
        0 <= s < b.processor.next.len() ==> (b.processor.next[s] matches Some(t) ==> t <= limit)
    &&& forall|i: int|
        #![trigger b.events[i]]
        0 <= i < b.events.len() ==> b.events[i].timestamp_ns <= limit
}

pub(crate) proof fn last_after_is_bounded(start: SensorState, marker: Marker, count: int, n: int, limit: int)
    requires
        n <= count,
        marker.time <= limit <= u64::MAX,
        start.last_timestamp_ns matches Some(p) ==> p <= limit,
    ensures
        last_after(start, marker, count, n) matches Some(t) ==> t <= limit,
        n > 0 ==> last_after(start, marker, count, n) is Some,
    decreases n,
{
    if n > 0 {
        last_after_is_bounded(start, marker, count, n - 1, limit);
        spread_time_is_bounded(
            start.last_timestamp_ns,
            start.odr_millihz,
            marker.time,
            marker.approximate,
            n - 1,
            count,
            limit,
        );
    }
}

proof fn emit_keeps_times(b: BatchView, sensor: int, marker: Marker, limit: int)
    requires
        shape_ok(b),
        0 <= sensor < b.processor.states.len(),
        marker.time <= limit <= u64::MAX,
        no_time_after(b, limit),
    ensures
        shape_ok(b.emit(sensor, marker)),
        no_time_after(b.emit(sensor, marker), limit),
{
    let start = b.processor.states[sensor];
    let samples = b.pending[sensor];
    let count = samples.len() as int;
    let after = b.emit(sensor, marker);
    last_after_is_bounded(start, marker, count, count, limit);
    let fresh = sample_events(start, sensor, samples, marker);
    assert forall|i: int| 0 <= i < after.events.len() implies (
    #[trigger] after.events[i]).timestamp_ns <= limit by {
        if i < b.events.len() {
            assert(after.events[i] == b.events[i]);
        } else {
            let k = i - b.events.len();
            assert(after.events[i] == fresh[k]);
            last_after_is_bounded(start, marker, count, k + 1, limit);
        }
    }
    assert forall|s: int|
        #![trigger after.processor.states[s]]
        0 <= s < after.processor.states.len() implies (
    after.processor.states[s].last_timestamp_ns matches Some(t) ==> t <= limit) by {
        if s != sensor {
            assert(after.processor.states[s] == b.processor.states[s]);
        }
    }
}

proof fn emit_below_keeps_times(b: BatchView, count: int, marker: Marker, limit: int)
    requires
        shape_ok(b),
        count <= b.processor.states.len(),
        marker.time <= limit <= u64::MAX,
        no_time_after(b, limit),
    ensures
        shape_ok(b.emit_below(count, marker)),
        b.emit_below(count, marker).processor.states.len() == b.processor.states.len(),
        no_time_after(b.emit_below(count, marker), limit),
    decreases count,
{
    if count > 0 {
        emit_below_keeps_times(b, count - 1, marker, limit);
        if b.processor.present[count - 1] {
            emit_keeps_times(b.emit_below(count - 1, marker), count - 1, marker, limit);
        }
    }
}

proof fn vector_keeps_times(
    b: BatchView,
    arrival: u64,
    anchor: u32,
    vector: Vector,
    forced: bool,
    limit: u64,
)
    requires
        shape_ok(b),
        arrival <= limit,
        no_time_after(b, limit as int),
    ensures
        shape_ok(b.vector(arrival, anchor, vector, forced)),
        b.vector(arrival, anchor, vector, forced).processor.states.len()
            == b.processor.states.len(),
        no_time_after(b.vector(arrival, anchor, vector, forced), limit as int),
{
    let sensor = vector.sensor as int;
    let time = anchored_time(arrival, anchor, vector_time(vector) as u32);
    anchored_time_is_bounded(arrival, anchor, vector_time(vector) as u32);
    let exact = Marker { time: time as u64, approximate: false, forced };
    let late = Marker { time: arrival, approximate: true, forced };
    let n = b.processor.states.len() as int;
    emit_below_keeps_times(b, n, exact, limit as int);
    if b.processor.reports(sensor) {
        emit_keeps_times(b, sensor, exact, limit as int);
        emit_keeps_times(b, sensor, late, limit as int);
        assert(b.processor.states[sensor].last_timestamp_ns matches Some(t) ==> t <= limit);
        assert(b.processor.next[sensor] matches Some(t) ==> t <= limit);
        let closed = b.emit(sensor, exact);
        assert(closed.processor.states[sensor].last_timestamp_ns matches Some(t) ==> t <= limit);
    }
    let after = b.vector(arrival, anchor, vector, forced);
    assert(no_time_after(after, limit as int));
}

proof fn vectors_keep_times(
    b: BatchView,
    arrival: u64,
    anchor: u32,
    vectors: Seq<Vector>,
    n: int,
    forced: bool,
    limit: u64,
)
    requires
        shape_ok(b),
        arrival <= limit,
        no_time_after(b, limit as int),
    ensures
        shape_ok(b.vectors(arrival, anchor, vectors, n, forced)),
        b.vectors(arrival, anchor, vectors, n, forced).processor.states.len()
            == b.processor.states.len(),
        no_time_after(b.vectors(arrival, anchor, vectors, n, forced), limit as int),
    decreases n,
{
    if n > 0 {
        vectors_keep_times(b, arrival, anchor, vectors, n - 1, forced, limit);
        vector_keeps_times(
            b.vectors(arrival, anchor, vectors, n - 1, forced),
            arrival,
            anchor,
            vectors[n - 1],
            forced,
            limit,
        );
    }
}

/// No time of a batch lies after a limit that neither its arrival nor what was
/// known before exceeds.
pub(crate) proof fn batch_keeps_times(
    processor: ProcessorView,
    arrival: u64,
    anchor: u32,
    total_lost: u16,
    lost: Seq<u16>,
    vectors: Seq<Vector>,
    limit: u64,
)
    requires
        processor.wf(),
        processor.states.len() <= usize::MAX,
        batch_error(processor, total_lost, lost) is None,
        arrival <= limit,
        no_time_after(new_batch(processor), limit as int),
    ensures
        no_time_after(
            whole_batch(processor, arrival, anchor, total_lost, lost, vectors),
            limit as int,
        ),
{
    let unattributed = total_lost - total(lost);
    let forced = unattributed != 0;
    let start = new_batch(processor.with_losses(lost, unattributed));
    assert(no_time_after(start, limit as int)) by {
        let known = new_batch(processor);
        assert forall|s: int|
            #![trigger start.processor.states[s]]
            0 <= s < start.processor.states.len() implies (
        start.processor.states[s].last_timestamp_ns matches Some(t) ==> t <= limit) by {
            assert(known.processor.states[s].last_timestamp_ns matches Some(t) ==> t <= limit);
        }
        assert forall|s: int|
            #![trigger start.processor.next[s]]
            0 <= s < start.processor.next.len() implies (start.processor.next[s] matches Some(t)
            ==> t <= limit) by {
            assert(known.processor.next[s] matches Some(t) ==> t <= limit);
        }
    }
    vectors_keep_times(start, arrival, anchor, vectors, vectors.len() as int, forced, limit);
    emit_below_keeps_times(
        start.vectors(arrival, anchor, vectors, vectors.len() as int, forced),
        processor.states.len() as int,
        Marker { time: arrival, approximate: true, forced },
        limit as int,
    );
}

/// No sample is dated after the arrival of its batch: where no time known
/// before lies after the arrival, no time of the batch does, and the same is
/// true of what the processor remembers.
pub proof fn samples_are_never_in_the_future(
    processor: ProcessorView,
    arrival: u64,
    anchor: u32,
    total_lost: u16,
    lost: Seq<u16>,
    vectors: Seq<Vector>,
)
    requires
        processor.wf(),
        processor.states.len() <= usize::MAX,
        batch_error(processor, total_lost, lost) is None,
        no_time_after(new_batch(processor), arrival as int),
    ensures
        no_time_after(
            whole_batch(processor, arrival, anchor, total_lost, lost, vectors),
            arrival as int,
        ),
{
    batch_keeps_times(processor, arrival, anchor, total_lost, lost, vectors, arrival);
}

// Order.

/// The events of each sensor are in time order, and none lies after the last
/// time that the sensor remembers.
pub open spec fn in_order(b: BatchView) -> bool {
    &&& forall|i: int, j: int|
        #![trigger b.events[i], b.events[j]]
        0 <= i < j < b.events.len() && b.events[i].sensor == b.events[j].sensor
            ==> b.events[i].timestamp_ns <= b.events[j].timestamp_ns
    &&& forall|i: int|
        #![trigger b.events[i]]
        0 <= i < b.events.len() ==> {
            let s = b.events[i].sensor as int;
            &&& s < b.processor.states.len()
            &&& b.processor.states[s].last_timestamp_ns matches Some(t)
            &&& b.events[i].timestamp_ns <= t
        }
}

pub(crate) proof fn last_after_grows(start: SensorState, marker: Marker, count: int, m: int, n: int)
    requires
        0 <= m <= n <= count,
    ensures
        last_after(start, marker, count, m) matches Some(t) ==> {
            &&& last_after(start, marker, count, n) matches Some(u)
            &&& t <= u
        },
    decreases n,
{
    if m < n {
        last_after_grows(start, marker, count, m, n - 1);
        last_after_is_bounded(start, marker, count, n - 1, u64::MAX as int);
        spread_time_is_bounded(
            start.last_timestamp_ns,
            start.odr_millihz,
            marker.time,
            marker.approximate,
            n - 1,
            count,
            u64::MAX as int,
        );
    }
}

proof fn emit_keeps_order(b: BatchView, sensor: int, marker: Marker)
    requires
        shape_ok(b),
        0 <= sensor < b.processor.states.len(),
        in_order(b),
    ensures
        shape_ok(b.emit(sensor, marker)),
        in_order(b.emit(sensor, marker)),
{
    let start = b.processor.states[sensor];
    let samples = b.pending[sensor];
    let count = samples.len() as int;
    let fresh = sample_events(start, sensor, samples, marker);
    let after = b.emit(sensor, marker);
    let old_len = b.events.len() as int;
    last_after_grows(start, marker, count, 0, count);
    assert forall|i: int| 0 <= i < after.events.len() implies {
        let s = (#[trigger] after.events[i]).sensor as int;
        &&& s < after.processor.states.len()
        &&& after.processor.states[s].last_timestamp_ns matches Some(t)
        &&& after.events[i].timestamp_ns <= t
    } by {
        if i < old_len {
            assert(after.events[i] == b.events[i]);
            let s = b.events[i].sensor as int;
            assert(b.processor.states[s].last_timestamp_ns is Some);
        } else {
            assert(after.events[i] == fresh[i - old_len]);
            last_after_is_bounded(start, marker, count, i - old_len + 1, u64::MAX as int);
            last_after_grows(start, marker, count, i - old_len + 1, count);
        }
    }
    assert forall|i: int, j: int|
        #![trigger after.events[i], after.events[j]]
        0 <= i < j < after.events.len() && after.events[i].sensor
            == after.events[j].sensor implies after.events[i].timestamp_ns
        <= after.events[j].timestamp_ns by {
        if j < old_len {
            assert(after.events[i] == b.events[i]);
            assert(after.events[j] == b.events[j]);
        } else {
            assert(after.events[j] == fresh[j - old_len]);
            last_after_is_bounded(start, marker, count, j - old_len + 1, u64::MAX as int);
            if i < old_len {
                assert(after.events[i] == b.events[i]);
                last_after_grows(start, marker, count, 0, j - old_len + 1);
            } else {
                assert(after.events[i] == fresh[i - old_len]);
                last_after_is_bounded(start, marker, count, i - old_len + 1, u64::MAX as int);
                last_after_grows(start, marker, count, i - old_len + 1, j - old_len + 1);
            }
        }
    }
}

proof fn report_keeps_order(
    b: BatchView,
    sensor: int,
    time: int,
    values: [i32; 3],
    flags: u32,
    flush: bool,
)
    requires
        shape_ok(b),
        0 <= sensor < b.processor.states.len(),
        0 <= time <= u64::MAX,
        in_order(b),
    ensures
        shape_ok(b.report(sensor, time, values, flags, flush)),
        in_order(b.report(sensor, time, values, flags, flush)),
{
    let after = b.report(sensor, time, values, flags, flush);
    let last = b.events.len() as int;
    assert forall|i: int| 0 <= i < after.events.len() implies {
        let s = (#[trigger] after.events[i]).sensor as int;
        &&& s < after.processor.states.len()
        &&& after.processor.states[s].last_timestamp_ns matches Some(t)
        &&& after.events[i].timestamp_ns <= t
    } by {
        if i < last {
            assert(after.events[i] == b.events[i]);
            assert(b.processor.states[b.events[i].sensor as int].last_timestamp_ns is Some);
        }
    }
    assert forall|i: int, j: int|
        #![trigger after.events[i], after.events[j]]
        0 <= i < j < after.events.len() && after.events[i].sensor
            == after.events[j].sensor implies after.events[i].timestamp_ns
        <= after.events[j].timestamp_ns by {
        assert(after.events[i] == b.events[i]);
        if j < last {
            assert(after.events[j] == b.events[j]);
        }
    }
}

proof fn emit_below_keeps_order(b: BatchView, count: int, marker: Marker)
    requires
        shape_ok(b),
        count <= b.processor.states.len(),
        in_order(b),
    ensures
        shape_ok(b.emit_below(count, marker)),
        b.emit_below(count, marker).processor.states.len() == b.processor.states.len(),
        in_order(b.emit_below(count, marker)),
    decreases count,
{
    if count > 0 {
        emit_below_keeps_order(b, count - 1, marker);
        if b.processor.present[count - 1] {
            emit_keeps_order(b.emit_below(count - 1, marker), count - 1, marker);
        }
    }
}

proof fn vector_keeps_order(b: BatchView, arrival: u64, anchor: u32, vector: Vector, forced: bool)
    requires
        shape_ok(b),
        in_order(b),
        kind_of(vector.flags) != VectorKind::Odr,
    ensures
        shape_ok(b.vector(arrival, anchor, vector, forced)),
        b.vector(arrival, anchor, vector, forced).processor.states.len()
            == b.processor.states.len(),
        in_order(b.vector(arrival, anchor, vector, forced)),
{
    let sensor = vector.sensor as int;
    let time = anchored_time(arrival, anchor, vector_time(vector) as u32);
    anchored_time_is_bounded(arrival, anchor, vector_time(vector) as u32);
    let exact = Marker { time: time as u64, approximate: false, forced };
    let late = Marker { time: arrival, approximate: true, forced };
    let after = b.vector(arrival, anchor, vector, forced);
    match kind_of(vector.flags) {
        VectorKind::Timestamp => {
            if b.processor.tight && b.processor.reports(sensor) {
                emit_keeps_order(b, sensor, late);
                let closed = b.emit(sensor, late);
                assert(in_order(closed.with_next(sensor, Some(time as u64))));
            } else {
                emit_below_keeps_order(b, b.processor.states.len() as int, exact);
            }
        },
        VectorKind::Sample => {
            if b.processor.reports(sensor) {
                if b.processor.tight && b.processor.next[sensor] is Some {
                    let taken = b.with_next(sensor, None);
                    assert(in_order(taken));
                    let flags: u32 = if vector.flags as int / 4 % 2 == 1 {
                        4
                    } else {
                        0
                    };
                    report_keeps_order(
                        taken,
                        sensor,
                        b.processor.next[sensor]->Some_0 as int,
                        vector.values,
                        event_flags(flags, forced),
                        false,
                    );
                } else {
                    assert(in_order(after));
                }
            } else {
                assert(in_order(b.discard()));
            }
        },
        VectorKind::Flush => {
            if b.processor.reports(sensor) {
                emit_keeps_order(b, sensor, exact);
                report_keeps_order(
                    b.emit(sensor, exact),
                    sensor,
                    time,
                    [0i32, 0i32, 0i32],
                    event_flags(0, forced),
                    true,
                );
            } else {
                assert(in_order(b.discard()));
            }
        },
        VectorKind::Invalid => {
            assert(in_order(b.discard()));
        },
        _ => {},
    }
}

proof fn vectors_keep_order(
    b: BatchView,
    arrival: u64,
    anchor: u32,
    vectors: Seq<Vector>,
    n: int,
    forced: bool,
)
    requires
        shape_ok(b),
        in_order(b),
        n <= vectors.len(),
        forall|i: int|
            0 <= i < n ==> kind_of((#[trigger] vectors[i]).flags) != VectorKind::Odr,
    ensures
        shape_ok(b.vectors(arrival, anchor, vectors, n, forced)),
        b.vectors(arrival, anchor, vectors, n, forced).processor.states.len()
            == b.processor.states.len(),
        in_order(b.vectors(arrival, anchor, vectors, n, forced)),
    decreases n,
{
    if n > 0 {
        vectors_keep_order(b, arrival, anchor, vectors, n - 1, forced);
        vector_keeps_order(
            b.vectors(arrival, anchor, vectors, n - 1, forced),
            arrival,
            anchor,
            vectors[n - 1],
            forced,
        );
    }
}

/// Sensor times do not run backwards: in a batch without a change of rate the
/// events of each sensor come in time order.
pub proof fn sensor_times_are_monotonic(
    processor: ProcessorView,
    arrival: u64,
    anchor: u32,
    total_lost: u16,
    lost: Seq<u16>,
    vectors: Seq<Vector>,
)
    requires
        processor.wf(),
        processor.states.len() <= usize::MAX,
        batch_error(processor, total_lost, lost) is None,
        forall|i: int|
            0 <= i < vectors.len() ==> kind_of((#[trigger] vectors[i]).flags) != VectorKind::Odr,
    ensures
        in_order(whole_batch(processor, arrival, anchor, total_lost, lost, vectors)),
{
    let unattributed = total_lost - total(lost);
    let forced = unattributed != 0;
    let start = new_batch(processor.with_losses(lost, unattributed));
    vectors_keep_order(start, arrival, anchor, vectors, vectors.len() as int, forced);
    emit_below_keeps_order(
        start.vectors(arrival, anchor, vectors, vectors.len() as int, forced),
        processor.states.len() as int,
        Marker { time: arrival, approximate: true, forced },
    );
}

// Losses.

/// The losses that the events of one sensor report.
pub open spec fn reported_losses(events: Seq<OutputEvent>, sensor: int) -> int
    decreases events.len(),
{
    if events.len() == 0 {
        0
    } else {
        reported_losses(events.drop_last(), sensor) + (if events.last().sensor == sensor {
            events.last().lost as int
        } else {
            0
        })
    }
}

/// The losses reported and still owed for one sensor.
pub open spec fn accounted_losses(b: BatchView, sensor: int) -> int {
    reported_losses(b.events, sensor) + b.processor.states[sensor].pending_lost
}

proof fn losses_of_concatenation(a: Seq<OutputEvent>, b: Seq<OutputEvent>, sensor: int)
    ensures
        reported_losses(a + b, sensor) == reported_losses(a, sensor) + reported_losses(b, sensor),
    decreases b.len(),
{
    if b.len() == 0 {
        assert(a + b =~= a);
    } else {
        assert((a + b).drop_last() =~= a + b.drop_last());
        losses_of_concatenation(a, b.drop_last(), sensor);
    }
}

proof fn losses_of_samples(events: Seq<OutputEvent>, owner: int, sensor: int, owed: u32)
    requires
        forall|i: int|
            #![trigger events[i]]
            0 <= i < events.len() ==> events[i].sensor == owner && events[i].lost == (if i == 0 {
                owed
            } else {
                0
            }),
    ensures
        reported_losses(events, sensor) == (if events.len() > 0 && owner == sensor {
            owed as int
        } else {
            0
        }),
    decreases events.len(),
{
    if events.len() > 0 {
        let before = events.drop_last();
        assert forall|i: int|
            #![trigger before[i]]
            0 <= i < before.len() implies before[i].sensor == owner && before[i].lost == (if i
            == 0 {
            owed
        } else {
            0
        }) by {
            assert(before[i] == events[i]);
        }
        losses_of_samples(before, owner, sensor, owed);
        assert(events.last() == events[events.len() - 1]);
    }
}

proof fn emit_keeps_losses(b: BatchView, at: int, marker: Marker, sensor: int)
    requires
        shape_ok(b),
        0 <= at < b.processor.states.len(),
        0 <= sensor < b.processor.states.len(),
    ensures
        shape_ok(b.emit(at, marker)),
        accounted_losses(b.emit(at, marker), sensor) == accounted_losses(b, sensor),
{
    let start = b.processor.states[at];
    let fresh = sample_events(start, at, b.pending[at], marker);
    losses_of_concatenation(b.events, fresh, sensor);
    losses_of_samples(fresh, at, sensor, start.pending_lost);
}

proof fn report_keeps_losses(
    b: BatchView,
    at: int,
    time: int,
    values: [i32; 3],
    flags: u32,
    flush: bool,
    sensor: int,
)
    requires
        shape_ok(b),
        0 <= at < b.processor.states.len(),
        0 <= sensor < b.processor.states.len(),
    ensures
        accounted_losses(b.report(at, time, values, flags, flush), sensor) == accounted_losses(
            b,
            sensor,
        ),
{
    let after = b.report(at, time, values, flags, flush);
    assert(after.events.drop_last() =~= b.events);
}

proof fn emit_below_keeps_losses(b: BatchView, count: int, marker: Marker, sensor: int)
    requires
        shape_ok(b),
        count <= b.processor.states.len(),
        0 <= sensor < b.processor.states.len(),
    ensures
        shape_ok(b.emit_below(count, marker)),
        b.emit_below(count, marker).processor.states.len() == b.processor.states.len(),
        accounted_losses(b.emit_below(count, marker), sensor) == accounted_losses(b, sensor),
    decreases count,
{
    if count > 0 {
        emit_below_keeps_losses(b, count - 1, marker, sensor);
        if b.processor.present[count - 1] {
            emit_keeps_losses(b.emit_below(count - 1, marker), count - 1, marker, sensor);
        }
    }
}

proof fn vector_keeps_losses(
    b: BatchView,
    arrival: u64,
    anchor: u32,
    vector: Vector,
    forced: bool,
    sensor: int,
)
    requires
        shape_ok(b),
        0 <= sensor < b.processor.states.len(),
    ensures
        shape_ok(b.vector(arrival, anchor, vector, forced)),
        b.vector(arrival, anchor, vector, forced).processor.states.len()
            == b.processor.states.len(),
        accounted_losses(b.vector(arrival, anchor, vector, forced), sensor) == accounted_losses(
            b,
            sensor,
        ),
{
    let at = vector.sensor as int;
    let time = anchored_time(arrival, anchor, vector_time(vector) as u32);
    let exact = Marker { time: time as u64, approximate: false, forced };
    let late = Marker { time: arrival, approximate: true, forced };
    emit_below_keeps_losses(b, b.processor.states.len() as int, exact, sensor);
    if b.processor.reports(at) {
        emit_keeps_losses(b, at, exact, sensor);
        emit_keeps_losses(b, at, late, sensor);
        report_keeps_losses(
            b.emit(at, exact),
            at,
            time,
            [0i32, 0i32, 0i32],
            event_flags(0, forced),
            true,
            sensor,
        );
        let flags: u32 = if vector.flags as int / 4 % 2 == 1 {
            4
        } else {
            0
        };
        if b.processor.next[at] is Some {
            report_keeps_losses(
                b.with_next(at, None),
                at,
                b.processor.next[at]->Some_0 as int,
                vector.values,
                event_flags(flags, forced),
                false,
                sensor,
            );
        }
    }
}

proof fn vectors_keep_losses(
    b: BatchView,
    arrival: u64,
    anchor: u32,
    vectors: Seq<Vector>,
    n: int,
    forced: bool,
    sensor: int,
)
    requires
        shape_ok(b),
        0 <= sensor < b.processor.states.len(),
    ensures
        shape_ok(b.vectors(arrival, anchor, vectors, n, forced)),
        b.vectors(arrival, anchor, vectors, n, forced).processor.states.len()
            == b.processor.states.len(),
        accounted_losses(b.vectors(arrival, anchor, vectors, n, forced), sensor)
            == accounted_losses(b, sensor),
    decreases n,
{
    if n > 0 {
        vectors_keep_losses(b, arrival, anchor, vectors, n - 1, forced, sensor);
        vector_keeps_losses(
            b.vectors(arrival, anchor, vectors, n - 1, forced),
            arrival,
            anchor,
            vectors[n - 1],
            forced,
            sensor,
        );
    }
}

/// Losses are reported once: what the events of a sensor report, and what the
/// sensor still owes after the batch, is what it owed before and lost since.
pub proof fn losses_are_reported_once(
    processor: ProcessorView,
    arrival: u64,
    anchor: u32,
    total_lost: u16,
    lost: Seq<u16>,
    vectors: Seq<Vector>,
    sensor: int,
)
    requires
        processor.wf(),
        processor.states.len() <= usize::MAX,
        batch_error(processor, total_lost, lost) is None,
        0 <= sensor < processor.states.len(),
        processor.states[sensor].pending_lost + lost[sensor] <= u32::MAX,
    ensures
        accounted_losses(
            whole_batch(processor, arrival, anchor, total_lost, lost, vectors),
            sensor,
        ) == processor.states[sensor].pending_lost + lost[sensor],
{
    let unattributed = total_lost - total(lost);
    let forced = unattributed != 0;
    let start = new_batch(processor.with_losses(lost, unattributed));
    vectors_keep_losses(start, arrival, anchor, vectors, vectors.len() as int, forced, sensor);
    emit_below_keeps_losses(
        start.vectors(arrival, anchor, vectors, vectors.len() as int, forced),
        processor.states.len() as int,
        Marker { time: arrival, approximate: true, forced },
        sensor,
    );
}

// Counts.

/// How many samples wait, over all sensors below `count`.
pub open spec fn waiting(b: BatchView, count: int) -> int
    decreases count,
{
    if count <= 0 {
        0
    } else {
        waiting(b, count - 1) + b.pending[count - 1].len()
    }
}

proof fn waiting_after_change(a: BatchView, b: BatchView, at: int, count: int)
    requires
        0 <= at < a.pending.len(),
        a.pending.len() == b.pending.len(),
        count <= a.pending.len(),
        forall|s: int|
            #![trigger b.pending[s]]
            0 <= s < a.pending.len() && s != at ==> a.pending[s] == b.pending[s],
    ensures
        waiting(b, count) == waiting(a, count) + (if at < count {
            b.pending[at].len() - a.pending[at].len()
        } else {
            0
        }),
    decreases count,
{
    if count > 0 {
        waiting_after_change(a, b, at, count - 1);
        if count - 1 != at {
            assert(a.pending[count - 1] == b.pending[count - 1]);
        }
    }
}

proof fn waiting_is_not_negative(b: BatchView, count: int)
    ensures
        waiting(b, count) >= 0,
    decreases count,
{
    if count > 0 {
        waiting_is_not_negative(b, count - 1);
    }
}

/// The events given, the samples waiting and the vectors discarded.
pub open spec fn handled(b: BatchView) -> int {
    b.events.len() + waiting(b, b.pending.len() as int) + b.discarded
}

proof fn emit_keeps_count(b: BatchView, at: int, marker: Marker)
    requires
        shape_ok(b),
        0 <= at < b.processor.states.len(),
    ensures
        shape_ok(b.emit(at, marker)),
        handled(b.emit(at, marker)) == handled(b),
{
    waiting_after_change(b, b.emit(at, marker), at, b.pending.len() as int);
}

pub(crate) proof fn emit_below_keeps_count(b: BatchView, count: int, marker: Marker)
    requires
        shape_ok(b),
        count <= b.processor.states.len(),
    ensures
        shape_ok(b.emit_below(count, marker)),
        b.emit_below(count, marker).processor.states.len() == b.processor.states.len(),
        handled(b.emit_below(count, marker)) == handled(b),
    decreases count,
{
    if count > 0 {
        emit_below_keeps_count(b, count - 1, marker);
        if b.processor.present[count - 1] {
            emit_keeps_count(b.emit_below(count - 1, marker), count - 1, marker);
        }
    }
}

proof fn same_pending_same_waiting(a: BatchView, b: BatchView, count: int)
    requires
        a.pending == b.pending,
    ensures
        waiting(a, count) == waiting(b, count),
    decreases count,
{
    if count > 0 {
        same_pending_same_waiting(a, b, count - 1);
    }
}

proof fn vector_adds_at_most_one(
    b: BatchView,
    arrival: u64,
    anchor: u32,
    vector: Vector,
    forced: bool,
)
    requires
        shape_ok(b),
    ensures
        shape_ok(b.vector(arrival, anchor, vector, forced)),
        b.vector(arrival, anchor, vector, forced).processor.states.len()
            == b.processor.states.len(),
        handled(b.vector(arrival, anchor, vector, forced)) <= handled(b) + 1,
{
    let at = vector.sensor as int;
    let time = anchored_time(arrival, anchor, vector_time(vector) as u32);
    let exact = Marker { time: time as u64, approximate: false, forced };
    let late = Marker { time: arrival, approximate: true, forced };
    let after = b.vector(arrival, anchor, vector, forced);
    let n = b.pending.len() as int;
    match kind_of(vector.flags) {
        VectorKind::Timestamp => {
            if b.processor.tight && b.processor.reports(at) {
                emit_keeps_count(b, at, late);
                same_pending_same_waiting(b.emit(at, late), after, n);
            } else {
                emit_below_keeps_count(b, b.processor.states.len() as int, exact);
            }
        },
        VectorKind::Sample => {
            if b.processor.reports(at) {
                if b.processor.tight && b.processor.next[at] is Some {
                    same_pending_same_waiting(b, after, n);
                } else {
                    waiting_after_change(b, after, at, n);
                }
            } else {
                same_pending_same_waiting(b, after, n);
            }
        },
        VectorKind::Flush | VectorKind::Odr => {
            if b.processor.reports(at) {
                emit_keeps_count(b, at, exact);
                same_pending_same_waiting(b.emit(at, exact), after, n);
            } else {
                same_pending_same_waiting(b, after, n);
            }
        },
        _ => {
            same_pending_same_waiting(b, after, n);
        },
    }
}

pub(crate) proof fn vectors_add_at_most_one_each(
    b: BatchView,
    arrival: u64,
    anchor: u32,
    vectors: Seq<Vector>,
    n: int,
    forced: bool,
)
    requires
        shape_ok(b),
        0 <= n,
    ensures
        shape_ok(b.vectors(arrival, anchor, vectors, n, forced)),
        b.vectors(arrival, anchor, vectors, n, forced).processor.states.len()
            == b.processor.states.len(),
        handled(b.vectors(arrival, anchor, vectors, n, forced)) <= handled(b) + n,
    decreases n,
{
    if n > 0 {
        vectors_add_at_most_one_each(b, arrival, anchor, vectors, n - 1, forced);
        vector_adds_at_most_one(
            b.vectors(arrival, anchor, vectors, n - 1, forced),
            arrival,
            anchor,
            vectors[n - 1],
            forced,
        );
    }
}

proof fn nothing_waits_at_the_start(b: BatchView, count: int)
    requires
        forall|s: int|
            #![trigger b.pending[s]]
            0 <= s < b.pending.len() ==> b.pending[s].len() == 0,
        count <= b.pending.len(),
    ensures
        waiting(b, count) == 0,
    decreases count,
{
    if count > 0 {
        nothing_waits_at_the_start(b, count - 1);
    }
}

/// A batch gives no more events and discards together than it has vectors.
pub proof fn events_and_discards_are_bounded(
    processor: ProcessorView,
    arrival: u64,
    anchor: u32,
    total_lost: u16,
    lost: Seq<u16>,
    vectors: Seq<Vector>,
)
    requires
        processor.wf(),
        processor.states.len() <= usize::MAX,
        batch_error(processor, total_lost, lost) is None,
    ensures
        ({
            let end = whole_batch(processor, arrival, anchor, total_lost, lost, vectors);
            end.events.len() + end.discarded <= vectors.len()
        }),
{
    let unattributed = total_lost - total(lost);
    let forced = unattributed != 0;
    let start = new_batch(processor.with_losses(lost, unattributed));
    nothing_waits_at_the_start(start, start.pending.len() as int);
    vectors_add_at_most_one_each(start, arrival, anchor, vectors, vectors.len() as int, forced);
    let all = start.vectors(arrival, anchor, vectors, vectors.len() as int, forced);
    let marker = Marker { time: arrival, approximate: true, forced };
    emit_below_keeps_count(all, processor.states.len() as int, marker);
    waiting_is_not_negative(
        all.emit_below(processor.states.len() as int, marker),
        start.pending.len() as int,
    );
}

/// The host time of a marker is monotonic in its distance to the anchor and
/// never lies after the arrival.
pub proof fn anchored_times_follow_the_counter(arrival: u64, anchor: u32, a: u32, b: u32)
    requires
        counter_distance(a, anchor) <= counter_distance(b, anchor),
    ensures
        anchored_time(arrival, anchor, a) <= anchored_time(arrival, anchor, b) <= arrival,
{
}

} // verus!
