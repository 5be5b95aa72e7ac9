//! What holds over successive batches.

use vstd::prelude::*;

use crate::motion_sense::laws::{
    anchored_time_is_bounded, batch_keeps_times, emit_below_keeps_count, last_after_grows,
    last_after_is_bounded, losses_are_reported_once, no_time_after, reported_losses,
    samples_are_never_in_the_future, shape_ok, vectors_add_at_most_one_each,
};
use crate::motion_sense::processor::{
    anchored_time, batch_error, event_flags, kind_of, new_batch, sample_events, total, vector_time,
    whole_batch, BatchView, Marker, OutputEvent, ProcessorView, Vector, VectorKind,
};

verus! {

/// What one batch brings.
pub struct Call {
    pub arrival: u64,
    pub anchor: u32,
    pub total_lost: u16,
    pub lost: Seq<u16>,
    pub vectors: Seq<Vector>,
}

/// The losses of a batch that no sensor accounts for.
pub open spec fn unattributed(call: Call) -> int {
    call.total_lost - total(call.lost)
}

/// What a batch comes to.
pub open spec fn outcome(processor: ProcessorView, call: Call) -> BatchView {
    whole_batch(
        processor,
        call.arrival,
        call.anchor,
        call.total_lost,
        call.lost,
        call.vectors,
    )
}

/// A batch after its first `n` vectors.
pub open spec fn partial(processor: ProcessorView, call: Call, n: int) -> BatchView {
    new_batch(processor.with_losses(call.lost, unattributed(call))).vectors(
        call.arrival,
        call.anchor,
        call.vectors,
        n,
        unattributed(call) != 0,
    )
}

/// The processor after some batches.
pub open spec fn after(processor: ProcessorView, calls: Seq<Call>) -> ProcessorView
    decreases calls.len(),
{
    if calls.len() == 0 {
        processor
    } else {
        outcome(after(processor, calls.drop_last()), calls.last()).processor
    }
}

/// The events of batch `k`.
pub open spec fn events_of(processor: ProcessorView, calls: Seq<Call>, k: int) -> Seq<OutputEvent> {
    outcome(after(processor, calls.take(k)), calls[k]).events
}

/// No batch is refused.
pub open spec fn accepted(processor: ProcessorView, calls: Seq<Call>) -> bool {
    forall|k: int|
        #![trigger calls[k]]
        0 <= k < calls.len() ==> batch_error(
            after(processor, calls.take(k)),
            calls[k].total_lost,
            calls[k].lost,
        ) is None
}

/// A processor that has seen no batch.
pub open spec fn is_new(processor: ProcessorView) -> bool {
    &&& processor.wf()
    &&& processor.states.len() <= usize::MAX
    &&& forall|s: int|
        #![trigger processor.states[s]]
        0 <= s < processor.states.len() ==> processor.states[s].last_timestamp_ns is None
            && processor.states[s].pending_lost == 0
    &&& forall|s: int|
        #![trigger processor.next[s]]
        0 <= s < processor.next.len() ==> processor.next[s] is None
}

proof fn outcome_keeps_shape(processor: ProcessorView, call: Call)
    requires
        processor.wf(),
        processor.states.len() <= usize::MAX,
    ensures
        outcome(processor, call).processor.wf(),
        outcome(processor, call).processor.states.len() == processor.states.len(),
        shape_ok(partial(processor, call, call.vectors.len() as int)),
        partial(processor, call, call.vectors.len() as int).processor.states.len()
            == processor.states.len(),
{
    let forced = unattributed(call) != 0;
    let start = new_batch(processor.with_losses(call.lost, unattributed(call)));
    let count = call.vectors.len() as int;
    vectors_add_at_most_one_each(start, call.arrival, call.anchor, call.vectors, count, forced);
    emit_below_keeps_count(
        partial(processor, call, count),
        processor.states.len() as int,
        Marker { time: call.arrival, approximate: true, forced },
    );
}

proof fn history_keeps_shape(processor: ProcessorView, calls: Seq<Call>)
    requires
        processor.wf(),
        processor.states.len() <= usize::MAX,
    ensures
        after(processor, calls).wf(),
        after(processor, calls).states.len() == processor.states.len(),
    decreases calls.len(),
{
    if calls.len() > 0 {
        history_keeps_shape(processor, calls.drop_last());
        outcome_keeps_shape(after(processor, calls.drop_last()), calls.last());
    }
}

proof fn next_batch(processor: ProcessorView, calls: Seq<Call>, k: int)
    requires
        0 <= k < calls.len(),
    ensures
        after(processor, calls.take(k + 1)) == outcome(
            after(processor, calls.take(k)),
            calls[k],
        ).processor,
{
    assert(calls.take(k + 1).drop_last() =~= calls.take(k));
    assert(calls.take(k + 1).last() == calls[k]);
}

proof fn earlier_batches_are_accepted(processor: ProcessorView, calls: Seq<Call>)
    requires
        accepted(processor, calls),
        calls.len() > 0,
    ensures
        accepted(processor, calls.drop_last()),
        batch_error(
            after(processor, calls.drop_last()),
            calls.last().total_lost,
            calls.last().lost,
        ) is None,
{
    let earlier = calls.drop_last();
    assert forall|k: int|
        #![trigger earlier[k]]
        0 <= k < earlier.len() implies batch_error(
        after(processor, earlier.take(k)),
        earlier[k].total_lost,
        earlier[k].lost,
    ) is None by {
        assert(earlier.take(k) =~= calls.take(k));
        assert(earlier[k] == calls[k]);
    }
    assert(calls[calls.len() - 1] == calls.last());
    assert(calls.take(calls.len() - 1) =~= earlier);
}

// Times.

/// What a processor remembers does not lie after a limit that no arrival so far
/// exceeds.
proof fn known_times_have_passed(processor: ProcessorView, calls: Seq<Call>, limit: u64)
    requires
        is_new(processor),
        accepted(processor, calls),
        forall|k: int|
            #![trigger calls[k]]
            0 <= k < calls.len() ==> calls[k].arrival <= limit,
    ensures
        no_time_after(new_batch(after(processor, calls)), limit as int),
    decreases calls.len(),
{
    if calls.len() > 0 {
        let earlier = calls.drop_last();
        let last = calls.last();
        assert(calls[calls.len() - 1] == last);
        assert forall|k: int|
            #![trigger earlier[k]]
            0 <= k < earlier.len() implies earlier[k].arrival <= limit by {
            assert(earlier[k] == calls[k]);
        }
        earlier_batches_are_accepted(processor, calls);
        known_times_have_passed(processor, earlier, limit);
        history_keeps_shape(processor, earlier);
        batch_keeps_times(
            after(processor, earlier),
            last.arrival,
            last.anchor,
            last.total_lost,
            last.lost,
            last.vectors,
            limit,
        );
        let end = outcome(after(processor, earlier), last);
        let known = new_batch(after(processor, calls));
        assert(end.processor == known.processor);
        assert forall|s: int|
            #![trigger known.processor.states[s]]
            0 <= s < known.processor.states.len() implies (
        known.processor.states[s].last_timestamp_ns matches Some(t) ==> t <= limit) by {
            assert(end.processor.states[s].last_timestamp_ns matches Some(t) ==> t <= limit);
        }
        assert forall|s: int|
            #![trigger known.processor.next[s]]
            0 <= s < known.processor.next.len() implies (known.processor.next[s] matches Some(t)
            ==> t <= limit) by {
            assert(end.processor.next[s] matches Some(t) ==> t <= limit);
        }
    }
}

/// No event of a batch is dated after its arrival, where no batch before it
/// arrived later.
pub proof fn no_batch_is_in_the_future(processor: ProcessorView, calls: Seq<Call>, k: int, i: int)
    requires
        is_new(processor),
        0 <= k < calls.len(),
        accepted(processor, calls.take(k + 1)),
        forall|m: int|
            #![trigger calls[m]]
            0 <= m < k ==> calls[m].arrival <= calls[k].arrival,
        0 <= i < events_of(processor, calls, k).len(),
    ensures
        events_of(processor, calls, k)[i].timestamp_ns <= calls[k].arrival,
{
    let so_far = calls.take(k + 1);
    let earlier = calls.take(k);
    assert(so_far.drop_last() =~= earlier);
    assert(so_far.last() == calls[k]);
    earlier_batches_are_accepted(processor, so_far);
    assert forall|m: int|
        #![trigger earlier[m]]
        0 <= m < earlier.len() implies earlier[m].arrival <= calls[k].arrival by {
        assert(earlier[m] == calls[m]);
    }
    known_times_have_passed(processor, earlier, calls[k].arrival);
    history_keeps_shape(processor, earlier);
    let call = calls[k];
    samples_are_never_in_the_future(
        after(processor, earlier),
        call.arrival,
        call.anchor,
        call.total_lost,
        call.lost,
        call.vectors,
    );
    assert(outcome(after(processor, earlier), call).events[i].timestamp_ns <= call.arrival);
}

/// The events of a sensor from `from` on do not lie after its last time, and,
/// where there is a floor, neither they nor its last time lie below it.
pub open spec fn follows(b: BatchView, sensor: int, from: int, floor: Option<u64>) -> bool {
    &&& shape_ok(b)
    &&& 0 <= sensor < b.processor.states.len()
    &&& 0 <= from <= b.events.len()
    &&& floor matches Some(t) ==> {
        &&& b.processor.states[sensor].last_timestamp_ns matches Some(last)
        &&& t <= last
    }
    &&& forall|i: int|
        #![trigger b.events[i]]
        from <= i < b.events.len() && b.events[i].sensor == sensor ==> {
            &&& b.processor.states[sensor].last_timestamp_ns matches Some(last)
            &&& b.events[i].timestamp_ns <= last
            &&& floor matches Some(t) ==> t <= b.events[i].timestamp_ns
        }
}

/// A vector that changes the rate of a sensor.
pub open spec fn changes_rate(vector: Vector, sensor: int) -> bool {
    kind_of(vector.flags) == VectorKind::Odr && vector.sensor == sensor
}

/// No vector from `from` on changes the rate of a sensor.
pub open spec fn keeps_rate(vectors: Seq<Vector>, sensor: int, from: int) -> bool {
    forall|i: int|
        #![trigger vectors[i]]
        from <= i < vectors.len() ==> !changes_rate(vectors[i], sensor)
}

proof fn emit_follows(
    b: BatchView,
    at: int,
    marker: Marker,
    sensor: int,
    from: int,
    floor: Option<u64>,
)
    requires
        follows(b, sensor, from, floor),
        0 <= at < b.processor.states.len(),
    ensures
        follows(b.emit(at, marker), sensor, from, floor),
{
    let start = b.processor.states[at];
    let samples = b.pending[at];
    let count = samples.len() as int;
    let fresh = sample_events(start, at, samples, marker);
    let end = b.emit(at, marker);
    let known = b.events.len() as int;
    last_after_grows(start, marker, count, 0, count);
    assert forall|i: int|
        #![trigger end.events[i]]
        from <= i < end.events.len() && end.events[i].sensor == sensor implies {
        &&& end.processor.states[sensor].last_timestamp_ns matches Some(last)
        &&& end.events[i].timestamp_ns <= last
        &&& floor matches Some(t) ==> t <= end.events[i].timestamp_ns
    } by {
        if i < known {
            assert(end.events[i] == b.events[i]);
        } else {
            assert(end.events[i] == fresh[i - known]);
            last_after_is_bounded(start, marker, count, i - known + 1, u64::MAX as int);
            last_after_grows(start, marker, count, 0, i - known + 1);
            last_after_grows(start, marker, count, i - known + 1, count);
        }
    }
}

proof fn report_follows(
    b: BatchView,
    at: int,
    time: int,
    values: [i32; 3],
    flags: u32,
    flush: bool,
    sensor: int,
    from: int,
    floor: Option<u64>,
)
    requires
        follows(b, sensor, from, floor),
        0 <= at < b.processor.states.len(),
        0 <= time <= u64::MAX,
    ensures
        follows(b.report(at, time, values, flags, flush), sensor, from, floor),
{
    let end = b.report(at, time, values, flags, flush);
    assert forall|i: int|
        #![trigger end.events[i]]
        from <= i < end.events.len() && end.events[i].sensor == sensor implies {
        &&& end.processor.states[sensor].last_timestamp_ns matches Some(last)
        &&& end.events[i].timestamp_ns <= last
        &&& floor matches Some(t) ==> t <= end.events[i].timestamp_ns
    } by {
        if i < b.events.len() {
            assert(end.events[i] == b.events[i]);
        }
    }
}

proof fn emit_below_follows(
    b: BatchView,
    count: int,
    marker: Marker,
    sensor: int,
    from: int,
    floor: Option<u64>,
)
    requires
        follows(b, sensor, from, floor),
        count <= b.processor.states.len(),
    ensures
        follows(b.emit_below(count, marker), sensor, from, floor),
        b.emit_below(count, marker).processor.states.len() == b.processor.states.len(),
    decreases count,
{
    if count > 0 {
        emit_below_follows(b, count - 1, marker, sensor, from, floor);
        if b.processor.present[count - 1] {
            emit_follows(b.emit_below(count - 1, marker), count - 1, marker, sensor, from, floor);
        }
    }
}

/// The same, for a batch with other times to come.
proof fn waiting_follows(a: BatchView, b: BatchView, sensor: int, from: int, floor: Option<u64>)
    requires
        follows(a, sensor, from, floor),
        shape_ok(b),
        b.processor.states.len() == a.processor.states.len(),
        b.processor.states[sensor] == a.processor.states[sensor],
        b.events == a.events,
    ensures
        follows(b, sensor, from, floor),
{
}

proof fn vector_follows(
    b: BatchView,
    arrival: u64,
    anchor: u32,
    vector: Vector,
    forced: bool,
    sensor: int,
    from: int,
    floor: Option<u64>,
)
    requires
        follows(b, sensor, from, floor),
        !changes_rate(vector, sensor),
    ensures
        follows(b.vector(arrival, anchor, vector, forced), sensor, from, floor),
        b.vector(arrival, anchor, vector, forced).processor.states.len()
            == b.processor.states.len(),
{
    let at = vector.sensor as int;
    let time = anchored_time(arrival, anchor, vector_time(vector) as u32);
    anchored_time_is_bounded(arrival, anchor, vector_time(vector) as u32);
    let exact = Marker { time: time as u64, approximate: false, forced };
    let late = Marker { time: arrival, approximate: true, forced };
    let end = b.vector(arrival, anchor, vector, forced);
    match kind_of(vector.flags) {
        VectorKind::Timestamp => {
            if b.processor.tight && b.processor.reports(at) {
                emit_follows(b, at, late, sensor, from, floor);
                waiting_follows(b.emit(at, late), end, sensor, from, floor);
            } else {
                emit_below_follows(
                    b,
                    b.processor.states.len() as int,
                    exact,
                    sensor,
                    from,
                    floor,
                );
            }
        },
        VectorKind::Sample => {
            if b.processor.reports(at) && b.processor.tight && b.processor.next[at] is Some {
                let taken = b.with_next(at, None);
                waiting_follows(b, taken, sensor, from, floor);
                let flags: u32 = if vector.flags as int / 4 % 2 == 1 {
                    4
                } else {
                    0
                };
                report_follows(
                    taken,
                    at,
                    b.processor.next[at]->Some_0 as int,
                    vector.values,
                    event_flags(flags, forced),
                    false,
                    sensor,
                    from,
                    floor,
                );
            } else {
                waiting_follows(b, end, sensor, from, floor);
            }
        },
        VectorKind::Flush => {
            if b.processor.reports(at) {
                emit_follows(b, at, exact, sensor, from, floor);
                report_follows(
                    b.emit(at, exact),
                    at,
                    time,
                    [0i32, 0i32, 0i32],
                    event_flags(0, forced),
                    true,
                    sensor,
                    from,
                    floor,
                );
            } else {
                waiting_follows(b, end, sensor, from, floor);
            }
        },
        VectorKind::Odr => {
            if b.processor.reports(at) {
                emit_follows(b, at, exact, sensor, from, floor);
                waiting_follows(b.emit(at, exact), end, sensor, from, floor);
            } else {
                waiting_follows(b, end, sensor, from, floor);
            }
        },
        _ => {
            waiting_follows(b, end, sensor, from, floor);
        },
    }
}

proof fn vectors_follow(
    b: BatchView,
    arrival: u64,
    anchor: u32,
    vectors: Seq<Vector>,
    m: int,
    n: int,
    forced: bool,
    sensor: int,
    from: int,
    floor: Option<u64>,
)
    requires
        0 <= m <= n <= vectors.len(),
        follows(b.vectors(arrival, anchor, vectors, m, forced), sensor, from, floor),
        keeps_rate(vectors, sensor, m),
    ensures
        follows(b.vectors(arrival, anchor, vectors, n, forced), sensor, from, floor),
        b.vectors(arrival, anchor, vectors, n, forced).processor.states.len() == b.vectors(
            arrival,
            anchor,
            vectors,
            m,
            forced,
        ).processor.states.len(),
    decreases n,
{
    if m < n {
        vectors_follow(b, arrival, anchor, vectors, m, n - 1, forced, sensor, from, floor);
        assert(!changes_rate(vectors[n - 1], sensor));
        vector_follows(
            b.vectors(arrival, anchor, vectors, n - 1, forced),
            arrival,
            anchor,
            vectors[n - 1],
            forced,
            sensor,
            from,
            floor,
        );
    }
}

/// From the vectors behind the first `m` to the end of a batch.
proof fn rest_follows(
    processor: ProcessorView,
    call: Call,
    m: int,
    sensor: int,
    from: int,
    floor: Option<u64>,
)
    requires
        processor.wf(),
        processor.states.len() <= usize::MAX,
        0 <= m <= call.vectors.len(),
        follows(partial(processor, call, m), sensor, from, floor),
        keeps_rate(call.vectors, sensor, m),
    ensures
        follows(outcome(processor, call), sensor, from, floor),
{
    let forced = unattributed(call) != 0;
    let start = new_batch(processor.with_losses(call.lost, unattributed(call)));
    let count = call.vectors.len() as int;
    vectors_follow(
        start,
        call.arrival,
        call.anchor,
        call.vectors,
        m,
        count,
        forced,
        sensor,
        from,
        floor,
    );
    outcome_keeps_shape(processor, call);
    emit_below_follows(
        partial(processor, call, count),
        processor.states.len() as int,
        Marker { time: call.arrival, approximate: true, forced },
        sensor,
        from,
        floor,
    );
}

proof fn partial_keeps_shape(processor: ProcessorView, call: Call, m: int)
    requires
        processor.wf(),
        processor.states.len() <= usize::MAX,
        0 <= m,
    ensures
        shape_ok(partial(processor, call, m)),
        partial(processor, call, m).processor.states.len() == processor.states.len(),
{
    let start = new_batch(processor.with_losses(call.lost, unattributed(call)));
    vectors_add_at_most_one_each(
        start,
        call.arrival,
        call.anchor,
        call.vectors,
        m,
        unattributed(call) != 0,
    );
}

/// A batch gives a sensor no reason to start anew: nothing of it was lost,
/// nothing was lost that could be its own, and its rate stays.
pub open spec fn undisturbed(call: Call, sensor: int) -> bool {
    &&& call.lost[sensor] == 0
    &&& unattributed(call) == 0
    &&& keeps_rate(call.vectors, sensor, 0)
}

proof fn undisturbed_batch_follows(
    processor: ProcessorView,
    call: Call,
    sensor: int,
    floor: u64,
)
    requires
        processor.wf(),
        processor.states.len() <= usize::MAX,
        0 <= sensor < processor.states.len(),
        undisturbed(call, sensor),
        processor.states[sensor].last_timestamp_ns matches Some(last) && floor <= last,
    ensures
        follows(outcome(processor, call), sensor, 0, Some(floor)),
{
    partial_keeps_shape(processor, call, 0);
    assert(follows(partial(processor, call, 0), sensor, 0, Some(floor)));
    rest_follows(processor, call, 0, sensor, 0, Some(floor));
}

proof fn floor_is_kept(
    processor: ProcessorView,
    calls: Seq<Call>,
    a: int,
    k: int,
    sensor: int,
    floor: u64,
)
    requires
        processor.wf(),
        processor.states.len() <= usize::MAX,
        0 <= sensor < processor.states.len(),
        0 <= a < k <= calls.len(),
        forall|m: int|
            #![trigger calls[m]]
            a < m < k ==> undisturbed(calls[m], sensor),
        after(processor, calls.take(a + 1)).states[sensor].last_timestamp_ns matches Some(last)
            && floor <= last,
    ensures
        after(processor, calls.take(k)).states[sensor].last_timestamp_ns matches Some(last)
            && floor <= last,
    decreases k,
{
    if k > a + 1 {
        floor_is_kept(processor, calls, a, k - 1, sensor, floor);
        history_keeps_shape(processor, calls.take(k - 1));
        assert(undisturbed(calls[k - 1], sensor));
        undisturbed_batch_follows(
            after(processor, calls.take(k - 1)),
            calls[k - 1],
            sensor,
            floor,
        );
        next_batch(processor, calls, k - 1);
    }
}

/// Times do not fall from batch to batch. Of event `i` of batch `a` it is said
/// that it came out behind the first `n` vectors, and that none of the others
/// changes the rate of its sensor. Then no event of that sensor in a later
/// batch `b` is dated before it, unless the sensor started anew in between or
/// in batch `b`: after a loss of its own, an unattributed loss or a change of
/// rate.
pub proof fn times_do_not_fall_between_batches(
    processor: ProcessorView,
    calls: Seq<Call>,
    a: int,
    n: int,
    i: int,
    b: int,
    j: int,
)
    requires
        processor.wf(),
        processor.states.len() <= usize::MAX,
        accepted(processor, calls),
        0 <= a < b < calls.len(),
        0 <= n <= calls[a].vectors.len(),
        partial(after(processor, calls.take(a)), calls[a], n).events.len() <= i < events_of(
            processor,
            calls,
            a,
        ).len(),
        0 <= j < events_of(processor, calls, b).len(),
        events_of(processor, calls, a)[i].sensor == events_of(processor, calls, b)[j].sensor,
        events_of(processor, calls, a)[i].sensor < processor.states.len(),
        keeps_rate(calls[a].vectors, events_of(processor, calls, a)[i].sensor as int, n),
        forall|m: int|
            #![trigger calls[m]]
            a < m <= b ==> undisturbed(calls[m], events_of(processor, calls, a)[i].sensor as int),
    ensures
        events_of(processor, calls, a)[i].timestamp_ns <= events_of(
            processor,
            calls,
            b,
        )[j].timestamp_ns,
{
    let event = events_of(processor, calls, a)[i];
    let sensor = event.sensor as int;
    let before = after(processor, calls.take(a));
    history_keeps_shape(processor, calls.take(a));
    partial_keeps_shape(before, calls[a], n);
    let from = partial(before, calls[a], n).events.len() as int;
    assert(follows(partial(before, calls[a], n), sensor, from, None));
    rest_follows(before, calls[a], n, sensor, from, None);
    assert(outcome(before, calls[a]).events[i] == event);
    next_batch(processor, calls, a);
    floor_is_kept(processor, calls, a, b, sensor, event.timestamp_ns);
    history_keeps_shape(processor, calls.take(b));
    assert(undisturbed(calls[b], sensor));
    undisturbed_batch_follows(
        after(processor, calls.take(b)),
        calls[b],
        sensor,
        event.timestamp_ns,
    );
    assert(outcome(after(processor, calls.take(b)), calls[b]).events[j].sensor == sensor);
}

// Losses.

/// A sensor that has an event owes no loss, and only its first event reports
/// one.
pub open spec fn told_at_first(b: BatchView) -> bool {
    &&& forall|i: int|
        #![trigger b.events[i]]
        0 <= i < b.events.len() ==> {
            &&& b.events[i].sensor < b.processor.states.len()
            &&& b.processor.states[b.events[i].sensor as int].pending_lost == 0
        }
    &&& forall|i: int, j: int|
        #![trigger b.events[i], b.events[j]]
        0 <= i < j < b.events.len() && b.events[i].sensor == b.events[j].sensor
            ==> b.events[j].lost == 0
}

proof fn emit_tells_at_first(b: BatchView, at: int, marker: Marker)
    requires
        shape_ok(b),
        told_at_first(b),
        0 <= at < b.processor.states.len(),
    ensures
        shape_ok(b.emit(at, marker)),
        told_at_first(b.emit(at, marker)),
{
    let start = b.processor.states[at];
    let fresh = sample_events(start, at, b.pending[at], marker);
    let end = b.emit(at, marker);
    let known = b.events.len() as int;
    assert forall|i: int|
        #![trigger end.events[i]]
        0 <= i < end.events.len() implies {
        &&& end.events[i].sensor < end.processor.states.len()
        &&& end.processor.states[end.events[i].sensor as int].pending_lost == 0
    } by {
        if i < known {
            assert(end.events[i] == b.events[i]);
        } else {
            assert(end.events[i] == fresh[i - known]);
        }
    }
    assert forall|i: int, j: int|
        #![trigger end.events[i], end.events[j]]
        0 <= i < j < end.events.len() && end.events[i].sensor
            == end.events[j].sensor implies end.events[j].lost == 0 by {
        if j < known {
            assert(end.events[i] == b.events[i]);
            assert(end.events[j] == b.events[j]);
        } else {
            assert(end.events[j] == fresh[j - known]);
            if i < known {
                assert(end.events[i] == b.events[i]);
                assert(start.pending_lost == 0);
            }
        }
    }
}

proof fn report_tells_at_first(
    b: BatchView,
    at: int,
    time: int,
    values: [i32; 3],
    flags: u32,
    flush: bool,
)
    requires
        shape_ok(b),
        told_at_first(b),
        0 <= at < b.processor.states.len(),
    ensures
        shape_ok(b.report(at, time, values, flags, flush)),
        told_at_first(b.report(at, time, values, flags, flush)),
{
    let end = b.report(at, time, values, flags, flush);
    let known = b.events.len() as int;
    assert forall|i: int|
        #![trigger end.events[i]]
        0 <= i < end.events.len() implies {
        &&& end.events[i].sensor < end.processor.states.len()
        &&& end.processor.states[end.events[i].sensor as int].pending_lost == 0
    } by {
        if i < known {
            assert(end.events[i] == b.events[i]);
        }
    }
    assert forall|i: int, j: int|
        #![trigger end.events[i], end.events[j]]
        0 <= i < j < end.events.len() && end.events[i].sensor
            == end.events[j].sensor implies end.events[j].lost == 0 by {
        assert(end.events[i] == b.events[i]);
        if j < known {
            assert(end.events[j] == b.events[j]);
        }
    }
}

proof fn emit_below_tells_at_first(b: BatchView, count: int, marker: Marker)
    requires
        shape_ok(b),
        told_at_first(b),
        count <= b.processor.states.len(),
    ensures
        shape_ok(b.emit_below(count, marker)),
        told_at_first(b.emit_below(count, marker)),
        b.emit_below(count, marker).processor.states.len() == b.processor.states.len(),
    decreases count,
{
    if count > 0 {
        emit_below_tells_at_first(b, count - 1, marker);
        if b.processor.present[count - 1] {
            emit_tells_at_first(b.emit_below(count - 1, marker), count - 1, marker);
        }
    }
}

proof fn vector_tells_at_first(
    b: BatchView,
    arrival: u64,
    anchor: u32,
    vector: Vector,
    forced: bool,
)
    requires
        shape_ok(b),
        told_at_first(b),
    ensures
        shape_ok(b.vector(arrival, anchor, vector, forced)),
        told_at_first(b.vector(arrival, anchor, vector, forced)),
        b.vector(arrival, anchor, vector, forced).processor.states.len()
            == b.processor.states.len(),
{
    let at = vector.sensor as int;
    let time = anchored_time(arrival, anchor, vector_time(vector) as u32);
    let exact = Marker { time: time as u64, approximate: false, forced };
    let late = Marker { time: arrival, approximate: true, forced };
    let end = b.vector(arrival, anchor, vector, forced);
    match kind_of(vector.flags) {
        VectorKind::Timestamp => {
            if b.processor.tight && b.processor.reports(at) {
                emit_tells_at_first(b, at, late);
                let closed = b.emit(at, late);
                assert(end.events == closed.events);
                assert(told_at_first(end));
            } else {
                emit_below_tells_at_first(b, b.processor.states.len() as int, exact);
            }
        },
        VectorKind::Sample => {
            if b.processor.reports(at) && b.processor.tight && b.processor.next[at] is Some {
                let taken = b.with_next(at, None);
                assert(told_at_first(taken));
                let flags: u32 = if vector.flags as int / 4 % 2 == 1 {
                    4
                } else {
                    0
                };
                report_tells_at_first(
                    taken,
                    at,
                    b.processor.next[at]->Some_0 as int,
                    vector.values,
                    event_flags(flags, forced),
                    false,
                );
            } else {
                assert(told_at_first(end));
            }
        },
        VectorKind::Flush => {
            if b.processor.reports(at) {
                emit_tells_at_first(b, at, exact);
                report_tells_at_first(
                    b.emit(at, exact),
                    at,
                    time,
                    [0i32, 0i32, 0i32],
                    event_flags(0, forced),
                    true,
                );
            } else {
                assert(told_at_first(end));
            }
        },
        VectorKind::Odr => {
            if b.processor.reports(at) {
                emit_tells_at_first(b, at, exact);
                let closed = b.emit(at, exact);
                assert(end.events == closed.events);
                assert(told_at_first(end));
            } else {
                assert(told_at_first(end));
            }
        },
        _ => {
            assert(told_at_first(end));
        },
    }
}

proof fn vectors_tell_at_first(
    b: BatchView,
    arrival: u64,
    anchor: u32,
    vectors: Seq<Vector>,
    n: int,
    forced: bool,
)
    requires
        shape_ok(b),
        told_at_first(b),
    ensures
        shape_ok(b.vectors(arrival, anchor, vectors, n, forced)),
        told_at_first(b.vectors(arrival, anchor, vectors, n, forced)),
        b.vectors(arrival, anchor, vectors, n, forced).processor.states.len()
            == b.processor.states.len(),
    decreases n,
{
    if n > 0 {
        vectors_tell_at_first(b, arrival, anchor, vectors, n - 1, forced);
        vector_tells_at_first(
            b.vectors(arrival, anchor, vectors, n - 1, forced),
            arrival,
            anchor,
            vectors[n - 1],
            forced,
        );
    }
}

/// In a batch only the first event of a sensor reports a loss, and after it the
/// sensor owes none.
pub proof fn the_first_event_reports_the_loss(processor: ProcessorView, call: Call)
    requires
        processor.wf(),
        processor.states.len() <= usize::MAX,
    ensures
        told_at_first(outcome(processor, call)),
{
    let forced = unattributed(call) != 0;
    let start = new_batch(processor.with_losses(call.lost, unattributed(call)));
    let count = call.vectors.len() as int;
    vectors_tell_at_first(start, call.arrival, call.anchor, call.vectors, count, forced);
    emit_below_tells_at_first(
        partial(processor, call, count),
        processor.states.len() as int,
        Marker { time: call.arrival, approximate: true, forced },
    );
}

/// The losses that the events of a sensor report over some batches.
pub open spec fn losses_reported(processor: ProcessorView, calls: Seq<Call>, sensor: int) -> int
    decreases calls.len(),
{
    if calls.len() == 0 {
        0
    } else {
        losses_reported(processor, calls.drop_last(), sensor) + reported_losses(
            outcome(after(processor, calls.drop_last()), calls.last()).events,
            sensor,
        )
    }
}

/// The losses of a sensor that some batches bring.
pub open spec fn losses_told(calls: Seq<Call>, sensor: int) -> int
    decreases calls.len(),
{
    if calls.len() == 0 {
        0
    } else {
        losses_told(calls.drop_last(), sensor) + calls.last().lost[sensor]
    }
}

proof fn reports_are_not_negative(events: Seq<OutputEvent>, sensor: int)
    ensures
        reported_losses(events, sensor) >= 0,
    decreases events.len(),
{
    if events.len() > 0 {
        reports_are_not_negative(events.drop_last(), sensor);
    }
}

/// Losses balance over batches: what the events of a sensor report, and what
/// it still owes after the last batch, is what the batches brought. Where the
/// last batch has an event of the sensor, nothing is owed.
pub proof fn losses_balance_over_batches(processor: ProcessorView, calls: Seq<Call>, sensor: int)
    requires
        is_new(processor),
        accepted(processor, calls),
        0 <= sensor < processor.states.len(),
        losses_told(calls, sensor) <= u32::MAX,
    ensures
        losses_reported(processor, calls, sensor) + after(
            processor,
            calls,
        ).states[sensor].pending_lost == losses_told(calls, sensor),
        losses_reported(processor, calls, sensor) >= 0,
        calls.len() > 0 && (exists|i: int|
            0 <= i < events_of(processor, calls, calls.len() - 1).len() && (#[trigger] events_of(
                processor,
                calls,
                calls.len() - 1,
            )[i]).sensor == sensor) ==> losses_reported(processor, calls, sensor) == losses_told(
            calls,
            sensor,
        ),
    decreases calls.len(),
{
    if calls.len() > 0 {
        let earlier = calls.drop_last();
        let last = calls.last();
        let before = after(processor, earlier);
        earlier_batches_are_accepted(processor, calls);
        losses_balance_over_batches(processor, earlier, sensor);
        history_keeps_shape(processor, earlier);
        losses_are_reported_once(
            before,
            last.arrival,
            last.anchor,
            last.total_lost,
            last.lost,
            last.vectors,
            sensor,
        );
        let end = outcome(before, last);
        reports_are_not_negative(end.events, sensor);
        the_first_event_reports_the_loss(before, last);
        assert(calls.take(calls.len() - 1) =~= earlier);
        if exists|i: int|
            0 <= i < events_of(processor, calls, calls.len() - 1).len() && (#[trigger] events_of(
                processor,
                calls,
                calls.len() - 1,
            )[i]).sensor == sensor {
            let i = choose|i: int|
                0 <= i < events_of(processor, calls, calls.len() - 1).len() && (
                #[trigger] events_of(processor, calls, calls.len() - 1)[i]).sensor == sensor;
            assert(end.events[i].sensor == sensor);
        }
    }
}

} // verus!
