//! What becomes of every vector of a batch.

use vstd::prelude::*;

use crate::motion_sense::laws::shape_ok;
use crate::motion_sense::processor::{
    anchored_time, batch_error, event_flags, kind_of, new_batch, sample_events, total, vector_time,
    whole_batch, BatchView, Marker, OutputEvent, PendingSample, ProcessorView, Vector, VectorKind,
};

verus! {

/// The values of a sensor's samples among the events, in order.
pub open spec fn reported_values(events: Seq<OutputEvent>, sensor: int) -> Seq<[i32; 3]>
    decreases events.len(),
{
    if events.len() == 0 {
        Seq::empty()
    } else if events.last().sensor == sensor && !events.last().flush {
        reported_values(events.drop_last(), sensor).push(events.last().values)
    } else {
        reported_values(events.drop_last(), sensor)
    }
}

/// The values of a sensor's samples among the vectors, in order.
pub open spec fn sampled_values(vectors: Seq<Vector>, sensor: int) -> Seq<[i32; 3]>
    decreases vectors.len(),
{
    if vectors.len() == 0 {
        Seq::empty()
    } else if vectors.last().sensor == sensor && kind_of(vectors.last().flags)
        == VectorKind::Sample {
        sampled_values(vectors.drop_last(), sensor).push(vectors.last().values)
    } else {
        sampled_values(vectors.drop_last(), sensor)
    }
}

pub open spec fn waiting_values(samples: Seq<PendingSample>) -> Seq<[i32; 3]> {
    Seq::new(samples.len(), |i: int| samples[i].values)
}

/// How many events are flush markers.
pub open spec fn reported_flushes(events: Seq<OutputEvent>) -> int
    decreases events.len(),
{
    if events.len() == 0 {
        0
    } else {
        reported_flushes(events.drop_last()) + (if events.last().flush {
            1int
        } else {
            0
        })
    }
}

/// How many vectors are flush markers of sensors that are reported.
pub open spec fn requested_flushes(processor: ProcessorView, vectors: Seq<Vector>) -> int
    decreases vectors.len(),
{
    if vectors.len() == 0 {
        0
    } else {
        requested_flushes(processor, vectors.drop_last()) + (if kind_of(vectors.last().flags)
            == VectorKind::Flush && processor.reports(vectors.last().sensor as int) {
            1int
        } else {
            0
        })
    }
}

/// A vector that is discarded: an invalid one, or a sample, flush marker or
/// rate change of a sensor that is not reported.
pub open spec fn is_discarded(processor: ProcessorView, vector: Vector) -> bool {
    match kind_of(vector.flags) {
        VectorKind::Invalid => true,
        VectorKind::Timestamp => false,
        VectorKind::TabletMode => false,
        _ => !processor.reports(vector.sensor as int),
    }
}

/// How many vectors are discarded.
pub open spec fn discards(processor: ProcessorView, vectors: Seq<Vector>) -> int
    decreases vectors.len(),
{
    if vectors.len() == 0 {
        0
    } else {
        discards(processor, vectors.drop_last()) + (if is_discarded(processor, vectors.last()) {
            1int
        } else {
            0
        })
    }
}

/// Nothing is lost on the way: the samples reported and waiting are those of
/// the vectors so far, and flush markers and discards are counted.
pub open spec fn tallies(b: BatchView, processor: ProcessorView, vectors: Seq<Vector>) -> bool {
    &&& shape_ok(b)
    &&& b.processor.states.len() == processor.states.len()
    &&& b.processor.present == processor.present
    &&& forall|s: int|
        #![trigger b.pending[s]]
        processor.reports(s) ==> reported_values(b.events, s) + waiting_values(b.pending[s])
            == sampled_values(vectors, s)
    &&& forall|s: int|
        #![trigger b.processor.next[s]]
        processor.reports(s) && b.processor.tight && b.processor.next[s] is Some ==> b.pending[s]
            == Seq::<PendingSample>::empty()
    &&& reported_flushes(b.events) == requested_flushes(processor, vectors)
    &&& b.discarded == (if discards(processor, vectors) > u32::MAX {
        u32::MAX as int
    } else {
        discards(processor, vectors)
    })
    &&& forall|i: int|
        #![trigger b.events[i]]
        0 <= i < b.events.len() ==> processor.reports(b.events[i].sensor as int)
}

proof fn values_of_samples(
    events: Seq<OutputEvent>,
    fresh: Seq<OutputEvent>,
    samples: Seq<PendingSample>,
    owner: int,
    sensor: int,
)
    requires
        fresh.len() == samples.len(),
        forall|i: int|
            #![trigger fresh[i]]
            0 <= i < fresh.len() ==> fresh[i].sensor == owner && !fresh[i].flush && fresh[i].values
                == samples[i].values,
    ensures
        reported_values(events + fresh, sensor) == (if owner == sensor {
            reported_values(events, sensor) + waiting_values(samples)
        } else {
            reported_values(events, sensor)
        }),
        reported_flushes(events + fresh) == reported_flushes(events),
    decreases fresh.len(),
{
    if fresh.len() == 0 {
        assert(events + fresh =~= events);
        assert(reported_values(events, sensor) + waiting_values(samples) =~= reported_values(
            events,
            sensor,
        ));
    } else {
        let head = fresh.drop_last();
        let first = samples.drop_last();
        assert forall|i: int|
            #![trigger head[i]]
            0 <= i < head.len() implies head[i].sensor == owner && !head[i].flush && head[i].values
            == first[i].values by {
            assert(head[i] == fresh[i]);
        }
        values_of_samples(events, head, first, owner, sensor);
        assert((events + fresh).drop_last() =~= events + head);
        assert((events + fresh).last() == fresh[fresh.len() - 1]);
        assert(waiting_values(samples) =~= waiting_values(first).push(samples.last().values));
        assert(reported_values(events, sensor) + waiting_values(samples) =~= (reported_values(
            events,
            sensor,
        ) + waiting_values(first)).push(samples.last().values));
    }
}

proof fn emit_keeps_tallies(
    b: BatchView,
    at: int,
    marker: Marker,
    processor: ProcessorView,
    vectors: Seq<Vector>,
)
    requires
        tallies(b, processor, vectors),
        processor.reports(at),
    ensures
        tallies(b.emit(at, marker), processor, vectors),
        b.emit(at, marker).pending == b.pending.update(at, Seq::empty()),
{
    let start = b.processor.states[at];
    let samples = b.pending[at];
    let fresh = sample_events(start, at, samples, marker);
    let after = b.emit(at, marker);
    values_of_samples(b.events, fresh, samples, at, at);
    assert forall|s: int|
        #![trigger after.pending[s]]
        processor.reports(s) implies reported_values(after.events, s) + waiting_values(
        after.pending[s],
    ) == sampled_values(vectors, s) by {
        values_of_samples(b.events, fresh, samples, at, s);
        assert(reported_values(b.events, s) + waiting_values(b.pending[s]) == sampled_values(
            vectors,
            s,
        ));
        if s == at {
            assert(reported_values(after.events, s) + waiting_values(after.pending[s])
                =~= reported_values(after.events, s));
        }
    }
    assert forall|i: int|
        #![trigger after.events[i]]
        0 <= i < after.events.len() implies processor.reports(after.events[i].sensor as int) by {
        if i < b.events.len() {
            assert(after.events[i] == b.events[i]);
        } else {
            assert(after.events[i] == fresh[i - b.events.len()]);
        }
    }
}

proof fn emit_below_keeps_tallies(
    b: BatchView,
    count: int,
    marker: Marker,
    processor: ProcessorView,
    vectors: Seq<Vector>,
)
    requires
        tallies(b, processor, vectors),
        count <= b.processor.states.len(),
    ensures
        tallies(b.emit_below(count, marker), processor, vectors),
        forall|s: int|
            #![trigger b.emit_below(count, marker).pending[s]]
            0 <= s < count && processor.present[s] ==> b.emit_below(count, marker).pending[s]
                == Seq::<PendingSample>::empty(),
    decreases count,
{
    if count > 0 {
        emit_below_keeps_tallies(b, count - 1, marker, processor, vectors);
        let before = b.emit_below(count - 1, marker);
        let after = b.emit_below(count, marker);
        if b.processor.present[count - 1] {
            emit_keeps_tallies(before, count - 1, marker, processor, vectors);
        }
        assert forall|s: int|
            #![trigger after.pending[s]]
            0 <= s < count && processor.present[s] implies after.pending[s] == Seq::<
            PendingSample,
        >::empty() by {
            if s < count - 1 {
                assert(before.pending[s] == Seq::<PendingSample>::empty());
            }
        }
    }
}

/// The same tallies, for a batch that differs only in what the sensors
/// remember.
proof fn remembering_keeps_tallies(
    a: BatchView,
    b: BatchView,
    processor: ProcessorView,
    vectors: Seq<Vector>,
)
    requires
        tallies(a, processor, vectors),
        shape_ok(b),
        b.processor.states.len() == a.processor.states.len(),
        b.processor.present == a.processor.present,
        b.pending == a.pending,
        b.events == a.events,
        b.discarded == a.discarded,
        b.processor.tight == a.processor.tight,
        forall|s: int|
            #![trigger b.processor.next[s]]
            processor.reports(s) && b.processor.tight && b.processor.next[s] is Some
                && b.processor.next[s] != a.processor.next[s] ==> b.pending[s] == Seq::<
                PendingSample,
            >::empty(),
    ensures
        tallies(b, processor, vectors),
{
    assert forall|s: int|
        #![trigger b.pending[s]]
        processor.reports(s) implies reported_values(b.events, s) + waiting_values(b.pending[s])
        == sampled_values(vectors, s) by {
        assert(a.pending[s] == b.pending[s]);
    }
}

proof fn vector_is_tallied(
    b: BatchView,
    arrival: u64,
    anchor: u32,
    vectors: Seq<Vector>,
    n: int,
    forced: bool,
    processor: ProcessorView,
)
    requires
        0 <= n < vectors.len(),
        tallies(b, processor, vectors.take(n)),
    ensures
        tallies(
            b.vector(arrival, anchor, vectors[n], forced),
            processor,
            vectors.take(n + 1),
        ),
{
    let vector = vectors[n];
    let so_far = vectors.take(n);
    let next = vectors.take(n + 1);
    assert(next.drop_last() =~= so_far);
    assert(next.last() == vector);
    let at = vector.sensor as int;
    let time = anchored_time(arrival, anchor, vector_time(vector) as u32);
    let exact = Marker { time: time as u64, approximate: false, forced };
    let late = Marker { time: arrival, approximate: true, forced };
    let after = b.vector(arrival, anchor, vector, forced);
    assert(b.processor.reports(at) == processor.reports(at));
    match kind_of(vector.flags) {
        VectorKind::Timestamp => {
            if b.processor.tight && b.processor.reports(at) {
                emit_keeps_tallies(b, at, late, processor, so_far);
                remembering_keeps_tallies(b.emit(at, late), after, processor, so_far);
            } else {
                emit_below_keeps_tallies(
                    b,
                    b.processor.states.len() as int,
                    exact,
                    processor,
                    so_far,
                );
            }
            assert(tallies(after, processor, so_far));
            same_tallies(after, processor, so_far, next);
        },
        VectorKind::Sample => {
            if processor.reports(at) {
                sample_is_tallied(b, vector, forced, processor, so_far, next);
            } else {
                remembering_keeps_discards(b, after, processor, so_far, next);
            }
        },
        VectorKind::Flush => {
            if processor.reports(at) {
                emit_keeps_tallies(b, at, exact, processor, so_far);
                flush_is_tallied(
                    b.emit(at, exact),
                    at,
                    time,
                    event_flags(0, forced),
                    processor,
                    so_far,
                    next,
                );
            } else {
                remembering_keeps_discards(b, after, processor, so_far, next);
            }
        },
        VectorKind::Odr => {
            if processor.reports(at) {
                emit_keeps_tallies(b, at, exact, processor, so_far);
                remembering_keeps_tallies(b.emit(at, exact), after, processor, so_far);
                same_tallies(after, processor, so_far, next);
            } else {
                remembering_keeps_discards(b, after, processor, so_far, next);
            }
        },
        VectorKind::TabletMode => {
            same_tallies(after, processor, so_far, next);
        },
        VectorKind::Invalid => {
            remembering_keeps_discards(b, after, processor, so_far, next);
        },
    }
}

/// A vector that is neither a sample nor a flush marker nor discarded.
proof fn same_tallies(
    b: BatchView,
    processor: ProcessorView,
    so_far: Seq<Vector>,
    next: Seq<Vector>,
)
    requires
        tallies(b, processor, so_far),
        next.len() > 0,
        next.drop_last() == so_far,
        !is_discarded(processor, next.last()),
        kind_of(next.last().flags) != VectorKind::Sample,
        kind_of(next.last().flags) != VectorKind::Flush,
    ensures
        tallies(b, processor, next),
{
    assert forall|s: int|
        #![trigger b.pending[s]]
        processor.reports(s) implies reported_values(b.events, s) + waiting_values(b.pending[s])
        == sampled_values(next, s) by {
        assert(sampled_values(next, s) == sampled_values(so_far, s));
    }
}

proof fn remembering_keeps_discards(
    b: BatchView,
    after: BatchView,
    processor: ProcessorView,
    so_far: Seq<Vector>,
    next: Seq<Vector>,
)
    requires
        tallies(b, processor, so_far),
        next.len() > 0,
        next.drop_last() == so_far,
        is_discarded(processor, next.last()),
        after == b.discard(),
    ensures
        tallies(after, processor, next),
{
    let vector = next.last();
    assert forall|s: int|
        #![trigger after.pending[s]]
        processor.reports(s) implies reported_values(after.events, s) + waiting_values(
        after.pending[s],
    ) == sampled_values(next, s) by {
        assert(after.pending[s] == b.pending[s]);
        assert(sampled_values(next, s) == sampled_values(so_far, s));
    }
}

proof fn flush_is_tallied(
    b: BatchView,
    at: int,
    time: int,
    flags: u32,
    processor: ProcessorView,
    so_far: Seq<Vector>,
    next: Seq<Vector>,
)
    requires
        tallies(b, processor, so_far),
        processor.reports(at),
        next.len() > 0,
        next.drop_last() == so_far,
        kind_of(next.last().flags) == VectorKind::Flush,
        next.last().sensor == at,
    ensures
        tallies(b.report(at, time, [0i32, 0i32, 0i32], flags, true), processor, next),
{
    let after = b.report(at, time, [0i32, 0i32, 0i32], flags, true);
    assert(after.events.drop_last() =~= b.events);
    assert forall|s: int|
        #![trigger after.pending[s]]
        processor.reports(s) implies reported_values(after.events, s) + waiting_values(
        after.pending[s],
    ) == sampled_values(next, s) by {
        assert(after.pending[s] == b.pending[s]);
    }
    assert forall|i: int|
        #![trigger after.events[i]]
        0 <= i < after.events.len() implies processor.reports(after.events[i].sensor as int) by {
        if i < b.events.len() {
            assert(after.events[i] == b.events[i]);
        }
    }
}

proof fn sample_is_tallied(
    b: BatchView,
    vector: Vector,
    forced: bool,
    processor: ProcessorView,
    so_far: Seq<Vector>,
    next: Seq<Vector>,
)
    requires
        tallies(b, processor, so_far),
        processor.reports(vector.sensor as int),
        next.len() > 0,
        next.drop_last() == so_far,
        next.last() == vector,
        kind_of(vector.flags) == VectorKind::Sample,
    ensures
        tallies(b.sample(vector.sensor as int, vector, forced), processor, next),
{
    let at = vector.sensor as int;
    let after = b.sample(at, vector, forced);
    if b.processor.tight && b.processor.next[at] is Some {
        assert(after.events.drop_last() =~= b.events);
    }
    assert forall|s: int|
        #![trigger after.pending[s]]
        processor.reports(s) implies reported_values(after.events, s) + waiting_values(
        after.pending[s],
    ) == sampled_values(next, s) by {
        assert(reported_values(b.events, s) + waiting_values(b.pending[s]) == sampled_values(
            so_far,
            s,
        ));
        if s == at {
            if b.processor.tight && b.processor.next[at] is Some {
                assert(reported_values(after.events, s) + waiting_values(after.pending[s])
                    =~= (reported_values(b.events, s) + waiting_values(b.pending[s])).push(
                    vector.values,
                ));
            } else {
                assert(waiting_values(after.pending[s]) =~= waiting_values(b.pending[s]).push(
                    vector.values,
                ));
                assert(reported_values(after.events, s) + waiting_values(after.pending[s])
                    =~= (reported_values(b.events, s) + waiting_values(b.pending[s])).push(
                    vector.values,
                ));
            }
        }
    }
    assert forall|i: int|
        #![trigger after.events[i]]
        0 <= i < after.events.len() implies processor.reports(after.events[i].sensor as int) by {
        if i < b.events.len() {
            assert(after.events[i] == b.events[i]);
        }
    }
}

proof fn vectors_are_tallied(
    b: BatchView,
    arrival: u64,
    anchor: u32,
    vectors: Seq<Vector>,
    n: int,
    forced: bool,
    processor: ProcessorView,
)
    requires
        0 <= n <= vectors.len(),
        tallies(b, processor, Seq::empty()),
    ensures
        tallies(b.vectors(arrival, anchor, vectors, n, forced), processor, vectors.take(n)),
    decreases n,
{
    if n > 0 {
        vectors_are_tallied(b, arrival, anchor, vectors, n - 1, forced, processor);
        vector_is_tallied(
            b.vectors(arrival, anchor, vectors, n - 1, forced),
            arrival,
            anchor,
            vectors,
            n - 1,
            forced,
            processor,
        );
    } else {
        assert(vectors.take(0) =~= Seq::empty());
    }
}

/// Every vector is accounted for. The samples of a reported sensor come out
/// all, once and in order; every flush marker of a reported sensor comes out
/// once; what is discarded is counted, up to the largest count; and no other
/// sensor has an event.
pub proof fn every_vector_is_accounted_for(
    processor: ProcessorView,
    arrival: u64,
    anchor: u32,
    total_lost: u16,
    lost: Seq<u16>,
    vectors: Seq<Vector>,
)
    requires
        processor.wf(),
        processor.states.len() <= usize::MAX,
        batch_error(processor, total_lost, lost) is None,
    ensures
        ({
            let end = whole_batch(processor, arrival, anchor, total_lost, lost, vectors);
            &&& forall|s: int|
                #![trigger sampled_values(vectors, s)]
                processor.reports(s) ==> reported_values(end.events, s) == sampled_values(
                    vectors,
                    s,
                )
            &&& reported_flushes(end.events) == requested_flushes(processor, vectors)
            &&& end.discarded == (if discards(processor, vectors) > u32::MAX {
                u32::MAX as int
            } else {
                discards(processor, vectors)
            })
            &&& forall|i: int|
                #![trigger end.events[i]]
                0 <= i < end.events.len() ==> processor.reports(end.events[i].sensor as int)
        }),
{
    let unattributed = total_lost - total(lost);
    let forced = unattributed != 0;
    let start = new_batch(processor.with_losses(lost, unattributed));
    let count = vectors.len() as int;
    let states = processor.states.len() as int;
    let marker = Marker { time: arrival, approximate: true, forced };
    assert(tallies(start, processor, Seq::empty())) by {
        assert forall|s: int|
            #![trigger start.pending[s]]
            processor.reports(s) implies reported_values(start.events, s) + waiting_values(
            start.pending[s],
        ) == sampled_values(Seq::empty(), s) by {
            assert(reported_values(start.events, s) + waiting_values(start.pending[s])
                =~= Seq::empty());
        }
    }
    vectors_are_tallied(start, arrival, anchor, vectors, count, forced, processor);
    assert(vectors.take(count) =~= vectors);
    let all = start.vectors(arrival, anchor, vectors, count, forced);
    emit_below_keeps_tallies(all, states, marker, processor, vectors);
    let end = all.emit_below(states, marker);
    assert forall|s: int|
        #![trigger sampled_values(vectors, s)]
        processor.reports(s) implies reported_values(end.events, s) == sampled_values(
        vectors,
        s,
    ) by {
        assert(end.pending[s] == Seq::<PendingSample>::empty());
        assert(reported_values(end.events, s) + waiting_values(end.pending[s])
            =~= reported_values(end.events, s));
    }
}

} // verus!
