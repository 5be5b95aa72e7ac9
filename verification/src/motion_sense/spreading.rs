//! When the samples of a batch were taken.

use vstd::prelude::*;

use crate::motion_sense::processor::{
    anchored_time, kind_of, last_after, new_batch, not_before, sample_events, sample_period,
    saturated, state_after, total, vector_time, whole_batch, BatchView, Marker, OutputEvent,
    PendingSample, ProcessorView, SensorState, Vector, VectorKind,
};

verus! {

// Spreading.

proof fn shares_grow(span: int, count: int, i: int, j: int)
    requires
        0 <= span,
        0 < count,
        0 <= i <= j <= count,
    ensures
        0 <= span * i / count <= span * j / count <= span,
{
    assert(0 <= span * i <= span * j <= span * count) by (nonlinear_arith)
        requires
            0 <= span,
            0 <= i <= j <= count,
    ;
    assert(0 <= span * i / count <= span * j / count <= span) by (nonlinear_arith)
        requires
            0 <= span * i <= span * j <= span * count,
            0 < count,
    ;
}

proof fn spread_from_a_known_time(start: SensorState, marker: Marker, count: int, n: int)
    requires
        !marker.approximate,
        start.last_timestamp_ns is Some,
        1 <= n <= count,
        ({
            let p = start.last_timestamp_ns->Some_0;
            p <= marker.time ==> (marker.time - p) * count <= u64::MAX
        }),
    ensures
        ({
            let p = start.last_timestamp_ns->Some_0 as int;
            let m = marker.time as int;
            last_after(start, marker, count, n) matches Some(time) && time == if p <= m {
                p + (m - p) * n / count
            } else {
                p
            }
        }),
    decreases n,
{
    let p = start.last_timestamp_ns->Some_0 as int;
    let m = marker.time as int;
    let span = saturated(m - p);
    shares_grow(span, count, n - 1, n);
    shares_grow(span, count, n, count);
    assert(span * n <= span * count) by (nonlinear_arith)
        requires
            0 <= span,
            n <= count,
    ;
    assert(span * n >= 0) by (nonlinear_arith)
        requires
            0 <= span,
            0 <= n,
    ;
    assert(p > m ==> span * n == 0 && span * count == 0) by (nonlinear_arith)
        requires
            p > m ==> span == 0,
    ;
    if p > m {
        assert(span * n / count == 0) by (nonlinear_arith)
            requires
                span * n == 0,
                0 < count,
        ;
    }
    if n > 1 {
        spread_from_a_known_time(start, marker, count, n - 1);
    }
}

proof fn spread_without_a_known_time(start: SensorState, marker: Marker, count: int, n: int)
    requires
        !marker.approximate,
        start.last_timestamp_ns is None,
        1 <= n <= count,
    ensures
        ({
            let back = sample_period(start.odr_millihz) * (count - n);
            last_after(start, marker, count, n) matches Some(time) && time == if back
                <= marker.time {
                marker.time - back
            } else {
                0
            }
        }),
    decreases n,
{
    let period = sample_period(start.odr_millihz);
    assert(0 <= period) by {
        if start.odr_millihz != 0 {
            vstd::arithmetic::div_mod::lemma_div_pos_is_pos(
                1_000_000_000_000,
                start.odr_millihz as int,
            );
        }
    }
    assert(0 <= period * (count - n) <= period * (count - (n - 1))) by (nonlinear_arith)
        requires
            0 <= period,
            n <= count,
    ;
    if n > 1 {
        spread_without_a_known_time(start, marker, count, n - 1);
    }
}

/// Where an exact marker closes pending samples of a sensor whose last time is
/// known, the samples divide the way from that time to the marker evenly, and
/// the last of them is at the marker. A marker that is not later moves nothing.
/// So a later marker always brings the sensor's last time up to itself.
pub proof fn samples_divide_the_way_to_the_marker(
    start: SensorState,
    sensor: int,
    samples: Seq<PendingSample>,
    marker: Marker,
)
    requires
        !marker.approximate,
        samples.len() > 0,
        start.last_timestamp_ns matches Some(p) && (p <= marker.time ==> (marker.time - p)
            * samples.len() <= u64::MAX),
    ensures
        ({
            let events = sample_events(start, sensor, samples, marker);
            let p = start.last_timestamp_ns->Some_0 as int;
            let m = marker.time as int;
            let k = samples.len() as int;
            &&& events.len() == k
            &&& p <= m ==> forall|i: int|
                0 <= i < k ==> (#[trigger] events[i]).timestamp_ns == p + (m - p) * (i + 1) / k
            &&& p > m ==> forall|i: int|
                0 <= i < k ==> (#[trigger] events[i]).timestamp_ns == p
            &&& events[k - 1].timestamp_ns == if p <= m {
                m
            } else {
                p
            }
            &&& state_after(start, marker, k).last_timestamp_ns == Some(
                if p <= m {
                    marker.time
                } else {
                    start.last_timestamp_ns->Some_0
                },
            )
        }),
{
    let events = sample_events(start, sensor, samples, marker);
    let p = start.last_timestamp_ns->Some_0 as int;
    let m = marker.time as int;
    let k = samples.len() as int;
    assert forall|i: int| 0 <= i < k implies (#[trigger] events[i]).timestamp_ns == if p <= m {
        p + (m - p) * (i + 1) / k
    } else {
        p
    } by {
        spread_from_a_known_time(start, marker, k, i + 1);
    }
    spread_from_a_known_time(start, marker, k, k);
    if p <= m {
        assert((m - p) * k / k == m - p) by (nonlinear_arith)
            requires
                0 < k,
        ;
    }
    assert(events[k - 1].timestamp_ns == if p <= m {
        m
    } else {
        p
    });
}

/// Where an exact marker closes pending samples of a sensor whose last time is
/// not known, the last of them is at the marker and the others lie one sample
/// period apart before it, as far as there is time.
pub proof fn samples_lie_a_period_apart(
    start: SensorState,
    sensor: int,
    samples: Seq<PendingSample>,
    marker: Marker,
)
    requires
        !marker.approximate,
        samples.len() > 0,
        start.last_timestamp_ns is None,
    ensures
        ({
            let events = sample_events(start, sensor, samples, marker);
            let k = samples.len() as int;
            let period = if start.odr_millihz == 0 {
                0
            } else {
                1_000_000_000_000int / start.odr_millihz as int
            };
            &&& events.len() == k
            &&& forall|i: int|
                0 <= i < k && period * (k - 1 - i) <= marker.time ==> (
                #[trigger] events[i]).timestamp_ns + period * (k - 1 - i) == marker.time
            &&& forall|i: int|
                0 <= i < k && period * (k - 1 - i) > marker.time ==> (
                #[trigger] events[i]).timestamp_ns == 0
            &&& events[k - 1].timestamp_ns == marker.time
            &&& state_after(start, marker, k).last_timestamp_ns == Some(marker.time)
        }),
{
    let events = sample_events(start, sensor, samples, marker);
    let k = samples.len() as int;
    let period = sample_period(start.odr_millihz);
    assert forall|i: int| 0 <= i < k implies (#[trigger] events[i]).timestamp_ns == if period * (k
        - 1 - i) <= marker.time {
        marker.time - period * (k - 1 - i)
    } else {
        0
    } by {
        spread_without_a_known_time(start, marker, k, i + 1);
        assert(k - (i + 1) == k - 1 - i);
    }
    spread_without_a_known_time(start, marker, k, k);
    assert(period * (k - 1 - (k - 1)) == 0) by (nonlinear_arith);
    assert(events[k - 1].timestamp_ns == marker.time);
}

proof fn approximate_times_are_the_marker(start: SensorState, marker: Marker, count: int, n: int)
    requires
        marker.approximate,
        1 <= n,
    ensures
        last_after(start, marker, count, n) == Some(
            not_before(start.last_timestamp_ns, marker.time as int) as u64,
        ),
    decreases n,
{
    reveal_with_fuel(last_after, 2);
    if n > 1 {
        approximate_times_are_the_marker(start, marker, count, n - 1);
    }
}

/// Every sample says what was measured and how sure its time is. Samples that
/// only the arrival of their batch dates are all dated there, and not before the
/// sensor's last time.
pub proof fn samples_say_how_they_were_dated(
    start: SensorState,
    sensor: int,
    samples: Seq<PendingSample>,
    marker: Marker,
    i: int,
)
    requires
        0 <= i < samples.len(),
        0 <= sensor <= usize::MAX,
    ensures
        ({
            let event = sample_events(start, sensor, samples, marker)[i];
            &&& event.sensor == sensor
            &&& event.values == samples[i].values
            &&& !event.flush
            &&& event.flags & 8 != 0 <==> marker.approximate || marker.forced || samples[i].flags
                & 8 != 0
            &&& event.flags & !8u32 == samples[i].flags & !8u32
            &&& marker.approximate ==> event.timestamp_ns == match start.last_timestamp_ns {
                Some(p) if p > marker.time => p,
                _ => marker.time,
            }
            &&& event.lost == if i == 0 {
                start.pending_lost
            } else {
                0
            }
        }),
{
    let flags = samples[i].flags;
    assert((flags | 8) & 8 != 0 && (flags | 8) & !8u32 == flags & !8u32 && flags | 0 == flags)
        by (bit_vector);
    if marker.approximate {
        approximate_times_are_the_marker(start, marker, samples.len() as int, i + 1);
    }
}

// Markers.

/// A marker that lies `back` microseconds before the anchor, around the end of
/// the counter or not, is dated that long before the arrival, as far as there is
/// time. One that lies behind the anchor is dated at the arrival.
pub proof fn markers_keep_their_distance(arrival: u64, anchor: u32, distance: int)
    requires
        0 <= distance < 0x8000_0000,
    ensures
        ({
            let earlier = ((anchor - distance) % 0x1_0000_0000) as u32;
            let later = ((anchor + distance) % 0x1_0000_0000) as u32;
            &&& anchored_time(arrival, anchor, earlier) == if 1000 * distance <= arrival {
                arrival - 1000 * distance
            } else {
                0
            }
            &&& anchored_time(arrival, anchor, later) == arrival
        }),
{
}

/// The time of a marker is made of the low halves of its last two words, the
/// low half of the time first, whatever their signs.
pub proof fn marker_times_are_read_back(vector: Vector, time: u32)
    requires
        (vector.values@[1] - time) % 0x1_0000 == 0,
        (vector.values@[2] - time as int / 0x1_0000) % 0x1_0000 == 0,
    ensures
        vector_time(vector) == time,
{
}

/// Wake-up and bypass may annotate a sample and nothing else; every other kind
/// has one flag of its own and no second one.
pub proof fn kinds_have_one_flag(flags: u8)
    ensures
        kind_of(flags) == VectorKind::Sample <==> flags & 0x7b == 0,
        kind_of(flags) == VectorKind::Timestamp <==> flags == 0x02,
        kind_of(flags) == VectorKind::Flush <==> flags == 0x01,
        kind_of(flags) == VectorKind::Odr <==> flags == 0x10,
        kind_of(flags) == VectorKind::TabletMode <==> flags == 0x08,
{
    assert(flags & 0x7b == 0 <==> flags == 0 || flags == 4 || flags == 0x80 || flags == 0x84)
        by (bit_vector);
}

// Batches.

/// Nothing waits in any sensor but this one.
spec fn only_waits(b: BatchView, sensor: int) -> bool {
    &&& b.processor.wf()
    &&& b.pending.len() == b.processor.states.len()
    &&& forall|t: int|
        0 <= t < b.pending.len() && t != sensor ==> (#[trigger] b.pending[t]).len() == 0
}

proof fn one_sensor_is_emitted(b: BatchView, sensor: int, marker: Marker, count: int)
    requires
        only_waits(b, sensor),
        0 <= count <= b.processor.states.len(),
        0 <= sensor < b.processor.states.len(),
        b.processor.present[sensor],
    ensures
        ({
            let after = b.emit_below(count, marker);
            &&& after.processor.wf()
            &&& after.processor.states.len() == b.processor.states.len()
            &&& after.processor.present == b.processor.present
            &&& after.processor.tight == b.processor.tight
            &&& after.processor.next == b.processor.next
            &&& after.discarded == b.discarded
            &&& after.pending.len() == b.pending.len()
            &&& forall|t: int|
                0 <= t < after.pending.len() ==> #[trigger] after.pending[t] == if t < count
                    && b.processor.present[t] {
                    Seq::empty()
                } else {
                    b.pending[t]
                }
            &&& after.events == b.events + if sensor < count {
                sample_events(
                    b.processor.states[sensor],
                    sensor,
                    b.pending[sensor],
                    marker,
                )
            } else {
                Seq::empty()
            }
            &&& forall|t: int|
                0 <= t < after.processor.states.len() ==> #[trigger] after.processor.states[t]
                    == if t < count && b.processor.present[t] {
                    state_after(b.processor.states[t], marker, b.pending[t].len() as int)
                } else {
                    b.processor.states[t]
                }
        }),
    decreases count,
{
    if count > 0 {
        one_sensor_is_emitted(b, sensor, marker, count - 1);
        let before = b.emit_below(count - 1, marker);
        let after = b.emit_below(count, marker);
        if b.processor.present[count - 1] {
            assert(before.pending[count - 1] == b.pending[count - 1]);
            assert(before.processor.states[count - 1] == b.processor.states[count - 1]);
            let fresh = sample_events(
                b.processor.states[count - 1],
                count - 1,
                b.pending[count - 1],
                marker,
            );
            if count - 1 != sensor {
                assert(fresh =~= Seq::empty());
            }
            assert(after.events =~= b.events + if sensor < count {
                sample_events(b.processor.states[sensor], sensor, b.pending[sensor], marker)
            } else {
                Seq::empty()
            });
        }
    } else {
        assert(b.events =~= b.events + Seq::<OutputEvent>::empty());
    }
}

/// The samples that vectors carry.
pub open spec fn samples_of(vectors: Seq<Vector>) -> Seq<PendingSample> {
    Seq::new(
        vectors.len(),
        |i: int|
            PendingSample {
                values: vectors[i].values,
                flags: if vectors[i].flags as int / 4 % 2 == 1 {
                    4u32
                } else {
                    0u32
                },
            },
    )
}

proof fn samples_wait(
    b: BatchView,
    arrival: u64,
    anchor: u32,
    vectors: Seq<Vector>,
    n: int,
    forced: bool,
    sensor: int,
)
    requires
        only_waits(b, sensor),
        !b.processor.tight,
        b.processor.reports(sensor),
        b.pending[sensor].len() == 0,
        0 <= n <= vectors.len(),
        forall|i: int|
            0 <= i < n ==> (#[trigger] vectors[i]).sensor == sensor && kind_of(vectors[i].flags)
                == VectorKind::Sample,
    ensures
        ({
            let after = b.vectors(arrival, anchor, vectors, n, forced);
            &&& after.processor == b.processor
            &&& after.events == b.events
            &&& after.discarded == b.discarded
            &&& after.pending == b.pending.update(sensor, samples_of(vectors.take(n)))
        }),
    decreases n,
{
    if n > 0 {
        samples_wait(b, arrival, anchor, vectors, n - 1, forced, sensor);
        let before = b.vectors(arrival, anchor, vectors, n - 1, forced);
        assert(vectors[n - 1].sensor == sensor);
        assert(samples_of(vectors.take(n)) =~= samples_of(vectors.take(n - 1)).push(
            PendingSample {
                values: vectors[n - 1].values,
                flags: if vectors[n - 1].flags as int / 4 % 2 == 1 {
                    4u32
                } else {
                    0u32
                },
            },
        ));
        assert(b.vectors(arrival, anchor, vectors, n, forced).pending =~= b.pending.update(
            sensor,
            samples_of(vectors.take(n)),
        ));
    } else {
        assert(samples_of(vectors.take(0)) =~= b.pending[sensor]);
        assert(b.pending.update(sensor, samples_of(vectors.take(0))) =~= b.pending);
    }
}

proof fn no_losses_sum_to_nothing(lost: Seq<u16>)
    requires
        forall|i: int| 0 <= i < lost.len() ==> #[trigger] lost[i] == 0,
    ensures
        total(lost) == 0,
    decreases lost.len(),
{
    if lost.len() > 0 {
        let head = lost.drop_last();
        assert forall|i: int| 0 <= i < head.len() implies #[trigger] head[i] == 0 by {
            assert(head[i] == lost[i]);
        }
        no_losses_sum_to_nothing(head);
        assert(lost[lost.len() - 1] == 0);
    }
}

proof fn without_losses_nothing_changes(processor: ProcessorView, lost: Seq<u16>)
    requires
        processor.wf(),
        lost.len() == processor.states.len(),
        forall|i: int| 0 <= i < lost.len() ==> #[trigger] lost[i] == 0,
    ensures
        processor.with_losses(lost, 0) == processor,
{
    assert forall|i: int| 0 <= i < processor.states.len() implies #[trigger] processor.with_losses(
        lost,
        0,
    ).states[i] == processor.states[i] by {
        assert(lost[i] == 0);
    }
    assert forall|i: int| 0 <= i < processor.next.len() implies #[trigger] processor.with_losses(
        lost,
        0,
    ).next[i] == processor.next[i] by {
        assert(lost[i] == 0);
    }
    assert(processor.with_losses(lost, 0) =~= processor);
}

/// A batch without losses that brings some samples of one sensor and then a
/// timestamp gives one event for each sample, in order, and moves every reported
/// sensor up to the timestamp. Where the sensor's last time is known, the events
/// divide the way from there to the timestamp evenly.
pub proof fn a_closed_batch_is_spread_evenly(
    processor: ProcessorView,
    arrival: u64,
    anchor: u32,
    lost: Seq<u16>,
    samples: Seq<Vector>,
    marker: Vector,
    sensor: int,
)
    requires
        processor.wf(),
        processor.states.len() <= usize::MAX,
        !processor.tight,
        processor.reports(sensor),
        lost.len() == processor.states.len(),
        forall|i: int| 0 <= i < lost.len() ==> #[trigger] lost[i] == 0,
        samples.len() > 0,
        forall|i: int|
            0 <= i < samples.len() ==> (#[trigger] samples[i]).sensor == sensor && kind_of(
                samples[i].flags,
            ) == VectorKind::Sample,
        kind_of(marker.flags) == VectorKind::Timestamp,
    ensures
        ({
            let batch = whole_batch(processor, arrival, anchor, 0, lost, samples.push(marker));
            let m = anchored_time(arrival, anchor, vector_time(marker) as u32);
            let k = samples.len() as int;
            &&& batch.events.len() == k
            &&& batch.discarded == 0
            &&& forall|i: int|
                0 <= i < k ==> {
                    &&& (#[trigger] batch.events[i]).sensor == sensor
                    &&& batch.events[i].values == samples[i].values
                    &&& batch.events[i].flags == if samples[i].flags & 4 != 0 {
                        4u32
                    } else {
                        0u32
                    }
                    &&& !batch.events[i].flush
                }
            &&& match processor.states[sensor].last_timestamp_ns {
                Some(p) => p <= m && (m - p) * k <= u64::MAX ==> forall|i: int|
                    0 <= i < k ==> (#[trigger] batch.events[i]).timestamp_ns == p + (m - p) * (i
                        + 1) / k,
                None => batch.events[k - 1].timestamp_ns == m,
            }
            &&& forall|t: int|
                0 <= t < processor.states.len() && processor.present[t] && (t != sensor || match
                processor.states[t].last_timestamp_ns {
                    Some(p) => p <= m ==> (m - p) * k <= u64::MAX,
                    None => true,
                }) ==> (#[trigger] batch.processor.states[t]).last_timestamp_ns == Some(
                    match processor.states[t].last_timestamp_ns {
                        Some(p) if p > m => p,
                        _ => m as u64,
                    },
                )
        }),
{
    let vectors = samples.push(marker);
    let m = anchored_time(arrival, anchor, vector_time(marker) as u32);
    let k = samples.len() as int;
    no_losses_sum_to_nothing(lost);
    without_losses_nothing_changes(processor, lost);
    let empty = new_batch(processor);
    assert forall|i: int| 0 <= i < k implies (#[trigger] vectors[i]).sensor == sensor && kind_of(
        vectors[i].flags,
    ) == VectorKind::Sample by {
        assert(vectors[i] == samples[i]);
    }
    samples_wait(empty, arrival, anchor, vectors, k, false, sensor);
    assert(vectors.take(k) =~= samples);
    let waiting = empty.vectors(arrival, anchor, vectors, k, false);
    assert(only_waits(waiting, sensor));
    let exact = Marker { time: m as u64, approximate: false, forced: false };
    let count = processor.states.len() as int;
    one_sensor_is_emitted(waiting, sensor, exact, count);
    let closed = empty.vectors(arrival, anchor, vectors, k + 1, false);
    assert(vectors[k] == marker);
    assert(closed == waiting.emit_below(count, exact));
    let last = Marker { time: arrival, approximate: true, forced: false };
    assert(only_waits(closed, sensor)) by {
        assert forall|t: int| 0 <= t < closed.pending.len() && t != sensor implies (
        #[trigger] closed.pending[t]).len() == 0 by {
            assert(waiting.pending[t].len() == 0);
        }
    }
    one_sensor_is_emitted(closed, sensor, last, count);
    let batch = whole_batch(processor, arrival, anchor, 0, lost, vectors);
    assert(batch == closed.emit_below(count, last));
    let start = processor.states[sensor];
    let pending = samples_of(samples);
    let events = sample_events(start, sensor, pending, exact);
    assert(closed.pending[sensor].len() == 0);
    assert(sample_events(
        closed.processor.states[sensor],
        sensor,
        closed.pending[sensor],
        last,
    ) =~= Seq::empty());
    assert(waiting.pending[sensor] == pending);
    assert(batch.events =~= events);
    if start.last_timestamp_ns is None {
        samples_lie_a_period_apart(start, sensor, pending, exact);
    } else if start.last_timestamp_ns->Some_0 > m || (m - start.last_timestamp_ns->Some_0) * k
        <= u64::MAX {
        samples_divide_the_way_to_the_marker(start, sensor, pending, exact);
    }
    assert forall|i: int| 0 <= i < k implies {
        &&& (#[trigger] batch.events[i]).sensor == sensor
        &&& batch.events[i].values == samples[i].values
        &&& batch.events[i].flags == if samples[i].flags & 4 != 0 {
            4u32
        } else {
            0u32
        }
        &&& !batch.events[i].flush
    } by {
        let flags = samples[i].flags;
        assert((flags & 4 != 0 <==> flags / 4 % 2 == 1) && 4u32 | 0 == 4 && 0u32 | 0 == 0)
            by (bit_vector);
        assert(batch.events[i] == events[i]);
    }
    assert forall|t: int|
        0 <= t < processor.states.len() && processor.present[t] && (t != sensor || match
        processor.states[t].last_timestamp_ns {
            Some(p) => p <= m ==> (m - p) * k <= u64::MAX,
            None => true,
        }) implies (#[trigger] batch.processor.states[t]).last_timestamp_ns == Some(
        match processor.states[t].last_timestamp_ns {
            Some(p) if p > m => p,
            _ => m as u64,
        },
    ) by {
        assert(closed.pending[t].len() == 0);
        assert(batch.processor.states[t] == closed.processor.states[t]);
        assert(closed.processor.states[t] == state_after(
            processor.states[t],
            exact,
            waiting.pending[t].len() as int,
        ));
        if t != sensor {
            assert(waiting.pending[t].len() == 0);
        }
    }
}

/// A batch without losses that brings samples of one sensor and no timestamp
/// dates all of them at its arrival, and says that this is approximate.
pub proof fn an_open_batch_is_dated_at_its_arrival(
    processor: ProcessorView,
    arrival: u64,
    anchor: u32,
    lost: Seq<u16>,
    samples: Seq<Vector>,
    sensor: int,
)
    requires
        processor.wf(),
        processor.states.len() <= usize::MAX,
        !processor.tight,
        processor.reports(sensor),
        lost.len() == processor.states.len(),
        forall|i: int| 0 <= i < lost.len() ==> #[trigger] lost[i] == 0,
        forall|i: int|
            0 <= i < samples.len() ==> (#[trigger] samples[i]).sensor == sensor && kind_of(
                samples[i].flags,
            ) == VectorKind::Sample,
    ensures
        ({
            let batch = whole_batch(processor, arrival, anchor, 0, lost, samples);
            &&& batch.events.len() == samples.len()
            &&& forall|i: int|
                0 <= i < samples.len() ==> {
                    &&& (#[trigger] batch.events[i]).sensor == sensor
                    &&& batch.events[i].values == samples[i].values
                    &&& batch.events[i].flags & 8 != 0
                    &&& batch.events[i].timestamp_ns
                        == match processor.states[sensor].last_timestamp_ns {
                        Some(p) if p > arrival => p,
                        _ => arrival,
                    }
                }
        }),
{
    let k = samples.len() as int;
    no_losses_sum_to_nothing(lost);
    without_losses_nothing_changes(processor, lost);
    let empty = new_batch(processor);
    samples_wait(empty, arrival, anchor, samples, k, false, sensor);
    assert(samples.take(k) =~= samples);
    let waiting = empty.vectors(arrival, anchor, samples, k, false);
    assert(only_waits(waiting, sensor));
    let last = Marker { time: arrival, approximate: true, forced: false };
    one_sensor_is_emitted(waiting, sensor, last, processor.states.len() as int);
    let batch = whole_batch(processor, arrival, anchor, 0, lost, samples);
    let pending = samples_of(samples);
    assert(waiting.pending[sensor] == pending);
    let events = sample_events(processor.states[sensor], sensor, pending, last);
    assert(batch.events =~= events);
    assert forall|i: int| 0 <= i < k implies {
        &&& (#[trigger] batch.events[i]).sensor == sensor
        &&& batch.events[i].values == samples[i].values
        &&& batch.events[i].flags & 8 != 0
        &&& batch.events[i].timestamp_ns == match processor.states[sensor].last_timestamp_ns {
            Some(p) if p > arrival => p,
            _ => arrival,
        }
    } by {
        samples_say_how_they_were_dated(processor.states[sensor], sensor, pending, last, i);
    }
}

/// With tight timestamps a timestamp dates the next sample of its sensor, and
/// that sample alone: it comes out at once, at that time or at the sensor's last
/// one if that is later, and its time is exact unless markers were lost.
pub proof fn a_tight_timestamp_dates_the_next_sample(
    b: BatchView,
    arrival: u64,
    anchor: u32,
    marker: Vector,
    sample: Vector,
    forced: bool,
    sensor: int,
)
    requires
        b.processor.wf(),
        b.pending.len() == b.processor.states.len() <= usize::MAX,
        b.processor.tight,
        b.processor.reports(sensor),
        b.pending[sensor].len() == 0,
        marker.sensor == sensor,
        sample.sensor == sensor,
        kind_of(marker.flags) == VectorKind::Timestamp,
        kind_of(sample.flags) == VectorKind::Sample,
    ensures
        ({
            let after = b.vector(arrival, anchor, marker, forced).vector(
                arrival,
                anchor,
                sample,
                forced,
            );
            let m = anchored_time(arrival, anchor, vector_time(marker) as u32);
            &&& after.events.len() == b.events.len() + 1
            &&& after.events.drop_last() == b.events
            &&& after.events.last().sensor == sensor
            &&& after.events.last().values == sample.values
            &&& after.events.last().timestamp_ns
                == match b.processor.states[sensor].last_timestamp_ns {
                Some(p) if p > m => p as int,
                _ => m,
            }
            &&& after.events.last().flags & 8 != 0 <==> forced
            &&& !after.events.last().flush
            &&& after.processor.next[sensor] is None
            &&& after.pending == b.pending
        }),
{
    let m = anchored_time(arrival, anchor, vector_time(marker) as u32);
    let marked = b.vector(arrival, anchor, marker, forced);
    let open = Marker { time: arrival, approximate: true, forced };
    assert(sample_events(b.processor.states[sensor], sensor, b.pending[sensor], open)
        =~= Seq::empty());
    assert(marked.events =~= b.events);
    assert(b.pending[sensor] =~= Seq::empty());
    assert(marked.pending =~= b.pending);
    assert(marked.processor.states[sensor] == b.processor.states[sensor]);
    let after = marked.vector(arrival, anchor, sample, forced);
    assert(after.events.drop_last() =~= b.events);
    assert((4u32 | 8) & 8 != 0 && (0u32 | 8) & 8 != 0 && (4u32 | 0) & 8 == 0 && (0u32 | 0) & 8
        == 0) by (bit_vector);
}

/// A flush marker of a reported sensor comes out as one event without values,
/// behind the samples that it closes, at its time or at the sensor's last one if
/// that is later.
pub proof fn a_flush_marker_comes_out(
    b: BatchView,
    arrival: u64,
    anchor: u32,
    marker: Vector,
    forced: bool,
)
    requires
        b.processor.wf(),
        b.pending.len() == b.processor.states.len() <= usize::MAX,
        b.processor.reports(marker.sensor as int),
        b.pending[marker.sensor as int].len() == 0,
        kind_of(marker.flags) == VectorKind::Flush,
    ensures
        ({
            let after = b.vector(arrival, anchor, marker, forced);
            let m = anchored_time(arrival, anchor, vector_time(marker) as u32);
            let event = after.events.last();
            &&& after.events.len() == b.events.len() + 1
            &&& after.events.drop_last() == b.events
            &&& event.flush
            &&& event.sensor == marker.sensor
            &&& event.values@ == seq![0i32, 0i32, 0i32]
            &&& event.timestamp_ns
                == match b.processor.states[marker.sensor as int].last_timestamp_ns {
                Some(p) if p > m => p as int,
                _ => m,
            }
            &&& after.processor.states[marker.sensor as int].last_timestamp_ns == Some(
                event.timestamp_ns,
            )
        }),
{
    let sensor = marker.sensor as int;
    let m = anchored_time(arrival, anchor, vector_time(marker) as u32);
    let exact = Marker { time: m as u64, approximate: false, forced };
    let closed = b.emit(sensor, exact);
    assert(sample_events(b.processor.states[sensor], sensor, b.pending[sensor], exact)
        =~= Seq::empty());
    assert(closed.events =~= b.events);
    let after = b.vector(arrival, anchor, marker, forced);
    assert(after.events.drop_last() =~= b.events);
    assert(after.events.last().values@ =~= seq![0i32, 0i32, 0i32]);
}

/// A change of rate, a loss of the sensor's own or lost markers make a sensor
/// start anew: the time and the timestamp that it knew are forgotten. A batch
/// without any of these forgets nothing.
pub proof fn a_restart_forgets_the_last_time(
    b: BatchView,
    arrival: u64,
    anchor: u32,
    rate: Vector,
    forced: bool,
    lost: Seq<u16>,
    unattributed: int,
    sensor: int,
)
    requires
        b.processor.wf(),
        b.pending.len() == b.processor.states.len(),
        lost.len() == b.processor.states.len(),
        b.processor.reports(sensor),
        rate.sensor == sensor,
        kind_of(rate.flags) == VectorKind::Odr,
    ensures
        b.vector(arrival, anchor, rate, forced).processor.states[sensor].last_timestamp_ns is None,
        b.vector(arrival, anchor, rate, forced).processor.next[sensor] is None,
        lost[sensor] != 0 || unattributed != 0 ==> {
            let after = b.processor.with_losses(lost, unattributed);
            after.states[sensor].last_timestamp_ns is None && after.next[sensor] is None
        },
        lost[sensor] == 0 && unattributed == 0 ==> {
            let after = b.processor.with_losses(lost, unattributed);
            &&& after.states[sensor] == b.processor.states[sensor]
            &&& after.next[sensor] == b.processor.next[sensor]
        },
{
}

} // verus!
