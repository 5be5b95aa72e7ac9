//! Which sensors are found, and what reaches the processor of what the EC
//! sends.

use vstd::prelude::*;

use crate::bytes::{first_index_is_first, le32};
use crate::cros_ec_spi::protocol::{
    sample_at, CrosEcError, CrosEcFeatures, CrosEcMotionFifoInfo, CrosEcMotionSensorData,
    CrosEcMotionSensorInfo, CrosEcMotionSensorSummary,
};
use crate::motion_sense::{
    batch_taken, check_features, check_summary, direct_sample_flags, event_fifo_info,
    has_undeliverable, metadata_of, push_verdict, replied_samples, sensor_location, sensor_type,
    validate_fifo_info, DiscoveryAction, DiscoveryReply, DiscoveryStage, DiscoveryView, FifoDrain,
    FifoSource, SensorLocation, SensorType,
};
use crate::motion_sense::processor::{
    batch_error, total, BatchView, OutputEvent, ProcessError, ProcessResult, ProcessorView,
};

verus! {

// Draining.

/// A FIFO event gives the size, the count and the time of the FIFO, and
/// whether anything was lost: then the FIFO is asked itself.
pub proof fn fifo_events_are_read(data: &[u8], sensors: u8, r: Result<FifoSource, &'static str>)
    requires
        call_ensures(event_fifo_info, (data, sensors), r),
    ensures
        r is Ok <==> data@.len() == 13,
        data@.len() == 13 && data@[11] == 0 && data@[12] == 0 ==> {
            &&& r is Ok && r->Ok_0 is Known
            &&& r->Ok_0->Known_0.size == data@[3] + 256 * data@[4]
            &&& r->Ok_0->Known_0.count == data@[5] + 256 * data@[6]
            &&& r->Ok_0->Known_0.timestamp_us == le32(data@, 7)
            &&& r->Ok_0->Known_0.total_lost == 0
            &&& r->Ok_0->Known_0.lost_per_sensor@.len() == sensors
        },
        data@.len() == 13 && (data@[11] != 0 || data@[12] != 0) ==> r is Ok && r->Ok_0 is Query,
{
}

/// The state of a FIFO is believed if its count is not over its size, it
/// tells of each sensor, and not more is lost there than in all.
pub proof fn fifo_states_are_believed(
    info: CrosEcMotionFifoInfo,
    sensors: usize,
    r: Result<(), &'static str>,
)
    requires
        call_ensures(validate_fifo_info, (&info, sensors), r),
    ensures
        r is Ok <==> info.count <= info.size && info.lost_per_sensor@.len() == sensors && total(
            info.lost_per_sensor@,
        ) <= info.total_lost,
{
}

/// What the EC lost is summed over the sensors.
pub proof fn losses_are_summed(lost: Seq<u16>, next: u16)
    ensures
        total(lost.push(next)) == total(lost) + next,
        total(Seq::empty()) == 0,
{
    assert(lost.push(next).drop_last() =~= lost);
    reveal_with_fuel(total, 2);
}

/// The samples of a reply join the drain in order, each with its flags, its
/// sensor and its three values.
pub proof fn samples_join_the_drain(
    before: FifoDrain,
    after: FifoDrain,
    requested: u32,
    samples: Seq<CrosEcMotionSensorData>,
    result: Result<(), &'static str>,
    index: int,
)
    requires
        batch_taken(before, after, requested, samples, result),
    ensures
        result is Ok <==> 0 < samples.len() <= requested && samples.len() <= before.remaining,
        result is Err ==> after == before,
        result is Ok && 0 <= index < samples.len() ==> {
            let vector = after.vectors@[before.vectors@.len() + index];
            &&& vector.flags == samples[index].flags
            &&& vector.sensor == samples[index].sensor_num
            &&& vector.values@[0] == samples[index].x
            &&& vector.values@[1] == samples[index].y
            &&& vector.values@[2] == samples[index].z
        },
        result is Ok && 0 <= index < before.vectors@.len() ==> after.vectors@[index]
            == before.vectors@[index],
        result is Ok ==> after.remaining + samples.len() == before.remaining,
        result is Ok ==> after.vectors@.len() == before.vectors@.len() + samples.len(),
{
    if result is Ok && 0 <= index < before.vectors@.len() {
        assert(after.vectors@.take(before.vectors@.len() as int)[index] == after.vectors@[index]);
    }
}

/// A reply is taken if it holds as many samples as it says, at most what was
/// asked for and at most 256; they lie eight bytes apart behind the count.
pub proof fn replies_hold_what_they_count(response: Seq<u8>, requested: u32, index: int)
    requires
        response.len() >= 4,
    ensures
        ({
            let samples = replied_samples(Ok(response), requested);
            &&& samples is Some <==> le32(response, 0) <= requested && le32(response, 0) <= 256
                && response.len() == 4 + 8 * le32(response, 0)
            &&& samples is Some ==> 8 * samples->0.len() + 4 == response.len()
            &&& samples is Some && 0 <= index < samples->0.len() ==> samples->0[index] == sample_at(
                response,
                4 + 8 * index,
            )
        }),
        replied_samples(Err(CrosEcError::InvalidResponse), requested) is None,
{
}

/// What is left is asked for, at most 256 samples at a time, and no more than
/// the FIFO holds.
pub proof fn the_rest_is_asked_for(drain: FifoDrain, r: Result<Option<u32>, &'static str>)
    requires
        call_ensures(FifoDrain::next_request, (&drain,), r),
    ensures
        drain.remaining == 0 ==> r == Ok::<Option<u32>, &'static str>(None),
        drain.remaining > 0 && drain.vectors@.len() < drain.maximum ==> {
            &&& r is Ok && r->Ok_0 is Some
            &&& 0 < r->Ok_0->0 <= 256 && r->Ok_0->0 <= drain.remaining
            &&& r->Ok_0->0 == 256 || r->Ok_0->0 == drain.remaining
        },
        drain.remaining > 0 && drain.vectors@.len() >= drain.maximum ==> r is Err,
{
}

/// A result is good if nothing was lost unaccounted for, nothing was
/// discarded, every event has a sensor, and all of them were delivered.
pub proof fn good_results_lose_nothing(
    result: ProcessResult,
    undeliverable: bool,
    failed: bool,
    r: Result<(), &'static str>,
    events: Vec<OutputEvent>,
    registered: &[bool],
    missing: bool,
    index: int,
)
    requires
        call_ensures(push_verdict, (&result, undeliverable, failed), r),
        call_ensures(has_undeliverable, (&events, registered), missing),
        0 <= index < events@.len(),
    ensures
        r is Ok <==> result.unattributed_lost == 0 && result.discarded == 0 && !undeliverable
            && !failed,
        !missing ==> events@[index].sensor < registered@.len()
            && registered@[events@[index].sensor as int],
        events@[index].sensor >= registered@.len() || !registered@[events@[index].sensor as int]
            ==> missing,
{
}

// Discovery.

/// The kinds and places of sensors by number.
pub proof fn kinds_and_places_are_numbered(value: u8)
    ensures
        sensor_type(0) == Some(SensorType::Accelerometer),
        sensor_type(1) == Some(SensorType::Gyroscope),
        sensor_type(2) == Some(SensorType::Magnetometer),
        value > 2 ==> sensor_type(value) is None,
        sensor_location(0) == SensorLocation::Base,
        sensor_location(1) == SensorLocation::Lid,
        sensor_location(2) == SensorLocation::Camera,
        value > 2 ==> sensor_location(value) == SensorLocation::Unknown,
{
}

/// A sensor is known if its range is positive, its rate is not negative, and
/// its kind is known. Its identifier holds the chip and the number, and what
/// it does not say of its rates is taken from the rate it has.
pub proof fn known_sensors_have_metadata(
    sensor: u8,
    info: CrosEcMotionSensorInfo,
    range: Option<i32>,
    odr: Option<i32>,
)
    ensures
        ({
            let metadata = metadata_of(sensor, Some(info), range, odr);
            &&& metadata is Ok <==> range is Some && range->0 > 0 && odr is Some && odr->0 >= 0
                && info.sensor_type <= 2
            &&& metadata matches Ok(m) ==> {
                &&& m.id as int / 256 == info.chip && m.id as int % 256 == sensor
                &&& m.range == range->0 && m.odr_millihz == odr->0
                &&& sensor_type(info.sensor_type) == Some(m.sensor_type)
                &&& m.location == sensor_location(info.location)
                &&& m.axes == 3 && m.resolution_bits == 16 && m.minimum == -32768 && m.maximum
                    == 32767
                &&& info.min_frequency_millihz matches Some(slow) ==> m.min_frequency_millihz
                    == slow
                &&& info.min_frequency_millihz is None ==> m.min_frequency_millihz == 0
                &&& info.max_frequency_millihz matches Some(fast) ==> m.max_frequency_millihz
                    == fast
                &&& info.max_frequency_millihz is None && odr->0 > 0 ==> m.max_frequency_millihz
                    == odr->0
                &&& info.max_frequency_millihz is None && odr->0 == 0 ==> m.max_frequency_millihz
                    == 1
                &&& info.fifo_max_event_count matches Some(share) ==> m.fifo_max_event_count
                    == share
                &&& info.fifo_max_event_count is None ==> m.fifo_max_event_count == 0
            }
        }),
        metadata_of(sensor, None, range, odr) is Err,
{
}

/// A sensor is asked for its metadata, its range and its rate, and then
/// registered; one that does not answer is passed over.
pub proof fn sensors_are_asked_in_order(discovery: DiscoveryView, reply: DiscoveryReply, sensor: u8)
    requires
        discovery.wf(),
        discovery.fits(reply),
    ensures
        ({
            let (next, action) = discovery.step(reply);
            &&& discovery.stage == DiscoveryStage::Info(sensor) && reply->Info_0 is Some ==> action
                == DiscoveryAction::AskRange(sensor) && next.stage == DiscoveryStage::Range(
                sensor,
                reply->Info_0->0,
            )
            &&& discovery.stage == DiscoveryStage::Info(sensor) && reply->Info_0 is None && sensor
                + 1 < discovery.sensor_count ==> action == DiscoveryAction::AskInfo(
                (sensor + 1) as u8,
            )
            &&& discovery.stage matches DiscoveryStage::Range(s, info) ==> action
                == DiscoveryAction::AskOdr(s) && next.stage == DiscoveryStage::Odr(
                s,
                info,
                reply->Parameter_0,
            )
            &&& discovery.stage matches DiscoveryStage::Odr(s, info, range) ==> {
                let metadata = metadata_of(s, Some(info), range, reply->Parameter_0);
                &&& metadata is Ok ==> action == DiscoveryAction::Register(s, metadata->Ok_0)
                    && next.stage == DiscoveryStage::Registering(s, metadata->Ok_0.odr_millihz)
                &&& metadata is Err && s + 1 < discovery.sensor_count ==> action
                    == DiscoveryAction::AskInfo((s + 1) as u8)
            }
            &&& discovery.stage matches DiscoveryStage::Registering(s, odr) ==> {
                &&& s + 1 < discovery.sensor_count ==> action == DiscoveryAction::AskInfo(
                    (s + 1) as u8,
                )
                &&& reply == DiscoveryReply::Registered(true) ==> next.present
                    == discovery.present.update(s as int, true) && next.odrs
                    == discovery.odrs.update(s as int, odr)
                &&& reply == DiscoveryReply::Registered(false) ==> next.present
                    == discovery.present && next.odrs == discovery.odrs
                &&& s + 1 == discovery.sensor_count && discovery.fifo ==> action
                    == DiscoveryAction::EnableFifo
            }
            &&& discovery.stage == DiscoveryStage::EnablingFifo ==> action
                == DiscoveryAction::Finished
        }),
{
}

/// Without a FIFO, each registered sensor is asked for one sample, in order.
pub proof fn registered_sensors_are_sampled(discovery: DiscoveryView, sensor: int)
    requires
        discovery.wf(),
        discovery.stage matches DiscoveryStage::Sampling(s) && s < sensor,
        0 <= sensor < discovery.sensor_count,
        discovery.present[sensor],
    ensures
        ({
            let action = discovery.step(DiscoveryReply::Done).1;
            let from = discovery.stage->Sampling_0;
            &&& action is AskData
            &&& from < action->AskData_0 <= sensor
            &&& discovery.present[action->AskData_0 as int]
        }),
{
    let from = discovery.stage->Sampling_0 as int;
    first_index_is_first(discovery.present, |p: bool| p, from + 1);
}

/// Motion sensors are feature 6; a FIFO is 24 and exact timestamps are 36. At
/// most 32 sensors are believed.
pub proof fn features_are_required(
    features: CrosEcFeatures,
    r: Result<CrosEcFeatures, &'static str>,
    summary: CrosEcMotionSensorSummary,
    count: Result<u8, &'static str>,
)
    requires
        call_ensures(check_features, (Some(features),), r),
        call_ensures(check_summary, (Some(summary),), count),
    ensures
        r is Ok <==> (features.flags@[0] >> 6u32) & 1u32 == 1,
        r matches Ok(kept) ==> kept == features,
        count is Ok <==> summary.sensor_count <= 32,
        count matches Ok(value) ==> value == summary.sensor_count,
{
}

/// A direct sample is reported if it is from the sensor that was asked and is
/// neither a marker nor a state; its time is only an estimate.
pub proof fn direct_samples_are_estimates(
    sensor: u8,
    sample: CrosEcMotionSensorData,
    r: Option<u32>,
)
    requires
        call_ensures(direct_sample_flags, (sensor, &sample), r),
    ensures
        r is Some <==> sample.sensor_num == sensor && sample.flags % 4 == 0 && sample.flags as int
            / 8 % 4 == 0,
        r matches Some(flags) ==> flags == if sample.flags as int / 4 % 2 == 1 {
            12u32
        } else {
            8u32
        },
{
    assert(4u32 | 8u32 == 12u32 && 0u32 | 8u32 == 8u32) by (bit_vector);
}

/// What cannot be reported is counted, as far as the counter goes.
pub proof fn discards_are_counted(batch: BatchView)
    requires
        batch.discarded <= u32::MAX,
    ensures
        batch.discard().discarded <= u32::MAX,
        batch.discarded < u32::MAX ==> batch.discard().discarded == batch.discarded + 1,
        batch.discard().events == batch.events,
        batch.discard().processor == batch.processor,
{
}

/// A batch is taken if and only if there is a loss counter for every sensor,
/// and the total counts at least what they lost.
pub proof fn batches_are_taken(processor: ProcessorView, total_lost: u16, lost: Seq<u16>)
    ensures
        batch_error(processor, total_lost, lost) is None <==> lost.len() == processor.states.len()
            && total(lost) <= total_lost,
        batch_error(processor, total_lost, lost) == Some(ProcessError::LostSensorCountMismatch)
            <==> lost.len() != processor.states.len(),
{
}

} // verus!
