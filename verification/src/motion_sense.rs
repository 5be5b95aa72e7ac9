//! Chrome EC motion sensors: discovery, FIFO draining and sample timestamps.
//!
//! A FIFO-capable EC is drained only when it announces FIFO data; one without
//! a FIFO gives a single direct sample per sensor and is never polled.

use vstd::prelude::*;

use crate::bytes::{first_index_is_first, le32};
use crate::cros_ec_spi::protocol::{
    fifo_info_matches, parse_motion_fifo_data, parse_motion_fifo_event, parse_motion_fifo_info,
    sample_at, CrosEcError, CrosEcFeatures, CrosEcMotionFifoInfo, CrosEcMotionSensorData,
    CrosEcMotionSensorInfo, CrosEcMotionSensorSummary, CROS_EC_MAX_MOTION_FIFO_VECTORS,
    MKBP_SENSOR_FIFO_EVENT_BYTES, MOTION_FIFO_INFO_FIXED_BYTES,
};
use crate::motion_sense::processor::{
    batch_error, event_flags, fifo_remaining_after_progress, sum_lost, total, whole_batch, OutputEvent, ProcessResult,
    Processor, ProcessorView, SensorState, Vector, FLAG_TIMESTAMP_APPROXIMATE_EVENT,
    FLAG_WAKEUP_EVENT,
};

pub mod counts;
pub mod histories;
pub mod laws;
pub mod processor;
pub mod sensors;
pub mod spreading;

verus! {

pub const EC_MKBP_EVENT_SENSOR_FIFO: u8 = 2;

pub const MAX_SENSOR_COUNT: u8 = 32;

// FIFO draining.

/// Where the FIFO status of a notification comes from.
pub enum FifoSource {
    /// The notification says it all.
    Known(CrosEcMotionFifoInfo),
    /// Something was lost: the full status must be asked for.
    Query,
}

/// Reads a FIFO notification. Its compact form omits the loss counters, so a
/// loss makes the full status necessary.
pub fn event_fifo_info(data: &[u8], sensor_count: u8) -> (r: Result<FifoSource, &'static str>)
    ensures
        match r {
            Err(e) => data@.len() != MKBP_SENSOR_FIFO_EVENT_BYTES && e
                == "malformed MKBP FIFO event",
            Ok(FifoSource::Query) => data@.len() == MKBP_SENSOR_FIFO_EVENT_BYTES
                && crate::bytes::le16(data@, 11) != 0,
            Ok(FifoSource::Known(info)) => {
                &&& data@.len() == MKBP_SENSOR_FIFO_EVENT_BYTES
                &&& info.size == crate::bytes::le16(data@, 3)
                &&& info.count == crate::bytes::le16(data@, 5)
                &&& info.timestamp_us == crate::bytes::le32(data@, 7)
                &&& info.total_lost == 0
                &&& crate::bytes::le16(data@, 11) == 0
                &&& info.lost_per_sensor@ == Seq::new(sensor_count as nat, |i: int| 0u16)
            },
        },
{
    match parse_motion_fifo_event(data) {
        Err(_) => Err("malformed MKBP FIFO event"),
        Ok(mut info) => {
            if info.total_lost != 0 {
                return Ok(FifoSource::Query);
            }
            let zeros: Vec<u16> = vec![0u16; sensor_count as usize];
            assert(zeros@ =~= Seq::new(sensor_count as nat, |i: int| 0u16));
            info.lost_per_sensor = zeros;
            Ok(FifoSource::Known(info))
        },
    }
}

/// The full FIFO status from the reply to its command.
pub fn queried_fifo_info(reply: Result<&[u8], CrosEcError>, sensor_count: u8) -> (r: Result<
    CrosEcMotionFifoInfo,
    &'static str,
>)
    ensures
        match r {
            Ok(info) => {
                &&& reply matches Ok(response)
                &&& response@.len() == MOTION_FIFO_INFO_FIXED_BYTES + 2 * sensor_count
                &&& fifo_info_matches(info, response@, 0, sensor_count as int)
            },
            Err(e) => e == "FIFO_INFO command failed" && !(reply matches Ok(response)
                && response@.len() == MOTION_FIFO_INFO_FIXED_BYTES + 2 * sensor_count),
        },
{
    match reply {
        Err(_) => Err("FIFO_INFO command failed"),
        Ok(response) => match parse_motion_fifo_info(response, sensor_count) {
            Ok(info) => Ok(info),
            Err(_) => Err("FIFO_INFO command failed"),
        },
    }
}

/// Checks that a FIFO status is consistent.
pub fn validate_fifo_info(info: &CrosEcMotionFifoInfo, sensor_count: usize) -> (r: Result<
    (),
    &'static str,
>)
    ensures
        r == (if info.count > info.size {
            Err::<(), &'static str>("FIFO_INFO count exceeds capacity")
        } else if info.lost_per_sensor@.len() != sensor_count {
            Err("FIFO_INFO sensor loss count mismatch")
        } else if total(info.lost_per_sensor@) > info.total_lost {
            Err("FIFO_INFO total loss mismatch")
        } else {
            Ok(())
        }),
{
    if info.count > info.size {
        return Err("FIFO_INFO count exceeds capacity");
    }
    if info.lost_per_sensor.len() != sensor_count {
        return Err("FIFO_INFO sensor loss count mismatch");
    }
    if sum_lost(info.lost_per_sensor.as_slice()) > info.total_lost as u32 {
        return Err("FIFO_INFO total loss mismatch");
    }
    Ok(())
}

/// A FIFO that is being read in batches.
pub struct FifoDrain {
    pub remaining: u32,
    pub maximum: u32,
    pub vectors: Vec<Vector>,
}

/// Whether a vector is the sample, with its axes widened.
pub open spec fn vector_of(vector: Vector, sample: CrosEcMotionSensorData) -> bool {
    &&& vector.flags == sample.flags
    &&& vector.sensor == sample.sensor_num
    &&& vector.values@ == seq![sample.x as i32, sample.y as i32, sample.z as i32]
}

/// What a batch of samples does to a drain: it must hold at least one, and no
/// more than was asked for and is left.
pub open spec fn batch_taken(
    before: FifoDrain,
    after: FifoDrain,
    requested: u32,
    samples: Seq<CrosEcMotionSensorData>,
    result: Result<(), &'static str>,
) -> bool {
    let n = samples.len();
    if n > u32::MAX {
        result == Err::<(), &'static str>("FIFO_READ count overflow") && after == before
    } else if n == 0 || n > requested || n > before.remaining {
        result == Err::<(), &'static str>("FIFO_READ made invalid progress") && after == before
    } else {
        &&& result == Ok::<(), &'static str>(())
        &&& after.remaining == before.remaining - n
        &&& after.maximum == before.maximum
        &&& after.vectors@.len() == before.vectors@.len() + n
        &&& after.vectors@.take(before.vectors@.len() as int) == before.vectors@
        &&& forall|i: int|
            #![trigger samples[i]]
            0 <= i < n ==> vector_of(after.vectors@[before.vectors@.len() + i], samples[i])
    }
}

/// The samples in a valid reply to a read of `requested` vectors.
pub open spec fn replied_samples(reply: Result<Seq<u8>, CrosEcError>, requested: u32) -> Option<
    Seq<CrosEcMotionSensorData>,
> {
    match reply {
        Err(_) => None,
        Ok(response) => {
            let count = le32(response, 0);
            if response.len() >= 4 && count <= requested && count
                <= CROS_EC_MAX_MOTION_FIFO_VECTORS && response.len() == 4 + 8 * count {
                Some(Seq::new(count as nat, |i: int| sample_at(response, 4 + 8 * i)))
            } else {
                None
            }
        },
    }
}

impl FifoDrain {
    /// What is still to be read and what was read make up the announced count.
    pub open spec fn wf(self, count: u16) -> bool {
        self.vectors@.len() + self.remaining == count && count <= self.maximum
    }

    pub fn new(info: &CrosEcMotionFifoInfo) -> (r: FifoDrain)
        ensures
            r.remaining == info.count,
            r.maximum == info.size,
            r.vectors@ == Seq::<Vector>::empty(),
            info.count <= info.size ==> r.wf(info.count),
    {
        FifoDrain {
            remaining: info.count as u32,
            maximum: info.size as u32,
            vectors: Vec::new(),
        }
    }

    /// The size of the next batch to ask for; `None` ends the drain.
    pub fn next_request(&self) -> (r: Result<Option<u32>, &'static str>)
        ensures
            r == (if self.remaining == 0 {
                Ok::<Option<u32>, &'static str>(None)
            } else if self.vectors@.len() >= self.maximum {
                Err("FIFO drain exceeded advertised capacity")
            } else if self.remaining < CROS_EC_MAX_MOTION_FIFO_VECTORS {
                Ok(Some(self.remaining))
            } else {
                Ok(Some(CROS_EC_MAX_MOTION_FIFO_VECTORS))
            }),
    {
        if self.remaining == 0 {
            return Ok(None);
        }
        if self.vectors.len() as u64 >= self.maximum as u64 {
            return Err("FIFO drain exceeded advertised capacity");
        }
        if self.remaining < CROS_EC_MAX_MOTION_FIFO_VECTORS {
            Ok(Some(self.remaining))
        } else {
            Ok(Some(CROS_EC_MAX_MOTION_FIFO_VECTORS))
        }
    }

    /// Takes one batch, which must have made progress.
    pub fn accept(&mut self, requested: u32, samples: &[CrosEcMotionSensorData]) -> (r: Result<
        (),
        &'static str,
    >)
        ensures
            batch_taken(*old(self), *final(self), requested, samples@, r),
    {
        if samples.len() > u32::MAX as usize {
            return Err("FIFO_READ count overflow");
        }
        match fifo_remaining_after_progress(self.remaining, requested, samples.len() as u32) {
            Err(_) => {
                return Err("FIFO_READ made invalid progress");
            },
            Ok(remaining) => {
                self.remaining = remaining;
            },
        }
        let ghost before = self.vectors@;
        let mut i: usize = 0;
        while i < samples.len()
            invariant
                i <= samples@.len(),
                self.remaining == old(self).remaining - samples@.len(),
                self.maximum == old(self).maximum,
                before == old(self).vectors@,
                self.vectors@.len() == before.len() + i,
                self.vectors@.take(before.len() as int) == before,
                forall|j: int|
                    #![trigger samples@[j]]
                    0 <= j < i ==> vector_of(self.vectors@[before.len() + j], samples@[j]),
            decreases samples@.len() - i,
        {
            let sample = samples[i];
            let values: [i32; 3] = [sample.x as i32, sample.y as i32, sample.z as i32];
            assert(values@ =~= seq![sample.x as i32, sample.y as i32, sample.z as i32]);
            self.vectors.push(Vector { flags: sample.flags, sensor: sample.sensor_num, values });
            assert(self.vectors@.take(before.len() as int) =~= before);
            i = i + 1;
        }
        Ok(())
    }

    /// Takes the reply to a read of `requested` vectors.
    pub fn read_reply(&mut self, requested: u32, reply: Result<&[u8], CrosEcError>) -> (r: Result<
        (),
        &'static str,
    >)
        ensures
            match replied_samples(
                match reply {
                    Ok(response) => Ok(response@),
                    Err(e) => Err(e),
                },
                requested,
            ) {
                None => {
                    &&& r == Err::<(), &'static str>("FIFO_READ command failed")
                    &&& *final(self) == *old(self)
                },
                Some(samples) => batch_taken(*old(self), *final(self), requested, samples, r),
            },
    {
        match reply {
            Err(_) => Err("FIFO_READ command failed"),
            Ok(response) => match parse_motion_fifo_data(response, requested) {
                Err(_) => Err("FIFO_READ command failed"),
                Ok(batch) => self.accept(requested, batch.samples.as_slice()),
            },
        }
    }
}

/// A drain of a consistent FIFO never meets the capacity limit, and every
/// accepted batch brings it closer to its end.
pub proof fn a_drain_stays_within_its_capacity(
    before: FifoDrain,
    after: FifoDrain,
    count: u16,
    progress: int,
)
    requires
        before.wf(count),
        0 < progress <= before.remaining,
        after.remaining == before.remaining - progress,
        after.maximum == before.maximum,
        after.vectors@.len() == before.vectors@.len() + progress,
    ensures
        before.vectors@.len() < before.maximum,
        after.wf(count),
        after.remaining < before.remaining,
{
}

/// Gives the samples of a drained FIFO their times.
pub fn process_fifo(
    processor: &mut Processor,
    arrival_ns: u64,
    info: &CrosEcMotionFifoInfo,
    drain: &FifoDrain,
) -> (r: Result<ProcessResult, &'static str>)
    requires
        old(processor)@.wf(),
    ensures
        final(processor)@.wf(),
        match batch_error(old(processor)@, info.total_lost, info.lost_per_sensor@) {
            Some(_) => {
                &&& r is Err && r->Err_0 == "FIFO loss counters are inconsistent"
                &&& final(processor)@ == old(processor)@
            },
            None => {
                let batch = whole_batch(
                    old(processor)@,
                    arrival_ns,
                    info.timestamp_us,
                    info.total_lost,
                    info.lost_per_sensor@,
                    drain.vectors@,
                );
                &&& r is Ok
                &&& r->Ok_0.events@ == batch.events
                &&& r->Ok_0.discarded == batch.discarded
                &&& r->Ok_0.unattributed_lost == info.total_lost - total(info.lost_per_sensor@)
                &&& final(processor)@ == batch.processor
            },
        },
{
    match processor.process(
        arrival_ns,
        info.timestamp_us,
        info.total_lost,
        info.lost_per_sensor.as_slice(),
        drain.vectors.as_slice(),
    ) {
        Ok(result) => Ok(result),
        Err(_) => Err("FIFO loss counters are inconsistent"),
    }
}

// Delivery.

/// Whether every event has a registered sensor.
pub open spec fn all_registered(events: Seq<OutputEvent>, registered: Seq<bool>) -> bool {
    forall|i: int|
        #![trigger events[i]]
        0 <= i < events.len() ==> events[i].sensor < registered.len()
            && registered[events[i].sensor as int]
}

/// Whether some event of a batch cannot be delivered.
pub fn has_undeliverable(events: &Vec<OutputEvent>, registered: &[bool]) -> (r: bool)
    ensures
        r == !all_registered(events@, registered@),
{
    let mut i: usize = 0;
    while i < events.len()
        invariant
            i <= events@.len(),
            forall|j: int|
                #![trigger events@[j]]
                0 <= j < i ==> events@[j].sensor < registered@.len()
                    && registered@[events@[j].sensor as int],
        decreases events@.len() - i,
    {
        let sensor: usize = events[i].sensor;
        if sensor >= registered.len() || !registered[sensor] {
            assert(!(events@[i as int].sensor < registered@.len()
                && registered@[events@[i as int].sensor as int]));
            return true;
        }
        i = i + 1;
    }
    false
}

/// The verdict on a delivered batch. Any discard, undeliverable event or
/// failed push is an error; lost markers name it.
pub fn push_verdict(result: &ProcessResult, undeliverable: bool, push_failed: bool) -> (r: Result<
    (),
    &'static str,
>)
    ensures
        r == (if result.unattributed_lost != 0 {
            Err::<(), &'static str>("unattributed FIFO timestamp loss")
        } else if result.discarded != 0 || undeliverable || push_failed {
            Err("discarded invalid FIFO event")
        } else {
            Ok(())
        }),
{
    if result.unattributed_lost != 0 {
        Err("unattributed FIFO timestamp loss")
    } else if result.discarded != 0 || undeliverable || push_failed {
        Err("discarded invalid FIFO event")
    } else {
        Ok(())
    }
}

// Discovery.

#[derive(Clone, Copy, Debug, Eq, PartialEq, Structural)]
pub enum SensorType {
    Accelerometer,
    Gyroscope,
    Magnetometer,
}

#[derive(Clone, Copy, Debug, Eq, PartialEq, Structural)]
pub enum SensorLocation {
    Base,
    Lid,
    Camera,
    Unknown,
}

pub open spec fn sensor_type(value: u8) -> Option<SensorType> {
    if value == 0 {
        Some(SensorType::Accelerometer)
    } else if value == 1 {
        Some(SensorType::Gyroscope)
    } else if value == 2 {
        Some(SensorType::Magnetometer)
    } else {
        None
    }
}

pub open spec fn sensor_location(value: u8) -> SensorLocation {
    if value == 0 {
        SensorLocation::Base
    } else if value == 1 {
        SensorLocation::Lid
    } else if value == 2 {
        SensorLocation::Camera
    } else {
        SensorLocation::Unknown
    }
}

pub fn map_sensor_type(value: u8) -> (r: Option<SensorType>)
    ensures
        r == sensor_type(value),
{
    match value {
        0 => Some(SensorType::Accelerometer),
        1 => Some(SensorType::Gyroscope),
        2 => Some(SensorType::Magnetometer),
        _ => None,
    }
}

pub fn map_location(value: u8) -> (r: SensorLocation)
    ensures
        r == sensor_location(value),
{
    match value {
        0 => SensorLocation::Base,
        1 => SensorLocation::Lid,
        2 => SensorLocation::Camera,
        _ => SensorLocation::Unknown,
    }
}

/// What a registered sensor announces. Values are signed 16-bit on three axes.
#[derive(Clone, Copy, Debug, Eq, PartialEq, Structural)]
pub struct SensorMetadata {
    pub sensor_type: SensorType,
    pub location: SensorLocation,
    pub id: u32,
    pub axes: u32,
    pub minimum: i32,
    pub maximum: i32,
    pub range: u32,
    pub resolution_bits: u32,
    pub min_frequency_millihz: u32,
    pub max_frequency_millihz: u32,
    pub odr_millihz: u32,
    pub fifo_max_event_count: u32,
}

/// Why an enumerated sensor is not registered.
#[derive(Clone, Copy, Debug, Eq, PartialEq, Structural)]
pub enum SkipReason {
    InfoFailed,
    RangeFailed,
    OdrFailed,
    Unsupported,
}

/// The metadata of a sensor, or why it is skipped: the range must be positive
/// and the rate not negative.
pub open spec fn metadata_of(
    sensor_num: u8,
    info: Option<CrosEcMotionSensorInfo>,
    range: Option<i32>,
    odr: Option<i32>,
) -> Result<SensorMetadata, SkipReason> {
    match info {
        None => Err(SkipReason::InfoFailed),
        Some(info) => if !(range matches Some(value) && value > 0) {
            Err(SkipReason::RangeFailed)
        } else if !(odr matches Some(value) && value >= 0) {
            Err(SkipReason::OdrFailed)
        } else if sensor_type(info.sensor_type) is None {
            Err(SkipReason::Unsupported)
        } else {
            let rate = odr->Some_0 as u32;
            Ok(
                SensorMetadata {
                    sensor_type: sensor_type(info.sensor_type)->Some_0,
                    location: sensor_location(info.location),
                    id: (0x100 * info.chip + sensor_num) as u32,
                    axes: 3,
                    minimum: -0x8000i32,
                    maximum: 0x7fff,
                    range: range->Some_0 as u32,
                    resolution_bits: 16,
                    min_frequency_millihz: match info.min_frequency_millihz {
                        Some(value) => value,
                        None => 0,
                    },
                    max_frequency_millihz: match info.max_frequency_millihz {
                        Some(value) => value,
                        None => if rate == 0 {
                            1
                        } else {
                            rate
                        },
                    },
                    odr_millihz: rate,
                    fifo_max_event_count: match info.fifo_max_event_count {
                        Some(value) => value,
                        None => 0,
                    },
                },
            )
        },
    }
}

/// Decides whether and how an enumerated sensor is registered.
pub fn sensor_metadata(
    sensor_num: u8,
    info: Option<CrosEcMotionSensorInfo>,
    range: Option<i32>,
    odr: Option<i32>,
) -> (r: Result<SensorMetadata, SkipReason>)
    ensures
        r == metadata_of(sensor_num, info, range, odr),
{
    let info = match info {
        Some(info) => info,
        None => {
            return Err(SkipReason::InfoFailed);
        },
    };
    let range: u32 = match range {
        Some(value) => if value > 0 {
            value as u32
        } else {
            return Err(SkipReason::RangeFailed);
        },
        None => {
            return Err(SkipReason::RangeFailed);
        },
    };
    let odr: u32 = match odr {
        Some(value) => if value >= 0 {
            value as u32
        } else {
            return Err(SkipReason::OdrFailed);
        },
        None => {
            return Err(SkipReason::OdrFailed);
        },
    };
    let sensor_type = match map_sensor_type(info.sensor_type) {
        Some(sensor_type) => sensor_type,
        None => {
            return Err(SkipReason::Unsupported);
        },
    };
    let min_frequency_millihz: u32 = match info.min_frequency_millihz {
        Some(value) => value,
        None => 0,
    };
    let max_frequency_millihz: u32 = match info.max_frequency_millihz {
        Some(value) => value,
        None => if odr == 0 {
            1
        } else {
            odr
        },
    };
    let fifo_max_event_count: u32 = match info.fifo_max_event_count {
        Some(value) => value,
        None => 0,
    };
    Ok(
        SensorMetadata {
            sensor_type,
            location: map_location(info.location),
            id: info.chip as u32 * 0x100 + sensor_num as u32,
            axes: 3,
            minimum: -0x8000,
            maximum: 0x7fff,
            range,
            resolution_bits: 16,
            min_frequency_millihz,
            max_frequency_millihz,
            odr_millihz: odr,
            fifo_max_event_count,
        },
    )
}

/// The state of sensor discovery.
pub struct Discovery {
    pub sensor_count: u8,
    pub fifo: bool,
    pub tight_timestamps: bool,
    pub present: Vec<bool>,
    pub odrs: Vec<u32>,
    pub stage: DiscoveryStage,
}

/// How far discovery has come.
#[derive(Clone, Copy, Debug, Eq, PartialEq, Structural)]
pub enum DiscoveryStage {
    /// Waiting for INFO of this sensor.
    Info(u8),
    /// Waiting for RANGE of this sensor.
    Range(u8, CrosEcMotionSensorInfo),
    /// Waiting for ODR of this sensor.
    Odr(u8, CrosEcMotionSensorInfo, Option<i32>),
    /// Waiting for the registration of this sensor.
    Registering(u8, u32),
    /// Waiting for the FIFO interrupt to be enabled.
    EnablingFifo,
    /// Waiting for a direct sample of this sensor.
    Sampling(u8),
    Finished,
}

/// What discovery asks for next.
#[derive(Clone, Copy, Debug, Eq, PartialEq, Structural)]
pub enum DiscoveryAction {
    AskInfo(u8),
    AskRange(u8),
    AskOdr(u8),
    Register(u8, SensorMetadata),
    /// Publish the hub, listen for events and enable the FIFO interrupt.
    EnableFifo,
    /// Publish the hub and ask for one direct sample.
    AskData(u8),
    Finished,
}

/// The reply to an action.
#[derive(Clone, Copy, Debug, Eq, PartialEq, Structural)]
pub enum DiscoveryReply {
    Info(Option<CrosEcMotionSensorInfo>),
    Parameter(Option<i32>),
    Registered(bool),
    Done,
}

/// Checks the feature bitmap: `None` stands for a failed command.
pub fn check_features(features: Option<CrosEcFeatures>) -> (r: Result<CrosEcFeatures, &'static str>)
    ensures
        match features {
            None => r == Err::<CrosEcFeatures, &'static str>("GET_FEATURES failed"),
            Some(features) => if features.advertises(6) {
                r == Ok::<CrosEcFeatures, &'static str>(features)
            } else {
                r == Err::<CrosEcFeatures, &'static str>("EC has no motion-sense feature")
            },
        },
{
    match features {
        None => Err("GET_FEATURES failed"),
        Some(features) => {
            if features.supports_motion_sense() {
                Ok(features)
            } else {
                Err("EC has no motion-sense feature")
            }
        },
    }
}

/// Checks the sensor count: `None` stands for a failed command.
pub fn check_summary(summary: Option<CrosEcMotionSensorSummary>) -> (r: Result<u8, &'static str>)
    ensures
        r == (match summary {
            None => Err::<u8, &'static str>("motion DUMP failed"),
            Some(summary) => if summary.sensor_count <= MAX_SENSOR_COUNT {
                Ok(summary.sensor_count)
            } else {
                Err("invalid sensor count")
            },
        }),
{
    match summary {
        None => Err("motion DUMP failed"),
        Some(summary) => {
            if summary.sensor_count <= MAX_SENSOR_COUNT {
                Ok(summary.sensor_count)
            } else {
                Err("invalid sensor count")
            }
        },
    }
}

/// The first present sensor from `from` on.
pub open spec fn next_present(present: Seq<bool>, from: int) -> Option<int> {
    crate::bytes::first_index(present, |p: bool| p, from)
}

/// What a discovery knows, as sequences.
#[verifier::ext_equal]
pub struct DiscoveryView {
    pub sensor_count: u8,
    pub fifo: bool,
    pub tight: bool,
    pub present: Seq<bool>,
    pub odrs: Seq<u32>,
    pub stage: DiscoveryStage,
}

impl View for Discovery {
    type V = DiscoveryView;

    open spec fn view(&self) -> DiscoveryView {
        DiscoveryView {
            sensor_count: self.sensor_count,
            fifo: self.fifo,
            tight: self.tight_timestamps,
            present: self.present@,
            odrs: self.odrs@,
            stage: self.stage,
        }
    }
}

impl DiscoveryView {
    pub open spec fn wf(self) -> bool {
        &&& self.present.len() == self.sensor_count
        &&& self.odrs.len() == self.sensor_count
        &&& match self.stage {
            DiscoveryStage::Info(s) => s < self.sensor_count,
            DiscoveryStage::Range(s, _) => s < self.sensor_count,
            DiscoveryStage::Odr(s, _, _) => s < self.sensor_count,
            DiscoveryStage::Registering(s, _) => s < self.sensor_count,
            DiscoveryStage::EnablingFifo => self.fifo,
            DiscoveryStage::Sampling(s) => {
                &&& s < self.sensor_count
                &&& self.present[s as int]
                &&& !self.fifo
            },
            DiscoveryStage::Finished => true,
        }
    }

    pub open spec fn at(self, stage: DiscoveryStage) -> DiscoveryView {
        DiscoveryView { stage, ..self }
    }

    /// Direct samples of the present sensors from `from` on, one by one.
    pub open spec fn sample_from(self, from: int) -> (DiscoveryView, DiscoveryAction) {
        match next_present(self.present, from) {
            Some(s) => (
                self.at(DiscoveryStage::Sampling(s as u8)),
                DiscoveryAction::AskData(s as u8),
            ),
            None => (self.at(DiscoveryStage::Finished), DiscoveryAction::Finished),
        }
    }

    /// The next sensor, or the end of enumeration.
    pub open spec fn from_sensor(self, sensor: int) -> (DiscoveryView, DiscoveryAction) {
        if sensor < self.sensor_count {
            (
                self.at(DiscoveryStage::Info(sensor as u8)),
                DiscoveryAction::AskInfo(sensor as u8),
            )
        } else if self.fifo {
            (self.at(DiscoveryStage::EnablingFifo), DiscoveryAction::EnableFifo)
        } else {
            self.sample_from(0)
        }
    }

    /// The replies that can follow the action of a stage.
    pub open spec fn fits(self, reply: DiscoveryReply) -> bool {
        match self.stage {
            DiscoveryStage::Info(_) => reply is Info,
            DiscoveryStage::Range(_, _) => reply is Parameter,
            DiscoveryStage::Odr(_, _, _) => reply is Parameter,
            DiscoveryStage::Registering(_, _) => reply is Registered,
            DiscoveryStage::EnablingFifo => reply is Done,
            DiscoveryStage::Sampling(_) => reply is Done,
            DiscoveryStage::Finished => false,
        }
    }

    /// What follows a reply. A sensor whose INFO fails is skipped at once; the
    /// others are asked for range and rate before anything is decided.
    pub open spec fn step(self, reply: DiscoveryReply) -> (DiscoveryView, DiscoveryAction) {
        match self.stage {
            DiscoveryStage::Info(s) => match reply->Info_0 {
                Some(info) => (
                    self.at(DiscoveryStage::Range(s, info)),
                    DiscoveryAction::AskRange(s),
                ),
                None => self.from_sensor(s + 1),
            },
            DiscoveryStage::Range(s, info) => (
                self.at(DiscoveryStage::Odr(s, info, reply->Parameter_0)),
                DiscoveryAction::AskOdr(s),
            ),
            DiscoveryStage::Odr(s, info, range) => match metadata_of(
                s,
                Some(info),
                range,
                reply->Parameter_0,
            ) {
                Ok(metadata) => (
                    self.at(DiscoveryStage::Registering(s, metadata.odr_millihz)),
                    DiscoveryAction::Register(s, metadata),
                ),
                Err(_) => self.from_sensor(s + 1),
            },
            DiscoveryStage::Registering(s, odr) => if reply->Registered_0 {
                (DiscoveryView {
                    present: self.present.update(s as int, true),
                    odrs: self.odrs.update(s as int, odr),
                    ..self
                }).from_sensor(s + 1)
            } else {
                self.from_sensor(s + 1)
            },
            DiscoveryStage::EnablingFifo => (
                self.at(DiscoveryStage::Finished),
                DiscoveryAction::Finished,
            ),
            DiscoveryStage::Sampling(s) => self.sample_from(s + 1),
            DiscoveryStage::Finished => (self, DiscoveryAction::Finished),
        }
    }
}

impl Discovery {
    /// Starts the enumeration of `sensor_count` sensors.
    pub fn start(features: CrosEcFeatures, sensor_count: u8) -> (r: (Discovery, DiscoveryAction))
        ensures
            r.0@.wf(),
            (r.0@, r.1) == (DiscoveryView {
                sensor_count,
                fifo: features.advertises(24),
                tight: features.advertises(36),
                present: Seq::new(sensor_count as nat, |i: int| false),
                odrs: Seq::new(sensor_count as nat, |i: int| 0u32),
                stage: DiscoveryStage::Finished,
            }).from_sensor(0),
    {
        let present: Vec<bool> = vec![false; sensor_count as usize];
        let odrs: Vec<u32> = vec![0u32; sensor_count as usize];
        assert(present@ =~= Seq::new(sensor_count as nat, |i: int| false));
        assert(odrs@ =~= Seq::new(sensor_count as nat, |i: int| 0u32));
        let mut discovery = Discovery {
            sensor_count,
            fifo: features.supports_motion_sense_fifo(),
            tight_timestamps: features.supports_motion_sense_tight_timestamps(),
            present,
            odrs,
            stage: DiscoveryStage::Finished,
        };
        let action = discovery.go_to_sensor(0);
        (discovery, action)
    }

    fn go_to_samples(&mut self, from: usize) -> (r: DiscoveryAction)
        requires
            old(self)@.at(DiscoveryStage::Finished).wf(),
            !old(self)@.fifo,
            from <= old(self)@.sensor_count,
        ensures
            (final(self)@, r) == old(self)@.sample_from(from as int),
            final(self)@.wf(),
    {
        let mut i: usize = from;
        while i < self.present.len()
            invariant
                from <= i <= self.present@.len(),
                *self == *old(self),
                !self.fifo,
                self.present@.len() == self.sensor_count,
                self.odrs@.len() == self.sensor_count,
                next_present(self.present@, from as int) == next_present(self.present@, i as int),
            decreases self.present@.len() - i,
        {
            if self.present[i] {
                self.stage = DiscoveryStage::Sampling(i as u8);
                return DiscoveryAction::AskData(i as u8);
            }
            i = i + 1;
        }
        self.stage = DiscoveryStage::Finished;
        DiscoveryAction::Finished
    }

    fn go_to_sensor(&mut self, sensor: u16) -> (r: DiscoveryAction)
        requires
            old(self)@.at(DiscoveryStage::Finished).wf(),
        ensures
            (final(self)@, r) == old(self)@.from_sensor(sensor as int),
            final(self)@.wf(),
    {
        if sensor < self.sensor_count as u16 {
            self.stage = DiscoveryStage::Info(sensor as u8);
            DiscoveryAction::AskInfo(sensor as u8)
        } else if self.fifo {
            self.stage = DiscoveryStage::EnablingFifo;
            DiscoveryAction::EnableFifo
        } else {
            self.go_to_samples(0)
        }
    }

    /// What to do after a reply.
    pub fn step(&mut self, reply: DiscoveryReply) -> (r: DiscoveryAction)
        requires
            old(self)@.wf(),
            old(self)@.fits(reply),
        ensures
            (final(self)@, r) == old(self)@.step(reply),
            final(self)@.wf(),
    {
        match self.stage {
            DiscoveryStage::Info(s) => match reply {
                DiscoveryReply::Info(Some(info)) => {
                    self.stage = DiscoveryStage::Range(s, info);
                    DiscoveryAction::AskRange(s)
                },
                _ => self.go_to_sensor(s as u16 + 1),
            },
            DiscoveryStage::Range(s, info) => {
                let range = match reply {
                    DiscoveryReply::Parameter(value) => value,
                    _ => None,
                };
                self.stage = DiscoveryStage::Odr(s, info, range);
                DiscoveryAction::AskOdr(s)
            },
            DiscoveryStage::Odr(s, info, range) => {
                let odr = match reply {
                    DiscoveryReply::Parameter(value) => value,
                    _ => None,
                };
                match sensor_metadata(s, Some(info), range, odr) {
                    Ok(metadata) => {
                        self.stage = DiscoveryStage::Registering(s, metadata.odr_millihz);
                        DiscoveryAction::Register(s, metadata)
                    },
                    Err(_) => self.go_to_sensor(s as u16 + 1),
                }
            },
            DiscoveryStage::Registering(s, odr) => {
                if let DiscoveryReply::Registered(true) = reply {
                    self.present.set(s as usize, true);
                    self.odrs.set(s as usize, odr);
                }
                self.go_to_sensor(s as u16 + 1)
            },
            DiscoveryStage::EnablingFifo => {
                self.stage = DiscoveryStage::Finished;
                DiscoveryAction::Finished
            },
            DiscoveryStage::Sampling(s) => self.go_to_samples(s as usize + 1),
            DiscoveryStage::Finished => DiscoveryAction::Finished,
        }
    }

    /// The processor for the sensors found.
    pub fn processor(&self) -> (r: Processor)
        requires
            self@.wf(),
        ensures
            r@.wf(),
            r@ == (ProcessorView {
                states: Seq::new(
                    self@.odrs.len(),
                    |i: int|
                        SensorState {
                            odr_millihz: self@.odrs[i],
                            last_timestamp_ns: None,
                            pending_lost: 0,
                        },
                ),
                present: self@.present,
                tight: self@.tight,
                next: Seq::new(self@.odrs.len(), |i: int| None),
            }),
    {
        Processor::new(self.odrs.as_slice(), self.present.as_slice(), self.tight_timestamps)
    }
}

/// The flags of a direct sample of `sensor_num`; `None` where the reply is
/// malformed. A direct sample has no exact time.
pub fn direct_sample_flags(sensor_num: u8, sample: &CrosEcMotionSensorData) -> (r: Option<u32>)
    ensures
        r == (if sample.sensor_num == sensor_num && sample.flags % 4 == 0 && sample.flags as int / 8
            % 4 == 0 {
            Some(
                event_flags(
                    if sample.flags as int / 4 % 2 == 1 {
                        FLAG_WAKEUP_EVENT
                    } else {
                        0
                    },
                    true,
                ),
            )
        } else {
            None::<u32>
        }),
{
    if sample.sensor_num != sensor_num || !sample.is_vector_sample() {
        return None;
    }
    let wakeup: u32 = if sample.flags / 4 % 2 == 1 {
        FLAG_WAKEUP_EVENT
    } else {
        0
    };
    Some(wakeup | FLAG_TIMESTAMP_APPROXIMATE_EVENT)
}

// Laws.

/// A hub with a FIFO is never asked for a direct sample, and one without never
/// for notifications. A direct sample is asked only of a registered sensor.
pub proof fn direct_samples_replace_a_fifo(discovery: DiscoveryView, reply: DiscoveryReply)
    requires
        discovery.wf(),
        discovery.fits(reply),
    ensures
        ({
            let (after, action) = discovery.step(reply);
            &&& action is EnableFifo ==> discovery.fifo
            &&& action matches DiscoveryAction::AskData(sensor) ==> {
                &&& !discovery.fifo
                &&& sensor < after.sensor_count
                &&& after.present[sensor as int]
            }
        }),
{
    samples_are_of_present_sensors();
}

proof fn samples_are_of_present_sensors()
    ensures
        forall|view: DiscoveryView, from: int|
            #![trigger view.sample_from(from)]
            0 <= from && view.present.len() == view.sensor_count ==> match view.sample_from(from).1 {
                DiscoveryAction::AskData(sensor) => {
                    &&& from <= sensor < view.sensor_count
                    &&& view.present[sensor as int]
                },
                _ => true,
            },
{
    assert forall|view: DiscoveryView, from: int|
        #![trigger view.sample_from(from)]
        0 <= from && view.present.len() == view.sensor_count implies match view.sample_from(
        from,
    ).1 {
        DiscoveryAction::AskData(sensor) => {
            &&& from <= sensor < view.sensor_count
            &&& view.present[sensor as int]
        },
        _ => true,
    } by {
        first_index_is_first(view.present, |p: bool| p, from);
    }
}

/// How far a discovery is from its end.
pub open spec fn questions_left(discovery: DiscoveryView) -> int {
    let count = discovery.sensor_count as int;
    match discovery.stage {
        DiscoveryStage::Info(s) => count + 2 + 4 * (count - s),
        DiscoveryStage::Range(s, _) => count + 1 + 4 * (count - s),
        DiscoveryStage::Odr(s, _, _) => count + 4 * (count - s),
        DiscoveryStage::Registering(s, _) => count - 1 + 4 * (count - s),
        DiscoveryStage::EnablingFifo => 1,
        DiscoveryStage::Sampling(s) => count - s,
        DiscoveryStage::Finished => 0,
    }
}

/// A discovery ends: every sensor is asked about once, whatever is replied,
/// and a hub without a FIFO gives at most one sample for each.
pub proof fn a_discovery_ends(discovery: DiscoveryView, reply: DiscoveryReply)
    requires
        discovery.wf(),
        discovery.fits(reply),
    ensures
        0 <= questions_left(discovery.step(reply).0) < questions_left(discovery),
{
    samples_are_of_present_sensors();
}

/// Keeps the driver linked into builds that load it by name.
pub fn force_link() {
}

} // verus!
