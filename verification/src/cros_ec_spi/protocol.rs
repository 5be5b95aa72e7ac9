//! Host-command framing and the payloads of the commands in use.

use vstd::prelude::*;

use crate::bytes::{
    append_bytes, first_index, le16, le16_bytes, le32, read_le_u16, read_le_u32, twos_complement,
};
use crate::spi::SpiError;

verus! {

pub const HOST_REQUEST_VERSION: u8 = 3;

pub const HOST_RESPONSE_VERSION: u8 = 3;

pub const HOST_HEADER_BYTES: usize = 8;

pub const SPI_FRAME_START: u8 = 0xec;

pub const SPI_RX_BAD_DATA: u8 = 0xfb;

pub const SPI_NOT_READY: u8 = 0xfc;

pub const COMMAND_PWM_SET_DUTY: u16 = 0x0025;

pub const COMMAND_PWM_GET_DUTY: u16 = 0x0026;

pub const COMMAND_GET_FEATURES: u16 = 0x000d;

pub const PWM_DISPLAY_LIGHT: u8 = 2;

pub const PWM_FULL_SCALE: u32 = 0xffff;

pub const COMMAND_MOTION_SENSE: u16 = 0x002b;

pub const MOTION_SENSE_VERSION_LEGACY: u8 = 1;

pub const MOTION_SENSE_VERSION_FIFO: u8 = 2;

pub const MOTION_SENSE_VERSION_INFO_EXTENDED: u8 = 3;

pub const MOTION_SENSE_COMMAND_DUMP: u8 = 0;

pub const MOTION_SENSE_COMMAND_INFO: u8 = 1;

pub const MOTION_SENSE_COMMAND_SENSOR_ODR: u8 = 3;

pub const MOTION_SENSE_COMMAND_SENSOR_RANGE: u8 = 4;

pub const MOTION_SENSE_COMMAND_DATA: u8 = 6;

pub const MOTION_SENSE_COMMAND_FIFO_INFO: u8 = 7;

pub const MOTION_SENSE_COMMAND_FIFO_READ: u8 = 9;

pub const MOTION_SENSE_COMMAND_FIFO_INT_ENABLE: u8 = 15;

pub const MOTION_SENSE_REQUEST_BYTES: usize = 13;

pub const MOTION_SENSOR_DATA_BYTES: usize = 8;

pub const MOTION_FIFO_INFO_FIXED_BYTES: usize = 10;

pub const MOTION_FIFO_READ_FIXED_BYTES: usize = 4;

pub const MKBP_SENSOR_FIFO_ALIGNMENT_BYTES: usize = 3;

pub const MKBP_SENSOR_FIFO_EVENT_BYTES: usize = 13;

pub const EC_RESULT_INVALID_VERSION: u16 = 6;

pub const EC_FEATURE_MOTION_SENSE: u8 = 6;

pub const EC_FEATURE_MOTION_SENSE_FIFO: u8 = 24;

pub const EC_FEATURE_MOTION_SENSE_TIGHT_TIMESTAMPS: u8 = 36;

/// FIFO entry marks a synchronization flush; its union payload is metadata.
pub const CROS_EC_MOTION_SENSOR_FLAG_FLUSH: u8 = 0x01;

/// FIFO entry stores an EC timestamp in the data union rather than XYZ values.
pub const CROS_EC_MOTION_SENSOR_FLAG_TIMESTAMP: u8 = 0x02;

/// FIFO entry originated from a wake-up sensor.
pub const CROS_EC_MOTION_SENSOR_FLAG_WAKEUP: u8 = 0x04;

/// FIFO entry reports an EC tablet-mode transition rather than XYZ values.
pub const CROS_EC_MOTION_SENSOR_FLAG_TABLET_MODE: u8 = 0x08;

/// FIFO entry reports a sensor ODR change rather than XYZ values.
pub const CROS_EC_MOTION_SENSOR_FLAG_ODR: u8 = 0x10;

/// Largest motion FIFO batch that fits safely in one EC SPI response window.
/// Callers draining a larger backlog must issue multiple reads.
pub const CROS_EC_MAX_MOTION_FIFO_VECTORS: u32 = 256;

pub const COMMAND_GET_NEXT_EVENT: u16 = 0x0067;

pub const GET_NEXT_EVENT_VERSION: u8 = 2;

pub const EC_RESULT_UNAVAILABLE: u16 = 9;

pub const MKBP_MORE_EVENTS: u8 = 0x80;

/// Failure of a Chrome EC SPI host command.
#[derive(Debug, Clone, Copy, PartialEq, Eq, Structural)]
pub enum CrosEcError {
    /// The underlying SPI controller rejected or timed out the transaction.
    Spi(SpiError),
    /// The EC rejected the bytes before accepting the host command.
    BadRequest,
    /// The EC was not ready to receive a host command.
    NotReady,
    /// No response frame appeared in the bounded polling window.
    NoResponse,
    /// The response header, length, or checksum was invalid.
    InvalidResponse,
    /// The EC returned a non-zero protocol result.
    EcResult(u16),
    /// A caller supplied a value outside the command's valid range.
    InvalidArgument,
    /// A registered MKBP listener could not consume an event.
    EventListenerFailed,
}

impl From<SpiError> for CrosEcError {
    fn from(error: SpiError) -> (r: Self) {
        CrosEcError::Spi(error)
    }
}

impl vstd::std_specs::convert::FromSpecImpl<SpiError> for CrosEcError {
    open spec fn obeys_from_spec() -> bool {
        true
    }

    open spec fn from_spec(error: SpiError) -> Self {
        CrosEcError::Spi(error)
    }
}

// Framing.

/// The sum of all bytes.
pub open spec fn byte_sum(s: Seq<u8>) -> int
    decreases s.len(),
{
    if s.len() == 0 {
        0
    } else {
        byte_sum(s.drop_last()) + s.last()
    }
}

/// The byte that brings `sum` to a multiple of 256.
pub open spec fn balancing_byte(sum: int) -> u8 {
    ((256 - sum % 256) % 256) as u8
}

/// A request packet with the given checksum byte.
pub open spec fn request_with(command: u16, version: u8, payload: Seq<u8>, checksum: u8) -> Seq<u8> {
    seq![HOST_REQUEST_VERSION, checksum] + le16_bytes(command as int) + seq![version, 0u8]
        + le16_bytes(payload.len() as int % 0x1_0000) + payload
}

/// A protocol-3 request: its bytes sum to a multiple of 256.
pub open spec fn request_packet(command: u16, version: u8, payload: Seq<u8>) -> Seq<u8> {
    request_with(
        command,
        version,
        payload,
        balancing_byte(byte_sum(request_with(command, version, payload, 0))),
    )
}

proof fn sum_after_update(s: Seq<u8>, at: int, byte: u8)
    requires
        0 <= at < s.len(),
    ensures
        byte_sum(s.update(at, byte)) == byte_sum(s) - s[at] + byte,
    decreases s.len(),
{
    if at == s.len() - 1 {
        assert(s.update(at, byte).drop_last() =~= s.drop_last());
    } else {
        assert(s.update(at, byte).drop_last() =~= s.drop_last().update(at, byte));
        sum_after_update(s.drop_last(), at, byte);
    }
}

/// Every request balances: its bytes sum to zero modulo 256.
pub proof fn requests_balance(command: u16, version: u8, payload: Seq<u8>)
    ensures
        byte_sum(request_packet(command, version, payload)) % 256 == 0,
{
    let open = request_with(command, version, payload, 0);
    let checksum = balancing_byte(byte_sum(open));
    assert(open.update(1, checksum) =~= request_packet(command, version, payload));
    sum_after_update(open, 1, checksum);
}

/// The sum of all bytes modulo 256.
fn wrapped_sum(bytes: &[u8]) -> (r: u8)
    ensures
        r == byte_sum(bytes@) % 256,
{
    let mut sum: u32 = 0;
    let mut i: usize = 0;
    while i < bytes.len()
        invariant
            i <= bytes@.len(),
            sum == byte_sum(bytes@.take(i as int)) % 256,
        decreases bytes@.len() - i,
    {
        assert(bytes@.take(i + 1).drop_last() =~= bytes@.take(i as int));
        sum = (sum + bytes[i] as u32) % 256;
        i = i + 1;
    }
    assert(bytes@.take(i as int) =~= bytes@);
    sum as u8
}

/// Builds a protocol-3 request packet.
pub fn build_request(command: u16, version: u8, payload: &[u8]) -> (r: Vec<u8>)
    ensures
        r@ == request_packet(command, version, payload@),
{
    let length: u16 = (payload.len() % 0x1_0000) as u16;
    let mut packet: Vec<u8> = Vec::new();
    packet.push(HOST_REQUEST_VERSION);
    packet.push(0);
    packet.push((command % 0x100) as u8);
    packet.push((command / 0x100) as u8);
    packet.push(version);
    packet.push(0);
    packet.push((length % 0x100) as u8);
    packet.push((length / 0x100) as u8);
    append_bytes(&mut packet, payload);
    assert(packet@ =~= request_with(command, version, payload@, 0));
    let sum: u8 = wrapped_sum(packet.as_slice());
    let checksum: u8 = if sum == 0 {
        0
    } else {
        255 - sum + 1
    };
    assert(checksum == balancing_byte(byte_sum(packet@)));
    packet.set(1, checksum);
    assert(packet@ =~= request_packet(command, version, payload@));
    packet
}

/// A byte that ends the wait for a response.
pub open spec fn is_marker() -> spec_fn(u8) -> bool {
    |byte: u8| byte == SPI_FRAME_START || byte == SPI_RX_BAD_DATA || byte == SPI_NOT_READY
}

/// The payload of the response packet that starts at `at`.
pub open spec fn packet_payload(wire: Seq<u8>, at: int) -> Result<Seq<u8>, CrosEcError> {
    if at + HOST_HEADER_BYTES > wire.len() {
        Err(CrosEcError::InvalidResponse)
    } else if wire[at] != HOST_RESPONSE_VERSION || wire[at + 6] != 0 || wire[at + 7] != 0 {
        Err(CrosEcError::InvalidResponse)
    } else if le16(wire, at + 2) != 0 {
        Err(CrosEcError::EcResult(le16(wire, at + 2) as u16))
    } else {
        let end = at + HOST_HEADER_BYTES + le16(wire, at + 4);
        if end > wire.len() || byte_sum(wire.subrange(at, end)) % 256 != 0 {
            Err(CrosEcError::InvalidResponse)
        } else {
            Ok(wire.subrange(at + HOST_HEADER_BYTES, end))
        }
    }
}

/// The payload of the response in a clocked window: the first marker byte
/// decides whether and where it starts.
pub open spec fn response_payload(wire: Seq<u8>) -> Result<Seq<u8>, CrosEcError> {
    match first_index(wire, is_marker(), 0) {
        None => Err(CrosEcError::NoResponse),
        Some(at) => if wire[at] == SPI_RX_BAD_DATA {
            Err(CrosEcError::BadRequest)
        } else if wire[at] == SPI_NOT_READY {
            Err(CrosEcError::NotReady)
        } else {
            packet_payload(wire, at + 1)
        },
    }
}

/// Finds and checks the response in a clocked window.
pub fn decode_response(wire: &[u8]) -> (r: Result<&[u8], CrosEcError>)
    ensures
        match r {
            Ok(payload) => response_payload(wire@) == Ok::<Seq<u8>, CrosEcError>(payload@),
            Err(e) => response_payload(wire@) == Err::<Seq<u8>, CrosEcError>(e),
        },
{
    let mut at: usize = 0;
    while at < wire.len() && wire[at] != SPI_FRAME_START
        invariant
            at <= wire@.len(),
            first_index(wire@, is_marker(), 0) == first_index(wire@, is_marker(), at as int),
        decreases wire@.len() - at,
    {
        if wire[at] == SPI_RX_BAD_DATA {
            return Err(CrosEcError::BadRequest);
        }
        if wire[at] == SPI_NOT_READY {
            return Err(CrosEcError::NotReady);
        }
        at = at + 1;
    }
    if at == wire.len() {
        return Err(CrosEcError::NoResponse);
    }
    let left: usize = wire.len() - at - 1;
    if left < HOST_HEADER_BYTES {
        return Err(CrosEcError::InvalidResponse);
    }
    let start: usize = at + 1;
    if wire[start] != HOST_RESPONSE_VERSION || wire[start + 6] != 0 || wire[start + 7] != 0 {
        return Err(CrosEcError::InvalidResponse);
    }
    let result: u16 = read_le_u16(wire, start + 2).unwrap();
    if result != 0 {
        return Err(CrosEcError::EcResult(result));
    }
    let length: usize = read_le_u16(wire, start + 4).unwrap() as usize;
    if left - HOST_HEADER_BYTES < length {
        return Err(CrosEcError::InvalidResponse);
    }
    let end: usize = start + HOST_HEADER_BYTES + length;
    let packet = vstd::slice::slice_subrange(wire, start, end);
    if wrapped_sum(packet) != 0 {
        return Err(CrosEcError::InvalidResponse);
    }
    Ok(vstd::slice::slice_subrange(wire, start + HOST_HEADER_BYTES, end))
}

proof fn first_index_skips_a_prefix(prefix: Seq<u8>, rest: Seq<u8>, from: int)
    requires
        0 <= from <= prefix.len(),
        rest.len() > 0,
        is_marker()(rest[0]),
        forall|i: int| 0 <= i < prefix.len() ==> !is_marker()(#[trigger] prefix[i]),
    ensures
        first_index(prefix + rest, is_marker(), from) == Some(prefix.len() as int),
    decreases prefix.len() - from,
{
    if from < prefix.len() {
        assert((prefix + rest)[from] == prefix[from]);
        first_index_skips_a_prefix(prefix, rest, from + 1);
    } else {
        assert((prefix + rest)[from] == rest[0]);
    }
}

/// A well-framed reply is read back: after any bytes that are no marker, a
/// start byte and a balanced success packet give the packet's payload,
/// whatever follows it.
pub proof fn framed_replies_are_read_back(
    idle: Seq<u8>,
    checksum: u8,
    payload: Seq<u8>,
    trailing: Seq<u8>,
)
    requires
        payload.len() <= u16::MAX,
        forall|i: int| 0 <= i < idle.len() ==> !is_marker()(#[trigger] idle[i]),
        byte_sum(
            seq![HOST_RESPONSE_VERSION, checksum, 0u8, 0u8] + le16_bytes(payload.len() as int)
                + seq![0u8, 0u8] + payload,
        ) % 256 == 0,
    ensures
        response_payload(
            idle + seq![SPI_FRAME_START] + (seq![HOST_RESPONSE_VERSION, checksum, 0u8, 0u8]
                + le16_bytes(payload.len() as int) + seq![0u8, 0u8] + payload) + trailing,
        ) == Ok::<Seq<u8>, CrosEcError>(payload),
{
    let packet = seq![HOST_RESPONSE_VERSION, checksum, 0u8, 0u8] + le16_bytes(
        payload.len() as int,
    ) + seq![0u8, 0u8] + payload;
    let wire = idle + seq![SPI_FRAME_START] + packet + trailing;
    let rest = seq![SPI_FRAME_START] + packet + trailing;
    assert(wire =~= idle + rest);
    first_index_skips_a_prefix(idle, rest, 0);
    let at = idle.len() as int;
    let start = at + 1;
    assert(wire[at] == SPI_FRAME_START);
    assert(wire.subrange(start, start + packet.len()) =~= packet);
    assert(wire[start] == packet[0]);
    assert(wire[start + 2] == packet[2]);
    assert(wire[start + 3] == packet[3]);
    assert(wire[start + 4] == packet[4]);
    assert(wire[start + 5] == packet[5]);
    assert(wire[start + 6] == packet[6]);
    assert(wire[start + 7] == packet[7]);
    assert(le16(wire, start + 4) == payload.len());
    assert(wire.subrange(start + 8, start + 8 + payload.len()) =~= payload);
}

// Backlight.

/// The duty cycle of a percentage, rounded to nearest.
pub open spec fn duty_of(percent: int) -> int {
    (percent * 0xffff + 50) / 100
}

/// The percentage of a duty cycle, rounded to nearest.
pub open spec fn percent_of(duty: int) -> int {
    (duty * 100 + 0x7fff) / 0xffff
}

pub fn pwm_duty_from_percent(percent: u8) -> (r: Result<u16, CrosEcError>)
    ensures
        r == (if percent > 100 {
            Err::<u16, CrosEcError>(CrosEcError::InvalidArgument)
        } else {
            Ok(duty_of(percent as int) as u16)
        }),
{
    if percent > 100 {
        return Err(CrosEcError::InvalidArgument);
    }
    Ok(((percent as u32 * PWM_FULL_SCALE + 50) / 100) as u16)
}

pub fn pwm_percent_from_duty(duty: u16) -> (r: u8)
    ensures
        r == percent_of(duty as int),
        r <= 100,
{
    ((duty as u32 * 100 + PWM_FULL_SCALE / 2) / PWM_FULL_SCALE) as u8
}

/// A percentage survives the way through the duty cycle.
pub proof fn percentages_survive_the_duty_cycle(percent: u8)
    requires
        percent <= 100,
    ensures
        0 <= duty_of(percent as int) <= 0xffff,
        percent_of(duty_of(percent as int)) == percent,
{
}

// Features.

/// Feature bits advertised by the Chrome EC. The wire response contains two
/// little-endian 32-bit words for feature numbers 0 through 63; unknown
/// numbers are retained.
#[derive(Debug, Clone, Copy, PartialEq, Eq)]
pub struct CrosEcFeatures {
    pub flags: [u32; 2],
}

impl CrosEcFeatures {
    /// Whether the bit of a feature is set; numbers from 64 on have none.
    pub open spec fn advertises(self, feature: u8) -> bool {
        feature < 64 && (self.flags@[feature as int / 32] >> (feature as int % 32) as u32) & 1u32
            == 1
    }

    pub fn has_feature(&self, feature: u8) -> (r: bool)
        ensures
            r == self.advertises(feature),
    {
        if feature >= 64 {
            return false;
        }
        (self.flags[(feature / 32) as usize] >> ((feature % 32) as u32)) & 1 == 1
    }

    pub fn supports_motion_sense(&self) -> (r: bool)
        ensures
            r == self.advertises(6),
    {
        self.has_feature(EC_FEATURE_MOTION_SENSE)
    }

    pub fn supports_motion_sense_fifo(&self) -> (r: bool)
        ensures
            r == self.advertises(24),
    {
        self.has_feature(EC_FEATURE_MOTION_SENSE_FIFO)
    }

    pub fn supports_motion_sense_tight_timestamps(&self) -> (r: bool)
        ensures
            r == self.advertises(36),
    {
        self.has_feature(EC_FEATURE_MOTION_SENSE_TIGHT_TIMESTAMPS)
    }
}

pub fn parse_features(response: &[u8]) -> (r: Result<CrosEcFeatures, CrosEcError>)
    ensures
        match r {
            Ok(features) => {
                &&& response@.len() == 8
                &&& features.flags@ == seq![le32(response@, 0) as u32, le32(response@, 4) as u32]
            },
            Err(e) => response@.len() != 8 && e == CrosEcError::InvalidResponse,
        },
{
    if response.len() != 8 {
        return Err(CrosEcError::InvalidResponse);
    }
    let flags: [u32; 2] = [read_le_u32(response, 0).unwrap(), read_le_u32(response, 4).unwrap()];
    assert(flags@ =~= seq![le32(response@, 0) as u32, le32(response@, 4) as u32]);
    Ok(CrosEcFeatures { flags })
}

proof fn word_bit_is_byte_bit(b0: u8, b1: u8, b2: u8, b3: u8, bit: u32)
    requires
        bit < 32,
    ensures
        ({
            let word = (b0 + 0x100 * b1 + 0x1_0000 * b2 + 0x100_0000 * b3) as u32;
            let byte = if bit < 8 {
                b0
            } else if bit < 16 {
                b1
            } else if bit < 24 {
                b2
            } else {
                b3
            };
            (word >> bit) & 1u32 == (byte >> ((bit % 8) as u8)) & 1u8
        }),
{
    let word = (b0 + 0x100 * b1 + 0x1_0000 * b2 + 0x100_0000 * b3) as u32;
    let byte = if bit < 8 {
        b0
    } else if bit < 16 {
        b1
    } else if bit < 24 {
        b2
    } else {
        b3
    };
    let shift = (bit % 8) as u8;
    assert((word >> bit) & 1u32 == ((byte >> shift) & 1u8) as u32) by (bit_vector)
        requires
            bit < 32,
            word == b0 + 0x100 * b1 + 0x1_0000 * b2 + 0x100_0000 * b3,
            shift == bit % 8,
            byte == (if bit < 8 {
                b0
            } else if bit < 16 {
                b1
            } else if bit < 24 {
                b2
            } else {
                b3
            }),
    ;
}

/// Feature `n` of a reply is bit `n % 8` of its byte `n / 8`.
pub proof fn features_are_the_reply_bits(response: Seq<u8>, features: CrosEcFeatures, feature: u8)
    requires
        response.len() == 8,
        features.flags@ == seq![le32(response, 0) as u32, le32(response, 4) as u32],
        feature < 64,
    ensures
        features.advertises(feature) <==> (response[feature as int / 8] >> ((feature % 8) as u8))
            & 1u8 == 1,
{
    let at = 4 * (feature as int / 32);
    let bit = (feature as int % 32) as u32;
    word_bit_is_byte_bit(response[at], response[at + 1], response[at + 2], response[at + 3], bit);
    assert(features.flags@[feature as int / 32] == le32(response, at) as u32);
    assert((bit % 8) as u8 == feature % 8);
}

// Motion sensors.

/// Summary returned by the motion-sense `DUMP` command.
#[derive(Debug, Clone, Copy, PartialEq, Eq, Structural)]
pub struct CrosEcMotionSensorSummary {
    /// EC-defined module status flags.
    pub module_flags: u8,
    /// Number of motion sensors managed by the EC.
    pub sensor_count: u8,
}

/// Static metadata for one motion sensor. The extended frequency and FIFO
/// fields are absent when an older EC accepts only INFO version 1.
#[derive(Debug, Clone, Copy, PartialEq, Eq, Structural)]
pub struct CrosEcMotionSensorInfo {
    pub sensor_type: u8,
    pub location: u8,
    pub chip: u8,
    pub min_frequency_millihz: Option<u32>,
    pub max_frequency_millihz: Option<u32>,
    pub fifo_max_event_count: Option<u32>,
}

/// One three-axis motion-sensor sample.
#[derive(Debug, Clone, Copy, PartialEq, Eq, Structural)]
pub struct CrosEcMotionSensorData {
    pub flags: u8,
    pub sensor_num: u8,
    pub x: i16,
    pub y: i16,
    pub z: i16,
}

/// Status of the motion FIFO.
#[derive(Debug, Clone, PartialEq, Eq)]
pub struct CrosEcMotionFifoInfo {
    /// Total FIFO capacity in vectors.
    pub size: u16,
    /// Vectors currently buffered by the EC.
    pub count: u16,
    /// EC timestamp in microseconds for the FIFO notification.
    pub timestamp_us: u32,
    /// Total number of vectors lost.
    pub total_lost: u16,
    /// Vectors lost since the preceding `FIFO_INFO`, indexed by sensor.
    pub lost_per_sensor: Vec<u16>,
}

/// A bounded batch of motion samples, in FIFO order.
#[derive(Debug, Clone, PartialEq, Eq)]
pub struct CrosEcMotionFifoData {
    pub samples: Vec<CrosEcMotionSensorData>,
}

fn unsigned_word(value: i16) -> (r: u32)
    ensures
        r == value as int % 0x1_0000,
{
    if value >= 0 {
        value as u32
    } else {
        (value as i32 + 0x1_0000) as u32
    }
}

impl CrosEcMotionSensorData {
    /// The EC time that a timestamp entry stores in place of two axes.
    pub open spec fn stored_time(self) -> int {
        self.y as int % 0x1_0000 + 0x1_0000 * (self.z as int % 0x1_0000)
    }

    /// The EC timestamp carried by a timestamp FIFO entry, in microseconds.
    pub fn timestamp_us(&self) -> (r: Option<u32>)
        ensures
            r == (if self.flags as int / 2 % 2 == 1 {
                Some(self.stored_time() as u32)
            } else {
                None::<u32>
            }),
    {
        if self.flags / 2 % 2 == 0 {
            return None;
        }
        Some(unsigned_word(self.y) + unsigned_word(self.z) * 0x1_0000)
    }

    /// Whether the XYZ fields are a sensor vector. Wake-up annotates a normal
    /// sample; timestamp, flush, ODR and tablet-mode entries repurpose the
    /// payload.
    pub fn is_vector_sample(&self) -> (r: bool)
        ensures
            r == (self.flags % 4 == 0 && self.flags as int / 8 % 4 == 0),
    {
        self.flags % 4 == 0 && self.flags / 8 % 4 == 0
    }
}

pub open spec fn padded(head: Seq<u8>, length: nat) -> Seq<u8> {
    head + Seq::new((length - head.len()) as nat, |i: int| 0u8)
}

/// The fixed-size motion-sense request of a subcommand.
pub fn build_motion_sense_payload(subcommand: u8, parameters: &[u8]) -> (r: Result<
    [u8; 13],
    CrosEcError,
>)
    ensures
        match r {
            Ok(payload) => {
                &&& parameters@.len() < MOTION_SENSE_REQUEST_BYTES
                &&& payload@ == padded(seq![subcommand] + parameters@, 13)
            },
            Err(e) => parameters@.len() >= MOTION_SENSE_REQUEST_BYTES && e
                == CrosEcError::InvalidArgument,
        },
{
    if parameters.len() >= MOTION_SENSE_REQUEST_BYTES {
        return Err(CrosEcError::InvalidArgument);
    }
    let mut payload: [u8; 13] = [0; 13];
    payload[0] = subcommand;
    let mut i: usize = 0;
    while i < parameters.len()
        invariant
            i <= parameters@.len() < 13,
            payload@.len() == 13,
            payload@[0] == subcommand,
            forall|j: int| 0 <= j < i ==> #[trigger] payload@[j + 1] == parameters@[j],
            forall|j: int| i < j < 13 ==> #[trigger] payload@[j] == 0,
        decreases parameters@.len() - i,
    {
        payload[i + 1] = parameters[i];
        i = i + 1;
    }
    assert(payload@ =~= padded(seq![subcommand] + parameters@, 13)) by {
        let expected = padded(seq![subcommand] + parameters@, 13);
        assert forall|k: int| 0 <= k < 13 implies payload@[k] == expected[k] by {
            if 1 <= k <= parameters@.len() {
                assert(payload@[(k - 1) + 1] == parameters@[k - 1]);
            }
        }
    }
    Ok(payload)
}

pub fn parse_motion_sensor_summary(response: &[u8]) -> (r: Result<
    CrosEcMotionSensorSummary,
    CrosEcError,
>)
    ensures
        r == (if response@.len() == 2 {
            Ok::<CrosEcMotionSensorSummary, CrosEcError>(
                CrosEcMotionSensorSummary { module_flags: response@[0], sensor_count: response@[1] },
            )
        } else {
            Err(CrosEcError::InvalidResponse)
        }),
{
    if response.len() != 2 {
        return Err(CrosEcError::InvalidResponse);
    }
    Ok(CrosEcMotionSensorSummary { module_flags: response[0], sensor_count: response[1] })
}

pub fn parse_motion_sensor_info_v1(response: &[u8]) -> (r: Result<
    CrosEcMotionSensorInfo,
    CrosEcError,
>)
    ensures
        r == (if response@.len() == 3 {
            Ok::<CrosEcMotionSensorInfo, CrosEcError>(
                CrosEcMotionSensorInfo {
                    sensor_type: response@[0],
                    location: response@[1],
                    chip: response@[2],
                    min_frequency_millihz: None,
                    max_frequency_millihz: None,
                    fifo_max_event_count: None,
                },
            )
        } else {
            Err(CrosEcError::InvalidResponse)
        }),
{
    if response.len() != 3 {
        return Err(CrosEcError::InvalidResponse);
    }
    Ok(
        CrosEcMotionSensorInfo {
            sensor_type: response[0],
            location: response[1],
            chip: response[2],
            min_frequency_millihz: None,
            max_frequency_millihz: None,
            fifo_max_event_count: None,
        },
    )
}

/// INFO version 3 aligns its words to four bytes after the three `u8` fields.
pub fn parse_motion_sensor_info_v3(response: &[u8]) -> (r: Result<
    CrosEcMotionSensorInfo,
    CrosEcError,
>)
    ensures
        r == (if response@.len() == 16 {
            Ok::<CrosEcMotionSensorInfo, CrosEcError>(
                CrosEcMotionSensorInfo {
                    sensor_type: response@[0],
                    location: response@[1],
                    chip: response@[2],
                    min_frequency_millihz: Some(le32(response@, 4) as u32),
                    max_frequency_millihz: Some(le32(response@, 8) as u32),
                    fifo_max_event_count: Some(le32(response@, 12) as u32),
                },
            )
        } else {
            Err(CrosEcError::InvalidResponse)
        }),
{
    if response.len() != 16 {
        return Err(CrosEcError::InvalidResponse);
    }
    Ok(
        CrosEcMotionSensorInfo {
            sensor_type: response[0],
            location: response[1],
            chip: response[2],
            min_frequency_millihz: read_le_u32(response, 4),
            max_frequency_millihz: read_le_u32(response, 8),
            fifo_max_event_count: read_le_u32(response, 12),
        },
    )
}

/// The signed 16-bit value of two little-endian bytes.
pub open spec fn signed16(s: Seq<u8>, at: int) -> i16 {
    twos_complement(le16(s, at), 0x1_0000) as i16
}

/// The signed 32-bit value of four little-endian bytes.
pub open spec fn signed32(s: Seq<u8>, at: int) -> i32 {
    twos_complement(le32(s, at), 0x1_0000_0000) as i32
}

fn read_signed16(bytes: &[u8], at: usize) -> (r: i16)
    requires
        at + 2 <= bytes@.len(),
    ensures
        r == signed16(bytes@, at as int),
{
    let value: i32 = bytes[at] as i32 + bytes[at + 1] as i32 * 0x100;
    if value < 0x8000 {
        value as i16
    } else {
        (value - 0x1_0000) as i16
    }
}

fn read_signed32(bytes: &[u8]) -> (r: i32)
    requires
        bytes@.len() >= 4,
    ensures
        r == signed32(bytes@, 0),
{
    let value: i64 = read_le_u32(bytes, 0).unwrap() as i64;
    if value < 0x8000_0000 {
        value as i32
    } else {
        (value - 0x1_0000_0000) as i32
    }
}

/// The eight-byte sample at `at`.
pub open spec fn sample_at(s: Seq<u8>, at: int) -> CrosEcMotionSensorData {
    CrosEcMotionSensorData {
        flags: s[at],
        sensor_num: s[at + 1],
        x: signed16(s, at + 2),
        y: signed16(s, at + 4),
        z: signed16(s, at + 6),
    }
}

fn read_sample(bytes: &[u8], at: usize) -> (r: CrosEcMotionSensorData)
    requires
        at + 8 <= bytes@.len(),
    ensures
        r == sample_at(bytes@, at as int),
{
    CrosEcMotionSensorData {
        flags: bytes[at],
        sensor_num: bytes[at + 1],
        x: read_signed16(bytes, at + 2),
        y: read_signed16(bytes, at + 4),
        z: read_signed16(bytes, at + 6),
    }
}

pub fn parse_motion_sensor_data(response: &[u8]) -> (r: Result<CrosEcMotionSensorData, CrosEcError>)
    ensures
        r == (if response@.len() == MOTION_SENSOR_DATA_BYTES {
            Ok::<CrosEcMotionSensorData, CrosEcError>(sample_at(response@, 0))
        } else {
            Err(CrosEcError::InvalidResponse)
        }),
{
    if response.len() != MOTION_SENSOR_DATA_BYTES {
        return Err(CrosEcError::InvalidResponse);
    }
    Ok(read_sample(response, 0))
}

/// The FIFO status that the bytes from `at` on spell, with `sensors` counters.
pub open spec fn fifo_info_matches(
    info: CrosEcMotionFifoInfo,
    s: Seq<u8>,
    at: int,
    sensors: int,
) -> bool {
    &&& info.size == le16(s, at)
    &&& info.count == le16(s, at + 2)
    &&& info.timestamp_us == le32(s, at + 4)
    &&& info.total_lost == le16(s, at + 8)
    &&& info.lost_per_sensor@ == Seq::new(
        sensors as nat,
        |i: int| le16(s, at + MOTION_FIFO_INFO_FIXED_BYTES + 2 * i) as u16,
    )
}

pub fn parse_motion_fifo_info(response: &[u8], sensor_count: u8) -> (r: Result<
    CrosEcMotionFifoInfo,
    CrosEcError,
>)
    ensures
        match r {
            Ok(info) => {
                &&& response@.len() == MOTION_FIFO_INFO_FIXED_BYTES + 2 * sensor_count
                &&& fifo_info_matches(info, response@, 0, sensor_count as int)
            },
            Err(e) => response@.len() != MOTION_FIFO_INFO_FIXED_BYTES + 2 * sensor_count && e
                == CrosEcError::InvalidResponse,
        },
{
    let expected: usize = MOTION_FIFO_INFO_FIXED_BYTES + sensor_count as usize * 2;
    if response.len() != expected {
        return Err(CrosEcError::InvalidResponse);
    }
    let mut lost_per_sensor: Vec<u16> = Vec::new();
    let mut i: usize = 0;
    while i < sensor_count as usize
        invariant
            i <= sensor_count,
            response@.len() == MOTION_FIFO_INFO_FIXED_BYTES + 2 * sensor_count,
            lost_per_sensor@ == Seq::new(
                i as nat,
                |j: int| le16(response@, MOTION_FIFO_INFO_FIXED_BYTES + 2 * j) as u16,
            ),
        decreases sensor_count - i,
    {
        lost_per_sensor.push(
            read_le_u16(response, MOTION_FIFO_INFO_FIXED_BYTES + 2 * i).unwrap(),
        );
        i = i + 1;
    }
    Ok(
        CrosEcMotionFifoInfo {
            size: read_le_u16(response, 0).unwrap(),
            count: read_le_u16(response, 2).unwrap(),
            timestamp_us: read_le_u32(response, 4).unwrap(),
            total_lost: read_le_u16(response, 8).unwrap(),
            lost_per_sensor,
        },
    )
}

/// Decodes the FIFO snapshot in an MKBP sensor-FIFO event: three alignment
/// bytes, then the fixed status. Loss counters per sensor do not fit in it.
pub fn parse_motion_fifo_event(data: &[u8]) -> (r: Result<CrosEcMotionFifoInfo, CrosEcError>)
    ensures
        match r {
            Ok(info) => {
                &&& data@.len() == MKBP_SENSOR_FIFO_EVENT_BYTES
                &&& fifo_info_matches(
                    info,
                    data@,
                    MKBP_SENSOR_FIFO_ALIGNMENT_BYTES as int,
                    0,
                )
            },
            Err(e) => data@.len() != MKBP_SENSOR_FIFO_EVENT_BYTES && e
                == CrosEcError::InvalidResponse,
        },
{
    if data.len() != MKBP_SENSOR_FIFO_EVENT_BYTES {
        return Err(CrosEcError::InvalidResponse);
    }
    let status = vstd::slice::slice_subrange(data, MKBP_SENSOR_FIFO_ALIGNMENT_BYTES, data.len());
    let info = parse_motion_fifo_info(status, 0)?;
    assert(info.lost_per_sensor@ =~= Seq::new(
        0,
        |i: int|
            le16(
                data@,
                MKBP_SENSOR_FIFO_ALIGNMENT_BYTES + MOTION_FIFO_INFO_FIXED_BYTES + 2 * i,
            ) as u16,
    ));
    Ok(info)
}

pub fn parse_motion_fifo_data(response: &[u8], requested_vectors: u32) -> (r: Result<
    CrosEcMotionFifoData,
    CrosEcError,
>)
    ensures
        ({
            let count = le32(response@, 0);
            let valid = response@.len() >= 4 && count <= requested_vectors && count
                <= CROS_EC_MAX_MOTION_FIFO_VECTORS && response@.len() == 4 + 8 * count;
            match r {
                Ok(data) => valid && data.samples@ == Seq::new(
                    count as nat,
                    |i: int| sample_at(response@, 4 + 8 * i),
                ),
                Err(e) => !valid && e == CrosEcError::InvalidResponse,
            }
        }),
{
    if response.len() < MOTION_FIFO_READ_FIXED_BYTES {
        return Err(CrosEcError::InvalidResponse);
    }
    let count: u32 = read_le_u32(response, 0).unwrap();
    if count > requested_vectors || count > CROS_EC_MAX_MOTION_FIFO_VECTORS {
        return Err(CrosEcError::InvalidResponse);
    }
    if response.len() != MOTION_FIFO_READ_FIXED_BYTES + count as usize * MOTION_SENSOR_DATA_BYTES {
        return Err(CrosEcError::InvalidResponse);
    }
    let mut samples: Vec<CrosEcMotionSensorData> = Vec::new();
    let mut i: usize = 0;
    while i < count as usize
        invariant
            i <= count <= CROS_EC_MAX_MOTION_FIFO_VECTORS,
            response@.len() == 4 + 8 * count,
            samples@ == Seq::new(i as nat, |j: int| sample_at(response@, 4 + 8 * j)),
        decreases count - i,
    {
        samples.push(read_sample(response, 4 + 8 * i));
        i = i + 1;
    }
    Ok(CrosEcMotionFifoData { samples })
}

pub fn parse_motion_fifo_interrupt_enabled(response: &[u8]) -> (r: Result<bool, CrosEcError>)
    ensures
        r == (if response@.len() == 4 && le32(response@, 0) == 0 {
            Ok::<bool, CrosEcError>(false)
        } else if response@.len() == 4 && le32(response@, 0) == 1 {
            Ok(true)
        } else {
            Err(CrosEcError::InvalidResponse)
        }),
{
    if response.len() != 4 {
        return Err(CrosEcError::InvalidResponse);
    }
    match read_le_u32(response, 0).unwrap() {
        0 => Ok(false),
        1 => Ok(true),
        _ => Err(CrosEcError::InvalidResponse),
    }
}

pub fn parse_motion_i32_response(response: &[u8]) -> (r: Result<i32, CrosEcError>)
    ensures
        r == (if response@.len() == 4 {
            Ok::<i32, CrosEcError>(signed32(response@, 0))
        } else {
            Err(CrosEcError::InvalidResponse)
        }),
{
    if response.len() != 4 {
        return Err(CrosEcError::InvalidResponse);
    }
    Ok(read_signed32(response))
}

// Events.

/// One MKBP event.
#[derive(Debug, Eq, PartialEq)]
pub struct MkbpEvent<'a> {
    pub event_type: u8,
    pub more: bool,
    pub data: &'a [u8],
}

/// Splits an event response into its type, its `more` flag and its data.
pub fn parse_mkbp_event(response: &[u8]) -> (r: Result<MkbpEvent<'_>, CrosEcError>)
    ensures
        match r {
            Ok(event) => {
                &&& response@.len() > 0
                &&& event.event_type == response@[0] % MKBP_MORE_EVENTS
                &&& event.more == (response@[0] >= MKBP_MORE_EVENTS)
                &&& event.data@ == response@.subrange(1, response@.len() as int)
            },
            Err(e) => response@.len() == 0 && e == CrosEcError::InvalidResponse,
        },
{
    if response.len() == 0 {
        return Err(CrosEcError::InvalidResponse);
    }
    Ok(
        MkbpEvent {
            event_type: response[0] % MKBP_MORE_EVENTS,
            more: response[0] >= MKBP_MORE_EVENTS,
            data: vstd::slice::slice_subrange(response, 1, response.len()),
        },
    )
}

} // verus!
