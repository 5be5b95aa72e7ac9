//! What commands and replies mean on the wire.

use vstd::prelude::*;

use crate::bytes::{be32, first_index, first_index_is_first, le16, le16_bytes, le32, le32_bytes};
use crate::cros_ec_spi::{
    drain_dispatched, drain_reply, earlier_wait, motion_command, parse_display_backlight_percent,
    parse_empty_reply, query_parameters, retry_delay, wants_legacy_info, wired, CrosEcSpi,
    DrainStep, EcNode,
};
use crate::cros_ec_spi::protocol::{
    byte_sum, duty_of, features_are_the_reply_bits, fifo_info_matches, is_marker, packet_payload,
    parse_mkbp_event, parse_motion_fifo_data, parse_motion_fifo_interrupt_enabled,
    parse_motion_i32_response, parse_motion_sensor_data, parse_motion_sensor_info_v1,
    parse_motion_sensor_info_v3, parse_motion_sensor_summary, percent_of, request_packet,
    response_payload, sample_at, signed16, signed32, CrosEcError, CrosEcFeatures,
    CrosEcMotionFifoData, CrosEcMotionFifoInfo, CrosEcMotionSensorData, CrosEcMotionSensorInfo,
    CrosEcMotionSensorSummary, MkbpEvent,
};

verus! {

// Requests.

/// A request says what it is: its format, the command, the version and how long
/// the payload is, and then it carries the payload.
pub proof fn requests_carry_their_command(command: u16, version: u8, payload: Seq<u8>)
    requires
        payload.len() <= u16::MAX,
    ensures
        ({
            let packet = request_packet(command, version, payload);
            &&& packet.len() == 8 + payload.len()
            &&& packet[0] == 3
            &&& le16(packet, 2) == command
            &&& packet[4] == version
            &&& packet[5] == 0
            &&& le16(packet, 6) == payload.len()
            &&& packet.subrange(8, packet.len() as int) == payload
        }),
{
    let packet = request_packet(command, version, payload);
    assert(packet.subrange(8, packet.len() as int) =~= payload);
}

/// A motion command starts with what is asked for, goes on with the parameters
/// and is filled up with zeros.
pub proof fn motion_commands_carry_their_parameters(
    version: u8,
    subcommand: u8,
    parameters: Seq<u8>,
    i: int,
)
    requires
        parameters.len() < 13,
        0 <= i < 13,
    ensures
        ({
            let command = motion_command(version, subcommand, parameters);
            &&& command.command == 0x2b
            &&& command.version == version
            &&& command.payload.len() == 13
            &&& command.payload[i] == if i == 0 {
                subcommand
            } else if i <= parameters.len() {
                parameters[i - 1]
            } else {
                0
            }
        }),
{
}

// Replies.

/// A window without any of the three markers holds no reply; and the first
/// marker decides: 0xfb refuses the request, 0xfc says that the controller is
/// not ready, and 0xec starts a reply.
pub proof fn the_first_marker_decides(window: Seq<u8>, at: int)
    requires
        0 <= at <= window.len(),
        forall|i: int|
            0 <= i < at ==> #[trigger] window[i] != 0xec && window[i] != 0xfb && window[i] != 0xfc,
    ensures
        at == window.len() ==> response_payload(window) == Err::<Seq<u8>, CrosEcError>(
            CrosEcError::NoResponse,
        ),
        at < window.len() && window[at] == 0xfb ==> response_payload(window) == Err::<
            Seq<u8>,
            CrosEcError,
        >(CrosEcError::BadRequest),
        at < window.len() && window[at] == 0xfc ==> response_payload(window) == Err::<
            Seq<u8>,
            CrosEcError,
        >(CrosEcError::NotReady),
        at < window.len() && window[at] == 0xec ==> response_payload(window) == packet_payload(
            window,
            at + 1,
        ),
{
    first_index_is_first(window, is_marker(), 0);
    match first_index(window, is_marker(), 0) {
        Some(i) => {
            assert(is_marker()(window[i]));
            if at < i {
                assert(!is_marker()(window[at]));
            }
        },
        None => {
            if at < window.len() {
                assert(!is_marker()(window[at]));
            }
        },
    }
}

/// A reply is believed only if it is whole: of the known format, with nothing
/// set that is reserved, within the window, and balanced. A result that is not
/// zero is passed on.
pub proof fn a_believed_reply_is_whole(window: Seq<u8>, at: int)
    requires
        0 <= at,
    ensures
        packet_payload(window, at) matches Ok(payload) ==> {
            &&& at + 8 + payload.len() <= window.len()
            &&& window[at] == 3
            &&& window[at + 2] == 0 && window[at + 3] == 0
            &&& le16(window, at + 4) == payload.len()
            &&& window[at + 6] == 0 && window[at + 7] == 0
            &&& payload == window.subrange(at + 8, at + 8 + payload.len())
            &&& byte_sum(window.subrange(at, at + 8 + payload.len())) % 256 == 0
        },
        at + 8 <= window.len() && window[at] == 3 && window[at + 6] == 0 && window[at + 7] == 0
            && le16(window, at + 2) != 0 ==> packet_payload(window, at) == Err::<
            Seq<u8>,
            CrosEcError,
        >(CrosEcError::EcResult(le16(window, at + 2) as u16)),
{
}

// Backlight.

/// Off is no duty and full is all of it; more is never darker; and a duty cycle
/// reads as the nearest percentage.
pub proof fn brightness_follows_the_duty_cycle(a: int, b: int, duty: int)
    requires
        0 <= a <= b <= 100,
        0 <= duty <= 0xffff,
    ensures
        duty_of(0) == 0,
        duty_of(100) == 0xffff,
        duty_of(a) <= duty_of(b),
        -100 <= 2 * (100 * duty_of(a) - 0xffff * a) <= 100,
        -0xffff <= 2 * (0xffff * percent_of(duty) - 100 * duty) <= 0xffff,
        0 <= percent_of(duty) <= 100,
{
}

// Motion sensors.

/// The two bytes of a signed value, least significant first.
pub open spec fn signed_bytes(value: i16) -> Seq<u8> {
    le16_bytes(value as int % 0x1_0000)
}

proof fn signed_values_are_read_back(s: Seq<u8>, at: int, value: i16)
    requires
        0 <= at,
        at + 2 <= s.len(),
        s[at] == signed_bytes(value)[0],
        s[at + 1] == signed_bytes(value)[1],
    ensures
        signed16(s, at) == value,
{
}

/// A sample is read as it was stored: flags, sensor, and the three axes in
/// order, each of two bytes with a sign.
pub proof fn stored_samples_are_read_back(sample: CrosEcMotionSensorData, tail: Seq<u8>)
    ensures
        sample_at(
            seq![sample.flags, sample.sensor_num] + signed_bytes(sample.x) + signed_bytes(sample.y)
                + signed_bytes(sample.z) + tail,
            0,
        ) == sample,
{
    let s = seq![sample.flags, sample.sensor_num] + signed_bytes(sample.x) + signed_bytes(sample.y)
        + signed_bytes(sample.z) + tail;
    signed_values_are_read_back(s, 2, sample.x);
    signed_values_are_read_back(s, 4, sample.y);
    signed_values_are_read_back(s, 6, sample.z);
}

/// A signed 32-bit value is read as it was stored.
pub proof fn stored_settings_are_read_back(value: i32)
    ensures
        signed32(le32_bytes(value as int % 0x1_0000_0000), 0) == value,
{
}

/// A sample that carries a time has it in its last two axes, the low half
/// first.
pub proof fn stored_times_are_read_back(sample: CrosEcMotionSensorData, time: u32)
    requires
        (sample.y - time) % 0x1_0000 == 0,
        (sample.z - time as int / 0x1_0000) % 0x1_0000 == 0,
    ensures
        sample.stored_time() == time,
{
}

/// A FIFO status is read as it was stored: size, count, time and total loss,
/// then the loss of each sensor.
pub proof fn stored_fifo_states_are_read_back(
    info: CrosEcMotionFifoInfo,
    head: Seq<u8>,
    size: u16,
    count: u16,
    time: u32,
    total: u16,
    losses: Seq<u8>,
    sensor: int,
)
    requires
        0 <= 2 * sensor,
        2 * sensor + 2 <= losses.len(),
        fifo_info_matches(
            info,
            head + le16_bytes(size as int) + le16_bytes(count as int) + le32_bytes(time as int)
                + le16_bytes(total as int) + losses,
            head.len() as int,
            losses.len() as int / 2,
        ),
    ensures
        info.size == size,
        info.count == count,
        info.timestamp_us == time,
        info.total_lost == total,
        info.lost_per_sensor@.len() == losses.len() as int / 2,
        info.lost_per_sensor@[sensor] == losses[2 * sensor] + 0x100 * losses[2 * sensor + 1],
{
    let at = head.len() as int;
    let s = head + le16_bytes(size as int) + le16_bytes(count as int) + le32_bytes(time as int)
        + le16_bytes(total as int) + losses;
    assert(s[at] == (size as int % 0x100) as u8);
    assert(s[at + 1] == (size as int / 0x100 % 0x100) as u8);
    assert(s[at + 2] == (count as int % 0x100) as u8);
    assert(s[at + 3] == (count as int / 0x100 % 0x100) as u8);
    crate::bytes::le32_of_bytes(time);
    assert(s[at + 4] == le32_bytes(time as int)[0]);
    assert(s[at + 5] == le32_bytes(time as int)[1]);
    assert(s[at + 6] == le32_bytes(time as int)[2]);
    assert(s[at + 7] == le32_bytes(time as int)[3]);
    assert(s[at + 8] == (total as int % 0x100) as u8);
    assert(s[at + 9] == (total as int / 0x100 % 0x100) as u8);
    assert(s[at + 10 + 2 * sensor] == losses[2 * sensor]);
    assert(s[at + 10 + 2 * sensor + 1] == losses[2 * sensor + 1]);
}

/// A batch is taken only if it is as long as it says and no longer than was
/// asked for, and each of its samples is the one in its place.
pub proof fn a_taken_batch_is_complete(
    response: &[u8],
    requested: u32,
    r: Result<CrosEcMotionFifoData, CrosEcError>,
)
    requires
        call_ensures(parse_motion_fifo_data, (response, requested), r),
    ensures
        match r {
            Ok(data) => {
                &&& data.samples@.len() <= requested
                &&& data.samples@.len() <= 256
                &&& response@.len() == 4 + 8 * data.samples@.len()
                &&& le32(response@, 0) == data.samples@.len()
                &&& forall|i: int|
                    0 <= i < data.samples@.len() ==> #[trigger] data.samples@[i] == sample_at(
                        response@,
                        4 + 8 * i,
                    )
            },
            Err(e) => e == CrosEcError::InvalidResponse && !(response@.len() >= 4 && le32(
                response@,
                0,
            ) <= requested && le32(response@, 0) <= 256 && response@.len() == 4 + 8 * le32(
                response@,
                0,
            )),
        },
{
}

/// Metadata is read byte by byte: type, location and chip, and in the extended
/// form the slowest and the fastest rate and the share of the FIFO.
pub proof fn sensor_metadata_is_read(
    response: &[u8],
    brief: Result<CrosEcMotionSensorInfo, CrosEcError>,
    full: Result<CrosEcMotionSensorInfo, CrosEcError>,
    summary: Result<CrosEcMotionSensorSummary, CrosEcError>,
)
    requires
        call_ensures(parse_motion_sensor_info_v1, (response,), brief),
        call_ensures(parse_motion_sensor_info_v3, (response,), full),
        call_ensures(parse_motion_sensor_summary, (response,), summary),
    ensures
        brief is Ok <==> response@.len() == 3,
        full is Ok <==> response@.len() == 16,
        summary is Ok <==> response@.len() == 2,
        brief matches Ok(info) ==> seq![info.sensor_type, info.location, info.chip] == response@
            && info.max_frequency_millihz is None,
        full matches Ok(info) ==> {
            &&& seq![info.sensor_type, info.location, info.chip] == response@.take(3)
            &&& info.min_frequency_millihz matches Some(v) && le32_bytes(v as int)
                == response@.subrange(4, 8)
            &&& info.max_frequency_millihz matches Some(v) && le32_bytes(v as int)
                == response@.subrange(8, 12)
            &&& info.fifo_max_event_count matches Some(v) && le32_bytes(v as int)
                == response@.subrange(12, 16)
        },
        summary matches Ok(info) ==> seq![info.module_flags, info.sensor_count] == response@,
{
    if let Ok(info) = brief {
        assert(seq![info.sensor_type, info.location, info.chip] =~= response@);
    }
    if let Ok(info) = full {
        assert(seq![info.sensor_type, info.location, info.chip] =~= response@.take(3));
        words_are_spelled_back(response@, 4);
        words_are_spelled_back(response@, 8);
        words_are_spelled_back(response@, 12);
    }
    if let Ok(info) = summary {
        assert(seq![info.module_flags, info.sensor_count] =~= response@);
    }
}

/// The bytes of a word are the bytes that it was read from.
proof fn words_are_spelled_back(s: Seq<u8>, at: int)
    requires
        0 <= at,
        at + 4 <= s.len(),
    ensures
        le32_bytes(le32(s, at)) == s.subrange(at, at + 4),
        0 <= le32(s, at) <= u32::MAX,
{
    let value = le32(s, at);
    let high = s[at + 1] + 0x100 * s[at + 2] + 0x1_0000 * s[at + 3];
    let higher = s[at + 2] + 0x100 * s[at + 3];
    assert(value == s[at] + 0x100 * high);
    assert(value % 0x100 == s[at] && value / 0x100 == high);
    assert(high == s[at + 1] + 0x100 * higher);
    assert(high % 0x100 == s[at + 1] && high / 0x100 == higher);
    assert(higher % 0x100 == s[at + 2] && higher / 0x100 == s[at + 3]);
    assert(value / 0x1_0000 == higher) by {
        assert(value == (s[at] + 0x100 * s[at + 1]) + 0x1_0000 * higher);
    }
    assert(value / 0x100_0000 == s[at + 3]) by {
        assert(value == (s[at] + 0x100 * s[at + 1] + 0x1_0000 * s[at + 2]) + 0x100_0000 * s[at
            + 3]);
    }
    let bytes = le32_bytes(value);
    assert(bytes[0] == s[at]);
    assert(bytes[1] == s[at + 1]);
    assert(bytes[2] == s[at + 2]);
    assert(bytes[3] == s[at + 3]);
    assert(bytes =~= s.subrange(at, at + 4));
}

// Events.

/// The first byte of an event is its type, with the highest bit set where more
/// follow; the rest is its data.
pub proof fn events_say_whether_more_follow(
    response: &[u8],
    r: Result<MkbpEvent<'_>, CrosEcError>,
)
    requires
        call_ensures(parse_mkbp_event, (response,), r),
    ensures
        match r {
            Ok(event) => {
                &&& response@ == seq![response@[0]] + event.data@
                &&& event.event_type < 0x80
                &&& response@[0] == event.event_type + if event.more {
                    0x80int
                } else {
                    0int
                }
            },
            Err(e) => response@.len() == 0 && e == CrosEcError::InvalidResponse,
        },
{
    if let Ok(event) = r {
        assert(response@ =~= seq![response@[0]] + event.data@);
    }
}

/// A drain goes on exactly while events come, all of them are taken and more
/// are announced, up to 64 events. It ends well where none is left.
pub proof fn a_drain_ends_where_nothing_is_left(
    reply: Result<&[u8], CrosEcError>,
    step: DrainStep,
    handled: usize,
    more: bool,
    consumed: bool,
    end: Option<Result<(), CrosEcError>>,
)
    requires
        call_ensures(drain_reply, (reply,), step),
        call_ensures(drain_dispatched, (handled, more, consumed), end),
    ensures
        reply == Err::<&[u8], CrosEcError>(CrosEcError::EcResult(9)) ==> step
            == DrainStep::Finished(Ok(())),
        (reply matches Err(e) ==> e != CrosEcError::EcResult(9) ==> step == DrainStep::Finished(
            Err(e),
        )),
        reply matches Ok(response) ==> (response@.len() > 0 <==> step is Dispatch),
        end is None <==> consumed && more && handled < 64,
        end == Some(Ok::<(), CrosEcError>(())) <==> consumed && !more,
{
}

/// The first retry waits a quarter of a second, each further one twice as long,
/// and none longer than eight seconds.
pub proof fn retries_back_off(errors: u64)
    requires
        1 <= errors < u64::MAX,
    ensures
        retry_delay(1) == 250_000_000,
        errors < 6 ==> retry_delay((errors + 1) as u64) == 2 * retry_delay(errors),
        errors >= 6 ==> retry_delay(errors) == 8_000_000_000,
{
    vstd::arithmetic::power2::lemma2_to64();
}

// Placement.

/// A controller is wired only with a handle, a chip select of one byte and an
/// interrupt that is level-low; the pin and its controller are those named, and
/// the speed is the one allowed, or a default.
pub proof fn a_wired_controller_is_complete(node: EcNode)
    ensures
        wired(node) matches Ok(wiring) ==> {
            &&& node.reg == Some(wiring.placement.chip_select as usize)
            &&& node.phandle == Some(wiring.placement.phandle as usize) || node.linux_phandle
                == Some(wiring.placement.phandle as usize)
            &&& (node.phandle matches Some(handle) ==> handle <= u32::MAX
                ==> wiring.placement.phandle == handle)
            &&& (node.maximum_speed matches Some(speed) ==> speed <= u32::MAX
                ==> wiring.placement.maximum_speed_hz == speed)
            &&& node.maximum_speed is None ==> wiring.placement.maximum_speed_hz == 1_010_000
            &&& node.interrupt_parent == Some(wiring.irq_controller as usize)
            &&& node.interrupts matches Some(cells) && cells@.len() >= 8 && wiring.irq_pin == be32(
                cells@,
                0,
            ) && cells@[7] % 16 == 8
        },
{
    if wired(node) is Ok {
        let cells = node.interrupts->Some_0@;
        assert(be32(cells, 4) % 16 == cells[7] % 16);
    }
}

/// Short replies have their exact length: nothing for a set command, two
/// bytes for a duty cycle, four for a setting or a switch, eight for a sample.
pub proof fn short_replies_have_their_length(
    response: &[u8],
    empty: Result<(), CrosEcError>,
    duty: Result<u8, CrosEcError>,
    setting: Result<i32, CrosEcError>,
    switch: Result<bool, CrosEcError>,
    sample: Result<CrosEcMotionSensorData, CrosEcError>,
)
    requires
        call_ensures(parse_empty_reply, (response,), empty),
        call_ensures(parse_display_backlight_percent, (response,), duty),
        call_ensures(parse_motion_i32_response, (response,), setting),
        call_ensures(parse_motion_fifo_interrupt_enabled, (response,), switch),
        call_ensures(parse_motion_sensor_data, (response,), sample),
    ensures
        empty is Ok <==> response@.len() == 0,
        duty is Ok <==> response@.len() == 2,
        setting is Ok <==> response@.len() == 4,
        setting matches Ok(value) ==> value == signed32(response@, 0),
        switch matches Ok(on) ==> response@.len() == 4 && le32(response@, 0) == (if on {
            1int
        } else {
            0int
        }),
        response@.len() == 4 && le32(response@, 0) <= 1 ==> switch is Ok,
        sample is Ok <==> response@.len() == 8,
        sample matches Ok(value) ==> value == sample_at(response@, 0),
{
}

/// A command that failed passes its error on, whatever it asked for.
pub proof fn failed_commands_pass_their_error_on(
    error: CrosEcError,
    features: Result<CrosEcFeatures, CrosEcError>,
    brightness: Result<u8, CrosEcError>,
    set: Result<(), CrosEcError>,
    summary: Result<CrosEcMotionSensorSummary, CrosEcError>,
    rate: Result<i32, CrosEcError>,
    range: Result<i32, CrosEcError>,
    sample: Result<CrosEcMotionSensorData, CrosEcError>,
    switch: Result<bool, CrosEcError>,
    batch: Result<CrosEcMotionFifoData, CrosEcError>,
    count: u32,
)
    requires
        call_ensures(CrosEcSpi::features, (Err(error),), features),
        call_ensures(CrosEcSpi::get_display_backlight_percent, (Err(error),), brightness),
        call_ensures(CrosEcSpi::set_display_backlight_percent, (Err(error),), set),
        call_ensures(CrosEcSpi::motion_sensor_summary, (Err(error),), summary),
        call_ensures(CrosEcSpi::motion_sensor_odr_millihz, (Err(error),), rate),
        call_ensures(CrosEcSpi::motion_sensor_range, (Err(error),), range),
        call_ensures(CrosEcSpi::motion_sensor_data, (Err(error),), sample),
        call_ensures(CrosEcSpi::motion_fifo_interrupt_enabled, (Err(error),), switch),
        call_ensures(CrosEcSpi::motion_fifo_read, (Err(error), count), batch),
    ensures
        features is Err && features->Err_0 == error,
        brightness is Err && brightness->Err_0 == error,
        set is Err && set->Err_0 == error,
        summary is Err && summary->Err_0 == error,
        rate is Err && rate->Err_0 == error,
        range is Err && range->Err_0 == error,
        sample is Err && sample->Err_0 == error,
        switch is Err && switch->Err_0 == error,
        batch is Err && batch->Err_0 == error,
{
}

/// A reply is read as what was asked for.
pub proof fn replies_are_read_as_what_was_asked(
    response: &[u8],
    rate: Result<i32, CrosEcError>,
    range: Result<i32, CrosEcError>,
    brightness: Result<u8, CrosEcError>,
    sample: Result<CrosEcMotionSensorData, CrosEcError>,
    batch: Result<CrosEcMotionFifoData, CrosEcError>,
    count: u32,
)
    requires
        call_ensures(CrosEcSpi::motion_sensor_odr_millihz, (Ok(response),), rate),
        call_ensures(CrosEcSpi::motion_sensor_range, (Ok(response),), range),
        call_ensures(CrosEcSpi::get_display_backlight_percent, (Ok(response),), brightness),
        call_ensures(CrosEcSpi::motion_sensor_data, (Ok(response),), sample),
        call_ensures(CrosEcSpi::motion_fifo_read, (Ok(response), count), batch),
    ensures
        response@.len() == 4 ==> rate == Ok::<i32, CrosEcError>(signed32(response@, 0)),
        response@.len() == 4 ==> range == Ok::<i32, CrosEcError>(signed32(response@, 0)),
        response@.len() == 2 ==> brightness is Ok && brightness->Ok_0 == percent_of(
            le16(response@, 0),
        ) as u8,
        response@.len() == 8 ==> sample == Ok::<CrosEcMotionSensorData, CrosEcError>(
            sample_at(response@, 0),
        ),
        batch matches Ok(data) ==> response@.len() == 4 + 8 * data.samples@.len()
            && data.samples@.len() <= count,
{
}

/// An EC that does not know the extended metadata (result 6) is asked for the
/// older form, and no other.
pub proof fn older_metadata_is_asked_for(
    error: CrosEcError,
    legacy: Result<&[u8], CrosEcError>,
    r: Result<CrosEcMotionSensorInfo, CrosEcError>,
)
    requires
        call_ensures(CrosEcSpi::motion_sensor_info, (Err(error), legacy), r),
    ensures
        wants_legacy_info(error) <==> error == CrosEcError::EcResult(6),
        error != CrosEcError::EcResult(6) ==> r is Err && r->Err_0 == error,
        error == CrosEcError::EcResult(6) && legacy is Err ==> r is Err && r->Err_0
            == legacy->Err_0,
{
}

/// A setting is asked for with the sensor's number and minus one; of two
/// waits the shorter counts.
pub proof fn settings_are_asked_for(sensor: u8, first: Option<u64>, wait: u64, r: Option<u64>)
    requires
        call_ensures(earlier_wait, (first, wait), r),
    ensures
        query_parameters(sensor) == seq![sensor, 0u8, 0u8, 0u8, 255u8, 255u8, 255u8, 255u8],
        first is None ==> r == Some(wait),
        first matches Some(known) ==> r is Some && r->0 <= wait && r->0 <= known && (r->0 == wait
            || r->0 == known),
{
}

/// Motion sensors, their FIFO and tight timestamps are features 6, 24 and 36
/// of a reply.
pub proof fn motion_features_have_their_bit(
    response: &[u8],
    sense: Result<bool, CrosEcError>,
    fifo: Result<bool, CrosEcError>,
    tight: Result<bool, CrosEcError>,
)
    requires
        call_ensures(CrosEcSpi::supports_motion_sense, (Ok(response),), sense),
        call_ensures(CrosEcSpi::supports_motion_sense_fifo, (Ok(response),), fifo),
        call_ensures(CrosEcSpi::supports_motion_sense_tight_timestamps, (Ok(response),), tight),
    ensures
        sense is Ok <==> response@.len() == 8,
        fifo is Ok <==> response@.len() == 8,
        tight is Ok <==> response@.len() == 8,
        sense matches Ok(on) ==> on == ((response@[0] >> 6u8) & 1u8 == 1),
        fifo matches Ok(on) ==> on == ((response@[3] >> 0u8) & 1u8 == 1),
        tight matches Ok(on) ==> on == ((response@[4] >> 4u8) & 1u8 == 1),
{
    if response@.len() == 8 {
        let flags = seq![le32(response@, 0) as u32, le32(response@, 4) as u32];
        assert forall|features: CrosEcFeatures|
            #[trigger] features.flags@ == flags implies {
            &&& features.advertises(6) == ((response@[0] >> 6u8) & 1u8 == 1)
            &&& features.advertises(24) == ((response@[3] >> 0u8) & 1u8 == 1)
            &&& features.advertises(36) == ((response@[4] >> 4u8) & 1u8 == 1)
        } by {
            features_are_the_reply_bits(response@, features, 6);
            features_are_the_reply_bits(response@, features, 24);
            features_are_the_reply_bits(response@, features, 36);
        }
    }
}

/// A FIFO status is read for as many sensors as the summary says.
pub proof fn fifo_status_is_read_for_every_sensor(
    summary: &[u8],
    reply: &[u8],
    error: CrosEcError,
    r: Result<CrosEcMotionFifoInfo, CrosEcError>,
    failed: Result<CrosEcMotionFifoInfo, CrosEcError>,
)
    requires
        call_ensures(CrosEcSpi::motion_fifo_info, (Ok(summary), Ok(reply)), r),
        call_ensures(CrosEcSpi::motion_fifo_info, (Err(error), Ok(reply)), failed),
    ensures
        r matches Ok(info) ==> summary@.len() == 2 && reply@.len() == 10 + 2 * summary@[1]
            && info.lost_per_sensor@.len() == summary@[1],
        summary@.len() == 2 && reply@.len() == 10 + 2 * summary@[1] ==> r is Ok,
        failed is Err && failed->Err_0 == error,
{
}

} // verus!
