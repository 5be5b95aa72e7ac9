//! ChromeOS Embedded Controller host commands over SPI.
//!
//! [`protocol`] frames commands and reads replies; [`replies`] says what the reply
//! to each command comes to. This module holds what a
//! controller remembers: its place on the bus, its listeners, and when its
//! events are drained.

use vstd::prelude::*;

use crate::bytes::{be32, copy_bytes, first_index, first_index_is_first, le16, le16_bytes, le32_bytes, read_be_u32};
use crate::cros_ec_spi::protocol::{
    build_motion_sense_payload, build_request, decode_response, duty_of, padded, parse_mkbp_event,
    parse_motion_sensor_info_v3, percent_of, pwm_duty_from_percent, pwm_percent_from_duty,
    request_packet, response_payload, CrosEcError, CrosEcMotionSensorInfo, COMMAND_GET_FEATURES,
    COMMAND_GET_NEXT_EVENT, COMMAND_MOTION_SENSE, COMMAND_PWM_GET_DUTY, COMMAND_PWM_SET_DUTY,
    CROS_EC_MAX_MOTION_FIFO_VECTORS, EC_RESULT_INVALID_VERSION, EC_RESULT_UNAVAILABLE,
    GET_NEXT_EVENT_VERSION, HOST_HEADER_BYTES, MKBP_MORE_EVENTS, MOTION_FIFO_READ_FIXED_BYTES,
    MOTION_SENSE_COMMAND_DATA, MOTION_SENSE_COMMAND_DUMP, MOTION_SENSE_COMMAND_FIFO_INFO,
    MOTION_SENSE_COMMAND_FIFO_INT_ENABLE, MOTION_SENSE_COMMAND_FIFO_READ, MOTION_SENSE_COMMAND_INFO,
    MOTION_SENSE_COMMAND_SENSOR_ODR, MOTION_SENSE_COMMAND_SENSOR_RANGE, MOTION_SENSE_VERSION_FIFO,
    MOTION_SENSE_VERSION_INFO_EXTENDED, MOTION_SENSE_VERSION_LEGACY, MOTION_SENSOR_DATA_BYTES,
    PWM_DISPLAY_LIGHT,
};
use crate::platform::{place_of, position_of};
use crate::spi::{plain_segment, zeros, SpiTransfer};

pub mod laws;
pub mod protocol;
pub mod replies;

verus! {

/// Bytes clocked for one response, inside one chip-select assertion.
pub const RESPONSE_CLOCK_BYTES: usize = 4096;

pub const CHIP_SELECT_COOLDOWN_US: u64 = 200;

pub const MAX_EVENTS_PER_DRAIN: usize = 64;

pub const EVENT_RETRY_INITIAL_NS: u64 = 250_000_000;

pub const EVENT_RETRY_MAX_NS: u64 = 8_000_000_000;

pub const DEFAULT_SPEED_HZ: u32 = 1_010_000;

// Commands.

/// A host command before framing.
#[derive(Debug)]
pub struct HostCommand {
    pub command: u16,
    pub version: u8,
    pub payload: Vec<u8>,
}

#[verifier::ext_equal]
pub struct CommandView {
    pub command: u16,
    pub version: u8,
    pub payload: Seq<u8>,
}

impl View for HostCommand {
    type V = CommandView;

    open spec fn view(&self) -> CommandView {
        CommandView { command: self.command, version: self.version, payload: self.payload@ }
    }
}

pub open spec fn host_command(command: u16, version: u8, payload: Seq<u8>) -> CommandView {
    CommandView { command, version, payload }
}

/// A motion-sense command, padded to the full request size.
pub open spec fn motion_command(version: u8, subcommand: u8, parameters: Seq<u8>) -> CommandView {
    host_command(COMMAND_MOTION_SENSE, version, padded(seq![subcommand] + parameters, 13))
}

/// The parameters that query a sensor setting without changing it.
pub open spec fn query_parameters(sensor_num: u8) -> Seq<u8> {
    seq![sensor_num, 0u8, 0u8, 0u8, 0xffu8, 0xffu8, 0xffu8, 0xffu8]
}

impl HostCommand {
    fn new(command: u16, version: u8, payload: &[u8]) -> (r: HostCommand)
        ensures
            r@ == host_command(command, version, payload@),
    {
        HostCommand { command, version, payload: copy_bytes(payload) }
    }

    fn motion(version: u8, subcommand: u8, parameters: &[u8]) -> (r: HostCommand)
        requires
            parameters@.len() < 13,
        ensures
            r@ == motion_command(version, subcommand, parameters@),
    {
        let payload = build_motion_sense_payload(subcommand, parameters).unwrap();
        Self::new(COMMAND_MOTION_SENSE, version, &payload)
    }

    pub fn features() -> (r: HostCommand)
        ensures
            r@ == host_command(COMMAND_GET_FEATURES, 0, Seq::empty()),
    {
        Self::new(COMMAND_GET_FEATURES, 0, &[])
    }

    pub fn get_display_backlight_percent() -> (r: HostCommand)
        ensures
            r@ == host_command(COMMAND_PWM_GET_DUTY, 0, seq![PWM_DISPLAY_LIGHT, 0u8]),
    {
        Self::new(COMMAND_PWM_GET_DUTY, 0, &[PWM_DISPLAY_LIGHT, 0])
    }

    /// Sets the display backlight to a percentage.
    pub fn set_display_backlight_percent(percent: u8) -> (r: Result<HostCommand, CrosEcError>)
        ensures
            match r {
                Ok(command) => percent <= 100 && command@ == host_command(
                    COMMAND_PWM_SET_DUTY,
                    0,
                    le16_bytes(duty_of(percent as int)) + seq![PWM_DISPLAY_LIGHT, 0u8],
                ),
                Err(e) => percent > 100 && e == CrosEcError::InvalidArgument,
            },
    {
        let duty: u16 = pwm_duty_from_percent(percent)?;
        let payload: [u8; 4] = [(duty % 0x100) as u8, (duty / 0x100) as u8, PWM_DISPLAY_LIGHT, 0];
        assert(payload@ =~= le16_bytes(duty_of(percent as int)) + seq![PWM_DISPLAY_LIGHT, 0u8]);
        Ok(Self::new(COMMAND_PWM_SET_DUTY, 0, &payload))
    }

    /// Asks for the sensor count without any samples.
    pub fn motion_sensor_summary() -> (r: HostCommand)
        ensures
            r@ == motion_command(
                MOTION_SENSE_VERSION_LEGACY,
                MOTION_SENSE_COMMAND_DUMP,
                seq![0u8],
            ),
    {
        Self::motion(MOTION_SENSE_VERSION_LEGACY, MOTION_SENSE_COMMAND_DUMP, &[0])
    }

    /// Asks for sensor metadata: the extended form, or the legacy one.
    pub fn motion_sensor_info(sensor_num: u8, legacy: bool) -> (r: HostCommand)
        ensures
            r@ == motion_command(
                if legacy {
                    MOTION_SENSE_VERSION_LEGACY
                } else {
                    MOTION_SENSE_VERSION_INFO_EXTENDED
                },
                MOTION_SENSE_COMMAND_INFO,
                seq![sensor_num],
            ),
    {
        Self::motion(
            if legacy {
                MOTION_SENSE_VERSION_LEGACY
            } else {
                MOTION_SENSE_VERSION_INFO_EXTENDED
            },
            MOTION_SENSE_COMMAND_INFO,
            &[sensor_num],
        )
    }

    fn motion_sensor_parameter_query(subcommand: u8, sensor_num: u8) -> (r: HostCommand)
        ensures
            r@ == motion_command(
                MOTION_SENSE_VERSION_LEGACY,
                subcommand,
                query_parameters(sensor_num),
            ),
    {
        let parameters: [u8; 8] = [sensor_num, 0, 0, 0, 0xff, 0xff, 0xff, 0xff];
        assert(parameters@ =~= query_parameters(sensor_num));
        Self::motion(MOTION_SENSE_VERSION_LEGACY, subcommand, &parameters)
    }

    pub fn motion_sensor_odr_millihz(sensor_num: u8) -> (r: HostCommand)
        ensures
            r@ == motion_command(
                MOTION_SENSE_VERSION_LEGACY,
                MOTION_SENSE_COMMAND_SENSOR_ODR,
                query_parameters(sensor_num),
            ),
    {
        Self::motion_sensor_parameter_query(MOTION_SENSE_COMMAND_SENSOR_ODR, sensor_num)
    }

    pub fn motion_sensor_range(sensor_num: u8) -> (r: HostCommand)
        ensures
            r@ == motion_command(
                MOTION_SENSE_VERSION_LEGACY,
                MOTION_SENSE_COMMAND_SENSOR_RANGE,
                query_parameters(sensor_num),
            ),
    {
        Self::motion_sensor_parameter_query(MOTION_SENSE_COMMAND_SENSOR_RANGE, sensor_num)
    }

    pub fn motion_sensor_data(sensor_num: u8) -> (r: HostCommand)
        ensures
            r@ == motion_command(
                MOTION_SENSE_VERSION_LEGACY,
                MOTION_SENSE_COMMAND_DATA,
                seq![sensor_num],
            ),
    {
        Self::motion(MOTION_SENSE_VERSION_LEGACY, MOTION_SENSE_COMMAND_DATA, &[sensor_num])
    }

    /// Asks whether the EC sends FIFO notifications.
    pub fn motion_fifo_interrupt_enabled() -> (r: HostCommand)
        ensures
            r@ == motion_command(
                MOTION_SENSE_VERSION_FIFO,
                MOTION_SENSE_COMMAND_FIFO_INT_ENABLE,
                seq![0xffu8],
            ),
    {
        Self::motion(MOTION_SENSE_VERSION_FIFO, MOTION_SENSE_COMMAND_FIFO_INT_ENABLE, &[0xff])
    }

    /// Makes the EC send FIFO notifications or not.
    pub fn set_motion_fifo_interrupt_enabled(enabled: bool) -> (r: HostCommand)
        ensures
            r@ == motion_command(
                MOTION_SENSE_VERSION_FIFO,
                MOTION_SENSE_COMMAND_FIFO_INT_ENABLE,
                seq![
                    if enabled {
                        1u8
                    } else {
                        0u8
                    },
                ],
            ),
    {
        let value: u8 = if enabled {
            1
        } else {
            0
        };
        Self::motion(MOTION_SENSE_VERSION_FIFO, MOTION_SENSE_COMMAND_FIFO_INT_ENABLE, &[value])
    }

    /// Asks for the FIFO status. This one request is not padded: not every EC
    /// accepts it otherwise.
    pub fn motion_fifo_info() -> (r: HostCommand)
        ensures
            r@ == host_command(
                COMMAND_MOTION_SENSE,
                MOTION_SENSE_VERSION_FIFO,
                seq![MOTION_SENSE_COMMAND_FIFO_INFO],
            ),
    {
        Self::new(
            COMMAND_MOTION_SENSE,
            MOTION_SENSE_VERSION_FIFO,
            &[MOTION_SENSE_COMMAND_FIFO_INFO],
        )
    }

    /// Reads up to `max_vectors` samples from the FIFO.
    pub fn motion_fifo_read(max_vectors: u32) -> (r: Result<HostCommand, CrosEcError>)
        ensures
            match r {
                Ok(command) => max_vectors <= CROS_EC_MAX_MOTION_FIFO_VECTORS && command@
                    == motion_command(
                    MOTION_SENSE_VERSION_FIFO,
                    MOTION_SENSE_COMMAND_FIFO_READ,
                    le32_bytes(max_vectors as int),
                ),
                Err(e) => max_vectors > CROS_EC_MAX_MOTION_FIFO_VECTORS && e
                    == CrosEcError::InvalidArgument,
            },
    {
        if max_vectors > CROS_EC_MAX_MOTION_FIFO_VECTORS {
            return Err(CrosEcError::InvalidArgument);
        }
        let bytes: [u8; 4] = [(max_vectors % 0x100) as u8, (max_vectors / 0x100) as u8, 0, 0];
        assert(bytes@ =~= le32_bytes(max_vectors as int));
        Ok(Self::motion(MOTION_SENSE_VERSION_FIFO, MOTION_SENSE_COMMAND_FIFO_READ, &bytes))
    }

    pub fn next_event() -> (r: HostCommand)
        ensures
            r@ == host_command(COMMAND_GET_NEXT_EVENT, GET_NEXT_EVENT_VERSION, Seq::empty()),
    {
        Self::new(COMMAND_GET_NEXT_EVENT, GET_NEXT_EVENT_VERSION, &[])
    }
}

/// The brightness in a reply to [`HostCommand::get_display_backlight_percent`].
pub fn parse_display_backlight_percent(response: &[u8]) -> (r: Result<u8, CrosEcError>)
    ensures
        r == (if response@.len() == 2 {
            Ok::<u8, CrosEcError>(percent_of(le16(response@, 0)) as u8)
        } else {
            Err(CrosEcError::InvalidResponse)
        }),
{
    if response.len() != 2 {
        return Err(CrosEcError::InvalidResponse);
    }
    Ok(pwm_percent_from_duty(response[0] as u16 + response[1] as u16 * 0x100))
}

/// A successful set command has an empty reply.
pub fn parse_empty_reply(response: &[u8]) -> (r: Result<(), CrosEcError>)
    ensures
        r == (if response@.len() == 0 {
            Ok::<(), CrosEcError>(())
        } else {
            Err(CrosEcError::InvalidResponse)
        }),
{
    if response.len() != 0 {
        return Err(CrosEcError::InvalidResponse);
    }
    Ok(())
}

/// Whether an INFO failure is answered with the legacy version.
pub open spec fn wants_legacy_info(error: CrosEcError) -> bool {
    error == CrosEcError::EcResult(EC_RESULT_INVALID_VERSION)
}

/// The outcome of the extended INFO command: metadata, or `None` where the
/// legacy version is to be tried once.
pub fn extended_info_reply(reply: Result<&[u8], CrosEcError>) -> (r: Result<
    Option<CrosEcMotionSensorInfo>,
    CrosEcError,
>)
    ensures
        match reply {
            Ok(response) => match r {
                Ok(Some(info)) => call_ensures(
                    parse_motion_sensor_info_v3,
                    (response,),
                    Ok::<CrosEcMotionSensorInfo, CrosEcError>(info),
                ) && response@.len() == 16,
                Ok(None) => false,
                Err(e) => response@.len() != 16 && e == CrosEcError::InvalidResponse,
            },
            Err(e) => r == (if wants_legacy_info(e) {
                Ok::<Option<CrosEcMotionSensorInfo>, CrosEcError>(None)
            } else {
                Err(e)
            }),
        },
{
    match reply {
        Ok(response) => match parse_motion_sensor_info_v3(response) {
            Ok(info) => Ok(Some(info)),
            Err(e) => Err(e),
        },
        Err(e) => {
            if e == CrosEcError::EcResult(EC_RESULT_INVALID_VERSION) {
                Ok(None)
            } else {
                Err(e)
            }
        },
    }
}

// Listeners.

/// Listener for decoded MKBP events.
pub trait CrosEcEventListener: Send + Sync {
    /// Receives one event in worker context. `event_type` has the `more` flag
    /// removed. `false` keeps the EC interrupt masked and makes the worker
    /// retry with bounded backoff.
    fn on_cros_ec_event(&self, event_type: u8, data: &[u8]) -> bool;
}

/// Hands an event to the listeners in order, as long as the controller is
/// active. The event counts as consumed unless one that saw it refused it.
pub fn dispatch_event<L: CrosEcEventListener, A: Fn() -> bool>(
    listeners: &Vec<L>,
    is_active: A,
    event_type: u8,
    data: &[u8],
) -> (r: bool)
    requires
        is_active.requires(()),
    ensures
        exists|results: Seq<bool>|
            {
                &&& results.len() <= listeners@.len()
                &&& forall|i: int|
                    #![trigger results[i]]
                    0 <= i < results.len() ==> {
                        &&& is_active.ensures((), true)
                        &&& call_ensures(
                            L::on_cros_ec_event,
                            (&listeners@[i], event_type, data),
                            results[i],
                        )
                    }
                &&& results.len() < listeners@.len() ==> is_active.ensures((), false)
                &&& r == !results.contains(false)
            },
{
    let ghost mut results: Seq<bool> = Seq::empty();
    let mut consumed: bool = true;
    let mut i: usize = 0;
    while i < listeners.len()
        invariant
            is_active.requires(()),
            i <= listeners@.len(),
            results.len() == i,
            forall|j: int|
                #![trigger results[j]]
                0 <= j < results.len() ==> {
                    &&& is_active.ensures((), true)
                    &&& call_ensures(
                        L::on_cros_ec_event,
                        (&listeners@[j], event_type, data),
                        results[j],
                    )
                },
            consumed == !results.contains(false),
        decreases listeners@.len() - i,
    {
        if !is_active() {
            return consumed;
        }
        let result: bool = listeners[i].on_cros_ec_event(event_type, data);
        let ghost before = results;
        proof {
            results = results.push(result);
            assert(results.contains(false) <==> (before.contains(false) || !result)) by {
                if before.contains(false) {
                    let k = choose|k: int| 0 <= k < before.len() && before[k] == false;
                    assert(results[k] == false);
                }
                if !result {
                    assert(results[before.len() as int] == false);
                }
                if results.contains(false) && result {
                    let k = choose|k: int| 0 <= k < results.len() && results[k] == false;
                    assert(before[k] == false);
                }
            }
        }
        consumed = consumed && result;
        i = i + 1;
    }
    consumed
}

/// One Chrome EC on an SPI bus: its place and what it remembers of events.
#[derive(Debug)]
pub struct CrosEcSpi {
    pub phandle: u32,
    pub primary: bool,
    pub chip_select: u8,
    pub speed_hz: u32,
    pub irq_pin: u32,
    pub active: bool,
    pub event_work_pending: bool,
    pub event_drain_errors: u64,
    pub event_retry_not_before_ns: u64,
    pub listeners: Vec<u64>,
}

/// What the worker does with one controller.
#[derive(Clone, Copy, Debug, Eq, PartialEq, Structural)]
pub enum WorkerDecision {
    /// Nothing is pending.
    Skip,
    /// A retry is due in this many nanoseconds.
    WaitFor(u64),
    /// Drain the events now.
    Drain,
}

/// The ids that are not `id`, in order.
pub open spec fn without(ids: Seq<u64>, id: u64) -> Seq<u64>
    decreases ids.len(),
{
    if ids.len() == 0 {
        Seq::empty()
    } else if ids.last() == id {
        without(ids.drop_last(), id)
    } else {
        without(ids.drop_last(), id).push(ids.last())
    }
}

proof fn without_present_is_shorter(ids: Seq<u64>, id: u64)
    ensures
        without(ids, id).len() <= ids.len(),
        without(ids, id).len() < ids.len() <==> ids.contains(id),
        !without(ids, id).contains(id),
        forall|other: u64|
            other != id ==> (without(ids, id).contains(other) <==> ids.contains(other)),
    decreases ids.len(),
{
    if ids.len() > 0 {
        let before = ids.drop_last();
        without_present_is_shorter(before, id);
        let kept = without(before, id);
        assert(ids =~= before.push(ids.last()));
        assert forall|other: u64| ids.contains(other) <==> (before.contains(other) || ids.last()
            == other) by {
            if before.contains(other) {
                let k = choose|k: int| 0 <= k < before.len() && before[k] == other;
                assert(ids[k] == other);
            }
            if ids.last() == other {
                assert(ids[ids.len() - 1] == other);
            }
            if ids.contains(other) && ids.last() != other {
                let k = choose|k: int| 0 <= k < ids.len() && ids[k] == other;
                assert(before[k] == other);
            }
        }
        let pushed = kept.push(ids.last());
        assert forall|other: u64| pushed.contains(other) <==> (kept.contains(other) || ids.last()
            == other) by {
            if kept.contains(other) {
                let k = choose|k: int| 0 <= k < kept.len() && kept[k] == other;
                assert(pushed[k] == other);
            }
            if ids.last() == other {
                assert(pushed[kept.len() as int] == other);
            }
            if pushed.contains(other) && ids.last() != other {
                let k = choose|k: int| 0 <= k < pushed.len() && pushed[k] == other;
                assert(kept[k] == other);
            }
        }
    }
}

/// Removing a listener leaves every other registration in place.
pub proof fn unregistering_keeps_the_others(ids: Seq<u64>, id: u64, other: u64)
    requires
        other != id,
    ensures
        without(ids, id).contains(other) <==> ids.contains(other),
        !without(ids, id).contains(id),
{
    without_present_is_shorter(ids, id);
}

/// The registrations whose listeners are still alive, in order.
pub open spec fn alive_among(ids: Seq<u64>, alive: Seq<u64>) -> Seq<u64>
    decreases ids.len(),
{
    if ids.len() == 0 {
        Seq::empty()
    } else {
        let before = alive_among(ids.drop_last(), alive);
        if alive.contains(ids.last()) {
            before.push(ids.last())
        } else {
            before
        }
    }
}

/// Pruning drops the dead listeners and no other.
pub proof fn pruning_drops_the_dead(ids: Seq<u64>, alive: Seq<u64>, id: u64)
    ensures
        alive_among(ids, alive).contains(id) <==> ids.contains(id) && alive.contains(id),
    decreases ids.len(),
{
    if ids.len() > 0 {
        let rest = ids.drop_last();
        let before = alive_among(rest, alive);
        let kept = alive_among(ids, alive);
        pruning_drops_the_dead(rest, alive, id);
        if ids.contains(id) && ids.last() != id {
            let k = choose|k: int| 0 <= k < ids.len() && ids[k] == id;
            assert(rest[k] == id);
        }
        if rest.contains(id) {
            let k = choose|k: int| 0 <= k < rest.len() && rest[k] == id;
            assert(ids[k] == id);
        }
        if before.contains(id) {
            let k = choose|k: int| 0 <= k < before.len() && before[k] == id;
            assert(kept[k] == id);
        }
        if kept.contains(id) && !before.contains(id) {
            let k = choose|k: int| 0 <= k < kept.len() && kept[k] == id;
            if k < before.len() {
                assert(before[k] == id);
            }
            assert(ids[ids.len() - 1] == id);
        }
        if ids.last() == id && alive.contains(id) {
            assert(kept[kept.len() - 1] == id);
        }
    }
}

/// Where no listener has died, pruning changes nothing.
pub proof fn pruning_keeps_the_living(ids: Seq<u64>, alive: Seq<u64>)
    requires
        forall|i: int| 0 <= i < ids.len() ==> alive.contains(#[trigger] ids[i]),
    ensures
        alive_among(ids, alive) == ids,
    decreases ids.len(),
{
    if ids.len() > 0 {
        let rest = ids.drop_last();
        assert forall|i: int| 0 <= i < rest.len() implies alive.contains(#[trigger] rest[i]) by {
            assert(rest[i] == ids[i]);
        }
        pruning_keeps_the_living(rest, alive);
        assert(alive.contains(ids[ids.len() - 1]));
        assert(rest.push(ids.last()) =~= ids);
    } else {
        assert(alive_among(ids, alive) =~= ids);
    }
}

fn holds_id(ids: &[u64], id: u64) -> (r: bool)
    ensures
        r == ids@.contains(id),
{
    let mut i: usize = 0;
    while i < ids.len()
        invariant
            i <= ids@.len(),
            forall|k: int| 0 <= k < i ==> ids@[k] != id,
        decreases ids@.len() - i,
    {
        if ids[i] == id {
            return true;
        }
        i += 1;
    }
    false
}

/// The delay before a failed drain is repeated: it doubles with each failure,
/// from a quarter of a second to eight seconds.
pub open spec fn retry_delay(error_count: u64) -> int {
    if error_count <= 1 {
        EVENT_RETRY_INITIAL_NS as int
    } else if error_count >= 6 {
        EVENT_RETRY_MAX_NS as int
    } else {
        EVENT_RETRY_INITIAL_NS * vstd::arithmetic::power2::pow2((error_count - 1) as nat)
    }
}

/// Retry delays never shrink with the error count and stay within bounds.
pub proof fn retry_delays_are_bounded_and_grow(a: u64, b: u64)
    requires
        a <= b,
    ensures
        EVENT_RETRY_INITIAL_NS <= retry_delay(a) <= retry_delay(b) <= EVENT_RETRY_MAX_NS,
{
    vstd::arithmetic::power2::lemma2_to64();
}

pub fn event_retry_delay_ns(error_count: u64) -> (r: u64)
    ensures
        r == retry_delay(error_count),
{
    proof {
        vstd::arithmetic::power2::lemma2_to64();
    }
    if error_count <= 1 {
        EVENT_RETRY_INITIAL_NS
    } else if error_count == 2 {
        EVENT_RETRY_INITIAL_NS * 2
    } else if error_count == 3 {
        EVENT_RETRY_INITIAL_NS * 4
    } else if error_count == 4 {
        EVENT_RETRY_INITIAL_NS * 8
    } else if error_count == 5 {
        EVENT_RETRY_INITIAL_NS * 16
    } else {
        EVENT_RETRY_MAX_NS
    }
}

/// The shorter of a known wait and another.
pub fn earlier_wait(known: Option<u64>, wait: u64) -> (r: Option<u64>)
    ensures
        r == Some(
            match known {
                Some(first) => if first < wait {
                    first
                } else {
                    wait
                },
                None => wait,
            },
        ),
{
    match known {
        Some(first) => if first < wait {
            Some(first)
        } else {
            Some(wait)
        },
        None => Some(wait),
    }
}

impl CrosEcSpi {
    pub fn new(
        bus_speed_hz: u32,
        phandle: u32,
        primary: bool,
        chip_select: u8,
        maximum_speed_hz: u32,
        irq_pin: u32,
    ) -> (r: Self)
        ensures
            r.phandle == phandle,
            r.primary == primary,
            r.chip_select == chip_select,
            r.speed_hz == (if bus_speed_hz <= maximum_speed_hz {
                bus_speed_hz
            } else {
                maximum_speed_hz
            }),
            r.irq_pin == irq_pin,
            r.active,
            !r.event_work_pending,
            r.event_drain_errors == 0,
            r.event_retry_not_before_ns == 0,
            r.listeners@ == Seq::<u64>::empty(),
    {
        CrosEcSpi {
            phandle,
            primary,
            chip_select,
            speed_hz: if bus_speed_hz <= maximum_speed_hz {
                bus_speed_hz
            } else {
                maximum_speed_hz
            },
            irq_pin,
            active: true,
            event_work_pending: false,
            event_drain_errors: 0,
            event_retry_not_before_ns: 0,
            listeners: Vec::new(),
        }
    }

    pub fn phandle(&self) -> (r: u32)
        ensures
            r == self.phandle,
    {
        self.phandle
    }

    /// The two segments of a command: the request, then the response window.
    pub fn command(&self, command: &HostCommand) -> (r: Result<Vec<SpiTransfer>, CrosEcError>)
        ensures
            match r {
                Ok(segments) => {
                    &&& command@.payload.len() <= u16::MAX
                    &&& segments@.len() == 2
                    &&& segments@[0]@ == plain_segment(
                        self.chip_select,
                        false,
                        true,
                        request_packet(command@.command, command@.version, command@.payload),
                        self.speed_hz,
                    )
                    &&& segments@[1]@ == plain_segment(
                        self.chip_select,
                        true,
                        false,
                        zeros(RESPONSE_CLOCK_BYTES as nat),
                        self.speed_hz,
                    )
                },
                Err(e) => command@.payload.len() > u16::MAX && e == CrosEcError::InvalidArgument,
            },
    {
        if command.payload.len() > u16::MAX as usize {
            return Err(CrosEcError::InvalidArgument);
        }
        let request = build_request(command.command, command.version, command.payload.as_slice());
        let mut segments: Vec<SpiTransfer> = Vec::new();
        segments.push(SpiTransfer::write(self.chip_select, request.as_slice(), self.speed_hz));
        segments.push(SpiTransfer::read(self.chip_select, RESPONSE_CLOCK_BYTES, self.speed_hz));
        Ok(segments)
    }

    /// The payload of the response in the clocked window.
    pub fn command_reply(window: &[u8]) -> (r: Result<Vec<u8>, CrosEcError>)
        ensures
            match r {
                Ok(payload) => response_payload(window@) == Ok::<Seq<u8>, CrosEcError>(payload@),
                Err(e) => response_payload(window@) == Err::<Seq<u8>, CrosEcError>(e),
            },
    {
        match decode_response(window) {
            Ok(payload) => Ok(copy_bytes(payload)),
            Err(e) => Err(e),
        }
    }

    /// Registers a listener under the next free identifier.
    pub fn register_event_listener(&mut self, next_id: &mut u64) -> (r: u64)
        ensures
            r == *old(next_id),
            *final(next_id) == (*old(next_id) + 1) % 0x1_0000_0000_0000_0000,
            final(self).listeners@ == old(self).listeners@.push(r),
            final(self).same_but_listeners(*old(self)),
    {
        let id: u64 = *next_id;
        *next_id = next_id.wrapping_add(1);
        self.listeners.push(id);
        id
    }

    /// Whether two controllers differ at most in their listeners.
    pub open spec fn same_but_listeners(self, other: CrosEcSpi) -> bool {
        CrosEcSpi { listeners: other.listeners, ..self } == other
    }

    /// Removes a listener; `true` where it was registered.
    pub fn unregister_event_listener(&mut self, id: u64) -> (r: bool)
        ensures
            r == old(self).listeners@.contains(id),
            final(self).listeners@ == without(old(self).listeners@, id),
            final(self).same_but_listeners(*old(self)),
    {
        let mut kept: Vec<u64> = Vec::new();
        let mut i: usize = 0;
        while i < self.listeners.len()
            invariant
                i <= self.listeners@.len(),
                *self == *old(self),
                kept@ == without(self.listeners@.take(i as int), id),
            decreases self.listeners@.len() - i,
        {
            assert(self.listeners@.take(i + 1).drop_last() =~= self.listeners@.take(i as int));
            if self.listeners[i] != id {
                kept.push(self.listeners[i]);
            }
            i = i + 1;
        }
        assert(self.listeners@.take(i as int) =~= self.listeners@);
        proof {
            without_present_is_shorter(self.listeners@, id);
        }
        let removed: bool = kept.len() != self.listeners.len();
        self.listeners = kept;
        removed
    }

    /// Forgets the listeners that have died, before an event is handed out;
    /// `alive` lists those that have not.
    pub fn prune_event_listeners(&mut self, alive: &[u64])
        ensures
            final(self).listeners@ == alive_among(old(self).listeners@, alive@),
            final(self).same_but_listeners(*old(self)),
    {
        let mut kept: Vec<u64> = Vec::new();
        let mut i: usize = 0;
        while i < self.listeners.len()
            invariant
                i <= self.listeners@.len(),
                *self == *old(self),
                kept@ == alive_among(self.listeners@.take(i as int), alive@),
            decreases self.listeners@.len() - i,
        {
            assert(self.listeners@.take(i + 1).drop_last() =~= self.listeners@.take(i as int));
            if holds_id(alive, self.listeners[i]) {
                kept.push(self.listeners[i]);
            }
            i = i + 1;
        }
        assert(self.listeners@.take(i as int) =~= self.listeners@);
        self.listeners = kept;
    }

    /// The interrupt callback: `true` where the worker must be woken. On an
    /// active controller the line is to be masked.
    pub fn handle_interrupt(&mut self) -> (r: bool)
        ensures
            r == (old(self).active && !old(self).event_work_pending),
            *final(self) == (CrosEcSpi {
                event_work_pending: old(self).event_work_pending || old(self).active,
                ..*old(self)
            }),
    {
        if !self.active {
            return false;
        }
        let wake: bool = !self.event_work_pending;
        self.event_work_pending = true;
        wake
    }

    /// What the worker does with this controller at `now_ns`. A drain consumes
    /// the pending mark.
    pub fn worker_decision(&mut self, now_ns: u64) -> (r: WorkerDecision)
        ensures
            r == (if !old(self).active || !old(self).event_work_pending {
                WorkerDecision::Skip
            } else if old(self).event_retry_not_before_ns > now_ns {
                WorkerDecision::WaitFor((old(self).event_retry_not_before_ns - now_ns) as u64)
            } else {
                WorkerDecision::Drain
            }),
            *final(self) == (CrosEcSpi {
                event_work_pending: old(self).event_work_pending && !(r is Drain),
                ..*old(self)
            }),
    {
        if !self.active || !self.event_work_pending {
            return WorkerDecision::Skip;
        }
        if self.event_retry_not_before_ns > now_ns {
            return WorkerDecision::WaitFor(self.event_retry_not_before_ns - now_ns);
        }
        self.event_work_pending = false;
        WorkerDecision::Drain
    }

    /// Records a drain. After success the error count starts anew and the line
    /// can be unmasked; after a failure of an active controller the work stays
    /// pending and the delay until the retry is returned.
    pub fn drained(&mut self, succeeded: bool, now_ns: u64) -> (r: Option<u64>)
        ensures
            ({
                let errors = if old(self).event_drain_errors < u64::MAX {
                    (old(self).event_drain_errors + 1) as u64
                } else {
                    u64::MAX
                };
                let delay = retry_delay(errors);
                if succeeded {
                    &&& r is None
                    &&& *final(self) == (CrosEcSpi {
                        event_drain_errors: 0,
                        event_retry_not_before_ns: 0,
                        ..*old(self)
                    })
                } else if old(self).active {
                    &&& r == Some(delay as u64)
                    &&& *final(self) == (CrosEcSpi {
                        event_drain_errors: errors,
                        event_retry_not_before_ns: if now_ns + delay <= u64::MAX {
                            (now_ns + delay) as u64
                        } else {
                            u64::MAX
                        },
                        event_work_pending: true,
                        ..*old(self)
                    })
                } else {
                    &&& r is None
                    &&& *final(self) == (CrosEcSpi { event_drain_errors: errors, ..*old(self) })
                }
            }),
    {
        if succeeded {
            self.event_drain_errors = 0;
            self.event_retry_not_before_ns = 0;
            return None;
        }
        self.event_drain_errors = self.event_drain_errors.saturating_add(1);
        if self.active {
            let delay: u64 = event_retry_delay_ns(self.event_drain_errors);
            self.event_retry_not_before_ns = now_ns.saturating_add(delay);
            self.event_work_pending = true;
            Some(delay)
        } else {
            None
        }
    }
}

// Draining.

/// What to do after the reply to an event request.
#[derive(Clone, Copy, Debug, Eq, PartialEq)]
pub enum DrainStep {
    /// Dispatch the event of this type; its data follows the first byte.
    Dispatch { event_type: u8, more: bool },
    Finished(Result<(), CrosEcError>),
}

/// The reply to an event request: an event, the end of the queue, or an error.
pub fn drain_reply(reply: Result<&[u8], CrosEcError>) -> (r: DrainStep)
    ensures
        r == (match reply {
            Err(e) => DrainStep::Finished(
                if e == CrosEcError::EcResult(EC_RESULT_UNAVAILABLE) {
                    Ok(())
                } else {
                    Err(e)
                },
            ),
            Ok(response) => if response@.len() == 0 {
                DrainStep::Finished(Err(CrosEcError::InvalidResponse))
            } else {
                DrainStep::Dispatch {
                    event_type: response@[0] % MKBP_MORE_EVENTS,
                    more: response@[0] >= MKBP_MORE_EVENTS,
                }
            },
        }),
{
    match reply {
        Err(e) => {
            if e == CrosEcError::EcResult(EC_RESULT_UNAVAILABLE) {
                DrainStep::Finished(Ok(()))
            } else {
                DrainStep::Finished(Err(e))
            }
        },
        Ok(response) => match parse_mkbp_event(response) {
            Ok(event) => DrainStep::Dispatch { event_type: event.event_type, more: event.more },
            Err(e) => DrainStep::Finished(Err(e)),
        },
    }
}

/// After an event was dispatched as the `handled`-th of this drain: `None`
/// asks for the next event, and anything else ends the drain. An EC that
/// always has more is cut off.
pub fn drain_dispatched(handled: usize, more: bool, consumed: bool) -> (r: Option<
    Result<(), CrosEcError>,
>)
    ensures
        r == (if !consumed {
            Some(Err::<(), CrosEcError>(CrosEcError::EventListenerFailed))
        } else if !more {
            Some(Ok(()))
        } else if handled >= MAX_EVENTS_PER_DRAIN {
            Some(Err(CrosEcError::InvalidResponse))
        } else {
            None
        }),
{
    if !consumed {
        return Some(Err(CrosEcError::EventListenerFailed));
    }
    if !more {
        return Some(Ok(()));
    }
    if handled >= MAX_EVENTS_PER_DRAIN {
        return Some(Err(CrosEcError::InvalidResponse));
    }
    None
}

// Registry and probe.

pub open spec fn has_phandle(phandle: u32) -> spec_fn(CrosEcSpi) -> bool {
    |c: CrosEcSpi| c.phandle == phandle
}

pub open spec fn is_primary() -> spec_fn(CrosEcSpi) -> bool {
    |c: CrosEcSpi| c.primary
}

/// The controller with a device-tree phandle.
pub fn get_cros_ec_spi_by_phandle(controllers: &Vec<CrosEcSpi>, phandle: u32) -> (r: Option<usize>)
    ensures
        match first_index(controllers@, has_phandle(phandle), 0) {
            Some(i) => r == Some(i as usize) && 0 <= i < controllers@.len(),
            None => r is None,
        },
{
    proof {
        first_index_is_first(controllers@, has_phandle(phandle), 0);
    }
    let mut i: usize = 0;
    while i < controllers.len()
        invariant
            i <= controllers@.len(),
            first_index(controllers@, has_phandle(phandle), 0) == first_index(
                controllers@,
                has_phandle(phandle),
                i as int,
            ),
        decreases controllers@.len() - i,
    {
        if controllers[i].phandle() == phandle {
            return Some(i);
        }
        i = i + 1;
    }
    None
}

/// The primary AP EC rather than a secondary fingerprint EC.
pub fn get_primary_cros_ec_spi(controllers: &Vec<CrosEcSpi>) -> (r: Option<usize>)
    ensures
        match first_index(controllers@, is_primary(), 0) {
            Some(i) => r == Some(i as usize) && 0 <= i < controllers@.len(),
            None => r is None,
        },
{
    proof {
        first_index_is_first(controllers@, is_primary(), 0);
    }
    let mut i: usize = 0;
    while i < controllers.len()
        invariant
            i <= controllers@.len(),
            first_index(controllers@, is_primary(), 0) == first_index(
                controllers@,
                is_primary(),
                i as int,
            ),
        decreases controllers@.len() - i,
    {
        if controllers[i].primary {
            return Some(i);
        }
        i = i + 1;
    }
    None
}

/// Takes a controller out of service: it leaves the registry inactive, with
/// no pending work and no listeners.
pub fn remove_controller(controllers: &mut Vec<CrosEcSpi>, phandle: u32) -> (r: Option<CrosEcSpi>)
    ensures
        match first_index(old(controllers)@, has_phandle(phandle), 0) {
            None => r is None && final(controllers)@ == old(controllers)@,
            Some(i) => {
                &&& final(controllers)@ == old(controllers)@.remove(i)
                &&& r matches Some(removed)
                &&& removed.listeners@ == Seq::<u64>::empty()
                &&& removed.same_but_listeners(
                    CrosEcSpi {
                        active: false,
                        event_work_pending: false,
                        event_retry_not_before_ns: 0,
                        listeners: removed.listeners,
                        ..old(controllers)@[i]
                    },
                )
            },
        },
{
    match get_cros_ec_spi_by_phandle(controllers, phandle) {
        None => None,
        Some(index) => {
            let mut controller = controllers.remove(index);
            controller.active = false;
            controller.event_work_pending = false;
            controller.event_retry_not_before_ns = 0;
            controller.listeners = Vec::new();
            Some(controller)
        },
    }
}

/// A property value that fits 32 bits.
pub open spec fn as_u32(value: Option<usize>) -> Option<u32> {
    match value {
        Some(value) => if value <= u32::MAX {
            Some(value as u32)
        } else {
            None
        },
        None => None,
    }
}

pub fn read_u32_property(value: Option<usize>) -> (r: Option<u32>)
    ensures
        r == as_u32(value),
{
    match value {
        Some(value) => if value <= u32::MAX as usize {
            Some(value as u32)
        } else {
            None
        },
        None => None,
    }
}

pub open spec fn irq_of(interrupt_parent: Option<usize>, interrupts: Option<&[u8]>) -> Result<
    (u32, u32),
    &'static str,
> {
    if as_u32(interrupt_parent) is None {
        Err("cros-ec-spi: missing interrupt-parent")
    } else if interrupts is None {
        Err("cros-ec-spi: missing interrupts")
    } else if interrupts->Some_0@.len() < 8 {
        Err("cros-ec-spi: malformed interrupts")
    } else if be32(interrupts->Some_0@, 4) % 16 != 8 {
        Err("cros-ec-spi: EC interrupt is not level-low")
    } else {
        Ok((as_u32(interrupt_parent)->Some_0, be32(interrupts->Some_0@, 0) as u32))
    }
}

/// The GPIO controller and pin of the EC interrupt, which must be level-low.
pub fn resolve_irq(interrupt_parent: Option<usize>, interrupts: Option<&[u8]>) -> (r: Result<
    (u32, u32),
    &'static str,
>)
    ensures
        r == irq_of(interrupt_parent, interrupts),
{
    let phandle: u32 = match read_u32_property(interrupt_parent) {
        Some(phandle) => phandle,
        None => {
            return Err("cros-ec-spi: missing interrupt-parent");
        },
    };
    let interrupts = match interrupts {
        Some(interrupts) => interrupts,
        None => {
            return Err("cros-ec-spi: missing interrupts");
        },
    };
    match (read_be_u32(interrupts, 0), read_be_u32(interrupts, 4)) {
        (Some(pin), Some(flags)) => {
            if flags % 16 != 8 {
                Err("cros-ec-spi: EC interrupt is not level-low")
            } else {
                Ok((phandle, pin))
            }
        },
        _ => Err("cros-ec-spi: malformed interrupts"),
    }
}

/// Where the device node puts the EC.
#[derive(Clone, Copy, Debug, Eq, PartialEq, Structural)]
pub struct EcPlacement {
    pub phandle: u32,
    pub chip_select: u8,
    pub maximum_speed_hz: u32,
}

pub open spec fn placement_of(
    phandle: Option<usize>,
    linux_phandle: Option<usize>,
    reg: Option<usize>,
    maximum_speed: Option<usize>,
) -> Result<EcPlacement, &'static str> {
    let handle = match as_u32(phandle) {
        Some(value) => Some(value),
        None => as_u32(linux_phandle),
    };
    if handle is None {
        Err("cros-ec-spi: missing phandle")
    } else if !(reg matches Some(select) && select <= u8::MAX) {
        Err("cros-ec-spi: invalid chip select")
    } else {
        Ok(
            EcPlacement {
                phandle: handle->Some_0,
                chip_select: reg->Some_0 as u8,
                maximum_speed_hz: match as_u32(maximum_speed) {
                    Some(speed) => speed,
                    None => DEFAULT_SPEED_HZ,
                },
            },
        )
    }
}

/// Reads the numeric properties of the device node. `phandle` falls back to
/// the older spelling, and the speed to the board default.
pub fn read_placement(
    phandle: Option<usize>,
    linux_phandle: Option<usize>,
    reg: Option<usize>,
    maximum_speed: Option<usize>,
) -> (r: Result<EcPlacement, &'static str>)
    ensures
        r == placement_of(phandle, linux_phandle, reg, maximum_speed),
{
    let handle: u32 = match read_u32_property(phandle) {
        Some(value) => value,
        None => match read_u32_property(linux_phandle) {
            Some(value) => value,
            None => {
                return Err("cros-ec-spi: missing phandle");
            },
        },
    };
    let chip_select: u8 = match reg {
        Some(value) => if value <= u8::MAX as usize {
            value as u8
        } else {
            return Err("cros-ec-spi: invalid chip select");
        },
        None => {
            return Err("cros-ec-spi: invalid chip select");
        },
    };
    let maximum_speed_hz: u32 = match read_u32_property(maximum_speed) {
        Some(speed) => speed,
        None => DEFAULT_SPEED_HZ,
    };
    Ok(EcPlacement { phandle: handle, chip_select, maximum_speed_hz })
}

/// What a device says of itself.
#[derive(Debug)]
pub struct EcNode<'a> {
    pub phandle: Option<usize>,
    pub linux_phandle: Option<usize>,
    pub reg: Option<usize>,
    pub maximum_speed: Option<usize>,
    pub compatible: Vec<String>,
    pub interrupt_parent: Option<usize>,
    pub interrupts: Option<&'a [u8]>,
}

/// Where an EC is, whether it is the one of the AP, and where its interrupt
/// comes in.
#[derive(Clone, Copy, Debug, Eq, PartialEq, Structural)]
pub struct EcWiring {
    pub placement: EcPlacement,
    pub primary: bool,
    /// Handle of the GPIO controller.
    pub irq_controller: u32,
    pub irq_pin: u32,
}

/// What a device comes to, or its first fault: its place, then its interrupt.
pub open spec fn wired(node: EcNode) -> Result<EcWiring, &'static str> {
    match (
        placement_of(node.phandle, node.linux_phandle, node.reg, node.maximum_speed),
        irq_of(node.interrupt_parent, node.interrupts),
    ) {
        (Err(e), _) => Err(e),
        (_, Err(e)) => Err(e),
        (Ok(placement), Ok((irq_controller, irq_pin))) => Ok(
            EcWiring {
                placement,
                primary: place_of(node.compatible@, "google,cros-ec-fp"@) is None,
                irq_controller,
                irq_pin,
            },
        ),
    }
}

/// Reads what a device says of itself. Any EC but that of the fingerprint
/// reader is the one of the AP.
pub fn place(node: &EcNode) -> (r: Result<EcWiring, &'static str>)
    ensures
        r == wired(*node),
{
    let placement: EcPlacement = match read_placement(
        node.phandle,
        node.linux_phandle,
        node.reg,
        node.maximum_speed,
    ) {
        Ok(placement) => placement,
        Err(e) => {
            return Err(e);
        },
    };
    let primary: bool = position_of(&node.compatible, "google,cros-ec-fp").is_none();
    match resolve_irq(node.interrupt_parent, node.interrupts) {
        Ok((irq_controller, irq_pin)) => Ok(
            EcWiring { placement, primary, irq_controller, irq_pin },
        ),
        Err(e) => Err(e),
    }
}

/// The response to a read of any permitted batch fits in the response window,
/// even where it starts 2000 bytes late.
pub proof fn a_batch_fits_the_response_window(vectors: u32, idle: int)
    requires
        vectors <= CROS_EC_MAX_MOTION_FIFO_VECTORS,
        0 <= idle <= 2_000,
    ensures
        idle + 1 + HOST_HEADER_BYTES + MOTION_FIFO_READ_FIXED_BYTES + MOTION_SENSOR_DATA_BYTES
            * vectors <= RESPONSE_CLOCK_BYTES,
{
}

/// Keeps the driver linked into builds that load it by name.
pub fn force_link() {
}

} // verus!
