//! How the controller is found, reset and identified, and what its device
//! declares.

use vstd::prelude::*;

use crate::goodix::{
    await_reset, check_probe, command_message, gpio_of, hid_descriptor, identity_step,
    logical_range, rearm_after_report, register_read, reset_controller, touch_axes, GpioSpec,
    HidDescriptor, IdentityAction, IdentityOutcome, IdentityStage, ResetStep,
};
use crate::goodix::hid::{HidField, LayoutView};
use crate::i2c::I2cMessage;
use crate::input::AbsoluteAxis;

verus! {

// Lines.

/// Driving a line and reading it back gives what was asserted.
pub proof fn lines_read_back(line: GpioSpec, asserted: bool, level: bool, read: bool)
    requires
        call_ensures(GpioSpec::physical_level, (&line, asserted), level),
        call_ensures(GpioSpec::is_asserted, (&line, level), read),
    ensures
        read == asserted,
        line.active_low ==> level == !asserted,
        !line.active_low ==> level == asserted,
{
}

/// A line is named by its controller, its pin and its flags: bit 0 says that
/// it is active when low.
pub proof fn lines_are_named_by_cells(property: Seq<u8>)
    ensures
        gpio_of(property) is Ok <==> property.len() >= 8,
        gpio_of(property) matches Ok(line) ==> {
            &&& line.phandle == 0x100_0000 * property[0] + 0x1_0000 * property[1] + 0x100
                * property[2] + property[3]
            &&& line.pin == 0x100_0000 * property[4] + 0x1_0000 * property[5] + 0x100 * property[6]
                + property[7]
            &&& property.len() < 12 ==> !line.active_low
            &&& property.len() >= 12 ==> line.active_low == (property[11] % 2 == 1)
        },
{
}

/// The controller is held in reset for 20 milliseconds and given 180 to come
/// up, before its interrupt line is an input.
pub proof fn the_controller_is_reset(line: GpioSpec, r: [ResetStep; 5])
    requires
        call_ensures(reset_controller, (&line,), r),
    ensures
        r@[0] == ResetStep::ResetOutput(!line.active_low),
        r@[1] == ResetStep::Delay(20_000),
        r@[2] == ResetStep::ResetLevel(line.active_low),
        r@[3] == ResetStep::Delay(180_000),
        r@[4] == ResetStep::InterruptInput,
{
}

/// The interrupt is armed again only where it is used, and the controller is
/// probed once, at its own address.
pub proof fn the_controller_is_probed_once(
    active: bool,
    fallback: bool,
    armed: bool,
    registered: bool,
    reg: Option<usize>,
    r: Result<(), &'static str>,
)
    requires
        call_ensures(rearm_after_report, (active, fallback), armed),
        call_ensures(check_probe, (registered, reg), r),
    ensures
        armed <==> active && !fallback,
        r is Ok <==> !registered && reg == Some(0x5dusize),
{
}

// Messages.

/// A register is read by writing its number, low byte first, and reading on
/// without a stop between.
pub proof fn registers_are_addressed(register: u16, length: usize, r: Vec<I2cMessage>)
    requires
        call_ensures(register_read, (register, length), r),
    ensures
        r@.len() == 2,
        r@[0]@.address == 0x5d && !r@[0]@.read && !r@[0]@.stop,
        r@[0]@.data.len() == 2,
        r@[0]@.data[0] + 256 * r@[0]@.data[1] == register,
        r@[1]@.address == 0x5d && r@[1]@.read && r@[1]@.stop,
        r@[1]@.data.len() == length,
{
}

/// A command is written to the command register, its opcode last.
pub proof fn commands_are_addressed(register: u16, opcode: u8, r: I2cMessage)
    requires
        call_ensures(command_message, (register, opcode), r),
    ensures
        r@.address == 0x5d && !r@.read && r@.stop,
        r@.data.len() == 4,
        r@.data[0] + 256 * r@.data[1] == register,
        r@.data[2] == 0,
        r@.data[3] == opcode,
{
}

// Identification.

/// The descriptor of the controller is believed if it is of version 1.0, of
/// this vendor and one of two products, and its lengths are sensible.
pub proof fn descriptors_are_read(d: Seq<u8>)
    requires
        d.len() >= 24,
    ensures
        hid_descriptor(d) is Ok <==> {
            &&& d[0] == 30 && d[1] == 0 && d[2] == 0 && d[3] == 1
            &&& d[20] + 256 * d[21] == 0x27c6
            &&& d[22] + 256 * d[23] == 0x0e51 || d[22] + 256 * d[23] == 0x0e94
            &&& 1 <= d[4] + 256 * d[5] <= 4096
            &&& 3 <= d[10] + 256 * d[11] <= 512
        },
        hid_descriptor(d) matches Ok(descriptor) ==> {
            &&& descriptor.report_descriptor_length == d[4] + 256 * d[5]
            &&& descriptor.report_descriptor_register == d[6] + 256 * d[7]
            &&& descriptor.max_input_length == d[10] + 256 * d[11]
            &&& descriptor.command_register == d[16] + 256 * d[17]
            &&& descriptor.product_id == d[22] + 256 * d[23]
        },
{
}

/// The controller is powered on, given 60 milliseconds, and reset; its line
/// is then asked every millisecond for up to five seconds. An empty message
/// ends the reset, and it is powered on again before its report descriptor is
/// read.
pub proof fn the_controller_is_identified_in_order(
    d: HidDescriptor,
    since: u64,
    now: u64,
    data: &[u8],
)
    ensures
        identity_step(IdentityStage::PoweringOn(d), now, IdentityOutcome::Transferred(data)) == (
            IdentityStage::PowerSettling(d),
            IdentityAction::Delay(60_000),
        ),
        identity_step(IdentityStage::PowerSettling(d), now, IdentityOutcome::Delayed) == (
            IdentityStage::Resetting(d),
            IdentityAction::Command(d.command_register, 1),
        ),
        identity_step(IdentityStage::Resetting(d), now, IdentityOutcome::Transferred(data)) == (
            IdentityStage::SamplingLine(d, now),
            IdentityAction::SampleLine,
        ),
        identity_step(IdentityStage::SamplingLine(d, since), now, IdentityOutcome::Line(true)) == (
            IdentityStage::ReadingReply(d, since),
            IdentityAction::ReadInput(d.max_input_length),
        ),
        identity_step(IdentityStage::SamplingLine(d, since), now, IdentityOutcome::Line(false)) == (
            IdentityStage::PollDelay(d, since),
            IdentityAction::Delay(1_000),
        ),
        data@.len() >= 2 && data@[0] == 0 && data@[1] == 0 ==> identity_step(
            IdentityStage::ReadingReply(d, since),
            now,
            IdentityOutcome::Transferred(data),
        ) == (IdentityStage::PoweringOnAgain(d), IdentityAction::Command(d.command_register, 8)),
        data@.len() >= 2 && (data@[0] != 0 || data@[1] != 0) ==> identity_step(
            IdentityStage::ReadingReply(d, since),
            now,
            IdentityOutcome::Transferred(data),
        ) == await_reset(d, since, now),
        identity_step(IdentityStage::PoweringOnAgain(d), now, IdentityOutcome::Transferred(data))
            == (IdentityStage::SettlingAgain(d), IdentityAction::Delay(60_000)),
        identity_step(IdentityStage::SettlingAgain(d), now, IdentityOutcome::Delayed) == (
            IdentityStage::ReadingReport(d),
            IdentityAction::ReadRegister(
                d.report_descriptor_register,
                d.report_descriptor_length,
            ),
        ),
        identity_step(IdentityStage::ReadingReport(d), now, IdentityOutcome::Transferred(data)) == (
            IdentityStage::Finished,
            IdentityAction::Identify(d),
        ),
{
}

/// The first read is of the descriptor; one that is believed is followed by
/// the command to power on.
pub proof fn the_descriptor_comes_first(data: &[u8], now: u64)
    ensures
        hid_descriptor(data@) matches Ok(d) ==> identity_step(
            IdentityStage::ReadingDescriptor,
            now,
            IdentityOutcome::Transferred(data),
        ) == (IdentityStage::PoweringOn(d), IdentityAction::Command(d.command_register, 8)),
        hid_descriptor(data@) is Err ==> identity_step(
            IdentityStage::ReadingDescriptor,
            now,
            IdentityOutcome::Transferred(data),
        ).1 is Fail,
{
}

/// A reset is awaited for less than five seconds, and a failed transfer ends
/// the identification.
pub proof fn resets_are_awaited_for_five_seconds(d: HidDescriptor, since: u64, now: u64)
    ensures
        now < since + 5_000_000 ==> await_reset(d, since, now) == (
            IdentityStage::SamplingLine(d, since),
            IdentityAction::SampleLine,
        ),
        now >= since + 5_000_000 ==> await_reset(d, since, now).1 is Fail,
        identity_step(IdentityStage::PollDelay(d, since), now, IdentityOutcome::Delayed)
            == await_reset(d, since, now),
        identity_step(IdentityStage::PoweringOn(d), now, IdentityOutcome::TransferFailed).1 is Fail,
        identity_step(IdentityStage::Resetting(d), now, IdentityOutcome::TransferFailed).1 is Fail,
        identity_step(
            IdentityStage::ReadingReply(d, since),
            now,
            IdentityOutcome::TransferFailed,
        ).1 is Fail,
        identity_step(IdentityStage::ReadingReport(d), now, IdentityOutcome::TransferFailed).1
            is Fail,
{
}

// Axes.

/// The range of an axis covers the ranges of all its fields, and no more.
pub proof fn ranges_cover_every_field(fields: Seq<HidField>, index: int)
    requires
        0 <= index < fields.len(),
    ensures
        logical_range(fields).0 <= fields[index].logical_minimum,
        logical_range(fields).1 >= fields[index].logical_maximum,
        exists|i: int|
            0 <= i < fields.len() && (#[trigger] fields[i]).logical_minimum == logical_range(
                fields,
            ).0,
        exists|i: int|
            0 <= i < fields.len() && (#[trigger] fields[i]).logical_maximum == logical_range(
                fields,
            ).1,
    decreases fields.len(),
{
    let last = fields.len() - 1;
    assert(fields.last() == fields[last]);
    if fields.len() > 1 {
        let rest = fields.drop_last();
        let before = if index < last {
            index
        } else {
            0
        };
        ranges_cover_every_field(rest, before);
        let low = choose|i: int|
            0 <= i < rest.len() && (#[trigger] rest[i]).logical_minimum == logical_range(rest).0;
        let high = choose|i: int|
            0 <= i < rest.len() && (#[trigger] rest[i]).logical_maximum == logical_range(rest).1;
        assert(rest[low] == fields[low] && rest[high] == fields[high]);
        if index < last {
            assert(rest[index] == fields[index]);
        }
    } else {
        assert(fields[0].logical_minimum == logical_range(fields).0);
        assert(fields[0].logical_maximum == logical_range(fields).1);
    }
}

/// The device declares its positions twice, its five slots and its tracking
/// numbers, and pressure and size where the controller reports them.
pub proof fn axes_are_declared(layout: LayoutView)
    ensures
        ({
            let axes = touch_axes(layout);
            let x = logical_range(layout.x);
            let y = logical_range(layout.y);
            let pressure = logical_range(layout.pressure);
            let major = logical_range(layout.touch_major);
            let pressed: int = if layout.pressure.len() > 0 {
                2
            } else {
                0
            };
            &&& axes.len() == 6 + pressed + if layout.touch_major.len() > 0 {
                1int
            } else {
                0
            }
            &&& axes[0] == (AbsoluteAxis { code: 0x00, minimum: x.0, maximum: x.1 })
            &&& axes[1] == (AbsoluteAxis { code: 0x01, minimum: y.0, maximum: y.1 })
            &&& axes[2] == (AbsoluteAxis { code: 0x2f, minimum: 0, maximum: 4 })
            &&& axes[3] == (AbsoluteAxis { code: 0x39, minimum: -1i32, maximum: i32::MAX })
            &&& axes[4] == (AbsoluteAxis { code: 0x35, minimum: x.0, maximum: x.1 })
            &&& axes[5] == (AbsoluteAxis { code: 0x36, minimum: y.0, maximum: y.1 })
            &&& layout.pressure.len() > 0 ==> axes[6] == (AbsoluteAxis {
                code: 0x18,
                minimum: pressure.0,
                maximum: pressure.1,
            }) && axes[7] == (AbsoluteAxis {
                code: 0x3a,
                minimum: pressure.0,
                maximum: pressure.1,
            })
            &&& layout.touch_major.len() > 0 ==> axes[6 + pressed] == (AbsoluteAxis {
                code: 0x30,
                minimum: major.0,
                maximum: major.1,
            })
        }),
{
}

} // verus!
