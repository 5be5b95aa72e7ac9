//! What is taken over from the firmware, and in which order the controller is
//! brought under control.

use vstd::prelude::*;

use crate::bytes::{first_index, first_index_is_first};
use crate::device_tree::{is_nul, item_end, PropertyView};
use crate::mmio::{with_bit, RegOp};
use crate::sdhci::{
    check_reset, content, isolation_program, named_irq, named_memory, pad_program, placed,
    supply_voltage, vendor_spec_for, ActionView, EmmcNode, Event, Held, Probe, ResetOutcome, Stage,
    Window,
};
use crate::sdhci::binding::{
    handoff_action, legacy_pio_cqhci_config, list_index, low_voltage_pads, power_is_usable,
    HandoffPowerAction,
};

verus! {

// The binding.

/// Power that the firmware left on is usable if bit 0 is set and the voltage
/// in bits 1 to 3 is one of the three that the standard knows.
pub proof fn three_voltages_are_usable(value: u8)
    ensures
        power_is_usable(value) <==> value % 16 == 11 || value % 16 == 13 || value % 16 == 15,
{
}

/// Without a request there is nothing to do, a request to switch the bus on
/// (2) is acknowledged, and any other is refused; so is unusable power.
pub proof fn only_a_bus_request_is_acknowledged(requests: u32, power: u8)
    ensures
        !power_is_usable(power) ==> handoff_action(requests, power) == HandoffPowerAction::Reject,
        power_is_usable(power) ==> {
            &&& handoff_action(requests, power) == HandoffPowerAction::Nothing <==> requests == 0
            &&& handoff_action(requests, power) == HandoffPowerAction::AcknowledgeBusOn
                <==> requests == 2
        },
{
}

/// The pads are switched to 1.8 V by bits 15 and 16; the others stay.
pub proof fn two_bits_switch_the_pads(value: u32, voltage: (u32, u32), r: Result<u32, &'static str>)
    requires
        call_ensures(vendor_spec_for, (voltage,), r),
    ensures
        low_voltage_pads(value) as int / 0x8000 % 4 == 3,
        low_voltage_pads(value) as int % 0x8000 == value as int % 0x8000,
        low_voltage_pads(value) as int / 0x2_0000 == value as int / 0x2_0000,
        r is Ok <==> voltage == (1_800_000u32, 1_800_000u32),
        r matches Ok(spec) ==> spec == 0x1_8a9c,
{
    let v = value as int;
    assert(v == v % 0x8000 + 0x8000 * (v / 0x8000));
    assert(v / 0x8000 % 2 + 2 * (v / 0x1_0000 % 2) == v / 0x8000 % 4);
    assert(v / 0x8000 / 4 == v / 0x2_0000);
    assert(v / 0x8000 / 2 == v / 0x1_0000);
    let first = with_bit(value, 0x8000);
    assert(first as int / 0x1_0000 == v / 0x1_0000);
}

/// Command queueing and its encryption are switched off: the two lowest bits.
pub proof fn two_bits_switch_queueing_off(inherited: u32, r: u32)
    requires
        call_ensures(legacy_pio_cqhci_config, (inherited,), r),
    ensures
        r % 4 == 0,
        r as int / 4 == inherited as int / 4,
{
}

/// The names of a list are counted without the empty ones; a name is found at
/// the count of those before it.
pub proof fn names_are_counted(value: Seq<u8>, from: int, end: int, count: int, wanted: Seq<u8>)
    requires
        0 <= from <= end < value.len(),
        value[end] == 0,
        forall|i: int| from <= i < end ==> #[trigger] value[i] != 0,
    ensures
        from < end && value.subrange(from, end) == wanted ==> list_index(value, from, count, wanted)
            == Some(count),
        from < end && value.subrange(from, end) != wanted ==> list_index(value, from, count, wanted)
            == list_index(value, end + 1, count + 1, wanted),
        from == end ==> list_index(value, from, count, wanted) == list_index(
            value,
            end + 1,
            count,
            wanted,
        ),
{
    items_end_at_a_nul(value, from, end);
}

/// An item ends at the first byte of zero.
proof fn items_end_at_a_nul(value: Seq<u8>, from: int, end: int)
    requires
        0 <= from <= end < value.len(),
        value[end] == 0,
        forall|i: int| from <= i < end ==> #[trigger] value[i] != 0,
    ensures
        item_end(value, from) == end,
{
    first_index_is_first(value, is_nul(), from);
    match first_index(value, is_nul(), from) {
        Some(found) => {
            assert(is_nul()(value[found]));
            if found > end {
                assert(!is_nul()(value[end]));
            }
        },
        None => {
            assert(!is_nul()(value[end]));
        },
    }
}

/// A placed controller is what its node says: an 8-bit eMMC at a fixed 1.8 V,
/// with a named interrupt and two named windows that are large enough.
pub proof fn placed_controllers_are_complete(
    node: EmmcNode,
    nodes: Option<Seq<Seq<PropertyView>>>,
)
    requires
        placed(node, nodes) is Ok,
    ensures
        ({
            let place = placed(node, nodes)->Ok_0;
            let irq = named_irq(
                content(node.interrupt_names),
                "pwr_irq"@,
                node.interrupts@.len() as int,
            );
            let host = named_memory(content(node.reg_names), "hc"@, node.memory@);
            let queue = named_memory(content(node.reg_names), "cqhci"@, node.memory@);
            &&& node.non_removable && node.bus_width == Some(8usize)
            &&& node.supply is Some && node.supply->0 <= u32::MAX
            &&& supply_voltage(nodes, Some(node.supply->0 as u32)) == Ok::<
                (u32, u32),
                &'static str,
            >((1_800_000, 1_800_000))
            &&& place.vendor_spec == 0x1_8a9c
            &&& irq is Ok && node.interrupts@[irq->Ok_0 as int] == Some(place.pwr_irq)
            &&& host is Ok && place.host_start == host->Ok_0.0
            &&& place.host_start + place.host_size == host->Ok_0.1 + 1
            &&& place.host_size >= 0x360
            &&& queue is Ok && place.cqhci_start == queue->Ok_0.0
            &&& place.cqhci_start + place.cqhci_size == queue->Ok_0.1 + 1
            &&& place.cqhci_size >= 0x74
        }),
{
}

// Probing.

/// The pads are switched while the delay line is in reset and powered down.
pub proof fn pads_are_switched_at_rest(vendor_spec: u32)
    ensures
        pad_program(vendor_spec) == seq![
            (Window::Host, RegOp::Update { offset: 0x200, clear: 0, set: 0x4000_0000 }),
            (Window::Host, RegOp::Update { offset: 0x200, clear: 0, set: 0x2000_0000 }),
            (Window::Host, RegOp::Write { offset: 0x20c, value: vendor_spec }),
        ],
{
}

/// Encryption and command queueing are switched off for transfers by the
/// processor: the queue's two lowest bits, its parameters, and bit 15 of the
/// host's function register.
pub proof fn legacy_transfers_are_isolated(config: u32, function: u32)
    ensures
        ({
            let program = isolation_program(config, function);
            &&& program.len() == 3
            &&& program[0].0 == Window::Cqhci && program[0].1 is Write
            &&& program[0].1->Write_offset == 8
            &&& program[0].1->Write_value == config - config % 4
            &&& program[1] == (Window::Cqhci, RegOp::Write { offset: 0x70, value: 0 })
            &&& program[2].0 == Window::Host && program[2].1 is Write
            &&& program[2].1->Write_offset == 0x260
            &&& function as int / 0x8000 % 2 == 1 ==> program[2].1->Write_value == function
            &&& function as int / 0x8000 % 2 == 0 ==> program[2].1->Write_value == function
                + 0x8000
        }),
{
}

/// The clocks are resolved by name, the core clock is set to 100 MHz, and the
/// clocks are enabled, before the host's window is mapped.
pub proof fn clocks_come_first(probe: Probe, value: u64)
    requires
        probe.wf(),
    ensures
        ({
            let (next, action) = probe.success(value);
            &&& probe.stage == (Stage::ResolveClock { index: 0 }) ==> next.stage == (
            Stage::ResolveClock { index: 1 }) && action == (ActionView::ResolveClock {
                name: "core",
            })
            &&& probe.stage == (Stage::ResolveClock { index: 1 }) ==> next.stage == (
            Stage::ResolveClock { index: 2 }) && action == (ActionView::ResolveClock { name: "xo" })
            &&& probe.stage == (Stage::ResolveClock { index: 2 }) ==> next.stage == Stage::SetRate
                && action == (ActionView::SetRate { clock: 1, hz: 100_000_000 })
            &&& probe.stage == Stage::SetRate && value <= u32::MAX ==> next.stage == (
            Stage::EnableClock { index: 0 }) && next.base_clock_hz == value && action == (
            ActionView::EnableClock { index: 0 })
            &&& probe.stage == Stage::SetRate && value > u32::MAX ==> action is Abandon
            &&& probe.stage == (Stage::EnableClock { index: 0 }) ==> next.stage == (
            Stage::EnableClock { index: 1 }) && action == (ActionView::EnableClock { index: 1 })
            &&& probe.stage == (Stage::EnableClock { index: 1 }) ==> next.stage == (
            Stage::EnableClock { index: 2 }) && action == (ActionView::EnableClock { index: 2 })
            &&& probe.stage == (Stage::EnableClock { index: 2 }) ==> next.stage == Stage::MapHost
                && action == (ActionView::MapWindow { window: Window::Host })
        }),
{
}

/// The power requests are masked and then read: four bits. The power register
/// is read beside them, and kept.
pub proof fn requests_are_masked_and_read(probe: Probe, value: u64)
    requires
        probe.wf(),
    ensures
        ({
            let (next, action) = probe.success(value);
            &&& probe.stage == Stage::MapHost ==> next.stage == Stage::ReadMask && action == (
            ActionView::Read {
                before: seq![(Window::Host, RegOp::Write { offset: 0x244, value: 0 })],
                window: Window::Host,
                offset: 0x244,
            })
            &&& probe.stage == Stage::ReadMask && value == 0 ==> next.stage == Stage::ReadRequests
                && action == (ActionView::Read {
                before: Seq::empty(),
                window: Window::Host,
                offset: 0x240,
            })
            &&& probe.stage == Stage::ReadMask && 0 < value <= u32::MAX ==> action is Abandon
            &&& probe.stage == Stage::ReadRequests && value <= u32::MAX ==> next.stage == (
            Stage::ReadPower { requests: (value % 16) as u32 }) && action == (
            ActionView::ReadByte { offset: 0x29 })
            &&& probe.stage is ReadPower && value < 256 ==> next.power_control == value
        }),
{
}

/// A request to switch the bus on is cleared, with up to ten more tries ten
/// microseconds apart, and acknowledged once no request is left.
pub proof fn a_bus_request_is_cleared_and_acknowledged(probe: Probe, value: u64)
    requires
        probe.wf(),
        value <= u32::MAX,
    ensures
        ({
            let (next, action) = probe.success(value);
            let clear = (Window::Host, RegOp::Write { offset: 0x248, value: 2 });
            &&& probe.stage == (Stage::ReadPower { requests: 2 }) && value % 16 == 11 ==> next.stage
                == (Stage::Clearing { left: 10 }) && action == (ActionView::Read {
                before: seq![clear],
                window: Window::Host,
                offset: 0x240,
            })
            &&& probe.stage matches Stage::Clearing { left } ==> {
                let asked = value as int / 2 % 2 == 1;
                &&& !asked ==> next.stage == Stage::Cleared && action == (ActionView::Read {
                    before: Seq::empty(),
                    window: Window::Host,
                    offset: 0x240,
                })
                &&& asked ==> action == (ActionView::Read {
                    before: seq![clear, (Window::Host, RegOp::Delay { us: 10 })],
                    window: Window::Host,
                    offset: 0x240,
                })
                &&& asked && left > 1 ==> next.stage == (Stage::Clearing { left: (left - 1) as u32 })
                &&& asked && left == 1 ==> next.stage == Stage::Cleared
            }
            &&& probe.stage == Stage::Cleared && value % 16 == 0 ==> next.stage
                == Stage::AcknowledgedMask && action == (ActionView::Read {
                before: seq![(Window::Host, RegOp::Write { offset: 0x24c, value: 1 })],
                window: Window::Host,
                offset: 0x244,
            })
            &&& probe.stage == Stage::Cleared && value % 16 != 0 ==> action is Abandon
            &&& probe.stage == Stage::AcknowledgedMask ==> (next.stage
                == Stage::AcknowledgedRequests <==> value == 0)
            &&& probe.stage == Stage::AcknowledgedRequests ==> (next.stage == Stage::ReadVendor
                <==> value % 16 == 0)
            &&& next.stage == Stage::ReadVendor ==> action == (ActionView::Read {
                before: pad_program(probe.vendor_spec),
                window: Window::Host,
                offset: 0x20c,
            })
        }),
{
    three_voltages_are_usable((value % 256) as u8);
}

/// Nothing goes on before the pads have switched, and the probe ends well
/// only if the queue is off, its parameters are zero, and the host does not
/// encrypt.
pub proof fn isolation_is_verified(probe: Probe, value: u64)
    requires
        probe.wf(),
        value <= u32::MAX,
    ensures
        ({
            let (next, action) = probe.success(value);
            &&& probe.stage == Stage::ReadVendor ==> (next.stage == Stage::MapCqhci <==> value as int
                / 0x8000 % 4 == 3)
            &&& probe.stage == Stage::MapCqhci ==> next.stage == Stage::ReadConfig && action == (
            ActionView::Read { before: Seq::empty(), window: Window::Cqhci, offset: 8 })
            &&& probe.stage == Stage::ReadConfig ==> next.stage == (Stage::ReadFunction {
                config: value as u32,
            }) && action == (ActionView::Read {
                before: Seq::empty(),
                window: Window::Host,
                offset: 0x260,
            })
            &&& probe.stage matches Stage::ReadFunction { config } ==> next.stage
                == Stage::CheckConfig && action == (ActionView::Read {
                before: isolation_program(config, value as u32),
                window: Window::Cqhci,
                offset: 8,
            })
            &&& probe.stage == Stage::CheckConfig ==> next.stage == (Stage::CheckCrypto {
                isolated: value % 4 == 0,
            }) && action == (ActionView::Read {
                before: Seq::empty(),
                window: Window::Cqhci,
                offset: 0x70,
            })
            &&& probe.stage matches Stage::CheckCrypto { isolated } ==> next.stage == (
            Stage::CheckFunction { isolated: isolated && value == 0 }) && action == (
            ActionView::Read { before: Seq::empty(), window: Window::Host, offset: 0x260 })
            &&& probe.stage matches Stage::CheckFunction { isolated } ==> (action is Finished
                <==> isolated && value as int / 0x8000 % 2 == 1)
        }),
{
    let v = value as int;
    assert(v / 0x8000 % 2 + 2 * (v / 0x8000 / 2 % 2) == v / 0x8000 % 4);
    assert(v / 0x8000 / 2 == v / 0x1_0000);
}

/// What a failure gives back: the clocks that were enabled before it, and the
/// windows that were mapped.
pub proof fn failures_give_back_the_rest(probe: Probe, index: usize)
    requires
        probe.wf(),
    ensures
        ({
            let action = probe.failure(Event::Failed).1;
            &&& probe.stage == (Stage::ResolveClock { index }) ==> action is Abandon && action->held
                == (Held { clocks: 0, host: false, cqhci: false })
            &&& probe.stage == (Stage::EnableClock { index }) ==> action is Abandon && action->held
                == (Held { clocks: index, host: false, cqhci: false })
            &&& probe.stage == Stage::MapHost ==> action is Abandon && action->held == (Held {
                clocks: 3,
                host: false,
                cqhci: false,
            })
            &&& probe.stage == Stage::MapCqhci ==> action is Abandon && action->held == (Held {
                clocks: 3,
                host: true,
                cqhci: false,
            })
        }),
        probe.stage == (Stage::ResolveClock { index }) ==> probe.failure(Event::Deferred).1
            is Defer,
{
}

/// A reset is good if the power register is what was taken over and no power
/// request came.
pub proof fn a_reset_keeps_the_power(
    ok: bool,
    taken_over: u8,
    power: u8,
    status: u32,
    r: ResetOutcome,
)
    requires
        call_ensures(check_reset, (ok, taken_over, power, status), r),
    ensures
        r == ResetOutcome::Failed <==> !ok,
        r == ResetOutcome::Kept <==> ok && power == taken_over && status % 16 == 0,
{
}

} // verus!
