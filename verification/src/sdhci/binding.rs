//! SC7180 SDHCI registers, and what the firmware's state and properties must
//! be.

use vstd::prelude::*;

use crate::device_tree::item_end;
use crate::mmio::{set_bit, with_bit};

verus! {

pub const REQUIRED_BUS_WIDTH: usize = 8;

pub const CORE_DLL_CONFIG: usize = 0x200;

pub const CORE_DLL_RST: u32 = 0x4000_0000;

pub const CORE_DLL_PDN: u32 = 0x2000_0000;

pub const CORE_VENDOR_SPEC: usize = 0x20c;

pub const CORE_VENDOR_SPEC_POR_VAL: u32 = 0x0a9c;

pub const CORE_IO_PAD_PWR_SWITCH_EN: u32 = 0x8000;

pub const CORE_IO_PAD_PWR_SWITCH: u32 = 0x1_0000;

pub const CORE_IO_PAD_PWR_SWITCH_MASK: u32 = 0x1_8000;

pub const EMMC_IO_VOLTAGE_UV: u32 = 1_800_000;

pub const CORE_PWRCTL_STATUS: usize = 0x240;

pub const CORE_PWRCTL_MASK: usize = 0x244;

pub const CORE_PWRCTL_CLEAR: usize = 0x248;

pub const CORE_PWRCTL_CTL: usize = 0x24c;

pub const CORE_PWRCTL_BUS_ON: u32 = 0x2;

pub const CORE_PWRCTL_BUS_SUCCESS: u32 = 0x1;

pub const CORE_PWRCTL_REQUEST_MASK: u32 = 0x0f;

pub const CORE_PWRCTL_INTERRUPTS_DISABLED: u32 = 0;

pub const CORE_MCI_VERSION: usize = 0x318;

pub const CORE_MCI_FIFO_CNT: usize = 0x308;

pub const CORE_MCI_STATUS: usize = 0x324;

pub const CORE_SDCC_DEBUG_REG: usize = 0x358;

pub const CORE_MCI_DATA_CNT: usize = 0x35c;

pub const HC_VENDOR_SPECIFIC_FUNC4: usize = 0x260;

pub const HC_DISABLE_CRYPTO: u32 = 0x8000;

pub const REQUIRED_MMIO_SIZE: usize = 0x360;

pub const CQHCI_CFG: usize = 0x08;

pub const CQHCI_CTL: usize = 0x0c;

pub const CQHCI_ENABLE: u32 = 0x1;

pub const CQHCI_CRYPTO_GENERAL_ENABLE: u32 = 0x2;

pub const NONCQ_CRYPTO_PARM: usize = 0x70;

pub const REQUIRED_CQHCI_MMIO_SIZE: usize = 0x74;

pub const SDHCI_POWER_CONTROL: usize = 0x29;

pub fn accepts_emmc_properties(non_removable: bool, bus_width: Option<usize>) -> (r: bool)
    ensures
        r == (non_removable && bus_width == Some(REQUIRED_BUS_WIDTH)),
{
    match bus_width {
        Some(width) => non_removable && width == REQUIRED_BUS_WIDTH,
        None => false,
    }
}

pub open spec fn low_voltage_pads(vendor_spec: u32) -> u32 {
    with_bit(with_bit(vendor_spec, CORE_IO_PAD_PWR_SWITCH_EN), CORE_IO_PAD_PWR_SWITCH)
}

/// The vendor register for a supply that is fixed at 1.8 V.
pub fn vendor_spec_for_fixed_1v8_supply(
    vendor_spec: u32,
    minimum_uv: u32,
    maximum_uv: u32,
) -> (r: Option<u32>)
    ensures
        r == (if minimum_uv == EMMC_IO_VOLTAGE_UV && maximum_uv == EMMC_IO_VOLTAGE_UV {
            Some(low_voltage_pads(vendor_spec))
        } else {
            None
        }),
{
    if minimum_uv == EMMC_IO_VOLTAGE_UV && maximum_uv == EMMC_IO_VOLTAGE_UV {
        Some(set_bit(set_bit(vendor_spec, CORE_IO_PAD_PWR_SWITCH_EN), CORE_IO_PAD_PWR_SWITCH))
    } else {
        None
    }
}

/// The queue engine and its encryption are off: the two lowest bits.
pub fn legacy_pio_cqhci_config(inherited: u32) -> (r: u32)
    ensures
        r == inherited - inherited % 4,
{
    inherited - inherited % 4
}

/// Inline encryption is off.
pub fn legacy_pio_func4(inherited: u32) -> (r: u32)
    ensures
        r == with_bit(inherited, HC_DISABLE_CRYPTO),
{
    set_bit(inherited, HC_DISABLE_CRYPTO)
}

/// The place of a text in a list of texts, empty ones not counted.
pub open spec fn list_index(value: Seq<u8>, from: int, count: int, wanted: Seq<u8>) -> Option<int>
    decreases value.len() - from,
{
    if from < 0 || from > value.len() {
        None
    } else {
        let end = item_end(value, from);
        let item = value.subrange(from, end);
        if item.len() > 0 && item == wanted {
            Some(count)
        } else if from <= end < value.len() {
            list_index(
                value,
                end + 1,
                if item.len() > 0 {
                    count + 1
                } else {
                    count
                },
                wanted,
            )
        } else {
            None
        }
    }
}

pub fn string_list_index(value: &[u8], wanted: &str) -> (r: Option<usize>)
    ensures
        match r {
            Some(index) => list_index(value@, 0, 0, vstd::utf8::encode_utf8(wanted@)) == Some(
                index as int,
            ),
            None => list_index(value@, 0, 0, vstd::utf8::encode_utf8(wanted@)) is None,
        },
{
    let target = wanted.as_bytes();
    let length: usize = value.len();
    let mut from: usize = 0;
    let mut count: usize = 0;
    loop
        invariant
            from <= length,
            count <= from,
            length == value@.len(),
            target@ == vstd::utf8::encode_utf8(wanted@),
            list_index(value@, 0, 0, target@) == list_index(
                value@,
                from as int,
                count as int,
                target@,
            ),
        decreases length - from,
    {
        let end: usize = crate::device_tree::find_item_end(value, from);
        let item = crate::bytes::copy_range(value, from, end);
        if item.len() > 0 && crate::bytes::same_bytes(&item, target) {
            return Some(count);
        }
        if end == length {
            return None;
        }
        if item.len() > 0 {
            count += 1;
        }
        from = end + 1;
    }
}

/// Power is on, at one of the three voltages that the register knows.
pub open spec fn power_is_usable(value: u8) -> bool {
    value % 2 == 1 && (value / 2 % 8 == 5 || value / 2 % 8 == 6 || value / 2 % 8 == 7)
}

pub fn inherited_power_control_is_usable(value: u8) -> (r: bool)
    ensures
        r == power_is_usable(value),
{
    let voltage: u8 = value / 2 % 8;
    value % 2 == 1 && (voltage == 5 || voltage == 6 || voltage == 7)
}

/// What to do about the power requests that the firmware left.
#[derive(Clone, Copy, Debug, Eq, PartialEq, Structural)]
pub enum HandoffPowerAction {
    Nothing,
    AcknowledgeBusOn,
    Reject,
}

pub open spec fn handoff_action(requests: u32, power_control: u8) -> HandoffPowerAction {
    if !power_is_usable(power_control) {
        HandoffPowerAction::Reject
    } else if requests == 0 {
        HandoffPowerAction::Nothing
    } else if requests == CORE_PWRCTL_BUS_ON {
        HandoffPowerAction::AcknowledgeBusOn
    } else {
        HandoffPowerAction::Reject
    }
}

pub fn handoff_power_action(requests: u32, power_control: u8) -> (r: HandoffPowerAction)
    ensures
        r == handoff_action(requests, power_control),
{
    if !inherited_power_control_is_usable(power_control) {
        HandoffPowerAction::Reject
    } else if requests == 0 {
        HandoffPowerAction::Nothing
    } else if requests == CORE_PWRCTL_BUS_ON {
        HandoffPowerAction::AcknowledgeBusOn
    } else {
        HandoffPowerAction::Reject
    }
}

} // verus!
