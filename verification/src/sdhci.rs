//! SC7180 glue for the v5 SDHCI eMMC controller.
//!
//! Probing takes clocks and register windows and checks what the firmware
//! left, step by step; whatever fails, everything taken so far is given back.
//! Which step comes next is decided here, the steps are taken elsewhere.

pub mod binding;
pub mod laws;

use vstd::prelude::*;

use crate::cros_ec_spi::{as_u32, read_u32_property};
use crate::device_tree;
use crate::device_tree::{
    first_answering, first_cell, first_property, list_view, listed_nodes, Property, PropertyView,
};
use crate::mmio::{has_bit, is_set, put, with_bit, written, RegOp};
use crate::platform::{resource_size, span};
use binding::{
    accepts_emmc_properties, handoff_action, handoff_power_action, legacy_pio_cqhci_config,
    legacy_pio_func4, list_index, low_voltage_pads, power_is_usable, string_list_index,
    vendor_spec_for_fixed_1v8_supply, HandoffPowerAction, CORE_DLL_CONFIG, CORE_DLL_PDN,
    CORE_DLL_RST, CORE_IO_PAD_PWR_SWITCH, CORE_IO_PAD_PWR_SWITCH_EN, CORE_PWRCTL_BUS_ON,
    CORE_PWRCTL_BUS_SUCCESS, CORE_PWRCTL_CLEAR, CORE_PWRCTL_CTL, CORE_PWRCTL_INTERRUPTS_DISABLED,
    CORE_PWRCTL_MASK, CORE_PWRCTL_STATUS, CORE_VENDOR_SPEC, CORE_VENDOR_SPEC_POR_VAL, CQHCI_CFG,
    EMMC_IO_VOLTAGE_UV, HC_DISABLE_CRYPTO, HC_VENDOR_SPECIFIC_FUNC4, NONCQ_CRYPTO_PARM,
    REQUIRED_BUS_WIDTH, REQUIRED_CQHCI_MMIO_SIZE, REQUIRED_MMIO_SIZE, SDHCI_POWER_CONTROL,
};

verus! {

pub const PREFERRED_CORE_CLOCK_HZ: u64 = 100_000_000;

pub const CLOCK_COUNT: usize = 3;

/// The core clock, whose rate is set.
pub const CORE_CLOCK: usize = 1;

pub const CLEAR_POLLS: u32 = 10;

/// The clocks in the order in which they are taken.
pub fn clock_name(index: usize) -> (r: &'static str)
    requires
        index < CLOCK_COUNT,
    ensures
        r == (if index == 0 {
            "iface"
        } else if index == 1 {
            "core"
        } else {
            "xo"
        }),
{
    match index {
        0 => "iface",
        1 => "core",
        _ => "xo",
    }
}

// Properties.

/// Only a soldered eMMC on eight data lines is supported.
pub fn validate_emmc_node(non_removable: bool, bus_width: Option<usize>) -> (r: Result<
    (),
    &'static str,
>)
    ensures
        r == (if non_removable && bus_width == Some(REQUIRED_BUS_WIDTH) {
            Ok::<(), &'static str>(())
        } else {
            Err("qcom-sdhci-sc7180: only non-removable 8-bit eMMC is supported")
        }),
{
    if accepts_emmc_properties(non_removable, bus_width) {
        Ok(())
    } else {
        Err("qcom-sdhci-sc7180: only non-removable 8-bit eMMC is supported")
    }
}

/// The lowest and the highest voltage of the supply that a handle leads to.
pub open spec fn supply_voltage(
    nodes: Option<Seq<Seq<PropertyView>>>,
    phandle: Option<u32>,
) -> Result<(u32, u32), &'static str> {
    match phandle {
        None => Err("qcom-sdhci-sc7180: vqmmc-supply phandle is missing"),
        Some(handle) => match nodes {
            None => Err("qcom-sdhci-sc7180: FDT is unavailable"),
            Some(listed) => match first_answering(listed, handle) {
                None => Err("qcom-sdhci-sc7180: vqmmc-supply node is missing"),
                Some(node) => {
                    let minimum = first_cell(first_property(node, "regulator-min-microvolt"@));
                    let maximum = first_cell(first_property(node, "regulator-max-microvolt"@));
                    if minimum is None {
                        Err("qcom-sdhci-sc7180: vqmmc minimum voltage is missing")
                    } else if maximum is None {
                        Err("qcom-sdhci-sc7180: vqmmc maximum voltage is missing")
                    } else {
                        Ok((minimum->0, maximum->0))
                    }
                },
            },
        },
    }
}

/// The voltages of a supply among the nodes of a device tree.
pub fn supply_voltage_in(nodes: Option<&Vec<Vec<Property>>>, phandle: Option<u32>) -> (r: Result<
    (u32, u32),
    &'static str,
>)
    ensures
        r == supply_voltage(list_view(nodes), phandle),
{
    let handle: u32 = match phandle {
        Some(handle) => handle,
        None => {
            return Err("qcom-sdhci-sc7180: vqmmc-supply phandle is missing");
        },
    };
    let listed = match nodes {
        Some(listed) => listed,
        None => {
            return Err("qcom-sdhci-sc7180: FDT is unavailable");
        },
    };
    let node = match device_tree::find_answering(listed, handle) {
        Some(node) => node,
        None => {
            return Err("qcom-sdhci-sc7180: vqmmc-supply node is missing");
        },
    };
    let minimum: u32 = match device_tree::cell_in(node, "regulator-min-microvolt") {
        Some(minimum) => minimum,
        None => {
            return Err("qcom-sdhci-sc7180: vqmmc minimum voltage is missing");
        },
    };
    match device_tree::cell_in(node, "regulator-max-microvolt") {
        Some(maximum) => Ok((minimum, maximum)),
        None => Err("qcom-sdhci-sc7180: vqmmc maximum voltage is missing"),
    }
}

/// The voltages of the supply that a property names, in a flattened device
/// tree.
pub fn fixed_supply_voltage_uv(supply: Option<usize>, blob: &[u8]) -> (r: Result<
    (u32, u32),
    &'static str,
>)
    ensures
        r == supply_voltage(listed_nodes(blob@), as_u32(supply)),
{
    let phandle: Option<u32> = read_u32_property(supply);
    match device_tree::list(blob) {
        Some(nodes) => supply_voltage_in(Some(&nodes), phandle),
        None => supply_voltage_in(None, phandle),
    }
}

/// The vendor register for the supply: it must be fixed at 1.8 V.
pub fn vendor_spec_for(voltage: (u32, u32)) -> (r: Result<u32, &'static str>)
    ensures
        r == (if voltage.0 == EMMC_IO_VOLTAGE_UV && voltage.1 == EMMC_IO_VOLTAGE_UV {
            Ok::<u32, &'static str>(low_voltage_pads(CORE_VENDOR_SPEC_POR_VAL))
        } else {
            Err("qcom-sdhci-sc7180: only fixed 1.8 V vqmmc is currently supported")
        }),
{
    match vendor_spec_for_fixed_1v8_supply(CORE_VENDOR_SPEC_POR_VAL, voltage.0, voltage.1) {
        Some(vendor_spec) => Ok(vendor_spec),
        None => Err("qcom-sdhci-sc7180: only fixed 1.8 V vqmmc is currently supported"),
    }
}

pub open spec fn content(property: Option<&[u8]>) -> Option<Seq<u8>> {
    match property {
        Some(value) => Some(value@),
        None => None,
    }
}

/// The place of the interrupt resource that carries a name.
pub open spec fn named_irq(names: Option<Seq<u8>>, name: Seq<char>, irq_count: int) -> Result<
    usize,
    &'static str,
> {
    match names {
        None => Err("qcom-sdhci-sc7180: interrupt-names is missing"),
        Some(value) => match list_index(value, 0, 0, vstd::utf8::encode_utf8(name)) {
            None => Err("qcom-sdhci-sc7180: pwr_irq is not named"),
            Some(index) => if index < irq_count {
                Ok(index as usize)
            } else {
                Err("qcom-sdhci-sc7180: named pwr_irq resource is missing")
            },
        },
    }
}

/// The interrupt resource that carries a name.
pub fn resolve_named_irq(names: Option<&[u8]>, name: &str, irq_count: usize) -> (r: Result<
    usize,
    &'static str,
>)
    ensures
        r == named_irq(content(names), name@, irq_count as int),
        r matches Ok(index) ==> index < irq_count,
{
    match names {
        None => Err("qcom-sdhci-sc7180: interrupt-names is missing"),
        Some(value) => match string_list_index(value, name) {
            None => Err("qcom-sdhci-sc7180: pwr_irq is not named"),
            Some(index) => {
                if index < irq_count {
                    Ok(index)
                } else {
                    Err("qcom-sdhci-sc7180: named pwr_irq resource is missing")
                }
            },
        },
    }
}

/// The memory resource that carries a name.
pub open spec fn named_memory(
    names: Option<Seq<u8>>,
    name: Seq<char>,
    memory: Seq<(usize, usize)>,
) -> Result<(usize, usize), &'static str> {
    match names {
        None => Err("qcom-sdhci-sc7180: reg-names is missing"),
        Some(value) => match list_index(value, 0, 0, vstd::utf8::encode_utf8(name)) {
            None => Err("qcom-sdhci-sc7180: named memory resource is missing"),
            Some(index) => if index < memory.len() {
                Ok(memory[index])
            } else {
                Err("qcom-sdhci-sc7180: named memory resource index is missing")
            },
        },
    }
}

/// The memory resource that carries a name: its first and its last byte.
pub fn resolve_named_memory(names: Option<&[u8]>, name: &str, memory: &Vec<(usize, usize)>) -> (r:
    Result<(usize, usize), &'static str>)
    ensures
        r == named_memory(content(names), name@, memory@),
{
    match names {
        None => Err("qcom-sdhci-sc7180: reg-names is missing"),
        Some(value) => match string_list_index(value, name) {
            None => Err("qcom-sdhci-sc7180: named memory resource is missing"),
            Some(index) => {
                if index < memory.len() {
                    Ok(memory[index])
                } else {
                    Err("qcom-sdhci-sc7180: named memory resource index is missing")
                }
            },
        },
    }
}

/// A window whose size is at least what is required.
pub open spec fn is_large_enough(window: (usize, usize), required: usize) -> bool {
    span(window.0, window.1) matches Some(size) && size >= required
}

pub open spec fn sizes_of(hc: (usize, usize), cqhci: (usize, usize)) -> Result<
    (usize, usize),
    &'static str,
> {
    if !is_large_enough(hc, REQUIRED_MMIO_SIZE) {
        Err("qcom-sdhci-sc7180: hc memory resource is too small")
    } else if !is_large_enough(cqhci, REQUIRED_CQHCI_MMIO_SIZE) {
        Err("qcom-sdhci-sc7180: cqhci memory resource is too small")
    } else {
        Ok((span(hc.0, hc.1)->0 as usize, span(cqhci.0, cqhci.1)->0 as usize))
    }
}

/// The sizes of the two register windows, if both are large enough.
pub fn window_sizes(hc: (usize, usize), cqhci: (usize, usize)) -> (r: Result<
    (usize, usize),
    &'static str,
>)
    ensures
        r == sizes_of(hc, cqhci),
{
    let hc_size: usize = match resource_size(hc.0, hc.1) {
        Some(size) => size,
        None => {
            return Err("qcom-sdhci-sc7180: hc memory resource is too small");
        },
    };
    if hc_size < REQUIRED_MMIO_SIZE {
        return Err("qcom-sdhci-sc7180: hc memory resource is too small");
    }
    let cqhci_size: usize = match resource_size(cqhci.0, cqhci.1) {
        Some(size) => size,
        None => {
            return Err("qcom-sdhci-sc7180: cqhci memory resource is too small");
        },
    };
    if cqhci_size < REQUIRED_CQHCI_MMIO_SIZE {
        return Err("qcom-sdhci-sc7180: cqhci memory resource is too small");
    }
    Ok((hc_size, cqhci_size))
}

/// What a device says of itself.
#[derive(Debug)]
pub struct EmmcNode<'a> {
    pub non_removable: bool,
    pub bus_width: Option<usize>,
    /// The handle of the supply of the data lines.
    pub supply: Option<usize>,
    pub interrupt_names: Option<&'a [u8]>,
    /// The interrupts of the device, as the kernel numbers them; none where it
    /// cannot.
    pub interrupts: Vec<Option<u32>>,
    pub reg_names: Option<&'a [u8]>,
    /// The memory resources of the device: first and last byte.
    pub memory: Vec<(usize, usize)>,
}

/// What probing starts from.
#[derive(Clone, Copy, Debug, Eq, PartialEq, Structural)]
pub struct Placement {
    pub vendor_spec: u32,
    pub pwr_irq: u32,
    pub host_start: usize,
    pub host_size: usize,
    pub cqhci_start: usize,
    pub cqhci_size: usize,
}

/// The windows of a controller with its power interrupt known.
pub open spec fn windows_placed(node: EmmcNode, vendor_spec: u32, pwr_irq: u32) -> Result<
    Placement,
    &'static str,
> {
    match (
        named_memory(content(node.reg_names), "hc"@, node.memory@),
        named_memory(content(node.reg_names), "cqhci"@, node.memory@),
    ) {
        (Err(e), _) => Err(e),
        (_, Err(e)) => Err(e),
        (Ok(host), Ok(cqhci)) => match sizes_of(host, cqhci) {
            Err(e) => Err(e),
            Ok((host_size, cqhci_size)) => Ok(
                Placement {
                    vendor_spec,
                    pwr_irq,
                    host_start: host.0,
                    host_size,
                    cqhci_start: cqhci.0,
                    cqhci_size,
                },
            ),
        },
    }
}

/// What a device comes to, or its first fault: the kind of memory, its supply,
/// the power interrupt by its name, the two windows by theirs, and their
/// sizes.
pub open spec fn placed(node: EmmcNode, nodes: Option<Seq<Seq<PropertyView>>>) -> Result<
    Placement,
    &'static str,
> {
    if !node.non_removable || node.bus_width != Some(REQUIRED_BUS_WIDTH) {
        Err("qcom-sdhci-sc7180: only non-removable 8-bit eMMC is supported")
    } else {
        match supply_voltage(nodes, as_u32(node.supply)) {
            Err(e) => Err(e),
            Ok((minimum, maximum)) => if minimum != EMMC_IO_VOLTAGE_UV || maximum
                != EMMC_IO_VOLTAGE_UV {
                Err("qcom-sdhci-sc7180: only fixed 1.8 V vqmmc is currently supported")
            } else {
                match named_irq(
                    content(node.interrupt_names),
                    "pwr_irq"@,
                    node.interrupts@.len() as int,
                ) {
                    Err(e) => Err(e),
                    Ok(index) => match node.interrupts@[index as int] {
                        None => Err("qcom-sdhci-sc7180: failed to resolve pwr_irq"),
                        Some(pwr_irq) => windows_placed(
                            node,
                            low_voltage_pads(CORE_VENDOR_SPEC_POR_VAL),
                            pwr_irq,
                        ),
                    },
                }
            },
        }
    }
}

/// Reads what a device says of itself, with the nodes of the device tree.
pub fn place_among(node: &EmmcNode, nodes: Option<&Vec<Vec<Property>>>) -> (r: Result<
    Placement,
    &'static str,
>)
    ensures
        r == placed(*node, list_view(nodes)),
{
    match validate_emmc_node(node.non_removable, node.bus_width) {
        Ok(()) => {},
        Err(e) => {
            return Err(e);
        },
    }
    let voltage: (u32, u32) = match supply_voltage_in(nodes, read_u32_property(node.supply)) {
        Ok(voltage) => voltage,
        Err(e) => {
            return Err(e);
        },
    };
    let vendor_spec: u32 = match vendor_spec_for(voltage) {
        Ok(vendor_spec) => vendor_spec,
        Err(e) => {
            return Err(e);
        },
    };
    let index: usize = match resolve_named_irq(
        node.interrupt_names,
        "pwr_irq",
        node.interrupts.len(),
    ) {
        Ok(index) => index,
        Err(e) => {
            return Err(e);
        },
    };
    let pwr_irq: u32 = match node.interrupts[index] {
        Some(pwr_irq) => pwr_irq,
        None => {
            return Err("qcom-sdhci-sc7180: failed to resolve pwr_irq");
        },
    };
    let host = match resolve_named_memory(node.reg_names, "hc", &node.memory) {
        Ok(window) => window,
        Err(e) => {
            return Err(e);
        },
    };
    let cqhci = match resolve_named_memory(node.reg_names, "cqhci", &node.memory) {
        Ok(window) => window,
        Err(e) => {
            return Err(e);
        },
    };
    match window_sizes(host, cqhci) {
        Ok((host_size, cqhci_size)) => Ok(
            Placement {
                vendor_spec,
                pwr_irq,
                host_start: host.0,
                host_size,
                cqhci_start: cqhci.0,
                cqhci_size,
            },
        ),
        Err(e) => Err(e),
    }
}

/// Reads what a device says of itself, with the flattened device tree.
pub fn place(node: &EmmcNode, blob: &[u8]) -> (r: Result<Placement, &'static str>)
    ensures
        r == placed(*node, listed_nodes(blob@)),
{
    match device_tree::list(blob) {
        Some(nodes) => place_among(node, Some(&nodes)),
        None => place_among(node, None),
    }
}

// Probing.

#[derive(Clone, Copy, Debug, Eq, PartialEq, Structural)]
pub enum Window {
    Host,
    Cqhci,
}

/// What probing has taken and must give back.
#[derive(Clone, Copy, Debug, Eq, PartialEq, Structural)]
pub struct Held {
    /// Enabled clocks; they are disabled in reverse.
    pub clocks: usize,
    pub host: bool,
    pub cqhci: bool,
}

/// Which step was taken last.
#[derive(Clone, Copy, Debug, Eq, PartialEq, Structural)]
pub enum Stage {
    ResolveClock { index: usize },
    SetRate,
    EnableClock { index: usize },
    MapHost,
    /// The request mask was written and read back.
    ReadMask,
    ReadRequests,
    ReadPower { requests: u32 },
    /// A satisfied request was cleared; the status is read up to `left` times.
    Clearing { left: u32 },
    /// The requests after clearing.
    Cleared,
    /// The mask after the acknowledgement.
    AcknowledgedMask,
    /// The requests after the acknowledgement.
    AcknowledgedRequests,
    /// The pads were switched and the vendor register read back.
    ReadVendor,
    MapCqhci,
    ReadConfig,
    ReadFunction { config: u32 },
    CheckConfig,
    CheckCrypto { isolated: bool },
    CheckFunction { isolated: bool },
    Over,
}

/// What to do next.
#[derive(Debug)]
pub enum Action {
    ResolveClock { name: &'static str },
    SetRate { clock: usize, hz: u64 },
    EnableClock { index: usize },
    MapWindow { window: Window },
    /// Write registers, then read one.
    Read { before: Vec<(Window, RegOp)>, window: Window, offset: usize },
    /// Read one byte of the host window.
    ReadByte { offset: usize },
    /// Give back what was taken and fail.
    Abandon { held: Held, error: &'static str },
    /// A clock is not there yet: try again later.
    Defer,
    /// All is set up.
    Finished,
}

pub ghost enum ActionView {
    ResolveClock { name: &'static str },
    SetRate { clock: usize, hz: u64 },
    EnableClock { index: usize },
    MapWindow { window: Window },
    Read { before: Seq<(Window, RegOp)>, window: Window, offset: usize },
    ReadByte { offset: usize },
    Abandon { held: Held, error: &'static str },
    Defer,
    Finished,
}

impl View for Action {
    type V = ActionView;

    open spec fn view(&self) -> ActionView {
        match *self {
            Action::ResolveClock { name } => ActionView::ResolveClock { name },
            Action::SetRate { clock, hz } => ActionView::SetRate { clock, hz },
            Action::EnableClock { index } => ActionView::EnableClock { index },
            Action::MapWindow { window } => ActionView::MapWindow { window },
            Action::Read { before, window, offset } => ActionView::Read {
                before: before@,
                window,
                offset,
            },
            Action::ReadByte { offset } => ActionView::ReadByte { offset },
            Action::Abandon { held, error } => ActionView::Abandon { held, error },
            Action::Defer => ActionView::Defer,
            Action::Finished => ActionView::Finished,
        }
    }
}

/// How a step went.
#[derive(Clone, Copy, Debug, Eq, PartialEq, Structural)]
pub enum Event {
    /// It succeeded; what was read, or the rate of a clock.
    Done { value: u64 },
    /// It must be tried again later.
    Deferred,
    Failed,
}

/// A probe on its way.
#[derive(Clone, Copy, Debug, Eq, PartialEq, Structural)]
pub struct Probe {
    pub vendor_spec: u32,
    pub base_clock_hz: u32,
    /// The power register as the firmware left it.
    pub power_control: u8,
    pub stage: Stage,
}

/// What is held after the last step, if it succeeded.
pub open spec fn held_at(stage: Stage) -> Held {
    match stage {
        Stage::ResolveClock { .. } => Held { clocks: 0, host: false, cqhci: false },
        Stage::SetRate => Held { clocks: 0, host: false, cqhci: false },
        Stage::EnableClock { index } => Held {
            clocks: (index + 1) as usize,
            host: false,
            cqhci: false,
        },
        Stage::MapHost => Held { clocks: CLOCK_COUNT, host: true, cqhci: false },
        Stage::MapCqhci => Held { clocks: CLOCK_COUNT, host: true, cqhci: true },
        Stage::ReadConfig => Held { clocks: CLOCK_COUNT, host: true, cqhci: true },
        Stage::ReadFunction { .. } => Held { clocks: CLOCK_COUNT, host: true, cqhci: true },
        Stage::CheckConfig => Held { clocks: CLOCK_COUNT, host: true, cqhci: true },
        Stage::CheckCrypto { .. } => Held { clocks: CLOCK_COUNT, host: true, cqhci: true },
        Stage::CheckFunction { .. } => Held { clocks: CLOCK_COUNT, host: true, cqhci: true },
        _ => Held { clocks: CLOCK_COUNT, host: true, cqhci: false },
    }
}

/// What was held before the last step.
pub open spec fn held_before(stage: Stage) -> Held {
    match stage {
        Stage::EnableClock { index } => Held { clocks: index, host: false, cqhci: false },
        Stage::MapHost => Held { clocks: CLOCK_COUNT, host: false, cqhci: false },
        Stage::MapCqhci => Held { clocks: CLOCK_COUNT, host: true, cqhci: false },
        _ => held_at(stage),
    }
}

pub open spec fn name_of_clock(index: int) -> &'static str {
    if index == 0 {
        "iface"
    } else if index == 1 {
        "core"
    } else {
        "xo"
    }
}

pub open spec fn on_host(op: RegOp) -> (Window, RegOp) {
    (Window::Host, op)
}

pub open spec fn on_cqhci(op: RegOp) -> (Window, RegOp) {
    (Window::Cqhci, op)
}

pub open spec fn clear_request() -> (Window, RegOp) {
    on_host(written(CORE_PWRCTL_CLEAR, CORE_PWRCTL_BUS_ON))
}

/// The high-speed DLL is reset and then powered down, the vendor register
/// restored with the pads at low voltage.
pub open spec fn pad_program(vendor_spec: u32) -> Seq<(Window, RegOp)> {
    seq![
        on_host(RegOp::Update { offset: CORE_DLL_CONFIG, clear: 0, set: CORE_DLL_RST }),
        on_host(RegOp::Update { offset: CORE_DLL_CONFIG, clear: 0, set: CORE_DLL_PDN }),
        on_host(written(CORE_VENDOR_SPEC, vendor_spec)),
    ]
}

/// The queue engine and encryption are turned off.
pub open spec fn isolation_program(config: u32, function: u32) -> Seq<(Window, RegOp)> {
    seq![
        on_cqhci(written(CQHCI_CFG, (config - config % 4) as u32)),
        on_cqhci(written(NONCQ_CRYPTO_PARM, 0)),
        on_host(written(HC_VENDOR_SPECIFIC_FUNC4, with_bit(function, HC_DISABLE_CRYPTO))),
    ]
}

impl Probe {
    pub open spec fn wf(self) -> bool {
        match self.stage {
            Stage::ResolveClock { index } => index < CLOCK_COUNT,
            Stage::EnableClock { index } => index < CLOCK_COUNT,
            Stage::Clearing { left } => 1 <= left <= CLEAR_POLLS,
            _ => true,
        }
    }

    pub open spec fn at(self, stage: Stage) -> Probe {
        Probe { stage, ..self }
    }

    pub open spec fn abandon(self, held: Held, error: &'static str) -> (Probe, ActionView) {
        (self.at(Stage::Over), ActionView::Abandon { held, error })
    }

    pub open spec fn read(self, stage: Stage, before: Seq<(Window, RegOp)>, offset: usize) -> (
        Probe,
        ActionView,
    ) {
        (self.at(stage), ActionView::Read { before, window: Window::Host, offset })
    }

    pub open spec fn read_cqhci(
        self,
        stage: Stage,
        before: Seq<(Window, RegOp)>,
        offset: usize,
    ) -> (Probe, ActionView) {
        (self.at(stage), ActionView::Read { before, window: Window::Cqhci, offset })
    }

    pub open spec fn switch_pads(self) -> (Probe, ActionView) {
        self.read(Stage::ReadVendor, pad_program(self.vendor_spec), CORE_VENDOR_SPEC)
    }

    /// What follows a step that did not succeed.
    pub open spec fn failure(self, event: Event) -> (Probe, ActionView) {
        let held = held_before(self.stage);
        match self.stage {
            Stage::ResolveClock { .. } => if event == Event::Deferred {
                (self.at(Stage::Over), ActionView::Defer)
            } else {
                self.abandon(held, "qcom-sdhci-sc7180: failed to resolve required clock")
            },
            Stage::SetRate => self.abandon(
                held,
                "qcom-sdhci-sc7180: failed to set core clock rate",
            ),
            Stage::EnableClock { .. } => self.abandon(
                held,
                "qcom-sdhci-sc7180: failed to enable required clock",
            ),
            Stage::MapHost => self.abandon(
                held,
                "qcom-sdhci-sc7180: failed to map hc memory resource",
            ),
            _ => self.abandon(held, "qcom-sdhci-sc7180: failed to map cqhci memory resource"),
        }
    }

    /// What follows a step that succeeded.
    pub open spec fn success(self, value: u64) -> (Probe, ActionView) {
        let held = held_at(self.stage);
        let word = (value % 0x1_0000_0000) as u32;
        match self.stage {
            Stage::ResolveClock { index } => if index + 1 < CLOCK_COUNT {
                (
                    self.at(Stage::ResolveClock { index: (index + 1) as usize }),
                    ActionView::ResolveClock { name: name_of_clock(index + 1) },
                )
            } else {
                (
                    self.at(Stage::SetRate),
                    ActionView::SetRate { clock: CORE_CLOCK, hz: PREFERRED_CORE_CLOCK_HZ },
                )
            },
            Stage::SetRate => if value > u32::MAX {
                self.abandon(held, "qcom-sdhci-sc7180: core clock rate exceeds u32")
            } else {
                (
                    Probe {
                        base_clock_hz: value as u32,
                        stage: Stage::EnableClock { index: 0 },
                        ..self
                    },
                    ActionView::EnableClock { index: 0 },
                )
            },
            Stage::EnableClock { index } => if index + 1 < CLOCK_COUNT {
                (
                    self.at(Stage::EnableClock { index: (index + 1) as usize }),
                    ActionView::EnableClock { index: (index + 1) as usize },
                )
            } else {
                (self.at(Stage::MapHost), ActionView::MapWindow { window: Window::Host })
            },
            Stage::MapHost => self.read(
                Stage::ReadMask,
                seq![on_host(written(CORE_PWRCTL_MASK, CORE_PWRCTL_INTERRUPTS_DISABLED))],
                CORE_PWRCTL_MASK,
            ),
            Stage::ReadMask => if word != CORE_PWRCTL_INTERRUPTS_DISABLED {
                self.abandon(
                    held,
                    "qcom-sdhci-sc7180: failed to mask unserviced pwr_irq requests",
                )
            } else {
                self.read(Stage::ReadRequests, Seq::empty(), CORE_PWRCTL_STATUS)
            },
            Stage::ReadRequests => (
                self.at(Stage::ReadPower { requests: word % 16 }),
                ActionView::ReadByte { offset: SDHCI_POWER_CONTROL },
            ),
            Stage::ReadPower { requests } => {
                let power_control = (value % 0x100) as u8;
                let next = Probe { power_control, ..self };
                match handoff_action(requests, power_control) {
                    HandoffPowerAction::Nothing => next.switch_pads(),
                    HandoffPowerAction::AcknowledgeBusOn => next.read(
                        Stage::Clearing { left: CLEAR_POLLS },
                        seq![clear_request()],
                        CORE_PWRCTL_STATUS,
                    ),
                    HandoffPowerAction::Reject => next.abandon(
                        held,
                        "qcom-sdhci-sc7180: firmware power handoff is not safely reusable",
                    ),
                }
            },
            Stage::Clearing { left } => if !has_bit(word, CORE_PWRCTL_BUS_ON) {
                self.read(Stage::Cleared, Seq::empty(), CORE_PWRCTL_STATUS)
            } else {
                self.read(
                    if left > 1 {
                        Stage::Clearing { left: (left - 1) as u32 }
                    } else {
                        Stage::Cleared
                    },
                    seq![clear_request(), on_host(RegOp::Delay { us: 10 })],
                    CORE_PWRCTL_STATUS,
                )
            },
            Stage::Cleared => if word % 16 != 0 {
                self.abandon(held, "qcom-sdhci-sc7180: BUS_ON request did not clear")
            } else {
                self.read(
                    Stage::AcknowledgedMask,
                    seq![on_host(written(CORE_PWRCTL_CTL, CORE_PWRCTL_BUS_SUCCESS))],
                    CORE_PWRCTL_MASK,
                )
            },
            Stage::AcknowledgedMask => if word != CORE_PWRCTL_INTERRUPTS_DISABLED {
                self.abandon(
                    held,
                    "qcom-sdhci-sc7180: pwr_irq mask changed during BUS_ON service",
                )
            } else {
                self.read(Stage::AcknowledgedRequests, Seq::empty(), CORE_PWRCTL_STATUS)
            },
            Stage::AcknowledgedRequests => if word % 16 != 0 {
                self.abandon(
                    held,
                    "qcom-sdhci-sc7180: new request appeared after BUS_ON acknowledgement",
                )
            } else {
                self.switch_pads()
            },
            Stage::ReadVendor => if !has_bit(word, CORE_IO_PAD_PWR_SWITCH_EN) || !has_bit(
                word,
                CORE_IO_PAD_PWR_SWITCH,
            ) {
                self.abandon(held, "qcom-sdhci-sc7180: failed to select 1.8 V I/O pads")
            } else {
                (self.at(Stage::MapCqhci), ActionView::MapWindow { window: Window::Cqhci })
            },
            Stage::MapCqhci => self.read_cqhci(Stage::ReadConfig, Seq::empty(), CQHCI_CFG),
            Stage::ReadConfig => self.read(
                Stage::ReadFunction { config: word },
                Seq::empty(),
                HC_VENDOR_SPECIFIC_FUNC4,
            ),
            Stage::ReadFunction { config } => self.read_cqhci(
                Stage::CheckConfig,
                isolation_program(config, word),
                CQHCI_CFG,
            ),
            Stage::CheckConfig => self.read_cqhci(
                Stage::CheckCrypto { isolated: word % 4 == 0 },
                Seq::empty(),
                NONCQ_CRYPTO_PARM,
            ),
            Stage::CheckCrypto { isolated } => self.read(
                Stage::CheckFunction { isolated: isolated && word == 0 },
                Seq::empty(),
                HC_VENDOR_SPECIFIC_FUNC4,
            ),
            Stage::CheckFunction { isolated } => if isolated && has_bit(
                word,
                HC_DISABLE_CRYPTO,
            ) {
                (self.at(Stage::Over), ActionView::Finished)
            } else {
                self.abandon(
                    held,
                    "qcom-sdhci-sc7180: failed to isolate legacy PIO from CQHCI/crypto",
                )
            },
            Stage::Over => (self, ActionView::Finished),
        }
    }
}

impl Probe {
    pub open spec fn step(self, event: Event) -> (Probe, ActionView) {
        match event {
            Event::Done { value } => self.success(value),
            _ => self.failure(event),
        }
    }

    /// Starts probing: the clocks come first.
    pub fn begin(vendor_spec: u32) -> (r: (Probe, Action))
        ensures
            r.0 == (Probe {
                vendor_spec,
                base_clock_hz: 0,
                power_control: 0,
                stage: Stage::ResolveClock { index: 0 },
            }),
            r.0.wf(),
            r.1@ == (ActionView::ResolveClock { name: name_of_clock(0) }),
    {
        let probe = Probe {
            vendor_spec,
            base_clock_hz: 0,
            power_control: 0,
            stage: Stage::ResolveClock { index: 0 },
        };
        (probe, Action::ResolveClock { name: clock_name(0) })
    }

    fn give_up(&mut self, held: Held, error: &'static str) -> (r: Action)
        ensures
            final(self).wf(),
            (*final(self), r@) == old(self).abandon(held, error),
    {
        self.stage = Stage::Over;
        Action::Abandon { held, error }
    }

    fn read_host(&mut self, stage: Stage, before: Vec<(Window, RegOp)>, offset: usize) -> (r:
        Action)
        requires
            old(self).at(stage).wf(),
        ensures
            final(self).wf(),
            (*final(self), r@) == old(self).read(stage, before@, offset),
    {
        self.stage = stage;
        Action::Read { before, window: Window::Host, offset }
    }

    fn read_queue(&mut self, stage: Stage, before: Vec<(Window, RegOp)>, offset: usize) -> (r:
        Action)
        requires
            old(self).at(stage).wf(),
        ensures
            final(self).wf(),
            (*final(self), r@) == old(self).read_cqhci(stage, before@, offset),
    {
        self.stage = stage;
        Action::Read { before, window: Window::Cqhci, offset }
    }

    fn start_switching(&mut self) -> (r: Action)
        ensures
            final(self).wf(),
            (*final(self), r@) == old(self).switch_pads(),
    {
        let mut program: Vec<(Window, RegOp)> = Vec::new();
        program.push(
            (
                Window::Host,
                RegOp::Update { offset: CORE_DLL_CONFIG, clear: 0, set: CORE_DLL_RST },
            ),
        );
        program.push(
            (
                Window::Host,
                RegOp::Update { offset: CORE_DLL_CONFIG, clear: 0, set: CORE_DLL_PDN },
            ),
        );
        program.push((Window::Host, put(CORE_VENDOR_SPEC, self.vendor_spec)));
        assert(program@ =~= pad_program(self.vendor_spec));
        self.read_host(Stage::ReadVendor, program, CORE_VENDOR_SPEC)
    }

    fn failed(&mut self, event: Event) -> (r: Action)
        requires
            old(self).wf(),
        ensures
            final(self).wf(),
            (*final(self), r@) == old(self).failure(event),
    {
        let held = self.taken(false);
        match self.stage {
            Stage::ResolveClock { .. } => {
                if let Event::Deferred = event {
                    self.stage = Stage::Over;
                    return Action::Defer;
                }
                self.give_up(held, "qcom-sdhci-sc7180: failed to resolve required clock")
            },
            Stage::SetRate => self.give_up(
                held,
                "qcom-sdhci-sc7180: failed to set core clock rate",
            ),
            Stage::EnableClock { .. } => self.give_up(
                held,
                "qcom-sdhci-sc7180: failed to enable required clock",
            ),
            Stage::MapHost => self.give_up(
                held,
                "qcom-sdhci-sc7180: failed to map hc memory resource",
            ),
            _ => self.give_up(held, "qcom-sdhci-sc7180: failed to map cqhci memory resource"),
        }
    }

    /// What is held, with or without what the last step took.
    fn taken(&self, succeeded: bool) -> (r: Held)
        requires
            self.wf(),
        ensures
            r == (if succeeded {
                held_at(self.stage)
            } else {
                held_before(self.stage)
            }),
    {
        match self.stage {
            Stage::ResolveClock { .. } => Held { clocks: 0, host: false, cqhci: false },
            Stage::SetRate => Held { clocks: 0, host: false, cqhci: false },
            Stage::EnableClock { index } => Held {
                clocks: if succeeded {
                    index + 1
                } else {
                    index
                },
                host: false,
                cqhci: false,
            },
            Stage::MapHost => Held { clocks: CLOCK_COUNT, host: succeeded, cqhci: false },
            Stage::MapCqhci => Held { clocks: CLOCK_COUNT, host: true, cqhci: succeeded },
            Stage::ReadConfig => Held { clocks: CLOCK_COUNT, host: true, cqhci: true },
            Stage::ReadFunction { .. } => Held { clocks: CLOCK_COUNT, host: true, cqhci: true },
            Stage::CheckConfig => Held { clocks: CLOCK_COUNT, host: true, cqhci: true },
            Stage::CheckCrypto { .. } => Held { clocks: CLOCK_COUNT, host: true, cqhci: true },
            Stage::CheckFunction { .. } => Held { clocks: CLOCK_COUNT, host: true, cqhci: true },
            _ => Held { clocks: CLOCK_COUNT, host: true, cqhci: false },
        }
    }

    fn succeeded(&mut self, value: u64) -> (r: Action)
        requires
            old(self).wf(),
        ensures
            final(self).wf(),
            (*final(self), r@) == old(self).success(value),
    {
        let ghost start = *self;
        let held = self.taken(true);
        let word: u32 = (value % 0x1_0000_0000) as u32;
        let mut program: Vec<(Window, RegOp)> = Vec::new();
        assert(program@ =~= Seq::<(Window, RegOp)>::empty());
        match self.stage {
            Stage::ResolveClock { index } => {
                if index + 1 < CLOCK_COUNT {
                    self.stage = Stage::ResolveClock { index: index + 1 };
                    Action::ResolveClock { name: clock_name(index + 1) }
                } else {
                    self.stage = Stage::SetRate;
                    Action::SetRate { clock: CORE_CLOCK, hz: PREFERRED_CORE_CLOCK_HZ }
                }
            },
            Stage::SetRate => {
                if value > u32::MAX as u64 {
                    return self.give_up(held, "qcom-sdhci-sc7180: core clock rate exceeds u32");
                }
                self.base_clock_hz = value as u32;
                self.stage = Stage::EnableClock { index: 0 };
                Action::EnableClock { index: 0 }
            },
            Stage::EnableClock { index } => {
                if index + 1 < CLOCK_COUNT {
                    self.stage = Stage::EnableClock { index: index + 1 };
                    Action::EnableClock { index: index + 1 }
                } else {
                    self.stage = Stage::MapHost;
                    Action::MapWindow { window: Window::Host }
                }
            },
            Stage::MapHost => {
                program.push(
                    (Window::Host, put(CORE_PWRCTL_MASK, CORE_PWRCTL_INTERRUPTS_DISABLED)),
                );
                assert(program@ =~= start.success(value).1->before);
                self.read_host(Stage::ReadMask, program, CORE_PWRCTL_MASK)
            },
            Stage::ReadMask => {
                if word != CORE_PWRCTL_INTERRUPTS_DISABLED {
                    return self.give_up(
                        held,
                        "qcom-sdhci-sc7180: failed to mask unserviced pwr_irq requests",
                    );
                }
                self.read_host(Stage::ReadRequests, program, CORE_PWRCTL_STATUS)
            },
            Stage::ReadRequests => {
                self.stage = Stage::ReadPower { requests: word % 16 };
                Action::ReadByte { offset: SDHCI_POWER_CONTROL }
            },
            Stage::ReadPower { requests } => {
                let power_control: u8 = (value % 0x100) as u8;
                self.power_control = power_control;
                match handoff_power_action(requests, power_control) {
                    HandoffPowerAction::Nothing => self.start_switching(),
                    HandoffPowerAction::AcknowledgeBusOn => {
                        program.push((Window::Host, put(CORE_PWRCTL_CLEAR, CORE_PWRCTL_BUS_ON)));
                        assert(program@ =~= seq![clear_request()]);
                        self.read_host(
                            Stage::Clearing { left: CLEAR_POLLS },
                            program,
                            CORE_PWRCTL_STATUS,
                        )
                    },
                    HandoffPowerAction::Reject => self.give_up(
                        held,
                        "qcom-sdhci-sc7180: firmware power handoff is not safely reusable",
                    ),
                }
            },
            Stage::Clearing { left } => {
                if !is_set(word, CORE_PWRCTL_BUS_ON) {
                    return self.read_host(Stage::Cleared, program, CORE_PWRCTL_STATUS);
                }
                program.push((Window::Host, put(CORE_PWRCTL_CLEAR, CORE_PWRCTL_BUS_ON)));
                program.push((Window::Host, RegOp::Delay { us: 10 }));
                assert(program@ =~= seq![clear_request(), on_host(RegOp::Delay { us: 10 })]);
                let stage = if left > 1 {
                    Stage::Clearing { left: left - 1 }
                } else {
                    Stage::Cleared
                };
                self.read_host(stage, program, CORE_PWRCTL_STATUS)
            },
            Stage::Cleared => {
                if word % 16 != 0 {
                    return self.give_up(
                        held,
                        "qcom-sdhci-sc7180: BUS_ON request did not clear",
                    );
                }
                program.push((Window::Host, put(CORE_PWRCTL_CTL, CORE_PWRCTL_BUS_SUCCESS)));
                assert(program@ =~= start.success(value).1->before);
                self.read_host(Stage::AcknowledgedMask, program, CORE_PWRCTL_MASK)
            },
            Stage::AcknowledgedMask => {
                if word != CORE_PWRCTL_INTERRUPTS_DISABLED {
                    return self.give_up(
                        held,
                        "qcom-sdhci-sc7180: pwr_irq mask changed during BUS_ON service",
                    );
                }
                self.read_host(Stage::AcknowledgedRequests, program, CORE_PWRCTL_STATUS)
            },
            Stage::AcknowledgedRequests => {
                if word % 16 != 0 {
                    return self.give_up(
                        held,
                        "qcom-sdhci-sc7180: new request appeared after BUS_ON acknowledgement",
                    );
                }
                self.start_switching()
            },
            Stage::ReadVendor => {
                if !is_set(word, CORE_IO_PAD_PWR_SWITCH_EN) || !is_set(
                    word,
                    CORE_IO_PAD_PWR_SWITCH,
                ) {
                    return self.give_up(
                        held,
                        "qcom-sdhci-sc7180: failed to select 1.8 V I/O pads",
                    );
                }
                self.stage = Stage::MapCqhci;
                Action::MapWindow { window: Window::Cqhci }
            },
            Stage::MapCqhci => self.read_queue(Stage::ReadConfig, program, CQHCI_CFG),
            Stage::ReadConfig => self.read_host(
                Stage::ReadFunction { config: word },
                program,
                HC_VENDOR_SPECIFIC_FUNC4,
            ),
            Stage::ReadFunction { config } => {
                program.push((Window::Cqhci, put(CQHCI_CFG, legacy_pio_cqhci_config(config))));
                program.push((Window::Cqhci, put(NONCQ_CRYPTO_PARM, 0)));
                program.push(
                    (Window::Host, put(HC_VENDOR_SPECIFIC_FUNC4, legacy_pio_func4(word))),
                );
                assert(program@ =~= isolation_program(config, word));
                self.read_queue(Stage::CheckConfig, program, CQHCI_CFG)
            },
            Stage::CheckConfig => self.read_queue(
                Stage::CheckCrypto { isolated: word % 4 == 0 },
                program,
                NONCQ_CRYPTO_PARM,
            ),
            Stage::CheckCrypto { isolated } => self.read_host(
                Stage::CheckFunction { isolated: isolated && word == 0 },
                program,
                HC_VENDOR_SPECIFIC_FUNC4,
            ),
            Stage::CheckFunction { isolated } => {
                if isolated && is_set(word, HC_DISABLE_CRYPTO) {
                    self.stage = Stage::Over;
                    return Action::Finished;
                }
                self.give_up(
                    held,
                    "qcom-sdhci-sc7180: failed to isolate legacy PIO from CQHCI/crypto",
                )
            },
            Stage::Over => Action::Finished,
        }
    }

    /// Goes on after a step.
    pub fn advance(&mut self, event: Event) -> (r: Action)
        requires
            old(self).wf(),
        ensures
            final(self).wf(),
            (*final(self), r@) == old(self).step(event),
    {
        match event {
            Event::Done { value } => self.succeeded(value),
            _ => self.failed(event),
        }
    }
}

// The host.

/// How a reset of the host came out.
#[derive(Clone, Copy, Debug, Eq, PartialEq, Structural)]
pub enum ResetOutcome {
    /// The reset itself failed.
    Failed,
    /// The power state is not the one that was taken over.
    PowerChanged,
    Kept,
}

/// Checks that a reset left the power state as it was taken over: the same
/// power register, and no request. `status` is the power status register.
pub fn check_reset(reset_ok: bool, taken_over: u8, power_control: u8, status: u32) -> (r:
    ResetOutcome)
    ensures
        r == (if !reset_ok {
            ResetOutcome::Failed
        } else if power_control != taken_over || status % 16 != 0 {
            ResetOutcome::PowerChanged
        } else {
            ResetOutcome::Kept
        }),
{
    if !reset_ok {
        return ResetOutcome::Failed;
    }
    if power_control != taken_over || status % 16 != 0 {
        return ResetOutcome::PowerChanged;
    }
    ResetOutcome::Kept
}

// Laws.

/// A failure gives back exactly what was taken: all that the steps before
/// took, and what the failed step itself took where it did succeed.
pub proof fn failures_give_back_what_was_taken(probe: Probe, event: Event)
    requires
        probe.wf(),
        probe.stage != Stage::Over,
    ensures
        probe.step(event).1 matches ActionView::Abandon { held, .. } ==> held == (
        if event is Done {
            held_at(probe.stage)
        } else {
            held_before(probe.stage)
        }),
        probe.step(event).1 == ActionView::Defer ==> held_before(probe.stage) == (Held {
            clocks: 0,
            host: false,
            cqhci: false,
        }),
{
}

/// Nothing is lost on the way: what is held before a step is what was held
/// after the one before it.
pub proof fn holdings_carry_over(probe: Probe, event: Event)
    requires
        probe.wf(),
        probe.stage != Stage::Over,
    ensures
        probe.step(event).0.stage != Stage::Over ==> held_before(probe.step(event).0.stage)
            == held_at(probe.stage),
{
}

/// A power request is acknowledged only if it is the one request that the
/// inherited power state already satisfies.
pub proof fn only_a_satisfied_request_is_acknowledged(probe: Probe, event: Event)
    requires
        probe.wf(),
        probe.step(event).0.stage is Clearing,
    ensures
        probe.stage is Clearing || {
            &&& probe.stage == (Stage::ReadPower { requests: CORE_PWRCTL_BUS_ON })
            &&& event is Done
            &&& power_is_usable((event->value % 0x100) as u8)
        },
{
}

/// The acknowledgement is written only after the request was cleared.
pub proof fn an_acknowledgement_follows_clearing(probe: Probe, event: Event)
    requires
        probe.wf(),
        probe.step(event).0.stage == Stage::AcknowledgedMask,
    ensures
        probe.stage == Stage::Cleared && event is Done && event->value % 16 == 0,
{
}

/// The requests are sampled only while none of them can raise an interrupt.
pub proof fn requests_are_sampled_masked(probe: Probe, event: Event)
    requires
        probe.wf(),
        probe.step(event).0.stage == Stage::ReadRequests,
    ensures
        probe.stage == Stage::ReadMask,
        event is Done,
        event->value % 0x1_0000_0000 == CORE_PWRCTL_INTERRUPTS_DISABLED,
{
}

/// Keeps the driver linked into builds that load it by name.
pub fn force_link() {
}

} // verus!
