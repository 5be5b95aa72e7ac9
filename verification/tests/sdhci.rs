//! The SC7180 SDHCI host controller.

use std::collections::HashMap;

use coachz_drivers::device_tree::Property;
use coachz_drivers::mmio::RegOp;
use coachz_drivers::sdhci::binding::{
    accepts_emmc_properties, handoff_power_action, inherited_power_control_is_usable,
    legacy_pio_cqhci_config, legacy_pio_func4, string_list_index,
    vendor_spec_for_fixed_1v8_supply, HandoffPowerAction, CORE_DLL_CONFIG, CORE_DLL_PDN,
    CORE_DLL_RST, CORE_IO_PAD_PWR_SWITCH_MASK, CORE_MCI_DATA_CNT, CORE_MCI_FIFO_CNT,
    CORE_MCI_STATUS, CORE_MCI_VERSION, CORE_PWRCTL_BUS_ON, CORE_PWRCTL_BUS_SUCCESS,
    CORE_PWRCTL_CLEAR, CORE_PWRCTL_CTL, CORE_PWRCTL_INTERRUPTS_DISABLED, CORE_PWRCTL_MASK,
    CORE_PWRCTL_REQUEST_MASK, CORE_PWRCTL_STATUS, CORE_SDCC_DEBUG_REG, CORE_VENDOR_SPEC,
    CORE_VENDOR_SPEC_POR_VAL, CQHCI_CFG, CQHCI_CRYPTO_GENERAL_ENABLE, CQHCI_CTL, CQHCI_ENABLE,
    EMMC_IO_VOLTAGE_UV, HC_DISABLE_CRYPTO, HC_VENDOR_SPECIFIC_FUNC4, NONCQ_CRYPTO_PARM,
    REQUIRED_CQHCI_MMIO_SIZE, REQUIRED_MMIO_SIZE, SDHCI_POWER_CONTROL,
};
use coachz_drivers::sdhci::{
    check_reset, clock_name, fixed_supply_voltage_uv, place, place_among, resolve_named_irq,
    resolve_named_memory, supply_voltage_in, validate_emmc_node, vendor_spec_for, window_sizes,
    Action, EmmcNode, Event, Held, Placement, Probe, ResetOutcome, Window,
};

#[test]
fn accepts_only_non_removable_eight_bit_emmc() {
    assert!(accepts_emmc_properties(true, Some(8)));
    assert!(!accepts_emmc_properties(false, Some(8)));
    assert!(!accepts_emmc_properties(true, Some(4)));
    assert!(!accepts_emmc_properties(true, None));
}

#[test]
fn vendor_offsets_fit_the_required_hc_window() {
    assert_eq!(CORE_DLL_CONFIG, 0x200);
    assert_eq!(CORE_DLL_RST, 1 << 30);
    assert_eq!(CORE_DLL_PDN, 1 << 29);
    assert_eq!(CORE_VENDOR_SPEC, 0x20c);
    assert_eq!(CORE_MCI_VERSION, 0x318);
    assert_eq!(CORE_MCI_FIFO_CNT, 0x308);
    assert_eq!(CORE_MCI_STATUS, 0x324);
    assert_eq!(CORE_SDCC_DEBUG_REG, 0x358);
    assert_eq!(CORE_MCI_DATA_CNT, 0x35c);
    assert_eq!(HC_VENDOR_SPECIFIC_FUNC4, 0x260);
    assert_eq!(HC_DISABLE_CRYPTO, 1 << 15);
    assert_eq!(CQHCI_CFG, 0x08);
    assert_eq!(CQHCI_CTL, 0x0c);
    assert_eq!(CQHCI_ENABLE, 1 << 0);
    assert_eq!(CQHCI_CRYPTO_GENERAL_ENABLE, 1 << 1);
    assert_eq!(NONCQ_CRYPTO_PARM, 0x70);
    assert_eq!(CORE_VENDOR_SPEC_POR_VAL, 0x0a9c);
    assert_eq!(CORE_IO_PAD_PWR_SWITCH_MASK, 0x0001_8000);
    assert_eq!(CORE_PWRCTL_STATUS, 0x240);
    assert_eq!(CORE_PWRCTL_MASK, 0x244);
    assert_eq!(CORE_PWRCTL_CLEAR, 0x248);
    assert_eq!(CORE_PWRCTL_CTL, 0x24c);
    assert_eq!(CORE_PWRCTL_BUS_SUCCESS, 1 << 0);
    assert_eq!(CORE_PWRCTL_REQUEST_MASK, 0x0f);
    assert_eq!(CORE_PWRCTL_INTERRUPTS_DISABLED, 0);
    assert_eq!(SDHCI_POWER_CONTROL, 0x29);
    assert!(REQUIRED_MMIO_SIZE <= 0x1000);
    assert!(REQUIRED_CQHCI_MMIO_SIZE <= 0x1000);
}

#[test]
fn fixed_1v8_supply_selects_low_voltage_io_pads() {
    assert_eq!(
        vendor_spec_for_fixed_1v8_supply(
            CORE_VENDOR_SPEC_POR_VAL,
            EMMC_IO_VOLTAGE_UV,
            EMMC_IO_VOLTAGE_UV,
        ),
        Some(0x0001_8a9c)
    );
    assert_eq!(
        vendor_spec_for_fixed_1v8_supply(CORE_VENDOR_SPEC_POR_VAL, 1_700_000, 1_950_000),
        None
    );
    assert_eq!(
        vendor_spec_for_fixed_1v8_supply(CORE_VENDOR_SPEC_POR_VAL, 3_000_000, 3_000_000),
        None
    );
}

#[test]
fn legacy_pio_disables_cqhci_and_inline_crypto() {
    assert_eq!(legacy_pio_cqhci_config(0xffff_ffff), 0xffff_fffc);
    assert_eq!(legacy_pio_cqhci_config(0), 0);
    assert_eq!(legacy_pio_func4(0), 0x0000_8000);
    assert_eq!(legacy_pio_func4(0x1234_0000), 0x1234_8000);
}

#[test]
fn selects_named_power_irq_after_host_irq() {
    let names = b"hc_irq\0pwr_irq\0";
    assert_eq!(string_list_index(names, "hc_irq"), Some(0));
    assert_eq!(string_list_index(names, "pwr_irq"), Some(1));
    assert_eq!(string_list_index(names, "missing"), None);

    let registers = b"hc\0cqhci\0";
    assert_eq!(string_list_index(registers, "hc"), Some(0));
    assert_eq!(string_list_index(registers, "cqhci"), Some(1));
}

#[test]
fn accepts_only_inherited_enabled_standard_voltages() {
    assert!(inherited_power_control_is_usable(0x0b));
    assert!(inherited_power_control_is_usable(0x0d));
    assert!(inherited_power_control_is_usable(0x0f));
    assert!(!inherited_power_control_is_usable(0x00));
    assert!(!inherited_power_control_is_usable(0x01));
    assert!(!inherited_power_control_is_usable(0x0a));
}

#[test]
fn handoff_acknowledges_only_already_satisfied_bus_on() {
    assert_eq!(
        handoff_power_action(CORE_PWRCTL_BUS_ON, 0x0d),
        HandoffPowerAction::AcknowledgeBusOn
    );
    assert_eq!(handoff_power_action(0, 0x0d), HandoffPowerAction::Nothing);
    assert_eq!(
        handoff_power_action(CORE_PWRCTL_BUS_ON, 0x0c),
        HandoffPowerAction::Reject
    );
    assert_eq!(handoff_power_action(0, 0x00), HandoffPowerAction::Reject);
    for rejected in [1, 4, 8, 3, 6, 10, 15] {
        assert_eq!(
            handoff_power_action(rejected, 0x0d),
            HandoffPowerAction::Reject
        );
    }
}

#[test]
fn empty_texts_have_no_place_in_a_list() {
    let names = b"\0a\0\0b";
    assert_eq!(string_list_index(names, "a"), Some(0));
    assert_eq!(string_list_index(names, "b"), Some(1));
    assert_eq!(string_list_index(names, ""), None);
    assert_eq!(string_list_index(b"", "a"), None);
}

/// A host controller whose registers hold what is written to them, except
/// for the power requests.
struct Hardware {
    registers: HashMap<(bool, usize), u32>,
    power_control: u8,
    request_clears: bool,
    requests_after_success: u32,
    vendor_sticks: bool,
    writes: Vec<(bool, usize, u32)>,
    held: Held,
}

impl Hardware {
    fn new(requests: u32, power_control: u8) -> Hardware {
        let mut registers = HashMap::new();
        registers.insert((true, CORE_PWRCTL_STATUS), requests);
        registers.insert((false, CQHCI_CFG), 0x13);
        registers.insert((true, CORE_PWRCTL_MASK), 0xf);
        registers.insert((true, CORE_DLL_CONFIG), 0x7);
        Hardware {
            registers,
            power_control,
            request_clears: true,
            requests_after_success: 0,
            vendor_sticks: true,
            writes: Vec::new(),
            held: Held { clocks: 0, host: false, cqhci: false },
        }
    }

    fn is_host(window: Window) -> bool {
        window == Window::Host
    }

    fn read(&self, host: bool, offset: usize) -> u32 {
        *self.registers.get(&(host, offset)).unwrap_or(&0)
    }

    fn write(&mut self, host: bool, offset: usize, value: u32) {
        self.writes.push((host, offset, value));
        if host && offset == CORE_PWRCTL_CLEAR {
            if self.request_clears {
                let left = self.read(true, CORE_PWRCTL_STATUS) & !value;
                self.registers.insert((true, CORE_PWRCTL_STATUS), left);
            }
            return;
        }
        if host && offset == CORE_PWRCTL_CTL {
            self.registers.insert((true, CORE_PWRCTL_STATUS), self.requests_after_success);
        }
        if host && offset == CORE_VENDOR_SPEC && !self.vendor_sticks {
            return;
        }
        self.registers.insert((host, offset), value);
    }

    fn perform(&mut self, host: bool, op: RegOp) {
        match op {
            RegOp::Write { offset, value } => self.write(host, offset, value),
            RegOp::Update { offset, clear, set } => {
                let value = (self.read(host, offset) & !clear) | set;
                self.write(host, offset, value);
            }
            RegOp::Flush { .. } | RegOp::Barrier | RegOp::Delay { .. } => {}
        }
    }

    /// Runs a probe; `fail_at` names the step that fails.
    fn run(&mut self, fail_at: Option<usize>, rate: u64) -> (Probe, Action) {
        let (mut probe, mut action) = Probe::begin(0x0001_8a9c);
        let mut step = 0;
        loop {
            let failing = fail_at == Some(step);
            step += 1;
            let event = match &action {
                _ if failing => Event::Failed,
                Action::ResolveClock { .. } => Event::Done { value: 0 },
                Action::SetRate { clock, hz } => {
                    assert_eq!((*clock, *hz), (1, 100_000_000));
                    Event::Done { value: rate }
                }
                Action::EnableClock { index } => {
                    assert_eq!(*index, self.held.clocks);
                    self.held.clocks += 1;
                    Event::Done { value: 0 }
                }
                Action::MapWindow { window } => {
                    if Hardware::is_host(*window) {
                        self.held.host = true;
                    } else {
                        self.held.cqhci = true;
                    }
                    Event::Done { value: 0 }
                }
                Action::Read { before, window, offset } => {
                    for (target, op) in before {
                        self.perform(Hardware::is_host(*target), *op);
                    }
                    Event::Done { value: self.read(Hardware::is_host(*window), *offset) as u64 }
                }
                Action::ReadByte { offset } => {
                    assert_eq!(*offset, SDHCI_POWER_CONTROL);
                    Event::Done { value: self.power_control as u64 }
                }
                Action::Abandon { .. } | Action::Defer | Action::Finished => {
                    return (probe, action);
                }
            };
            action = probe.advance(event);
        }
    }
}

#[test]
fn a_probe_sets_the_controller_up() {
    let mut hardware = Hardware::new(0, 0x0d);
    let (probe, action) = hardware.run(None, 100_000_000);
    assert!(matches!(action, Action::Finished));
    assert_eq!(probe.base_clock_hz, 100_000_000);
    assert_eq!(probe.power_control, 0x0d);
    assert_eq!(hardware.held, Held { clocks: 3, host: true, cqhci: true });
    assert_eq!(
        hardware.writes,
        vec![
            (true, CORE_PWRCTL_MASK, 0),
            (true, CORE_DLL_CONFIG, 0x4000_0007),
            (true, CORE_DLL_CONFIG, 0x6000_0007),
            (true, CORE_VENDOR_SPEC, 0x0001_8a9c),
            (false, CQHCI_CFG, 0x10),
            (false, NONCQ_CRYPTO_PARM, 0),
            (true, HC_VENDOR_SPECIFIC_FUNC4, 0x8000),
        ]
    );
}

#[test]
fn a_satisfied_request_is_cleared_and_acknowledged() {
    let mut hardware = Hardware::new(CORE_PWRCTL_BUS_ON, 0x0d);
    let (_, action) = hardware.run(None, 100_000_000);
    assert!(matches!(action, Action::Finished));
    let clear = hardware.writes.iter().position(|w| w.1 == CORE_PWRCTL_CLEAR).unwrap();
    let success = hardware.writes.iter().position(|w| w.1 == CORE_PWRCTL_CTL).unwrap();
    assert!(clear < success);
    assert_eq!(hardware.writes[clear], (true, CORE_PWRCTL_CLEAR, CORE_PWRCTL_BUS_ON));
    assert_eq!(hardware.writes[success], (true, CORE_PWRCTL_CTL, CORE_PWRCTL_BUS_SUCCESS));
}

#[test]
fn a_request_that_stays_is_not_acknowledged() {
    let mut hardware = Hardware::new(CORE_PWRCTL_BUS_ON, 0x0d);
    hardware.request_clears = false;
    let (_, action) = hardware.run(None, 100_000_000);
    match action {
        Action::Abandon { held, error } => {
            assert_eq!(held, Held { clocks: 3, host: true, cqhci: false });
            assert_eq!(error, "qcom-sdhci-sc7180: BUS_ON request did not clear");
        }
        other => panic!("{:?}", other),
    }
    let clears = hardware.writes.iter().filter(|w| w.1 == CORE_PWRCTL_CLEAR).count();
    assert_eq!(clears, 11);
    assert!(hardware.writes.iter().all(|w| w.1 != CORE_PWRCTL_CTL));
}

fn error_of(action: Action) -> &'static str {
    match action {
        Action::Abandon { error, .. } => error,
        other => panic!("{:?}", other),
    }
}

#[test]
fn a_new_request_after_the_acknowledgement_is_refused() {
    let mut hardware = Hardware::new(CORE_PWRCTL_BUS_ON, 0x0d);
    hardware.requests_after_success = 4;
    let (_, action) = hardware.run(None, 100_000_000);
    assert_eq!(
        error_of(action),
        "qcom-sdhci-sc7180: new request appeared after BUS_ON acknowledgement"
    );
}

#[test]
fn unusable_power_is_refused() {
    let (_, action) = Hardware::new(0, 0x00).run(None, 100_000_000);
    assert_eq!(
        error_of(action),
        "qcom-sdhci-sc7180: firmware power handoff is not safely reusable"
    );
    let (_, action) = Hardware::new(8, 0x0d).run(None, 100_000_000);
    assert_eq!(
        error_of(action),
        "qcom-sdhci-sc7180: firmware power handoff is not safely reusable"
    );
}

#[test]
fn pads_that_do_not_switch_are_refused() {
    let mut hardware = Hardware::new(0, 0x0d);
    hardware.vendor_sticks = false;
    let (_, action) = hardware.run(None, 100_000_000);
    assert_eq!(error_of(action), "qcom-sdhci-sc7180: failed to select 1.8 V I/O pads");
}

#[test]
fn a_rate_beyond_32_bits_is_refused() {
    let (_, action) = Hardware::new(0, 0x0d).run(None, 0x1_0000_0000);
    assert_eq!(error_of(action), "qcom-sdhci-sc7180: core clock rate exceeds u32");
}

#[test]
fn every_failure_gives_back_what_was_taken() {
    let expected = [
        (0, "qcom-sdhci-sc7180: failed to resolve required clock"),
        (2, "qcom-sdhci-sc7180: failed to resolve required clock"),
        (3, "qcom-sdhci-sc7180: failed to set core clock rate"),
        (4, "qcom-sdhci-sc7180: failed to enable required clock"),
        (6, "qcom-sdhci-sc7180: failed to enable required clock"),
        (7, "qcom-sdhci-sc7180: failed to map hc memory resource"),
    ];
    for (step, text) in expected {
        let mut hardware = Hardware::new(0, 0x0d);
        let (_, action) = hardware.run(Some(step), 100_000_000);
        match action {
            Action::Abandon { held, error } => {
                assert_eq!(error, text);
                assert_eq!(held, hardware.held);
            }
            other => panic!("{:?}", other),
        }
    }
}

#[test]
fn a_clock_that_is_not_there_yet_defers_the_probe() {
    let (mut probe, action) = Probe::begin(0);
    assert!(matches!(action, Action::ResolveClock { name: "iface" }));
    assert!(matches!(probe.advance(Event::Deferred), Action::Defer));
    assert_eq!(
        [clock_name(0), clock_name(1), clock_name(2)],
        ["iface", "core", "xo"]
    );
}

#[test]
fn a_reset_must_keep_the_power_state() {
    assert_eq!(check_reset(true, 0x0d, 0x0d, 0), ResetOutcome::Kept);
    assert_eq!(check_reset(true, 0x0d, 0x0d, 0x10), ResetOutcome::Kept);
    assert_eq!(check_reset(true, 0x0d, 0x0f, 0), ResetOutcome::PowerChanged);
    assert_eq!(check_reset(true, 0x0d, 0x0d, 2), ResetOutcome::PowerChanged);
    assert_eq!(check_reset(false, 0x0d, 0x0d, 0), ResetOutcome::Failed);
}

fn property(name: &str, cells: &[u32]) -> Property {
    let mut value = Vec::new();
    for cell in cells {
        value.extend_from_slice(&cell.to_be_bytes());
    }
    Property { name: String::from(name), value }
}

fn supply_nodes() -> Vec<Vec<Property>> {
    vec![
        vec![],
        vec![
            property("linux,phandle", &[7]),
            property("regulator-min-microvolt", &[1_800_000]),
            property("regulator-max-microvolt", &[1_800_000]),
        ],
        vec![property("phandle", &[8]), property("regulator-min-microvolt", &[3_000_000])],
    ]
}

#[test]
fn the_supply_is_looked_up_by_its_handle() {
    let nodes = supply_nodes();
    assert_eq!(supply_voltage_in(Some(&nodes), Some(7)), Ok((1_800_000, 1_800_000)));
    assert_eq!(
        supply_voltage_in(Some(&nodes), Some(8)),
        Err("qcom-sdhci-sc7180: vqmmc maximum voltage is missing")
    );
    assert_eq!(
        supply_voltage_in(Some(&nodes), Some(9)),
        Err("qcom-sdhci-sc7180: vqmmc-supply node is missing")
    );
    assert_eq!(
        supply_voltage_in(Some(&nodes), None),
        Err("qcom-sdhci-sc7180: vqmmc-supply phandle is missing")
    );
    assert_eq!(
        supply_voltage_in(None, Some(7)),
        Err("qcom-sdhci-sc7180: FDT is unavailable")
    );
    assert_eq!(
        fixed_supply_voltage_uv(None, &[]),
        Err("qcom-sdhci-sc7180: vqmmc-supply phandle is missing")
    );
    assert_eq!(
        fixed_supply_voltage_uv(Some(7), &[1, 2, 3]),
        Err("qcom-sdhci-sc7180: FDT is unavailable")
    );
}

#[test]
fn properties_and_windows_are_checked() {
    assert_eq!(validate_emmc_node(true, Some(8)), Ok(()));
    assert_eq!(
        validate_emmc_node(false, Some(8)),
        Err("qcom-sdhci-sc7180: only non-removable 8-bit eMMC is supported")
    );
    assert_eq!(vendor_spec_for((1_800_000, 1_800_000)), Ok(0x0001_8a9c));
    assert!(vendor_spec_for((1_700_000, 1_950_000)).is_err());

    assert_eq!(resolve_named_irq(Some(b"hc_irq\0pwr_irq\0"), "pwr_irq", 2), Ok(1));
    assert_eq!(
        resolve_named_irq(Some(b"hc_irq\0pwr_irq\0"), "pwr_irq", 1),
        Err("qcom-sdhci-sc7180: named pwr_irq resource is missing")
    );
    assert_eq!(
        resolve_named_irq(None, "pwr_irq", 2),
        Err("qcom-sdhci-sc7180: interrupt-names is missing")
    );
    assert_eq!(
        resolve_named_irq(Some(b"hc_irq\0"), "pwr_irq", 2),
        Err("qcom-sdhci-sc7180: pwr_irq is not named")
    );

    let memory = vec![(0x7c4000, 0x7c4fff), (0x7c5000, 0x7c5fff)];
    assert_eq!(
        resolve_named_memory(Some(b"hc\0cqhci\0"), "cqhci", &memory),
        Ok((0x7c5000, 0x7c5fff))
    );
    assert!(resolve_named_memory(Some(b"hc\0"), "cqhci", &memory).is_err());
    assert!(resolve_named_memory(None, "hc", &memory).is_err());
    assert_eq!(window_sizes(memory[0], memory[1]), Ok((0x1000, 0x1000)));
    assert!(window_sizes((0, 0x10), memory[1]).is_err());
    assert!(window_sizes(memory[0], (0x10, 0)).is_err());
}

#[test]
fn requests_are_sampled_masked() {
    // A request line whose mask does not take must not be sampled.
    let (mut probe, mut action) = Probe::begin(0);
    let mut mask_read = false;
    loop {
        let event = match &action {
            Action::Read { offset, .. } if *offset == CORE_PWRCTL_MASK => {
                mask_read = true;
                Event::Done { value: 1 }
            }
            Action::Read { offset, .. } => {
                assert!(*offset != CORE_PWRCTL_STATUS);
                Event::Done { value: 0 }
            }
            Action::ReadByte { .. } => Event::Done { value: 0x0d },
            Action::SetRate { .. } => Event::Done { value: 100_000_000 },
            Action::Abandon { .. } | Action::Defer | Action::Finished => break,
            _ => Event::Done { value: 0 },
        };
        action = probe.advance(event);
    }
    assert!(mask_read);
    assert!(matches!(action, Action::Abandon { .. }));
}

fn emmc_node() -> EmmcNode<'static> {
    EmmcNode {
        non_removable: true,
        bus_width: Some(8),
        supply: Some(7),
        interrupt_names: Some(b"hc_irq\0pwr_irq\0"),
        interrupts: vec![Some(641), Some(644)],
        reg_names: Some(b"hc\0cqhci\0"),
        memory: vec![(0x7c4000, 0x7c4fff), (0x7c5000, 0x7c6fff)],
    }
}

#[test]
fn a_controller_is_placed_or_its_first_fault_named() {
    let nodes = supply_nodes();
    assert_eq!(
        place_among(&emmc_node(), Some(&nodes)),
        Ok(Placement {
            vendor_spec: 0x0001_8a9c,
            pwr_irq: 644,
            host_start: 0x7c4000,
            host_size: 0x1000,
            cqhci_start: 0x7c5000,
            cqhci_size: 0x2000,
        })
    );
    // Take the faults away one by one; the one in front is named.
    let mut node = EmmcNode {
        non_removable: false,
        bus_width: Some(4),
        supply: None,
        interrupt_names: None,
        interrupts: vec![Some(641)],
        reg_names: None,
        memory: vec![(0x7c4000, 0x7c4001), (0x7c5000, 0x7c5001)],
    };
    let fault = |node: &EmmcNode| place_among(node, Some(&nodes)).unwrap_err();
    assert_eq!(
        fault(&node),
        "qcom-sdhci-sc7180: only non-removable 8-bit eMMC is supported"
    );
    node.non_removable = true;
    node.bus_width = Some(8);
    assert_eq!(fault(&node), "qcom-sdhci-sc7180: vqmmc-supply phandle is missing");
    node.supply = Some(7);
    assert_eq!(fault(&node), "qcom-sdhci-sc7180: interrupt-names is missing");
    assert_eq!(
        place_among(&node, None),
        Err("qcom-sdhci-sc7180: FDT is unavailable")
    );
    node.interrupt_names = Some(b"hc_irq\0");
    assert_eq!(fault(&node), "qcom-sdhci-sc7180: pwr_irq is not named");
    node.interrupt_names = Some(b"hc_irq\0pwr_irq\0");
    assert_eq!(fault(&node), "qcom-sdhci-sc7180: named pwr_irq resource is missing");
    node.interrupts.push(None);
    assert_eq!(fault(&node), "qcom-sdhci-sc7180: failed to resolve pwr_irq");
    node.interrupts[1] = Some(644);
    let memory = node.memory.clone();
    assert_eq!(Err(fault(&node)), resolve_named_memory(None, "hc", &memory));
    node.reg_names = Some(b"hc\0");
    assert_eq!(Err(fault(&node)), resolve_named_memory(Some(b"hc\0"), "cqhci", &memory));
    node.reg_names = Some(b"hc\0cqhci\0");
    assert_eq!(fault(&node), "qcom-sdhci-sc7180: hc memory resource is too small");
    node.memory[0] = (0x7c4000, 0x7c4fff);
    assert_eq!(fault(&node), "qcom-sdhci-sc7180: cqhci memory resource is too small");
    node.memory[1] = (0x7c5000, 0x7c5fff);
    assert!(place_among(&node, Some(&nodes)).is_ok());
}

#[test]
fn a_controller_without_a_tree_has_no_supply() {
    assert_eq!(
        place(&emmc_node(), &[1, 2, 3]),
        Err("qcom-sdhci-sc7180: FDT is unavailable")
    );
}
