//! The USB controller and its PHYs.

use std::collections::HashMap;

use coachz_drivers::dwc3::init::{
    phy_error_to_str, Ask, CoreInit, Event, Phy, PowerOff, Quirks, Target, DWC3_GCTL,
    DWC3_GEVNTSIZ, DWC3_GUCTL1, DWC3_GUSB2PHYCFG, DWC3_GUSB3PIPECTL, QSCRATCH_GENERAL_CFG,
};
use coachz_drivers::dwc3::{
    self, check_core, core_interrupt, preserve_qscratch_general_cfg, require_host_mode,
    wrapper_clock_name, wrapper_qscratch_base, CoreError, Outcome, QcomDwc3Wrapper, Taken,
    WrapperAction, WrapperProbe,
};
use coachz_drivers::mmio::{clear_bit, is_set, put, set_bit, RegOp};
use coachz_drivers::phy::{PhyError, PhyMode, PhyOrientation};
use coachz_drivers::qmp_usb3::{
    self, Sc7180QmpUsb3, StopStep, DP_COM_TYPEC_CTRL, PCS_POWER_DOWN_CONTROL, PCS_START_CONTROL,
    PCS_SW_RESET,
};
use coachz_drivers::qusb2::{
    self, property_u8, tuning_from_dt, Claim, Phase, Sc7180Qusb2V2Phy, Tuning, TuningProperties,
    Undo, CHG_CTRL2, IMP_CTRL1, INIT_SEQUENCE, PORT_POWERDOWN, PORT_TUNE1,
};

// The wrapper.

/// Runs a probe in which one step fails.
fn probe_wrapper(fail_at: Option<usize>, outcome: Outcome) -> WrapperAction {
    let (mut probe, mut action) = WrapperProbe::begin(Some(7), Some((0xa6f8800, 0xa6f8bff)));
    let mut step = 0;
    loop {
        match action {
            WrapperAction::Abandon { .. }
            | WrapperAction::Defer { .. }
            | WrapperAction::Finished { .. } => return action,
            _ => {}
        }
        let result = if fail_at == Some(step) { outcome } else { Outcome::Done };
        action = probe.advance(result);
        step += 1;
    }
}

#[test]
fn a_wrapper_is_brought_up() {
    assert!(matches!(probe_wrapper(None, Outcome::Done), WrapperAction::Finished { phandle: 7 }));
    let names: Vec<&str> = (0..5).map(wrapper_clock_name).collect();
    assert_eq!(names.len(), 5);
    assert!(names.iter().all(|name| !name.is_empty()));
}

#[test]
fn a_failed_wrapper_gives_back_what_it_took() {
    let taken = |step: usize| match probe_wrapper(Some(step), Outcome::Failed) {
        WrapperAction::Abandon { taken, error } => (taken, error),
        other => panic!("{:?}", other),
    };
    let nothing = Taken { clocks: 0, out_of_reset: false };
    assert_eq!(taken(0), (nothing, None));
    assert_eq!(taken(1), (nothing, Some("qcom-dwc3: failed to resolve wrapper reset")));
    assert_eq!(taken(2), (nothing, Some("qcom-dwc3: failed to assert wrapper reset")));
    assert_eq!(taken(3), (nothing, Some("qcom-dwc3: failed to deassert wrapper reset")));
    // The second clock, resolved and then enabled.
    let one = Taken { clocks: 1, out_of_reset: true };
    assert_eq!(taken(6), (one, Some("qcom-dwc3: failed to resolve wrapper clock")));
    assert_eq!(taken(7), (one, Some("qcom-dwc3: failed to enable wrapper clock")));
    let all = Taken { clocks: 5, out_of_reset: true };
    assert_eq!(taken(14), (all, Some("qcom-dwc3: failed to map QSCRATCH MMIO")));
    match probe_wrapper(Some(6), Outcome::Deferred) {
        WrapperAction::Defer { taken } => assert_eq!(taken, one),
        other => panic!("{:?}", other),
    }
}

#[test]
fn a_wrapper_needs_a_handle_and_a_window() {
    let (mut probe, _) = WrapperProbe::begin(None, Some((0, 0xfff)));
    assert!(matches!(
        probe.advance(Outcome::Done),
        WrapperAction::Abandon { error: Some(_), .. }
    ));
    assert!(dwc3::device_phandle(Some(0)).is_err());
    assert_eq!(dwc3::device_phandle(Some(3)), Ok(3));
    let (mut probe, _) = WrapperProbe::begin(Some(7), Some((0, 0x10)));
    let mut action = probe.advance(Outcome::Done);
    while !matches!(action, WrapperAction::Abandon { .. }) {
        action = probe.advance(Outcome::Done);
    }
    assert!(matches!(
        action,
        WrapperAction::Abandon {
            taken: Taken { clocks: 5, out_of_reset: true },
            error: Some("qcom-dwc3: QSCRATCH memory resource is smaller than 0x400 bytes"),
        }
    ));
}

fn wrapper(phandle: u32, base: usize) -> QcomDwc3Wrapper {
    QcomDwc3Wrapper { phandle, qscratch_base: base, original_general_cfg: None }
}

#[test]
fn the_first_clock_selection_is_kept() {
    let mut wrappers = vec![wrapper(1, 0x100), wrapper(2, 0x200)];
    assert_eq!(wrapper_qscratch_base(&wrappers, 2), Ok(0x200));
    assert_eq!(
        wrapper_qscratch_base(&wrappers, 3),
        Err("qcom-dwc3: active wrapper QSCRATCH mapping is unavailable")
    );
    assert_eq!(preserve_qscratch_general_cfg(&mut wrappers, 2, 0x200, 5), Ok(()));
    assert_eq!(preserve_qscratch_general_cfg(&mut wrappers, 2, 0x200, 9), Ok(()));
    assert_eq!(wrappers[1].original_general_cfg, Some(5));
    assert_eq!(wrappers[0].original_general_cfg, None);
    assert_eq!(
        preserve_qscratch_general_cfg(&mut wrappers, 2, 0x100, 5),
        Err("qcom-dwc3: active wrapper QSCRATCH state is unavailable")
    );
    assert_eq!(wrappers[1].restore_value(true), Some(5));
    assert_eq!(wrappers[1].restore_value(false), None);
}

#[test]
fn a_core_needs_its_wrapper_and_host_mode() {
    let wrappers = vec![wrapper(1, 0x100)];
    let window = Some((0xa600000, 0xa60dfff));
    assert!(matches!(
        check_core(1, Some(1), &wrappers, Some("host"), window),
        Ok((0x100, 0xe000))
    ));
    assert!(check_core(1, Some(1), &wrappers, Some("peripheral"), window).is_err());
    assert!(check_core(1, Some(1), &wrappers, Some("host"), Some((0, 0xdffe))).is_err());
    assert!(check_core(1, Some(1), &wrappers, Some("host"), None).is_err());
    assert!(matches!(
        check_core(2, Some(2), &vec![], Some("host"), window),
        Err(CoreError::Deferred) | Err(CoreError::Failed(_))
    ));
    assert!(require_host_mode(Some("host")).is_ok());
    assert!(require_host_mode(Some("otg")).is_err());
    assert!(require_host_mode(None).is_ok());
    assert!(core_interrupt(&vec![]).is_err());
}

// The core.

/// Registers that hold what is written to them.
struct Registers {
    values: HashMap<(bool, usize), u32>,
    stuck: Option<(bool, usize)>,
}

impl Registers {
    fn read(&self, core: bool, offset: usize) -> u32 {
        *self.values.get(&(core, offset)).unwrap_or(&0)
    }

    fn perform(&mut self, core: bool, op: RegOp) {
        let (offset, value) = match op {
            RegOp::Write { offset, value } => (offset, value),
            RegOp::Update { offset, clear, set } => {
                (offset, (self.read(core, offset) & !clear) | set)
            }
            _ => return,
        };
        if self.stuck != Some((core, offset)) {
            self.values.insert((core, offset), value);
        }
    }
}

fn bring_up(
    quirks: Quirks,
    usb3: Result<(), PhyError>,
    stuck: Option<(bool, usize)>,
) -> (CoreInit, Ask, Registers, Vec<Phy>) {
    let (mut init, mut ask) = CoreInit::begin(quirks);
    let mut registers = Registers { values: HashMap::new(), stuck };
    registers.values.insert((true, DWC3_GCTL), 0x30c0_3030);
    registers.values.insert((true, DWC3_GUSB2PHYCFG), 0x0000_2540);
    let mut powered = Vec::new();
    loop {
        let event = match ask {
            Ask::SoftReset | Ask::WaitForReset | Ask::Preserve => Event::Done { value: 0 },
            Ask::PowerOn { phy: Phy::Usb3 } => match usb3 {
                Ok(()) => {
                    powered.push(Phy::Usb3);
                    Event::Done { value: 0 }
                }
                Err(error) => Event::PhyFailed { error },
            },
            Ask::PowerOn { phy } => {
                powered.push(phy);
                Event::Done { value: 0 }
            }
            Ask::PowerOff { phy } => {
                powered.retain(|on| *on != phy);
                Event::Done { value: 0 }
            }
            Ask::Read { target, offset } => {
                Event::Done { value: registers.read(target == Target::Core, offset) }
            }
            Ask::Fail { .. } | Ask::Finished => return (init, ask, registers, powered),
        };
        let (program, next) = init.advance(event);
        for (target, op) in program {
            registers.perform(target == Target::Core, op);
        }
        ask = next;
    }
}

const NO_QUIRKS: Quirks =
    Quirks { dis_u2_susphy: false, dis_enblslpm: false, parkmode_disable_ss: false };

#[test]
fn a_core_comes_up_as_a_host() {
    let quirks = Quirks { dis_u2_susphy: true, dis_enblslpm: true, parkmode_disable_ss: true };
    let (init, ask, registers, powered) = bring_up(quirks, Ok(()), None);
    assert!(matches!(ask, Ask::Finished));
    assert!(!init.high_speed_only);
    assert_eq!(powered, [Phy::Usb2, Phy::Usb3]);
    assert_eq!(registers.read(true, DWC3_GCTL), 0x30c0_1000);
    assert_eq!(registers.read(true, DWC3_GUSB2PHYCFG), 0x0000_2400);
    assert_eq!(registers.read(true, DWC3_GUSB3PIPECTL), 0);
    assert_eq!(registers.read(true, DWC3_GUCTL1), 0x2_0000);
    assert_eq!(registers.read(true, DWC3_GEVNTSIZ), 0x8000_0000);
    assert_eq!(registers.read(false, QSCRATCH_GENERAL_CFG), 0);
}

#[test]
fn a_phy_that_times_out_leaves_high_speed() {
    let (init, ask, registers, powered) = bring_up(NO_QUIRKS, Err(PhyError::Timeout), None);
    assert!(matches!(ask, Ask::Finished));
    assert!(init.high_speed_only);
    assert_eq!(powered, [Phy::Usb2]);
    // The UTMI clock feeds the pipe, and the pipe is suspended.
    assert_eq!(registers.read(false, QSCRATCH_GENERAL_CFG), 0x9);
    assert_eq!(registers.read(true, DWC3_GUSB3PIPECTL), 0x2_0000);
    assert_eq!(registers.read(true, DWC3_GUCTL1), 0x400_0000);
}

#[test]
fn a_phy_that_cannot_be_released_leaves_high_speed() {
    let (mut init, mut ask) = CoreInit::begin(NO_QUIRKS);
    let mut steps = Vec::new();
    while !matches!(ask, Ask::Preserve | Ask::Fail { .. } | Ask::Finished) {
        let event = match ask {
            Ask::PowerOn { phy: Phy::Usb2 } => Event::Done { value: 0 },
            Ask::PowerOn { phy: Phy::Usb3 } => Event::PhyFailed { error: PhyError::Timeout },
            Ask::PowerOff { .. } => Event::PhyFailed { error: PhyError::PowerOffFailed },
            _ => Event::Failed,
        };
        ask = init.advance(event).1;
        steps.push(format!("{:?}", ask));
    }
    assert_eq!(
        steps,
        ["PowerOn { phy: Usb2 }", "PowerOn { phy: Usb3 }", "PowerOff { phy: Usb3 }", "Preserve"]
    );
    assert!(init.high_speed_only);
}

#[test]
fn failures_leave_no_phy_on() {
    let off = |usb3: Result<(), PhyError>, stuck: Option<(bool, usize)>| {
        let (_, ask, _, powered) = bring_up(NO_QUIRKS, usb3, stuck);
        match ask {
            Ask::Fail { off, error } => {
                let left: Vec<Phy> = powered
                    .into_iter()
                    .filter(|phy| match phy {
                        Phy::Usb2 => !off.usb2,
                        Phy::Usb3 => !off.usb3,
                    })
                    .collect();
                assert_eq!(left, []);
                (off, error)
            }
            other => panic!("{:?}", other),
        }
    };
    let usb2 = PowerOff { usb3: false, usb2: true };
    let both = PowerOff { usb3: true, usb2: true };
    assert_eq!(
        off(Err(PhyError::ResetFailed), None),
        (usb2, Some(phy_error_to_str(PhyError::ResetFailed)))
    );
    assert_eq!(
        off(Err(PhyError::Timeout), Some((false, QSCRATCH_GENERAL_CFG))),
        (usb2, Some("qcom-dwc3: QSCRATCH PIPE clock disable did not latch"))
    );
    assert_eq!(
        off(Ok(()), Some((true, DWC3_GCTL))),
        (both, Some("qcom-dwc3: GCTL host mode did not latch"))
    );
    assert_eq!(
        off(Err(PhyError::Timeout), Some((true, DWC3_GUCTL1))),
        (both, Some("qcom-dwc3: GUCTL1 USB2 clock selection did not latch"))
    );
    assert_eq!(
        off(Err(PhyError::Timeout), Some((true, DWC3_GUSB2PHYCFG))),
        (both, Some("qcom-dwc3: USB2 PHY reset or suspend remained asserted"))
    );
    assert_eq!(
        off(Err(PhyError::Timeout), Some((true, DWC3_GUSB3PIPECTL))),
        (both, Some("qcom-dwc3: SuperSpeed PIPE suspend did not latch"))
    );
}

// The SuperSpeed PHY.

#[test]
fn the_qmp_phy_powers_up() {
    let mut phy = Sc7180QmpUsb3::new();
    assert_eq!(phy.set_orientation(PhyOrientation::Reverse), Ok(()));
    let mut action = phy.power_on();
    let mut clocks = 0;
    let mut typec = None;
    loop {
        action = match action {
            qmp_usb3::Action::EnableClock { index } => {
                assert_eq!(index, clocks);
                clocks += 1;
                phy.advance(true, 0, 0)
            }
            qmp_usb3::Action::EnablePipe { before } => {
                for op in before {
                    if let RegOp::Write { offset: DP_COM_TYPEC_CTRL, value } = op {
                        typec = Some(value);
                    }
                }
                phy.advance(true, 0, 0)
            }
            qmp_usb3::Action::ReadStatus { .. } => phy.advance(true, 0, 100),
            qmp_usb3::Action::Finished => break,
            qmp_usb3::Action::AssertReset | qmp_usb3::Action::DeassertReset => {
                phy.advance(true, 0, 0)
            }
            other => panic!("{:?}", other),
        };
    }
    assert_eq!(clocks, 4);
    assert_eq!(typec, Some(3));
    assert!(phy.powered);
    // Power on again does nothing; power off stops the PHY once.
    assert!(matches!(phy.power_on(), qmp_usb3::Action::Finished));
    assert_eq!(phy.power_off(), whole_stop());
    assert!(!phy.powered);
    assert!(phy.power_off().is_empty());
}

/// The pipe clock, the registers, the reset, and the clocks in reverse.
fn whole_stop() -> Vec<StopStep> {
    let update = |offset: usize, clear: u32, set: u32| {
        [RegOp::Update { offset, clear, set }, RegOp::Flush { offset }]
    };
    let mut steps = vec![StopStep::DisablePipe];
    for (offset, clear, set) in [
        (PCS_SW_RESET, 0, 1),
        (PCS_START_CONTROL, 3, 0),
        (PCS_POWER_DOWN_CONTROL, 1, 0),
    ] {
        steps.extend(update(offset, clear, set).map(|op| StopStep::Register { op }));
    }
    steps.push(StopStep::Register { op: RegOp::Barrier });
    steps.push(StopStep::AssertReset);
    steps.extend([3, 2, 1, 0].map(|index| StopStep::DisableClock { index }));
    steps
}

#[test]
fn a_qmp_phy_that_fails_stays_off() {
    let run = |fail_at: usize, status: u32| {
        let mut phy = Sc7180QmpUsb3::new();
        let mut action = phy.power_on();
        let mut step = 0;
        let mut time = 0;
        loop {
            match action {
                qmp_usb3::Action::Abandon { steps, error }
                | qmp_usb3::Action::Rollback { steps, error } => {
                    assert!(!phy.powered);
                    return (steps, error);
                }
                qmp_usb3::Action::Finished => panic!("it must fail"),
                _ => {}
            }
            time += 200;
            action = phy.advance(step != fail_at, status, time);
            step += 1;
        }
    };
    assert_eq!(run(0, 0), (vec![], PhyError::ResetFailed));
    assert_eq!(run(1, 0), (vec![], PhyError::ResetFailed));
    assert_eq!(
        run(4, 0),
        (
            vec![
                StopStep::DisableClock { index: 1 },
                StopStep::DisableClock { index: 0 },
                StopStep::AssertReset,
            ],
            PhyError::PowerOnFailed
        )
    );
    assert_eq!(run(6, 0), (whole_stop(), PhyError::PowerOnFailed));
    assert_eq!(run(1_000, 0x40), (whole_stop(), PhyError::Timeout));
}

#[test]
fn qmp_modes_are_those_of_usb() {
    let mut phy = Sc7180QmpUsb3::new();
    assert_eq!(phy.get_mode(), None);
    assert_eq!(phy.set_mode(PhyMode::UsbHost), Ok(()));
    assert_eq!(phy.get_mode(), Some(PhyMode::UsbHost));
    assert!(phy.set_mode(PhyMode::Other).is_err());
    assert_eq!(phy.get_orientation(), Some(PhyOrientation::Normal));
    assert_eq!(phy.reset(), Ok(()));
    assert_eq!(qmp_usb3::get_phy(&[0]), Ok(()));
    assert!(qmp_usb3::get_phy(&[1]).is_err());
    assert!(qmp_usb3::check_resource(Some((0, 0x2fff))).is_ok());
    assert!(qmp_usb3::check_resource(Some((0, 0x2ffe))).is_err());
    assert!(qmp_usb3::check_resource(None).is_err());
    assert!(qmp_usb3::device_phandle(None).is_err());
    assert!(!phy.name().is_empty());
}

// The high-speed PHY.

fn no_tuning() -> Tuning {
    Tuning {
        imp_res_offset: None,
        hstx_trim: None,
        preemphasis: None,
        preemphasis_width: None,
        bias_ctrl: None,
        charge_ctrl: None,
        hsdisc_trim: None,
    }
}

fn no_properties() -> TuningProperties {
    TuningProperties {
        imp_res_offset: None,
        bias_ctrl: None,
        charge_ctrl: None,
        hstx_trim: None,
        preemphasis: None,
        preemphasis_width: None,
        hsdisc_trim: None,
    }
}

#[test]
fn tuning_values_have_limits() {
    assert_eq!(property_u8(None, 3), Ok(None));
    assert_eq!(property_u8(Some(Some(3)), 3), Ok(Some(3)));
    assert_eq!(
        property_u8(Some(Some(4)), 3),
        Err("qcom-qusb2-v2: tuning value outside documented range")
    );
    assert_eq!(
        property_u8(Some(Some(256)), 3),
        Err("qcom-qusb2-v2: malformed tuning property")
    );
    assert_eq!(
        property_u8(Some(None), 3),
        Err("qcom-qusb2-v2: malformed tuning property")
    );
    assert_eq!(tuning_from_dt(no_properties()), Ok(no_tuning()));
    let trimmed = TuningProperties { hstx_trim: Some(Some(15)), ..no_properties() };
    assert_eq!(tuning_from_dt(trimmed), Ok(Tuning { hstx_trim: Some(15), ..no_tuning() }));
    let wide = TuningProperties { preemphasis_width: Some(Some(2)), ..no_properties() };
    assert!(tuning_from_dt(wide).is_err());
}

/// Runs an operation that was started; the PLL is ready after some reads.
fn operate(
    phy: &mut Sc7180Qusb2V2Phy,
    mut action: qusb2::Action,
    fail_at: Option<usize>,
    ready_after: usize,
) -> (Result<(), PhyError>, Vec<RegOp>, Option<Undo>) {
    let mut writes = Vec::new();
    let mut step = 0;
    let mut reads = 0;
    loop {
        let mut value = 0;
        match action {
            qusb2::Action::ReadTrim { before } => {
                writes.extend(before);
                value = 0x15;
            }
            qusb2::Action::ReadStatus { before } => {
                writes.extend(before);
                reads += 1;
                value = if reads > ready_after { 1 } else { 0 };
            }
            qusb2::Action::Shutdown { program } => writes.extend(program),
            qusb2::Action::Abandon { program, undo, error } => {
                writes.extend(program);
                return (Err(error), writes, Some(undo));
            }
            qusb2::Action::Finished { result } => return (result, writes, None),
            _ => {}
        }
        action = phy.advance(fail_at != Some(step), value, 10 * reads as u64);
        step += 1;
    }
}

#[test]
fn tuning_values_are_cut_to_their_fields() {
    let tuning = Tuning {
        imp_res_offset: Some(0xff),
        hstx_trim: Some(0xff),
        charge_ctrl: Some(0x46),
        ..no_tuning()
    };
    let mut phy = Sc7180Qusb2V2Phy::new(false, false, tuning);
    let start = phy.power_on(0);
    let (_, writes, _) = operate(&mut phy, start, None, 3);
    for (offset, clear, set) in
        [(IMP_CTRL1, 0x3f, 0x3f), (PORT_TUNE1, 0xf0, 0xf0), (CHG_CTRL2, 0x30, 0x20)]
    {
        assert!(writes.contains(&RegOp::Update { offset, clear, set }));
    }
}

#[test]
fn the_qusb2_phy_powers_up_and_down() {
    let tuning = Tuning { preemphasis_width: Some(1), hstx_trim: Some(3), ..no_tuning() };
    let mut phy = Sc7180Qusb2V2Phy::new(true, true, tuning);
    let start = phy.power_on(0);
    assert!(matches!(start, qusb2::Action::EnableIface));
    let (result, writes, _) = operate(&mut phy, start, None, 3);
    assert_eq!(result, Ok(()));
    assert_eq!(phy.phase, Phase::On);
    assert_eq!(writes[0], RegOp::Update { offset: PORT_POWERDOWN, clear: 0, set: 0x23 });
    assert_eq!(
        writes[2],
        RegOp::Write { offset: INIT_SEQUENCE[0].0, value: INIT_SEQUENCE[0].1 }
    );
    // The trim of the device tree, then that of the fuses: its low four bits.
    let trims: Vec<&RegOp> = writes
        .iter()
        .filter(|op| matches!(op, RegOp::Update { offset: PORT_TUNE1, clear: 0xf0, .. }))
        .collect();
    assert_eq!(
        trims,
        [
            &RegOp::Update { offset: PORT_TUNE1, clear: 0xf0, set: 0x30 },
            &RegOp::Update { offset: PORT_TUNE1, clear: 0xf0, set: 0x50 },
        ]
    );
    assert!(matches!(phy.power_on(0), qusb2::Action::Finished { result: Ok(()) }));

    let reset = phy.reset(0);
    let (result, _, _) = operate(&mut phy, reset, None, 0);
    assert_eq!((result, phy.phase), (Ok(()), Phase::On));

    let stop = phy.power_off(0);
    let (result, writes, _) = operate(&mut phy, stop, None, 0);
    assert_eq!((result, phy.phase), (Ok(()), Phase::Off));
    assert_eq!(writes[0], RegOp::Update { offset: PORT_POWERDOWN, clear: 0, set: 0x23 });
    assert!(matches!(phy.power_off(0), qusb2::Action::Finished { result: Ok(()) }));
    assert!(matches!(
        phy.reset(0),
        qusb2::Action::Finished { result: Err(PhyError::InvalidMode) }
    ));
}

#[test]
fn a_qusb2_phy_that_fails_gives_back_its_clocks() {
    let run = |has_iface: bool, fail_at: Option<usize>| {
        let mut phy = Sc7180Qusb2V2Phy::new(has_iface, false, no_tuning());
        let start = phy.power_on(0);
        let (result, _, undo) = operate(&mut phy, start, fail_at, 1_000);
        assert_eq!(phy.phase, Phase::Off);
        (result.unwrap_err(), undo.unwrap())
    };
    let undo = |assert_reset: bool, cfg_ahb: bool, iface: bool| Undo { assert_reset, cfg_ahb, iface };
    assert_eq!(run(true, Some(0)), (PhyError::PowerOnFailed, undo(false, false, false)));
    assert_eq!(run(true, Some(1)), (PhyError::PowerOnFailed, undo(false, false, true)));
    assert_eq!(run(false, Some(0)), (PhyError::PowerOnFailed, undo(false, false, false)));
    assert_eq!(run(true, Some(2)), (PhyError::ResetFailed, undo(false, true, true)));
    assert_eq!(run(true, Some(3)), (PhyError::ResetFailed, undo(true, true, true)));
    assert_eq!(run(false, None), (PhyError::Timeout, undo(true, true, false)));
}

#[test]
fn one_transition_runs_at_a_time() {
    let mut phy = Sc7180Qusb2V2Phy::new(true, false, no_tuning());
    phy.power_on(0);
    assert_eq!(phy.phase, Phase::Transition);
    assert!(matches!(phy.power_off(0), qusb2::Action::Wait));
    assert_eq!(phy.claim_transition(Phase::On, 9_999), Claim::Again);
    assert_eq!(phy.claim_transition(Phase::On, 10_000), Claim::Expired);
    assert!(matches!(
        phy.power_off(10_000),
        qusb2::Action::Finished { result: Err(PhyError::Timeout) }
    ));
    let idle = Sc7180Qusb2V2Phy::new(true, false, no_tuning());
    assert_eq!(idle.claim_transition(Phase::Off, 0), Claim::Claimed);
    assert_eq!(idle.claim_transition(Phase::On, 0), Claim::Observed { phase: Phase::Off });
}

#[test]
fn qusb2_properties_are_checked() {
    let mut phy = Sc7180Qusb2V2Phy::new(true, false, no_tuning());
    assert_eq!(phy.set_mode(PhyMode::UsbHost), Ok(()));
    assert_eq!(phy.get_mode(), Some(PhyMode::UsbHost));
    assert!(phy.set_mode(PhyMode::Other).is_err());
    assert_eq!(qusb2::get_phy(&[]), Ok(()));
    assert!(qusb2::get_phy(&[0]).is_err());
    let names = vec![String::from("cfg_ahb"), String::from("ref")];
    assert!(qusb2::has_named_item(Some(&names), "ref"));
    assert!(!qusb2::has_named_item(Some(&names), "iface"));
    assert!(!qusb2::has_named_item(None, "ref"));
    assert_eq!(qusb2::trim_cell_handle(None), Ok(None));
    assert_eq!(qusb2::trim_cell_handle(Some(&[0, 0, 0, 9])), Ok(Some(9)));
    assert!(qusb2::trim_cell_handle(Some(&[0, 0, 9])).is_err());
    assert_eq!(qusb2::check_resource(Some((0x88e3000, 0x88e33ff))), Ok(0x400));
    assert_eq!(
        qusb2::check_resource(Some((0, 0x3fe))),
        Err("qcom-qusb2-v2: PHY resource is smaller than 0x400 bytes")
    );
    assert_eq!(qusb2::check_resource(None), Err("qcom-qusb2-v2: no memory resource"));
    assert_eq!(
        qusb2::check_resource(Some((1, 0))),
        Err("qcom-qusb2-v2: invalid memory resource")
    );
    assert!(qusb2::device_phandle(None).is_err());
    assert!(!phy.name().is_empty());
}

#[test]
fn register_bits_are_set_and_cleared() {
    assert_eq!(put(4, 5), RegOp::Write { offset: 4, value: 5 });
    assert!(is_set(0x40, 0x40));
    assert!(!is_set(0xbf, 0x40));
    assert_eq!(clear_bit(0xff, 0x40), 0xbf);
    assert_eq!(clear_bit(0xbf, 0x40), 0xbf);
    assert_eq!(set_bit(0x1, 0x8000), 0x8001);
    assert_eq!(set_bit(0x8001, 0x8000), 0x8001);
}
