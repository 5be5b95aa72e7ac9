//! Drivers that report input events.

use coachz_drivers::goodix::hid::HidField;
use coachz_drivers::goodix::slots::SlotTracker;
use coachz_drivers::goodix::{
    axis_range, begin_identification, check_probe, command_message, continue_identification,
    emit_touch_frame, handle_interrupt, identify, parse_hid_descriptor, process_report,
    rearm_after_report, register_read, reset_controller, resolve_gpio, resolve_interrupt_gpio,
    resolve_reset_gpio, worker_step, GpioSpec, IdentityAction, IdentityOutcome, InterruptAction,
    ResetStep, WorkerAction,
};
use coachz_drivers::input::{EV_ABS, EV_KEY, EV_SW, EV_SYN};
use coachz_drivers::mkbp::QueryError;
use coachz_drivers::mkbp_button::{parse_button_mask, usable_buttons, Button, ChromeEcMkbpButtons};
use coachz_drivers::mkbp_switch::{
    accept_state, current_queried, emit_change, emit_snapshot, has_required_switches,
    on_cros_ec_event, support_queried, PostureState, StartupAction, SwitchTracker,
};
use coachz_drivers::usb_touchpad::{
    bind, has_touchpad_report_header, touchpad_axes, UsbDeviceIdentity, UsbDeviceLocation,
    UsbInterruptInEndpointInfo,
};

// The touchscreen.

fn hid_descriptor() -> Vec<u8> {
    let mut d = vec![0u8; 30];
    let mut put = |at: usize, value: u16| d[at..at + 2].copy_from_slice(&value.to_le_bytes());
    put(0, 30);
    put(2, 0x0100);
    put(4, 100);
    put(6, 2);
    put(10, 64);
    put(16, 5);
    put(20, 0x27c6);
    put(22, 0x0e51);
    d
}

/// One contact with a tip switch and two axes.
const TOUCH: [u8; 46] = [
    0x05, 0x0d, 0x09, 0x04, 0xa1, 0x01, 0x09, 0x22, 0xa1, 0x02, 0x09, 0x42, 0x15, 0x00, 0x25,
    0x01, 0x75, 0x01, 0x95, 0x01, 0x81, 0x02, 0x75, 0x07, 0x95, 0x01, 0x81, 0x03, 0x05, 0x01,
    0x09, 0x30, 0x09, 0x31, 0x26, 0xff, 0x0f, 0x75, 0x10, 0x95, 0x02, 0x81, 0x02, 0xc0, 0xc0,
    0x00,
];

#[test]
fn lines_are_driven_and_read_by_their_polarity() {
    let low = GpioSpec { phandle: 1, pin: 2, active_low: true };
    let high = GpioSpec { phandle: 1, pin: 2, active_low: false };
    for asserted in [true, false] {
        assert_eq!(low.is_asserted(low.physical_level(asserted)), asserted);
        assert_eq!(high.is_asserted(high.physical_level(asserted)), asserted);
        assert_ne!(low.physical_level(asserted), high.physical_level(asserted));
    }
    assert_eq!(
        reset_controller(&low),
        [
            ResetStep::ResetOutput(false),
            ResetStep::Delay(20_000),
            ResetStep::ResetLevel(true),
            ResetStep::Delay(180_000),
            ResetStep::InterruptInput,
        ]
    );
    assert_eq!(resolve_gpio(&[0, 0, 0, 1, 0, 0, 0, 2, 0, 0, 0, 1]), Ok(low));
    assert_eq!(resolve_gpio(&[0, 0, 0, 1, 0, 0, 0, 2]), Ok(high));
    assert!(resolve_gpio(&[0, 0, 0, 1]).is_err());
    assert_eq!(resolve_reset_gpio(Some(&[0, 0, 0, 1, 0, 0, 0, 2])), Ok(high));
    assert_eq!(resolve_reset_gpio(None), Err("goodix-gt7375p: missing reset-gpios"));
    assert_eq!(
        resolve_interrupt_gpio(Some(&[0, 0, 0, 1]), Some(&[0, 0, 0, 2, 0, 0, 0, 4])),
        Ok(low)
    );
    assert_eq!(
        resolve_interrupt_gpio(None, Some(&[0, 0, 0, 2])),
        Err("goodix-gt7375p: missing interrupt-parent")
    );
    assert_eq!(
        resolve_interrupt_gpio(Some(&[0, 0, 0, 1]), Some(&[0])),
        Err("goodix-gt7375p: malformed interrupts")
    );
}

#[test]
fn touch_work_is_pending_until_it_is_done() {
    let mut pending = false;
    assert_eq!(handle_interrupt(true, &mut pending), InterruptAction::MaskAndWake);
    assert_eq!(handle_interrupt(true, &mut pending), InterruptAction::Mask);
    assert_eq!(worker_step(true, false, false, &mut pending), WorkerAction::ProcessReport);
    assert_eq!(worker_step(true, false, true, &mut pending), WorkerAction::Wait);
    assert_eq!(handle_interrupt(false, &mut pending), InterruptAction::Nothing);
    assert_eq!(
        worker_step(true, true, true, &mut pending),
        WorkerAction::ProcessThenSleep(17_000_000)
    );
    assert_eq!(worker_step(true, true, false, &mut pending), WorkerAction::Sleep(17_000_000));
    assert_eq!(worker_step(false, true, true, &mut pending), WorkerAction::Wait);
    assert!(rearm_after_report(true, false));
    assert!(!rearm_after_report(true, true));
    assert_eq!(check_probe(false, Some(0x5d)), Ok(()));
    assert!(check_probe(true, Some(0x5d)).is_err());
    assert!(check_probe(false, Some(0x14)).is_err());
    assert!(check_probe(false, None).is_err());
}

#[test]
fn only_known_hid_descriptors_are_accepted() {
    let descriptor = parse_hid_descriptor(&hid_descriptor()).unwrap();
    assert_eq!(descriptor.report_descriptor_length, 100);
    assert_eq!(descriptor.command_register, 5);
    assert_eq!(descriptor.max_input_length, 64);
    let changed = |at: usize, value: u8| {
        let mut d = hid_descriptor();
        d[at] = value;
        parse_hid_descriptor(&d)
    };
    assert_eq!(changed(0, 29), Err("goodix-gt7375p: invalid I2C-HID descriptor"));
    assert_eq!(changed(20, 0), Err("goodix-gt7375p: unsupported I2C-HID identity"));
    assert_eq!(changed(4, 0), Err("goodix-gt7375p: invalid I2C-HID buffer lengths"));
    assert_eq!(changed(10, 2), Err("goodix-gt7375p: invalid I2C-HID buffer lengths"));
    assert!(parse_hid_descriptor(&hid_descriptor()[..21]).is_err());
    let transfer = register_read(0x1234, 4);
    assert_eq!(transfer.len(), 2);
    assert_eq!(transfer[0].data, vec![0x34, 0x12]);
    assert_eq!(transfer[1].data.len(), 4);
    assert_eq!(command_message(5, 8).data, vec![5, 0, 0, 8]);
}

#[test]
fn identification_powers_up_and_resets() {
    let hid = hid_descriptor();
    let (mut stage, mut action) = begin_identification();
    let mut now = 0;
    let mut commands = vec![];
    let descriptor = loop {
        let outcome = match action {
            IdentityAction::ReadRegister(1, 30) => IdentityOutcome::Transferred(&hid),
            IdentityAction::ReadRegister(_, _) => IdentityOutcome::Transferred(&TOUCH),
            IdentityAction::Command(_, opcode) => {
                commands.push(opcode);
                IdentityOutcome::Transferred(&[])
            }
            IdentityAction::ReadInput(_) => IdentityOutcome::Transferred(&[0, 0]),
            IdentityAction::Delay(us) => {
                now += us;
                IdentityOutcome::Delayed
            }
            IdentityAction::SampleLine => IdentityOutcome::Line(now > 70_000),
            IdentityAction::Identify(descriptor) => break descriptor,
            IdentityAction::Fail(e) => panic!("{}", e),
        };
        (stage, action) = continue_identification(stage, now, outcome);
    };
    assert_eq!(commands, vec![8, 1, 8]);
    let device = identify(descriptor, &TOUCH[..45]).unwrap();
    assert_eq!(device.max_input_length, 64);
    assert_eq!((device.axes[0].minimum, device.axes[0].maximum), (0, 4095));
    assert!(identify(descriptor, &[]).is_err());
}

#[test]
fn identification_gives_up_on_a_silent_controller() {
    let hid = hid_descriptor();
    let (mut stage, mut action) = begin_identification();
    let mut now = 0;
    loop {
        let outcome = match action {
            IdentityAction::ReadRegister(_, _) => IdentityOutcome::Transferred(&hid),
            IdentityAction::Command(_, _) => IdentityOutcome::Transferred(&[]),
            IdentityAction::Delay(us) => {
                now += us;
                IdentityOutcome::Delayed
            }
            IdentityAction::SampleLine => IdentityOutcome::Line(false),
            IdentityAction::Fail(_) => break,
            _ => panic!("no reply was announced"),
        };
        (stage, action) = continue_identification(stage, now, outcome);
    }
    assert!(now >= 5_000_000);
    let (stage, _) = begin_identification();
    let (_, failed) = continue_identification(stage, 0, IdentityOutcome::TransferFailed);
    assert_eq!(
        failed,
        IdentityAction::Fail("goodix-gt7375p: I2C-HID descriptor read failed")
    );
}

#[test]
fn touch_reports_become_frames() {
    let descriptor = parse_hid_descriptor(&hid_descriptor()).unwrap();
    let mut device = identify(descriptor, &TOUCH[..45]).unwrap();
    let report = [7, 0, 1, 0x34, 0x02, 0x78, 0x01];
    let events = process_report(&device.layout, &mut device.slots, &report).unwrap().unwrap();
    assert!(events.iter().any(|e| e.0 == EV_ABS && e.2 == 0x234));
    assert_eq!(events.last().unwrap().0, EV_SYN);
    let reset = process_report(&device.layout, &mut device.slots, &[0, 0]).unwrap();
    assert!(reset.is_none());
    assert!(process_report(&device.layout, &mut device.slots, &[9]).is_err());
    let mut tracker = SlotTracker::new(2);
    let idle = emit_touch_frame(&tracker.apply(&[]));
    assert_eq!(idle.last().unwrap().0, EV_SYN);
    let field = |low: i32, high: i32| HidField {
        report_id: 0,
        bit_offset: 0,
        bit_size: 16,
        logical_minimum: low,
        logical_maximum: high,
    };
    assert_eq!(axis_range(&[field(0, 10), field(-5, 3)]), Some((-5, 10)));
    assert_eq!(axis_range(&[]), None);
}

// Buttons.

#[test]
fn buttons_report_keys() {
    let mut buttons = ChromeEcMkbpButtons::new(7);
    let (consumed, events) = buttons.on_cros_ec_event(3, &[1, 0, 0, 0]);
    assert!(consumed);
    assert!(events.iter().any(|e| e.0 == EV_KEY && e.1 == 116 && e.2 == 1));
    let (consumed, events) = buttons.on_cros_ec_event(3, &[1, 0, 0, 0]);
    assert!(consumed);
    assert!(events.is_empty());
    let released = buttons.accept_state(0);
    assert!(released.iter().any(|e| e.1 == 116 && e.2 == 0));
    assert!(buttons.on_cros_ec_event(4, &[1, 0, 0, 0]).1.is_empty());
    assert!(buttons.on_cros_ec_event(3, &[1]).1.is_empty());
    assert_eq!(Button::VolumeUp.key_code(), 115);
    assert_eq!(Button::VolumeDown.key_code(), 114);
    assert_eq!(parse_button_mask(&[6, 0, 0, 0]), Ok(6));
    assert_eq!(usable_buttons::<()>(&Ok(6)), Some(6));
    assert_eq!(usable_buttons::<()>(&Ok(8)), None);
    assert_eq!(usable_buttons::<()>(&Err(QueryError::MalformedResponse)), None);
}

// Switches.

#[test]
fn switches_report_the_posture() {
    let open = PostureState { lid_closed: false, tablet_mode: false };
    let tablet = PostureState { lid_closed: false, tablet_mode: true };
    let snapshot = emit_snapshot(open);
    assert_eq!(snapshot.iter().filter(|e| e.0 == EV_SW).count(), 2);
    let change = emit_change(open, tablet);
    let switched: Vec<(u16, i32)> =
        change.iter().filter(|e| e.0 == EV_SW).map(|e| (e.1, e.2)).collect();
    assert_eq!(switched, vec![(1, 1)]);
    let mut tracker = SwitchTracker::default();
    assert!(!accept_state(&mut tracker, open).is_empty());
    assert!(accept_state(&mut tracker, open).is_empty());
    let events = on_cros_ec_event(&mut tracker, 4, &[3, 0, 0, 0]);
    assert!(events.iter().any(|e| (e.1, e.2) == (1, 1)));
    assert!(on_cros_ec_event(&mut tracker, 3, &[1, 0, 0, 0]).is_empty());
    assert!(has_required_switches::<()>(&Ok(3)));
    assert!(!has_required_switches::<()>(&Ok(1)));
    assert_eq!(support_queried::<()>(&Ok(3)), StartupAction::Subscribe);
    assert_eq!(support_queried::<()>(&Ok(2)), StartupAction::Abandon);
    assert_eq!(current_queried::<()>(&Ok(3)), StartupAction::Register(tablet));
    assert_eq!(
        current_queried::<()>(&Err(QueryError::MalformedResponse)),
        StartupAction::Unsubscribe
    );
}

// The touchpad.

#[test]
fn touchpads_are_bound_once() {
    let device = UsbDeviceIdentity { vendor_id: 0x18d1, product_id: 0x504c };
    let endpoint = UsbInterruptInEndpointInfo {
        interface_number: 2,
        alternate_setting: 0,
        interface_class: 3,
        interface_subclass: 0,
        interface_protocol: 0,
        endpoint_address: 0x83,
        max_packet_size: 64,
    };
    let location = UsbDeviceLocation { host_id: 0, root_port_id: 1, route_string: 2 };
    let mut registered = vec![];
    assert_eq!(bind(&mut registered, &device, &endpoint, location), Ok(0));
    assert_eq!(registered.len(), 1);
    let elsewhere = UsbDeviceLocation { route_string: 3, ..location };
    assert_eq!(bind(&mut registered, &device, &endpoint, elsewhere), Ok(1));
    let stranger = UsbDeviceIdentity { vendor_id: 1, ..device };
    assert!(bind(&mut registered, &stranger, &endpoint, elsewhere).is_err());
    let mut header = vec![0u8; 44];
    header[0] = 1;
    assert!(has_touchpad_report_header(&header));
    assert!(!has_touchpad_report_header(&[2, 0]));
    assert!(touchpad_axes().iter().any(|axis| axis.maximum == 0x0fff));
}
