//! The ELAN trackpad.

use coachz_drivers::elan_ekth3000::{
    begin_probe, command_value, continue_probe, place, read_address, read_command, ready,
    report_length_for, resolve_irq, write_command, ElanEkth3000, GpioIrqTrigger, Placement,
    ProbeAction, ProbeStage, ProbeStep,
};
use coachz_drivers::input::{BTN_LEFT, EV_KEY, EV_REL, EV_SYN, REL_X, REL_Y, SYN_REPORT};

fn pad(max_y: u16) -> ElanEkth3000 {
    ready(0x15, 34, max_y)
}

/// A report in the compact format with one finger.
fn report(touch: u8, x: u16, y: u16) -> Vec<u8> {
    let mut report = vec![0u8; 34];
    report[2] = 0x5d;
    report[3] = touch;
    report[4] = ((x >> 8) << 4) as u8 | (y >> 8) as u8;
    report[5] = x as u8;
    report[6] = y as u8;
    report
}

#[test]
fn both_formats_give_a_contact() {
    let device = pad(2000);
    assert_eq!(device.contact_from_report(&report(0x08, 0x321, 0x123)), Some((0x321, 2000 - 0x123)));
    let mut precise = vec![0u8; 39];
    precise[2] = 0x60;
    precise[3] = 0x80;
    precise[4..8].copy_from_slice(&[0x12, 0x34, 0x01, 0x00]);
    assert_eq!(device.contact_from_report(&precise), Some((0x1234, 2000 - 0x100)));
    // The axis does not go below zero.
    assert_eq!(pad(100).contact_from_report(&report(0x08, 1, 200)), Some((1, 0)));
    // No finger is active, or the record is cut off.
    assert_eq!(device.contact_from_report(&report(0x07, 1, 1)), None);
    assert_eq!(device.contact_from_report(&report(0x08, 1, 1)[..8]), None);
}

#[test]
fn motion_is_relative_and_scaled() {
    let mut device = pad(2000);
    assert_eq!(device.process_report(&report(0x08, 100, 500)), vec![(EV_SYN, SYN_REPORT, 0)]);
    assert_eq!(
        device.process_report(&report(0x08, 125, 537)),
        vec![(EV_REL, REL_X, 2), (EV_REL, REL_Y, -3), (EV_SYN, SYN_REPORT, 0)]
    );
    // Less than one step is no motion.
    assert_eq!(
        device.process_report(&report(0x08, 114, 537)),
        vec![(EV_SYN, SYN_REPORT, 0)]
    );
    // A lifted finger forgets where it was.
    device.process_report(&report(0x00, 0, 0));
    assert_eq!(device.last_contact, None);
    assert_eq!(device.process_report(&report(0x08, 900, 900)), vec![(EV_SYN, SYN_REPORT, 0)]);
}

#[test]
fn the_button_is_reported_when_it_changes() {
    let mut device = pad(2000);
    assert_eq!(
        device.process_report(&report(0x01, 0, 0)),
        vec![(EV_KEY, BTN_LEFT, 1), (EV_SYN, SYN_REPORT, 0)]
    );
    assert_eq!(device.process_report(&report(0x01, 0, 0)), vec![(EV_SYN, SYN_REPORT, 0)]);
    assert_eq!(
        device.process_report(&report(0x00, 0, 0)),
        vec![(EV_KEY, BTN_LEFT, 0), (EV_SYN, SYN_REPORT, 0)]
    );
}

#[test]
fn unknown_reports_are_ignored() {
    let mut device = pad(2000);
    let mut unknown = report(0x09, 1, 1);
    unknown[2] = 0x5e;
    assert_eq!(device.process_report(&unknown), vec![]);
    assert_eq!(device.process_report(&[0, 0]), vec![]);
    assert!(!device.button_pressed);
}

#[test]
fn reports_must_have_their_length() {
    let mut device = pad(2000);
    let request = device.report_request().unwrap();
    assert_eq!((request.address, request.data.len(), request.read), (0x15, 34, true));
    assert_eq!(
        ready(0x15, 35, 1).report_request().err(),
        Some("elan-ekth3000: unsupported report length")
    );
    assert_eq!(
        device.read_and_process_report(Err(())),
        Err("elan-ekth3000: I2C read failed")
    );
    assert_eq!(
        device.read_and_process_report(Ok(&[0; 33])),
        Err("elan-ekth3000: short I2C read")
    );
    assert!(device.read_and_process_report(Ok(&report(0x01, 0, 0))).is_ok());
    assert!(device.button_pressed);
    device.handle_interrupt();
    assert!(device.take_pending_work());
    assert!(!device.take_pending_work());
}

#[test]
fn probing_runs_through_its_stages() {
    let (mut stage, mut action) = begin_probe();
    assert_eq!(action, ProbeAction::WriteCommand { register: 0x0005, value: 0x0100 });
    let replies: [(&[u8], ProbeAction); 6] = [
        (&[], ProbeAction::ReadRaw { delay_us: 100_000, length: 2 }),
        (&[0, 0], ProbeAction::WriteCommand { register: 0x0300, value: 0x0001 }),
        (&[], ProbeAction::WriteCommand { register: 0x0005, value: 0x0800 }),
        (&[], ProbeAction::ReadCommand { register: 0x0100 }),
        (&[0x00, 0x02], ProbeAction::ReadCommand { register: 0x0106 }),
        (&[0x34, 0x12], ProbeAction::ReadCommand { register: 0x0107 }),
    ];
    for (reply, expected) in replies {
        match continue_probe(stage, Ok(reply)) {
            ProbeStep::Continue(next, wanted) => {
                stage = next;
                action = wanted;
            }
            other => panic!("{:?}", other),
        }
        assert_eq!(action, expected);
    }
    assert!(matches!(
        continue_probe(stage, Ok(&[0x00, 0x08])),
        ProbeStep::Ready { report_len: 39, max_y: 0x800 }
    ));
    assert!(matches!(
        continue_probe(ProbeStage::Reset, Err(())),
        ProbeStep::Failed("elan-ekth3000: command write failed")
    ));
    assert!(matches!(
        continue_probe(ProbeStage::ResetAcknowledge, Ok(&[0])),
        ProbeStep::Failed("elan-ekth3000: short I2C read")
    ));
    assert!(matches!(
        continue_probe(ProbeStage::Pattern, Ok(&[0])),
        ProbeStep::Failed("elan-ekth3000: short command response")
    ));
    assert!(matches!(
        continue_probe(ProbeStage::MaxX { report_len: 34 }, Err(())),
        ProbeStep::Failed("elan-ekth3000: command read failed")
    ));
}

#[test]
fn the_pattern_decides_the_report_length() {
    assert_eq!(report_length_for(0xffff), 34);
    assert_eq!(report_length_for(0x01ff), 34);
    assert_eq!(report_length_for(0x0200), 39);
}

#[test]
fn commands_are_little_endian() {
    let [ask, answer] = read_command(0x15, 0x0106);
    assert_eq!(ask.data, [0x06, 0x01]);
    assert!(!ask.read);
    assert_eq!((answer.data.len(), answer.read), (2, true));
    let message = write_command(0x15, 0x0300, 0x0001);
    assert_eq!(message.data, [0x00, 0x03, 0x01, 0x00]);
    assert_eq!(command_value(Ok(&[0x34, 0x12])), Ok(0x1234));
    assert!(command_value(Ok(&[0x34])).is_err());
    assert!(command_value(Err(())).is_err());
}

#[test]
fn properties_are_checked() {
    assert_eq!(read_address(Some(0x15)), Ok(0x15));
    assert_eq!(read_address(Some(0x16)), Err("elan-ekth3000: unexpected I2C address"));
    assert_eq!(read_address(None), Err("elan-ekth3000: missing I2C address"));
    assert_eq!(
        resolve_irq(Some(3), Some(&[0, 0, 0, 58, 0, 0, 0, 2])),
        Ok((3, 58, GpioIrqTrigger::FallingEdge))
    );
    assert_eq!(
        resolve_irq(Some(3), Some(&[0, 0, 0, 58, 0, 0, 0, 3])),
        Err("elan-ekth3000: unsupported IRQ trigger")
    );
    assert_eq!(resolve_irq(Some(3), Some(&[0; 7])), Err("elan-ekth3000: malformed interrupts"));
    assert_eq!(resolve_irq(Some(3), None), Err("elan-ekth3000: missing interrupts"));
    assert_eq!(resolve_irq(None, None), Err("elan-ekth3000: missing interrupt-parent"));
}

#[test]
fn a_clickpad_is_placed_or_its_first_fault_named() {
    let edge: &[u8] = &[0, 0, 0, 58, 0, 0, 0, 2];
    assert_eq!(
        place(false, None, None, None),
        Err("elan-ekth3000: failed to set I2C bus speed")
    );
    assert_eq!(place(true, None, None, None), Err("elan-ekth3000: missing I2C address"));
    assert_eq!(
        place(true, Some(0x16), None, None),
        Err("elan-ekth3000: unexpected I2C address")
    );
    assert_eq!(
        place(true, Some(0x15), None, None),
        Err("elan-ekth3000: missing interrupt-parent")
    );
    assert_eq!(
        place(true, Some(0x15), Some(4), Some(&edge[..7])),
        Err("elan-ekth3000: malformed interrupts")
    );
    assert_eq!(
        place(true, Some(0x15), Some(4), Some(edge)),
        Ok(Placement {
            address: 0x15,
            irq_controller: 4,
            irq_pin: 58,
            irq_trigger: GpioIrqTrigger::FallingEdge,
        })
    );
}
