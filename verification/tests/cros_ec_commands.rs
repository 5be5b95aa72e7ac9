//! The command engine of the EC and the commands of its clients.

use std::cell::RefCell;

use coachz_drivers::cros_ec_spi::protocol::{
    build_request, decode_response, CrosEcError, CROS_EC_MAX_MOTION_FIFO_VECTORS,
    EC_RESULT_UNAVAILABLE,
};
use coachz_drivers::cros_ec_spi::{
    dispatch_event, drain_dispatched, drain_reply, earlier_wait, extended_info_reply,
    get_cros_ec_spi_by_phandle, get_primary_cros_ec_spi, place, read_placement, remove_controller,
    CrosEcEventListener, CrosEcSpi, DrainStep, EcNode, EcPlacement, EcWiring, HostCommand,
    WorkerDecision,
};
use coachz_drivers::mkbp::{accept_reply, parse_mask, QueryError};

fn controller() -> CrosEcSpi {
    CrosEcSpi::new(1_010_000, 7, true, 2, 3_000_000, 94)
}

fn balanced(payload: &[u8], result: u16) -> Vec<u8> {
    let mut packet = vec![
        3,
        0,
        result as u8,
        (result >> 8) as u8,
        payload.len() as u8,
        0,
        0,
        0,
    ];
    packet.extend_from_slice(payload);
    let sum = packet.iter().fold(0u8, |sum, byte| sum.wrapping_add(*byte));
    packet[1] = 0u8.wrapping_sub(sum);
    packet
}

#[test]
fn requests_carry_a_balancing_checksum() {
    let request = build_request(0x0061, 0, &[1, 4]);
    assert_eq!(request[0], 3);
    assert_eq!(&request[2..5], &[0x61, 0, 0]);
    assert_eq!(&request[6..], &[2, 0, 1, 4]);
    assert_eq!(request.iter().fold(0u8, |sum, byte| sum.wrapping_add(*byte)), 0);
}

#[test]
fn a_command_is_a_request_and_a_response_window() {
    let segments = controller().command(&HostCommand::next_event()).unwrap();
    assert_eq!(segments.len(), 2);
    assert!(segments[0].write && !segments[0].read);
    assert!(segments[1].read && !segments[1].write);
    assert_eq!(segments[1].data, vec![0; 4096]);
    assert_eq!(segments[0].speed_hz, 1_010_000);
    assert_eq!(segments[0].cs, 2);
    let large = HostCommand { command: 1, version: 0, payload: vec![0; 65_536] };
    assert!(matches!(controller().command(&large), Err(CrosEcError::InvalidArgument)));
}

#[test]
fn responses_start_at_their_marker() {
    let mut window = vec![0xfd, 0xfe, 0xec];
    window.extend_from_slice(&balanced(&[5, 6], 0));
    window.extend_from_slice(&[0xff, 0xff]);
    assert_eq!(decode_response(&window), Ok(&[5u8, 6][..]));
    assert_eq!(CrosEcSpi::command_reply(&window), Ok(vec![5, 6]));
    window[4] ^= 1;
    assert_eq!(decode_response(&window), Err(CrosEcError::InvalidResponse));
    assert_eq!(decode_response(&[0xfd, 0xfb, 0xec]), Err(CrosEcError::BadRequest));
    assert_eq!(decode_response(&[0xfd, 0xfc]), Err(CrosEcError::NotReady));
    assert_eq!(decode_response(&[0xfd, 0xfd]), Err(CrosEcError::NoResponse));
    assert_eq!(decode_response(&[0xec, 3]), Err(CrosEcError::InvalidResponse));
    let mut failed = vec![0xec];
    failed.extend_from_slice(&balanced(&[], 9));
    assert_eq!(decode_response(&failed), Err(CrosEcError::EcResult(9)));
}

#[test]
fn replies_are_read_and_errors_passed_on() {
    let error = CrosEcError::NotReady;
    assert_eq!(CrosEcSpi::motion_sensor_range(Ok(&[0xff, 0xff, 0xff, 0xff])), Ok(-1));
    assert_eq!(CrosEcSpi::motion_sensor_range(Err(error)), Err(error));
    assert_eq!(CrosEcSpi::motion_sensor_odr_millihz(Ok(&[1, 0, 0, 0])), Ok(1));
    assert_eq!(
        CrosEcSpi::motion_sensor_odr_millihz(Ok(&[1])),
        Err(CrosEcError::InvalidResponse)
    );
    assert_eq!(CrosEcSpi::set_display_backlight_percent(Ok(&[])), Ok(()));
    assert_eq!(
        CrosEcSpi::set_display_backlight_percent(Ok(&[0])),
        Err(CrosEcError::InvalidResponse)
    );
    assert_eq!(CrosEcSpi::get_display_backlight_percent(Ok(&[0xff, 0xff])), Ok(100));
    assert!(CrosEcSpi::get_display_backlight_percent(Ok(&[0])).is_err());
    assert_eq!(CrosEcSpi::motion_fifo_interrupt_enabled(Ok(&[1, 0, 0, 0])), Ok(true));
    assert_eq!(CrosEcSpi::set_motion_fifo_interrupt_enabled(Ok(&[0, 0, 0, 0])), Ok(false));
    assert_eq!(CrosEcSpi::motion_sensor_summary(Ok(&[3, 2])).unwrap().sensor_count, 2);
    assert_eq!(CrosEcSpi::motion_sensor_summary(Err(error)), Err(error));
    let status = [8, 0, 2, 0, 1, 0, 0, 0, 3, 0, 1, 0, 2, 0];
    let info = CrosEcSpi::motion_fifo_info(Ok(&[3, 2]), Ok(&status)).unwrap();
    assert_eq!((info.size, info.count, info.total_lost), (8, 2, 3));
    assert_eq!(info.lost_per_sensor, vec![1, 2]);
    assert_eq!(
        CrosEcSpi::motion_fifo_info_for_sensor_count(Ok(&status), 1),
        Err(CrosEcError::InvalidResponse)
    );
    assert_eq!(
        CrosEcSpi::motion_fifo_info(Ok(&[3]), Ok(&status)),
        Err(CrosEcError::InvalidResponse)
    );
    assert!(CrosEcSpi::motion_fifo_read(Ok(&[0, 0, 0, 0]), 4).unwrap().samples.is_empty());
    assert!(CrosEcSpi::motion_fifo_read(Err(error), 4).is_err());
    assert_eq!(CrosEcSpi::motion_sensor_data(Ok(&[1])), Err(CrosEcError::InvalidResponse));
    assert_eq!(CrosEcSpi::features(Err(error)), Err(error));
    assert_eq!(CrosEcSpi::supports_motion_sense(Ok(&[1 << 6, 0, 0, 0, 0, 0, 0, 0])), Ok(true));
    assert_eq!(CrosEcSpi::supports_motion_sense(Ok(&[0; 8])), Ok(false));
    assert_eq!(CrosEcSpi::supports_motion_sense_fifo(Err(error)), Err(error));
    assert_eq!(CrosEcSpi::supports_motion_sense_tight_timestamps(Ok(&[0; 8])), Ok(false));
}

#[test]
fn older_firmware_is_asked_for_the_legacy_description() {
    let unknown = CrosEcError::EcResult(6);
    let legacy = CrosEcSpi::motion_sensor_info(Err(unknown), Ok(&[1, 2, 3]));
    let info = legacy.unwrap();
    assert_eq!((info.sensor_type, info.location, info.chip), (1, 2, 3));
    assert_eq!(info.min_frequency_millihz, None);
    assert_eq!(
        CrosEcSpi::motion_sensor_info(Err(CrosEcError::NotReady), Ok(&[1, 2, 3])),
        Err(CrosEcError::NotReady)
    );
    assert!(matches!(extended_info_reply(Err(unknown)), Ok(None)));
    assert!(matches!(
        extended_info_reply(Err(CrosEcError::NotReady)),
        Err(CrosEcError::NotReady)
    ));
}

#[test]
fn commands_name_their_subject() {
    assert!(HostCommand::set_display_backlight_percent(100).is_ok());
    assert!(matches!(
        HostCommand::set_display_backlight_percent(101),
        Err(CrosEcError::InvalidArgument)
    ));
    assert!(HostCommand::motion_fifo_read(CROS_EC_MAX_MOTION_FIFO_VECTORS).is_ok());
    assert!(matches!(
        HostCommand::motion_fifo_read(CROS_EC_MAX_MOTION_FIFO_VECTORS + 1),
        Err(CrosEcError::InvalidArgument)
    ));
    let info = HostCommand::motion_sensor_info(4, false);
    let legacy = HostCommand::motion_sensor_info(4, true);
    assert_eq!((info.version, legacy.version), (3, 1));
    assert_eq!(info.payload[1], 4);
    assert_ne!(
        HostCommand::motion_sensor_range(4).payload,
        HostCommand::motion_sensor_odr_millihz(4).payload
    );
    assert_ne!(
        HostCommand::set_motion_fifo_interrupt_enabled(true).payload,
        HostCommand::set_motion_fifo_interrupt_enabled(false).payload
    );
    assert_eq!(HostCommand::motion_sensor_data(4).payload[1], 4);
    assert_eq!(HostCommand::get_display_backlight_percent().version, 0);
    assert_eq!(
        HostCommand::motion_fifo_info().command,
        HostCommand::motion_sensor_summary().command
    );
}

#[test]
fn interrupts_are_drained_once_and_retried_later() {
    let mut ec = controller();
    assert_eq!(ec.worker_decision(0), WorkerDecision::Skip);
    assert!(ec.handle_interrupt());
    assert!(!ec.handle_interrupt());
    assert_eq!(ec.worker_decision(0), WorkerDecision::Drain);
    assert_eq!(ec.worker_decision(0), WorkerDecision::Skip);
    assert_eq!(ec.drained(false, 1_000), Some(250_000_000));
    assert_eq!(ec.worker_decision(2_000), WorkerDecision::WaitFor(249_999_000));
    assert_eq!(ec.worker_decision(250_001_000), WorkerDecision::Drain);
    assert_eq!(ec.drained(false, 0), Some(500_000_000));
    assert_eq!(ec.drained(true, 0), None);
    assert_eq!(ec.event_drain_errors, 0);
    ec.active = false;
    assert!(!ec.handle_interrupt());
    assert_eq!(ec.drained(false, 0), None);
    assert_eq!(earlier_wait(None, 5), Some(5));
    assert_eq!(earlier_wait(Some(4), 5), Some(4));
    assert_eq!(earlier_wait(Some(6), 5), Some(5));
}

#[test]
fn a_drain_ends_at_the_last_event_or_the_first_fault() {
    assert_eq!(
        drain_reply(Err(CrosEcError::EcResult(EC_RESULT_UNAVAILABLE))),
        DrainStep::Finished(Ok(()))
    );
    assert_eq!(
        drain_reply(Err(CrosEcError::NotReady)),
        DrainStep::Finished(Err(CrosEcError::NotReady))
    );
    assert_eq!(drain_reply(Ok(&[])), DrainStep::Finished(Err(CrosEcError::InvalidResponse)));
    assert_eq!(
        drain_reply(Ok(&[0x84, 1])),
        DrainStep::Dispatch { event_type: 4, more: true }
    );
    assert_eq!(drain_dispatched(1, true, true), None);
    assert_eq!(drain_dispatched(1, false, true), Some(Ok(())));
    assert_eq!(
        drain_dispatched(1, false, false),
        Some(Err(CrosEcError::EventListenerFailed))
    );
    assert_eq!(drain_dispatched(64, true, true), Some(Err(CrosEcError::InvalidResponse)));
}

struct Listener {
    heard: std::sync::Mutex<Vec<u8>>,
    consumes: bool,
}

impl CrosEcEventListener for Listener {
    fn on_cros_ec_event(&self, event_type: u8, _data: &[u8]) -> bool {
        self.heard.lock().unwrap().push(event_type);
        self.consumes
    }
}

#[test]
fn every_listener_hears_an_event() {
    let listener = |consumes| Listener { heard: std::sync::Mutex::new(vec![]), consumes };
    let all = vec![listener(true), listener(true)];
    assert!(dispatch_event(&all, || true, 4, &[1]));
    assert!(all.iter().all(|l| *l.heard.lock().unwrap() == vec![4]));
    let one_fails = vec![listener(false), listener(true)];
    assert!(!dispatch_event(&one_fails, || true, 4, &[1]));
    // A controller that goes away tells nobody, and nobody objects.
    let calls = RefCell::new(0);
    let inactive = || {
        *calls.borrow_mut() += 1;
        false
    };
    let unheard = vec![listener(true)];
    assert!(dispatch_event(&unheard, inactive, 4, &[1]));
    assert_eq!(*calls.borrow(), 1);
    assert!(unheard[0].heard.lock().unwrap().is_empty());
}

#[test]
fn listeners_and_controllers_come_and_go() {
    let mut ec = controller();
    let mut next = 1;
    let first = ec.register_event_listener(&mut next);
    let second = ec.register_event_listener(&mut next);
    assert_eq!((first, second), (1, 2));
    assert!(ec.unregister_event_listener(first));
    assert!(!ec.unregister_event_listener(first));
    assert_eq!(ec.listeners, vec![2]);
    let secondary = CrosEcSpi::new(1_010_000, 9, false, 0, 500_000, 1);
    assert_eq!(secondary.speed_hz, 500_000);
    let mut controllers = vec![secondary, ec];
    assert_eq!(get_cros_ec_spi_by_phandle(&controllers, 7), Some(1));
    assert_eq!(get_cros_ec_spi_by_phandle(&controllers, 8), None);
    assert_eq!(get_primary_cros_ec_spi(&controllers), Some(1));
    assert_eq!(remove_controller(&mut controllers, 7).map(|c| c.phandle()), Some(7));
    assert!(remove_controller(&mut controllers, 7).is_none());
    assert_eq!(get_primary_cros_ec_spi(&controllers), None);
}

#[test]
fn placements_need_a_handle_and_a_chip_select() {
    let placed = read_placement(Some(5), None, Some(1), Some(2_000_000)).unwrap();
    assert_eq!((placed.phandle, placed.chip_select), (5, 1));
    assert_eq!(placed.maximum_speed_hz, 2_000_000);
    assert_eq!(read_placement(None, Some(6), Some(1), None).unwrap().phandle, 6);
    assert!(read_placement(None, None, Some(1), None).is_err());
    assert!(read_placement(Some(5), None, Some(300), None).is_err());
}

#[test]
fn masks_are_four_bytes() {
    assert_eq!(parse_mask(&[1, 2, 0, 0]), Ok(0x201));
    assert_eq!(parse_mask(&[1, 2, 0]), Err(QueryError::MalformedResponse));
    assert_eq!(accept_reply::<u8>(Err(3)), Err(QueryError::Transport(3)));
    assert_eq!(accept_reply::<u8>(Ok(vec![1])), Err(QueryError::MalformedResponse));
    assert_eq!(accept_reply::<u8>(Ok(vec![1, 0, 0, 0])), Ok(1));
}

#[test]
fn a_batch_fits_the_response_window() {
    let count = CROS_EC_MAX_MOTION_FIFO_VECTORS;
    let mut payload = count.to_le_bytes().to_vec();
    payload.resize(4 + 8 * count as usize, 0);
    let window = controller().command(&HostCommand::next_event()).unwrap()[1].data.len();
    assert!(2_000 + 1 + 8 + payload.len() <= window);
    let mut response = vec![0xfd; 2_000];
    response.push(0xec);
    let mut packet = vec![3, 0, 0, 0, payload.len() as u8, (payload.len() >> 8) as u8, 0, 0];
    packet.extend_from_slice(&payload);
    let sum = packet.iter().fold(0u8, |sum, byte| sum.wrapping_add(*byte));
    packet[1] = 0u8.wrapping_sub(sum);
    response.extend_from_slice(&packet);
    response.resize(window, 0xff);
    let reply = CrosEcSpi::command_reply(&response).unwrap();
    assert_eq!(CrosEcSpi::motion_fifo_read(Ok(&reply), count).unwrap().samples.len(), 256);
}

#[test]
fn an_ec_is_placed_or_its_first_fault_named() {
    let mut node = EcNode {
        phandle: None,
        linux_phandle: None,
        reg: Some(300),
        maximum_speed: None,
        compatible: vec!["google,cros-ec-spi".into()],
        interrupt_parent: None,
        interrupts: None,
    };
    assert_eq!(place(&node), Err("cros-ec-spi: missing phandle"));
    node.linux_phandle = Some(9);
    assert_eq!(place(&node), Err("cros-ec-spi: invalid chip select"));
    node.reg = Some(2);
    assert_eq!(place(&node), Err("cros-ec-spi: missing interrupt-parent"));
    node.interrupt_parent = Some(4);
    assert_eq!(place(&node), Err("cros-ec-spi: missing interrupts"));
    node.interrupts = Some(&[0, 0, 0, 94, 0, 0, 0]);
    assert_eq!(place(&node), Err("cros-ec-spi: malformed interrupts"));
    node.interrupts = Some(&[0, 0, 0, 94, 0, 0, 0, 4]);
    assert_eq!(place(&node), Err("cros-ec-spi: EC interrupt is not level-low"));
    node.interrupts = Some(&[0, 0, 0, 94, 0, 0, 0, 8]);
    let placement = EcPlacement { phandle: 9, chip_select: 2, maximum_speed_hz: 1_010_000 };
    let wiring = EcWiring { placement, primary: true, irq_controller: 4, irq_pin: 94 };
    assert_eq!(place(&node), Ok(wiring));
    node.compatible.push("google,cros-ec-fp".into());
    assert_eq!(place(&node), Ok(EcWiring { primary: false, ..wiring }));
}

#[test]
fn dead_listeners_are_pruned() {
    let mut ec = controller();
    let mut next = 5;
    for _ in 0..4 {
        ec.register_event_listener(&mut next);
    }
    assert_eq!(ec.listeners, [5, 6, 7, 8]);
    ec.prune_event_listeners(&[8, 6, 99]);
    assert_eq!(ec.listeners, [6, 8]);
    // Those that live are not touched.
    ec.prune_event_listeners(&[6, 8]);
    assert_eq!(ec.listeners, [6, 8]);
    ec.prune_event_listeners(&[]);
    assert!(ec.listeners.is_empty());
    assert_eq!(ec.register_event_listener(&mut next), 9);
}

#[test]
fn the_length_of_a_request_has_sixteen_bits() {
    let request = build_request(0x102, 3, &vec![0; 0x1_0001]);
    assert_eq!(request.len(), 8 + 0x1_0001);
    assert_eq!(&request[2..8], &[2, 1, 3, 0, 1, 0]);
    assert_eq!(request.iter().fold(0u8, |sum, byte| sum.wrapping_add(*byte)), 0);
}
