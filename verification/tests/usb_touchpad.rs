//! The touchpad of a detachable base.

use coachz_drivers::input::{
    InputEvent as RawEvent, ABS_MT_POSITION_X, ABS_MT_POSITION_Y, ABS_MT_PRESSURE, ABS_MT_SLOT,
    ABS_MT_TRACKING_ID, BTN_LEFT, BTN_TOUCH, EV_ABS, EV_KEY, EV_REL, EV_SYN, KEY_PRESS,
    KEY_RELEASE, REL_X, REL_Y, SYN_REPORT,
};
use coachz_drivers::usb_touchpad::{
    decode_touch_report, events_for_disconnect, events_for_report, PointerState,
    COUNT_BUTTON_OFFSET, FINGERS_OFFSET, FINGER_COUNT, FINGER_SIZE, MT_TRACKING_ID_RELEASE,
    REPORT_ID, REPORT_SIZE,
};

fn contact_word(id: u8, active: bool, x: u16, y: u16, pressure: u16) -> u64 {
    u64::from(active)
        | (u64::from(active) << 1)
        | (u64::from(active) << 2)
        | (u64::from(id) << 3)
        | (u64::from(pressure) << 7)
        | (0x45 << 16)
        | (0x32 << 28)
        | (u64::from(x) << 40)
        | (u64::from(y) << 52)
}

fn report(contacts: &[(u8, bool, u16, u16, u16)], button: bool) -> [u8; REPORT_SIZE] {
    let mut report = [0u8; REPORT_SIZE];
    report[0] = REPORT_ID;
    report[COUNT_BUTTON_OFFSET] = contacts.len() as u8 | if button { 0x80 } else { 0 };
    for (index, &(id, active, x, y, pressure)) in contacts.iter().enumerate() {
        let offset = FINGERS_OFFSET + index * FINGER_SIZE;
        report[offset..offset + FINGER_SIZE]
            .copy_from_slice(&contact_word(id, active, x, y, pressure).to_le_bytes());
    }
    report
}

fn frame_events(state: &mut PointerState, bytes: &[u8]) -> Vec<RawEvent> {
    let decoded = decode_touch_report(bytes).expect("test report should decode");
    events_for_report(state, &decoded).expect("test frame should have enough slots")
}

#[test]
fn reports_two_fingers_with_stable_hardware_ids() {
    let mut state = PointerState::default();
    let events = frame_events(
        &mut state,
        &report(
            &[(7, true, 0xabc, 0xdef, 123), (2, true, 400, 500, 81)],
            true,
        ),
    );

    assert_eq!(state.slots, [Some(7), Some(2), None, None, None]);
    assert!(events.contains(&(EV_ABS, ABS_MT_SLOT, 0)));
    assert!(events.contains(&(EV_ABS, ABS_MT_TRACKING_ID, 7)));
    assert!(events.contains(&(EV_ABS, ABS_MT_POSITION_X, 0xabc)));
    assert!(events.contains(&(EV_ABS, ABS_MT_POSITION_Y, 0xdef)));
    assert!(events.contains(&(EV_ABS, ABS_MT_PRESSURE, 123)));
    assert!(events.contains(&(EV_ABS, ABS_MT_SLOT, 1)));
    assert!(events.contains(&(EV_ABS, ABS_MT_TRACKING_ID, 2)));
    assert!(events.contains(&(EV_KEY, BTN_TOUCH, KEY_PRESS)));
    assert!(events.contains(&(EV_KEY, BTN_LEFT, KEY_PRESS)));
    assert_eq!(events.last(), Some(&(EV_SYN, SYN_REPORT, 0)));
    assert_eq!(
        events
            .iter()
            .filter(|event| **event == (EV_SYN, SYN_REPORT, 0))
            .count(),
        1
    );
}

#[test]
fn motion_reuses_slots_and_keeps_legacy_relative_motion() {
    let mut state = PointerState::default();
    frame_events(
        &mut state,
        &report(&[(7, true, 100, 200, 40), (2, true, 300, 400, 50)], false),
    );
    let events = frame_events(
        &mut state,
        &report(&[(7, true, 106, 196, 41), (2, true, 303, 405, 52)], false),
    );

    assert!(!events.iter().any(|event| event.1 == ABS_MT_TRACKING_ID));
    assert!(events.contains(&(EV_ABS, ABS_MT_SLOT, 0)));
    assert!(events.contains(&(EV_ABS, ABS_MT_POSITION_X, 106)));
    assert!(events.contains(&(EV_REL, REL_X, 3)));
    assert!(events.contains(&(EV_REL, REL_Y, -2)));
    assert_eq!(state.slots, [Some(7), Some(2), None, None, None]);
    assert_eq!(events.last(), Some(&(EV_SYN, SYN_REPORT, 0)));
}

#[test]
fn lift_releases_only_the_matching_contact_slot() {
    let mut state = PointerState::default();
    frame_events(
        &mut state,
        &report(&[(7, true, 100, 200, 40), (2, true, 300, 400, 50)], false),
    );
    // The EC compacts active contacts and appends a one-frame lift record.
    let events = frame_events(
        &mut state,
        &report(&[(2, true, 305, 405, 51), (7, false, 0, 0, 0)], false),
    );

    assert_eq!(state.slots, [None, Some(2), None, None, None]);
    assert_eq!(
        &events[..2],
        &[
            (EV_ABS, ABS_MT_SLOT, 0),
            (EV_ABS, ABS_MT_TRACKING_ID, MT_TRACKING_ID_RELEASE),
        ]
    );
    assert!(!events.contains(&(EV_KEY, BTN_TOUCH, KEY_RELEASE)));
    assert!(!events.contains(&(EV_ABS, ABS_MT_TRACKING_ID, 2)));
    assert_eq!(events.last(), Some(&(EV_SYN, SYN_REPORT, 0)));
}

#[test]
fn disconnect_releases_all_slots_touch_and_click() {
    let mut state = PointerState::default();
    frame_events(
        &mut state,
        &report(&[(7, true, 100, 200, 40), (2, true, 300, 400, 50)], true),
    );
    let events = events_for_disconnect(&mut state);

    assert_eq!(state.slots, [None; FINGER_COUNT]);
    assert!(!state.button_pressed);
    assert_eq!(
        events,
        vec![
            (EV_ABS, ABS_MT_SLOT, 0),
            (EV_ABS, ABS_MT_TRACKING_ID, MT_TRACKING_ID_RELEASE),
            (EV_ABS, ABS_MT_SLOT, 1),
            (EV_ABS, ABS_MT_TRACKING_ID, MT_TRACKING_ID_RELEASE),
            (EV_KEY, BTN_TOUCH, KEY_RELEASE),
            (EV_KEY, BTN_LEFT, KEY_RELEASE),
            (EV_SYN, SYN_REPORT, 0),
        ]
    );
}

#[test]
fn rejects_malformed_reports_and_accepts_idle_frame() {
    let idle = report(&[], false);
    let mut wrong_id = idle;
    wrong_id[0] = REPORT_ID + 1;
    let mut invalid_count = idle;
    invalid_count[COUNT_BUTTON_OFFSET] = (FINGER_COUNT + 1) as u8;

    assert!(decode_touch_report(&idle[..REPORT_SIZE - 1]).is_err());
    assert!(decode_touch_report(&wrong_id).is_err());
    assert!(decode_touch_report(&invalid_count).is_err());

    let mut state = PointerState::default();
    assert_eq!(
        frame_events(&mut state, &idle),
        vec![(EV_SYN, SYN_REPORT, 0)]
    );
}
