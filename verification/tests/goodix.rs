//! Goodix HID descriptors, reports and multitouch slots.

use coachz_drivers::goodix::descriptor::{little_endian_item, parse_touch_layout, sign_extend_item};
use coachz_drivers::goodix::hid::{
    decode_contacts, decode_input_length, encode_simple_command, extract_bits,
    extract_logical_value, sign_extend_bits, HidContact, HidField,
};
use coachz_drivers::goodix::slots::SlotTracker;

fn repeated_contact_descriptor() -> Vec<u8> {
    let contact = [
        0x09, 0x22, 0xa1, 0x02, // Finger logical collection
        0x09, 0x42, 0x15, 0x00, 0x25, 0x01, 0x75, 0x01, 0x95, 0x01, 0x81, 0x02, 0x75, 0x07,
        0x95, 0x01, 0x81, 0x03, // Tip Switch padding
        0x09, 0x51, 0x15, 0x00, 0x25, 0x7f, 0x75, 0x08, 0x95, 0x01, 0x81, 0x02, 0x05, 0x01,
        0x09, 0x30, 0x09, 0x31, 0x16, 0x00, 0x00, 0x26, 0xff, 0x0f, 0x75, 0x10, 0x95, 0x02,
        0x81, 0x02, // X/Y
        0x05, 0x0d, 0x09, 0x30, 0x15, 0x00, 0x26, 0xff, 0x00, 0x75, 0x08, 0x95, 0x01, 0x81,
        0x02, // Tip Pressure
        0x09, 0x48, 0x15, 0x00, 0x25, 0xff, 0x75, 0x08, 0x95, 0x01, 0x81, 0x02, 0xc0,
    ];
    let mut descriptor = vec![0x05, 0x0d, 0x09, 0x04, 0xa1, 0x01];
    descriptor.extend_from_slice(&contact);
    descriptor.extend_from_slice(&contact);
    descriptor.extend_from_slice(&[
        0x09, 0x54, 0x15, 0x00, 0x25, 0x02, 0x75, 0x08, 0x95, 0x01, 0x81, 0x02, 0xc0,
    ]);
    descriptor
}

#[test]
fn parses_and_decodes_repeated_contacts_with_identifiers() {
    let layout =
        parse_touch_layout(&repeated_contact_descriptor()).expect("valid touch layout");
    assert_eq!(layout.contact_capacity(), 2);
    assert_eq!(layout.contact_ids.len(), 2);
    assert_eq!(layout.pressure.len(), 2);
    assert_eq!(layout.touch_major.len(), 2);

    let report = [
        0x01, 0x0b, 0x34, 0x02, 0x78, 0x01, 0x1e, 0x06, // id 11
        0x01, 0x15, 0xcd, 0x03, 0x56, 0x04, 0x2a, 0x08, // id 21
        0x02,
    ];
    let contacts = decode_contacts(&report, &layout).expect("complete report");
    assert_eq!(contacts.len(), 2);
    assert_eq!(contacts[0].hardware_id, Some(11));
    assert_eq!(contacts[0].x, 0x234);
    assert_eq!(contacts[0].y, 0x178);
    assert_eq!(contacts[0].pressure, Some(30));
    assert_eq!(contacts[0].touch_major, Some(6));
    assert_eq!(contacts[1].hardware_id, Some(21));
    assert_eq!(contacts[1].x, 0x3cd);
    assert_eq!(contacts[1].y, 0x456);
}

#[test]
fn rejects_malformed_contact_records_and_falls_back_without_ids() {
    let mut layout =
        parse_touch_layout(&repeated_contact_descriptor()).expect("valid touch layout");
    let report = [
        0x01, 0x0b, 0x34, 0x02, 0x78, 0x01, 0x1e, 0x06, 0x00, 0x00, 0x00, 0x00, 0x00, 0x00,
        0x00, 0x00, 0x01,
    ];
    layout.contact_count = None;
    assert_eq!(
        decode_contacts(&report[..3], &layout),
        Err("goodix: malformed HID X field")
    );
    layout.contact_ids.clear();
    let contacts = decode_contacts(&report, &layout).expect("contact IDs are optional");
    assert_eq!(contacts.len(), 1);
    assert_eq!(contacts[0].hardware_id, None);
    assert_eq!(contacts[0].descriptor_slot, 0);
}

fn contact(descriptor_slot: usize, hardware_id: Option<i32>, x: i32, y: i32) -> HidContact {
    HidContact {
        descriptor_slot,
        hardware_id,
        x,
        y,
        pressure: Some(10),
        touch_major: None,
    }
}

#[test]
fn type_b_slots_keep_hardware_ids_across_move_lift_and_reuse() {
    let mut tracker = SlotTracker::new(2);
    let first = tracker.apply(&[
        contact(0, Some(41), 100, 200),
        contact(1, Some(77), 300, 400),
    ]);
    assert_eq!(first.updates.len(), 2);
    assert_eq!(first.updates[0].slot, 0);
    assert_eq!(first.updates[0].tracking_id, 1);
    assert_eq!(first.updates[0].contact.x, 100);
    assert!(first.updates[0].began);
    assert_eq!(first.updates[1].slot, 1);
    assert_eq!(first.updates[1].tracking_id, 2);
    assert!(first.releases.is_empty());
    assert!(first.any_contact);

    // The controller changed descriptor order, but IDs retain their slots.
    let moved = tracker.apply(&[
        contact(0, Some(77), 305, 405),
        contact(1, Some(41), 105, 205),
    ]);
    assert_eq!(moved.updates[0].slot, 1);
    assert_eq!(moved.updates[1].slot, 0);
    assert!(!moved.updates[0].began);
    assert!(!moved.updates[1].began);

    let one_lifted = tracker.apply(&[contact(0, Some(77), 310, 410)]);
    assert_eq!(one_lifted.updates[0].slot, 1);
    assert_eq!(one_lifted.releases, vec![0]);

    let reused = tracker.apply(&[
        contact(0, Some(77), 315, 415),
        contact(1, Some(99), 500, 600),
    ]);
    assert_eq!(reused.updates[0].slot, 1);
    assert!(!reused.updates[0].began);
    assert_eq!(reused.updates[1].slot, 0);
    assert!(reused.updates[1].began);
    assert_eq!(reused.updates[1].tracking_id, 3);
}

#[test]
fn descriptor_slots_are_deterministic_without_hardware_contact_ids() {
    let mut tracker = SlotTracker::new(2);
    let first = tracker.apply(&[contact(0, None, 10, 20), contact(1, None, 30, 40)]);
    assert_eq!(first.updates[0].slot, 0);
    assert_eq!(first.updates[1].slot, 1);

    let moved = tracker.apply(&[contact(0, None, 11, 21), contact(1, None, 31, 41)]);
    assert_eq!(moved.updates[0].slot, 0);
    assert_eq!(moved.updates[1].slot, 1);
    assert!(!moved.updates[0].began);
    assert!(!moved.updates[1].began);
}

#[test]
fn no_contact_frame_releases_every_slot_and_clears_touch_state() {
    let mut tracker = SlotTracker::new(2);
    tracker.apply(&[contact(0, Some(1), 10, 20), contact(1, Some(2), 30, 40)]);
    let released = tracker.apply(&[]);
    assert!(released.updates.is_empty());
    assert_eq!(released.releases, vec![0, 1]);
    assert_eq!(released.primary, None);
    assert!(!released.any_contact);
}

#[test]
fn parses_touch_fields_from_hid_report_descriptor() {
    let descriptor = [
        0x05, 0x0d, 0x09, 0x04, 0xa1, 0x01, 0x85, 0x01, 0x09, 0x42, 0x15, 0x00, 0x25, 0x01,
        0x75, 0x01, 0x95, 0x01, 0x81, 0x02, 0x75, 0x07, 0x95, 0x01, 0x81, 0x03, 0x05, 0x01,
        0x09, 0x30, 0x09, 0x31, 0x16, 0x00, 0x00, 0x26, 0xff, 0x0f, 0x75, 0x10, 0x95, 0x02,
        0x81, 0x02, 0xc0,
    ];
    let layout = parse_touch_layout(&descriptor).expect("valid touch layout");
    assert_eq!(layout.report_id, 1);
    assert_eq!(layout.tips[0].bit_offset, 8);
    assert_eq!(layout.x[0].bit_offset, 16);
    assert_eq!(layout.y[0].bit_offset, 32);
    assert_eq!(layout.x[0].logical_minimum, 0);
    assert_eq!(layout.x[0].logical_maximum, 4095);
}

#[test]
fn parses_signed_and_nonzero_logical_ranges() {
    let descriptor = [
        0x05, 0x0d, 0x09, 0x04, 0xa1, 0x01, 0x09, 0x42, 0x15, 0x00, 0x25, 0x01, 0x75, 0x01,
        0x95, 0x01, 0x81, 0x02, 0x75, 0x07, 0x95, 0x01, 0x81, 0x03, 0x05, 0x01, 0x09, 0x30,
        0x16, 0x00, 0xff, 0x26, 0xff, 0x00, 0x75, 0x10, 0x95, 0x01, 0x81, 0x02, 0x09, 0x31,
        0x15, 0x0a, 0x25, 0xff, 0x75, 0x08, 0x95, 0x01, 0x81, 0x02, 0xc0,
    ];
    let layout = parse_touch_layout(&descriptor).expect("valid signed touch layout");
    assert_eq!(layout.x[0].logical_minimum, -256);
    assert_eq!(layout.x[0].logical_maximum, 255);
    assert_eq!(layout.y[0].logical_minimum, 10);
    assert_eq!(layout.y[0].logical_maximum, 255);
}

#[test]
fn extracts_unaligned_hid_fields() {
    let report = [0b1010_1100, 0b0000_0011];
    let field = HidField {
        report_id: 0,
        bit_offset: 3,
        bit_size: 7,
        logical_minimum: 0,
        logical_maximum: 0x7f,
    };
    assert_eq!(extract_bits(&report, field), Some(0x75));
}

#[test]
fn raw_bit_extraction_stays_unsigned_but_logical_values_are_signed() {
    let field = HidField {
        report_id: 0,
        bit_offset: 0,
        bit_size: 16,
        logical_minimum: -256,
        logical_maximum: 255,
    };
    let report = 0xff80u16.to_le_bytes();
    assert_eq!(extract_bits(&report, field), Some(0xff80));
    assert_eq!(extract_logical_value(&report, field), Some(-128));
}

#[test]
fn rejects_legacy_or_non_touch_hid_descriptors() {
    assert!(parse_touch_layout(&[0x05, 0x01, 0x09, 0x02]).is_err());
    let pen_descriptor = [
        0x05, 0x0d, 0x09, 0x02, 0xa1, 0x01, // Digitizer Pen application
        0x85, 0x07, 0x09, 0x42, 0x75, 0x01, 0x95, 0x01, 0x81, 0x02, 0x75, 0x07, 0x95, 0x01,
        0x81, 0x03, 0x05, 0x01, 0x09, 0x30, 0x09, 0x31, 0x75, 0x10, 0x95, 0x02, 0x81, 0x02,
        0xc0,
    ];
    assert!(parse_touch_layout(&pen_descriptor).is_err());
}

#[test]
fn encodes_i2c_hid_power_and_reset_commands_little_endian() {
    assert_eq!(
        encode_simple_command(0x1234, 0x08),
        [0x34, 0x12, 0x00, 0x08]
    );
    assert_eq!(
        encode_simple_command(0x1234, 0x01),
        [0x34, 0x12, 0x00, 0x01]
    );
}

#[test]
fn recognizes_zero_length_reset_completion() {
    assert_eq!(decode_input_length(&[0x00, 0x00, 0xaa, 0xbb]), Some(0));
    assert_eq!(decode_input_length(&[0x06, 0x00, 1, 2, 3, 4]), Some(6));
    assert_eq!(decode_input_length(&[0x00]), None);
}

#[test]
fn rejects_oversized_report_fields_and_total_reports() {
    let oversized_touch_size = [
        0x05, 0x0d, 0x09, 0x04, 0xa1, 0x01, 0x09, 0x42, 0x75, 33, 0x95, 0x01, 0x81, 0x02,
    ];
    assert_eq!(
        parse_touch_layout(&oversized_touch_size).map(|_| ()),
        Err("goodix: HID touch field size exceeds limit")
    );
    let oversized_count = [
        0x05, 0x0d, 0x09, 0x04, 0xa1, 0x01, 0x75, 0x00, 0x96, 0x01, 0x10, 0x81, 0x03,
    ];
    assert_eq!(
        parse_touch_layout(&oversized_count).map(|_| ()),
        Err("goodix: HID input field count exceeds limit")
    );
    let oversized_report = [
        0x05, 0x0d, 0x09, 0x04, 0xa1, 0x01, 0x75, 0x20, 0x95, 0x81, 0x09, 0x42, 0x81, 0x02,
    ];
    assert_eq!(
        parse_touch_layout(&oversized_report).map(|_| ()),
        Err("goodix: HID input report exceeds limit")
    );
    let logical_maximum_above_i32 = [
        0x05, 0x0d, 0x09, 0x04, 0xa1, 0x01, 0x09, 0x42, 0x15, 0x00, 0x27, 0xff, 0xff, 0xff,
        0xff, 0x75, 0x01, 0x95, 0x01, 0x81, 0x02, 0xc0,
    ];
    assert_eq!(
        parse_touch_layout(&logical_maximum_above_i32).map(|_| ()),
        Err("goodix: HID logical maximum exceeds i32")
    );
}

#[test]
fn skips_large_feature_and_non_touch_fields_before_valid_touch_report() {
    let descriptor = [
        // A 128-bit vendor Feature must not constrain touch extraction.
        0x06, 0x00, 0xff, 0x09, 0x01, 0xa1, 0x01, 0x75, 0x80, 0x95, 0x01, 0x09, 0x02, 0xb1,
        0x02, 0xc0,
        // A bounded 64-bit vendor Input contributes to report ID 1's
        // offset, but is not itself materialized as an extractable field.
        0x06, 0x00, 0xff, 0x09, 0x03, 0xa1, 0x01, 0x85, 0x01, 0x75, 0x40, 0x95, 0x01, 0x09,
        0x04, 0x81, 0x02, 0xc0,
        // Valid touchscreen fields follow in the same report.
        0x05, 0x0d, 0x09, 0x04, 0xa1, 0x01, 0x85, 0x01, 0x09, 0x42, 0x15, 0x00, 0x25, 0x01,
        0x75, 0x01, 0x95, 0x01, 0x81, 0x02, 0x75, 0x07, 0x95, 0x01, 0x81, 0x03, 0x05, 0x01,
        0x09, 0x30, 0x09, 0x31, 0x16, 0x00, 0x00, 0x26, 0xff, 0x0f, 0x75, 0x10, 0x95, 0x02,
        0x81, 0x02, 0xc0,
    ];
    let layout = parse_touch_layout(&descriptor).expect("valid touch after vendor fields");
    assert_eq!(layout.report_id, 1);
    assert_eq!(layout.tips[0].bit_offset, 72);
    assert_eq!(layout.x[0].bit_offset, 80);
    assert_eq!(layout.y[0].bit_offset, 96);
    assert_eq!(layout.x[0].bit_size, 16);
}

#[test]
fn touches_are_numbered_and_left_in_order() {
    let mut tracker = SlotTracker::new(3);
    let frames = [
        vec![contact(0, Some(5), 1, 1), contact(1, Some(6), 2, 2), contact(2, Some(7), 3, 3)],
        vec![contact(0, Some(6), 4, 4)],
        vec![contact(0, Some(8), 5, 5), contact(1, Some(6), 6, 6), contact(2, Some(9), 7, 7)],
        vec![contact(0, Some(10), 8, 8)],
    ];
    let seen: Vec<(Vec<(usize, i32, bool, i32)>, Vec<usize>)> = frames
        .iter()
        .map(|frame| {
            let frame = tracker.apply(frame);
            let updates = frame
                .updates
                .iter()
                .map(|update| (update.slot, update.tracking_id, update.began, update.contact.x))
                .collect();
            (updates, frame.releases)
        })
        .collect();
    assert_eq!(
        seen,
        vec![
            (vec![(0, 1, true, 1), (1, 2, true, 2), (2, 3, true, 3)], vec![]),
            (vec![(1, 2, false, 4)], vec![0, 2]),
            (vec![(0, 4, true, 5), (1, 2, false, 6), (2, 5, true, 7)], vec![]),
            // No slot is free while its touch may still come in this frame.
            (vec![], vec![0, 1, 2]),
        ]
    );
    let last = tracker.apply(&[contact(0, Some(10), 9, 9)]);
    assert_eq!((last.updates[0].slot, last.updates[0].tracking_id), (0, 6));
}

#[test]
fn contacts_without_a_slot_are_left_out() {
    let mut tracker = SlotTracker::new(1);
    let frame = tracker.apply(&[contact(0, Some(1), 1, 1), contact(1, Some(2), 2, 2)]);
    assert_eq!(frame.updates.len(), 1);
    assert_eq!(frame.updates[0].contact.x, 1);
    // The slot goes on with its touch, whatever comes before it in the list.
    let frame = tracker.apply(&[contact(1, Some(2), 2, 2), contact(0, Some(1), 3, 3)]);
    assert_eq!(frame.updates.len(), 1);
    assert_eq!(frame.updates[0].contact.x, 3);
    assert!(!frame.updates[0].began);
    assert!(frame.releases.is_empty());
}

#[test]
fn the_fields_of_a_layout_share_no_bit() {
    let layout = parse_touch_layout(&repeated_contact_descriptor()).unwrap();
    let mut all: Vec<&HidField> = Vec::new();
    for list in [
        &layout.tips,
        &layout.contact_ids,
        &layout.x,
        &layout.y,
        &layout.pressure,
        &layout.touch_major,
    ] {
        assert!(list.windows(2).all(|two| two[0].bit_offset + two[0].bit_size <= two[1].bit_offset));
        all.extend(list.iter());
    }
    all.extend(layout.contact_count.iter());
    assert_eq!(all.len(), 13);
    all.sort_by_key(|field| field.bit_offset);
    assert!(all.windows(2).all(|two| two[0].bit_offset + two[0].bit_size <= two[1].bit_offset));
}

#[test]
fn short_items_and_signs() {
    assert_eq!(little_endian_item(&[]), 0);
    assert_eq!(little_endian_item(&[1, 2, 3]), 0x03_0201);
    assert_eq!(little_endian_item(&[1, 2, 3, 4]), 0x0403_0201);
    assert_eq!(sign_extend_item(0x180, 1), -0x80);
    assert_eq!(sign_extend_item(0x8000, 2), -0x8000);
    assert_eq!(sign_extend_item(u32::MAX, 4), -1);
    assert_eq!(sign_extend_item(u32::MAX, 0), 0);
    assert_eq!(sign_extend_bits(0b1111, 4), -1);
    assert_eq!(sign_extend_bits(0b1_0111, 4), 7);
    assert_eq!(sign_extend_bits(0x8000_0000, 32), i32::MIN);
}
