//! Chrome EC USB precision-touchpad support for detachable Chromebook bases.
//!
//! The USB identity, interface layout, report format, and stable reconnect
//! policy are held here. The USB host layer only configures a claimed
//! interrupt-IN endpoint and forwards its payloads.

use vstd::prelude::*;

use crate::bytes::{first_index, first_index_is_first};
use crate::input::{
    push_event, AbsoluteAxis, InputEvent, ABS_MT_POSITION_X, ABS_MT_POSITION_Y, ABS_MT_PRESSURE,
    ABS_MT_SLOT, ABS_MT_TOUCH_MAJOR, ABS_MT_TRACKING_ID, BTN_LEFT, BTN_TOUCH, EV_ABS, EV_KEY,
    EV_REL, EV_SYN, KEY_PRESS, KEY_RELEASE, REL_X, REL_Y, SYN_REPORT,
};

pub mod laws;

verus! {

pub const GOOGLE_VENDOR_ID: u16 = 0x18d1;

pub const ZED_PRODUCT_ID: u16 = 0x504c;

pub const HID_CLASS: u8 = 0x03;

pub const TOUCHPAD_INTERFACE: u8 = 2;

pub const TOUCHPAD_ENDPOINT: u8 = 0x83;

pub const REPORT_ID: u8 = 0x01;

pub const REPORT_SIZE: usize = 44;

pub const FINGER_COUNT: usize = 5;

pub const FINGER_SIZE: usize = 8;

pub const FINGERS_OFFSET: usize = 1;

pub const COUNT_BUTTON_OFFSET: usize = 41;

pub const POINTER_SCALE: i32 = 2;

pub const MT_TRACKING_ID_RELEASE: i32 = -1;

pub const COORDINATE_MAX: i32 = 0x0fff;

pub const PRESSURE_MAX: i32 = 0x01ff;

pub const TOUCH_MAJOR_MAX: i32 = 0x0fff;

/// One contact record: a stable 4-bit identifier, 12-bit coordinates and
/// sizes, and a 9-bit pressure.
#[derive(Clone, Copy, Debug, Eq, PartialEq, Structural)]
pub struct Contact {
    pub id: u8,
    pub active: bool,
    pub pressure: u16,
    pub width: u16,
    pub height: u16,
    pub x: u16,
    pub y: u16,
}

#[derive(Debug)]
pub struct TouchReport {
    pub contacts: Vec<Contact>,
    pub button_pressed: bool,
}

/// What is remembered between reports. A slot holds the identifier of the
/// contact that occupies it.
#[derive(Debug)]
pub struct PointerState {
    pub last_contact: Option<(u8, u16, u16)>,
    pub remainder_x: i32,
    pub remainder_y: i32,
    pub button_pressed: bool,
    pub slots: [Option<u8>; 5],
}

#[verifier::ext_equal]
pub struct PointerView {
    pub last_contact: Option<(u8, u16, u16)>,
    pub remainder_x: int,
    pub remainder_y: int,
    pub button_pressed: bool,
    pub slots: Seq<Option<u8>>,
}

impl View for PointerState {
    type V = PointerView;

    open spec fn view(&self) -> PointerView {
        PointerView {
            last_contact: self.last_contact,
            remainder_x: self.remainder_x as int,
            remainder_y: self.remainder_y as int,
            button_pressed: self.button_pressed,
            slots: self.slots@,
        }
    }
}

/// No identifier occupies two slots.
pub open spec fn slots_distinct(slots: Seq<Option<u8>>) -> bool {
    forall|i: int, j: int|
        #![trigger slots[i], slots[j]]
        0 <= i < j < slots.len() && slots[i] is Some ==> slots[i] != slots[j]
}

impl PointerView {
    pub open spec fn wf(self) -> bool {
        &&& self.slots.len() == FINGER_COUNT
        &&& slots_distinct(self.slots)
        &&& -POINTER_SCALE < self.remainder_x < POINTER_SCALE
        &&& -POINTER_SCALE < self.remainder_y < POINTER_SCALE
    }

    /// Nothing touched, nothing pressed.
    pub open spec fn idle() -> PointerView {
        PointerView {
            last_contact: None,
            remainder_x: 0,
            remainder_y: 0,
            button_pressed: false,
            slots: Seq::new(FINGER_COUNT as nat, |i: int| None),
        }
    }
}

impl Default for PointerState {
    fn default() -> (r: PointerState)
        ensures
            r@ == PointerView::idle(),
            r@.wf(),
    {
        let r = PointerState {
            last_contact: None,
            remainder_x: 0,
            remainder_y: 0,
            button_pressed: false,
            slots: [None, None, None, None, None],
        };
        assert(r@ =~= PointerView::idle());
        r
    }
}

// Reports.

/// The little-endian value of the eight bytes of one contact record.
pub open spec fn finger_word(report: Seq<u8>, index: int) -> int {
    let at = FINGERS_OFFSET + index * FINGER_SIZE;
    report[at] + 0x100 * report[at + 1] + 0x1_0000 * report[at + 2] + 0x100_0000 * report[at + 3]
        + 0x1_0000_0000 * report[at + 4] + 0x100_0000_0000 * report[at + 5] + 0x1_0000_0000_0000
        * report[at + 6] + 0x100_0000_0000_0000 * report[at + 7]
}

/// A record's fields, from the low bits up: confidence, tip and in-range
/// flags, identifier, pressure, width, height, x and y.
pub open spec fn contact_of(word: int) -> Contact {
    Contact {
        id: (word / 0x8 % 0x10) as u8,
        active: word % 8 == 7,
        pressure: (word / 0x80 % 0x200) as u16,
        width: (word / 0x1_0000 % 0x1000) as u16,
        height: (word / 0x1000_0000 % 0x1000) as u16,
        x: (word / 0x100_0000_0000 % 0x1000) as u16,
        y: (word / 0x10_0000_0000_0000 % 0x1000) as u16,
    }
}

pub open spec fn has_header(report: Seq<u8>) -> bool {
    report.len() >= REPORT_SIZE && report[0] == REPORT_ID
}

pub open spec fn contact_count(report: Seq<u8>) -> int {
    report[COUNT_BUTTON_OFFSET as int] as int % 0x80
}

/// The first `count` contact records of a report.
pub open spec fn report_contacts(report: Seq<u8>, count: int) -> Seq<Contact> {
    Seq::new(count as nat, |i: int| contact_of(finger_word(report, i)))
}

pub open spec fn ids_distinct(contacts: Seq<Contact>) -> bool {
    forall|i: int, j: int|
        #![trigger contacts[i], contacts[j]]
        0 <= i < j < contacts.len() ==> contacts[i].id != contacts[j].id
}

/// Why a report is refused, if it is.
pub open spec fn report_fault(report: Seq<u8>) -> Option<&'static str> {
    if !has_header(report) {
        Some("chrome-ec-usb-touchpad: malformed input report")
    } else if contact_count(report) > FINGER_COUNT {
        Some("chrome-ec-usb-touchpad: invalid contact count")
    } else if !ids_distinct(report_contacts(report, contact_count(report))) {
        Some("chrome-ec-usb-touchpad: duplicate contact identifier")
    } else {
        None
    }
}

pub fn has_touchpad_report_header(report: &[u8]) -> (r: bool)
    ensures
        r == has_header(report@),
{
    report.len() >= REPORT_SIZE && report[0] == REPORT_ID
}

fn decode_contact(report: &[u8], index: usize) -> (r: Contact)
    requires
        index < FINGER_COUNT,
        report@.len() >= REPORT_SIZE,
    ensures
        r == contact_of(finger_word(report@, index as int)),
        r.id < 16,
{
    let at: usize = FINGERS_OFFSET + index * FINGER_SIZE;
    let word: u64 = report[at] as u64 + report[at + 1] as u64 * 0x100 + report[at + 2] as u64
        * 0x1_0000 + report[at + 3] as u64 * 0x100_0000 + report[at + 4] as u64 * 0x1_0000_0000
        + report[at + 5] as u64 * 0x100_0000_0000 + report[at + 6] as u64 * 0x1_0000_0000_0000
        + report[at + 7] as u64 * 0x100_0000_0000_0000;
    Contact {
        id: (word / 0x8 % 0x10) as u8,
        active: word % 8 == 7,
        pressure: (word / 0x80 % 0x200) as u16,
        width: (word / 0x1_0000 % 0x1000) as u16,
        height: (word / 0x1000_0000 % 0x1000) as u16,
        x: (word / 0x100_0000_0000 % 0x1000) as u16,
        y: (word / 0x10_0000_0000_0000 % 0x1000) as u16,
    }
}

/// Decodes a report. Fewer contacts than the report has room for may be
/// counted; no two may share an identifier.
pub fn decode_touch_report(report: &[u8]) -> (r: Result<TouchReport, &'static str>)
    ensures
        match r {
            Ok(decoded) => {
                &&& report_fault(report@) is None
                &&& decoded.contacts@ == report_contacts(report@, contact_count(report@))
                &&& decoded.button_pressed == (report@[COUNT_BUTTON_OFFSET as int] >= 0x80)
            },
            Err(e) => report_fault(report@) == Some(e),
        },
{
    if !has_touchpad_report_header(report) {
        return Err("chrome-ec-usb-touchpad: malformed input report");
    }
    let count: usize = (report[COUNT_BUTTON_OFFSET] % 0x80) as usize;
    if count > FINGER_COUNT {
        return Err("chrome-ec-usb-touchpad: invalid contact count");
    }
    let ghost all = report_contacts(report@, count as int);
    let mut contacts: Vec<Contact> = Vec::new();
    let mut ids_seen: Vec<bool> = vec![false; 16];
    let mut index: usize = 0;
    while index < count
        invariant
            index <= count <= FINGER_COUNT,
            has_header(report@),
            count == contact_count(report@),
            all == report_contacts(report@, count as int),
            contacts@ == all.take(index as int),
            ids_distinct(contacts@),
            ids_seen@.len() == 16,
            forall|id: int|
                0 <= id < 16 ==> (#[trigger] ids_seen@[id] <==> exists|i: int|
                    0 <= i < contacts@.len() && (#[trigger] contacts@[i]).id == id),
        decreases count - index,
    {
        let contact = decode_contact(report, index);
        assert(all[index as int] == contact);
        if ids_seen[contact.id as usize] {
            proof {
                let i = choose|i: int|
                    0 <= i < contacts@.len() && (#[trigger] contacts@[i]).id == contact.id;
                assert(all[i].id == all[index as int].id);
            }
            return Err("chrome-ec-usb-touchpad: duplicate contact identifier");
        }
        let ghost before = contacts@;
        let ghost seen = ids_seen@;
        ids_seen.set(contact.id as usize, true);
        contacts.push(contact);
        proof {
            assert(contacts@ =~= all.take(index + 1));
            assert forall|id: int| 0 <= id < 16 implies (#[trigger] ids_seen@[id] <==> exists|i: int|
                0 <= i < contacts@.len() && (#[trigger] contacts@[i]).id == id) by {
                if id == contact.id {
                    assert(contacts@[index as int].id == id);
                } else {
                    if seen[id] {
                        let i = choose|i: int|
                            0 <= i < before.len() && (#[trigger] before[i]).id == id;
                        assert(contacts@[i].id == id);
                    }
                    if exists|i: int| 0 <= i < contacts@.len() && (#[trigger] contacts@[i]).id == id {
                        let i = choose|i: int|
                            0 <= i < contacts@.len() && (#[trigger] contacts@[i]).id == id;
                        assert(before[i].id == id);
                    }
                }
            }
        }
        index += 1;
    }
    assert(contacts@ =~= all);
    Ok(TouchReport { contacts, button_pressed: report[COUNT_BUTTON_OFFSET] >= 0x80 })
}

// Frames.

/// An active contact of this list carries `id`.
pub open spec fn is_held(contacts: Seq<Contact>, id: u8) -> bool {
    exists|i: int|
        0 <= i < contacts.len() && (#[trigger] contacts[i]).active && contacts[i].id == id
}

/// Occupied by a contact that is no longer held.
pub open spec fn is_lifted(slots: Seq<Option<u8>>, contacts: Seq<Contact>, slot: int) -> bool {
    slots[slot] is Some && !is_held(contacts, slots[slot]->Some_0)
}

/// The slots once every contact that is no longer held has left.
pub open spec fn released(slots: Seq<Option<u8>>, contacts: Seq<Contact>) -> Seq<Option<u8>> {
    Seq::new(
        slots.len(),
        |i: int|
            if is_lifted(slots, contacts, i) {
                None
            } else {
                slots[i]
            },
    )
}

/// The events that release one slot.
pub open spec fn release_of(slot: int) -> Seq<InputEvent> {
    seq![
        (EV_ABS, ABS_MT_SLOT, slot as i32),
        (EV_ABS, ABS_MT_TRACKING_ID, MT_TRACKING_ID_RELEASE),
    ]
}

/// The releases among the first `count` slots, in slot order.
pub open spec fn release_events(
    slots: Seq<Option<u8>>,
    contacts: Seq<Contact>,
    count: int,
) -> Seq<InputEvent>
    decreases count,
{
    if count <= 0 {
        Seq::empty()
    } else {
        release_events(slots, contacts, count - 1) + if is_lifted(slots, contacts, count - 1) {
            release_of(count - 1)
        } else {
            Seq::empty()
        }
    }
}

pub open spec fn occupied_by(id: u8) -> spec_fn(Option<u8>) -> bool {
    |s: Option<u8>| s == Some(id)
}

pub open spec fn is_free() -> spec_fn(Option<u8>) -> bool {
    |s: Option<u8>| s is None
}

/// The slot that a contact occupies already, or else the first free one.
pub open spec fn slot_for(slots: Seq<Option<u8>>, id: u8) -> Option<int> {
    match first_index(slots, occupied_by(id), 0) {
        Some(slot) => Some(slot),
        None => first_index(slots, is_free(), 0),
    }
}

/// The events of one contact in its slot; a new one starts with its
/// tracking identifier.
pub open spec fn contact_events(contact: Contact, slot: int, is_new: bool) -> Seq<InputEvent> {
    seq![(EV_ABS, ABS_MT_SLOT, slot as i32)] + (if is_new {
        seq![(EV_ABS, ABS_MT_TRACKING_ID, contact.id as i32)]
    } else {
        Seq::empty()
    }) + seq![
        (EV_ABS, ABS_MT_POSITION_X, contact.x as i32),
        (EV_ABS, ABS_MT_POSITION_Y, contact.y as i32),
        (EV_ABS, ABS_MT_PRESSURE, contact.pressure as i32),
        (
            EV_ABS,
            ABS_MT_TOUCH_MAJOR,
            if contact.width >= contact.height {
                contact.width as i32
            } else {
                contact.height as i32
            },
        ),
    ]
}

/// Where the contacts of a list end up. `full` marks a list that ran out of
/// slots; what was placed before that stays placed.
#[verifier::ext_equal]
pub struct Placement {
    pub slots: Seq<Option<u8>>,
    pub events: Seq<InputEvent>,
    pub full: bool,
}

/// Adds one contact to a placement. An inactive one changes nothing.
pub open spec fn place(before: Placement, contact: Contact) -> Placement {
    if before.full || !contact.active {
        before
    } else {
        match slot_for(before.slots, contact.id) {
            None => Placement { full: true, ..before },
            Some(slot) => Placement {
                slots: before.slots.update(slot, Some(contact.id)),
                events: before.events + contact_events(contact, slot, before.slots[slot] is None),
                full: false,
            },
        }
    }
}

/// Places the contacts of a list one after the other.
pub open spec fn placed(slots: Seq<Option<u8>>, contacts: Seq<Contact>) -> Placement
    decreases contacts.len(),
{
    if contacts.len() == 0 {
        Placement { slots, events: Seq::empty(), full: false }
    } else {
        place(placed(slots, contacts.drop_last()), contacts.last())
    }
}

pub open spec fn any_occupied(slots: Seq<Option<u8>>) -> bool {
    exists|i: int| 0 <= i < slots.len() && (#[trigger] slots[i]) is Some
}

/// A key event where its state changes.
pub open spec fn key_change(code: u16, before: bool, after: bool) -> Seq<InputEvent> {
    if before == after {
        Seq::empty()
    } else {
        seq![
            (
                EV_KEY,
                code,
                if after {
                    KEY_PRESS
                } else {
                    KEY_RELEASE
                },
            ),
        ]
    }
}

pub open spec fn is_active() -> spec_fn(Contact) -> bool {
    |c: Contact| c.active
}

/// The contact that moves the pointer: the first active one.
pub open spec fn pointer_contact(contacts: Seq<Contact>) -> Option<(u8, u16, u16)> {
    match first_index(contacts, is_active(), 0) {
        Some(i) => Some((contacts[i].id, contacts[i].x, contacts[i].y)),
        None => None,
    }
}

/// Division that rounds toward zero.
pub open spec fn toward_zero(value: int, divisor: int) -> int {
    if value >= 0 {
        value / divisor
    } else {
        -((-value) / divisor)
    }
}

/// How far the pointer contact moved, in coordinate steps and with what was
/// left over before. It moved only if the same contact moved it last time.
pub open spec fn travel(state: PointerView, contact: Option<(u8, u16, u16)>) -> Option<(int, int)> {
    match (contact, state.last_contact) {
        (Some((id, x, y)), Some((last_id, last_x, last_y))) => if id == last_id {
            Some((x - last_x + state.remainder_x, y - last_y + state.remainder_y))
        } else {
            None
        },
        _ => None,
    }
}

/// A relative event, where there is any motion.
pub open spec fn relative_event(code: u16, steps: int) -> Seq<InputEvent> {
    if steps == 0 {
        Seq::empty()
    } else {
        seq![(EV_REL, code, steps as i32)]
    }
}

pub open spec fn motion_events(moved: Option<(int, int)>) -> Seq<InputEvent> {
    match moved {
        None => Seq::empty(),
        Some((x, y)) => relative_event(REL_X, toward_zero(x, POINTER_SCALE as int))
            + relative_event(REL_Y, toward_zero(y, POINTER_SCALE as int)),
    }
}

/// What is left of a distance once whole pointer steps are taken out.
pub open spec fn left_over(distance: int) -> int {
    distance - POINTER_SCALE * toward_zero(distance, POINTER_SCALE as int)
}

pub open spec fn syn() -> InputEvent {
    (EV_SYN, SYN_REPORT, 0i32)
}

/// The placement of a report's contacts, after the releases.
pub open spec fn report_placement(state: PointerView, contacts: Seq<Contact>) -> Placement {
    placed(released(state.slots, contacts), contacts)
}

/// The events of one report. Releases come first, so that a frame that
/// replaces all contacts can reuse their slots at once.
pub open spec fn report_events(
    state: PointerView,
    contacts: Seq<Contact>,
    button: bool,
) -> Seq<InputEvent> {
    let placement = report_placement(state, contacts);
    release_events(state.slots, contacts, FINGER_COUNT as int) + placement.events + key_change(
        BTN_TOUCH,
        any_occupied(state.slots),
        any_occupied(placement.slots),
    ) + key_change(BTN_LEFT, state.button_pressed, button) + motion_events(
        travel(state, pointer_contact(contacts)),
    ) + seq![syn()]
}

/// The state after a report for which there were slots enough.
pub open spec fn after_report(
    state: PointerView,
    contacts: Seq<Contact>,
    button: bool,
) -> PointerView {
    let contact = pointer_contact(contacts);
    let moved = travel(state, contact);
    PointerView {
        last_contact: contact,
        remainder_x: if moved is Some {
            left_over(moved->Some_0.0)
        } else {
            0
        },
        remainder_y: if moved is Some {
            left_over(moved->Some_0.1)
        } else {
            0
        },
        button_pressed: button,
        slots: report_placement(state, contacts).slots,
    }
}

fn contact_is_held(contacts: &Vec<Contact>, id: u8) -> (r: bool)
    ensures
        r == is_held(contacts@, id),
{
    let mut i: usize = 0;
    while i < contacts.len()
        invariant
            i <= contacts@.len(),
            forall|j: int| 0 <= j < i ==> !((#[trigger] contacts@[j]).active && contacts@[j].id == id),
        decreases contacts@.len() - i,
    {
        if contacts[i].active && contacts[i].id == id {
            return true;
        }
        i += 1;
    }
    false
}

fn any_slot_occupied(slots: &[Option<u8>; 5]) -> (r: bool)
    ensures
        r == any_occupied(slots@),
{
    let mut i: usize = 0;
    while i < FINGER_COUNT
        invariant
            i <= FINGER_COUNT,
            slots@.len() == FINGER_COUNT,
            forall|j: int| 0 <= j < i ==> (#[trigger] slots@[j]) is None,
        decreases FINGER_COUNT - i,
    {
        if slots[i].is_some() {
            assert(slots@[i as int] is Some);
            return true;
        }
        i += 1;
    }
    false
}

/// The slot that `id` occupies, or else the first free one, and whether the
/// contact is new to it.
fn find_slot(slots: &[Option<u8>; 5], id: u8) -> (r: Option<(usize, bool)>)
    ensures
        match r {
            Some((slot, is_new)) => {
                &&& slot < FINGER_COUNT
                &&& slot_for(slots@, id) == Some(slot as int)
                &&& is_new == (slots@[slot as int] is None)
            },
            None => slot_for(slots@, id) is None,
        },
{
    proof {
        first_index_is_first(slots@, occupied_by(id), 0);
        first_index_is_first(slots@, is_free(), 0);
    }
    let mut free: Option<usize> = None;
    let mut i: usize = 0;
    while i < FINGER_COUNT
        invariant
            i <= FINGER_COUNT,
            slots@.len() == FINGER_COUNT,
            forall|j: int| 0 <= j < i ==> !occupied_by(id)(#[trigger] slots@[j]),
            match free {
                Some(f) => f < i && is_free()(slots@[f as int]) && (forall|j: int|
                    0 <= j < f ==> !is_free()(#[trigger] slots@[j])),
                None => forall|j: int| 0 <= j < i ==> !is_free()(#[trigger] slots@[j]),
            },
            match first_index(slots@, occupied_by(id), 0) {
                Some(i) => 0 <= i < slots@.len() && occupied_by(id)(slots@[i]) && (forall|j: int|
                    0 <= j < i ==> !occupied_by(id)(#[trigger] slots@[j])),
                None => forall|j: int|
                    0 <= j < slots@.len() ==> !occupied_by(id)(#[trigger] slots@[j]),
            },
            match first_index(slots@, is_free(), 0) {
                Some(i) => 0 <= i < slots@.len() && is_free()(slots@[i]) && (forall|j: int|
                    0 <= j < i ==> !is_free()(#[trigger] slots@[j])),
                None => forall|j: int| 0 <= j < slots@.len() ==> !is_free()(#[trigger] slots@[j]),
            },
        decreases FINGER_COUNT - i,
    {
        match slots[i] {
            Some(held) => {
                assert(slots@[i as int] == Some(held));
                if held == id {
                    assert(occupied_by(id)(slots@[i as int]));
                    return Some((i, false));
                }
            },
            None => {
                assert(is_free()(slots@[i as int]));
                if free.is_none() {
                    free = Some(i);
                }
            },
        }
        i += 1;
    }
    match free {
        Some(slot) => Some((slot, true)),
        None => None,
    }
}

/// Releases the slots whose contacts are no longer held.
fn release_lifted(
    slots: &mut [Option<u8>; 5],
    contacts: &Vec<Contact>,
    events: &mut Vec<InputEvent>,
)
    ensures
        final(slots)@ == released(old(slots)@, contacts@),
        final(events)@ == old(events)@ + release_events(
            old(slots)@,
            contacts@,
            FINGER_COUNT as int,
        ),
{
    let ghost before = slots@;
    let ghost head = events@;
    let mut slot: usize = 0;
    while slot < FINGER_COUNT
        invariant
            slot <= FINGER_COUNT,
            before.len() == FINGER_COUNT,
            slots@.len() == FINGER_COUNT,
            forall|i: int| 0 <= i < slot ==> slots@[i] == released(before, contacts@)[i],
            forall|i: int| slot <= i < FINGER_COUNT ==> slots@[i] == before[i],
            events@ == head + release_events(before, contacts@, slot as int),
        decreases FINGER_COUNT - slot,
    {
        if let Some(id) = slots[slot] {
            if !contact_is_held(contacts, id) {
                push_event(events, EV_ABS, ABS_MT_SLOT, slot as i32);
                push_event(events, EV_ABS, ABS_MT_TRACKING_ID, MT_TRACKING_ID_RELEASE);
                slots[slot] = None;
            }
        }
        slot += 1;
        assert(events@ =~= head + release_events(before, contacts@, slot as int));
    }
    assert(slots@ =~= released(before, contacts@));
}

/// Places every active contact; `false` where the slots ran out.
fn place_contacts(
    slots: &mut [Option<u8>; 5],
    contacts: &Vec<Contact>,
    events: &mut Vec<InputEvent>,
) -> (r: bool)
    ensures
        final(slots)@ == placed(old(slots)@, contacts@).slots,
        r == !placed(old(slots)@, contacts@).full,
        final(events)@ == old(events)@ + placed(old(slots)@, contacts@).events,
{
    let ghost before = slots@;
    let ghost head = events@;
    let mut index: usize = 0;
    assert(contacts@.take(0) =~= Seq::empty());
    assert(events@ =~= head + placed(before, contacts@.take(0)).events);
    while index < contacts.len()
        invariant
            index <= contacts@.len(),
            before == old(slots)@,
            head == old(events)@,
            slots@.len() == FINGER_COUNT,
            slots@ == placed(before, contacts@.take(index as int)).slots,
            !placed(before, contacts@.take(index as int)).full,
            events@ == head + placed(before, contacts@.take(index as int)).events,
        decreases contacts@.len() - index,
    {
        let contact = contacts[index];
        let ghost so_far = placed(before, contacts@.take(index as int));
        assert(contacts@.take(index + 1).drop_last() =~= contacts@.take(index as int));
        assert(placed(before, contacts@.take(index + 1)) == place(so_far, contact));
        if contact.active {
            match find_slot(slots, contact.id) {
                None => {
                    proof {
                        stays_full(before, contacts@, index + 1);
                    }
                    return false;
                },
                Some((slot, is_new)) => {
                    proof {
                        first_index_is_first(slots@, occupied_by(contact.id), 0);
                        first_index_is_first(slots@, is_free(), 0);
                    }
                    push_event(events, EV_ABS, ABS_MT_SLOT, slot as i32);
                    if is_new {
                        slots[slot] = Some(contact.id);
                        push_event(events, EV_ABS, ABS_MT_TRACKING_ID, contact.id as i32);
                    }
                    push_event(events, EV_ABS, ABS_MT_POSITION_X, contact.x as i32);
                    push_event(events, EV_ABS, ABS_MT_POSITION_Y, contact.y as i32);
                    push_event(events, EV_ABS, ABS_MT_PRESSURE, contact.pressure as i32);
                    let size: u16 = if contact.width >= contact.height {
                        contact.width
                    } else {
                        contact.height
                    };
                    push_event(events, EV_ABS, ABS_MT_TOUCH_MAJOR, size as i32);
                    assert(events@ =~= head + placed(before, contacts@.take(index + 1)).events);
                    assert(slots@ =~= placed(before, contacts@.take(index + 1)).slots);
                },
            }
        }
        index += 1;
    }
    assert(contacts@.take(contacts@.len() as int) =~= contacts@);
    true
}

/// Once the slots have run out, the rest of the list changes nothing.
proof fn stays_full(slots: Seq<Option<u8>>, contacts: Seq<Contact>, count: int)
    requires
        0 <= count <= contacts.len(),
        placed(slots, contacts.take(count)).full,
    ensures
        placed(slots, contacts) == placed(slots, contacts.take(count)),
    decreases contacts.len() - count,
{
    if count < contacts.len() {
        assert(contacts.take(count + 1).drop_last() =~= contacts.take(count));
        stays_full(slots, contacts, count + 1);
    } else {
        assert(contacts.take(count) =~= contacts);
    }
}

fn find_pointer_contact(contacts: &Vec<Contact>) -> (r: Option<(u8, u16, u16)>)
    ensures
        r == pointer_contact(contacts@),
{
    proof {
        first_index_is_first(contacts@, is_active(), 0);
    }
    let mut i: usize = 0;
    while i < contacts.len()
        invariant
            i <= contacts@.len(),
            first_index(contacts@, is_active(), 0) == first_index(contacts@, is_active(), i as int),
        decreases contacts@.len() - i,
    {
        let contact = contacts[i];
        if contact.active {
            return Some((contact.id, contact.x, contact.y));
        }
        i += 1;
    }
    None
}

/// Whole pointer steps in a distance, and what is left over.
fn pointer_steps(distance: i32) -> (r: (i32, i32))
    requires
        -0x2_0000 < distance < 0x2_0000,
    ensures
        r.0 == toward_zero(distance as int, POINTER_SCALE as int),
        r.1 == left_over(distance as int),
        -POINTER_SCALE < r.1 < POINTER_SCALE,
{
    if distance >= 0 {
        (distance / POINTER_SCALE, distance % POINTER_SCALE)
    } else {
        let positive: i32 = -distance;
        (-(positive / POINTER_SCALE), -(positive % POINTER_SCALE))
    }
}

fn push_key_change(events: &mut Vec<InputEvent>, code: u16, before: bool, after: bool)
    ensures
        final(events)@ == old(events)@ + key_change(code, before, after),
{
    let ghost head = events@;
    if before != after {
        push_event(
            events,
            EV_KEY,
            code,
            if after {
                KEY_PRESS
            } else {
                KEY_RELEASE
            },
        );
    }
    assert(events@ =~= head + key_change(code, before, after));
}

/// Turns one decoded report into input events. Contact identifiers, not
/// their places in the report, are the identity carried across frames. Where
/// the slots run out, the slots changed so far stay changed, the rest of the
/// state stays as it was, and no event is reported.
pub fn events_for_report(state: &mut PointerState, report: &TouchReport) -> (r: Result<
    Vec<InputEvent>,
    &'static str,
>)
    requires
        old(state)@.wf(),
    ensures
        final(state)@.wf(),
        match r {
            Ok(events) => {
                &&& !report_placement(old(state)@, report.contacts@).full
                &&& events@ == report_events(
                    old(state)@,
                    report.contacts@,
                    report.button_pressed,
                )
                &&& final(state)@ == after_report(
                    old(state)@,
                    report.contacts@,
                    report.button_pressed,
                )
            },
            Err(e) => {
                &&& e == "chrome-ec-usb-touchpad: no free multitouch slot"
                &&& report_placement(old(state)@, report.contacts@).full
                &&& final(state)@ == (PointerView {
                    slots: report_placement(old(state)@, report.contacts@).slots,
                    ..old(state)@
                })
            },
        },
{
    let ghost before = state@;
    let ghost contacts = report.contacts@;
    let ghost placement = report_placement(before, contacts);
    proof {
        released_stays_distinct(before.slots, contacts);
        placed_stays_distinct(released(before.slots, contacts), contacts);
    }
    let mut events: Vec<InputEvent> = Vec::new();
    let was_touching: bool = any_slot_occupied(&state.slots);
    release_lifted(&mut state.slots, &report.contacts, &mut events);
    if !place_contacts(&mut state.slots, &report.contacts, &mut events) {
        return Err("chrome-ec-usb-touchpad: no free multitouch slot");
    }
    let is_touching: bool = any_slot_occupied(&state.slots);
    push_key_change(&mut events, BTN_TOUCH, was_touching, is_touching);
    push_key_change(&mut events, BTN_LEFT, state.button_pressed, report.button_pressed);
    state.button_pressed = report.button_pressed;

    let contact = find_pointer_contact(&report.contacts);
    let mut steps: (i32, i32) = (0, 0);
    let mut left: (i32, i32) = (0, 0);
    if let (Some((id, x, y)), Some((last_id, last_x, last_y))) = (contact, state.last_contact) {
        if id == last_id {
            let along_x: (i32, i32) = pointer_steps(x as i32 - last_x as i32 + state.remainder_x);
            let along_y: (i32, i32) = pointer_steps(y as i32 - last_y as i32 + state.remainder_y);
            steps = (along_x.0, along_y.0);
            left = (along_x.1, along_y.1);
        }
    }
    state.remainder_x = left.0;
    state.remainder_y = left.1;
    state.last_contact = contact;
    let ghost head = events@;
    if steps.0 != 0 {
        push_event(&mut events, EV_REL, REL_X, steps.0);
    }
    if steps.1 != 0 {
        push_event(&mut events, EV_REL, REL_Y, steps.1);
    }
    assert(events@ =~= head + motion_events(travel(before, contact)));
    push_event(&mut events, EV_SYN, SYN_REPORT, 0);
    assert(events@ =~= report_events(before, contacts, report.button_pressed));
    assert(state@ =~= after_report(before, contacts, report.button_pressed));
    Ok(events)
}

/// Leaving slots keeps the others distinct.
pub(crate) proof fn released_stays_distinct(slots: Seq<Option<u8>>, contacts: Seq<Contact>)
    requires
        slots_distinct(slots),
    ensures
        slots_distinct(released(slots, contacts)),
        released(slots, contacts).len() == slots.len(),
{
}

/// Placing contacts keeps the slots distinct.
pub(crate) proof fn placed_stays_distinct(slots: Seq<Option<u8>>, contacts: Seq<Contact>)
    requires
        slots_distinct(slots),
    ensures
        slots_distinct(placed(slots, contacts).slots),
        placed(slots, contacts).slots.len() == slots.len(),
    decreases contacts.len(),
{
    if contacts.len() > 0 {
        placed_stays_distinct(slots, contacts.drop_last());
        let before = placed(slots, contacts.drop_last()).slots;
        first_index_is_first(before, occupied_by(contacts.last().id), 0);
        first_index_is_first(before, is_free(), 0);
    }
}

/// The events of a disconnect: every occupied slot, the touch and the button
/// are released.
pub open spec fn disconnect_events(state: PointerView) -> Seq<InputEvent> {
    release_events(state.slots, Seq::empty(), FINGER_COUNT as int) + key_change(
        BTN_TOUCH,
        any_occupied(state.slots),
        false,
    ) + key_change(BTN_LEFT, state.button_pressed, false) + seq![syn()]
}

/// Releases everything when the base is detached.
pub fn events_for_disconnect(state: &mut PointerState) -> (r: Vec<InputEvent>)
    ensures
        final(state)@ == PointerView::idle(),
        r@ == disconnect_events(old(state)@),
{
    let ghost before = state@;
    let none: Vec<Contact> = Vec::new();
    let mut events: Vec<InputEvent> = Vec::new();
    let was_touching: bool = any_slot_occupied(&state.slots);
    release_lifted(&mut state.slots, &none, &mut events);
    push_key_change(&mut events, BTN_TOUCH, was_touching, false);
    push_key_change(&mut events, BTN_LEFT, state.button_pressed, false);
    *state = PointerState::default();
    push_event(&mut events, EV_SYN, SYN_REPORT, 0);
    assert(none@ =~= Seq::empty());
    assert(events@ =~= disconnect_events(before));
    events
}

/// Decodes a raw report and turns it into input events. A refused report
/// changes nothing; a decoded one always finds its slots.
pub fn process_report(state: &mut PointerState, report: &[u8]) -> (r: Result<
    Vec<InputEvent>,
    &'static str,
>)
    requires
        old(state)@.wf(),
    ensures
        final(state)@.wf(),
        match r {
            Ok(events) => {
                let contacts = report_contacts(report@, contact_count(report@));
                let button = report@[COUNT_BUTTON_OFFSET as int] >= 0x80;
                &&& report_fault(report@) is None
                &&& events@ == report_events(old(state)@, contacts, button)
                &&& final(state)@ == after_report(old(state)@, contacts, button)
            },
            Err(e) => report_fault(report@) == Some(e) && final(state)@ == old(state)@,
        },
{
    let decoded = decode_touch_report(report)?;
    proof {
        distinct_contacts_always_fit(state@.slots, decoded.contacts@);
    }
    events_for_report(state, &decoded)
}

// Binding.

/// What identifies a USB device.
#[derive(Clone, Copy, Debug, Eq, PartialEq, Structural)]
pub struct UsbDeviceIdentity {
    pub vendor_id: u16,
    pub product_id: u16,
}

/// An interrupt-IN endpoint and the interface that it belongs to.
#[derive(Clone, Copy, Debug, Eq, PartialEq, Structural)]
pub struct UsbInterruptInEndpointInfo {
    pub interface_number: u8,
    pub alternate_setting: u8,
    pub interface_class: u8,
    pub interface_subclass: u8,
    pub interface_protocol: u8,
    pub endpoint_address: u8,
    pub max_packet_size: u16,
}

/// Where a USB device is plugged in.
#[derive(Clone, Copy, Debug, Eq, PartialEq, Structural)]
pub struct UsbDeviceLocation {
    pub host_id: usize,
    pub root_port_id: u8,
    pub route_string: u32,
}

/// The touchpad endpoint of the detachable base.
pub open spec fn is_touchpad(
    device: UsbDeviceIdentity,
    endpoint: UsbInterruptInEndpointInfo,
) -> bool {
    &&& device.vendor_id == GOOGLE_VENDOR_ID
    &&& device.product_id == ZED_PRODUCT_ID
    &&& endpoint.interface_number == TOUCHPAD_INTERFACE
    &&& endpoint.alternate_setting == 0
    &&& endpoint.interface_class == HID_CLASS
    &&& endpoint.interface_subclass == 0
    &&& endpoint.interface_protocol == 0
    &&& endpoint.endpoint_address == TOUCHPAD_ENDPOINT
    &&& endpoint.max_packet_size >= REPORT_SIZE
}

pub fn matches(device: &UsbDeviceIdentity, endpoint: &UsbInterruptInEndpointInfo) -> (r: bool)
    ensures
        r == is_touchpad(*device, *endpoint),
{
    device.vendor_id == GOOGLE_VENDOR_ID && device.product_id == ZED_PRODUCT_ID
        && endpoint.interface_number == TOUCHPAD_INTERFACE && endpoint.alternate_setting == 0
        && endpoint.interface_class == HID_CLASS && endpoint.interface_subclass == 0
        && endpoint.interface_protocol == 0 && endpoint.endpoint_address == TOUCHPAD_ENDPOINT
        && endpoint.max_packet_size as usize >= REPORT_SIZE
}

pub open spec fn located_at(location: UsbDeviceLocation) -> spec_fn(UsbDeviceLocation) -> bool {
    |l: UsbDeviceLocation| l == location
}

/// Binds a touchpad: the index of the device registered at its location, or
/// that of a new entry.
pub fn bind(
    registered: &mut Vec<UsbDeviceLocation>,
    device: &UsbDeviceIdentity,
    endpoint: &UsbInterruptInEndpointInfo,
    location: UsbDeviceLocation,
) -> (r: Result<usize, &'static str>)
    ensures
        match r {
            Ok(index) => {
                &&& is_touchpad(*device, *endpoint)
                &&& match first_index(old(registered)@, located_at(location), 0) {
                    Some(i) => index == i && final(registered)@ == old(registered)@,
                    None => index == old(registered)@.len() && final(registered)@ == old(
                        registered,
                    )@.push(location),
                }
            },
            Err(e) => {
                &&& !is_touchpad(*device, *endpoint)
                &&& e == "chrome-ec-usb-touchpad: descriptor mismatch during bind"
                &&& final(registered)@ == old(registered)@
            },
        },
{
    if !matches(device, endpoint) {
        return Err("chrome-ec-usb-touchpad: descriptor mismatch during bind");
    }
    let mut i: usize = 0;
    while i < registered.len()
        invariant
            i <= registered@.len(),
            registered@ == old(registered)@,
            is_touchpad(*device, *endpoint),
            first_index(registered@, located_at(location), 0) == first_index(
                registered@,
                located_at(location),
                i as int,
            ),
        decreases registered@.len() - i,
    {
        if registered[i] == location {
            return Ok(i);
        }
        i += 1;
    }
    registered.push(location);
    Ok(i)
}

/// The axes that the input device announces.
pub fn touchpad_axes() -> (r: Vec<AbsoluteAxis>)
    ensures
        r@ == seq![
            AbsoluteAxis { code: ABS_MT_SLOT, minimum: 0, maximum: (FINGER_COUNT - 1) as i32 },
            AbsoluteAxis { code: ABS_MT_POSITION_X, minimum: 0, maximum: COORDINATE_MAX },
            AbsoluteAxis { code: ABS_MT_POSITION_Y, minimum: 0, maximum: COORDINATE_MAX },
            AbsoluteAxis { code: ABS_MT_TRACKING_ID, minimum: 0, maximum: 0x0f },
            AbsoluteAxis { code: ABS_MT_PRESSURE, minimum: 0, maximum: PRESSURE_MAX },
            AbsoluteAxis { code: ABS_MT_TOUCH_MAJOR, minimum: 0, maximum: TOUCH_MAJOR_MAX },
        ],
{
    let mut axes: Vec<AbsoluteAxis> = Vec::new();
    axes.push(
        AbsoluteAxis { code: ABS_MT_SLOT, minimum: 0, maximum: (FINGER_COUNT - 1) as i32 },
    );
    axes.push(AbsoluteAxis { code: ABS_MT_POSITION_X, minimum: 0, maximum: COORDINATE_MAX });
    axes.push(AbsoluteAxis { code: ABS_MT_POSITION_Y, minimum: 0, maximum: COORDINATE_MAX });
    axes.push(AbsoluteAxis { code: ABS_MT_TRACKING_ID, minimum: 0, maximum: 0x0f });
    axes.push(AbsoluteAxis { code: ABS_MT_PRESSURE, minimum: 0, maximum: PRESSURE_MAX });
    axes.push(AbsoluteAxis { code: ABS_MT_TOUCH_MAJOR, minimum: 0, maximum: TOUCH_MAJOR_MAX });
    axes
}

// Laws.

/// While contacts of one list are placed, every occupied slot belongs to a
/// contact that the list holds.
proof fn placed_slots_are_held(
    slots: Seq<Option<u8>>,
    contacts: Seq<Contact>,
    count: int,
)
    requires
        0 <= count <= contacts.len(),
    ensures
        ({
            let now = placed(released(slots, contacts), contacts.take(count)).slots;
            &&& now.len() == slots.len()
            &&& forall|i: int|
                0 <= i < now.len() && (#[trigger] now[i]) is Some ==> is_held(
                    contacts,
                    now[i]->Some_0,
                )
        }),
    decreases count,
{
    if count > 0 {
        placed_slots_are_held(slots, contacts, count - 1);
        assert(contacts.take(count).drop_last() =~= contacts.take(count - 1));
        let before = placed(released(slots, contacts), contacts.take(count - 1));
        let contact = contacts[count - 1];
        assert(contacts.take(count).last() == contact);
        first_index_is_first(before.slots, occupied_by(contact.id), 0);
        first_index_is_first(before.slots, is_free(), 0);
        if contact.active {
            assert(is_held(contacts, contact.id));
        }
    }
}

/// With at most five contacts, all with identifiers of their own, every
/// active one finds a slot. Every report that decodes is of this kind.
pub proof fn distinct_contacts_always_fit(slots: Seq<Option<u8>>, contacts: Seq<Contact>)
    requires
        slots.len() == FINGER_COUNT,
        slots_distinct(slots),
        contacts.len() <= FINGER_COUNT,
        ids_distinct(contacts),
    ensures
        !placed(released(slots, contacts), contacts).full,
{
    prefix_fits(slots, contacts, contacts.len() as int);
    assert(contacts.take(contacts.len() as int) =~= contacts);
}

/// The position of the active contact that carries `id`.
spec fn holder(contacts: Seq<Contact>, id: u8) -> int {
    choose|i: int|
        0 <= i < contacts.len() && (#[trigger] contacts[i]).active && contacts[i].id == id
}

proof fn prefix_fits(slots: Seq<Option<u8>>, contacts: Seq<Contact>, count: int)
    requires
        slots.len() == FINGER_COUNT,
        slots_distinct(slots),
        contacts.len() <= FINGER_COUNT,
        ids_distinct(contacts),
        0 <= count <= contacts.len(),
    ensures
        !placed(released(slots, contacts), contacts.take(count)).full,
    decreases count,
{
    if count > 0 {
        prefix_fits(slots, contacts, count - 1);
        assert(contacts.take(count).drop_last() =~= contacts.take(count - 1));
        let contact = contacts[count - 1];
        assert(contacts.take(count).last() == contact);
        let now = placed(released(slots, contacts), contacts.take(count - 1)).slots;
        if contact.active && slot_for(now, contact.id) is None {
            placed_slots_are_held(slots, contacts, count - 1);
            released_stays_distinct(slots, contacts);
            placed_stays_distinct(released(slots, contacts), contacts.take(count - 1));
            first_index_is_first(now, occupied_by(contact.id), 0);
            first_index_is_first(now, is_free(), 0);
            let holders = Seq::new(
                6,
                |i: int|
                    if i < 5 {
                        holder(contacts, now[i]->Some_0)
                    } else {
                        count - 1
                    },
            );
            assert forall|i: int| 0 <= i < 6 implies 0 <= #[trigger] holders[i] < contacts.len()
                && contacts[holders[i]].id == (if i < 5 {
                now[i]->Some_0
            } else {
                contact.id
            }) by {
                if i < 5 {
                    assert(!is_free()(now[i]));
                    assert(is_held(contacts, now[i]->Some_0));
                }
            }
            assert forall|i: int, j: int| 0 <= i < j < 6 implies holders[i] != holders[j] by {
                assert(!occupied_by(contact.id)(now[i]));
                assert(!is_free()(now[i]));
                if j < 5 {
                    assert(!is_free()(now[j]));
                    assert(now[i] != now[j]);
                }
            }
            assert(holders.no_duplicates());
            holders.unique_seq_to_set();
            vstd::set_lib::lemma_int_range(0, contacts.len() as int);
            assert(holders.to_set().subset_of(
                vstd::set_lib::set_int_range(0, contacts.len() as int),
            ));
            vstd::set_lib::lemma_len_subset(
                holders.to_set(),
                vstd::set_lib::set_int_range(0, contacts.len() as int),
            );
        }
    }
}

/// After a report, an identifier occupies a slot exactly where an active
/// contact of the report carries it.
pub proof fn occupied_slots_are_the_held_contacts(
    state: PointerView,
    contacts: Seq<Contact>,
    button: bool,
    id: u8,
)
    requires
        state.wf(),
        !report_placement(state, contacts).full,
    ensures
        after_report(state, contacts, button).slots.contains(Some(id)) <==> is_held(contacts, id),
{
    let now = report_placement(state, contacts).slots;
    placed_slots_are_held(state.slots, contacts, contacts.len() as int);
    assert(contacts.take(contacts.len() as int) =~= contacts);
    if is_held(contacts, id) {
        let i = holder(contacts, id);
        placed_contact_is_in_a_slot(released(state.slots, contacts), contacts, i);
    }
    if now.contains(Some(id)) {
        let slot = choose|slot: int| 0 <= slot < now.len() && now[slot] == Some(id);
        assert(now[slot] is Some);
    }
}

proof fn placed_contact_is_in_a_slot(slots: Seq<Option<u8>>, contacts: Seq<Contact>, i: int)
    requires
        0 <= i < contacts.len(),
        contacts[i].active,
        !placed(slots, contacts).full,
    ensures
        placed(slots, contacts).slots.contains(Some(contacts[i].id)),
    decreases contacts.len(),
{
    let before = placed(slots, contacts.drop_last());
    let contact = contacts.last();
    let now = placed(slots, contacts).slots;
    first_index_is_first(before.slots, occupied_by(contact.id), 0);
    first_index_is_first(before.slots, is_free(), 0);
    let slot = slot_for(before.slots, contact.id);
    if i == contacts.len() - 1 {
        assert(now[slot->Some_0] == Some(contact.id));
    } else {
        assert(contacts.drop_last()[i] == contacts[i]);
        placed_contact_is_in_a_slot(slots, contacts.drop_last(), i);
        let held = choose|held: int|
            0 <= held < before.slots.len() && before.slots[held] == Some(contacts[i].id);
        assert(now[held] == Some(contacts[i].id));
    }
}

/// A contact that is still held keeps its slot.
pub proof fn a_held_contact_keeps_its_slot(
    state: PointerView,
    contacts: Seq<Contact>,
    button: bool,
    slot: int,
)
    requires
        state.wf(),
        0 <= slot < FINGER_COUNT,
        state.slots[slot] is Some,
        is_held(contacts, state.slots[slot]->Some_0),
    ensures
        after_report(state, contacts, button).slots[slot] == state.slots[slot],
{
    assert(released(state.slots, contacts)[slot] == state.slots[slot]);
    occupied_slot_is_kept(released(state.slots, contacts), contacts, slot);
}

proof fn occupied_slot_is_kept(slots: Seq<Option<u8>>, contacts: Seq<Contact>, slot: int)
    requires
        0 <= slot < slots.len(),
        slots[slot] is Some,
    ensures
        placed(slots, contacts).slots.len() == slots.len(),
        placed(slots, contacts).slots[slot] == slots[slot],
    decreases contacts.len(),
{
    if contacts.len() > 0 {
        occupied_slot_is_kept(slots, contacts.drop_last(), slot);
        let before = placed(slots, contacts.drop_last()).slots;
        first_index_is_first(before, occupied_by(contacts.last().id), 0);
        first_index_is_first(before, is_free(), 0);
    }
}

/// A frame ends with its one synchronisation event.
pub open spec fn ends_in_one_syn(events: Seq<InputEvent>) -> bool {
    &&& events.len() > 0
    &&& events.last() == syn()
    &&& forall|i: int| 0 <= i < events.len() - 1 ==> (#[trigger] events[i]).0 != EV_SYN
}

spec fn all_absolute(events: Seq<InputEvent>) -> bool {
    forall|i: int| 0 <= i < events.len() ==> (#[trigger] events[i]).0 == EV_ABS
}

proof fn joined_stay_absolute(head: Seq<InputEvent>, tail: Seq<InputEvent>)
    requires
        all_absolute(head),
        all_absolute(tail),
    ensures
        all_absolute(head + tail),
{
    assert forall|i: int| 0 <= i < (head + tail).len() implies (#[trigger] (head + tail)[i]).0
        == EV_ABS by {
        if i >= head.len() {
            assert((head + tail)[i] == tail[i - head.len()]);
        }
    }
}

proof fn releases_are_absolute(slots: Seq<Option<u8>>, contacts: Seq<Contact>, count: int)
    ensures
        all_absolute(release_events(slots, contacts, count)),
    decreases count,
{
    if count > 0 {
        releases_are_absolute(slots, contacts, count - 1);
        assert(all_absolute(release_of(count - 1)));
        joined_stay_absolute(
            release_events(slots, contacts, count - 1),
            if is_lifted(slots, contacts, count - 1) {
                release_of(count - 1)
            } else {
                Seq::empty()
            },
        );
    }
}

proof fn placements_are_absolute(slots: Seq<Option<u8>>, contacts: Seq<Contact>)
    ensures
        all_absolute(placed(slots, contacts).events),
    decreases contacts.len(),
{
    if contacts.len() > 0 {
        placements_are_absolute(slots, contacts.drop_last());
        let before = placed(slots, contacts.drop_last());
        let contact = contacts.last();
        if !before.full && contact.active && slot_for(before.slots, contact.id) is Some {
            let slot = slot_for(before.slots, contact.id)->Some_0;
            let events = contact_events(contact, slot, before.slots[slot] is None);
            assert(all_absolute(events));
            joined_stay_absolute(before.events, events);
        }
    }
}

/// Every report, and every disconnect, gives one frame: a single
/// synchronisation event, and it comes last.
pub proof fn every_frame_ends_in_one_syn(
    state: PointerView,
    contacts: Seq<Contact>,
    button: bool,
)
    ensures
        ends_in_one_syn(report_events(state, contacts, button)),
        ends_in_one_syn(disconnect_events(state)),
{
    releases_are_absolute(state.slots, contacts, FINGER_COUNT as int);
    releases_are_absolute(state.slots, Seq::empty(), FINGER_COUNT as int);
    placements_are_absolute(released(state.slots, contacts), contacts);
}

/// A disconnect with nothing touched or pressed only synchronises.
pub proof fn an_idle_disconnect_is_silent()
    ensures
        disconnect_events(PointerView::idle()) == seq![syn()],
{
    reveal_with_fuel(release_events, 6);
    assert(disconnect_events(PointerView::idle()) =~= seq![syn()]);
}

/// Keeps the driver linked into builds that load it by name.
pub fn force_link() {
}

} // verus!
