//! What the touchpad's reports mean.

use vstd::prelude::*;

use crate::bytes::{first_index, first_index_is_first};
use crate::input::{AbsoluteAxis, InputEvent};
use crate::input::reader::{few_events_are_read, joined_events_are_read_in_turn, ReaderView};
use crate::usb_touchpad::{
    after_report, any_occupied, contact_count, contact_events, contact_of, disconnect_events,
    finger_word, has_header, ids_distinct, is_active, is_free, is_held, is_lifted, is_touchpad,
    key_change, motion_events, occupied_by, occupied_slots_are_the_held_contacts, placed,
    placed_stays_distinct, pointer_contact, relative_event, release_events, release_of, released,
    released_stays_distinct, report_contacts, report_events, report_fault, report_placement,
    slot_for, slots_distinct, syn, touchpad_axes, toward_zero, travel, Contact, PointerView,
    UsbDeviceIdentity, UsbInterruptInEndpointInfo,
};

verus! {

// Records.

/// What lies below and above a multiple is told apart.
proof fn parts_are_told_apart(low: int, high: int, unit: int)
    requires
        0 <= low < unit,
    ensures
        (low + unit * high) / unit == high,
        (low + unit * high) % unit == low,
{
    assert(unit * high == high * unit) by (nonlinear_arith);
    vstd::arithmetic::div_mod::lemma_fundamental_div_mod_converse(
        low + unit * high,
        unit,
        high,
        low,
    );
}

/// A record's fields are read back as they were packed: three flags that are
/// all set for an active contact, then four bits of identifier, nine of
/// pressure, and twelve each of width, height and the two coordinates.
pub proof fn packed_contacts_are_read_back(contact: Contact, flags: int)
    requires
        0 <= flags < 8,
        contact.active <==> flags == 7,
        contact.id < 0x10,
        contact.pressure < 0x200,
        contact.width < 0x1000,
        contact.height < 0x1000,
        contact.x < 0x1000,
        contact.y < 0x1000,
    ensures
        contact_of(
            flags + 0x8 * contact.id + 0x80 * contact.pressure + 0x1_0000 * contact.width
                + 0x1000_0000 * contact.height + 0x100_0000_0000 * contact.x
                + 0x10_0000_0000_0000 * contact.y,
        ) == contact,
{
    let y = contact.y as int;
    let xy = contact.x + 0x1000 * y;
    let hxy = contact.height + 0x1000 * xy;
    let whxy = contact.width + 0x1000 * hxy;
    let rest = contact.pressure + 0x200 * whxy;
    let id_rest = contact.id + 0x10 * rest;
    let word = flags + 0x8 * id_rest;
    parts_are_told_apart(flags, id_rest, 0x8);
    parts_are_told_apart(contact.id as int, rest, 0x10);
    parts_are_told_apart(flags + 0x8 * contact.id, rest, 0x80);
    parts_are_told_apart(contact.pressure as int, whxy, 0x200);
    parts_are_told_apart(flags + 0x8 * contact.id + 0x80 * contact.pressure, whxy, 0x1_0000);
    parts_are_told_apart(contact.width as int, hxy, 0x1000);
    parts_are_told_apart(
        flags + 0x8 * contact.id + 0x80 * contact.pressure + 0x1_0000 * contact.width,
        hxy,
        0x1000_0000,
    );
    parts_are_told_apart(contact.height as int, xy, 0x1000);
    parts_are_told_apart(
        flags + 0x8 * contact.id + 0x80 * contact.pressure + 0x1_0000 * contact.width + 0x1000_0000
            * contact.height,
        xy,
        0x100_0000_0000,
    );
    parts_are_told_apart(contact.x as int, y, 0x1000);
    parts_are_told_apart(
        flags + 0x8 * contact.id + 0x80 * contact.pressure + 0x1_0000 * contact.width + 0x1000_0000
            * contact.height + 0x100_0000_0000 * contact.x,
        y,
        0x10_0000_0000_0000,
    );
    parts_are_told_apart(y, 0, 0x1000);
}

/// The eight bytes of a record stand in the report one after the other, the
/// lowest first, five records from the second byte on.
pub proof fn records_are_little_endian(report: Seq<u8>, index: int)
    requires
        report.len() >= 44,
        0 <= index < 5,
    ensures
        finger_word(report, index) % 0x100 == report[1 + 8 * index],
        finger_word(report, index) / 0x100 % 0x100 == report[2 + 8 * index],
        finger_word(report, index) / 0x1_0000 % 0x100 == report[3 + 8 * index],
        finger_word(report, index) / 0x100_0000 % 0x100 == report[4 + 8 * index],
        finger_word(report, index) / 0x1_0000_0000 % 0x100 == report[5 + 8 * index],
        finger_word(report, index) / 0x100_0000_0000 % 0x100 == report[6 + 8 * index],
        finger_word(report, index) / 0x1_0000_0000_0000 % 0x100 == report[7 + 8 * index],
        finger_word(report, index) / 0x100_0000_0000_0000 == report[8 + 8 * index],
{
    let at = 1 + 8 * index;
    let b = |k: int| report[at + k] as int;
    let t7 = b(7);
    let t6 = b(6) + 0x100 * t7;
    let t5 = b(5) + 0x100 * t6;
    let t4 = b(4) + 0x100 * t5;
    let t3 = b(3) + 0x100 * t4;
    let t2 = b(2) + 0x100 * t3;
    let t1 = b(1) + 0x100 * t2;
    let l2 = b(0) + 0x100 * b(1);
    let l3 = l2 + 0x1_0000 * b(2);
    let l4 = l3 + 0x100_0000 * b(3);
    let l5 = l4 + 0x1_0000_0000 * b(4);
    let l6 = l5 + 0x100_0000_0000 * b(5);
    let l7 = l6 + 0x1_0000_0000_0000 * b(6);
    parts_are_told_apart(b(0), t1, 0x100);
    parts_are_told_apart(b(1), t2, 0x100);
    parts_are_told_apart(b(2), t3, 0x100);
    parts_are_told_apart(b(3), t4, 0x100);
    parts_are_told_apart(b(4), t5, 0x100);
    parts_are_told_apart(b(5), t6, 0x100);
    parts_are_told_apart(b(6), t7, 0x100);
    parts_are_told_apart(l2, t2, 0x1_0000);
    parts_are_told_apart(l3, t3, 0x100_0000);
    parts_are_told_apart(l4, t4, 0x1_0000_0000);
    parts_are_told_apart(l5, t5, 0x100_0000_0000);
    parts_are_told_apart(l6, t6, 0x1_0000_0000_0000);
    parts_are_told_apart(l7, t7, 0x100_0000_0000_0000);
}

/// A report starts with its identifier and is never short. The last byte but
/// two counts the contacts in its low seven bits; each contact is that of the
/// record in the same place.
pub proof fn counted_records_are_the_contacts(report: Seq<u8>, index: int)
    requires
        report.len() >= 44,
        0 <= index < contact_count(report),
    ensures
        has_header(report) <==> report[0] == 1,
        contact_count(report) == report[41] & 0x7f,
        report[41] >= 0x80 <==> report[41] & 0x80 != 0,
        report_contacts(report, contact_count(report)).len() == contact_count(report),
        report_contacts(report, contact_count(report))[index] == contact_of(
            finger_word(report, index),
        ),
{
    let byte = report[41];
    assert(byte & 0x7f == byte % 0x80) by (bit_vector);
    assert(byte >= 0x80 <==> byte & 0x80 != 0) by (bit_vector);
}

// Frames.

/// The reader sees a contact in a slot.
pub open spec fn shows_contact(reader: ReaderView, slot: int, contact: Contact) -> bool {
    let s = slot as i32;
    &&& reader.touches[(s, 0x39u16)] == contact.id
    &&& reader.touches[(s, 0x35u16)] == contact.x
    &&& reader.touches[(s, 0x36u16)] == contact.y
    &&& reader.touches[(s, 0x3au16)] == contact.pressure
    &&& reader.touches[(s, 0x30u16)] >= contact.width
    &&& reader.touches[(s, 0x30u16)] >= contact.height
    &&& reader.touches[(s, 0x30u16)] == contact.width || reader.touches[(s, 0x30u16)]
        == contact.height
}

/// The reader knows which contact is in which slot.
pub open spec fn in_step(reader: ReaderView, slots: Seq<Option<u8>>) -> bool {
    forall|s: int|
        #![trigger slots[s]]
        0 <= s < slots.len() ==> reader.touches[(s as i32, 0x39u16)] == match slots[s] {
            Some(id) => id as i32,
            None => -1i32,
        }
}

spec fn same_but_touches(a: ReaderView, b: ReaderView) -> bool {
    a == (ReaderView { slot: a.slot, touches: a.touches, ..b })
}

proof fn a_contact_is_read(reader: ReaderView, contact: Contact, slot: int, is_new: bool)
    requires
        0 <= slot < 5,
        !is_new ==> reader.touches[(slot as i32, 0x39u16)] == contact.id,
    ensures
        ({
            let after = reader.read_all(contact_events(contact, slot, is_new));
            &&& shows_contact(after, slot, contact)
            &&& same_but_touches(after, reader)
            &&& forall|s: i32, code: u16|
                s != slot ==> #[trigger] after.touches[(s, code)] == reader.touches[(s, code)]
        }),
{
    few_events_are_read(reader, contact_events(contact, slot, is_new));
}

proof fn placements_are_read(reader: ReaderView, slots: Seq<Option<u8>>, contacts: Seq<Contact>)
    requires
        slots.len() == 5,
        slots_distinct(slots),
        ids_distinct(contacts),
        in_step(reader, slots),
    ensures
        ({
            let after = reader.read_all(placed(slots, contacts).events);
            let now = placed(slots, contacts).slots;
            &&& now.len() == 5
            &&& slots_distinct(now)
            &&& in_step(after, now)
            &&& same_but_touches(after, reader)
            &&& !placed(slots, contacts).full ==> forall|k: int, s: int|
                #![trigger contacts[k], now[s]]
                0 <= k < contacts.len() && contacts[k].active && 0 <= s < 5 && now[s] == Some(
                    contacts[k].id,
                ) ==> shows_contact(after, s, contacts[k])
        }),
    decreases contacts.len(),
{
    placed_stays_distinct(slots, contacts);
    if contacts.len() > 0 {
        let head = contacts.drop_last();
        let contact = contacts.last();
        assert forall|i: int, j: int|
            #![trigger head[i], head[j]]
            0 <= i < j < head.len() implies head[i].id != head[j].id by {
            assert(head[i] == contacts[i] && head[j] == contacts[j]);
        }
        placements_are_read(reader, slots, head);
        let before = placed(slots, head);
        let r = reader.read_all(before.events);
        first_index_is_first(before.slots, occupied_by(contact.id), 0);
        first_index_is_first(before.slots, is_free(), 0);
        let after = reader.read_all(placed(slots, contacts).events);
        let now = placed(slots, contacts).slots;
        if !before.full && contact.active && slot_for(before.slots, contact.id) is Some {
            let p = slot_for(before.slots, contact.id)->Some_0;
            let is_new = before.slots[p] is None;
            assert(!is_new ==> before.slots[p] == Some(contact.id)) by {
                if first_index(before.slots, occupied_by(contact.id), 0) is Some {
                    assert(occupied_by(contact.id)(before.slots[p]));
                } else {
                    assert(is_free()(before.slots[p]));
                }
            }
            joined_events_are_read_in_turn(
                reader,
                before.events,
                contact_events(contact, p, is_new),
            );
            a_contact_is_read(r, contact, p, is_new);
            assert(now[p] == Some(contact.id));
            assert forall|s: int|
                #![trigger now[s]]
                0 <= s < now.len() implies after.touches[(s as i32, 0x39u16)] == match now[s] {
                Some(id) => id as i32,
                None => -1i32,
            } by {
                if s != p {
                    assert(now[s] == before.slots[s]);
                    assert(after.touches[(s as i32, 0x39u16)] == r.touches[(s as i32, 0x39u16)]);
                }
            }
            assert forall|k: int, s: int|
                #![trigger contacts[k], now[s]]
                0 <= k < contacts.len() && contacts[k].active && 0 <= s < 5 && now[s] == Some(
                    contacts[k].id,
                ) implies shows_contact(after, s, contacts[k]) by {
                if k < head.len() {
                    assert(head[k] == contacts[k]);
                    assert(contacts[k].id != contacts[contacts.len() - 1].id);
                    assert(s != p);
                    assert(now[s] == before.slots[s]);
                    let t = s as i32;
                    assert(after.touches[(t, 0x39u16)] == r.touches[(t, 0x39u16)]);
                    assert(after.touches[(t, 0x35u16)] == r.touches[(t, 0x35u16)]);
                    assert(after.touches[(t, 0x36u16)] == r.touches[(t, 0x36u16)]);
                    assert(after.touches[(t, 0x3au16)] == r.touches[(t, 0x3au16)]);
                    assert(after.touches[(t, 0x30u16)] == r.touches[(t, 0x30u16)]);
                } else if s != p {
                    assert(now[s] != now[p]);
                }
            }
        } else {
            assert forall|k: int, s: int|
                #![trigger contacts[k], now[s]]
                !placed(slots, contacts).full && 0 <= k < contacts.len() && contacts[k].active && 0
                    <= s < 5 && now[s] == Some(contacts[k].id) implies shows_contact(
                after,
                s,
                contacts[k],
            ) by {
                assert(k < head.len());
                assert(head[k] == contacts[k]);
                assert(now[s] == before.slots[s]);
            }
        }
    }
}

proof fn releases_are_read(
    reader: ReaderView,
    slots: Seq<Option<u8>>,
    contacts: Seq<Contact>,
    count: int,
)
    requires
        slots.len() == 5,
        0 <= count <= 5,
    ensures
        ({
            let after = reader.read_all(release_events(slots, contacts, count));
            &&& same_but_touches(after, reader)
            &&& forall|s: i32, code: u16|
                0 <= s < 5 ==> #[trigger] after.touches[(s, code)] == if s < count && code == 0x39
                    && is_lifted(slots, contacts, s as int) {
                    -1i32
                } else {
                    reader.touches[(s, code)]
                }
        }),
    decreases count,
{
    if count > 0 {
        releases_are_read(reader, slots, contacts, count - 1);
        let before = reader.read_all(release_events(slots, contacts, count - 1));
        let tail = if is_lifted(slots, contacts, count - 1) {
            release_of(count - 1)
        } else {
            Seq::empty()
        };
        joined_events_are_read_in_turn(
            reader,
            release_events(slots, contacts, count - 1),
            tail,
        );
        few_events_are_read(before, tail);
    }
}

proof fn a_key_change_is_read(reader: ReaderView, code: u16, before: bool, after: bool)
    requires
        reader.keys.contains_key(code),
        reader.keys[code] == if before {
            1i32
        } else {
            0i32
        },
    ensures
        reader.read_all(key_change(code, before, after)) == (ReaderView {
            keys: reader.keys.insert(
                code,
                if after {
                    1i32
                } else {
                    0i32
                },
            ),
            ..reader
        }),
{
    few_events_are_read(reader, key_change(code, before, after));
    assert(reader.read_all(key_change(code, before, after)) =~= (ReaderView {
        keys: reader.keys.insert(
            code,
            if after {
                1i32
            } else {
                0i32
            },
        ),
        ..reader
    }));
}

/// What a reader knows of the state: the contacts in their slots, the touch and
/// the button.
pub open spec fn knows(reader: ReaderView, state: PointerView) -> bool {
    &&& in_step(reader, state.slots)
    &&& reader.keys.contains_key(0x14au16) && reader.keys.contains_key(0x110u16)
    &&& reader.keys[0x14au16] == if any_occupied(state.slots) {
        1i32
    } else {
        0i32
    }
    &&& reader.keys[0x110u16] == if state.button_pressed {
        1i32
    } else {
        0i32
    }
}

/// The reader that has read a report up to its motion.
spec fn before_motion(
    reader: ReaderView,
    state: PointerView,
    contacts: Seq<Contact>,
    button: bool,
) -> ReaderView {
    reader.read_all(
        release_events(state.slots, contacts, 5) + placed(
            released(state.slots, contacts),
            contacts,
        ).events + key_change(
            0x14a,
            any_occupied(state.slots),
            any_occupied(report_placement(state, contacts).slots),
        ) + key_change(0x110, state.button_pressed, button),
    )
}

proof fn a_report_is_read_in_turn(
    reader: ReaderView,
    state: PointerView,
    contacts: Seq<Contact>,
    button: bool,
)
    ensures
        reader.read_all(report_events(state, contacts, button)) == before_motion(
            reader,
            state,
            contacts,
            button,
        ).read_all(motion_events(travel(state, pointer_contact(contacts)))).read_all(seq![syn()]),
{
    let head = release_events(state.slots, contacts, 5) + placed(
        released(state.slots, contacts),
        contacts,
    ).events + key_change(
        0x14a,
        any_occupied(state.slots),
        any_occupied(report_placement(state, contacts).slots),
    ) + key_change(0x110, state.button_pressed, button);
    let motion = motion_events(travel(state, pointer_contact(contacts)));
    assert(report_events(state, contacts, button) =~= head + motion + seq![syn()]);
    joined_events_are_read_in_turn(reader, head + motion, seq![syn()]);
    joined_events_are_read_in_turn(reader, head, motion);
}

proof fn a_report_is_read_up_to_its_motion(
    reader: ReaderView,
    state: PointerView,
    contacts: Seq<Contact>,
    button: bool,
)
    requires
        state.wf(),
        ids_distinct(contacts),
        !report_placement(state, contacts).full,
        knows(reader, state),
    ensures
        ({
            let r = before_motion(reader, state, contacts, button);
            let now = report_placement(state, contacts).slots;
            &&& in_step(r, now)
            &&& forall|k: int, s: int|
                #![trigger contacts[k], now[s]]
                0 <= k < contacts.len() && contacts[k].active && 0 <= s < 5 && now[s] == Some(
                    contacts[k].id,
                ) ==> shows_contact(r, s, contacts[k])
            &&& r.keys == reader.keys.insert(
                0x14au16,
                if any_occupied(now) {
                    1i32
                } else {
                    0i32
                },
            ).insert(
                0x110u16,
                if button {
                    1i32
                } else {
                    0i32
                },
            )
            &&& r.moved_x == reader.moved_x && r.moved_y == reader.moved_y
            &&& r.frames == reader.frames
            &&& r.axes == reader.axes
        }),
{
    let a = release_events(state.slots, contacts, 5);
    let free = released(state.slots, contacts);
    let b = placed(free, contacts).events;
    let now = placed(free, contacts).slots;
    let c = key_change(0x14a, any_occupied(state.slots), any_occupied(now));
    let d = key_change(0x110, state.button_pressed, button);
    joined_events_are_read_in_turn(reader, a, b);
    joined_events_are_read_in_turn(reader, a + b, c);
    joined_events_are_read_in_turn(reader, a + b + c, d);
    releases_are_read(reader, state.slots, contacts, 5);
    let r1 = reader.read_all(a);
    released_stays_distinct(state.slots, contacts);
    assert(in_step(r1, free)) by {
        assert forall|s: int|
            #![trigger free[s]]
            0 <= s < free.len() implies r1.touches[(s as i32, 0x39u16)] == match free[s] {
            Some(id) => id as i32,
            None => -1i32,
        } by {
            assert(r1.touches[(s as i32, 0x39u16)] == if is_lifted(state.slots, contacts, s) {
                -1i32
            } else {
                reader.touches[(s as i32, 0x39u16)]
            });
            assert(state.slots[s] == state.slots[s]);
        }
    }
    placements_are_read(r1, free, contacts);
    let r2 = r1.read_all(b);
    a_key_change_is_read(r2, 0x14a, any_occupied(state.slots), any_occupied(now));
    let r3 = r2.read_all(c);
    a_key_change_is_read(r3, 0x110, state.button_pressed, button);
    let r4 = r3.read_all(d);
    assert(r4.touches == r2.touches);
    assert forall|k: int, s: int|
        #![trigger contacts[k], now[s]]
        0 <= k < contacts.len() && contacts[k].active && 0 <= s < 5 && now[s] == Some(
            contacts[k].id,
        ) implies shows_contact(r4, s, contacts[k]) by {
        assert(shows_contact(r2, s, contacts[k]));
    }
    assert forall|s: int|
        #![trigger now[s]]
        0 <= s < now.len() implies r4.touches[(s as i32, 0x39u16)] == match now[s] {
        Some(id) => id as i32,
        None => -1i32,
    } by {
        assert(r2.touches[(s as i32, 0x39u16)] == r2.touches[(s as i32, 0x39u16)]);
    }
}

/// The reader before the motion of a report and the one after it differ in the
/// motion alone.
proof fn a_report_is_read_to_its_end(
    reader: ReaderView,
    state: PointerView,
    contacts: Seq<Contact>,
    button: bool,
)
    requires
        state.wf(),
    ensures
        ({
            let r = before_motion(reader, state, contacts, button);
            let after = reader.read_all(report_events(state, contacts, button));
            &&& after.touches == r.touches
            &&& after.keys == r.keys
            &&& after.axes == r.axes
            &&& after.frames == r.frames + 1
        }),
{
    let r = before_motion(reader, state, contacts, button);
    a_report_is_read_in_turn(reader, state, contacts, button);
    let moved = travel(state, pointer_contact(contacts));
    motion_is_read(r, moved);
    few_events_are_read(r.read_all(motion_events(moved)), seq![syn()]);
}

/// What a report shows to a reader that knew the state before. Each active
/// contact is in one slot, with its identifier, position, pressure and greater
/// extent, and no slot shows a contact that is not active. One frame is closed.
pub proof fn a_reader_sees_the_contacts(
    reader: ReaderView,
    state: PointerView,
    contacts: Seq<Contact>,
    button: bool,
)
    requires
        state.wf(),
        ids_distinct(contacts),
        !report_placement(state, contacts).full,
        knows(reader, state),
    ensures
        ({
            let after = reader.read_all(report_events(state, contacts, button));
            let now = report_placement(state, contacts).slots;
            &&& in_step(after, now)
            &&& forall|k: int|
                #![trigger contacts[k]]
                0 <= k < contacts.len() && contacts[k].active ==> exists|s: int|
                    0 <= s < 5 && #[trigger] now[s] == Some(contacts[k].id) && shows_contact(
                        after,
                        s,
                        contacts[k],
                    )
            &&& forall|s: int|
                #![trigger now[s]]
                0 <= s < 5 && now[s] is Some ==> exists|k: int|
                    0 <= k < contacts.len() && (#[trigger] contacts[k]).active && now[s] == Some(
                        contacts[k].id,
                    )
            &&& after.frames == reader.frames + 1
            &&& after.axes == reader.axes
        }),
{
    let r = before_motion(reader, state, contacts, button);
    a_report_is_read_up_to_its_motion(reader, state, contacts, button);
    a_report_is_read_to_its_end(reader, state, contacts, button);
    let after = reader.read_all(report_events(state, contacts, button));
    let now = report_placement(state, contacts).slots;
    placed_stays_distinct(released(state.slots, contacts), contacts);
    released_stays_distinct(state.slots, contacts);
    assert forall|k: int|
        #![trigger contacts[k]]
        0 <= k < contacts.len() && contacts[k].active implies exists|s: int|
        0 <= s < 5 && #[trigger] now[s] == Some(contacts[k].id) && shows_contact(
            after,
            s,
            contacts[k],
        ) by {
        occupied_slots_are_the_held_contacts(state, contacts, button, contacts[k].id);
        assert(is_held(contacts, contacts[k].id));
        let s = choose|s: int| 0 <= s < now.len() && now[s] == Some(contacts[k].id);
        assert(now[s] == Some(contacts[k].id));
        assert(shows_contact(r, s, contacts[k]));
    }
    assert forall|s: int|
        #![trigger now[s]]
        0 <= s < 5 && now[s] is Some implies exists|k: int|
        0 <= k < contacts.len() && (#[trigger] contacts[k]).active && now[s] == Some(
            contacts[k].id,
        ) by {
        let id = now[s]->Some_0;
        occupied_slots_are_the_held_contacts(state, contacts, button, id);
        assert(now.contains(Some(id)));
        assert(is_held(contacts, id));
    }
    assert(in_step(after, now));
}

/// The touch key says whether any contact of the report is active, the left
/// button is that of the report, and the reader knows the state again.
pub proof fn the_keys_follow_the_report(
    reader: ReaderView,
    state: PointerView,
    contacts: Seq<Contact>,
    button: bool,
)
    requires
        state.wf(),
        ids_distinct(contacts),
        !report_placement(state, contacts).full,
        knows(reader, state),
    ensures
        ({
            let after = reader.read_all(report_events(state, contacts, button));
            &&& knows(after, after_report(state, contacts, button))
            &&& after.keys[0x14au16] == if exists|k: int|
                0 <= k < contacts.len() && (#[trigger] contacts[k]).active {
                1i32
            } else {
                0i32
            }
            &&& after.keys[0x110u16] == if button {
                1i32
            } else {
                0i32
            }
        }),
{
    let after = reader.read_all(report_events(state, contacts, button));
    let now = report_placement(state, contacts).slots;
    let held = exists|k: int| 0 <= k < contacts.len() && (#[trigger] contacts[k]).active;
    assert(any_occupied(now) == held) by {
        placed_stays_distinct(released(state.slots, contacts), contacts);
        released_stays_distinct(state.slots, contacts);
        if held {
            let k = choose|k: int| 0 <= k < contacts.len() && (#[trigger] contacts[k]).active;
            occupied_slots_are_the_held_contacts(state, contacts, button, contacts[k].id);
            assert(is_held(contacts, contacts[k].id));
            let s = choose|s: int| 0 <= s < now.len() && now[s] == Some(contacts[k].id);
            assert(now[s] is Some);
        }
        if any_occupied(now) {
            let s = choose|s: int| 0 <= s < now.len() && (#[trigger] now[s]) is Some;
            let id = now[s]->Some_0;
            occupied_slots_are_the_held_contacts(state, contacts, button, id);
            assert(now.contains(Some(id)));
            assert(is_held(contacts, id));
        }
    }
    assert(in_step(after, now)) by {
        a_reader_sees_the_contacts(reader, state, contacts, button);
    }
    assert(after.keys == reader.keys.insert(
        0x14au16,
        if held {
            1i32
        } else {
            0i32
        },
    ).insert(
        0x110u16,
        if button {
            1i32
        } else {
            0i32
        },
    )) by {
        a_report_is_read_up_to_its_motion(reader, state, contacts, button);
        a_report_is_read_to_its_end(reader, state, contacts, button);
    }
}

proof fn motion_is_read(reader: ReaderView, moved: Option<(int, int)>)
    requires
        moved matches Some((x, y)) ==> -0x2_0000 < x < 0x2_0000 && -0x2_0000 < y < 0x2_0000,
    ensures
        ({
            let after = reader.read_all(motion_events(moved));
            &&& after == (ReaderView { moved_x: after.moved_x, moved_y: after.moved_y, ..reader })
            &&& match moved {
                None => after == reader,
                Some((x, y)) => {
                    &&& after.moved_x - reader.moved_x == toward_zero(x, 2)
                    &&& after.moved_y - reader.moved_y == toward_zero(y, 2)
                },
            }
        }),
{
    match moved {
        None => {
            few_events_are_read(reader, motion_events(moved));
        },
        Some((x, y)) => {
            let a = relative_event(0u16, toward_zero(x, 2));
            let b = relative_event(1u16, toward_zero(y, 2));
            joined_events_are_read_in_turn(reader, a, b);
            few_events_are_read(reader, a);
            few_events_are_read(reader.read_all(a), b);
        },
    }
}

proof fn the_first_active_contact_points(contacts: Seq<Contact>, first: int)
    requires
        0 <= first < contacts.len(),
        contacts[first].active,
        forall|j: int| 0 <= j < first ==> !(#[trigger] contacts[j]).active,
    ensures
        pointer_contact(contacts) == Some(
            (contacts[first].id, contacts[first].x, contacts[first].y),
        ),
{
    first_index_is_first(contacts, is_active(), 0);
    assert(is_active()(contacts[first]));
    let found = first_index(contacts, is_active(), 0)->Some_0;
    if found < first {
        assert(is_active()(contacts[found]));
    }
    if found > first {
        assert(!is_active()(contacts[first]));
    }
}

/// The pointer moves with one contact only. Where the first active contact of a
/// report has the identifier of the one that pointed before, the pointer has
/// then covered the way between the two positions, two coordinates a step, up
/// to a remainder of less than a step that is carried on. Where it has another
/// identifier, or nothing pointed before, the pointer rests and no remainder is
/// left. This contact is the one that points from then on.
pub proof fn the_pointer_follows_one_contact(
    reader: ReaderView,
    state: PointerView,
    contacts: Seq<Contact>,
    button: bool,
    first: int,
)
    requires
        state.wf(),
        ids_distinct(contacts),
        !report_placement(state, contacts).full,
        knows(reader, state),
        0 <= first < contacts.len(),
        contacts[first].active,
        forall|j: int| 0 <= j < first ==> !(#[trigger] contacts[j]).active,
    ensures
        ({
            let after = reader.read_all(report_events(state, contacts, button));
            let now = after_report(state, contacts, button);
            let contact = contacts[first];
            &&& now.last_contact == Some((contact.id, contact.x, contact.y))
            &&& match state.last_contact {
                Some((id, x, y)) if id == contact.id => {
                    let across = contact.x - x + state.remainder_x;
                    let down = contact.y - y + state.remainder_y;
                    &&& 2 * (after.moved_x - reader.moved_x) + now.remainder_x == across
                    &&& 2 * (after.moved_y - reader.moved_y) + now.remainder_y == down
                    &&& -2 < now.remainder_x < 2 && -2 < now.remainder_y < 2
                    &&& across >= 0 ==> now.remainder_x >= 0
                    &&& across <= 0 ==> now.remainder_x <= 0
                    &&& down >= 0 ==> now.remainder_y >= 0
                    &&& down <= 0 ==> now.remainder_y <= 0
                },
                _ => {
                    &&& after.moved_x == reader.moved_x && after.moved_y == reader.moved_y
                    &&& now.remainder_x == 0 && now.remainder_y == 0
                    &&& forall|i: int|
                        0 <= i < report_events(state, contacts, button).len() ==> (
                        #[trigger] report_events(state, contacts, button)[i]).0 != 2
                },
            }
        }),
{
    the_first_active_contact_points(contacts, first);
    let r = before_motion(reader, state, contacts, button);
    a_report_is_read_up_to_its_motion(reader, state, contacts, button);
    a_report_is_read_in_turn(reader, state, contacts, button);
    let moved = travel(state, pointer_contact(contacts));
    motion_is_read(r, moved);
    few_events_are_read(r.read_all(motion_events(moved)), seq![syn()]);
    if moved is None {
        only_motion_is_relative(state, contacts, button);
    }
}

/// Without an active contact the pointer rests, and nothing points.
pub proof fn without_a_contact_the_pointer_rests(
    reader: ReaderView,
    state: PointerView,
    contacts: Seq<Contact>,
    button: bool,
)
    requires
        state.wf(),
        ids_distinct(contacts),
        !report_placement(state, contacts).full,
        knows(reader, state),
        forall|j: int| 0 <= j < contacts.len() ==> !(#[trigger] contacts[j]).active,
    ensures
        ({
            let after = reader.read_all(report_events(state, contacts, button));
            let now = after_report(state, contacts, button);
            &&& after.moved_x == reader.moved_x && after.moved_y == reader.moved_y
            &&& now.last_contact is None
            &&& now.remainder_x == 0 && now.remainder_y == 0
        }),
{
    first_index_is_first(contacts, is_active(), 0);
    match first_index(contacts, is_active(), 0) {
        Some(i) => {
            assert(is_active()(contacts[i]));
        },
        None => {},
    }
    let r = before_motion(reader, state, contacts, button);
    a_report_is_read_up_to_its_motion(reader, state, contacts, button);
    a_report_is_read_in_turn(reader, state, contacts, button);
    motion_is_read(r, travel(state, pointer_contact(contacts)));
    few_events_are_read(
        r.read_all(motion_events(travel(state, pointer_contact(contacts)))),
        seq![syn()],
    );
}

spec fn none_relative(events: Seq<InputEvent>) -> bool {
    forall|i: int| 0 <= i < events.len() ==> (#[trigger] events[i]).0 != 2
}

proof fn joined_stay_without_motion(head: Seq<InputEvent>, tail: Seq<InputEvent>)
    requires
        none_relative(head),
        none_relative(tail),
    ensures
        none_relative(head + tail),
{
    assert forall|i: int| 0 <= i < (head + tail).len() implies (#[trigger] (head + tail)[i]).0
        != 2 by {
        if i < head.len() {
            assert((head + tail)[i] == head[i]);
        } else {
            assert((head + tail)[i] == tail[i - head.len()]);
        }
    }
}

proof fn releases_are_no_motion(slots: Seq<Option<u8>>, contacts: Seq<Contact>, count: int)
    ensures
        none_relative(release_events(slots, contacts, count)),
    decreases count,
{
    if count > 0 {
        releases_are_no_motion(slots, contacts, count - 1);
        joined_stay_without_motion(
            release_events(slots, contacts, count - 1),
            if is_lifted(slots, contacts, count - 1) {
                release_of(count - 1)
            } else {
                Seq::empty()
            },
        );
    }
}

proof fn placements_are_no_motion(slots: Seq<Option<u8>>, contacts: Seq<Contact>)
    ensures
        none_relative(placed(slots, contacts).events),
    decreases contacts.len(),
{
    if contacts.len() > 0 {
        placements_are_no_motion(slots, contacts.drop_last());
        let before = placed(slots, contacts.drop_last());
        let contact = contacts.last();
        if !before.full && contact.active && slot_for(before.slots, contact.id) is Some {
            let slot = slot_for(before.slots, contact.id)->Some_0;
            joined_stay_without_motion(
                before.events,
                contact_events(contact, slot, before.slots[slot] is None),
            );
        }
    }
}

proof fn only_motion_is_relative(state: PointerView, contacts: Seq<Contact>, button: bool)
    requires
        travel(state, pointer_contact(contacts)) is None,
    ensures
        none_relative(report_events(state, contacts, button)),
{
    let a = release_events(state.slots, contacts, 5);
    let b = report_placement(state, contacts).events;
    let c = key_change(
        0x14a,
        any_occupied(state.slots),
        any_occupied(report_placement(state, contacts).slots),
    );
    let d = key_change(0x110, state.button_pressed, button);
    let e: Seq<InputEvent> = seq![syn()];
    releases_are_no_motion(state.slots, contacts, 5);
    placements_are_no_motion(released(state.slots, contacts), contacts);
    joined_stay_without_motion(a, b);
    joined_stay_without_motion(a + b, c);
    joined_stay_without_motion(a + b + c, d);
    joined_stay_without_motion(a + b + c + d, e);
    assert(report_events(state, contacts, button) =~= a + b + c + d + e);
}

/// After a disconnect the reader sees no touch in any slot, and neither the
/// touch nor the button.
pub proof fn a_disconnect_lets_everything_go(reader: ReaderView, state: PointerView)
    requires
        state.wf(),
        knows(reader, state),
    ensures
        ({
            let after = reader.read_all(disconnect_events(state));
            &&& forall|s: int|
                0 <= s < 5 ==> #[trigger] after.touches[(s as i32, 0x39u16)] == -1
            &&& after.keys[0x14au16] == 0 && after.keys[0x110u16] == 0
            &&& after.frames == reader.frames + 1
            &&& after.moved_x == reader.moved_x && after.moved_y == reader.moved_y
            &&& knows(after, PointerView::idle())
        }),
{
    let none = Seq::<Contact>::empty();
    let a = release_events(state.slots, none, 5);
    let b = key_change(0x14a, any_occupied(state.slots), false);
    let c = key_change(0x110, state.button_pressed, false);
    let d: Seq<InputEvent> = seq![syn()];
    assert(disconnect_events(state) =~= a + b + c + d);
    joined_events_are_read_in_turn(reader, a, b);
    joined_events_are_read_in_turn(reader, a + b, c);
    joined_events_are_read_in_turn(reader, a + b + c, d);
    releases_are_read(reader, state.slots, none, 5);
    let r1 = reader.read_all(a);
    a_key_change_is_read(r1, 0x14a, any_occupied(state.slots), false);
    let r2 = r1.read_all(b);
    a_key_change_is_read(r2, 0x110, state.button_pressed, false);
    let r3 = r2.read_all(c);
    few_events_are_read(r3, d);
    let after = reader.read_all(disconnect_events(state));
    assert(after.touches == r1.touches);
    assert forall|s: int| 0 <= s < 5 implies #[trigger] after.touches[(s as i32, 0x39u16)]
        == -1 by {
        assert(!is_held(none, state.slots[s]->Some_0));
        assert(r1.touches[(s as i32, 0x39u16)] == if is_lifted(state.slots, none, s) {
            -1i32
        } else {
            reader.touches[(s as i32, 0x39u16)]
        });
    }
}

/// A report is refused if it is not one, counts more than five contacts, or
/// has one identifier twice.
pub proof fn sound_reports_are_taken(report: Seq<u8>)
    ensures
        report_fault(report) is None <==> {
            &&& has_header(report)
            &&& contact_count(report) <= 5
            &&& ids_distinct(report_contacts(report, contact_count(report)))
        },
        has_header(report) <==> report.len() >= 44 && report[0] == 1,
{
}

/// The touchpad is one endpoint of one interface of one product.
pub proof fn the_touchpad_is_recognised(
    device: UsbDeviceIdentity,
    endpoint: UsbInterruptInEndpointInfo,
)
    ensures
        is_touchpad(device, endpoint) <==> {
            &&& device.vendor_id == 0x18d1 && device.product_id == 0x504c
            &&& endpoint.interface_number == 2 && endpoint.alternate_setting == 0
            &&& endpoint.interface_class == 3 && endpoint.interface_subclass == 0
                && endpoint.interface_protocol == 0
            &&& endpoint.endpoint_address == 0x83
            &&& endpoint.max_packet_size >= 44
        },
{
}

/// The axes that the touchpad declares.
pub proof fn axes_are_declared(r: Vec<AbsoluteAxis>)
    requires
        call_ensures(touchpad_axes, (), r),
    ensures
        r@ == seq![
            AbsoluteAxis { code: 0x2f, minimum: 0, maximum: 4 },
            AbsoluteAxis { code: 0x35, minimum: 0, maximum: 4095 },
            AbsoluteAxis { code: 0x36, minimum: 0, maximum: 4095 },
            AbsoluteAxis { code: 0x39, minimum: 0, maximum: 15 },
            AbsoluteAxis { code: 0x3a, minimum: 0, maximum: 511 },
            AbsoluteAxis { code: 0x30, minimum: 0, maximum: 4095 },
        ],
{
}

/// At rest nothing is touched or pressed, and no motion is left over.
pub proof fn at_rest_nothing_is_left_over(slot: int)
    requires
        0 <= slot < 5,
    ensures
        ({
            let rest = PointerView::idle();
            &&& rest.last_contact is None && !rest.button_pressed
            &&& rest.remainder_x == 0 && rest.remainder_y == 0
            &&& rest.slots.len() == 5 && rest.slots[slot] is None
        }),
{
}

} // verus!
