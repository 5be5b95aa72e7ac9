//! What a reader of the touchscreen's events makes of a frame.

use vstd::prelude::*;

use crate::bytes::{first_index, first_index_is_first};
use crate::goodix::{all_update_events, frame_events, primary_events, release_events, update_events};
use crate::goodix::hid::HidContact;
use crate::goodix::slots::{
    identity_of, is_free, placement_marks_slots, slot_seen, waiting_for, SlotUpdate, TrackerView,
};
use crate::goodix::touches::{
    frame_releases, frame_updates, names_slot, releases_are_the_slots_left_out,
    touches_begin_in_free_slots,
};
use crate::input::InputEvent;
use crate::input::reader::{few_events_are_read, joined_events_are_read_in_turn, ReaderView};

verus! {

/// The events that a list of contacts gives.
pub open spec fn contact_list_events(start: TrackerView, contacts: Seq<HidContact>) -> Seq<
    InputEvent,
> {
    frame_events(
        start.updates(contacts, contacts.len() as int),
        start.placed(contacts, contacts.len() as int).stale(start.slots.len() as int),
        if contacts.len() > 0 {
            Some(contacts[0])
        } else {
            None
        },
        contacts.len() > 0,
    )
}

/// The reader sees a contact in a slot: its position, and its pressure and size
/// where the contact has them.
pub open spec fn shows_contact(reader: ReaderView, slot: i32, contact: HidContact) -> bool {
    &&& reader.touches[(slot, 0x35u16)] == contact.x
    &&& reader.touches[(slot, 0x36u16)] == contact.y
    &&& contact.pressure matches Some(pressure) ==> reader.touches[(slot, 0x3au16)] == pressure
    &&& contact.touch_major matches Some(size) ==> reader.touches[(slot, 0x30u16)] == size
}

/// Only multitouch values differ, and the slot they refer to.
spec fn same_but_touches(a: ReaderView, b: ReaderView) -> bool {
    a == (ReaderView { slot: a.slot, touches: a.touches, ..b })
}

/// Every slot but this one reads as before.
spec fn others_stay(a: ReaderView, b: ReaderView, slot: i32) -> bool {
    forall|s: i32, code: u16|
        s != slot ==> #[trigger] a.touches[(s, code)] == b.touches[(s, code)]
}

proof fn an_update_is_read(reader: ReaderView, update: SlotUpdate)
    ensures
        ({
            let after = reader.read_all(update_events(update));
            let slot = update.slot as i32;
            &&& shows_contact(after, slot, update.contact)
            &&& after.touches[(slot, 0x39u16)] == if update.began {
                update.tracking_id
            } else {
                reader.touches[(slot, 0x39u16)]
            }
            &&& others_stay(after, reader, slot)
            &&& same_but_touches(after, reader)
        }),
{
    few_events_are_read(reader, update_events(update));
}

/// What the updates of a list show, once all of them were read.
proof fn updates_are_read(reader: ReaderView, updates: Seq<SlotUpdate>)
    requires
        forall|i: int| 0 <= i < updates.len() ==> (#[trigger] updates[i]).slot < 0x8000_0000,
        forall|i: int, j: int|
            #![trigger updates[i], updates[j]]
            0 <= i < j < updates.len() ==> updates[i].slot != updates[j].slot,
    ensures
        ({
            let after = reader.read_all(all_update_events(updates));
            &&& forall|i: int|
                #![trigger updates[i]]
                0 <= i < updates.len() ==> {
                    let slot = updates[i].slot as i32;
                    &&& shows_contact(after, slot, updates[i].contact)
                    &&& after.touches[(slot, 0x39u16)] == if updates[i].began {
                        updates[i].tracking_id
                    } else {
                        reader.touches[(slot, 0x39u16)]
                    }
                }
            &&& forall|s: i32, code: u16|
                !names_slot(updates, s as int) ==> #[trigger] after.touches[(s, code)]
                    == reader.touches[(s, code)]
            &&& same_but_touches(after, reader)
        }),
    decreases updates.len(),
{
    if updates.len() > 0 {
        let head = updates.drop_last();
        let last = updates.last();
        assert forall|i: int, j: int|
            #![trigger head[i], head[j]]
            0 <= i < j < head.len() implies head[i].slot != head[j].slot by {
            assert(head[i] == updates[i] && head[j] == updates[j]);
        }
        updates_are_read(reader, head);
        let before = reader.read_all(all_update_events(head));
        joined_events_are_read_in_turn(reader, all_update_events(head), update_events(last));
        an_update_is_read(before, last);
        let after = reader.read_all(all_update_events(updates));
        assert(!names_slot(head, last.slot as int)) by {
            if names_slot(head, last.slot as int) {
                let i = choose|i: int|
                    0 <= i < head.len() && (#[trigger] head[i]).slot == last.slot;
                assert(updates[i].slot != updates[updates.len() - 1].slot);
            }
        }
        assert forall|i: int|
            #![trigger updates[i]]
            0 <= i < updates.len() implies {
            let slot = updates[i].slot as i32;
            &&& shows_contact(after, slot, updates[i].contact)
            &&& after.touches[(slot, 0x39u16)] == if updates[i].began {
                updates[i].tracking_id
            } else {
                reader.touches[(slot, 0x39u16)]
            }
        } by {
            let slot = updates[i].slot as i32;
            if i < head.len() {
                assert(head[i] == updates[i]);
                assert(updates[i].slot != updates[updates.len() - 1].slot);
                assert(after.touches[(slot, 0x35u16)] == before.touches[(slot, 0x35u16)]);
                assert(after.touches[(slot, 0x36u16)] == before.touches[(slot, 0x36u16)]);
                assert(after.touches[(slot, 0x3au16)] == before.touches[(slot, 0x3au16)]);
                assert(after.touches[(slot, 0x30u16)] == before.touches[(slot, 0x30u16)]);
                assert(after.touches[(slot, 0x39u16)] == before.touches[(slot, 0x39u16)]);
            } else {
                assert(before.touches[(slot, 0x39u16)] == reader.touches[(slot, 0x39u16)]);
            }
        }
        assert forall|s: i32, code: u16| !names_slot(updates, s as int) implies
            #[trigger] after.touches[(s, code)] == reader.touches[(s, code)] by {
            assert(s != last.slot as i32) by {
                assert(updates[updates.len() - 1].slot != s);
            }
            if names_slot(head, s as int) {
                let i = choose|i: int| 0 <= i < head.len() && (#[trigger] head[i]).slot == s;
                assert(updates[i].slot == s);
            }
            assert(after.touches[(s, code)] == before.touches[(s, code)]);
        }
    }
}

proof fn releases_are_read(reader: ReaderView, releases: Seq<usize>)
    requires
        forall|i: int| 0 <= i < releases.len() ==> (#[trigger] releases[i]) < 0x8000_0000,
    ensures
        ({
            let after = reader.read_all(release_events(releases));
            &&& forall|s: i32, code: u16|
                s >= 0 ==> #[trigger] after.touches[(s, code)] == if code == 0x39
                    && releases.contains(s as usize) {
                    -1i32
                } else {
                    reader.touches[(s, code)]
                }
            &&& same_but_touches(after, reader)
        }),
    decreases releases.len(),
{
    if releases.len() > 0 {
        let head = releases.drop_last();
        let last = releases.last();
        releases_are_read(reader, head);
        let before = reader.read_all(release_events(head));
        let tail: Seq<InputEvent> = seq![(3u16, 0x2fu16, last as i32), (3u16, 0x39u16, -1i32)];
        assert(release_events(releases) =~= release_events(head) + tail);
        joined_events_are_read_in_turn(reader, release_events(head), tail);
        few_events_are_read(before, tail);
        let after = reader.read_all(release_events(releases));
        assert forall|s: i32, code: u16| s >= 0 implies #[trigger] after.touches[(s, code)]
            == if code == 0x39 && releases.contains(s as usize) {
            -1i32
        } else {
            reader.touches[(s, code)]
        } by {
            if releases.contains(s as usize) {
                let k = choose|k: int| 0 <= k < releases.len() && releases[k] == s as usize;
                if k < head.len() {
                    assert(head[k] == s as usize);
                } else {
                    assert(last == s as usize);
                }
            }
            if head.contains(s as usize) {
                let k = choose|k: int| 0 <= k < head.len() && head[k] == s as usize;
                assert(releases[k] == s as usize);
            }
            if last == s as usize {
                assert(releases[releases.len() - 1] == s as usize);
            }
            assert(before.touches[(s, code)] == before.touches[(s, code)]);
        }
    }
}

/// What the frame of a contact list shows to a reader: every contact that was
/// given a slot is seen there, at its own position; a slot that was left shows
/// no touch; a slot of neither kind reads as before. The first contact is seen
/// as the single touch, the touch key follows whether there is any contact, and
/// one frame is closed.
pub proof fn a_reader_sees_the_contacts(
    reader: ReaderView,
    start: TrackerView,
    contacts: Seq<HidContact>,
)
    requires
        start.slots.len() <= 0x8000_0000,
    ensures
        ({
            let updates = start.updates(contacts, contacts.len() as int);
            let releases = start.placed(contacts, contacts.len() as int).stale(
                start.slots.len() as int,
            );
            let after = reader.read_all(contact_list_events(start, contacts));
            &&& forall|i: int|
                #![trigger updates[i]]
                0 <= i < updates.len() ==> {
                    let slot = updates[i].slot as i32;
                    &&& shows_contact(after, slot, updates[i].contact)
                    &&& after.touches[(slot, 0x39u16)] == if updates[i].began {
                        updates[i].tracking_id
                    } else {
                        reader.touches[(slot, 0x39u16)]
                    }
                }
            &&& forall|s: i32, code: u16|
                s >= 0 && !names_slot(updates, s as int) ==> #[trigger] after.touches[(s, code)]
                    == if code == 0x39 && releases.contains(s as usize) {
                    -1i32
                } else {
                    reader.touches[(s, code)]
                }
            &&& contacts.len() > 0 ==> {
                &&& after.axes[0u16] == contacts[0].x
                &&& after.axes[1u16] == contacts[0].y
                &&& contacts[0].pressure matches Some(pressure) ==> after.axes[0x18u16] == pressure
            }
            &&& contacts.len() == 0 ==> after.axes == reader.axes
            &&& after.keys == reader.keys.insert(
                0x14au16,
                if contacts.len() > 0 {
                    1i32
                } else {
                    0i32
                },
            )
            &&& after.frames == reader.frames + 1
            &&& after.moved_x == reader.moved_x && after.moved_y == reader.moved_y
        }),
{
    let updates = frame_updates(start, contacts);
    let releases = frame_releases(start, contacts);
    let primary = if contacts.len() > 0 {
        Some(contacts[0])
    } else {
        None
    };
    placement_marks_slots(start, contacts, contacts.len() as int);
    releases_are_the_slots_left_out(start, contacts);
    assert forall|i: int| 0 <= i < releases.len() implies (#[trigger] releases[i])
        < 0x8000_0000 by {
        assert(releases.contains(releases[i]));
    }
    let a = all_update_events(updates);
    let b = release_events(releases);
    let c = primary_events(primary);
    let d: Seq<InputEvent> = seq![
        (
            1u16,
            0x14au16,
            if contacts.len() > 0 {
                1i32
            } else {
                0i32
            },
        ),
        (0u16, 0u16, 0i32),
    ];
    assert(contact_list_events(start, contacts) =~= a + b + c + d);
    joined_events_are_read_in_turn(reader, a, b);
    joined_events_are_read_in_turn(reader, a + b, c);
    joined_events_are_read_in_turn(reader, a + b + c, d);
    updates_are_read(reader, updates);
    let r1 = reader.read_all(a);
    releases_are_read(r1, releases);
    let r2 = r1.read_all(b);
    few_events_are_read(r2, c);
    let r3 = r2.read_all(c);
    few_events_are_read(r3, d);
    let after = r3.read_all(d);
    assert(after.touches == r2.touches);
    assert forall|i: int|
        #![trigger updates[i]]
        0 <= i < updates.len() implies {
        let slot = updates[i].slot as i32;
        &&& shows_contact(after, slot, updates[i].contact)
        &&& after.touches[(slot, 0x39u16)] == if updates[i].began {
            updates[i].tracking_id
        } else {
            reader.touches[(slot, 0x39u16)]
        }
    } by {
        let slot = updates[i].slot as i32;
        assert(names_slot(updates, slot as int));
        assert(!releases.contains(slot as usize));
        assert(r2.touches[(slot, 0x35u16)] == r1.touches[(slot, 0x35u16)]);
        assert(r2.touches[(slot, 0x36u16)] == r1.touches[(slot, 0x36u16)]);
        assert(r2.touches[(slot, 0x3au16)] == r1.touches[(slot, 0x3au16)]);
        assert(r2.touches[(slot, 0x30u16)] == r1.touches[(slot, 0x30u16)]);
        assert(r2.touches[(slot, 0x39u16)] == r1.touches[(slot, 0x39u16)]);
    }
    assert forall|s: i32, code: u16| s >= 0 && !names_slot(updates, s as int) implies
        #[trigger] after.touches[(s, code)] == if code == 0x39 && releases.contains(s as usize) {
        -1i32
    } else {
        reader.touches[(s, code)]
    } by {
        assert(r2.touches[(s, code)] == if code == 0x39 && releases.contains(s as usize) {
            -1i32
        } else {
            r1.touches[(s, code)]
        });
        assert(r1.touches[(s, code)] == reader.touches[(s, code)]);
    }
}

/// The reader and the tracker agree on which touch is in which slot.
pub open spec fn in_step(reader: ReaderView, tracker: TrackerView) -> bool {
    forall|s: int|
        #![trigger tracker.slots[s]]
        0 <= s < tracker.slots.len() ==> reader.touches[(s as i32, 0x39u16)]
            == match tracker.slots[s] {
            Some(slot) => slot.tracking_id,
            None => -1i32,
        }
}

proof fn going_on_keeps_the_number(start: TrackerView, contacts: Seq<HidContact>, count: int)
    requires
        0 <= count <= contacts.len(),
        start.slots.len() <= usize::MAX,
    ensures
        start.placed(contacts, count).slots.len() == start.slots.len(),
        forall|s: int|
            #![trigger start.slots[s]]
            0 <= s < start.slots.len() && start.slots[s] is Some ==> {
                &&& start.placed(contacts, count).slots[s] is Some
                &&& start.placed(contacts, count).slots[s]->Some_0.tracking_id
                    == start.slots[s]->Some_0.tracking_id
                &&& start.placed(contacts, count).slots[s]->Some_0.identity
                    == start.slots[s]->Some_0.identity
            },
    decreases count,
{
    if count > 0 {
        going_on_keeps_the_number(start, contacts, count - 1);
        let before = start.placed(contacts, count - 1);
        let contact = contacts[count - 1];
        let after = start.placed(contacts, count);
        first_index_is_first(before.slots, waiting_for(identity_of(contact)), 0);
        first_index_is_first(before.slots, is_free(), 0);
        assert forall|s: int|
            #![trigger start.slots[s]]
            0 <= s < start.slots.len() && start.slots[s] is Some implies {
            &&& after.slots[s] is Some
            &&& after.slots[s]->Some_0.tracking_id == start.slots[s]->Some_0.tracking_id
            &&& after.slots[s]->Some_0.identity == start.slots[s]->Some_0.identity
        } by {
            assert(before.slots[s] is Some);
            if before.slot_for(contact) != Some(s) {
                assert(after.slots[s] == before.slots[s]);
            }
        }
    }
}

/// A reader that knows which touch is in which slot knows it after every frame:
/// the tracking numbers that it sees are those of the tracker, and a free slot
/// shows none.
pub proof fn a_reader_stays_in_step(
    reader: ReaderView,
    start: TrackerView,
    contacts: Seq<HidContact>,
)
    requires
        start.slots.len() <= 0x8000_0000,
        in_step(reader, start),
    ensures
        in_step(
            reader.read_all(contact_list_events(start, contacts)),
            start.placed(contacts, contacts.len() as int).frame_end(),
        ),
{
    let n = contacts.len() as int;
    let updates = start.updates(contacts, n);
    let placed = start.placed(contacts, n);
    let end = placed.frame_end();
    a_reader_sees_the_contacts(reader, start, contacts);
    placement_marks_slots(start, contacts, n);
    releases_are_the_slots_left_out(start, contacts);
    going_on_keeps_the_number(start, contacts, n);
    let releases = frame_releases(start, contacts);
    let after = reader.read_all(contact_list_events(start, contacts));
    assert forall|s: int|
        #![trigger end.slots[s]]
        0 <= s < end.slots.len() implies after.touches[(s as i32, 0x39u16)]
        == match end.slots[s] {
        Some(slot) => slot.tracking_id,
        None => -1i32,
    } by {
        assert(reader.touches[(s as i32, 0x39u16)] == match start.slots[s] {
            Some(slot) => slot.tracking_id,
            None => -1i32,
        });
        if names_slot(updates, s) {
            let i = choose|i: int| 0 <= i < updates.len() && (#[trigger] updates[i]).slot == s;
            touches_begin_in_free_slots(start, contacts, i);
            assert(slot_seen(placed.slots[s]));
        } else {
            assert(!slot_seen(placed.slots[s]));
            assert(end.slots[s] is None);
            assert(releases.contains(s as usize) <==> start.slots[s] is Some);
            assert(after.touches[(s as i32, 0x39u16)] == if releases.contains(s as usize) {
                -1i32
            } else {
                reader.touches[(s as i32, 0x39u16)]
            });
        }
    }
}

/// Two contacts are the same touch exactly where the controller gives both the
/// same identifier, or gives neither one and both are in the same record.
pub proof fn the_controller_identifies_touches(a: HidContact, b: HidContact)
    ensures
        identity_of(a) == identity_of(b) <==> match (a.hardware_id, b.hardware_id) {
            (Some(id), Some(other)) => id == other,
            (None, None) => a.descriptor_slot == b.descriptor_slot,
            _ => false,
        },
{
}

proof fn first_contacts_are_placed(start: TrackerView, contacts: Seq<HidContact>, count: int)
    requires
        0 <= count <= contacts.len() <= start.slots.len() <= usize::MAX,
        1 <= start.next,
        start.next + contacts.len() <= i32::MAX,
        forall|s: int| 0 <= s < start.slots.len() ==> (#[trigger] start.slots[s]) is None,
    ensures
        ({
            let now = start.placed(contacts, count);
            let updates = start.updates(contacts, count);
            &&& now.slots.len() == start.slots.len()
            &&& now.next == start.next + count
            &&& forall|s: int|
                0 <= s < now.slots.len() ==> ((#[trigger] now.slots[s]) is Some <==> s < count)
            &&& forall|s: int| 0 <= s < count ==> slot_seen(#[trigger] now.slots[s])
            &&& updates.len() == count
            &&& forall|i: int|
                0 <= i < count ==> #[trigger] updates[i] == (SlotUpdate {
                    slot: i as usize,
                    tracking_id: (start.next + i) as i32,
                    began: true,
                    contact: contacts[i],
                })
        }),
    decreases count,
{
    if count > 0 {
        first_contacts_are_placed(start, contacts, count - 1);
        let before = start.placed(contacts, count - 1);
        let contact = contacts[count - 1];
        first_index_is_first(before.slots, waiting_for(identity_of(contact)), 0);
        first_index_is_first(before.slots, is_free(), 0);
        match first_index(before.slots, waiting_for(identity_of(contact)), 0) {
            Some(i) => {
                assert(waiting_for(identity_of(contact))(before.slots[i]));
                assert(slot_seen(before.slots[i]));
            },
            None => {},
        }
        assert(is_free()(before.slots[count - 1]));
        match first_index(before.slots, is_free(), 0) {
            Some(i) => {
                if i < count - 1 {
                    assert(before.slots[i] is Some);
                }
                assert(i == count - 1);
            },
            None => {},
        }
    }
}

/// With all slots free, the contacts of a frame take the slots in order, all of
/// them, and each begins a touch of its own number.
pub proof fn first_contacts_fill_the_slots(start: TrackerView, contacts: Seq<HidContact>)
    requires
        contacts.len() <= start.slots.len() <= usize::MAX,
        1 <= start.next,
        start.next + contacts.len() <= i32::MAX,
        forall|s: int| 0 <= s < start.slots.len() ==> (#[trigger] start.slots[s]) is None,
    ensures
        start.updates(contacts, contacts.len() as int) == Seq::new(
            contacts.len(),
            |i: int|
                SlotUpdate {
                    slot: i as usize,
                    tracking_id: (start.next + i) as i32,
                    began: true,
                    contact: contacts[i],
                },
        ),
{
    first_contacts_are_placed(start, contacts, contacts.len() as int);
    assert(start.updates(contacts, contacts.len() as int) =~= Seq::new(
        contacts.len(),
        |i: int|
            SlotUpdate {
                slot: i as usize,
                tracking_id: (start.next + i) as i32,
                began: true,
                contact: contacts[i],
            },
    ));
}

} // verus!
