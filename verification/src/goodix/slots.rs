//! Type-B multitouch slots for successive contact lists.

use vstd::prelude::*;

use crate::bytes::{first_index, first_index_is_first};
use crate::goodix::hid::HidContact;

verus! {

/// What makes two contacts of successive frames the same touch.
#[derive(Clone, Copy, Debug, Eq, PartialEq, Structural)]
pub enum ContactIdentity {
    Hardware(i32),
    Descriptor(usize),
}

/// An occupied slot.
#[derive(Clone, Copy, Debug, Eq, PartialEq, Structural)]
pub struct TouchSlot {
    pub identity: ContactIdentity,
    pub tracking_id: i32,
    pub seen: bool,
}

/// One contact with the slot it was given.
#[derive(Clone, Copy, Debug, Eq, PartialEq, Structural)]
pub struct SlotUpdate {
    pub slot: usize,
    pub tracking_id: i32,
    pub began: bool,
    pub contact: HidContact,
}

/// What one contact list changes.
pub struct TouchFrame {
    pub updates: Vec<SlotUpdate>,
    pub releases: Vec<usize>,
    pub primary: Option<HidContact>,
    pub any_contact: bool,
}

/// Maps controller contacts to fixed type-B slots. Contact Identifier is
/// authoritative when present; descriptor positions are a stable fallback for
/// hardware which omits it.
pub struct SlotTracker {
    pub slots: Vec<Option<TouchSlot>>,
    pub next_tracking_id: i32,
}

/// The slots and the next tracking number.
#[verifier::ext_equal]
pub struct TrackerView {
    pub slots: Seq<Option<TouchSlot>>,
    pub next: i32,
}

pub open spec fn identity_of(contact: HidContact) -> ContactIdentity {
    match contact.hardware_id {
        Some(id) => ContactIdentity::Hardware(id),
        None => ContactIdentity::Descriptor(contact.descriptor_slot),
    }
}

/// Occupied by `identity` and not yet updated in this frame.
pub open spec fn waiting_for(identity: ContactIdentity) -> spec_fn(Option<TouchSlot>) -> bool {
    |s: Option<TouchSlot>| s is Some && s->Some_0.identity == identity && !s->Some_0.seen
}

/// Occupied by `identity` and already updated in this frame.
pub open spec fn updated_for(identity: ContactIdentity) -> spec_fn(Option<TouchSlot>) -> bool {
    |s: Option<TouchSlot>| s is Some && s->Some_0.identity == identity && s->Some_0.seen
}

pub open spec fn is_free() -> spec_fn(Option<TouchSlot>) -> bool {
    |s: Option<TouchSlot>| s is None
}

/// The tracking number after `id`; numbers stay positive.
pub open spec fn tracking_after(id: i32) -> i32 {
    if id == i32::MAX {
        1
    } else {
        (id + 1) as i32
    }
}

impl TrackerView {
    /// Positive tracking numbers, in the counter and in every occupied slot.
    pub open spec fn wf(self) -> bool {
        &&& self.next >= 1
        &&& forall|i: int|
            0 <= i < self.slots.len() ==> ((#[trigger] self.slots[i]) matches Some(slot)
                ==> slot.tracking_id >= 1)
    }

    /// The start of a frame: no slot has been updated.
    pub open spec fn frame_start(self) -> TrackerView {
        TrackerView {
            slots: Seq::new(
                self.slots.len(),
                |i: int|
                    match self.slots[i] {
                        Some(slot) => Some(TouchSlot { seen: false, ..slot }),
                        None => None,
                    },
            ),
            next: self.next,
        }
    }

    /// The slot for a contact: the one that waits for it, or else the first
    /// free one, or none.
    pub open spec fn slot_for(self, contact: HidContact) -> Option<int> {
        match first_index(self.slots, waiting_for(identity_of(contact)), 0) {
            Some(i) => Some(i),
            None => first_index(self.slots, is_free(), 0),
        }
    }

    /// The identity that a new touch is stored under. A second record with an
    /// identity already updated in this frame goes by its descriptor slot.
    pub open spec fn stored_identity(self, contact: HidContact) -> ContactIdentity {
        if first_index(self.slots, updated_for(identity_of(contact)), 0) is Some {
            ContactIdentity::Descriptor(contact.descriptor_slot)
        } else {
            identity_of(contact)
        }
    }

    /// The update that a contact gives.
    pub open spec fn update_for(self, contact: HidContact) -> Option<SlotUpdate> {
        match self.slot_for(contact) {
            None => None,
            Some(i) => Some(
                SlotUpdate {
                    slot: i as usize,
                    tracking_id: match self.slots[i] {
                        Some(slot) => slot.tracking_id,
                        None => self.next,
                    },
                    began: self.slots[i] is None,
                    contact,
                },
            ),
        }
    }

    /// The state after a contact was placed.
    pub open spec fn place(self, contact: HidContact) -> TrackerView {
        match self.slot_for(contact) {
            None => self,
            Some(i) => match self.slots[i] {
                Some(slot) => TrackerView {
                    slots: self.slots.update(i, Some(TouchSlot { seen: true, ..slot })),
                    next: self.next,
                },
                None => TrackerView {
                    slots: self.slots.update(
                        i,
                        Some(
                            TouchSlot {
                                identity: self.stored_identity(contact),
                                tracking_id: self.next,
                                seen: true,
                            },
                        ),
                    ),
                    next: tracking_after(self.next),
                },
            },
        }
    }

    /// The state after the first `count` contacts of a frame.
    pub open spec fn placed(self, contacts: Seq<HidContact>, count: int) -> TrackerView
        decreases count,
    {
        if count <= 0 {
            self.frame_start()
        } else {
            self.placed(contacts, count - 1).place(contacts[count - 1])
        }
    }

    /// The updates of the first `count` contacts of a frame.
    pub open spec fn updates(self, contacts: Seq<HidContact>, count: int) -> Seq<SlotUpdate>
        decreases count,
    {
        if count <= 0 {
            Seq::empty()
        } else {
            let before = self.updates(contacts, count - 1);
            match self.placed(contacts, count - 1).update_for(contacts[count - 1]) {
                Some(update) => before.push(update),
                None => before,
            }
        }
    }

    /// The slots below `count` that no contact of the frame updated.
    pub open spec fn stale(self, count: int) -> Seq<usize>
        decreases count,
    {
        if count <= 0 {
            Seq::empty()
        } else {
            let before = self.stale(count - 1);
            match self.slots[count - 1] {
                Some(slot) => if slot.seen {
                    before
                } else {
                    before.push((count - 1) as usize)
                },
                None => before,
            }
        }
    }

    /// The end of a frame: slots that were not updated are free.
    pub open spec fn frame_end(self) -> TrackerView {
        TrackerView {
            slots: Seq::new(
                self.slots.len(),
                |i: int|
                    match self.slots[i] {
                        Some(slot) => if slot.seen {
                            Some(slot)
                        } else {
                            None
                        },
                        None => None,
                    },
            ),
            next: self.next,
        }
    }
}

impl View for SlotTracker {
    type V = TrackerView;

    open spec fn view(&self) -> TrackerView {
        TrackerView { slots: self.slots@, next: self.next_tracking_id }
    }
}

impl SlotTracker {
    pub fn new(slot_count: usize) -> (r: Self)
        ensures
            r@.slots == Seq::new(slot_count as nat, |i: int| None::<TouchSlot>),
            r@.next == 1,
            r@.wf(),
    {
        let mut slots: Vec<Option<TouchSlot>> = Vec::new();
        let mut i: usize = 0;
        while i < slot_count
            invariant
                i <= slot_count,
                slots@ == Seq::new(i as nat, |j: int| None::<TouchSlot>),
            decreases slot_count - i,
        {
            slots.push(None);
            i = i + 1;
        }
        SlotTracker { slots, next_tracking_id: 1 }
    }

    pub fn contact_identity(contact: HidContact) -> (r: ContactIdentity)
        ensures
            r == identity_of(contact),
    {
        match contact.hardware_id {
            Some(id) => ContactIdentity::Hardware(id),
            None => ContactIdentity::Descriptor(contact.descriptor_slot),
        }
    }

    pub fn allocate_tracking_id(&mut self) -> (r: i32)
        requires
            old(self)@.wf(),
        ensures
            r == old(self)@.next,
            final(self)@ == (TrackerView {
                slots: old(self)@.slots,
                next: tracking_after(old(self)@.next),
            }),
            final(self)@.wf(),
    {
        let tracking_id: i32 = self.next_tracking_id;
        self.next_tracking_id = if tracking_id == i32::MAX {
            1
        } else {
            tracking_id + 1
        };
        tracking_id
    }

    fn start_frame(&mut self)
        requires
            old(self)@.wf(),
        ensures
            final(self)@ == old(self)@.frame_start(),
            final(self)@.wf(),
    {
        let ghost start = self@;
        let mut i: usize = 0;
        while i < self.slots.len()
            invariant
                start.wf(),
                i <= self.slots@.len() == start.slots.len(),
                self.next_tracking_id == start.next,
                forall|j: int|
                    0 <= j < i ==> #[trigger] self.slots@[j] == start.frame_start().slots[j],
                forall|j: int|
                    i <= j < start.slots.len() ==> #[trigger] self.slots@[j] == start.slots[j],
            decreases self.slots@.len() - i,
        {
            if let Some(slot) = self.slots[i] {
                self.slots.set(
                    i,
                    Some(
                        TouchSlot {
                            identity: slot.identity,
                            tracking_id: slot.tracking_id,
                            seen: false,
                        },
                    ),
                );
            }
            i = i + 1;
        }
        assert(self@ =~= start.frame_start());
        assert forall|j: int| 0 <= j < self@.slots.len() implies (
        (#[trigger] self@.slots[j]) matches Some(slot) ==> slot.tracking_id >= 1) by {
            assert(self@.slots[j] == start.frame_start().slots[j]);
            assert(start.slots[j] is Some ==> start.slots[j]->Some_0.tracking_id >= 1);
        }
    }

    /// The first slot of `identity` whose `seen` mark is as given.
    fn find_identity(&self, identity: ContactIdentity, seen: bool) -> (r: Option<usize>)
        ensures
            !seen ==> (match first_index(self@.slots, waiting_for(identity), 0) {
                Some(i) => r == Some(i as usize) && i <= usize::MAX,
                None => r is None,
            }),
            seen ==> (match first_index(self@.slots, updated_for(identity), 0) {
                Some(i) => r == Some(i as usize) && i <= usize::MAX,
                None => r is None,
            }),
    {
        let mut i: usize = 0;
        while i < self.slots.len()
            invariant
                i <= self.slots@.len(),
                !seen ==> first_index(self@.slots, waiting_for(identity), 0) == first_index(
                    self@.slots,
                    waiting_for(identity),
                    i as int,
                ),
                seen ==> first_index(self@.slots, updated_for(identity), 0) == first_index(
                    self@.slots,
                    updated_for(identity),
                    i as int,
                ),
            decreases self.slots@.len() - i,
        {
            if let Some(slot) = self.slots[i] {
                if slot.identity == identity && slot.seen == seen {
                    return Some(i);
                }
            }
            i = i + 1;
        }
        None
    }

    fn find_free(&self) -> (r: Option<usize>)
        ensures
            match first_index(self@.slots, is_free(), 0) {
                Some(i) => r == Some(i as usize) && i <= usize::MAX,
                None => r is None,
            },
    {
        let mut i: usize = 0;
        while i < self.slots.len()
            invariant
                i <= self.slots@.len(),
                first_index(self@.slots, is_free(), 0) == first_index(
                    self@.slots,
                    is_free(),
                    i as int,
                ),
            decreases self.slots@.len() - i,
        {
            if self.slots[i].is_none() {
                return Some(i);
            }
            i = i + 1;
        }
        None
    }

    fn place(&mut self, contact: HidContact) -> (r: Option<SlotUpdate>)
        requires
            old(self)@.wf(),
        ensures
            r == old(self)@.update_for(contact),
            final(self)@ == old(self)@.place(contact),
            final(self)@.wf(),
            final(self)@.slots.len() == old(self)@.slots.len(),
    {
        let identity = Self::contact_identity(contact);
        proof {
            first_index_is_first(self@.slots, waiting_for(identity), 0);
            first_index_is_first(self@.slots, is_free(), 0);
        }
        if let Some(index) = self.find_identity(identity, false) {
            let slot = self.slots[index].unwrap();
            self.slots.set(
                index,
                Some(
                    TouchSlot {
                        identity: slot.identity,
                        tracking_id: slot.tracking_id,
                        seen: true,
                    },
                ),
            );
            return Some(
                SlotUpdate { slot: index, tracking_id: slot.tracking_id, began: false, contact },
            );
        }
        match self.find_free() {
            None => None,
            Some(index) => {
                let stored = if self.find_identity(identity, true).is_some() {
                    ContactIdentity::Descriptor(contact.descriptor_slot)
                } else {
                    identity
                };
                let tracking_id: i32 = self.allocate_tracking_id();
                self.slots.set(index, Some(TouchSlot { identity: stored, tracking_id, seen: true }));
                Some(SlotUpdate { slot: index, tracking_id, began: true, contact })
            },
        }
    }

    fn end_frame(&mut self) -> (r: Vec<usize>)
        requires
            old(self)@.wf(),
        ensures
            r@ == old(self)@.stale(old(self)@.slots.len() as int),
            final(self)@ == old(self)@.frame_end(),
            final(self)@.wf(),
    {
        let ghost start = self@;
        let mut releases: Vec<usize> = Vec::new();
        let mut i: usize = 0;
        while i < self.slots.len()
            invariant
                start.wf(),
                i <= self.slots@.len() == start.slots.len(),
                self.next_tracking_id == start.next,
                releases@ == start.stale(i as int),
                forall|j: int|
                    0 <= j < i ==> #[trigger] self.slots@[j] == start.frame_end().slots[j],
                forall|j: int|
                    i <= j < start.slots.len() ==> #[trigger] self.slots@[j] == start.slots[j],
            decreases self.slots@.len() - i,
        {
            if let Some(slot) = self.slots[i] {
                if !slot.seen {
                    self.slots.set(i, None);
                    releases.push(i);
                }
            }
            i = i + 1;
        }
        assert(self@ =~= start.frame_end());
        assert forall|j: int| 0 <= j < self@.slots.len() implies (
        (#[trigger] self@.slots[j]) matches Some(slot) ==> slot.tracking_id >= 1) by {
            assert(self@.slots[j] == start.frame_end().slots[j]);
            assert(start.slots[j] is Some ==> start.slots[j]->Some_0.tracking_id >= 1);
        }
        releases
    }

    /// Gives each contact of a frame its slot and frees the slots of contacts
    /// that are gone.
    pub fn apply(&mut self, contacts: &[HidContact]) -> (r: TouchFrame)
        requires
            old(self)@.wf(),
        ensures
            r.updates@ == old(self)@.updates(contacts@, contacts@.len() as int),
            r.releases@ == old(self)@.placed(contacts@, contacts@.len() as int).stale(
                old(self)@.slots.len() as int,
            ),
            r.primary == (if contacts@.len() > 0 {
                Some(contacts@[0])
            } else {
                None::<HidContact>
            }),
            r.any_contact == (contacts@.len() > 0),
            final(self)@ == old(self)@.placed(contacts@, contacts@.len() as int).frame_end(),
            final(self)@.wf(),
            final(self)@.slots.len() == old(self)@.slots.len(),
    {
        self.start_frame();
        let mut updates: Vec<SlotUpdate> = Vec::new();
        let mut i: usize = 0;
        while i < contacts.len()
            invariant
                i <= contacts@.len(),
                self@.wf(),
                self@ == old(self)@.placed(contacts@, i as int),
                self@.slots.len() == old(self)@.slots.len(),
                updates@ == old(self)@.updates(contacts@, i as int),
            decreases contacts@.len() - i,
        {
            if let Some(update) = self.place(contacts[i]) {
                updates.push(update);
            }
            i = i + 1;
        }
        let releases = self.end_frame();
        TouchFrame {
            updates,
            releases,
            primary: if contacts.len() > 0 {
                Some(contacts[0])
            } else {
                None
            },
            any_contact: contacts.len() > 0,
        }
    }
}

/// Whether the slot was updated in this frame.
pub open spec fn slot_seen(slot: Option<TouchSlot>) -> bool {
    slot is Some && slot->Some_0.seen
}

/// A slot is marked as updated exactly where some update names it, and no two
/// updates name the same slot.
pub open spec fn updates_mark_slots(state: TrackerView, updates: Seq<SlotUpdate>) -> bool {
    &&& forall|i: int, j: int|
        #![trigger updates[i], updates[j]]
        0 <= i < j < updates.len() ==> updates[i].slot != updates[j].slot
    &&& forall|i: int|
        #![trigger updates[i]]
        0 <= i < updates.len() ==> updates[i].slot < state.slots.len() && slot_seen(
            state.slots[updates[i].slot as int],
        ) && state.slots[updates[i].slot as int]->Some_0.tracking_id == updates[i].tracking_id
    &&& forall|s: int|
        #![trigger state.slots[s]]
        0 <= s < state.slots.len() && slot_seen(state.slots[s]) ==> exists|i: int|
            0 <= i < updates.len() && (#[trigger] updates[i]).slot == s
}

pub(crate) proof fn placement_marks_slots(start: TrackerView, contacts: Seq<HidContact>, count: int)
    requires
        0 <= count <= contacts.len(),
        start.slots.len() <= usize::MAX,
    ensures
        start.placed(contacts, count).slots.len() == start.slots.len(),
        updates_mark_slots(start.placed(contacts, count), start.updates(contacts, count)),
    decreases count,
{
    if count > 0 {
        placement_marks_slots(start, contacts, count - 1);
        let before = start.placed(contacts, count - 1);
        let contact = contacts[count - 1];
        let updates = start.updates(contacts, count - 1);
        first_index_is_first(before.slots, waiting_for(identity_of(contact)), 0);
        first_index_is_first(before.slots, is_free(), 0);
        let after = start.placed(contacts, count);
        let all = start.updates(contacts, count);
        if let Some(at) = before.slot_for(contact) {
            assert(!slot_seen(before.slots[at]));
            assert(all == updates.push(before.update_for(contact)->Some_0));
            assert forall|s: int|
                #![trigger after.slots[s]]
                0 <= s < after.slots.len() && slot_seen(after.slots[s]) implies exists|i: int|
                0 <= i < all.len() && (#[trigger] all[i]).slot == s by {
                if s == at {
                    assert(all[all.len() - 1].slot == s);
                } else {
                    assert(after.slots[s] == before.slots[s]);
                    let i = choose|i: int|
                        0 <= i < updates.len() && (#[trigger] updates[i]).slot == s;
                    assert(all[i].slot == s);
                }
            }
        }
    }
}

/// One frame never updates a slot twice: the updates name pairwise different
/// slots, each with the tracking number that the slot then holds.
pub proof fn a_frame_updates_each_slot_once(start: TrackerView, contacts: Seq<HidContact>)
    requires
        start.slots.len() <= usize::MAX,
    ensures
        ({
            let updates = start.updates(contacts, contacts.len() as int);
            let end = start.placed(contacts, contacts.len() as int).frame_end();
            &&& forall|i: int, j: int|
                #![trigger updates[i], updates[j]]
                0 <= i < j < updates.len() ==> updates[i].slot != updates[j].slot
            &&& forall|i: int|
                #![trigger updates[i]]
                0 <= i < updates.len() ==> {
                    &&& updates[i].slot < end.slots.len()
                    &&& end.slots[updates[i].slot as int] matches Some(slot)
                    &&& slot.tracking_id == updates[i].tracking_id
                }
        }),
{
    placement_marks_slots(start, contacts, contacts.len() as int);
}

/// After a frame the occupied slots are exactly those that the frame updated.
pub proof fn occupied_slots_are_the_updated_ones(
    start: TrackerView,
    contacts: Seq<HidContact>,
    slot: int,
)
    requires
        start.slots.len() <= usize::MAX,
        0 <= slot < start.slots.len(),
    ensures
        start.placed(contacts, contacts.len() as int).frame_end().slots[slot] is Some <==> exists|
            i: int,
        |
            0 <= i < start.updates(contacts, contacts.len() as int).len() && (
            #[trigger] start.updates(contacts, contacts.len() as int)[i]).slot == slot,
{
    placement_marks_slots(start, contacts, contacts.len() as int);
    let placed = start.placed(contacts, contacts.len() as int);
    assert(placed.frame_end().slots[slot] is Some <==> slot_seen(placed.slots[slot]));
}

/// An empty frame updates nothing, frees every slot and names each slot that
/// was occupied as released.
pub proof fn an_empty_frame_releases_everything(start: TrackerView, count: int)
    requires
        0 <= count <= start.slots.len() <= usize::MAX,
    ensures
        start.updates(Seq::empty(), 0) == Seq::<SlotUpdate>::empty(),
        forall|i: int|
            0 <= i < start.slots.len() ==> (
            #[trigger] start.placed(Seq::empty(), 0).frame_end().slots[i]) is None,
        forall|i: int|
            #![trigger start.slots[i]]
            0 <= i < count ==> (start.slots[i] is Some <==> start.placed(
                Seq::<HidContact>::empty(),
                0,
            ).stale(count).contains(i as usize)),
    decreases count,
{
    if count > 0 {
        an_empty_frame_releases_everything(start, count - 1);
        let placed = start.placed(Seq::<HidContact>::empty(), 0);
        let before = placed.stale(count - 1);
        let now = placed.stale(count);
        stale_slots_are_below(placed, count - 1);
        assert forall|i: int|
            #![trigger start.slots[i]]
            0 <= i < count implies (start.slots[i] is Some <==> now.contains(i as usize)) by {
            if i == count - 1 {
                if start.slots[i] is Some {
                    assert(now[now.len() - 1] == i as usize);
                } else {
                    assert(now == before);
                }
            } else if start.slots[count - 1] is Some {
                assert(now == before.push((count - 1) as usize));
                if before.contains(i as usize) {
                    let k = choose|k: int| 0 <= k < before.len() && before[k] == i as usize;
                    assert(now[k] == i as usize);
                }
                if now.contains(i as usize) {
                    let k = choose|k: int| 0 <= k < now.len() && now[k] == i as usize;
                    assert(before[k] == i as usize);
                }
            }
        }
    }
}

proof fn stale_slots_are_below(state: TrackerView, count: int)
    requires
        count <= usize::MAX,
    ensures
        forall|k: int|
            0 <= k < state.stale(count).len() ==> (#[trigger] state.stale(count)[k]) < count,
    decreases count,
{
    if count > 0 {
        stale_slots_are_below(state, count - 1);
        let before = state.stale(count - 1);
        assert forall|k: int| 0 <= k < state.stale(count).len() implies (
        #[trigger] state.stale(count)[k]) < count by {
            if k < before.len() {
                assert(state.stale(count)[k] == before[k]);
            }
        }
    }
}

proof fn other_contacts_leave_a_waiting_slot(
    start: TrackerView,
    contacts: Seq<HidContact>,
    count: int,
    identity: ContactIdentity,
)
    requires
        0 <= count <= contacts.len(),
        forall|j: int|
            0 <= j < count ==> identity_of(#[trigger] contacts[j]) != identity,
    ensures
        start.placed(contacts, count).slots.len() == start.slots.len(),
        forall|s: int|
            #![trigger start.slots[s]]
            0 <= s < start.slots.len() ==> {
                let slot = start.placed(contacts, count).slots[s];
                &&& waiting_for(identity)(slot) <==> (start.slots[s] matches Some(old_slot)
                    && old_slot.identity == identity)
                &&& waiting_for(identity)(slot) ==> slot->Some_0.tracking_id
                    == start.slots[s]->Some_0.tracking_id
            },
    decreases count,
{
    if count > 0 {
        other_contacts_leave_a_waiting_slot(start, contacts, count - 1, identity);
        let before = start.placed(contacts, count - 1);
        let contact = contacts[count - 1];
        first_index_is_first(before.slots, waiting_for(identity_of(contact)), 0);
        first_index_is_first(before.slots, is_free(), 0);
        let after = start.placed(contacts, count);
        assert forall|s: int|
            #![trigger start.slots[s]]
            0 <= s < start.slots.len() implies {
            let slot = after.slots[s];
            &&& waiting_for(identity)(slot) <==> (start.slots[s] matches Some(old_slot)
                && old_slot.identity == identity)
            &&& waiting_for(identity)(slot) ==> slot->Some_0.tracking_id
                == start.slots[s]->Some_0.tracking_id
        } by {
            if before.slot_for(contact) == Some(s) {
                assert(!waiting_for(identity)(before.slots[s]));
            } else {
                assert(after.slots[s] == before.slots[s]);
            }
        }
    }
}

proof fn first_index_depends_on_the_matches<T>(
    a: Seq<T>,
    p: spec_fn(T) -> bool,
    b: Seq<T>,
    q: spec_fn(T) -> bool,
    from: int,
)
    requires
        0 <= from,
        a.len() == b.len(),
        forall|i: int| 0 <= i < a.len() ==> p(#[trigger] a[i]) == q(b[i]),
    ensures
        first_index(a, p, from) == first_index(b, q, from),
    decreases a.len() - from,
{
    if from < a.len() {
        assert(p(a[from]) == q(b[from]));
        first_index_depends_on_the_matches(a, p, b, q, from + 1);
    }
}

/// Occupied by `identity`, whatever its mark.
pub open spec fn held_by(identity: ContactIdentity) -> spec_fn(Option<TouchSlot>) -> bool {
    |s: Option<TouchSlot>| s is Some && s->Some_0.identity == identity
}

/// A touch keeps its slot. Where a slot is occupied by the identity of a
/// contact, the first contact of that identity in the next frame updates the
/// first such slot, with the same tracking number and no new beginning,
/// whatever the order of the contacts.
pub proof fn a_touch_keeps_its_slot(
    start: TrackerView,
    contacts: Seq<HidContact>,
    index: int,
    slot: int,
)
    requires
        0 <= index < contacts.len(),
        forall|j: int|
            0 <= j < index ==> identity_of(#[trigger] contacts[j]) != identity_of(contacts[index]),
        first_index(start.slots, held_by(identity_of(contacts[index])), 0) == Some(slot),
    ensures
        start.placed(contacts, index).update_for(contacts[index]) == Some(
            SlotUpdate {
                slot: slot as usize,
                tracking_id: start.slots[slot]->Some_0.tracking_id,
                began: false,
                contact: contacts[index],
            },
        ),
{
    let identity = identity_of(contacts[index]);
    first_index_is_first(start.slots, held_by(identity), 0);
    other_contacts_leave_a_waiting_slot(start, contacts, index, identity);
    let now = start.placed(contacts, index);
    assert forall|i: int| 0 <= i < start.slots.len() implies held_by(identity)(
        #[trigger] start.slots[i],
    ) == waiting_for(identity)(now.slots[i]) by {}
    first_index_depends_on_the_matches(
        start.slots,
        held_by(identity),
        now.slots,
        waiting_for(identity),
        0,
    );
    assert(waiting_for(identity)(now.slots[slot]));
}

} // verus!
