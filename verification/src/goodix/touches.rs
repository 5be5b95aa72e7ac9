//! What holds of the touches of one frame and of successive frames.

use vstd::prelude::*;

use crate::bytes::{first_index, first_index_is_first};
use crate::goodix::hid::HidContact;
use crate::goodix::slots::{
    a_touch_keeps_its_slot, held_by, identity_of, is_free, placement_marks_slots, slot_seen,
    updated_for, waiting_for, SlotUpdate, TrackerView,
};

verus! {

// One frame.

/// A frame as a whole.
pub open spec fn frame_updates(start: TrackerView, contacts: Seq<HidContact>) -> Seq<SlotUpdate> {
    start.updates(contacts, contacts.len() as int)
}

pub open spec fn frame_releases(start: TrackerView, contacts: Seq<HidContact>) -> Seq<usize> {
    start.placed(contacts, contacts.len() as int).stale(start.slots.len() as int)
}

pub open spec fn after_frame(start: TrackerView, contacts: Seq<HidContact>) -> TrackerView {
    start.placed(contacts, contacts.len() as int).frame_end()
}

/// Some update of a list names a slot.
pub open spec fn names_slot(updates: Seq<SlotUpdate>, slot: int) -> bool {
    exists|i: int| 0 <= i < updates.len() && (#[trigger] updates[i]).slot == slot
}

/// The updates are of the contacts at these places, which ascend.
pub open spec fn picks(
    places: Seq<int>,
    contacts: Seq<HidContact>,
    updates: Seq<SlotUpdate>,
) -> bool {
    &&& places.len() == updates.len()
    &&& forall|i: int|
        #![trigger places[i]]
        0 <= i < places.len() ==> 0 <= places[i] < contacts.len() && updates[i].contact
            == contacts[places[i]]
    &&& forall|i: int, j: int|
        #![trigger places[i], places[j]]
        0 <= i < j < places.len() ==> places[i] < places[j]
}

proof fn held_slots_stay_held(start: TrackerView, contacts: Seq<HidContact>, count: int)
    requires
        0 <= count <= contacts.len(),
        start.slots.len() <= usize::MAX,
    ensures
        start.placed(contacts, count).slots.len() == start.slots.len(),
        forall|s: int|
            #![trigger start.placed(contacts, count).slots[s]]
            0 <= s < start.slots.len() ==> {
                let slot = start.placed(contacts, count).slots[s];
                &&& start.slots[s] is Some ==> slot is Some
                &&& slot is Some && !slot_seen(slot) ==> start.slots[s] is Some
            },
        forall|i: int|
            #![trigger start.updates(contacts, count)[i]]
            0 <= i < start.updates(contacts, count).len() ==> {
                let update = start.updates(contacts, count)[i];
                update.slot < start.slots.len() && update.began == (
                start.slots[update.slot as int] is None)
            },
    decreases count,
{
    if count > 0 {
        held_slots_stay_held(start, contacts, count - 1);
        let before = start.placed(contacts, count - 1);
        let contact = contacts[count - 1];
        let after = start.placed(contacts, count);
        let updates = start.updates(contacts, count - 1);
        let all = start.updates(contacts, count);
        first_index_is_first(before.slots, waiting_for(identity_of(contact)), 0);
        first_index_is_first(before.slots, is_free(), 0);
        assert forall|s: int|
            #![trigger after.slots[s]]
            0 <= s < start.slots.len() implies {
            let slot = after.slots[s];
            &&& start.slots[s] is Some ==> slot is Some
            &&& slot is Some && !slot_seen(slot) ==> start.slots[s] is Some
        } by {
            if before.slot_for(contact) != Some(s) {
                assert(after.slots[s] == before.slots[s]);
            }
        }
        assert forall|i: int|
            #![trigger all[i]]
            0 <= i < all.len() implies {
            let update = all[i];
            update.slot < start.slots.len() && update.began == (start.slots[update.slot as int]
                is None)
        } by {
            if i < updates.len() {
                assert(all[i] == updates[i]);
            } else {
                let at = before.slot_for(contact)->Some_0;
                assert(all[i] == before.update_for(contact)->Some_0);
                assert(before.slots[at] is Some ==> !slot_seen(before.slots[at]));
            }
        }
    }
}

proof fn stale_slots_ascend(state: TrackerView, count: int)
    requires
        0 <= count <= state.slots.len() <= usize::MAX,
    ensures
        forall|i: int, j: int|
            #![trigger state.stale(count)[i], state.stale(count)[j]]
            0 <= i < j < state.stale(count).len() ==> state.stale(count)[i] < state.stale(
                count,
            )[j],
        forall|i: int|
            #![trigger state.stale(count)[i]]
            0 <= i < state.stale(count).len() ==> {
                let s = state.stale(count)[i] as int;
                s < count && state.slots[s] is Some && !slot_seen(state.slots[s])
            },
        forall|s: int|
            #![trigger state.slots[s]]
            0 <= s < count && state.slots[s] is Some && !slot_seen(state.slots[s])
                ==> state.stale(count).contains(s as usize),
    decreases count,
{
    if count > 0 {
        stale_slots_ascend(state, count - 1);
        let before = state.stale(count - 1);
        let all = state.stale(count);
        assert forall|i: int, j: int|
            #![trigger all[i], all[j]]
            0 <= i < j < all.len() implies all[i] < all[j] by {
            assert(all[i] == before[i]);
            if j < before.len() {
                assert(all[j] == before[j]);
            }
        }
        assert forall|i: int|
            #![trigger all[i]]
            0 <= i < all.len() implies {
            let s = all[i] as int;
            s < count && state.slots[s] is Some && !slot_seen(state.slots[s])
        } by {
            if i < before.len() {
                assert(all[i] == before[i]);
            }
        }
        assert forall|s: int|
            #![trigger state.slots[s]]
            0 <= s < count && state.slots[s] is Some && !slot_seen(
                state.slots[s],
            ) implies all.contains(s as usize) by {
            if s == count - 1 {
                assert(all[all.len() - 1] == s as usize);
            } else {
                let k = choose|k: int| 0 <= k < before.len() && before[k] == s as usize;
                assert(all[k] == s as usize);
            }
        }
    }
}

/// A frame releases exactly the slots that were held before and that none of
/// its updates names, each once, in ascending order.
pub proof fn releases_are_the_slots_left_out(start: TrackerView, contacts: Seq<HidContact>)
    requires
        start.slots.len() <= usize::MAX,
    ensures
        forall|i: int, j: int|
            #![trigger frame_releases(start, contacts)[i], frame_releases(start, contacts)[j]]
            0 <= i < j < frame_releases(start, contacts).len() ==> frame_releases(
                start,
                contacts,
            )[i] < frame_releases(start, contacts)[j],
        forall|s: usize|
            #![trigger frame_releases(start, contacts).contains(s)]
            frame_releases(start, contacts).contains(s) <==> s < start.slots.len()
                && start.slots[s as int] is Some && !names_slot(
                frame_updates(start, contacts),
                s as int,
            ),
{
    let count = contacts.len() as int;
    let placed = start.placed(contacts, count);
    let updates = frame_updates(start, contacts);
    let releases = frame_releases(start, contacts);
    held_slots_stay_held(start, contacts, count);
    placement_marks_slots(start, contacts, count);
    stale_slots_ascend(placed, start.slots.len() as int);
    assert forall|s: usize|
        #![trigger releases.contains(s)]
        releases.contains(s) <==> s < start.slots.len() && start.slots[s as int] is Some
            && !names_slot(updates, s as int) by {
        if releases.contains(s) {
            let k = choose|k: int| 0 <= k < releases.len() && releases[k] == s;
            assert(releases[k] == s);
            assert(placed.slots[s as int] is Some && !slot_seen(placed.slots[s as int]));
            if names_slot(updates, s as int) {
                let i = choose|i: int| 0 <= i < updates.len() && (#[trigger] updates[i]).slot == s;
                assert(slot_seen(placed.slots[updates[i].slot as int]));
            }
        }
        if s < start.slots.len() && start.slots[s as int] is Some && !names_slot(
            updates,
            s as int,
        ) {
            assert(placed.slots[s as int] is Some);
            assert(!slot_seen(placed.slots[s as int]));
        }
    }
}

proof fn places_of_updates(start: TrackerView, contacts: Seq<HidContact>, count: int) -> (r: Seq<
    int,
>)
    requires
        0 <= count <= contacts.len(),
    ensures
        picks(r, contacts, start.updates(contacts, count)),
        forall|i: int| 0 <= i < r.len() ==> #[trigger] r[i] < count,
    decreases count,
{
    if count <= 0 {
        Seq::empty()
    } else {
        let before = places_of_updates(start, contacts, count - 1);
        match start.placed(contacts, count - 1).update_for(contacts[count - 1]) {
            Some(update) => {
                let all = start.updates(contacts, count);
                let places = before.push(count - 1);
                assert forall|i: int|
                    #![trigger places[i]]
                    0 <= i < places.len() implies 0 <= places[i] < contacts.len()
                    && all[i].contact == contacts[places[i]] by {
                    if i < before.len() {
                        assert(places[i] == before[i]);
                    }
                }
                assert forall|i: int, j: int|
                    #![trigger places[i], places[j]]
                    0 <= i < j < places.len() implies places[i] < places[j] by {
                    assert(places[i] == before[i]);
                    if j < before.len() {
                        assert(places[j] == before[j]);
                    }
                }
                places
            },
            None => before,
        }
    }
}

/// The updates of a frame are of some of its contacts, in their order.
pub proof fn updates_follow_the_contacts(start: TrackerView, contacts: Seq<HidContact>)
    ensures
        exists|places: Seq<int>| picks(places, contacts, frame_updates(start, contacts)),
{
    let places = places_of_updates(start, contacts, contacts.len() as int);
    assert(picks(places, contacts, frame_updates(start, contacts)));
}

/// A touch begins exactly where its slot was free before the frame.
pub proof fn touches_begin_in_free_slots(start: TrackerView, contacts: Seq<HidContact>, i: int)
    requires
        start.slots.len() <= usize::MAX,
        0 <= i < frame_updates(start, contacts).len(),
    ensures
        ({
            let update = frame_updates(start, contacts)[i];
            &&& update.slot < start.slots.len()
            &&& update.began <==> start.slots[update.slot as int] is None
        }),
{
    held_slots_stay_held(start, contacts, contacts.len() as int);
}

// Successive frames.

/// The tracker after some frames.
pub open spec fn after_frames(start: TrackerView, frames: Seq<Seq<HidContact>>) -> TrackerView
    decreases frames.len(),
{
    if frames.len() == 0 {
        start
    } else {
        after_frame(after_frames(start, frames.drop_last()), frames.last())
    }
}

/// The tracking numbers of the touches that begin among the updates.
pub open spec fn begun(updates: Seq<SlotUpdate>) -> Seq<i32>
    decreases updates.len(),
{
    if updates.len() == 0 {
        Seq::empty()
    } else if updates.last().began {
        begun(updates.drop_last()).push(updates.last().tracking_id)
    } else {
        begun(updates.drop_last())
    }
}

/// The tracking numbers of the touches that begin in some frames.
pub open spec fn all_begun(start: TrackerView, frames: Seq<Seq<HidContact>>) -> Seq<i32>
    decreases frames.len(),
{
    if frames.len() == 0 {
        Seq::empty()
    } else {
        all_begun(start, frames.drop_last()) + begun(
            frame_updates(after_frames(start, frames.drop_last()), frames.last()),
        )
    }
}

proof fn a_frame_counts_on(start: TrackerView, contacts: Seq<HidContact>, count: int)
    requires
        0 <= count <= contacts.len(),
        start.next >= 1,
        start.next + begun(start.updates(contacts, count)).len() <= i32::MAX,
    ensures
        start.placed(contacts, count).next == start.next + begun(
            start.updates(contacts, count),
        ).len(),
        forall|k: int|
            #![trigger begun(start.updates(contacts, count))[k]]
            0 <= k < begun(start.updates(contacts, count)).len() ==> begun(
                start.updates(contacts, count),
            )[k] == start.next + k,
    decreases count,
{
    if count > 0 {
        let before = start.placed(contacts, count - 1);
        let contact = contacts[count - 1];
        let updates = start.updates(contacts, count - 1);
        let all = start.updates(contacts, count);
        first_index_is_first(before.slots, waiting_for(identity_of(contact)), 0);
        first_index_is_first(before.slots, is_free(), 0);
        match before.update_for(contact) {
            Some(update) => {
                assert(all.drop_last() =~= updates);
                assert(all.last() == update);
                a_frame_counts_on(start, contacts, count - 1);
            },
            None => {
                a_frame_counts_on(start, contacts, count - 1);
            },
        }
    }
}

/// Touches are numbered from one on: over all frames of a new tracker the
/// touches that begin have the tracking numbers 1, 2, 3 and so on, in order, as
/// long as there are numbers.
pub proof fn touches_are_numbered_in_order(start: TrackerView, frames: Seq<Seq<HidContact>>)
    requires
        start.next == 1,
        all_begun(start, frames).len() < i32::MAX,
    ensures
        after_frames(start, frames).next == all_begun(start, frames).len() + 1,
        forall|k: int|
            #![trigger all_begun(start, frames)[k]]
            0 <= k < all_begun(start, frames).len() ==> all_begun(start, frames)[k] == k + 1,
    decreases frames.len(),
{
    if frames.len() > 0 {
        let earlier = frames.drop_last();
        let before = after_frames(start, earlier);
        let contacts = frames.last();
        touches_are_numbered_in_order(start, earlier);
        a_frame_counts_on(before, contacts, contacts.len() as int);
        let old_numbers = all_begun(start, earlier);
        let fresh = begun(frame_updates(before, contacts));
        let all = all_begun(start, frames);
        assert forall|k: int| #![trigger all[k]] 0 <= k < all.len() implies all[k] == k + 1 by {
            if k < old_numbers.len() {
                assert(all[k] == old_numbers[k]);
            } else {
                assert(all[k] == fresh[k - old_numbers.len()]);
            }
        }
    }
}

/// No two contacts of a frame have one identity.
pub open spec fn identities_differ(contacts: Seq<HidContact>) -> bool {
    forall|i: int, j: int|
        #![trigger contacts[i], contacts[j]]
        0 <= i < j < contacts.len() ==> identity_of(contacts[i]) != identity_of(contacts[j])
}

/// No two slots are held by one identity.
pub open spec fn holders_differ(state: TrackerView) -> bool {
    forall|s: int, t: int|
        #![trigger state.slots[s], state.slots[t]]
        0 <= s < t < state.slots.len() && state.slots[s] is Some && state.slots[t] is Some
            ==> state.slots[s]->Some_0.identity != state.slots[t]->Some_0.identity
}

/// Every update of a frame so far left its slot to the identity of its
/// contact, and a slot that was updated is held by that of an earlier contact.
pub open spec fn updates_hold(
    state: TrackerView,
    contacts: Seq<HidContact>,
    count: int,
    updates: Seq<SlotUpdate>,
) -> bool {
    &&& forall|i: int|
        #![trigger updates[i]]
        0 <= i < updates.len() ==> {
            &&& updates[i].slot < state.slots.len()
            &&& state.slots[updates[i].slot as int] matches Some(slot)
            &&& slot.seen
            &&& slot.identity == identity_of(updates[i].contact)
            &&& slot.tracking_id == updates[i].tracking_id
        }
    &&& forall|s: int|
        #![trigger state.slots[s]]
        0 <= s < state.slots.len() && slot_seen(state.slots[s]) ==> exists|j: int|
            0 <= j < count && identity_of(#[trigger] contacts[j])
                == state.slots[s]->Some_0.identity
}

proof fn placing_keeps_holders(start: TrackerView, contacts: Seq<HidContact>, count: int)
    requires
        0 <= count <= contacts.len(),
        start.slots.len() <= usize::MAX,
        identities_differ(contacts),
        holders_differ(start),
    ensures
        start.placed(contacts, count).slots.len() == start.slots.len(),
        holders_differ(start.placed(contacts, count)),
        updates_hold(
            start.placed(contacts, count),
            contacts,
            count,
            start.updates(contacts, count),
        ),
    decreases count,
{
    if count <= 0 {
        let placed = start.placed(contacts, count);
        assert forall|s: int, t: int|
            #![trigger placed.slots[s], placed.slots[t]]
            0 <= s < t < placed.slots.len() && placed.slots[s] is Some && placed.slots[t]
                is Some implies placed.slots[s]->Some_0.identity
            != placed.slots[t]->Some_0.identity by {
            assert(start.slots[s] is Some && start.slots[t] is Some);
        }
    } else {
        placing_keeps_holders(start, contacts, count - 1);
        let before = start.placed(contacts, count - 1);
        let contact = contacts[count - 1];
        let identity = identity_of(contact);
        let after = start.placed(contacts, count);
        let updates = start.updates(contacts, count - 1);
        let all = start.updates(contacts, count);
        first_index_is_first(before.slots, waiting_for(identity), 0);
        first_index_is_first(before.slots, updated_for(identity), 0);
        first_index_is_first(before.slots, is_free(), 0);
        // No slot updated so far is held by this identity.
        assert forall|s: int|
            #![trigger before.slots[s]]
            0 <= s < before.slots.len() implies !updated_for(identity)(before.slots[s]) by {
            if slot_seen(before.slots[s]) {
                let j = choose|j: int|
                    0 <= j < count - 1 && identity_of(#[trigger] contacts[j])
                        == before.slots[s]->Some_0.identity;
                assert(identity_of(contacts[j]) != identity_of(contacts[count - 1]));
            }
        }
        assert(first_index(before.slots, updated_for(identity), 0) is None);
        match before.slot_for(contact) {
            None => {
                assert(updates_hold(after, contacts, count, all)) by {
                    assert forall|s: int|
                        #![trigger after.slots[s]]
                        0 <= s < after.slots.len() && slot_seen(after.slots[s]) implies exists|
                        j: int,
                    |
                        0 <= j < count && identity_of(#[trigger] contacts[j])
                            == after.slots[s]->Some_0.identity by {
                        assert(after.slots[s] == before.slots[s]);
                        let j = choose|j: int|
                            0 <= j < count - 1 && identity_of(#[trigger] contacts[j])
                                == before.slots[s]->Some_0.identity;
                        assert(identity_of(contacts[j]) == after.slots[s]->Some_0.identity);
                    }
                }
            },
            Some(at) => {
                assert(after.slots[at] is Some && after.slots[at]->Some_0.identity == identity);
                assert(!slot_seen(before.slots[at]));
                assert forall|s: int, t: int|
                    #![trigger after.slots[s], after.slots[t]]
                    0 <= s < t < after.slots.len() && after.slots[s] is Some && after.slots[t]
                        is Some implies after.slots[s]->Some_0.identity
                    != after.slots[t]->Some_0.identity by {
                    if s != at {
                        assert(after.slots[s] == before.slots[s]);
                    }
                    if t != at {
                        assert(after.slots[t] == before.slots[t]);
                    }
                    if s == at || t == at {
                        let other = if s == at {
                            t
                        } else {
                            s
                        };
                        assert(!updated_for(identity)(before.slots[other]));
                        if before.slots[at] is None {
                            assert(first_index(before.slots, waiting_for(identity), 0) is None);
                            assert(!waiting_for(identity)(before.slots[other]));
                        } else {
                            assert(before.slots[s] is Some && before.slots[t] is Some);
                            assert(before.slots[at]->Some_0.identity == identity);
                        }
                    }
                }
                let update = before.update_for(contact)->Some_0;
                assert(all == updates.push(update));
                assert forall|i: int|
                    #![trigger all[i]]
                    0 <= i < all.len() implies {
                    &&& all[i].slot < after.slots.len()
                    &&& after.slots[all[i].slot as int] matches Some(slot)
                    &&& slot.seen
                    &&& slot.identity == identity_of(all[i].contact)
                    &&& slot.tracking_id == all[i].tracking_id
                } by {
                    if i < updates.len() {
                        assert(all[i] == updates[i]);
                        assert(slot_seen(before.slots[updates[i].slot as int]));
                    }
                }
                assert forall|s: int|
                    #![trigger after.slots[s]]
                    0 <= s < after.slots.len() && slot_seen(after.slots[s]) implies exists|j: int|
                    0 <= j < count && identity_of(#[trigger] contacts[j])
                        == after.slots[s]->Some_0.identity by {
                    if s == at {
                        assert(identity_of(contacts[count - 1])
                            == after.slots[s]->Some_0.identity);
                    } else {
                        assert(after.slots[s] == before.slots[s]);
                        let j = choose|j: int|
                            0 <= j < count - 1 && identity_of(#[trigger] contacts[j])
                                == before.slots[s]->Some_0.identity;
                        assert(identity_of(contacts[j]) == after.slots[s]->Some_0.identity);
                    }
                }
            },
        }
    }
}

proof fn frames_keep_holders(start: TrackerView, frames: Seq<Seq<HidContact>>)
    requires
        start.slots.len() <= usize::MAX,
        holders_differ(start),
        forall|k: int|
            #![trigger frames[k]]
            0 <= k < frames.len() ==> identities_differ(frames[k]),
    ensures
        after_frames(start, frames).slots.len() == start.slots.len(),
        holders_differ(after_frames(start, frames)),
    decreases frames.len(),
{
    if frames.len() > 0 {
        let earlier = frames.drop_last();
        assert forall|k: int|
            #![trigger earlier[k]]
            0 <= k < earlier.len() implies identities_differ(earlier[k]) by {
            assert(earlier[k] == frames[k]);
        }
        frames_keep_holders(start, earlier);
        assert(identities_differ(frames[frames.len() - 1]));
        a_frame_keeps_holders(after_frames(start, earlier), frames.last());
    }
}

proof fn a_frame_keeps_holders(start: TrackerView, contacts: Seq<HidContact>)
    requires
        start.slots.len() <= usize::MAX,
        holders_differ(start),
        identities_differ(contacts),
    ensures
        after_frame(start, contacts).slots.len() == start.slots.len(),
        holders_differ(after_frame(start, contacts)),
{
    placing_keeps_holders(start, contacts, contacts.len() as int);
    let placed = start.placed(contacts, contacts.len() as int);
    let end = after_frame(start, contacts);
    assert forall|s: int, t: int|
        #![trigger end.slots[s], end.slots[t]]
        0 <= s < t < end.slots.len() && end.slots[s] is Some && end.slots[t] is Some implies
        end.slots[s]->Some_0.identity != end.slots[t]->Some_0.identity by {
        assert(end.slots[s] == placed.slots[s]);
        assert(end.slots[t] == placed.slots[t]);
    }
}

proof fn updates_stay(start: TrackerView, contacts: Seq<HidContact>, m: int, n: int, i: int)
    requires
        0 <= m <= n,
        0 <= i < start.updates(contacts, m).len(),
    ensures
        i < start.updates(contacts, n).len(),
        start.updates(contacts, n)[i] == start.updates(contacts, m)[i],
    decreases n,
{
    if m < n {
        updates_stay(start, contacts, m, n - 1, i);
    }
}

/// A touch keeps its slot and its tracking number from frame to frame. Where
/// the contacts of every frame have identities of their own, a contact whose
/// identity the frame before updated in some slot updates that slot again, as
/// the same touch, wherever it stands among the contacts.
pub proof fn a_touch_goes_on(
    start: TrackerView,
    frames: Seq<Seq<HidContact>>,
    contacts: Seq<HidContact>,
    i: int,
    j: int,
)
    requires
        start.slots.len() <= usize::MAX,
        forall|s: int|
            #![trigger start.slots[s]]
            0 <= s < start.slots.len() ==> start.slots[s] is None,
        frames.len() > 0,
        forall|k: int|
            #![trigger frames[k]]
            0 <= k < frames.len() ==> identities_differ(frames[k]),
        identities_differ(contacts),
        0 <= i < frame_updates(after_frames(start, frames.drop_last()), frames.last()).len(),
        0 <= j < contacts.len(),
        identity_of(
            frame_updates(after_frames(start, frames.drop_last()), frames.last())[i].contact,
        ) == identity_of(contacts[j]),
    ensures
        ({
            let known = frame_updates(after_frames(start, frames.drop_last()), frames.last())[i];
            frame_updates(after_frames(start, frames), contacts).contains(
                SlotUpdate {
                    slot: known.slot,
                    tracking_id: known.tracking_id,
                    began: false,
                    contact: contacts[j],
                },
            )
        }),
{
    let earlier = frames.drop_last();
    let before = after_frames(start, earlier);
    let last = frames.last();
    let known = frame_updates(before, last)[i];
    assert forall|k: int|
        #![trigger earlier[k]]
        0 <= k < earlier.len() implies identities_differ(earlier[k]) by {
        assert(earlier[k] == frames[k]);
    }
    assert(holders_differ(start));
    frames_keep_holders(start, earlier);
    assert(identities_differ(frames[frames.len() - 1]));
    placing_keeps_holders(before, last, last.len() as int);
    a_frame_keeps_holders(before, last);
    let now = after_frames(start, frames);
    let slot = known.slot as int;
    let identity = identity_of(contacts[j]);
    let placed = before.placed(last, last.len() as int);
    assert(placed.slots[slot] is Some && placed.slots[slot]->Some_0.seen);
    assert(now.slots[slot] == placed.slots[slot]);
    first_index_is_first(now.slots, held_by(identity), 0);
    assert(held_by(identity)(now.slots[slot]));
    assert(first_index(now.slots, held_by(identity), 0) == Some(slot)) by {
        let found = first_index(now.slots, held_by(identity), 0)->Some_0;
        assert(first_index(now.slots, held_by(identity), 0) is Some);
        assert(held_by(identity)(now.slots[found]));
        if found < slot {
            assert(now.slots[found]->Some_0.identity != now.slots[slot]->Some_0.identity);
        }
        if slot < found {
            assert(now.slots[slot]->Some_0.identity != now.slots[found]->Some_0.identity);
        }
    }
    assert forall|k: int| 0 <= k < j implies identity_of(#[trigger] contacts[k]) != identity_of(
        contacts[j],
    ) by {}
    a_touch_keeps_its_slot(now, contacts, j, slot);
    let updates = now.updates(contacts, j + 1);
    let at = updates.len() - 1;
    updates_stay(now, contacts, j + 1, contacts.len() as int, at);
    assert(frame_updates(now, contacts)[at] == updates[at]);
}

} // verus!
