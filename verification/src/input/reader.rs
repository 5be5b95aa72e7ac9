//! What a reader of input events makes of them.
//!
//! The numbers are those of the event protocol: a reader outside the drivers
//! goes by them and by nothing else.

use vstd::prelude::*;

use crate::input::InputEvent;

verus! {

/// Everything that a reader has learnt from the events so far.
#[verifier::ext_equal]
pub struct ReaderView {
    /// The slot that the next multitouch events belong to.
    pub slot: i32,
    /// The last value of each multitouch code, slot by slot.
    pub touches: Map<(i32, u16), i32>,
    /// The last value of every other absolute axis.
    pub axes: Map<u16, i32>,
    pub keys: Map<u16, i32>,
    pub switches: Map<u16, i32>,
    /// How far the pointer has come.
    pub moved_x: int,
    pub moved_y: int,
    /// How many frames were closed.
    pub frames: int,
}

impl ReaderView {
    /// Reads one event.
    pub open spec fn read(self, event: InputEvent) -> ReaderView {
        let (kind, code, value) = event;
        if kind == 0 && code == 0 {
            ReaderView { frames: self.frames + 1, ..self }
        } else if kind == 1 {
            ReaderView { keys: self.keys.insert(code, value), ..self }
        } else if kind == 2 && code == 0 {
            ReaderView { moved_x: self.moved_x + value, ..self }
        } else if kind == 2 && code == 1 {
            ReaderView { moved_y: self.moved_y + value, ..self }
        } else if kind == 3 && code == 0x2f {
            ReaderView { slot: value, ..self }
        } else if kind == 3 && 0x30 <= code <= 0x3d {
            ReaderView { touches: self.touches.insert((self.slot, code), value), ..self }
        } else if kind == 3 {
            ReaderView { axes: self.axes.insert(code, value), ..self }
        } else if kind == 5 {
            ReaderView { switches: self.switches.insert(code, value), ..self }
        } else {
            self
        }
    }

    /// Reads events in order.
    pub open spec fn read_all(self, events: Seq<InputEvent>) -> ReaderView
        decreases events.len(),
    {
        if events.len() == 0 {
            self
        } else {
            self.read_all(events.drop_last()).read(events.last())
        }
    }
}

/// Reading two lists one after the other is reading them joined.
pub proof fn joined_events_are_read_in_turn(
    reader: ReaderView,
    head: Seq<InputEvent>,
    tail: Seq<InputEvent>,
)
    ensures
        reader.read_all(head + tail) == reader.read_all(head).read_all(tail),
    decreases tail.len(),
{
    if tail.len() == 0 {
        assert(head + tail =~= head);
    } else {
        assert((head + tail).drop_last() =~= head + tail.drop_last());
        joined_events_are_read_in_turn(reader, head, tail.drop_last());
    }
}

/// Reading up to six events, spelled out.
pub(crate) proof fn few_events_are_read(reader: ReaderView, events: Seq<InputEvent>)
    requires
        events.len() <= 6,
    ensures
        events.len() == 0 ==> reader.read_all(events) == reader,
        events.len() == 1 ==> reader.read_all(events) == reader.read(events[0]),
        events.len() == 2 ==> reader.read_all(events) == reader.read(events[0]).read(events[1]),
        events.len() == 3 ==> reader.read_all(events) == reader.read(events[0]).read(
            events[1],
        ).read(events[2]),
        events.len() == 4 ==> reader.read_all(events) == reader.read(events[0]).read(
            events[1],
        ).read(events[2]).read(events[3]),
        events.len() == 5 ==> reader.read_all(events) == reader.read(events[0]).read(
            events[1],
        ).read(events[2]).read(events[3]).read(events[4]),
        events.len() == 6 ==> reader.read_all(events) == reader.read(events[0]).read(
            events[1],
        ).read(events[2]).read(events[3]).read(events[4]).read(events[5]),
    decreases events.len(),
{
    if events.len() > 0 {
        few_events_are_read(reader, events.drop_last());
    }
}

} // verus!
