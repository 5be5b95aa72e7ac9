//! What the buttons' states mean.

use vstd::prelude::*;

use crate::bytes::le32_bytes;
use crate::input::InputEvent;
use crate::input::reader::{few_events_are_read, joined_events_are_read_in_turn, ReaderView};
use crate::mkbp::{mask_of, parse_mask, query_result, QueryError};
use crate::mkbp_button::{
    holds, key_events, known_supported_buttons, outcome_of, parse_button_event, state_events,
    transitions_of, usable_buttons, Button, StateOutcome,
};

verus! {

/// Power is the lowest bit of a state, volume up the next and volume down the
/// third.
pub proof fn buttons_are_the_low_bits(mask: u32)
    ensures
        holds(mask, Button::Power) <==> mask & 1 != 0,
        holds(mask, Button::VolumeUp) <==> mask & 2 != 0,
        holds(mask, Button::VolumeDown) <==> mask & 4 != 0,
{
    assert((mask & 1 != 0 <==> mask % 2 == 1) && (mask & 2 != 0 <==> mask / 2 % 2 == 1) && (mask
        & 4 != 0 <==> mask / 4 % 2 == 1)) by (bit_vector);
    assert(mask as int / 1 == mask);
}

/// A reply of four bytes carries the mask they were made of, and no other
/// length is a mask.
pub proof fn masks_are_read_back(mask: u32, reply: Seq<u8>)
    ensures
        mask_of(le32_bytes(mask as int)) == Some(mask),
        mask_of(reply) is Some <==> reply.len() == 4,
{
    crate::bytes::le32_of_bytes(mask);
}


/// The reader knows the keys of the supported buttons: 116 is power, 115 volume
/// up and 114 volume down.
pub open spec fn knows(reader: ReaderView, supported: u32, state: u32) -> bool {
    &&& supported & 1 != 0 ==> reader.keys.contains_key(116u16) && reader.keys[116u16]
        == if state & 1 != 0 {
        1i32
    } else {
        0i32
    }
    &&& supported & 2 != 0 ==> reader.keys.contains_key(115u16) && reader.keys[115u16]
        == if state & 2 != 0 {
        1i32
    } else {
        0i32
    }
    &&& supported & 4 != 0 ==> reader.keys.contains_key(114u16) && reader.keys[114u16]
        == if state & 4 != 0 {
        1i32
    } else {
        0i32
    }
}

/// A reader follows the buttons. After the events of a state it knows the level
/// of every supported button, if it knew those of the state before or this is
/// the first one; and no other key was touched.
pub proof fn a_reader_follows_the_buttons(
    reader: ReaderView,
    known: Option<u32>,
    raw: u32,
    supported: u32,
)
    requires
        known matches Some(state) ==> knows(reader, supported, state),
    ensures
        ({
            let after = reader.read_all(state_events(known, raw, supported));
            &&& knows(after, supported, raw)
            &&& forall|code: u16|
                !(code == 116 && supported & 1 != 0 || code == 115 && supported & 2 != 0 || code
                    == 114 && supported & 4 != 0) ==> (#[trigger] after.keys.contains_key(code)
                    <==> reader.keys.contains_key(code)) && (reader.keys.contains_key(code)
                    ==> after.keys[code] == reader.keys[code])
            &&& after.frames <= reader.frames + 1
            &&& after.frames == reader.frames <==> known == Some(raw & supported)
        }),
{
    let state = raw & supported;
    assert((supported & 1 != 0 ==> (state & 1 != 0 <==> raw & 1 != 0)) && (supported & 2 != 0 ==> (
    state & 2 != 0 <==> raw & 2 != 0)) && (supported & 4 != 0 ==> (state & 4 != 0 <==> raw & 4
        != 0))) by (bit_vector)
        requires
            state == raw & supported,
    ;
    buttons_are_the_low_bits(supported);
    buttons_are_the_low_bits(state);
    if known is Some {
        buttons_are_the_low_bits(known->Some_0);
    }
    let outcome = outcome_of(known, state);
    if outcome == StateOutcome::Unchanged {
        few_events_are_read(reader, state_events(known, raw, supported));
    } else {
        let keys = key_events(transitions_of(outcome, supported));
        let end: Seq<InputEvent> = seq![(0u16, 0u16, 0i32)];
        joined_events_are_read_in_turn(reader, keys, end);
        few_events_are_read(reader, keys);
        few_events_are_read(reader.read_all(keys), end);
    }
}

/// A query is answered with a mask of four bytes; anything else is an error,
/// and a failed command passes its own on.
pub proof fn queries_are_answered_with_a_mask(
    reply: &[u8],
    error: u8,
    r: Result<u32, QueryError<()>>,
)
    requires
        call_ensures(parse_mask, (reply,), r),
    ensures
        r is Ok <==> reply@.len() == 4,
        r matches Ok(mask) ==> mask == reply@[0] + 0x100 * reply@[1] + 0x1_0000 * reply@[2]
            + 0x100_0000 * reply@[3],
        query_result(Err::<Seq<u8>, u8>(error)) == Err::<u32, QueryError<u8>>(
            QueryError::Transport(error),
        ),
{
}

/// Only the three known buttons are used, and a controller without any is
/// passed over.
pub proof fn known_buttons_are_used(
    supported: u32,
    known: u32,
    queried: Result<u32, QueryError<()>>,
    usable: Option<u32>,
)
    requires
        call_ensures(known_supported_buttons, (supported,), known),
        call_ensures(usable_buttons::<()>, (&queried,), usable),
    ensures
        known < 8 && known as int % 8 == supported as int % 8,
        queried is Err ==> usable is None,
        queried matches Ok(mask) ==> (usable is None <==> mask % 8 == 0),
        usable matches Some(mask) ==> 0 < mask < 8 && mask == queried->Ok_0 % 8,
{
}

/// Button events are those of type 3.
pub proof fn button_events_have_their_type(
    kind: u8,
    data: &[u8],
    r: Result<Option<u32>, QueryError<()>>,
)
    requires
        call_ensures(parse_button_event, (kind, data), r),
    ensures
        kind != 3 ==> r == Ok::<Option<u32>, QueryError<()>>(None),
        kind == 3 ==> (r is Ok <==> data@.len() == 4),
        kind == 3 && data@.len() == 4 ==> r->Ok_0 == mask_of(data@),
{
}

} // verus!
