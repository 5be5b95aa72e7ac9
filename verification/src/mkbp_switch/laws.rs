//! What the posture switches mean.

use vstd::prelude::*;

use crate::input::reader::{few_events_are_read, ReaderView};
use crate::mkbp::QueryError;
use crate::mkbp_switch::{
    current_queried, has_required_switches, outcome_events, outcome_of, parse_switch_event,
    posture_of, support_queried, PostureState, StartupAction, EC_MKBP_LID_OPEN, EC_MKBP_TABLET_MODE,
};

verus! {

/// The lowest bit says that the lid is open, the next one that the device is a
/// tablet; no other bit matters.
pub proof fn postures_are_the_low_bits(switches: u32, other: u32)
    ensures
        posture_of(switches).lid_closed <==> switches & 1 == 0,
        posture_of(switches).tablet_mode <==> switches & 2 != 0,
        switches & 3 == other & 3 ==> posture_of(switches) == posture_of(other),
        switches % 4 == 3 <==> switches & 1 != 0 && switches & 2 != 0,
{
    assert((switches & 1 == 0 <==> switches % 2 == 0) && (switches & 2 != 0 <==> switches / 2 % 2
        == 1) && (switches & 3 == other & 3 ==> switches % 2 == other % 2 && switches / 2 % 2
        == other / 2 % 2) && (switches % 4 == 3 <==> switches & 1 != 0 && switches & 2 != 0))
        by (bit_vector);
}

/// The reader knows the posture: switch 0 is on where the lid is shut, switch 1
/// where the device is a tablet.
pub open spec fn knows(reader: ReaderView, state: PostureState) -> bool {
    &&& reader.switches.contains_key(0u16) && reader.switches[0u16] == if state.lid_closed {
        1i32
    } else {
        0i32
    }
    &&& reader.switches.contains_key(1u16) && reader.switches[1u16] == if state.tablet_mode {
        1i32
    } else {
        0i32
    }
}

/// A reader follows the posture: after the events of a posture it knows it, if
/// it knew the one before or this is the first one. A frame is closed exactly
/// where something changed.
pub proof fn a_reader_follows_the_posture(
    reader: ReaderView,
    known: Option<PostureState>,
    next: PostureState,
)
    requires
        known matches Some(state) ==> knows(reader, state),
    ensures
        ({
            let after = reader.read_all(outcome_events(outcome_of(known, next)));
            &&& knows(after, next)
            &&& after.frames == reader.frames + if known == Some(next) {
                0int
            } else {
                1int
            }
            &&& after.keys == reader.keys
        }),
{
    few_events_are_read(reader, outcome_events(outcome_of(known, next)));
}

/// Switch events are those of type 4.
pub proof fn switch_events_have_their_type(
    kind: u8,
    data: &[u8],
    r: Result<Option<PostureState>, QueryError<()>>,
)
    requires
        call_ensures(parse_switch_event, (kind, data), r),
    ensures
        kind != 4 ==> r == Ok::<Option<PostureState>, QueryError<()>>(None),
        kind == 4 ==> (r is Ok <==> data@.len() == 4),
        kind == 4 && data@.len() == 4 ==> r->Ok_0 is Some && r->Ok_0->0.lid_closed == (data@[0] % 2
            == 0) && r->Ok_0->0.tablet_mode == (data@[0] as int / 2 % 2 == 1),
{
    if kind == 4 && data@.len() == 4 {
        let rest = data@[1] + 0x100 * data@[2] + 0x1_0000 * data@[3];
        let word = data@[0] + 0x100 * rest;
        assert(word % 2 == data@[0] % 2);
        assert(word / 2 == data@[0] as int / 2 + 0x80 * rest);
        assert(word / 2 % 2 == data@[0] as int / 2 % 2);
    }
}

/// The switches are used if the controller has both of them; then its state
/// is taken once before it is registered.
pub proof fn both_switches_are_required(
    supported: Result<u32, QueryError<()>>,
    required: bool,
    first: StartupAction,
    current: Result<u32, QueryError<()>>,
    second: StartupAction,
)
    requires
        call_ensures(has_required_switches::<()>, (&supported,), required),
        call_ensures(support_queried::<()>, (&supported,), first),
        call_ensures(current_queried::<()>, (&current,), second),
    ensures
        required <==> supported is Ok && supported->Ok_0 % 4 == 3,
        required ==> first == StartupAction::Subscribe,
        !required ==> first == StartupAction::Abandon,
        current is Err ==> second == StartupAction::Unsubscribe,
        current matches Ok(switches) ==> second == StartupAction::Register(
            PostureState {
                lid_closed: switches % 2 == 0,
                tablet_mode: switches as int / 2 % 2 == 1,
            },
        ),
{
}

/// The masks of the EC pick the lid and the tablet mode.
pub proof fn switches_have_their_mask(switches: u32)
    ensures
        posture_of(switches).lid_closed <==> switches & EC_MKBP_LID_OPEN == 0,
        posture_of(switches).tablet_mode <==> switches & EC_MKBP_TABLET_MODE != 0,
{
    postures_are_the_low_bits(switches, switches);
}

} // verus!
