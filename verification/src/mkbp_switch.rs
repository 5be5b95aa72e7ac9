//! Chrome EC MKBP lid and tablet-mode switch support.
//!
//! Both posture switches come through the primary Chrome EC. The driver
//! subscribes to decoded MKBP switch events and takes one authoritative
//! snapshot at boot to close the subscription race.

use vstd::prelude::*;

use crate::input::{
    push_event, InputEvent, EV_SW, EV_SYN, SW_LID, SW_TABLET_MODE, SYN_REPORT,
};
use crate::mkbp::{
    mask_of, parse_mask, query_mask, query_result, reply_bytes, EcCommand, QueryError,
    EC_CMD_MKBP_INFO,
};

pub mod laws;

verus! {

pub const EC_MKBP_EVENT_SWITCH: u8 = 4;

pub const EC_MKBP_LID_OPEN: u32 = 1;

pub const EC_MKBP_TABLET_MODE: u32 = 2;

pub const REQUIRED_SWITCHES: u32 = 3;

pub fn parse_switch_mask(response: &[u8]) -> (r: Result<u32, QueryError<()>>)
    ensures
        r == query_result(Ok::<Seq<u8>, ()>(response@)),
{
    parse_mask(response)
}

pub fn query_switch_mask<C: EcCommand>(ec: &C, info_type: u8) -> (r: Result<
    u32,
    QueryError<C::Error>,
>)
    ensures
        exists|payload: &[u8], reply: Result<Vec<u8>, C::Error>|
            {
                &&& payload@ == seq![info_type, EC_MKBP_EVENT_SWITCH]
                &&& #[trigger] call_ensures(C::command, (ec, EC_CMD_MKBP_INFO, 0u8, payload), reply)
                &&& r == query_result(reply_bytes(reply))
            },
{
    query_mask(ec, info_type, EC_MKBP_EVENT_SWITCH)
}

/// Whether the answer to the support query names both switches.
pub fn has_required_switches<E>(queried: &Result<u32, QueryError<E>>) -> (r: bool)
    ensures
        r == (queried matches Ok(supported) && supported % 4 == REQUIRED_SWITCHES),
{
    match queried {
        Ok(supported) => *supported % 4 == REQUIRED_SWITCHES,
        Err(_) => false,
    }
}

#[derive(Clone, Copy, Debug, Eq, PartialEq, Structural)]
pub struct PostureState {
    pub lid_closed: bool,
    pub tablet_mode: bool,
}

/// The EC reports an open lid; the lid switch is positive when shut.
pub open spec fn posture_of(switches: u32) -> PostureState {
    PostureState { lid_closed: switches % 2 == 0, tablet_mode: switches as int / 2 % 2 == 1 }
}

impl PostureState {
    pub fn from_ec_switches(switches: u32) -> (r: PostureState)
        ensures
            r == posture_of(switches),
    {
        PostureState { lid_closed: switches % 2 == 0, tablet_mode: switches / 2 % 2 == 1 }
    }
}

/// The posture in an event, `None` for an event of another type.
pub fn parse_switch_event(event_type: u8, data: &[u8]) -> (r: Result<
    Option<PostureState>,
    QueryError<()>,
>)
    ensures
        r == (if event_type != EC_MKBP_EVENT_SWITCH {
            Ok::<Option<PostureState>, QueryError<()>>(None)
        } else {
            match mask_of(data@) {
                Some(mask) => Ok(Some(posture_of(mask))),
                None => Err(QueryError::MalformedResponse),
            }
        }),
{
    if event_type != EC_MKBP_EVENT_SWITCH {
        return Ok(None);
    }
    match parse_switch_mask(data) {
        Ok(mask) => Ok(Some(PostureState::from_ec_switches(mask))),
        Err(e) => Err(e),
    }
}

#[derive(Clone, Copy, Debug, Eq, PartialEq, Structural)]
pub enum StateOutcome {
    Snapshot(PostureState),
    Changed { previous: PostureState, current: PostureState },
    Unchanged,
}

/// The last posture that was reported, if any.
pub struct SwitchTracker {
    pub current: Option<PostureState>,
}

pub open spec fn outcome_of(known: Option<PostureState>, next: PostureState) -> StateOutcome {
    match known {
        None => StateOutcome::Snapshot(next),
        Some(previous) => if previous == next {
            StateOutcome::Unchanged
        } else {
            StateOutcome::Changed { previous, current: next }
        },
    }
}

impl Default for SwitchTracker {
    fn default() -> (r: SwitchTracker)
        ensures
            r.current is None,
    {
        SwitchTracker { current: None }
    }
}

impl SwitchTracker {
    pub fn accept(&mut self, next: PostureState) -> (r: StateOutcome)
        ensures
            r == outcome_of(old(self).current, next),
            final(self).current == Some(next),
    {
        let outcome = match self.current {
            None => StateOutcome::Snapshot(next),
            Some(previous) => if previous == next {
                StateOutcome::Unchanged
            } else {
                StateOutcome::Changed { previous, current: next }
            },
        };
        self.current = Some(next);
        outcome
    }
}

pub open spec fn level(on: bool) -> i32 {
    if on {
        1
    } else {
        0
    }
}

/// A switch event where its level changes.
pub open spec fn switch_change(code: u16, before: bool, after: bool) -> Seq<InputEvent> {
    if before == after {
        Seq::empty()
    } else {
        seq![(EV_SW, code, level(after))]
    }
}

/// The events of an outcome: both switches at the first posture, the changed
/// ones later, and nothing where nothing changed.
pub open spec fn outcome_events(outcome: StateOutcome) -> Seq<InputEvent> {
    match outcome {
        StateOutcome::Snapshot(state) => seq![
            (EV_SW, SW_LID, level(state.lid_closed)),
            (EV_SW, SW_TABLET_MODE, level(state.tablet_mode)),
            (EV_SYN, SYN_REPORT, 0i32),
        ],
        StateOutcome::Changed { previous, current } => switch_change(
            SW_LID,
            previous.lid_closed,
            current.lid_closed,
        ) + switch_change(SW_TABLET_MODE, previous.tablet_mode, current.tablet_mode) + seq![
            (EV_SYN, SYN_REPORT, 0i32),
        ],
        StateOutcome::Unchanged => Seq::empty(),
    }
}

fn push_level(events: &mut Vec<InputEvent>, code: u16, on: bool)
    ensures
        final(events)@ == old(events)@.push((EV_SW, code, level(on))),
{
    push_event(
        events,
        EV_SW,
        code,
        if on {
            1
        } else {
            0
        },
    );
}

pub fn emit_snapshot(state: PostureState) -> (r: Vec<InputEvent>)
    ensures
        r@ == outcome_events(StateOutcome::Snapshot(state)),
{
    let mut events: Vec<InputEvent> = Vec::new();
    push_level(&mut events, SW_LID, state.lid_closed);
    push_level(&mut events, SW_TABLET_MODE, state.tablet_mode);
    push_event(&mut events, EV_SYN, SYN_REPORT, 0);
    assert(events@ =~= outcome_events(StateOutcome::Snapshot(state)));
    events
}

pub fn emit_change(previous: PostureState, current: PostureState) -> (r: Vec<InputEvent>)
    ensures
        r@ == outcome_events(StateOutcome::Changed { previous, current }),
{
    let mut events: Vec<InputEvent> = Vec::new();
    if previous.lid_closed != current.lid_closed {
        push_level(&mut events, SW_LID, current.lid_closed);
    }
    if previous.tablet_mode != current.tablet_mode {
        push_level(&mut events, SW_TABLET_MODE, current.tablet_mode);
    }
    push_event(&mut events, EV_SYN, SYN_REPORT, 0);
    assert(events@ =~= outcome_events(StateOutcome::Changed { previous, current }));
    events
}

/// Accepts a posture, from an event or from the boot snapshot, and gives the
/// events that it causes.
pub fn accept_state(tracker: &mut SwitchTracker, state: PostureState) -> (r: Vec<InputEvent>)
    ensures
        r@ == outcome_events(outcome_of(old(tracker).current, state)),
        final(tracker).current == Some(state),
{
    match tracker.accept(state) {
        StateOutcome::Snapshot(state) => emit_snapshot(state),
        StateOutcome::Changed { previous, current } => emit_change(previous, current),
        StateOutcome::Unchanged => Vec::new(),
    }
}

/// Takes one EC event. One of another type or a malformed one reports
/// nothing.
pub fn on_cros_ec_event(tracker: &mut SwitchTracker, event_type: u8, data: &[u8]) -> (r: Vec<
    InputEvent,
>)
    ensures
        if event_type == EC_MKBP_EVENT_SWITCH && mask_of(data@) is Some {
            let state = posture_of(mask_of(data@)->Some_0);
            &&& r@ == outcome_events(outcome_of(old(tracker).current, state))
            &&& final(tracker).current == Some(state)
        } else {
            r@ == Seq::<InputEvent>::empty() && *final(tracker) == *old(tracker)
        },
{
    match parse_switch_event(event_type, data) {
        Ok(Some(state)) => accept_state(tracker, state),
        _ => Vec::new(),
    }
}

/// What start-up asks for next.
#[derive(Clone, Copy, Debug, Eq, PartialEq, Structural)]
pub enum StartupAction {
    /// The switches are not usable.
    Abandon,
    /// Subscribe to events, then ask for the current mask.
    Subscribe,
    /// Drop the subscription.
    Unsubscribe,
    /// Accept this posture and register the device.
    Register(PostureState),
}

/// Decides on the answer to the support query.
pub fn support_queried<E>(queried: &Result<u32, QueryError<E>>) -> (r: StartupAction)
    ensures
        r == (if queried matches Ok(supported) && supported % 4 == REQUIRED_SWITCHES {
            StartupAction::Subscribe
        } else {
            StartupAction::Abandon
        }),
{
    if has_required_switches(queried) {
        StartupAction::Subscribe
    } else {
        StartupAction::Abandon
    }
}

/// Decides on the answer to the query for the posture at boot.
pub fn current_queried<E>(queried: &Result<u32, QueryError<E>>) -> (r: StartupAction)
    ensures
        r == (match *queried {
            Ok(switches) => StartupAction::Register(posture_of(switches)),
            Err(_) => StartupAction::Unsubscribe,
        }),
{
    match queried {
        Ok(switches) => StartupAction::Register(PostureState::from_ec_switches(*switches)),
        Err(_) => StartupAction::Unsubscribe,
    }
}

// Laws.

/// A posture that is reported again changes nothing: an event that races the
/// boot snapshot either seeds the tracker or is filtered as unchanged.
pub proof fn repeated_postures_are_silent(state: PostureState)
    ensures
        outcome_events(outcome_of(Some(state), state)) == Seq::<InputEvent>::empty(),
{
}

/// A posture that differs from the last reports each switch that changed and
/// no other, in a frame that ends with its one synchronisation event.
pub proof fn changes_report_what_changed(previous: PostureState, next: PostureState)
    requires
        previous != next,
    ensures
        ({
            let events = outcome_events(outcome_of(Some(previous), next));
            &&& events.last() == (EV_SYN, SYN_REPORT, 0i32)
            &&& previous.lid_closed != next.lid_closed <==> events.contains(
                (EV_SW, SW_LID, level(next.lid_closed)),
            )
            &&& previous.tablet_mode != next.tablet_mode <==> events.contains(
                (EV_SW, SW_TABLET_MODE, level(next.tablet_mode)),
            )
        }),
{
    let events = outcome_events(outcome_of(Some(previous), next));
    if previous.lid_closed != next.lid_closed {
        assert(events[0] == (EV_SW, SW_LID, level(next.lid_closed)));
    }
    if previous.tablet_mode != next.tablet_mode {
        assert(events[events.len() - 2] == (EV_SW, SW_TABLET_MODE, level(next.tablet_mode)));
    }
}

/// Keeps the driver linked into builds that load it by name.
pub fn force_link() {
}

} // verus!
