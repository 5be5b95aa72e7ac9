//! Chrome EC MKBP non-matrix power and volume button support.
//!
//! The EC sends the complete, authoritative state of its non-matrix button
//! bitmap. The known power and volume bits become state transitions. Repeat
//! events are never synthesized: repeat policy belongs to the event's reader.

use vstd::prelude::*;

use crate::input::{push_event, InputEvent, EV_KEY, EV_SYN, SYN_REPORT};
use crate::mkbp::{
    mask_of, parse_mask, query_mask, query_result, reply_bytes, EcCommand, QueryError,
    EC_CMD_MKBP_INFO, EC_MKBP_INFO_SUPPORTED,
};

pub mod laws;

verus! {

pub const EC_MKBP_EVENT_BUTTON: u8 = 3;

pub const EC_MKBP_POWER_BUTTON: u32 = 1;

pub const EC_MKBP_VOL_UP: u32 = 2;

pub const EC_MKBP_VOL_DOWN: u32 = 4;

pub const KEY_VOLUMEDOWN: u16 = 114;

pub const KEY_VOLUMEUP: u16 = 115;

pub const KEY_POWER: u16 = 116;

/// Decodes the EC's exact four-byte little-endian button bitmap.
pub fn parse_button_mask(response: &[u8]) -> (r: Result<u32, QueryError<()>>)
    ensures
        r == query_result(Ok::<Seq<u8>, ()>(response@)),
{
    parse_mask(response)
}

/// Queries which non-matrix buttons this EC reports.
pub fn query_supported_buttons<C: EcCommand>(ec: &C) -> (r: Result<u32, QueryError<C::Error>>)
    ensures
        exists|payload: &[u8], reply: Result<Vec<u8>, C::Error>|
            {
                &&& payload@ == seq![EC_MKBP_INFO_SUPPORTED, EC_MKBP_EVENT_BUTTON]
                &&& #[trigger] call_ensures(C::command, (ec, EC_CMD_MKBP_INFO, 0u8, payload), reply)
                &&& r == query_result(reply_bytes(reply))
            },
{
    query_mask(ec, EC_MKBP_INFO_SUPPORTED, EC_MKBP_EVENT_BUTTON)
}

/// Discards EC button bits that have no stable input-key mapping: only the
/// three lowest have one.
pub fn known_supported_buttons(supported: u32) -> (r: u32)
    ensures
        r == supported % 8,
{
    supported % 8
}

/// The buttons to drive, from the answer to the support query: none where
/// the query failed or no known button is there.
pub fn usable_buttons<E>(queried: &Result<u32, QueryError<E>>) -> (r: Option<u32>)
    ensures
        r == (match *queried {
            Ok(supported) => if supported % 8 != 0 {
                Some((supported % 8) as u32)
            } else {
                None
            },
            Err(_) => None,
        }),
{
    match queried {
        Ok(supported) => {
            let known: u32 = known_supported_buttons(*supported);
            if known == 0 {
                None
            } else {
                Some(known)
            }
        },
        Err(_) => None,
    }
}

#[derive(Clone, Copy, Debug, Eq, PartialEq, Structural)]
pub enum Button {
    Power,
    VolumeUp,
    VolumeDown,
}

impl Button {
    pub open spec fn spec_bit(self) -> u32 {
        match self {
            Button::Power => EC_MKBP_POWER_BUTTON,
            Button::VolumeUp => EC_MKBP_VOL_UP,
            Button::VolumeDown => EC_MKBP_VOL_DOWN,
        }
    }

    pub open spec fn spec_key_code(self) -> u16 {
        match self {
            Button::Power => KEY_POWER,
            Button::VolumeUp => KEY_VOLUMEUP,
            Button::VolumeDown => KEY_VOLUMEDOWN,
        }
    }

    pub fn bit(self) -> (r: u32)
        ensures
            r == self.spec_bit(),
            r > 0,
    {
        match self {
            Button::Power => EC_MKBP_POWER_BUTTON,
            Button::VolumeUp => EC_MKBP_VOL_UP,
            Button::VolumeDown => EC_MKBP_VOL_DOWN,
        }
    }

    pub fn key_code(self) -> (r: u16)
        ensures
            r == self.spec_key_code(),
    {
        match self {
            Button::Power => KEY_POWER,
            Button::VolumeUp => KEY_VOLUMEUP,
            Button::VolumeDown => KEY_VOLUMEDOWN,
        }
    }
}

/// Whether a mask holds a button's bit.
pub open spec fn holds(mask: u32, button: Button) -> bool {
    mask as int / button.spec_bit() as int % 2 == 1
}

fn mask_holds(mask: u32, button: Button) -> (r: bool)
    ensures
        r == holds(mask, button),
{
    mask / button.bit() % 2 == 1
}

/// The button state in an event, `None` for an event of another type.
pub fn parse_button_event(event_type: u8, data: &[u8]) -> (r: Result<Option<u32>, QueryError<()>>)
    ensures
        r == (if event_type != EC_MKBP_EVENT_BUTTON {
            Ok::<Option<u32>, QueryError<()>>(None)
        } else {
            match mask_of(data@) {
                Some(mask) => Ok(Some(mask)),
                None => Err(QueryError::MalformedResponse),
            }
        }),
{
    if event_type != EC_MKBP_EVENT_BUTTON {
        return Ok(None);
    }
    match parse_button_mask(data) {
        Ok(mask) => Ok(Some(mask)),
        Err(e) => Err(e),
    }
}

#[derive(Clone, Copy, Debug, Eq, PartialEq, Structural)]
pub enum StateOutcome {
    Initial { current: u32 },
    Changed { previous: u32, current: u32 },
    Unchanged,
}

/// The last state that the EC reported, if any.
pub struct ButtonTracker {
    pub current: Option<u32>,
}

pub open spec fn outcome_of(known: Option<u32>, current: u32) -> StateOutcome {
    match known {
        None => StateOutcome::Initial { current },
        Some(previous) => if previous == current {
            StateOutcome::Unchanged
        } else {
            StateOutcome::Changed { previous, current }
        },
    }
}

impl Default for ButtonTracker {
    fn default() -> (r: ButtonTracker)
        ensures
            r.current is None,
    {
        ButtonTracker { current: None }
    }
}

impl ButtonTracker {
    /// Accepts a complete state snapshot from an EC event.
    pub fn accept(&mut self, current: u32) -> (r: StateOutcome)
        ensures
            r == outcome_of(old(self).current, current),
            final(self).current == Some(current),
    {
        let outcome = match self.current {
            None => StateOutcome::Initial { current },
            Some(previous) => if previous == current {
                StateOutcome::Unchanged
            } else {
                StateOutcome::Changed { previous, current }
            },
        };
        self.current = Some(current);
        outcome
    }
}

#[derive(Clone, Copy, Debug, Eq, PartialEq, Structural)]
pub struct KeyTransition {
    pub button: Button,
    pub pressed: bool,
}

#[derive(Debug, Eq, PartialEq)]
pub struct ButtonFrame {
    pub transitions: Vec<KeyTransition>,
    pub syn_report: bool,
}

/// Whether an outcome reports a button: a supported one, at the first state
/// or where its bit differs.
pub open spec fn reports(outcome: StateOutcome, supported: u32, button: Button) -> bool {
    holds(supported, button) && match outcome {
        StateOutcome::Initial { current } => true,
        StateOutcome::Changed { previous, current } => holds(previous, button) != holds(
            current,
            button,
        ),
        StateOutcome::Unchanged => false,
    }
}

/// The state that an outcome carries.
pub open spec fn state_of(outcome: StateOutcome) -> u32 {
    match outcome {
        StateOutcome::Initial { current } => current,
        StateOutcome::Changed { previous, current } => current,
        StateOutcome::Unchanged => 0,
    }
}

pub open spec fn transition(outcome: StateOutcome, supported: u32, button: Button) -> Seq<
    KeyTransition,
> {
    if reports(outcome, supported, button) {
        seq![KeyTransition { button, pressed: holds(state_of(outcome), button) }]
    } else {
        Seq::empty()
    }
}

/// The transitions of an outcome: power, volume up, volume down.
pub open spec fn transitions_of(outcome: StateOutcome, supported: u32) -> Seq<KeyTransition> {
    transition(outcome, supported, Button::Power) + transition(
        outcome,
        supported,
        Button::VolumeUp,
    ) + transition(outcome, supported, Button::VolumeDown)
}

fn push_transition(
    transitions: &mut Vec<KeyTransition>,
    outcome: StateOutcome,
    supported: u32,
    button: Button,
)
    ensures
        final(transitions)@ == old(transitions)@ + transition(outcome, supported, button),
{
    let ghost before = transitions@;
    let changed: bool = match outcome {
        StateOutcome::Initial { .. } => true,
        StateOutcome::Changed { previous, current } => mask_holds(previous, button)
            != mask_holds(current, button),
        StateOutcome::Unchanged => false,
    };
    let current: u32 = match outcome {
        StateOutcome::Initial { current } => current,
        StateOutcome::Changed { current, .. } => current,
        StateOutcome::Unchanged => 0,
    };
    if mask_holds(supported, button) && changed {
        transitions.push(KeyTransition { button, pressed: mask_holds(current, button) });
    }
    assert(transitions@ =~= before + transition(outcome, supported, button));
}

/// Produces one input frame for a state transition.
///
/// The first authoritative state establishes every supported key. Subsequent
/// frames contain only changed keys. `Some` means callers must append exactly
/// one `SYN_REPORT`; `None` means no state changed and no input frame exists.
pub fn frame_for_outcome(outcome: StateOutcome, supported: u32) -> (r: Option<ButtonFrame>)
    ensures
        match r {
            None => outcome == StateOutcome::Unchanged,
            Some(frame) => {
                &&& outcome != StateOutcome::Unchanged
                &&& frame.transitions@ == transitions_of(outcome, supported)
                &&& frame.syn_report
            },
        },
{
    if let StateOutcome::Unchanged = outcome {
        return None;
    }
    let mut transitions: Vec<KeyTransition> = Vec::new();
    push_transition(&mut transitions, outcome, supported, Button::Power);
    push_transition(&mut transitions, outcome, supported, Button::VolumeUp);
    push_transition(&mut transitions, outcome, supported, Button::VolumeDown);
    assert(transitions@ =~= transitions_of(outcome, supported));
    Some(ButtonFrame { transitions, syn_report: true })
}

/// The key events of a list of transitions.
pub open spec fn key_events(transitions: Seq<KeyTransition>) -> Seq<InputEvent> {
    Seq::new(
        transitions.len(),
        |i: int|
            (
                EV_KEY,
                transitions[i].button.spec_key_code(),
                if transitions[i].pressed {
                    1i32
                } else {
                    0i32
                },
            ),
    )
}

/// The events that one raw state gives: its supported bits, as a frame.
pub open spec fn state_events(known: Option<u32>, raw: u32, supported: u32) -> Seq<InputEvent> {
    let outcome = outcome_of(known, raw & supported);
    if outcome == StateOutcome::Unchanged {
        Seq::empty()
    } else {
        key_events(transitions_of(outcome, supported)) + seq![(EV_SYN, SYN_REPORT, 0i32)]
    }
}

/// The EC's buttons: which of them are driven, and their last state.
pub struct ChromeEcMkbpButtons {
    pub supported: u32,
    pub tracker: ButtonTracker,
}

impl ChromeEcMkbpButtons {
    /// Starts without a state: button presses are transient, so the next
    /// authoritative EC event seeds it.
    pub fn new(supported: u32) -> (r: ChromeEcMkbpButtons)
        ensures
            r.supported == supported,
            r.tracker.current is None,
    {
        ChromeEcMkbpButtons { supported, tracker: ButtonTracker::default() }
    }

    pub fn accept_state(&mut self, raw_state: u32) -> (r: Vec<InputEvent>)
        ensures
            r@ == state_events(old(self).tracker.current, raw_state, old(self).supported),
            final(self).tracker.current == Some(raw_state & old(self).supported),
            final(self).supported == old(self).supported,
    {
        let state: u32 = raw_state & self.supported;
        let outcome = self.tracker.accept(state);
        let mut events: Vec<InputEvent> = Vec::new();
        let frame = match frame_for_outcome(outcome, self.supported) {
            Some(frame) => frame,
            None => {
                return events;
            },
        };
        let mut i: usize = 0;
        while i < frame.transitions.len()
            invariant
                i <= frame.transitions@.len(),
                events@ == key_events(frame.transitions@).take(i as int),
            decreases frame.transitions@.len() - i,
        {
            let transition = frame.transitions[i];
            push_event(
                &mut events,
                EV_KEY,
                transition.button.key_code(),
                if transition.pressed {
                    1
                } else {
                    0
                },
            );
            i += 1;
            assert(events@ =~= key_events(frame.transitions@).take(i as int));
        }
        assert(events@ =~= key_events(frame.transitions@));
        if frame.syn_report {
            push_event(&mut events, EV_SYN, SYN_REPORT, 0);
        }
        assert(events@ =~= key_events(frame.transitions@) + seq![(EV_SYN, SYN_REPORT, 0i32)]);
        events
    }

    /// Takes one EC event. It always counts as consumed; one of another type
    /// or a malformed one reports nothing.
    pub fn on_cros_ec_event(&mut self, event_type: u8, data: &[u8]) -> (r: (bool, Vec<InputEvent>))
        ensures
            r.0,
            if event_type == EC_MKBP_EVENT_BUTTON && mask_of(data@) is Some {
                let raw = mask_of(data@)->Some_0;
                &&& r.1@ == state_events(old(self).tracker.current, raw, old(self).supported)
                &&& final(self).tracker.current == Some(raw & old(self).supported)
                &&& final(self).supported == old(self).supported
            } else {
                r.1@ == Seq::<InputEvent>::empty() && *final(self) == *old(self)
            },
    {
        match parse_button_event(event_type, data) {
            Ok(Some(state)) => (true, self.accept_state(state)),
            _ => (true, Vec::new()),
        }
    }
}

// Laws.

/// A state that is reported again gives no frame: nothing repeats.
pub proof fn repeated_states_are_silent(raw: u32, supported: u32)
    ensures
        state_events(Some(raw & supported), raw, supported) == Seq::<InputEvent>::empty(),
{
}

/// Every reported transition is one of a supported button, to the state that
/// the EC gave, and no button is reported twice.
pub proof fn transitions_are_supported_and_distinct(
    outcome: StateOutcome,
    supported: u32,
    i: int,
)
    requires
        0 <= i < transitions_of(outcome, supported).len(),
    ensures
        ({
            let all = transitions_of(outcome, supported);
            &&& reports(outcome, supported, all[i].button)
            &&& all[i].pressed == holds(state_of(outcome), all[i].button)
            &&& forall|j: int|
                0 <= j < all.len() && j != i ==> (#[trigger] all[j]).button != all[i].button
        }),
{
}

/// What a reader of the transitions knows of a button: the last reported
/// level, or the level before.
pub open spec fn level_after(before: bool, transitions: Seq<KeyTransition>, button: Button) -> bool
    decreases transitions.len(),
{
    if transitions.len() == 0 {
        before
    } else if transitions.last().button == button {
        transitions.last().pressed
    } else {
        level_after(before, transitions.drop_last(), button)
    }
}

proof fn level_after_joined(
    before: bool,
    head: Seq<KeyTransition>,
    tail: Seq<KeyTransition>,
    button: Button,
)
    ensures
        level_after(before, head + tail, button) == level_after(
            level_after(before, head, button),
            tail,
            button,
        ),
    decreases tail.len(),
{
    if tail.len() == 0 {
        assert(head + tail =~= head);
    } else {
        assert((head + tail).drop_last() =~= head + tail.drop_last());
        level_after_joined(before, head, tail.drop_last(), button);
    }
}

/// Applying the transitions of a change to the previous levels gives the
/// current level of every supported button; the first state gives it whatever
/// was known before.
pub proof fn transitions_carry_the_state(
    outcome: StateOutcome,
    supported: u32,
    button: Button,
    before: bool,
)
    requires
        outcome != StateOutcome::Unchanged,
        holds(supported, button),
        outcome matches StateOutcome::Changed { previous, .. } ==> before == holds(
            previous,
            button,
        ),
    ensures
        level_after(before, transitions_of(outcome, supported), button) == holds(
            state_of(outcome),
            button,
        ),
{
    let power = transition(outcome, supported, Button::Power);
    let up = transition(outcome, supported, Button::VolumeUp);
    let down = transition(outcome, supported, Button::VolumeDown);
    level_after_joined(before, power, up, button);
    level_after_joined(before, power + up, down, button);
    reveal_with_fuel(level_after, 2);
}

/// Keeps the driver linked into builds that load it by name.
pub fn force_link() {
}

} // verus!
