//! Input events and the event codes that the input drivers report.

use vstd::prelude::*;

pub mod reader;

verus! {

pub const EV_SYN: u16 = 0x00;

pub const EV_KEY: u16 = 0x01;

pub const EV_REL: u16 = 0x02;

pub const EV_ABS: u16 = 0x03;

pub const EV_SW: u16 = 0x05;

pub const SYN_REPORT: u16 = 0x00;

pub const REL_X: u16 = 0x00;

pub const REL_Y: u16 = 0x01;

pub const ABS_X: u16 = 0x00;

pub const ABS_Y: u16 = 0x01;

pub const ABS_PRESSURE: u16 = 0x18;

pub const ABS_MT_SLOT: u16 = 0x2f;

pub const ABS_MT_TOUCH_MAJOR: u16 = 0x30;

pub const ABS_MT_POSITION_X: u16 = 0x35;

pub const ABS_MT_POSITION_Y: u16 = 0x36;

pub const ABS_MT_TRACKING_ID: u16 = 0x39;

pub const ABS_MT_PRESSURE: u16 = 0x3a;

pub const BTN_LEFT: u16 = 0x110;

pub const BTN_TOUCH: u16 = 0x14a;

pub const KEY_RELEASE: i32 = 0;

pub const KEY_PRESS: i32 = 1;

pub const SW_LID: u16 = 0x00;

pub const SW_TABLET_MODE: u16 = 0x01;

/// One event as an input device reports it: its type, code and value.
pub type InputEvent = (u16, u16, i32);

/// One absolute axis that a device announces.
#[derive(Clone, Copy, Debug, Eq, PartialEq, Structural)]
pub struct AbsoluteAxis {
    pub code: u16,
    pub minimum: i32,
    pub maximum: i32,
}

/// Appends one event.
pub fn push_event(events: &mut Vec<InputEvent>, event_type: u16, code: u16, value: i32)
    ensures
        final(events)@ == old(events)@.push((event_type, code, value)),
{
    events.push((event_type, code, value));
}

} // verus!
