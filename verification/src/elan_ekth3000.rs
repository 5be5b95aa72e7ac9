//! Elan eKTH3000 I2C clickpad support.
//!
//! The first active contact is exposed as a relative pointer and the clickpad
//! switch as `BTN_LEFT`. The hardware is used in its native absolute-report
//! mode.

use vstd::prelude::*;

use crate::bytes::{be16, be32, le16, le16_bytes, read_be_u32};
use crate::cros_ec_spi::{as_u32, read_u32_property};
use crate::i2c::{read_view, write_view, I2cMessage};
use crate::input::{push_event, InputEvent, BTN_LEFT, EV_KEY, EV_REL, EV_SYN, REL_X, REL_Y, SYN_REPORT};
use crate::usb_touchpad::toward_zero;

pub mod laws;

verus! {

pub const ETP_ADDRESS: u8 = 0x15;

pub const ETP_STAND_CMD: u16 = 0x0005;

pub const ETP_PATTERN_CMD: u16 = 0x0100;

pub const ETP_MAX_X_CMD: u16 = 0x0106;

pub const ETP_MAX_Y_CMD: u16 = 0x0107;

pub const ETP_SET_CMD: u16 = 0x0300;

pub const ETP_RESET: u16 = 0x0100;

pub const ETP_WAKE_UP: u16 = 0x0800;

pub const ETP_ENABLE_ABS: u16 = 0x0001;

pub const ETP_REPORT_LEN: usize = 34;

pub const ETP_REPORT_LEN_HIGH_PRECISION: usize = 39;

pub const ETP_REPORT_ID_OFFSET: usize = 2;

pub const ETP_TOUCH_INFO_OFFSET: usize = 3;

pub const ETP_FINGER_DATA_OFFSET: usize = 4;

pub const ETP_FINGER_DATA_LEN: usize = 5;

pub const ETP_REPORT_ID: u8 = 0x5d;

pub const ETP_REPORT_ID_HIGH_PRECISION: u8 = 0x60;

pub const POINTER_SCALE: i32 = 12;

pub const RESET_DELAY_US: u64 = 100_000;

pub const BUS_SPEED_HZ: u32 = 400_000;

/// The clickpad: its geometry, and what is remembered between reports.
#[derive(Debug)]
pub struct ElanEkth3000 {
    pub address: u8,
    pub report_len: usize,
    pub max_y: u16,
    pub last_contact: Option<(u16, u16)>,
    pub button_pressed: bool,
    pub work_pending: bool,
}

// Reports.

/// The contact of the first record. Records of active fingers are packed, so
/// the first one belongs to the first active finger, if any finger is active:
/// the five high bits of the touch information. The vertical axis points up.
pub open spec fn contact_of(report: Seq<u8>, max_y: u16) -> Option<(u16, u16)> {
    if report.len() < ETP_FINGER_DATA_OFFSET + ETP_FINGER_DATA_LEN
        || report[ETP_TOUCH_INFO_OFFSET as int] < 8 {
        None
    } else {
        let at = ETP_FINGER_DATA_OFFSET as int;
        let (x, raw_y) = if report[ETP_REPORT_ID_OFFSET as int] == ETP_REPORT_ID_HIGH_PRECISION {
            (be16(report, at), be16(report, at + 2))
        } else {
            (
                report[at] / 16 * 0x100 + report[at + 1],
                report[at] % 16 * 0x100 + report[at + 2],
            )
        };
        Some(
            (
                x as u16,
                if max_y >= raw_y {
                    (max_y - raw_y) as u16
                } else {
                    0
                },
            ),
        )
    }
}

pub open spec fn known_report(report: Seq<u8>) -> bool {
    report.len() > ETP_REPORT_ID_OFFSET && (report[ETP_REPORT_ID_OFFSET as int] == ETP_REPORT_ID
        || report[ETP_REPORT_ID_OFFSET as int] == ETP_REPORT_ID_HIGH_PRECISION)
}

pub open spec fn button_of(report: Seq<u8>) -> bool {
    report[ETP_TOUCH_INFO_OFFSET as int] % 2 == 1
}

pub open spec fn relative_event(code: u16, from: u16, to: u16) -> Seq<InputEvent> {
    let steps = toward_zero(to - from, POINTER_SCALE as int);
    if steps == 0 {
        Seq::empty()
    } else {
        seq![(EV_REL, code, steps as i32)]
    }
}

/// The events of a known report: a button change, the motion since the last
/// contact, and the end of the frame.
pub open spec fn report_events(
    last_contact: Option<(u16, u16)>,
    was_pressed: bool,
    contact: Option<(u16, u16)>,
    pressed: bool,
) -> Seq<InputEvent> {
    (if was_pressed == pressed {
        Seq::empty()
    } else {
        seq![
            (
                EV_KEY,
                BTN_LEFT,
                if pressed {
                    1i32
                } else {
                    0i32
                },
            ),
        ]
    }) + (match (contact, last_contact) {
        (Some((x, y)), Some((last_x, last_y))) => relative_event(REL_X, last_x, x)
            + relative_event(REL_Y, last_y, y),
        _ => Seq::empty(),
    }) + seq![(EV_SYN, SYN_REPORT, 0i32)]
}

/// Steps of the pointer between two coordinates.
fn pointer_steps(from: u16, to: u16) -> (r: i32)
    ensures
        r == toward_zero(to - from, POINTER_SCALE as int),
{
    if to >= from {
        (to - from) as i32 / POINTER_SCALE
    } else {
        -((from - to) as i32 / POINTER_SCALE)
    }
}

fn push_relative(events: &mut Vec<InputEvent>, code: u16, from: u16, to: u16)
    ensures
        final(events)@ == old(events)@ + relative_event(code, from, to),
{
    let ghost before = events@;
    let steps: i32 = pointer_steps(from, to);
    if steps != 0 {
        push_event(events, EV_REL, code, steps);
    }
    assert(events@ =~= before + relative_event(code, from, to));
}

impl ElanEkth3000 {
    pub fn contact_from_report(&self, report: &[u8]) -> (r: Option<(u16, u16)>)
        ensures
            r == contact_of(report@, self.max_y),
    {
        if report.len() < ETP_FINGER_DATA_OFFSET + ETP_FINGER_DATA_LEN {
            return None;
        }
        if report[ETP_TOUCH_INFO_OFFSET] < 8 {
            return None;
        }
        let at: usize = ETP_FINGER_DATA_OFFSET;
        let (x, raw_y): (u16, u16) = if report[ETP_REPORT_ID_OFFSET]
            == ETP_REPORT_ID_HIGH_PRECISION {
            (
                report[at] as u16 * 0x100 + report[at + 1] as u16,
                report[at + 2] as u16 * 0x100 + report[at + 3] as u16,
            )
        } else {
            (
                report[at] as u16 / 16 * 0x100 + report[at + 1] as u16,
                report[at] as u16 % 16 * 0x100 + report[at + 2] as u16,
            )
        };
        Some((x, self.max_y.saturating_sub(raw_y)))
    }

    /// Turns a report into input events. An unknown one is ignored.
    pub fn process_report(&mut self, report: &[u8]) -> (r: Vec<InputEvent>)
        requires
            known_report(report@) ==> report@.len() > ETP_TOUCH_INFO_OFFSET,
        ensures
            if known_report(report@) {
                let contact = contact_of(report@, old(self).max_y);
                let pressed = button_of(report@);
                &&& r@ == report_events(
                    old(self).last_contact,
                    old(self).button_pressed,
                    contact,
                    pressed,
                )
                &&& *final(self) == (ElanEkth3000 {
                    last_contact: contact,
                    button_pressed: pressed,
                    ..*old(self)
                })
            } else {
                r@ == Seq::<InputEvent>::empty() && *final(self) == *old(self)
            },
    {
        let mut events: Vec<InputEvent> = Vec::new();
        if report.len() <= ETP_REPORT_ID_OFFSET {
            return events;
        }
        let report_id: u8 = report[ETP_REPORT_ID_OFFSET];
        if report_id != ETP_REPORT_ID && report_id != ETP_REPORT_ID_HIGH_PRECISION {
            return events;
        }
        let pressed: bool = report[ETP_TOUCH_INFO_OFFSET] % 2 == 1;
        let ghost was_pressed = self.button_pressed;
        if self.button_pressed != pressed {
            push_event(
                &mut events,
                EV_KEY,
                BTN_LEFT,
                if pressed {
                    1
                } else {
                    0
                },
            );
            self.button_pressed = pressed;
        }
        let contact = self.contact_from_report(report);
        if let (Some((x, y)), Some((last_x, last_y))) = (contact, self.last_contact) {
            push_relative(&mut events, REL_X, last_x, x);
            push_relative(&mut events, REL_Y, last_y, y);
        }
        let ghost last = self.last_contact;
        self.last_contact = contact;
        push_event(&mut events, EV_SYN, SYN_REPORT, 0);
        assert(events@ =~= report_events(last, was_pressed, contact, pressed));
        events
    }

    /// The transfer that reads one report.
    pub fn report_request(&self) -> (r: Result<I2cMessage, &'static str>)
        ensures
            match r {
                Ok(message) => {
                    &&& self.report_len == ETP_REPORT_LEN || self.report_len
                        == ETP_REPORT_LEN_HIGH_PRECISION
                    &&& message@ == read_view(self.address, self.report_len as int, true)
                },
                Err(e) => {
                    &&& self.report_len != ETP_REPORT_LEN && self.report_len
                        != ETP_REPORT_LEN_HIGH_PRECISION
                    &&& e == "elan-ekth3000: unsupported report length"
                },
            },
    {
        if self.report_len == ETP_REPORT_LEN || self.report_len == ETP_REPORT_LEN_HIGH_PRECISION {
            Ok(I2cMessage::read(self.address, self.report_len, true))
        } else {
            Err("elan-ekth3000: unsupported report length")
        }
    }

    /// Takes what the report transfer brought.
    pub fn read_and_process_report(&mut self, reply: Result<&[u8], ()>) -> (r: Result<
        Vec<InputEvent>,
        &'static str,
    >)
        requires
            old(self).report_len == ETP_REPORT_LEN || old(self).report_len
                == ETP_REPORT_LEN_HIGH_PRECISION,
        ensures
            match reply {
                Err(_) => {
                    &&& r == Err::<Vec<InputEvent>, &'static str>("elan-ekth3000: I2C read failed")
                    &&& *final(self) == *old(self)
                },
                Ok(report) => if report@.len() != old(self).report_len {
                    &&& r == Err::<Vec<InputEvent>, &'static str>("elan-ekth3000: short I2C read")
                    &&& *final(self) == *old(self)
                } else if known_report(report@) {
                    let contact = contact_of(report@, old(self).max_y);
                    let pressed = button_of(report@);
                    &&& r is Ok
                    &&& r->Ok_0@ == report_events(
                        old(self).last_contact,
                        old(self).button_pressed,
                        contact,
                        pressed,
                    )
                    &&& *final(self) == (ElanEkth3000 {
                        last_contact: contact,
                        button_pressed: pressed,
                        ..*old(self)
                    })
                } else {
                    &&& r is Ok && r->Ok_0@ == Seq::<InputEvent>::empty()
                    &&& *final(self) == *old(self)
                },
            },
    {
        match reply {
            Err(_) => Err("elan-ekth3000: I2C read failed"),
            Ok(report) => {
                if report.len() != self.report_len {
                    return Err("elan-ekth3000: short I2C read");
                }
                Ok(self.process_report(report))
            },
        }
    }

    /// Marks work for the worker.
    pub fn handle_interrupt(&mut self)
        ensures
            *final(self) == (ElanEkth3000 { work_pending: true, ..*old(self) }),
    {
        self.work_pending = true;
    }

    /// Takes the pending mark: whether a report is to be read now.
    pub fn take_pending_work(&mut self) -> (r: bool)
        ensures
            r == old(self).work_pending,
            *final(self) == (ElanEkth3000 { work_pending: false, ..*old(self) }),
    {
        let pending: bool = self.work_pending;
        self.work_pending = false;
        pending
    }
}

// Commands.

/// Writes a 16-bit register address, then reads two bytes.
pub fn read_command(address: u8, register: u16) -> (r: [I2cMessage; 2])
    ensures
        r[0]@ == write_view(address, le16_bytes(register as int), false),
        r[1]@ == read_view(address, 2, true),
{
    let command: [u8; 2] = [(register % 0x100) as u8, (register / 0x100) as u8];
    assert(command@ =~= le16_bytes(register as int));
    [I2cMessage::write(address, &command, false), I2cMessage::read(address, 2, true)]
}

/// The value that a command read brought.
pub fn command_value(reply: Result<&[u8], ()>) -> (r: Result<u16, &'static str>)
    ensures
        r == (match reply {
            Err(_) => Err::<u16, &'static str>("elan-ekth3000: command read failed"),
            Ok(data) => if data@.len() != 2 {
                Err("elan-ekth3000: short command response")
            } else {
                Ok(le16(data@, 0) as u16)
            },
        }),
{
    match reply {
        Err(_) => Err("elan-ekth3000: command read failed"),
        Ok(data) => {
            if data.len() != 2 {
                return Err("elan-ekth3000: short command response");
            }
            Ok(data[0] as u16 + data[1] as u16 * 0x100)
        },
    }
}

/// Writes a register and its value.
pub fn write_command(address: u8, register: u16, value: u16) -> (r: I2cMessage)
    ensures
        r@ == write_view(
            address,
            le16_bytes(register as int) + le16_bytes(value as int),
            true,
        ),
{
    let frame: [u8; 4] = [
        (register % 0x100) as u8,
        (register / 0x100) as u8,
        (value % 0x100) as u8,
        (value / 0x100) as u8,
    ];
    assert(frame@ =~= le16_bytes(register as int) + le16_bytes(value as int));
    I2cMessage::write(address, &frame, true)
}

// Probing.

/// Where probing stands; each stage waits for the outcome of its action.
#[derive(Clone, Copy, Debug, Eq, PartialEq, Structural)]
pub enum ProbeStage {
    Reset,
    ResetAcknowledge,
    EnableAbsolute,
    WakeUp,
    Pattern,
    MaxX { report_len: usize },
    MaxY { report_len: usize },
}

/// What to do next.
#[derive(Clone, Copy, Debug, Eq, PartialEq, Structural)]
pub enum ProbeAction {
    WriteCommand { register: u16, value: u16 },
    /// Wait, then read raw bytes.
    ReadRaw { delay_us: u64, length: usize },
    ReadCommand { register: u16 },
}

/// The result of one stage.
#[derive(Clone, Copy, Debug)]
pub enum ProbeStep {
    Continue(ProbeStage, ProbeAction),
    Ready { report_len: usize, max_y: u16 },
    Failed(&'static str),
}

/// The report length of a pattern word; an erased word counts as pattern 0.
pub open spec fn report_length(pattern_word: u16) -> usize {
    if pattern_word == u16::MAX || pattern_word < 0x200 {
        ETP_REPORT_LEN
    } else {
        ETP_REPORT_LEN_HIGH_PRECISION
    }
}

pub fn report_length_for(pattern_word: u16) -> (r: usize)
    ensures
        r == report_length(pattern_word),
{
    let pattern: u16 = if pattern_word == u16::MAX {
        0
    } else {
        pattern_word / 0x100
    };
    if pattern <= 1 {
        ETP_REPORT_LEN
    } else {
        ETP_REPORT_LEN_HIGH_PRECISION
    }
}

/// The value of a command read, as a step.
pub open spec fn command_reply(reply: Result<Seq<u8>, ()>) -> Result<u16, &'static str> {
    match reply {
        Err(_) => Err("elan-ekth3000: command read failed"),
        Ok(data) => if data.len() != 2 {
            Err("elan-ekth3000: short command response")
        } else {
            Ok(le16(data, 0) as u16)
        },
    }
}

pub open spec fn probe_step(stage: ProbeStage, reply: Result<Seq<u8>, ()>) -> ProbeStep {
    match stage {
        ProbeStage::Reset => match reply {
            Ok(_) => ProbeStep::Continue(
                ProbeStage::ResetAcknowledge,
                ProbeAction::ReadRaw { delay_us: RESET_DELAY_US, length: 2 },
            ),
            Err(_) => ProbeStep::Failed("elan-ekth3000: command write failed"),
        },
        ProbeStage::ResetAcknowledge => match reply {
            Ok(data) => if data.len() == 2 {
                ProbeStep::Continue(
                    ProbeStage::EnableAbsolute,
                    ProbeAction::WriteCommand { register: ETP_SET_CMD, value: ETP_ENABLE_ABS },
                )
            } else {
                ProbeStep::Failed("elan-ekth3000: short I2C read")
            },
            Err(_) => ProbeStep::Failed("elan-ekth3000: I2C read failed"),
        },
        ProbeStage::EnableAbsolute => match reply {
            Ok(_) => ProbeStep::Continue(
                ProbeStage::WakeUp,
                ProbeAction::WriteCommand { register: ETP_STAND_CMD, value: ETP_WAKE_UP },
            ),
            Err(_) => ProbeStep::Failed("elan-ekth3000: command write failed"),
        },
        ProbeStage::WakeUp => match reply {
            Ok(_) => ProbeStep::Continue(
                ProbeStage::Pattern,
                ProbeAction::ReadCommand { register: ETP_PATTERN_CMD },
            ),
            Err(_) => ProbeStep::Failed("elan-ekth3000: command write failed"),
        },
        ProbeStage::Pattern => match command_reply(reply) {
            Ok(word) => ProbeStep::Continue(
                ProbeStage::MaxX { report_len: report_length(word) },
                ProbeAction::ReadCommand { register: ETP_MAX_X_CMD },
            ),
            Err(e) => ProbeStep::Failed(e),
        },
        ProbeStage::MaxX { report_len } => match command_reply(reply) {
            Ok(_) => ProbeStep::Continue(
                ProbeStage::MaxY { report_len },
                ProbeAction::ReadCommand { register: ETP_MAX_Y_CMD },
            ),
            Err(e) => ProbeStep::Failed(e),
        },
        ProbeStage::MaxY { report_len } => match command_reply(reply) {
            Ok(max_y) => ProbeStep::Ready { report_len, max_y },
            Err(e) => ProbeStep::Failed(e),
        },
    }
}

/// Probing starts with a reset.
pub fn begin_probe() -> (r: (ProbeStage, ProbeAction))
    ensures
        r == (
            ProbeStage::Reset,
            ProbeAction::WriteCommand { register: ETP_STAND_CMD, value: ETP_RESET },
        ),
{
    (ProbeStage::Reset, ProbeAction::WriteCommand { register: ETP_STAND_CMD, value: ETP_RESET })
}

pub open spec fn reply_view(reply: Result<&[u8], ()>) -> Result<Seq<u8>, ()> {
    match reply {
        Ok(data) => Ok(data@),
        Err(e) => Err(e),
    }
}

/// Takes the outcome of a stage's action. The bytes of a reset
/// acknowledgement do not matter, only that two came.
pub fn continue_probe(stage: ProbeStage, reply: Result<&[u8], ()>) -> (r: ProbeStep)
    ensures
        r == probe_step(stage, reply_view(reply)),
{
    match stage {
        ProbeStage::Reset => match reply {
            Ok(_) => ProbeStep::Continue(
                ProbeStage::ResetAcknowledge,
                ProbeAction::ReadRaw { delay_us: RESET_DELAY_US, length: 2 },
            ),
            Err(_) => ProbeStep::Failed("elan-ekth3000: command write failed"),
        },
        ProbeStage::ResetAcknowledge => match reply {
            Ok(data) => if data.len() == 2 {
                ProbeStep::Continue(
                    ProbeStage::EnableAbsolute,
                    ProbeAction::WriteCommand { register: ETP_SET_CMD, value: ETP_ENABLE_ABS },
                )
            } else {
                ProbeStep::Failed("elan-ekth3000: short I2C read")
            },
            Err(_) => ProbeStep::Failed("elan-ekth3000: I2C read failed"),
        },
        ProbeStage::EnableAbsolute => match reply {
            Ok(_) => ProbeStep::Continue(
                ProbeStage::WakeUp,
                ProbeAction::WriteCommand { register: ETP_STAND_CMD, value: ETP_WAKE_UP },
            ),
            Err(_) => ProbeStep::Failed("elan-ekth3000: command write failed"),
        },
        ProbeStage::WakeUp => match reply {
            Ok(_) => ProbeStep::Continue(
                ProbeStage::Pattern,
                ProbeAction::ReadCommand { register: ETP_PATTERN_CMD },
            ),
            Err(_) => ProbeStep::Failed("elan-ekth3000: command write failed"),
        },
        ProbeStage::Pattern => match command_value(reply) {
            Ok(word) => ProbeStep::Continue(
                ProbeStage::MaxX { report_len: report_length_for(word) },
                ProbeAction::ReadCommand { register: ETP_MAX_X_CMD },
            ),
            Err(e) => ProbeStep::Failed(e),
        },
        ProbeStage::MaxX { report_len } => match command_value(reply) {
            Ok(_) => ProbeStep::Continue(
                ProbeStage::MaxY { report_len },
                ProbeAction::ReadCommand { register: ETP_MAX_Y_CMD },
            ),
            Err(e) => ProbeStep::Failed(e),
        },
        ProbeStage::MaxY { report_len } => match command_value(reply) {
            Ok(max_y) => ProbeStep::Ready { report_len, max_y },
            Err(e) => ProbeStep::Failed(e),
        },
    }
}

/// The clickpad as the interrupt path uses it.
pub fn ready(address: u8, report_len: usize, max_y: u16) -> (r: ElanEkth3000)
    ensures
        r == (ElanEkth3000 {
            address,
            report_len,
            max_y,
            last_contact: None,
            button_pressed: false,
            work_pending: false,
        }),
{
    ElanEkth3000 {
        address,
        report_len,
        max_y,
        last_contact: None,
        button_pressed: false,
        work_pending: false,
    }
}

pub open spec fn address_of(reg: Option<usize>) -> Result<u8, &'static str> {
    match reg {
        None => Err("elan-ekth3000: missing I2C address"),
        Some(address) => if address == ETP_ADDRESS {
            Ok(ETP_ADDRESS)
        } else {
            Err("elan-ekth3000: unexpected I2C address")
        },
    }
}

/// The address in `reg`; the part has a fixed one.
pub fn read_address(reg: Option<usize>) -> (r: Result<u8, &'static str>)
    ensures
        r == address_of(reg),
{
    match reg {
        None => Err("elan-ekth3000: missing I2C address"),
        Some(address) => {
            if address != ETP_ADDRESS as usize {
                return Err("elan-ekth3000: unexpected I2C address");
            }
            Ok(ETP_ADDRESS)
        },
    }
}

#[derive(Clone, Copy, Debug, Eq, PartialEq, Structural)]
pub enum GpioIrqTrigger {
    RisingEdge,
    FallingEdge,
    HighLevel,
    LowLevel,
}

/// The trigger in the low four bits of interrupt flags.
pub open spec fn trigger_of(flags: int) -> Option<GpioIrqTrigger> {
    if flags % 16 == 1 {
        Some(GpioIrqTrigger::RisingEdge)
    } else if flags % 16 == 2 {
        Some(GpioIrqTrigger::FallingEdge)
    } else if flags % 16 == 4 {
        Some(GpioIrqTrigger::HighLevel)
    } else if flags % 16 == 8 {
        Some(GpioIrqTrigger::LowLevel)
    } else {
        None
    }
}

pub open spec fn irq_of(interrupt_parent: Option<usize>, interrupts: Option<&[u8]>) -> Result<
    (u32, u32, GpioIrqTrigger),
    &'static str,
> {
    if as_u32(interrupt_parent) is None {
        Err("elan-ekth3000: missing interrupt-parent")
    } else if interrupts is None {
        Err("elan-ekth3000: missing interrupts")
    } else if interrupts->Some_0@.len() < 8 {
        Err("elan-ekth3000: malformed interrupts")
    } else if trigger_of(be32(interrupts->Some_0@, 4)) is None {
        Err("elan-ekth3000: unsupported IRQ trigger")
    } else {
        Ok(
            (
                as_u32(interrupt_parent)->Some_0,
                be32(interrupts->Some_0@, 0) as u32,
                trigger_of(be32(interrupts->Some_0@, 4))->Some_0,
            ),
        )
    }
}

/// The controller, pin and trigger of the interrupt line.
pub fn resolve_irq(interrupt_parent: Option<usize>, interrupts: Option<&[u8]>) -> (r: Result<
    (u32, u32, GpioIrqTrigger),
    &'static str,
>)
    ensures
        r == irq_of(interrupt_parent, interrupts),
{
    let phandle: u32 = match read_u32_property(interrupt_parent) {
        Some(phandle) => phandle,
        None => {
            return Err("elan-ekth3000: missing interrupt-parent");
        },
    };
    let interrupts = match interrupts {
        Some(interrupts) => interrupts,
        None => {
            return Err("elan-ekth3000: missing interrupts");
        },
    };
    match (read_be_u32(interrupts, 0), read_be_u32(interrupts, 4)) {
        (Some(pin), Some(flags)) => {
            let trigger = match flags % 16 {
                1 => GpioIrqTrigger::RisingEdge,
                2 => GpioIrqTrigger::FallingEdge,
                4 => GpioIrqTrigger::HighLevel,
                8 => GpioIrqTrigger::LowLevel,
                _ => {
                    return Err("elan-ekth3000: unsupported IRQ trigger");
                },
            };
            Ok((phandle, pin, trigger))
        },
        _ => Err("elan-ekth3000: malformed interrupts"),
    }
}

/// Where the clickpad is and where its interrupt comes in.
#[derive(Clone, Copy, Debug, Eq, PartialEq, Structural)]
pub struct Placement {
    pub address: u8,
    /// Handle of the GPIO controller.
    pub irq_controller: u32,
    pub irq_pin: u32,
    pub irq_trigger: GpioIrqTrigger,
}

/// What a device comes to, or its first fault: the bus speed that could not be
/// set, then its address, then its interrupt.
pub open spec fn placed(
    speed_set: bool,
    reg: Option<usize>,
    interrupt_parent: Option<usize>,
    interrupts: Option<&[u8]>,
) -> Result<Placement, &'static str> {
    match (speed_set, address_of(reg), irq_of(interrupt_parent, interrupts)) {
        (false, _, _) => Err("elan-ekth3000: failed to set I2C bus speed"),
        (_, Err(e), _) => Err(e),
        (_, _, Err(e)) => Err(e),
        (_, Ok(address), Ok((irq_controller, irq_pin, irq_trigger))) => Ok(
            Placement { address, irq_controller, irq_pin, irq_trigger },
        ),
    }
}

/// Reads what a device says of itself, once its bus was asked for the speed.
pub fn place(
    speed_set: bool,
    reg: Option<usize>,
    interrupt_parent: Option<usize>,
    interrupts: Option<&[u8]>,
) -> (r: Result<Placement, &'static str>)
    ensures
        r == placed(speed_set, reg, interrupt_parent, interrupts),
{
    if !speed_set {
        return Err("elan-ekth3000: failed to set I2C bus speed");
    }
    let address: u8 = match read_address(reg) {
        Ok(address) => address,
        Err(e) => {
            return Err(e);
        },
    };
    match resolve_irq(interrupt_parent, interrupts) {
        Ok((irq_controller, irq_pin, irq_trigger)) => Ok(
            Placement { address, irq_controller, irq_pin, irq_trigger },
        ),
        Err(e) => Err(e),
    }
}

// Laws.

/// A report that repeats the last contact and button only ends a frame.
pub proof fn a_still_contact_is_silent(contact: Option<(u16, u16)>, pressed: bool)
    ensures
        report_events(contact, pressed, contact, pressed) == seq![(EV_SYN, SYN_REPORT, 0i32)],
{
    assert(report_events(contact, pressed, contact, pressed) =~= seq![
        (EV_SYN, SYN_REPORT, 0i32),
    ]);
}

/// Every report length that probing settles on is one that can be read, and
/// a report of that length reaches the touch information.
pub proof fn probed_report_lengths_are_supported(pattern_word: u16)
    ensures
        report_length(pattern_word) == ETP_REPORT_LEN || report_length(pattern_word)
            == ETP_REPORT_LEN_HIGH_PRECISION,
        report_length(pattern_word) > ETP_TOUCH_INFO_OFFSET,
{
}

/// Keeps the driver linked into builds that load it by name.
pub fn force_link() {
}

} // verus!
