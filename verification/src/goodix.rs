//! Goodix GT7375P touchscreen: I2C-HID framing, contact decoding and input events.
//!
//! The controller's HID contact records become type-B multitouch slots. The
//! primary contact is also mirrored to `ABS_X`, `ABS_Y` and `ABS_PRESSURE`.

use vstd::prelude::*;

use crate::bytes::{be32, le16, le16_bytes, read_be_u32, read_le_u16};
use crate::goodix::hid::{
    decode_contacts, decode_input_length, encode_simple_command, report_contacts, HidContact,
    HidField, HidTouchLayout, LayoutView,
};
use crate::goodix::slots::{SlotTracker, SlotUpdate, TouchFrame, TrackerView};
use crate::i2c::{read_view, write_view, I2cError, I2cMessage};
use crate::input::{
    push_event, AbsoluteAxis, InputEvent, ABS_MT_POSITION_X, ABS_MT_POSITION_Y, ABS_MT_PRESSURE,
    ABS_MT_SLOT, ABS_MT_TOUCH_MAJOR, ABS_MT_TRACKING_ID, ABS_PRESSURE, ABS_X, ABS_Y, BTN_TOUCH,
    EV_ABS, EV_KEY, EV_SYN, SYN_REPORT,
};

pub mod decoding;
pub mod descriptor;
pub mod frames;
pub mod hid;
pub mod identity;
pub mod items;
pub mod layouts;
pub mod slots;
pub mod touches;

verus! {

pub const GOODIX_ADDRESS: u8 = 0x5d;

pub const BUS_SPEED_HZ: u32 = 400_000;

pub const I2C_HID_DESCRIPTOR_REGISTER: u16 = 0x0001;

pub const I2C_HID_DESCRIPTOR_LENGTH: usize = 30;

pub const GOODIX_HID_VENDOR_ID: u16 = 0x27c6;

pub const COACHZ_GT7375P_PRODUCT_IDS: [u16; 2] = [0x0e51, 0x0e94];

pub const I2C_HID_OPCODE_RESET: u8 = 0x01;

pub const I2C_HID_OPCODE_SET_POWER: u8 = 0x08;

pub const I2C_HID_POWER_ON_DELAY_US: u64 = 60_000;

pub const I2C_HID_RESET_TIMEOUT_US: u64 = 5_000_000;

pub const RESET_POLL_US: u64 = 1_000;

pub const MAX_INPUT_LENGTH: usize = 512;

pub const MAX_REPORT_DESCRIPTOR_LENGTH: usize = 4096;

pub const POLL_INTERVAL_NS: u64 = 17_000_000;

pub const MAX_TOUCH_SLOTS: usize = 5;

// Input events.

/// The events of an optional axis.
pub open spec fn optional_axis(code: u16, value: Option<i32>) -> Seq<InputEvent> {
    match value {
        Some(value) => seq![(EV_ABS, code, value)],
        None => Seq::empty(),
    }
}

/// The events that report one updated slot.
pub open spec fn update_events(update: SlotUpdate) -> Seq<InputEvent> {
    seq![(EV_ABS, ABS_MT_SLOT, update.slot as i32)] + (if update.began {
        seq![(EV_ABS, ABS_MT_TRACKING_ID, update.tracking_id)]
    } else {
        Seq::empty()
    }) + seq![
        (EV_ABS, ABS_MT_POSITION_X, update.contact.x),
        (EV_ABS, ABS_MT_POSITION_Y, update.contact.y),
    ] + optional_axis(ABS_MT_PRESSURE, update.contact.pressure) + optional_axis(
        ABS_MT_TOUCH_MAJOR,
        update.contact.touch_major,
    )
}

pub open spec fn all_update_events(updates: Seq<SlotUpdate>) -> Seq<InputEvent>
    decreases updates.len(),
{
    if updates.len() == 0 {
        Seq::empty()
    } else {
        all_update_events(updates.drop_last()) + update_events(updates.last())
    }
}

pub open spec fn release_events(releases: Seq<usize>) -> Seq<InputEvent>
    decreases releases.len(),
{
    if releases.len() == 0 {
        Seq::empty()
    } else {
        release_events(releases.drop_last()) + seq![
            (EV_ABS, ABS_MT_SLOT, releases.last() as i32),
            (EV_ABS, ABS_MT_TRACKING_ID, -1i32),
        ]
    }
}

/// The single-touch mirror of the first contact.
pub open spec fn primary_events(primary: Option<HidContact>) -> Seq<InputEvent> {
    match primary {
        Some(contact) => seq![(EV_ABS, ABS_X, contact.x), (EV_ABS, ABS_Y, contact.y)]
            + optional_axis(ABS_PRESSURE, contact.pressure),
        None => Seq::empty(),
    }
}

/// All events of one frame, closed by one synchronisation.
pub open spec fn frame_events(
    updates: Seq<SlotUpdate>,
    releases: Seq<usize>,
    primary: Option<HidContact>,
    any_contact: bool,
) -> Seq<InputEvent> {
    all_update_events(updates) + release_events(releases) + primary_events(primary) + seq![
        (
            EV_KEY,
            BTN_TOUCH,
            if any_contact {
                1i32
            } else {
                0i32
            },
        ),
        (EV_SYN, SYN_REPORT, 0i32),
    ]
}

fn push_optional_axis(events: &mut Vec<InputEvent>, code: u16, value: Option<i32>)
    ensures
        final(events)@ == old(events)@ + optional_axis(code, value),
{
    if let Some(value) = value {
        push_event(events, EV_ABS, code, value);
    }
}

fn push_update(events: &mut Vec<InputEvent>, update: SlotUpdate)
    ensures
        final(events)@ == old(events)@ + update_events(update),
{
    let ghost before = events@;
    push_event(events, EV_ABS, ABS_MT_SLOT, update.slot as i32);
    if update.began {
        push_event(events, EV_ABS, ABS_MT_TRACKING_ID, update.tracking_id);
    }
    push_event(events, EV_ABS, ABS_MT_POSITION_X, update.contact.x);
    push_event(events, EV_ABS, ABS_MT_POSITION_Y, update.contact.y);
    push_optional_axis(events, ABS_MT_PRESSURE, update.contact.pressure);
    push_optional_axis(events, ABS_MT_TOUCH_MAJOR, update.contact.touch_major);
    assert(events@ =~= before + update_events(update));
}

/// The events that report a frame.
pub fn emit_touch_frame(frame: &TouchFrame) -> (r: Vec<InputEvent>)
    ensures
        r@ == frame_events(
            frame.updates@,
            frame.releases@,
            frame.primary,
            frame.any_contact,
        ),
{
    let mut events: Vec<InputEvent> = Vec::new();
    let mut i: usize = 0;
    while i < frame.updates.len()
        invariant
            i <= frame.updates@.len(),
            events@ == all_update_events(frame.updates@.take(i as int)),
        decreases frame.updates@.len() - i,
    {
        assert(frame.updates@.take(i + 1).drop_last() =~= frame.updates@.take(i as int));
        push_update(&mut events, frame.updates[i]);
        i = i + 1;
    }
    assert(frame.updates@.take(i as int) =~= frame.updates@);
    let ghost updated = events@;
    let mut k: usize = 0;
    while k < frame.releases.len()
        invariant
            k <= frame.releases@.len(),
            events@ == updated + release_events(frame.releases@.take(k as int)),
        decreases frame.releases@.len() - k,
    {
        assert(frame.releases@.take(k + 1).drop_last() =~= frame.releases@.take(k as int));
        push_event(&mut events, EV_ABS, ABS_MT_SLOT, frame.releases[k] as i32);
        push_event(&mut events, EV_ABS, ABS_MT_TRACKING_ID, -1);
        k = k + 1;
        assert(events@ =~= updated + release_events(frame.releases@.take(k as int)));
    }
    assert(frame.releases@.take(k as int) =~= frame.releases@);
    if let Some(primary) = frame.primary {
        push_event(&mut events, EV_ABS, ABS_X, primary.x);
        push_event(&mut events, EV_ABS, ABS_Y, primary.y);
        push_optional_axis(&mut events, ABS_PRESSURE, primary.pressure);
    }
    push_event(
        &mut events,
        EV_KEY,
        BTN_TOUCH,
        if frame.any_contact {
            1
        } else {
            0
        },
    );
    push_event(&mut events, EV_SYN, SYN_REPORT, 0);
    assert(events@ =~= frame_events(
        frame.updates@,
        frame.releases@,
        frame.primary,
        frame.any_contact,
    ));
    events
}

/// What one input message amounts to.
pub enum ReportView {
    /// A reset acknowledgement or another report: nothing to do.
    Ignored,
    /// The transfer cannot be a report of this controller.
    Malformed,
    /// A touch report with these contacts.
    Contacts(Seq<HidContact>),
}

/// The reading of an input message: its length word, then the report.
pub open spec fn input_message(data: Seq<u8>, layout: LayoutView) -> ReportView {
    if data.len() < 2 {
        ReportView::Malformed
    } else {
        let length = le16(data, 0);
        if length == 0 {
            ReportView::Ignored
        } else if length < 2 || length > data.len() {
            ReportView::Malformed
        } else {
            let report = data.subrange(2, length);
            if layout.report_id != 0 && !(report.len() > 0 && report[0] == layout.report_id) {
                ReportView::Ignored
            } else {
                match report_contacts(report, layout) {
                    Ok(contacts) => ReportView::Contacts(contacts),
                    Err(_) => ReportView::Malformed,
                }
            }
        }
    }
}

/// Turns one input message into the events it gives, tracking slots.
/// `None` stands for a message without touch data.
pub fn process_report(layout: &HidTouchLayout, tracker: &mut SlotTracker, data: &[u8]) -> (r: Result<
    Option<Vec<InputEvent>>,
    I2cError,
>)
    requires
        old(tracker)@.wf(),
    ensures
        final(tracker)@.wf(),
        final(tracker)@.slots.len() == old(tracker)@.slots.len(),
        match input_message(data@, layout@) {
            ReportView::Ignored => r matches Ok(None) && final(tracker)@ == old(tracker)@,
            ReportView::Malformed => r matches Err(I2cError::BusError) && final(tracker)@ == old(
                tracker,
            )@,
            ReportView::Contacts(contacts) => {
                let n = contacts.len() as int;
                let placed = old(tracker)@.placed(contacts, n);
                &&& r matches Ok(Some(events))
                &&& events@ == frame_events(
                    old(tracker)@.updates(contacts, n),
                    placed.stale(old(tracker)@.slots.len() as int),
                    if n > 0 {
                        Some(contacts[0])
                    } else {
                        None
                    },
                    n > 0,
                )
                &&& final(tracker)@ == placed.frame_end()
            },
        },
{
    let length: usize = match decode_input_length(data) {
        Some(length) => length,
        None => {
            return Err(I2cError::BusError);
        },
    };
    if length == 0 {
        return Ok(None);
    }
    if length < 2 || length > data.len() {
        return Err(I2cError::BusError);
    }
    let report = vstd::slice::slice_subrange(data, 2, length);
    if layout.report_id != 0 && !(report.len() > 0 && report[0] == layout.report_id) {
        return Ok(None);
    }
    match decode_contacts(report, layout) {
        Ok(contacts) => {
            let frame = tracker.apply(contacts.as_slice());
            Ok(Some(emit_touch_frame(&frame)))
        },
        Err(_) => Err(I2cError::BusError),
    }
}

// Lines, interrupts and the worker.

/// A GPIO line as the device tree describes it.
#[derive(Clone, Copy, Debug, Eq, PartialEq, Structural)]
pub struct GpioSpec {
    pub phandle: u32,
    pub pin: u32,
    pub active_low: bool,
}

impl GpioSpec {
    /// The physical level that asserts or releases the line.
    pub fn physical_level(&self, asserted: bool) -> (r: bool)
        ensures
            r == (asserted != self.active_low),
    {
        if self.active_low {
            !asserted
        } else {
            asserted
        }
    }

    /// Whether a physical level means that the line is asserted.
    pub fn is_asserted(&self, high: bool) -> (r: bool)
        ensures
            r == (high != self.active_low),
    {
        if self.active_low {
            !high
        } else {
            high
        }
    }
}

/// Driving a line to a logical state reads back as that state.
pub proof fn driven_level_reads_back(active_low: bool, asserted: bool)
    ensures
        ((asserted != active_low) != active_low) == asserted,
{
}

pub open spec fn gpio_of(property: Seq<u8>) -> Result<GpioSpec, &'static str> {
    if property.len() < 8 {
        Err("goodix-gt7375p: malformed GPIO property")
    } else {
        Ok(
            GpioSpec {
                phandle: be32(property, 0) as u32,
                pin: be32(property, 4) as u32,
                active_low: property.len() >= 12 && be32(property, 8) % 2 == 1,
            },
        )
    }
}

/// Reads a `<phandle pin flags>` GPIO property; absent flags mean active high.
pub fn resolve_gpio(property: &[u8]) -> (r: Result<GpioSpec, &'static str>)
    ensures
        r == gpio_of(property@),
{
    let phandle: u32 = match read_be_u32(property, 0) {
        Some(value) => value,
        None => {
            return Err("goodix-gt7375p: malformed GPIO property");
        },
    };
    let pin: u32 = match read_be_u32(property, 4) {
        Some(value) => value,
        None => {
            return Err("goodix-gt7375p: malformed GPIO property");
        },
    };
    let flags: u32 = match read_be_u32(property, 8) {
        Some(value) => value,
        None => 0,
    };
    Ok(GpioSpec { phandle, pin, active_low: flags % 2 == 1 })
}

/// Reads the reset line from `reset-gpios`.
pub fn resolve_reset_gpio(reset_gpios: Option<&[u8]>) -> (r: Result<GpioSpec, &'static str>)
    ensures
        r == (match reset_gpios {
            None => Err::<GpioSpec, &'static str>("goodix-gt7375p: missing reset-gpios"),
            Some(value) => gpio_of(value@),
        }),
{
    match reset_gpios {
        None => Err("goodix-gt7375p: missing reset-gpios"),
        Some(value) => resolve_gpio(value),
    }
}

/// Reads the interrupt line from `interrupt-parent` and `interrupts`. The
/// line is active low whatever trigger the tree names.
pub fn resolve_interrupt_gpio(parent: Option<&[u8]>, interrupts: Option<&[u8]>) -> (r: Result<
    GpioSpec,
    &'static str,
>)
    ensures
        r == (if parent is None {
            Err::<GpioSpec, &'static str>("goodix-gt7375p: missing interrupt-parent")
        } else if interrupts is None {
            Err("goodix-gt7375p: missing interrupts")
        } else if parent->Some_0@.len() < 4 {
            Err("goodix-gt7375p: malformed interrupt-parent")
        } else if interrupts->Some_0@.len() < 4 {
            Err("goodix-gt7375p: malformed interrupts")
        } else {
            Ok(
                GpioSpec {
                    phandle: be32(parent->Some_0@, 0) as u32,
                    pin: be32(interrupts->Some_0@, 0) as u32,
                    active_low: true,
                },
            )
        }),
{
    match (parent, interrupts) {
        (None, _) => Err("goodix-gt7375p: missing interrupt-parent"),
        (_, None) => Err("goodix-gt7375p: missing interrupts"),
        (Some(parent), Some(interrupts)) => {
            match (read_be_u32(parent, 0), read_be_u32(interrupts, 0)) {
                (None, _) => Err("goodix-gt7375p: malformed interrupt-parent"),
                (_, None) => Err("goodix-gt7375p: malformed interrupts"),
                (Some(phandle), Some(pin)) => Ok(GpioSpec { phandle, pin, active_low: true }),
            }
        },
    }
}

/// What the interrupt callback does.
#[derive(Clone, Copy, Debug, Eq, PartialEq, Structural)]
pub enum InterruptAction {
    /// The device is going away.
    Nothing,
    /// Mask the line; a notification is already pending.
    Mask,
    /// Mask the line and wake the worker.
    MaskAndWake,
}

/// The interrupt callback: mask, and coalesce notifications for the worker.
/// `work_pending` becomes set on an active device.
pub fn handle_interrupt(active: bool, work_pending: &mut bool) -> (r: InterruptAction)
    ensures
        r == (if !active {
            InterruptAction::Nothing
        } else if *old(work_pending) {
            InterruptAction::Mask
        } else {
            InterruptAction::MaskAndWake
        }),
        *final(work_pending) == (*old(work_pending) || active),
{
    if !active {
        return InterruptAction::Nothing;
    }
    if *work_pending {
        InterruptAction::Mask
    } else {
        *work_pending = true;
        InterruptAction::MaskAndWake
    }
}

/// Whether the worker acknowledges and unmasks the line after a report. The
/// read deasserts the level source, so this comes last, and polling needs none.
pub fn rearm_after_report(active: bool, poll_fallback: bool) -> (r: bool)
    ensures
        r == (active && !poll_fallback),
{
    active && !poll_fallback
}

/// What the worker does next.
#[derive(Clone, Copy, Debug, Eq, PartialEq, Structural)]
pub enum WorkerAction {
    /// Read a report, then look again.
    ProcessReport,
    /// Read a report, then sleep this many nanoseconds.
    ProcessThenSleep(u64),
    /// Sleep this many nanoseconds.
    Sleep(u64),
    /// Wait to be woken.
    Wait,
}

/// One turn of the worker: poll at a fixed interval where no interrupt could
/// be had, and otherwise consume the pending notification.
pub fn worker_step(
    present: bool,
    poll_fallback: bool,
    line_asserted: bool,
    work_pending: &mut bool,
) -> (r: WorkerAction)
    ensures
        r == (if present && poll_fallback {
            if line_asserted {
                WorkerAction::ProcessThenSleep(POLL_INTERVAL_NS)
            } else {
                WorkerAction::Sleep(POLL_INTERVAL_NS)
            }
        } else if present && *old(work_pending) {
            WorkerAction::ProcessReport
        } else {
            WorkerAction::Wait
        }),
        *final(work_pending) == (*old(work_pending) && !(present && !poll_fallback)),
{
    if present {
        if poll_fallback {
            return if line_asserted {
                WorkerAction::ProcessThenSleep(POLL_INTERVAL_NS)
            } else {
                WorkerAction::Sleep(POLL_INTERVAL_NS)
            };
        }
        if *work_pending {
            *work_pending = false;
            return WorkerAction::ProcessReport;
        }
    }
    WorkerAction::Wait
}

// Bring-up.

/// A line operation of the reset sequence.
#[derive(Clone, Copy, Debug, Eq, PartialEq, Structural)]
pub enum ResetStep {
    /// Make the reset line an output at this level.
    ResetOutput(bool),
    /// Set the reset line to this level.
    ResetLevel(bool),
    /// Make the interrupt line an input.
    InterruptInput,
    /// Wait this many microseconds.
    Delay(u64),
}

/// The reset sequence: assert for 20 ms, release, and leave the controller
/// 180 ms before the interrupt line is used.
pub fn reset_controller(reset: &GpioSpec) -> (r: [ResetStep; 5])
    ensures
        r@ == seq![
            ResetStep::ResetOutput(!reset.active_low),
            ResetStep::Delay(20_000),
            ResetStep::ResetLevel(reset.active_low),
            ResetStep::Delay(180_000),
            ResetStep::InterruptInput,
        ],
{
    [
        ResetStep::ResetOutput(!reset.active_low),
        ResetStep::Delay(20_000),
        ResetStep::ResetLevel(reset.physical_level(false)),
        ResetStep::Delay(180_000),
        ResetStep::InterruptInput,
    ]
}

/// What the I2C-HID descriptor announces.
#[derive(Clone, Copy, Debug, Eq, PartialEq, Structural)]
pub struct HidDescriptor {
    pub report_descriptor_length: usize,
    pub report_descriptor_register: u16,
    pub max_input_length: usize,
    pub command_register: u16,
    pub vendor_id: u16,
    pub product_id: u16,
}

/// The descriptor that the bytes spell, or why it is refused.
pub open spec fn hid_descriptor(d: Seq<u8>) -> Result<HidDescriptor, &'static str> {
    if !(d.len() >= 4 && le16(d, 0) == I2C_HID_DESCRIPTOR_LENGTH && le16(d, 2) == 0x0100) {
        Err("goodix-gt7375p: invalid I2C-HID descriptor")
    } else if d.len() < 22 {
        Err("goodix: missing HID vendor ID")
    } else if d.len() < 24 {
        Err("goodix: missing HID product ID")
    } else if le16(d, 20) != GOODIX_HID_VENDOR_ID || !(le16(d, 22) == 0x0e51 || le16(d, 22)
        == 0x0e94) {
        Err("goodix-gt7375p: unsupported I2C-HID identity")
    } else if !(1 <= le16(d, 4) <= MAX_REPORT_DESCRIPTOR_LENGTH && 3 <= le16(d, 10)
        <= MAX_INPUT_LENGTH) {
        Err("goodix-gt7375p: invalid I2C-HID buffer lengths")
    } else {
        Ok(
            HidDescriptor {
                report_descriptor_length: le16(d, 4) as usize,
                report_descriptor_register: le16(d, 6) as u16,
                max_input_length: le16(d, 10) as usize,
                command_register: le16(d, 16) as u16,
                vendor_id: le16(d, 20) as u16,
                product_id: le16(d, 22) as u16,
            },
        )
    }
}

/// Checks and reads the I2C-HID descriptor.
pub fn parse_hid_descriptor(d: &[u8]) -> (r: Result<HidDescriptor, &'static str>)
    ensures
        r == hid_descriptor(d@),
{
    if read_le_u16(d, 0) != Some(I2C_HID_DESCRIPTOR_LENGTH as u16) || read_le_u16(d, 2) != Some(
        0x0100u16,
    ) {
        return Err("goodix-gt7375p: invalid I2C-HID descriptor");
    }
    let vendor_id: u16 = match read_le_u16(d, 20) {
        Some(value) => value,
        None => {
            return Err("goodix: missing HID vendor ID");
        },
    };
    let product_id: u16 = match read_le_u16(d, 22) {
        Some(value) => value,
        None => {
            return Err("goodix: missing HID product ID");
        },
    };
    if vendor_id != GOODIX_HID_VENDOR_ID || !(product_id == COACHZ_GT7375P_PRODUCT_IDS[0]
        || product_id == COACHZ_GT7375P_PRODUCT_IDS[1]) {
        return Err("goodix-gt7375p: unsupported I2C-HID identity");
    }
    let report_descriptor_length: usize = read_le_u16(d, 4).unwrap() as usize;
    let report_descriptor_register: u16 = read_le_u16(d, 6).unwrap();
    let max_input_length: usize = read_le_u16(d, 10).unwrap() as usize;
    let command_register: u16 = read_le_u16(d, 16).unwrap();
    if report_descriptor_length == 0 || report_descriptor_length > MAX_REPORT_DESCRIPTOR_LENGTH
        || max_input_length < 3 || max_input_length > MAX_INPUT_LENGTH {
        return Err("goodix-gt7375p: invalid I2C-HID buffer lengths");
    }
    Ok(
        HidDescriptor {
            report_descriptor_length,
            report_descriptor_register,
            max_input_length,
            command_register,
            vendor_id,
            product_id,
        },
    )
}

/// The combined transfer that reads `length` bytes of a register.
pub fn register_read(register: u16, length: usize) -> (r: Vec<I2cMessage>)
    ensures
        r@.len() == 2,
        r@[0]@ == write_view(GOODIX_ADDRESS, le16_bytes(register as int), false),
        r@[1]@ == read_view(GOODIX_ADDRESS, length as int, true),
{
    let bytes: [u8; 2] = [(register % 0x100) as u8, (register / 0x100) as u8];
    assert(bytes@ =~= le16_bytes(register as int));
    let mut messages: Vec<I2cMessage> = Vec::new();
    messages.push(I2cMessage::write(GOODIX_ADDRESS, &bytes, false));
    messages.push(I2cMessage::read(GOODIX_ADDRESS, length, true));
    messages
}

/// The message that sends an I2C-HID command.
pub fn command_message(command_register: u16, opcode: u8) -> (r: I2cMessage)
    ensures
        r@ == write_view(
            GOODIX_ADDRESS,
            le16_bytes(command_register as int) + seq![0u8, opcode],
            true,
        ),
{
    let command = encode_simple_command(command_register, opcode);
    I2cMessage::write(GOODIX_ADDRESS, &command, true)
}

/// How far identification has come.
#[derive(Clone, Copy, Debug, Eq, PartialEq, Structural)]
pub enum IdentityStage {
    ReadingDescriptor,
    PoweringOn(HidDescriptor),
    PowerSettling(HidDescriptor),
    Resetting(HidDescriptor),
    /// Waiting for the reset reply since this time.
    SamplingLine(HidDescriptor, u64),
    PollDelay(HidDescriptor, u64),
    ReadingReply(HidDescriptor, u64),
    PoweringOnAgain(HidDescriptor),
    SettlingAgain(HidDescriptor),
    ReadingReport(HidDescriptor),
    Finished,
}

/// What identification asks for next.
#[derive(Clone, Copy, Debug, Eq, PartialEq)]
pub enum IdentityAction {
    /// Read this many bytes of a register ([`register_read`]).
    ReadRegister(u16, usize),
    /// Send a command ([`command_message`]).
    Command(u16, u8),
    /// Read an input report of this length.
    ReadInput(usize),
    /// Wait this many microseconds.
    Delay(u64),
    /// Sample the interrupt line.
    SampleLine,
    /// The report descriptor is here ([`identify`]).
    Identify(HidDescriptor),
    /// Give up.
    Fail(&'static str),
}

/// How the last action went.
#[derive(Clone, Copy)]
pub enum IdentityOutcome<'a> {
    /// A transfer succeeded; these are the bytes of its read.
    Transferred(&'a [u8]),
    TransferFailed,
    Delayed,
    /// Whether the interrupt line is asserted.
    Line(bool),
}

/// The outcomes that can follow the action of a stage.
pub open spec fn outcome_fits(stage: IdentityStage, outcome: IdentityOutcome) -> bool {
    match stage {
        IdentityStage::PowerSettling(_)
        | IdentityStage::PollDelay(_, _)
        | IdentityStage::SettlingAgain(_) => outcome is Delayed,
        IdentityStage::SamplingLine(_, _) => outcome is Line,
        IdentityStage::Finished => false,
        _ => outcome is Transferred || outcome is TransferFailed,
    }
}

pub const INITIALIZATION_FAILED: &'static str =
    "goodix-gt7375p: I2C-HID power/reset initialization failed";

/// The wait for the reset reply: sample the line until the timeout has passed.
pub open spec fn await_reset(descriptor: HidDescriptor, since: u64, now: u64) -> (
    IdentityStage,
    IdentityAction,
) {
    if now - since < I2C_HID_RESET_TIMEOUT_US {
        (IdentityStage::SamplingLine(descriptor, since), IdentityAction::SampleLine)
    } else {
        (IdentityStage::Finished, IdentityAction::Fail(INITIALIZATION_FAILED))
    }
}

/// The next stage and action after an outcome at time `now`.
pub open spec fn identity_step(stage: IdentityStage, now: u64, outcome: IdentityOutcome) -> (
    IdentityStage,
    IdentityAction,
) {
    let failed = (IdentityStage::Finished, IdentityAction::Fail(INITIALIZATION_FAILED));
    match stage {
        IdentityStage::ReadingDescriptor => match outcome {
            IdentityOutcome::Transferred(data) => match hid_descriptor(data@) {
                Ok(d) => (
                    IdentityStage::PoweringOn(d),
                    IdentityAction::Command(d.command_register, I2C_HID_OPCODE_SET_POWER),
                ),
                Err(e) => (IdentityStage::Finished, IdentityAction::Fail(e)),
            },
            _ => (
                IdentityStage::Finished,
                IdentityAction::Fail("goodix-gt7375p: I2C-HID descriptor read failed"),
            ),
        },
        IdentityStage::PoweringOn(d) => if outcome is Transferred {
            (IdentityStage::PowerSettling(d), IdentityAction::Delay(I2C_HID_POWER_ON_DELAY_US))
        } else {
            failed
        },
        IdentityStage::PowerSettling(d) => (
            IdentityStage::Resetting(d),
            IdentityAction::Command(d.command_register, I2C_HID_OPCODE_RESET),
        ),
        IdentityStage::Resetting(d) => if outcome is Transferred {
            await_reset(d, now, now)
        } else {
            failed
        },
        IdentityStage::SamplingLine(d, since) => if outcome == IdentityOutcome::Line(true) {
            (IdentityStage::ReadingReply(d, since), IdentityAction::ReadInput(d.max_input_length))
        } else {
            (IdentityStage::PollDelay(d, since), IdentityAction::Delay(RESET_POLL_US))
        },
        IdentityStage::PollDelay(d, since) => await_reset(d, since, now),
        IdentityStage::ReadingReply(d, since) => match outcome {
            IdentityOutcome::Transferred(data) => if data@.len() < 2 {
                failed
            } else if le16(data@, 0) == 0 {
                (
                    IdentityStage::PoweringOnAgain(d),
                    IdentityAction::Command(d.command_register, I2C_HID_OPCODE_SET_POWER),
                )
            } else {
                await_reset(d, since, now)
            },
            _ => failed,
        },
        IdentityStage::PoweringOnAgain(d) => if outcome is Transferred {
            (IdentityStage::SettlingAgain(d), IdentityAction::Delay(I2C_HID_POWER_ON_DELAY_US))
        } else {
            failed
        },
        IdentityStage::SettlingAgain(d) => (
            IdentityStage::ReadingReport(d),
            IdentityAction::ReadRegister(d.report_descriptor_register, d.report_descriptor_length),
        ),
        IdentityStage::ReadingReport(d) => if outcome is Transferred {
            (IdentityStage::Finished, IdentityAction::Identify(d))
        } else {
            (
                IdentityStage::Finished,
                IdentityAction::Fail("goodix-gt7375p: HID report descriptor read failed"),
            )
        },
        IdentityStage::Finished => (stage, IdentityAction::Fail(INITIALIZATION_FAILED)),
    }
}

/// The first stage and action of identification.
pub fn begin_identification() -> (r: (IdentityStage, IdentityAction))
    ensures
        r == (
            IdentityStage::ReadingDescriptor,
            IdentityAction::ReadRegister(I2C_HID_DESCRIPTOR_REGISTER, I2C_HID_DESCRIPTOR_LENGTH),
        ),
{
    (
        IdentityStage::ReadingDescriptor,
        IdentityAction::ReadRegister(I2C_HID_DESCRIPTOR_REGISTER, I2C_HID_DESCRIPTOR_LENGTH),
    )
}

fn wait_for_reset_completion(descriptor: HidDescriptor, since: u64, now: u64) -> (r: (
    IdentityStage,
    IdentityAction,
))
    ensures
        r == await_reset(descriptor, since, now),
{
    if now.saturating_sub(since) < I2C_HID_RESET_TIMEOUT_US {
        (IdentityStage::SamplingLine(descriptor, since), IdentityAction::SampleLine)
    } else {
        (IdentityStage::Finished, IdentityAction::Fail(INITIALIZATION_FAILED))
    }
}

/// Identification, power-up and reset: what to do after each outcome.
pub fn continue_identification(stage: IdentityStage, now: u64, outcome: IdentityOutcome) -> (r: (
    IdentityStage,
    IdentityAction,
))
    requires
        outcome_fits(stage, outcome),
    ensures
        r == identity_step(stage, now, outcome),
{
    let failed = (IdentityStage::Finished, IdentityAction::Fail(INITIALIZATION_FAILED));
    match stage {
        IdentityStage::ReadingDescriptor => match outcome {
            IdentityOutcome::Transferred(data) => match parse_hid_descriptor(data) {
                Ok(d) => (
                    IdentityStage::PoweringOn(d),
                    IdentityAction::Command(d.command_register, I2C_HID_OPCODE_SET_POWER),
                ),
                Err(e) => (IdentityStage::Finished, IdentityAction::Fail(e)),
            },
            _ => (
                IdentityStage::Finished,
                IdentityAction::Fail("goodix-gt7375p: I2C-HID descriptor read failed"),
            ),
        },
        IdentityStage::PoweringOn(d) => match outcome {
            IdentityOutcome::Transferred(_) => (
                IdentityStage::PowerSettling(d),
                IdentityAction::Delay(I2C_HID_POWER_ON_DELAY_US),
            ),
            _ => failed,
        },
        IdentityStage::PowerSettling(d) => (
            IdentityStage::Resetting(d),
            IdentityAction::Command(d.command_register, I2C_HID_OPCODE_RESET),
        ),
        IdentityStage::Resetting(d) => match outcome {
            IdentityOutcome::Transferred(_) => wait_for_reset_completion(d, now, now),
            _ => failed,
        },
        IdentityStage::SamplingLine(d, since) => match outcome {
            IdentityOutcome::Line(true) => (
                IdentityStage::ReadingReply(d, since),
                IdentityAction::ReadInput(d.max_input_length),
            ),
            _ => (IdentityStage::PollDelay(d, since), IdentityAction::Delay(RESET_POLL_US)),
        },
        IdentityStage::PollDelay(d, since) => wait_for_reset_completion(d, since, now),
        IdentityStage::ReadingReply(d, since) => match outcome {
            IdentityOutcome::Transferred(data) => match decode_input_length(data) {
                None => failed,
                Some(length) => {
                    if length == 0 {
                        (
                            IdentityStage::PoweringOnAgain(d),
                            IdentityAction::Command(d.command_register, I2C_HID_OPCODE_SET_POWER),
                        )
                    } else {
                        wait_for_reset_completion(d, since, now)
                    }
                },
            },
            _ => failed,
        },
        IdentityStage::PoweringOnAgain(d) => match outcome {
            IdentityOutcome::Transferred(_) => (
                IdentityStage::SettlingAgain(d),
                IdentityAction::Delay(I2C_HID_POWER_ON_DELAY_US),
            ),
            _ => failed,
        },
        IdentityStage::SettlingAgain(d) => (
            IdentityStage::ReadingReport(d),
            IdentityAction::ReadRegister(d.report_descriptor_register, d.report_descriptor_length),
        ),
        IdentityStage::ReadingReport(d) => match outcome {
            IdentityOutcome::Transferred(_) => (
                IdentityStage::Finished,
                IdentityAction::Identify(d),
            ),
            _ => (
                IdentityStage::Finished,
                IdentityAction::Fail("goodix-gt7375p: HID report descriptor read failed"),
            ),
        },
        IdentityStage::Finished => failed,
    }
}

/// The smallest minimum and largest maximum of a non-empty list of fields.
pub open spec fn logical_range(fields: Seq<HidField>) -> (i32, i32)
    decreases fields.len(),
{
    if fields.len() <= 1 {
        (fields[0].logical_minimum, fields[0].logical_maximum)
    } else {
        let before = logical_range(fields.drop_last());
        let field = fields.last();
        (
            if field.logical_minimum < before.0 {
                field.logical_minimum
            } else {
                before.0
            },
            if field.logical_maximum > before.1 {
                field.logical_maximum
            } else {
                before.1
            },
        )
    }
}

/// The logical range that all fields of an axis share.
pub fn axis_range(fields: &[HidField]) -> (r: Option<(i32, i32)>)
    ensures
        r == (if fields@.len() == 0 {
            None::<(i32, i32)>
        } else {
            Some(logical_range(fields@))
        }),
{
    if fields.len() == 0 {
        return None;
    }
    let mut minimum: i32 = fields[0].logical_minimum;
    let mut maximum: i32 = fields[0].logical_maximum;
    let mut i: usize = 1;
    while i < fields.len()
        invariant
            1 <= i <= fields@.len(),
            (minimum, maximum) == logical_range(fields@.take(i as int)),
        decreases fields@.len() - i,
    {
        assert(fields@.take(i + 1).drop_last() =~= fields@.take(i as int));
        if fields[i].logical_minimum < minimum {
            minimum = fields[i].logical_minimum;
        }
        if fields[i].logical_maximum > maximum {
            maximum = fields[i].logical_maximum;
        }
        i = i + 1;
    }
    assert(fields@.take(i as int) =~= fields@);
    Some((minimum, maximum))
}

/// The axis range covers the range of every field.
pub proof fn axis_range_covers_fields(fields: Seq<HidField>, index: int)
    requires
        0 <= index < fields.len(),
    ensures
        logical_range(fields).0 <= fields[index].logical_minimum,
        logical_range(fields).1 >= fields[index].logical_maximum,
    decreases fields.len(),
{
    if index < fields.len() - 1 {
        axis_range_covers_fields(fields.drop_last(), index);
    }
}

pub open spec fn axis(code: u16, range: (i32, i32)) -> AbsoluteAxis {
    AbsoluteAxis { code, minimum: range.0, maximum: range.1 }
}

/// The axes that a touchscreen with this layout announces, in order.
pub open spec fn touch_axes(layout: LayoutView) -> Seq<AbsoluteAxis> {
    seq![
        axis(ABS_X, logical_range(layout.x)),
        axis(ABS_Y, logical_range(layout.y)),
        axis(ABS_MT_SLOT, (0, (MAX_TOUCH_SLOTS - 1) as i32)),
        axis(ABS_MT_TRACKING_ID, (-1i32, i32::MAX)),
        axis(ABS_MT_POSITION_X, logical_range(layout.x)),
        axis(ABS_MT_POSITION_Y, logical_range(layout.y)),
    ] + (if layout.pressure.len() > 0 {
        seq![
            axis(ABS_PRESSURE, logical_range(layout.pressure)),
            axis(ABS_MT_PRESSURE, logical_range(layout.pressure)),
        ]
    } else {
        Seq::empty()
    }) + (if layout.touch_major.len() > 0 {
        seq![axis(ABS_MT_TOUCH_MAJOR, logical_range(layout.touch_major))]
    } else {
        Seq::empty()
    })
}

fn push_axis(axes: &mut Vec<AbsoluteAxis>, code: u16, range: (i32, i32))
    ensures
        final(axes)@ == old(axes)@.push(axis(code, range)),
{
    axes.push(AbsoluteAxis { code, minimum: range.0, maximum: range.1 });
}

/// An identified touchscreen.
pub struct TouchDevice {
    pub layout: HidTouchLayout,
    pub axes: Vec<AbsoluteAxis>,
    pub max_input_length: usize,
    pub slots: SlotTracker,
}

/// Builds the device from its report descriptor.
pub fn identify(descriptor: HidDescriptor, report: &[u8]) -> (r: Result<TouchDevice, &'static str>)
    ensures
        match (r, descriptor::descriptor_layout(report@)) {
            (Ok(device), Ok(layout)) => {
                &&& device.layout@ == layout
                &&& device.axes@ == touch_axes(layout)
                &&& device.max_input_length == descriptor.max_input_length
                &&& device.slots@ == (TrackerView {
                    slots: Seq::new(MAX_TOUCH_SLOTS as nat, |i: int| None),
                    next: 1,
                })
                &&& device.slots@.wf()
            },
            (Err(e), Err(f)) => e == f,
            _ => false,
        },
{
    let layout = descriptor::parse_touch_layout(report)?;
    proof {
        descriptor::parsed_layout_is_bounded(report@);
    }
    let x = axis_range(layout.x.as_slice()).unwrap();
    let y = axis_range(layout.y.as_slice()).unwrap();
    let mut axes: Vec<AbsoluteAxis> = Vec::new();
    push_axis(&mut axes, ABS_X, x);
    push_axis(&mut axes, ABS_Y, y);
    push_axis(&mut axes, ABS_MT_SLOT, (0, MAX_TOUCH_SLOTS as i32 - 1));
    push_axis(&mut axes, ABS_MT_TRACKING_ID, (-1, i32::MAX));
    push_axis(&mut axes, ABS_MT_POSITION_X, x);
    push_axis(&mut axes, ABS_MT_POSITION_Y, y);
    if let Some(pressure) = axis_range(layout.pressure.as_slice()) {
        push_axis(&mut axes, ABS_PRESSURE, pressure);
        push_axis(&mut axes, ABS_MT_PRESSURE, pressure);
    }
    if let Some(major) = axis_range(layout.touch_major.as_slice()) {
        push_axis(&mut axes, ABS_MT_TOUCH_MAJOR, major);
    }
    assert(axes@ =~= touch_axes(layout@));
    let slots = SlotTracker::new(MAX_TOUCH_SLOTS);
    Ok(TouchDevice { layout, axes, max_input_length: descriptor.max_input_length, slots })
}

/// Whether the device node can be probed at all.
pub fn check_probe(registered: bool, reg: Option<usize>) -> (r: Result<(), &'static str>)
    ensures
        r == (if registered {
            Err::<(), &'static str>("goodix-gt7375p: controller is already registered")
        } else if reg is None {
            Err("goodix-gt7375p: missing I2C address")
        } else if reg != Some(GOODIX_ADDRESS as usize) {
            Err("goodix-gt7375p: unsupported I2C address")
        } else {
            Ok(())
        }),
{
    if registered {
        return Err("goodix-gt7375p: controller is already registered");
    }
    match reg {
        None => Err("goodix-gt7375p: missing I2C address"),
        Some(address) => {
            if address != GOODIX_ADDRESS as usize {
                Err("goodix-gt7375p: unsupported I2C address")
            } else {
                Ok(())
            }
        },
    }
}

/// Keeps the driver linked into builds that load it by name.
pub fn force_link() {
}

} // verus!
