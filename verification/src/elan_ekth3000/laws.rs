//! What the clickpad's reports mean.

use vstd::prelude::*;

use crate::bytes::le16_bytes;
use crate::elan_ekth3000::{
    begin_probe, button_of, contact_of, irq_of, known_report, placed, probe_step, ready,
    relative_event, report_events, report_length, trigger_of, ElanEkth3000, GpioIrqTrigger,
    ProbeAction, ProbeStage, ProbeStep,
};
use crate::input::InputEvent;
use crate::input::reader::{few_events_are_read, joined_events_are_read_in_turn, ReaderView};

verus! {

/// The clickpad switch is the lowest bit of the touch information, whatever
/// fingers are on the pad.
pub proof fn the_button_is_the_lowest_bit(report: Seq<u8>, other: Seq<u8>)
    requires
        report.len() > 3,
        other.len() > 3,
    ensures
        button_of(report) <==> report[3] & 1 == 1,
        report[3] | 1 == other[3] | 1 ==> (button_of(report) == button_of(other) <==> report[3]
            == other[3]),
        (report[3] & 1) == (other[3] & 1) ==> button_of(report) == button_of(other),
        report[3] == other[3] | 1 ==> button_of(report),
{
    let a = report[3];
    let b = other[3];
    assert(a & 1 == a % 2 && b & 1 == b % 2 && (a | 1 == b | 1 ==> (a % 2 == b % 2 <==> a == b)) && (
    a == b | 1 ==> a % 2 == 1)) by (bit_vector);
}

/// A finger is seen exactly where one of the five high bits of the touch
/// information is set, in a report that reaches the first finger record.
pub proof fn a_finger_is_one_of_five_bits(report: Seq<u8>, max_y: u16)
    ensures
        contact_of(report, max_y) is Some <==> report.len() >= 9 && report[3] & 0xf8 != 0,
{
    if report.len() >= 9 {
        let info = report[3];
        assert(info & 0xf8 == 0 <==> info < 8) by (bit_vector);
    }
}

/// A position is read as it was packed: twelve bits for each axis, the high
/// four of both in one byte, horizontal first. The vertical axis is turned
/// over, and a value beyond it counts as its end.
pub proof fn packed_positions_are_read_back(report: Seq<u8>, max_y: u16, x: int, down: int)
    requires
        report.len() >= 9,
        report[2] != 0x60,
        report[3] & 0xf8 != 0,
        0 <= x < 0x1000,
        0 <= down < 0x1000,
        report[4] == x / 0x100 * 0x10 + down / 0x100,
        report[5] == x % 0x100,
        report[6] == down % 0x100,
    ensures
        contact_of(report, max_y) matches Some((across, up)) && across == x && up == if down
            <= max_y {
            max_y - down
        } else {
            0
        },
{
    a_finger_is_one_of_five_bits(report, max_y);
    assert(report[4] / 16 == x / 0x100);
    assert(report[4] % 16 == down / 0x100);
}

/// A high-precision position is two bytes for each axis, the high one first.
pub proof fn precise_positions_are_read_back(report: Seq<u8>, max_y: u16, x: int, down: int)
    requires
        report.len() >= 9,
        report[2] == 0x60,
        report[3] & 0xf8 != 0,
        0 <= x < 0x1_0000,
        0 <= down < 0x1_0000,
        report[4] == x / 0x100,
        report[5] == x % 0x100,
        report[6] == down / 0x100,
        report[7] == down % 0x100,
    ensures
        contact_of(report, max_y) matches Some((across, up)) && across == x && up == if down
            <= max_y {
            max_y - down
        } else {
            0
        },
{
    a_finger_is_one_of_five_bits(report, max_y);
}

/// Reports of the two formats are taken, and no others.
pub proof fn two_formats_are_known(report: Seq<u8>)
    ensures
        known_report(report) <==> report.len() >= 3 && (report[2] == 0x5d || report[2] == 0x60),
{
}

/// Moving by `steps` covers a distance: the whole steps of twelve in it, in its
/// direction.
pub open spec fn covers_distance(steps: int, distance: int) -> bool {
    &&& distance >= 0 ==> 12 * steps <= distance < 12 * (steps + 1)
    &&& distance <= 0 ==> 12 * (steps - 1) < distance <= 12 * steps
}

proof fn a_step_event_is_read(reader: ReaderView, code: u16, from: u16, to: u16)
    requires
        code == 0 || code == 1,
    ensures
        ({
            let after = reader.read_all(relative_event(code, from, to));
            &&& covers_distance(
                after.moved_x - reader.moved_x + after.moved_y - reader.moved_y,
                to - from,
            )
            &&& code == 0 ==> after.moved_y == reader.moved_y
            &&& code == 1 ==> after.moved_x == reader.moved_x
            &&& after == (ReaderView { moved_x: after.moved_x, moved_y: after.moved_y, ..reader })
        }),
{
    few_events_are_read(reader, relative_event(code, from, to));
}

/// What a report shows to a reader. The left button follows the switch. The
/// pointer moves along each axis by the whole steps between the contact of this
/// report and that of the last one, and rests where either has none. One frame
/// is closed.
pub proof fn a_reader_follows_the_pad(
    reader: ReaderView,
    last_contact: Option<(u16, u16)>,
    was_pressed: bool,
    contact: Option<(u16, u16)>,
    pressed: bool,
)
    requires
        reader.keys.contains_key(0x110u16),
        reader.keys[0x110u16] == if was_pressed {
            1i32
        } else {
            0i32
        },
    ensures
        ({
            let after = reader.read_all(report_events(last_contact, was_pressed, contact, pressed));
            &&& after.keys == reader.keys.insert(
                0x110u16,
                if pressed {
                    1i32
                } else {
                    0i32
                },
            )
            &&& match (last_contact, contact) {
                (Some((from_x, from_y)), Some((to_x, to_y))) => {
                    &&& covers_distance(after.moved_x - reader.moved_x, to_x - from_x)
                    &&& covers_distance(after.moved_y - reader.moved_y, to_y - from_y)
                },
                _ => after.moved_x == reader.moved_x && after.moved_y == reader.moved_y,
            }
            &&& after.frames == reader.frames + 1
            &&& after.touches == reader.touches && after.axes == reader.axes
        }),
{
    let key: Seq<InputEvent> = if was_pressed == pressed {
        Seq::empty()
    } else {
        seq![
            (
                1u16,
                0x110u16,
                if pressed {
                    1i32
                } else {
                    0i32
                },
            ),
        ]
    };
    let motion: Seq<InputEvent> = match (contact, last_contact) {
        (Some((x, y)), Some((last_x, last_y))) => relative_event(0u16, last_x, x)
            + relative_event(1u16, last_y, y),
        _ => Seq::empty(),
    };
    let end: Seq<InputEvent> = seq![(0u16, 0u16, 0i32)];
    assert(report_events(last_contact, was_pressed, contact, pressed) =~= key + motion + end);
    joined_events_are_read_in_turn(reader, key, motion);
    joined_events_are_read_in_turn(reader, key + motion, end);
    few_events_are_read(reader, key);
    let r1 = reader.read_all(key);
    assert(r1.keys =~= reader.keys.insert(
        0x110u16,
        if pressed {
            1i32
        } else {
            0i32
        },
    ));
    match (contact, last_contact) {
        (Some((x, y)), Some((last_x, last_y))) => {
            joined_events_are_read_in_turn(
                r1,
                relative_event(0u16, last_x, x),
                relative_event(1u16, last_y, y),
            );
            a_step_event_is_read(r1, 0u16, last_x, x);
            a_step_event_is_read(
                r1.read_all(relative_event(0u16, last_x, x)),
                1u16,
                last_y,
                y,
            );
        },
        _ => {
            few_events_are_read(r1, motion);
        },
    }
    few_events_are_read(r1.read_all(motion), end);
}

/// A click is reported, whatever fingers are on the pad: a known report whose
/// switch is down, on a pad whose button was up, presses the left button, and
/// one whose switch is up releases it.
pub proof fn a_click_is_reported(pad: ElanEkth3000, report: Seq<u8>)
    requires
        report.len() > 3,
    ensures
        ({
            let events = report_events(
                pad.last_contact,
                pad.button_pressed,
                contact_of(report, pad.max_y),
                button_of(report),
            );
            &&& report[3] & 1 == 1 && !pad.button_pressed ==> events.contains(
                (1u16, 0x110u16, 1i32),
            )
            &&& report[3] & 1 == 0 && pad.button_pressed ==> events.contains(
                (1u16, 0x110u16, 0i32),
            )
            &&& (report[3] & 1 == 1) == pad.button_pressed ==> forall|i: int|
                0 <= i < events.len() ==> (#[trigger] events[i]).0 != 1
        }),
{
    the_button_is_the_lowest_bit(report, report);
    vstd::bits::lemma_u8_low_bits_mask_is_mod(report[3], 1);
    vstd::bits::lemma_low_bits_mask_values();
    vstd::arithmetic::power2::lemma2_to64();
    let events = report_events(
        pad.last_contact,
        pad.button_pressed,
        contact_of(report, pad.max_y),
        button_of(report),
    );
    if button_of(report) != pad.button_pressed {
        assert(events[0] == (
            1u16,
            0x110u16,
            if button_of(report) {
                1i32
            } else {
                0i32
            },
        ));
    }
}

/// The report length goes by the high byte of the pattern word, the pattern
/// itself: patterns 0 and 1 have short reports, later ones long reports. An
/// erased word counts as pattern 0.
pub proof fn the_pattern_gives_the_report_length(pattern: int, low: int)
    requires
        0 <= pattern < 0x100,
        0 <= low < 0x100,
    ensures
        report_length((pattern * 0x100 + low) as u16) == if pattern <= 1 || (pattern == 0xff && low
            == 0xff) {
            34usize
        } else {
            39usize
        },
{
}

/// The bytes that a command read brings.
pub open spec fn word(value: u16) -> Result<Seq<u8>, ()> {
    Ok(le16_bytes(value as int))
}

/// A probe whose steps all succeed resets the pad, waits for its two-byte
/// acknowledgement, enables absolute reports, wakes the pad up, and asks for the
/// pattern and the ranges. It comes to the report length of the pattern and to
/// the vertical range.
pub proof fn a_probe_learns_the_geometry(
    acknowledgement: Seq<u8>,
    done: Seq<u8>,
    pattern: u16,
    max_x: u16,
    max_y: u16,
)
    requires
        acknowledgement.len() == 2,
    ensures
        ({
            let length = report_length(pattern);
            &&& probe_step(ProbeStage::Reset, Ok(done)) == ProbeStep::Continue(
                ProbeStage::ResetAcknowledge,
                ProbeAction::ReadRaw { delay_us: 100_000, length: 2 },
            )
            &&& probe_step(ProbeStage::ResetAcknowledge, Ok(acknowledgement))
                == ProbeStep::Continue(
                ProbeStage::EnableAbsolute,
                ProbeAction::WriteCommand { register: 0x0300, value: 0x0001 },
            )
            &&& probe_step(ProbeStage::EnableAbsolute, Ok(done)) == ProbeStep::Continue(
                ProbeStage::WakeUp,
                ProbeAction::WriteCommand { register: 0x0005, value: 0x0800 },
            )
            &&& probe_step(ProbeStage::WakeUp, Ok(done)) == ProbeStep::Continue(
                ProbeStage::Pattern,
                ProbeAction::ReadCommand { register: 0x0100 },
            )
            &&& probe_step(ProbeStage::Pattern, word(pattern)) == ProbeStep::Continue(
                ProbeStage::MaxX { report_len: length },
                ProbeAction::ReadCommand { register: 0x0106 },
            )
            &&& probe_step(ProbeStage::MaxX { report_len: length }, word(max_x))
                == ProbeStep::Continue(
                ProbeStage::MaxY { report_len: length },
                ProbeAction::ReadCommand { register: 0x0107 },
            )
            &&& probe_step(ProbeStage::MaxY { report_len: length }, word(max_y))
                == ProbeStep::Ready { report_len: length, max_y }
        }),
{
    crate::bytes::le16_of_bytes(pattern);
    crate::bytes::le16_of_bytes(max_x);
    crate::bytes::le16_of_bytes(max_y);
}

/// A step of a probe that fails, or that brings too few bytes, ends it.
pub proof fn a_failed_step_ends_the_probe(stage: ProbeStage, reply: Result<Seq<u8>, ()>)
    ensures
        reply is Err ==> probe_step(stage, reply) is Failed,
        reply matches Ok(data) && data.len() < 2 && !(stage is Reset || stage is EnableAbsolute
            || stage is WakeUp) ==> probe_step(stage, reply) is Failed,
{
}

/// The trigger goes by the four low bits alone, one bit for each trigger.
pub proof fn triggers_are_single_bits(flags: u32, other: u32)
    ensures
        flags & 0xf == other & 0xf ==> trigger_of(flags as int) == trigger_of(other as int),
        flags & 0xf == 1 <==> trigger_of(flags as int) == Some(GpioIrqTrigger::RisingEdge),
        flags & 0xf == 2 <==> trigger_of(flags as int) == Some(GpioIrqTrigger::FallingEdge),
        flags & 0xf == 4 <==> trigger_of(flags as int) == Some(GpioIrqTrigger::HighLevel),
        flags & 0xf == 8 <==> trigger_of(flags as int) == Some(GpioIrqTrigger::LowLevel),
{
    assert(flags & 0xf == flags % 16 && other & 0xf == other % 16) by (bit_vector);
}

/// A device is placed only on a bus at its speed, at its one address, with the
/// controller, pin and trigger that its properties name.
pub proof fn a_placed_device_is_complete(
    speed_set: bool,
    reg: Option<usize>,
    interrupt_parent: Option<usize>,
    interrupts: Option<&[u8]>,
)
    ensures
        placed(speed_set, reg, interrupt_parent, interrupts) matches Ok(placement) ==> {
            &&& speed_set
            &&& reg == Some(0x15usize)
            &&& placement.address == 0x15
            &&& interrupt_parent == Some(placement.irq_controller as usize)
            &&& interrupts matches Some(cells) && cells@.len() >= 8
            &&& irq_of(interrupt_parent, interrupts) == Ok::<
                (u32, u32, GpioIrqTrigger),
                &'static str,
            >((placement.irq_controller, placement.irq_pin, placement.irq_trigger))
        },
{
}

/// A probe starts with a reset, and a pad starts at rest.
pub proof fn a_pad_starts_at_rest(
    address: u8,
    length: usize,
    max_y: u16,
    first: (ProbeStage, ProbeAction),
    pad: ElanEkth3000,
)
    requires
        call_ensures(begin_probe, (), first),
        call_ensures(ready, (address, length, max_y), pad),
    ensures
        first == (ProbeStage::Reset, ProbeAction::WriteCommand { register: 5, value: 0x100 }),
        pad.address == address && pad.report_len == length && pad.max_y == max_y,
        pad.last_contact is None && !pad.button_pressed && !pad.work_pending,
{
}

/// The interrupt is its parent, its number and its trigger, in two cells.
pub proof fn interrupts_are_two_cells(parent: Option<usize>, value: &[u8])
    ensures
        irq_of(parent, Some(value)) is Ok <==> {
            &&& parent is Some && parent->0 <= u32::MAX
            &&& value@.len() >= 8
            &&& trigger_of(
                0x100_0000 * value@[4] + 0x1_0000 * value@[5] + 0x100 * value@[6] + value@[7],
            ) is Some
        },
        irq_of(parent, Some(value)) matches Ok(irq) ==> {
            &&& irq.0 == parent->0
            &&& irq.1 == 0x100_0000 * value@[0] + 0x1_0000 * value@[1] + 0x100 * value@[2]
                + value@[3]
        },
        irq_of(parent, None) is Err,
{
}

} // verus!
