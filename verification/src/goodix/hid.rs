//! HID input reports: field extraction and contact records.

use vstd::arithmetic::power2::pow2;
use vstd::prelude::*;

use crate::bytes::{le16, twos_complement};

verus! {

/// A two-byte I2C-HID command: the command register, then the opcode in the
/// high byte of the command word.
pub fn encode_simple_command(command_register: u16, opcode: u8) -> (r: [u8; 4])
    ensures
        r@ == crate::bytes::le16_bytes(command_register as int) + seq![0u8, opcode],
{
    [(command_register % 0x100) as u8, (command_register / 0x100) as u8, 0, opcode]
}

/// The length word that precedes every I2C-HID input report.
pub fn decode_input_length(buffer: &[u8]) -> (r: Option<usize>)
    ensures
        r is Some <==> buffer@.len() >= 2,
        r is Some ==> r->Some_0 == le16(buffer@, 0),
{
    if buffer.len() >= 2 {
        Some(buffer[0] as usize + buffer[1] as usize * 0x100)
    } else {
        None
    }
}

/// One extractable field of an input report.
#[derive(Clone, Copy, Debug, Eq, PartialEq, Structural)]
pub struct HidField {
    pub report_id: u8,
    pub bit_offset: usize,
    pub bit_size: usize,
    pub logical_minimum: i32,
    pub logical_maximum: i32,
}

/// The touch fields of the report that carries X and Y.
#[derive(Debug)]
pub struct HidTouchLayout {
    pub report_id: u8,
    pub tips: Vec<HidField>,
    pub contact_ids: Vec<HidField>,
    pub x: Vec<HidField>,
    pub y: Vec<HidField>,
    pub pressure: Vec<HidField>,
    pub touch_major: Vec<HidField>,
    pub contact_count: Option<HidField>,
}

/// One active contact of an input report.
#[derive(Clone, Copy, Debug, Eq, PartialEq, Structural)]
pub struct HidContact {
    pub descriptor_slot: usize,
    pub hardware_id: Option<i32>,
    pub x: i32,
    pub y: i32,
    pub pressure: Option<i32>,
    pub touch_major: Option<i32>,
}

/// What the layout holds, as sequences.
#[verifier::ext_equal]
pub struct LayoutView {
    pub report_id: u8,
    pub tips: Seq<HidField>,
    pub contact_ids: Seq<HidField>,
    pub x: Seq<HidField>,
    pub y: Seq<HidField>,
    pub pressure: Seq<HidField>,
    pub touch_major: Seq<HidField>,
    pub contact_count: Option<HidField>,
}

impl View for HidTouchLayout {
    type V = LayoutView;

    open spec fn view(&self) -> LayoutView {
        LayoutView {
            report_id: self.report_id,
            tips: self.tips@,
            contact_ids: self.contact_ids@,
            x: self.x@,
            y: self.y@,
            pressure: self.pressure@,
            touch_major: self.touch_major@,
            contact_count: self.contact_count,
        }
    }
}

/// The smaller of two integers.
pub open spec fn least(a: int, b: int) -> int {
    if a <= b {
        a
    } else {
        b
    }
}

impl LayoutView {
    /// How many complete contact records one report can hold.
    pub open spec fn capacity(self) -> int {
        least(least(self.tips.len() as int, self.x.len() as int), self.y.len() as int)
    }
}

impl HidTouchLayout {
    pub fn contact_capacity(&self) -> (r: usize)
        ensures
            r == self@.capacity(),
    {
        let mut capacity: usize = self.tips.len();
        if self.x.len() < capacity {
            capacity = self.x.len();
        }
        if self.y.len() < capacity {
            capacity = self.y.len();
        }
        capacity
    }
}

// Report extraction.

/// Bit `position` of the report, counting from the low bit of byte zero.
pub open spec fn report_bit(report: Seq<u8>, position: int) -> u8 {
    (report[position / 8] >> ((position % 8) as u8)) & 1u8
}

/// The unsigned value of `count` bits, least significant first.
pub open spec fn bits_value(report: Seq<u8>, offset: int, count: int) -> int
    decreases count,
{
    if count <= 0 {
        0
    } else {
        bits_value(report, offset, count - 1) + report_bit(report, offset + count - 1) * pow2(
            (count - 1) as nat,
        )
    }
}

/// Whether the field has a legal width and lies within the report.
pub open spec fn field_in_report(report: Seq<u8>, field: HidField) -> bool {
    &&& 1 <= field.bit_size <= 32
    &&& field.bit_offset + field.bit_size - 1 <= usize::MAX
    &&& (field.bit_offset + field.bit_size - 1) / 8 < report.len()
}

/// The raw value of a field.
pub open spec fn field_bits(report: Seq<u8>, field: HidField) -> Option<u32> {
    if field_in_report(report, field) {
        Some(bits_value(report, field.bit_offset as int, field.bit_size as int) as u32)
    } else {
        None
    }
}

/// The value of a field in its logical range: two's complement where the
/// range reaches below zero.
pub open spec fn field_value(report: Seq<u8>, field: HidField) -> Option<i32> {
    match field_bits(report, field) {
        None => None,
        Some(raw) => if field.logical_minimum < 0 {
            Some(twos_complement(raw as int, pow2(field.bit_size as nat) as int) as i32)
        } else if raw <= i32::MAX {
            Some(raw as i32)
        } else {
            None
        },
    }
}

proof fn bit_is_zero_or_one(byte: u8, shift: u8)
    ensures
        (byte >> shift) & 1u8 <= 1,
{
    assert((byte >> shift) & 1u8 <= 1) by (bit_vector);
}

/// A field of `count` bits holds a value below `2^count`.
pub proof fn bits_value_is_bounded(report: Seq<u8>, offset: int, count: int)
    requires
        0 <= count,
    ensures
        0 <= bits_value(report, offset, count) < pow2(count as nat),
    decreases count,
{
    vstd::arithmetic::power2::lemma2_to64();
    if count > 0 {
        bits_value_is_bounded(report, offset, count - 1);
        let position = offset + count - 1;
        bit_is_zero_or_one(report[position / 8], (position % 8) as u8);
        vstd::arithmetic::power2::lemma_pow2_unfold(count as nat);
        let bit = report_bit(report, position) as int;
        let weight = pow2((count - 1) as nat) as int;
        assert(0 <= bit * weight <= weight) by (nonlinear_arith)
            requires
                0 <= bit <= 1,
                weight >= 0,
        ;
    }
}

proof fn powers_up_to_32(count: nat)
    requires
        count <= 32,
    ensures
        pow2(count) <= 0x1_0000_0000,
{
    vstd::arithmetic::power2::lemma2_to64();
    if count < 32 {
        vstd::arithmetic::power2::lemma_pow2_strictly_increases(count, 32);
    }
}

pub fn extract_bits(report: &[u8], field: HidField) -> (r: Option<u32>)
    ensures
        r == field_bits(report@, field),
{
    if field.bit_size == 0 || field.bit_size > 32 {
        return None;
    }
    let mut value: u64 = 0;
    let mut weight: u64 = 1;
    let mut bit: usize = 0;
    proof {
        vstd::arithmetic::power2::lemma2_to64();
    }
    while bit < field.bit_size
        invariant
            bit <= field.bit_size <= 32,
            1 <= field.bit_size,
            weight == pow2(bit as nat),
            value == bits_value(report@, field.bit_offset as int, bit as int),
            bit > 0 ==> field.bit_offset + bit - 1 <= usize::MAX,
            bit > 0 ==> (field.bit_offset + bit - 1) / 8 < report@.len(),
        decreases field.bit_size - bit,
    {
        let source: usize = match field.bit_offset.checked_add(bit) {
            Some(source) => source,
            None => {
                return None;
            },
        };
        if source / 8 >= report.len() {
            assert((field.bit_offset + field.bit_size - 1) / 8 >= source / 8);
            return None;
        }
        let set: u8 = (report[source / 8] >> ((source % 8) as u8)) & 1;
        proof {
            bit_is_zero_or_one(report@[source as int / 8], (source % 8) as u8);
            bits_value_is_bounded(report@, field.bit_offset as int, bit as int);
            powers_up_to_32(bit as nat);
            powers_up_to_32((bit + 1) as nat);
            vstd::arithmetic::power2::lemma_pow2_unfold((bit + 1) as nat);
            assert(report_bit(report@, field.bit_offset + bit) == set);
            assert(set * weight == if set == 0 { 0 } else { weight as int }) by (nonlinear_arith)
                requires
                    set <= 1,
            ;
        }
        if set != 0 {
            value = value + weight;
        }
        weight = weight * 2;
        bit = bit + 1;
    }
    proof {
        bits_value_is_bounded(report@, field.bit_offset as int, field.bit_size as int);
        powers_up_to_32(field.bit_size as nat);
    }
    Some(value as u32)
}

/// The two's-complement reading of the low `bits` bits.
pub fn sign_extend_bits(value: u32, bits: usize) -> (r: i32)
    requires
        1 <= bits <= 32,
    ensures
        r == twos_complement(value as int % pow2(bits as nat) as int, pow2(bits as nat) as int),
{
    let mut modulus: i64 = 1;
    let mut i: usize = 0;
    proof {
        vstd::arithmetic::power2::lemma2_to64();
    }
    while i < bits
        invariant
            i <= bits <= 32,
            modulus == pow2(i as nat),
        decreases bits - i,
    {
        proof {
            powers_up_to_32(i as nat);
            vstd::arithmetic::power2::lemma_pow2_unfold((i + 1) as nat);
        }
        modulus = modulus * 2;
        i = i + 1;
    }
    proof {
        powers_up_to_32(bits as nat);
        vstd::arithmetic::power2::lemma_pow2_unfold(bits as nat);
        vstd::arithmetic::power2::lemma_pow2_pos((bits - 1) as nat);
    }
    let low: i64 = value as i64 % modulus;
    if low < modulus / 2 {
        low as i32
    } else {
        (low - modulus) as i32
    }
}

pub fn extract_logical_value(report: &[u8], field: HidField) -> (r: Option<i32>)
    ensures
        r == field_value(report@, field),
{
    match extract_bits(report, field) {
        None => None,
        Some(raw) => {
            proof {
                bits_value_is_bounded(report@, field.bit_offset as int, field.bit_size as int);
                powers_up_to_32(field.bit_size as nat);
                vstd::arithmetic::div_mod::lemma_small_mod(
                    raw as nat,
                    pow2(field.bit_size as nat),
                );
            }
            if field.logical_minimum < 0 {
                Some(sign_extend_bits(raw, field.bit_size))
            } else if raw <= 0x7fff_ffff {
                Some(raw as i32)
            } else {
                None
            }
        },
    }
}

// Contact records.

/// The optional field that belongs to contact record `slot`.
pub open spec fn record_value(
    report: Seq<u8>,
    fields: Seq<HidField>,
    slot: int,
    error: &'static str,
) -> Result<Option<i32>, &'static str> {
    if slot < fields.len() {
        match field_value(report, fields[slot]) {
            Some(value) => Ok(Some(value)),
            None => Err(error),
        }
    } else {
        Ok(None)
    }
}

/// Contact record `slot`: absent where its tip switch is open, and an error
/// named after the first field that does not lie in the report.
pub open spec fn contact_record(report: Seq<u8>, layout: LayoutView, slot: int) -> Result<
    Option<HidContact>,
    &'static str,
> {
    match field_bits(report, layout.tips[slot]) {
        None => Err("goodix: malformed HID tip field"),
        Some(tip) => if tip == 0 {
            Ok(None)
        } else {
            match (field_value(report, layout.x[slot]), field_value(report, layout.y[slot])) {
                (None, _) => Err("goodix: malformed HID X field"),
                (_, None) => Err("goodix: malformed HID Y field"),
                (Some(x), Some(y)) => match (
                    record_value(
                        report,
                        layout.contact_ids,
                        slot,
                        "goodix: malformed HID contact identifier",
                    ),
                    record_value(
                        report,
                        layout.pressure,
                        slot,
                        "goodix: malformed HID pressure field",
                    ),
                    record_value(
                        report,
                        layout.touch_major,
                        slot,
                        "goodix: malformed HID touch-major field",
                    ),
                ) {
                    (Err(e), _, _) => Err(e),
                    (_, Err(e), _) => Err(e),
                    (_, _, Err(e)) => Err(e),
                    (Ok(hardware_id), Ok(pressure), Ok(touch_major)) => Ok(
                        Some(
                            HidContact {
                                descriptor_slot: slot as usize,
                                hardware_id,
                                x,
                                y,
                                pressure,
                                touch_major,
                            },
                        ),
                    ),
                },
            }
        },
    }
}

/// The active contacts among the first `count` records.
pub open spec fn contact_records(report: Seq<u8>, layout: LayoutView, count: int) -> Result<
    Seq<HidContact>,
    &'static str,
>
    decreases count,
{
    if count <= 0 {
        Ok(Seq::empty())
    } else {
        match contact_records(report, layout, count - 1) {
            Err(e) => Err(e),
            Ok(before) => match contact_record(report, layout, count - 1) {
                Err(e) => Err(e),
                Ok(None) => Ok(before),
                Ok(Some(contact)) => Ok(before.push(contact)),
            },
        }
    }
}

/// How many records the report announces.
pub open spec fn reported_contacts(report: Seq<u8>, layout: LayoutView) -> Option<int> {
    match layout.contact_count {
        Some(field) => match field_bits(report, field) {
            Some(count) => Some(count as int),
            None => None,
        },
        None => Some(layout.capacity()),
    }
}

/// All contacts of one report.
pub open spec fn report_contacts(report: Seq<u8>, layout: LayoutView) -> Result<
    Seq<HidContact>,
    &'static str,
> {
    match reported_contacts(report, layout) {
        None => Err("goodix: malformed HID contact count"),
        Some(count) => contact_records(report, layout, least(count, layout.capacity())),
    }
}

fn record_field(
    report: &[u8],
    fields: &Vec<HidField>,
    slot: usize,
    error: &'static str,
) -> (r: Result<Option<i32>, &'static str>)
    ensures
        r == record_value(report@, fields@, slot as int, error),
{
    if slot < fields.len() {
        match extract_logical_value(report, fields[slot]) {
            Some(value) => Ok(Some(value)),
            None => Err(error),
        }
    } else {
        Ok(None)
    }
}

fn decode_contact(report: &[u8], layout: &HidTouchLayout, slot: usize) -> (r: Result<
    Option<HidContact>,
    &'static str,
>)
    requires
        slot < layout@.capacity(),
    ensures
        r == contact_record(report@, layout@, slot as int),
{
    let tip: u32 = match extract_bits(report, layout.tips[slot]) {
        Some(tip) => tip,
        None => {
            return Err("goodix: malformed HID tip field");
        },
    };
    if tip == 0 {
        return Ok(None);
    }
    let x: i32 = match extract_logical_value(report, layout.x[slot]) {
        Some(x) => x,
        None => {
            return Err("goodix: malformed HID X field");
        },
    };
    let y: i32 = match extract_logical_value(report, layout.y[slot]) {
        Some(y) => y,
        None => {
            return Err("goodix: malformed HID Y field");
        },
    };
    let hardware_id = record_field(
        report,
        &layout.contact_ids,
        slot,
        "goodix: malformed HID contact identifier",
    )?;
    let pressure = record_field(
        report,
        &layout.pressure,
        slot,
        "goodix: malformed HID pressure field",
    )?;
    let touch_major = record_field(
        report,
        &layout.touch_major,
        slot,
        "goodix: malformed HID touch-major field",
    )?;
    Ok(Some(HidContact { descriptor_slot: slot, hardware_id, x, y, pressure, touch_major }))
}

/// Decodes the active contact records in one HID input report. A descriptor
/// may omit Contact Identifier; `descriptor_slot` is then a stable identity
/// for slot tracking.
pub fn decode_contacts(report: &[u8], layout: &HidTouchLayout) -> (r: Result<
    Vec<HidContact>,
    &'static str,
>)
    ensures
        match r {
            Ok(contacts) => report_contacts(report@, layout@) == Ok::<Seq<HidContact>, &'static str>(
                contacts@,
            ),
            Err(e) => report_contacts(report@, layout@) == Err::<Seq<HidContact>, &'static str>(e),
        },
{
    let capacity: usize = layout.contact_capacity();
    let reported: u64 = match layout.contact_count {
        Some(field) => match extract_bits(report, field) {
            Some(count) => count as u64,
            None => {
                return Err("goodix: malformed HID contact count");
            },
        },
        None => capacity as u64,
    };
    let count: usize = if reported < capacity as u64 {
        reported as usize
    } else {
        capacity
    };
    let mut contacts: Vec<HidContact> = Vec::new();
    let mut slot: usize = 0;
    while slot < count
        invariant
            slot <= count <= capacity,
            capacity == layout@.capacity(),
            reported_contacts(report@, layout@) is Some,
            count == least(reported_contacts(report@, layout@)->Some_0, layout@.capacity()),
            contact_records(report@, layout@, slot as int) == Ok::<Seq<HidContact>, &'static str>(
                contacts@,
            ),
        decreases count - slot,
    {
        match decode_contact(report, layout, slot) {
            Err(e) => {
                proof {
                    later_records_keep_the_error(report@, layout@, slot + 1, count as int);
                }
                return Err(e);
            },
            Ok(None) => {},
            Ok(Some(contact)) => {
                contacts.push(contact);
            },
        }
        slot = slot + 1;
    }
    Ok(contacts)
}

proof fn later_records_keep_the_error(report: Seq<u8>, layout: LayoutView, from: int, to: int)
    requires
        0 <= from <= to,
        contact_records(report, layout, from) is Err,
    ensures
        contact_records(report, layout, to) == contact_records(report, layout, from),
    decreases to - from,
{
    if from < to {
        later_records_keep_the_error(report, layout, from, to - 1);
    }
}

/// Decoded contacts come in record order, each from a distinct record within
/// the layout's capacity and with its tip switch closed.
pub proof fn contacts_are_distinct_active_records(report: Seq<u8>, layout: LayoutView)
    requires
        layout.capacity() <= usize::MAX,
    ensures
        report_contacts(report, layout) matches Ok(contacts) ==> {
            &&& contacts.len() <= layout.capacity()
            &&& forall|i: int, j: int|
                #![trigger contacts[i], contacts[j]]
                0 <= i < j < contacts.len() ==> contacts[i].descriptor_slot
                    < contacts[j].descriptor_slot
            &&& forall|i: int|
                #![trigger contacts[i]]
                0 <= i < contacts.len() ==> {
                    let slot = contacts[i].descriptor_slot as int;
                    &&& slot < layout.capacity()
                    &&& field_bits(report, layout.tips[slot]) matches Some(tip)
                    &&& tip != 0
                }
        },
{
    if reported_contacts(report, layout) is Some {
        let count = least(reported_contacts(report, layout)->Some_0, layout.capacity());
        records_are_distinct(report, layout, count);
    }
}

proof fn records_are_distinct(report: Seq<u8>, layout: LayoutView, count: int)
    requires
        count <= layout.capacity(),
        layout.capacity() <= usize::MAX,
    ensures
        contact_records(report, layout, count) matches Ok(contacts) ==> {
            &&& contacts.len() <= if count < 0 { 0 } else { count }
            &&& forall|i: int, j: int|
                #![trigger contacts[i], contacts[j]]
                0 <= i < j < contacts.len() ==> contacts[i].descriptor_slot
                    < contacts[j].descriptor_slot
            &&& forall|i: int|
                #![trigger contacts[i]]
                0 <= i < contacts.len() ==> {
                    let slot = contacts[i].descriptor_slot as int;
                    &&& slot < count
                    &&& field_bits(report, layout.tips[slot]) matches Some(tip)
                    &&& tip != 0
                }
        },
    decreases count,
{
    if count > 0 {
        records_are_distinct(report, layout, count - 1);
    }
}

} // verus!
