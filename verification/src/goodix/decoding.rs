//! What the fields of an input report mean.

use vstd::arithmetic::power2::pow2;
use vstd::prelude::*;

use crate::bytes::{le16, le16_bytes};
use crate::goodix::{input_message, ReportView};
use crate::goodix::hid::{
    bits_value, bits_value_is_bounded, contact_record, contact_records, field_bits, field_in_report,
    field_value, least, report_bit, report_contacts, reported_contacts, HidContact, HidField,
    LayoutView,
};

verus! {

/// Bit `k` of a field's value is bit `k` of the field in the report, counting
/// bits from the lowest of the first byte on.
pub proof fn field_bits_are_report_bits(report: Seq<u8>, offset: int, count: int, k: int)
    requires
        0 <= k < count,
    ensures
        bits_value(report, offset, count) / pow2(k as nat) as int % 2 == report_bit(
            report,
            offset + k,
        ),
    decreases count,
{
    let below = bits_value(report, offset, count - 1);
    let bit = report_bit(report, offset + count - 1) as int;
    bits_value_is_bounded(report, offset, count - 1);
    vstd::arithmetic::power2::lemma_pow2_pos(k as nat);
    let byte = report[(offset + count - 1) / 8];
    let shift = ((offset + count - 1) % 8) as u8;
    assert((byte >> shift) & 1u8 <= 1) by (bit_vector);
    let unit = pow2(k as nat) as int;
    if k == count - 1 {
        assert((below + bit * unit) / unit == bit) by (nonlinear_arith)
            requires
                0 <= below < unit,
                0 <= bit,
        ;
    } else {
        field_bits_are_report_bits(report, offset, count - 1, k);
        let above = pow2((count - 1 - (k + 1)) as nat) as int;
        vstd::arithmetic::power2::lemma_pow2_adds((k + 1) as nat, (count - 1 - (k + 1)) as nat);
        vstd::arithmetic::power2::lemma_pow2_unfold((k + 1) as nat);
        let weight = pow2((count - 1) as nat) as int;
        assert(weight == 2 * unit * above);
        let more = bit * above;
        assert(bit * weight == unit * (2 * more)) by (nonlinear_arith)
            requires
                weight == 2 * unit * above,
                more == bit * above,
        ;
        assert((below + unit * (2 * more)) / unit == below / unit + 2 * more) by {
            vstd::arithmetic::div_mod::lemma_hoist_over_denominator(below, 2 * more, unit as nat);
            assert(unit * (2 * more) == 2 * more * unit) by (nonlinear_arith);
        }
    }
}

/// A report bit is one bit of its byte.
pub proof fn report_bits_are_byte_bits(report: Seq<u8>, byte: int, bit: int)
    requires
        0 <= byte < report.len(),
        0 <= bit < 8,
    ensures
        report_bit(report, 8 * byte + bit) == if bit == 0 {
            report[byte] & 1
        } else if bit == 1 {
            (report[byte] & 2) / 2
        } else if bit == 2 {
            (report[byte] & 4) / 4
        } else if bit == 3 {
            (report[byte] & 8) / 8
        } else if bit == 4 {
            (report[byte] & 0x10) / 0x10
        } else if bit == 5 {
            (report[byte] & 0x20) / 0x20
        } else if bit == 6 {
            (report[byte] & 0x40) / 0x40
        } else {
            (report[byte] & 0x80) / 0x80
        },
{
    let b = report[byte];
    let shift = bit as u8;
    assert((8 * byte + bit) / 8 == byte && (8 * byte + bit) % 8 == bit);
    assert((b >> shift) & 1u8 == if shift == 0 {
        b & 1
    } else if shift == 1 {
        (b & 2) / 2
    } else if shift == 2 {
        (b & 4) / 4
    } else if shift == 3 {
        (b & 8) / 8
    } else if shift == 4 {
        (b & 0x10) / 0x10
    } else if shift == 5 {
        (b & 0x20) / 0x20
    } else if shift == 6 {
        (b & 0x40) / 0x40
    } else {
        (b & 0x80) / 0x80
    }) by (bit_vector)
        requires
            shift < 8,
    ;
}

/// A field is read where it lies in the report and is one to 32 bits wide. A
/// range from zero up reads as the bits say; one that reaches below zero gives
/// the value with the same low bits that has the sign of the highest one.
pub proof fn field_values_fit_their_bits(report: Seq<u8>, field: HidField)
    requires
        field.bit_offset + field.bit_size <= usize::MAX,
    ensures
        field_bits(report, field) is Some <==> 1 <= field.bit_size <= 32 && field.bit_offset
            + field.bit_size <= 8 * report.len(),
        field.logical_minimum >= 0 ==> (field_value(report, field) matches Some(value)
            ==> field_bits(report, field) == Some(value as u32) && value >= 0),
        field.logical_minimum < 0 ==> (field_bits(report, field) matches Some(raw)
            ==> field_value(report, field) matches Some(value) && {
            let span = pow2(field.bit_size as nat) as int;
            &&& value == raw || value == raw - span
            &&& -span <= 2 * value < span
        }),
{
    if field_in_report(report, field) {
        bits_value_is_bounded(report, field.bit_offset as int, field.bit_size as int);
        vstd::arithmetic::power2::lemma2_to64();
        if field.bit_size < 32 {
            vstd::arithmetic::power2::lemma_pow2_strictly_increases(field.bit_size as nat, 32);
        }
        vstd::arithmetic::power2::lemma_pow2_unfold(field.bit_size as nat);
        vstd::arithmetic::power2::lemma_pow2_pos((field.bit_size - 1) as nat);
    }
}

/// The contact of a record has the values of the record's own fields: each
/// coordinate, and the identifier, pressure and size where the layout has them.
pub proof fn contacts_have_their_records_values(report: Seq<u8>, layout: LayoutView, slot: int)
    requires
        0 <= slot < layout.capacity(),
        layout.capacity() <= usize::MAX,
    ensures
        contact_record(report, layout, slot) matches Ok(Some(contact)) ==> {
            &&& contact.descriptor_slot == slot
            &&& field_bits(report, layout.tips[slot]) matches Some(tip) && tip != 0
            &&& field_value(report, layout.x[slot]) == Some(contact.x)
            &&& field_value(report, layout.y[slot]) == Some(contact.y)
            &&& contact.hardware_id == if slot < layout.contact_ids.len() {
                field_value(report, layout.contact_ids[slot])
            } else {
                None
            }
            &&& contact.pressure == if slot < layout.pressure.len() {
                field_value(report, layout.pressure[slot])
            } else {
                None
            }
            &&& contact.touch_major == if slot < layout.touch_major.len() {
                field_value(report, layout.touch_major[slot])
            } else {
                None
            }
        },
        contact_record(report, layout, slot) == Ok::<Option<HidContact>, &'static str>(None)
            <==> field_bits(report, layout.tips[slot]) == Some(0u32),
{
}

proof fn every_touched_record_is_listed(
    report: Seq<u8>,
    layout: LayoutView,
    count: int,
    slot: int,
)
    requires
        0 <= slot < count <= layout.capacity(),
        layout.capacity() <= usize::MAX,
        contact_records(report, layout, count) is Ok,
        field_bits(report, layout.tips[slot]) != Some(0u32),
    ensures
        contact_record(report, layout, slot) matches Ok(Some(contact))
            && contact_records(report, layout, count)->Ok_0.contains(contact),
    decreases count,
{
    let before = contact_records(report, layout, count - 1);
    let all = contact_records(report, layout, count)->Ok_0;
    if slot == count - 1 {
        assert(all[all.len() - 1] == contact_record(report, layout, slot)->Ok_0->Some_0);
    } else {
        every_touched_record_is_listed(report, layout, count - 1, slot);
        let contact = contact_record(report, layout, slot)->Ok_0->Some_0;
        let i = choose|i: int| 0 <= i < before->Ok_0.len() && before->Ok_0[i] == contact;
        assert(all[i] == contact);
    }
}

/// Every record that the report counts and whose tip switch is closed is one of
/// the contacts. Without a count all records are looked at.
pub proof fn no_touched_record_is_left_out(report: Seq<u8>, layout: LayoutView, slot: int)
    requires
        0 <= slot < layout.capacity(),
        layout.capacity() <= usize::MAX,
        layout.contact_count matches Some(field) ==> (field_bits(report, field) matches Some(count)
            && slot < count),
        report_contacts(report, layout) is Ok,
        field_bits(report, layout.tips[slot]) != Some(0u32),
    ensures
        contact_record(report, layout, slot) matches Ok(Some(contact)) && report_contacts(
            report,
            layout,
        )->Ok_0.contains(contact),
{
    let count = least(reported_contacts(report, layout)->Some_0, layout.capacity());
    every_touched_record_is_listed(report, layout, count, slot);
}

/// No contact comes from a record that the report does not count.
pub proof fn uncounted_records_are_left_out(report: Seq<u8>, layout: LayoutView)
    requires
        layout.contact_count is Some,
        field_bits(report, layout.contact_count->Some_0) == Some(0u32),
    ensures
        report_contacts(report, layout) == Ok::<Seq<HidContact>, &'static str>(Seq::empty()),
{
}

/// A report is framed by its length, which counts itself: what was framed is
/// what is read, whatever follows it in the buffer. A length of zero is no
/// report, and one that the buffer does not hold is refused.
pub proof fn framed_reports_are_read(report: Seq<u8>, padding: Seq<u8>, layout: LayoutView)
    requires
        report.len() + 2 <= 0xffff,
        layout.report_id == 0 || report.len() > 0 && report[0] == layout.report_id,
    ensures
        ({
            let data = le16_bytes(report.len() as int + 2) + report + padding;
            match report_contacts(report, layout) {
                Ok(contacts) => input_message(data, layout) == ReportView::Contacts(contacts),
                Err(_) => input_message(data, layout) is Malformed,
            }
        }),
        input_message(seq![0u8, 0u8] + padding, layout) is Ignored,
{
    let length = report.len() as int + 2;
    let data = le16_bytes(length) + report + padding;
    assert(le16_bytes(length).len() == 2);
    assert(data[0] == (length % 0x100) as u8);
    assert(data[1] == (length / 0x100 % 0x100) as u8);
    assert(le16(data, 0) == length);
    assert(data.subrange(2, length) =~= report);
    let none = seq![0u8, 0u8] + padding;
    assert(none[0] == 0 && none[1] == 0);
}

/// A report with another identifier than the layout's is none of its own.
pub proof fn other_reports_are_ignored(data: Seq<u8>, layout: LayoutView)
    requires
        layout.report_id != 0,
        data.len() >= 3,
        3 <= le16(data, 0) <= data.len(),
        data[2] != layout.report_id,
    ensures
        input_message(data, layout) is Ignored,
{
    assert(data.subrange(2, le16(data, 0))[0] == data[2]);
}

} // verus!
